//! The remote-source client surface: the configuration a fetch needs, and
//! the pure pieces of it — turning a URL-shaped identifier into a sheet
//! id, assembling the request parts, and deciding whether a cached access
//! credential is still fresh.
//!
//! The HTTP round trip and the interactive authorization flow themselves
//! are external collaborators and live outside this library.

use vstd::prelude::*;
use crate::error::Error;
use crate::range::Range;
use crate::text::{scan_cl, scan_class, lemma_scan_cl, CharClass, spec_dec_digits};

verus! {

/// Configuration for read-only access to the remote spreadsheet provider.
pub struct GoogleSheetsReadOnlyClient {
    pub client_id: String,
    pub client_secret: String,
    pub port: u16,
    pub google_auth_url: String,
    pub google_token_url: String,
    pub content_url: String,
    pub cache_access_token: bool,
}

/// Step-by-step constructor for the client configuration, with the
/// provider's default endpoints filled in.
pub struct GoogleSheetsReadOnlyClientBuilder {
    pub client_id: String,
    pub client_secret: String,
    pub port: u16,
    pub google_auth_url: String,
    pub google_token_url: String,
    pub content_url: String,
    pub cache_access_token: bool,
}

impl GoogleSheetsReadOnlyClient {
    pub fn builder() -> (b: GoogleSheetsReadOnlyClientBuilder)
        ensures
            b.client_id@ == Seq::<char>::empty(),
            b.client_secret@ == Seq::<char>::empty(),
            b.port == 8080,
            b.google_auth_url@ == "https://accounts.google.com/o/oauth2/auth"@,
            b.google_token_url@ == "https://oauth2.googleapis.com/token"@,
            b.content_url@ == "https://content-sheets.googleapis.com/v4/spreadsheets/"@,
            b.cache_access_token == false,
    {
        GoogleSheetsReadOnlyClientBuilder {
            client_id: String::new(),
            client_secret: String::new(),
            port: 8080,
            google_auth_url: String::from_str("https://accounts.google.com/o/oauth2/auth"),
            google_token_url: String::from_str("https://oauth2.googleapis.com/token"),
            content_url: String::from_str("https://content-sheets.googleapis.com/v4/spreadsheets/"),
            cache_access_token: false,
        }
    }
}

impl GoogleSheetsReadOnlyClientBuilder {
    pub fn client_id(self, v: String) -> (b: Self)
        ensures
            b == (GoogleSheetsReadOnlyClientBuilder { client_id: v, ..self }),
    {
        GoogleSheetsReadOnlyClientBuilder { client_id: v, ..self }
    }

    pub fn client_secret(self, v: String) -> (b: Self)
        ensures
            b == (GoogleSheetsReadOnlyClientBuilder { client_secret: v, ..self }),
    {
        GoogleSheetsReadOnlyClientBuilder { client_secret: v, ..self }
    }

    pub fn port(self, v: u16) -> (b: Self)
        ensures
            b == (GoogleSheetsReadOnlyClientBuilder { port: v, ..self }),
    {
        GoogleSheetsReadOnlyClientBuilder { port: v, ..self }
    }

    pub fn cache_access_token(self, v: bool) -> (b: Self)
        ensures
            b == (GoogleSheetsReadOnlyClientBuilder { cache_access_token: v, ..self }),
    {
        GoogleSheetsReadOnlyClientBuilder { cache_access_token: v, ..self }
    }

    pub fn google_auth_url(self, v: String) -> (b: Self)
        ensures
            b == (GoogleSheetsReadOnlyClientBuilder { google_auth_url: v, ..self }),
    {
        GoogleSheetsReadOnlyClientBuilder { google_auth_url: v, ..self }
    }

    pub fn google_token_url(self, v: String) -> (b: Self)
        ensures
            b == (GoogleSheetsReadOnlyClientBuilder { google_token_url: v, ..self }),
    {
        GoogleSheetsReadOnlyClientBuilder { google_token_url: v, ..self }
    }

    pub fn content_url(self, v: String) -> (b: Self)
        ensures
            b == (GoogleSheetsReadOnlyClientBuilder { content_url: v, ..self }),
    {
        GoogleSheetsReadOnlyClientBuilder { content_url: v, ..self }
    }

    pub fn build(self) -> (c: GoogleSheetsReadOnlyClient)
        ensures
            c.client_id == self.client_id,
            c.client_secret == self.client_secret,
            c.port == self.port,
            c.google_auth_url == self.google_auth_url,
            c.google_token_url == self.google_token_url,
            c.content_url == self.content_url,
            c.cache_access_token == self.cache_access_token,
    {
        GoogleSheetsReadOnlyClient {
            client_id: self.client_id,
            client_secret: self.client_secret,
            port: self.port,
            google_auth_url: self.google_auth_url,
            google_token_url: self.google_token_url,
            content_url: self.content_url,
            cache_access_token: self.cache_access_token,
        }
    }
}

pub open spec fn has_https_prefix(s: Seq<char>) -> bool {
    s.len() >= 8 && s[0] == 'h' && s[1] == 't' && s[2] == 't' && s[3] == 'p' && s[4] == 's'
        && s[5] == ':' && s[6] == '/' && s[7] == '/'
}

/// The sheet identifier hidden in a sharing URL: the third path segment
/// after a non-empty host; any other `https://`-prefixed shape yields
/// nothing, and a plain identifier passes through unchanged.
///
/// This is a deliberate textual grammar of its own, not a general URL
/// parser: segments are split on `/` up to the first `?` or `#`, taken
/// verbatim (no dot-segment removal, no percent-decoding), and every
/// ill-fitting `https://` string is answered with the invalid-identifier
/// error rather than a parse error.
pub open spec fn spec_sheet_id(s: Seq<char>) -> Option<Seq<char>> {
    if !has_https_prefix(s) {
        Some(s)
    } else {
        let r = s.skip(8);
        let h = scan_cl(r, 0, CharClass::PathSeg);
        if h == 0 || h >= r.len() || r[h] != '/' {
            None
        } else {
            let s1 = scan_cl(r, h + 1, CharClass::PathSeg);
            if s1 >= r.len() || r[s1] != '/' {
                None
            } else {
                let s2 = scan_cl(r, s1 + 1, CharClass::PathSeg);
                if s2 >= r.len() || r[s2] != '/' {
                    None
                } else {
                    Some(r.subrange(s2 + 1, scan_cl(r, s2 + 1, CharClass::PathSeg)))
                }
            }
        }
    }
}

/// Reduces a sheet identifier that may be given as a sharing URL to the
/// bare identifier.
pub fn normalize_sheet_id(id: &str) -> (r: Result<String, Error>)
    ensures
        match spec_sheet_id(id@) {
            Some(v) => r matches Ok(s) && s@ == v,
            None => r == Err::<String, Error>(Error::InvalidSheetId),
        },
{
    let n = id.unicode_len();
    let prefixed = n >= 8 && id.get_char(0) == 'h' && id.get_char(1) == 't' && id.get_char(2)
        == 't' && id.get_char(3) == 'p' && id.get_char(4) == 's' && id.get_char(5) == ':'
        && id.get_char(6) == '/' && id.get_char(7) == '/';
    if !prefixed {
        return Ok(id.to_owned());
    }
    let rest = id.substring_char(8, n);
    proof {
        assert(rest@ =~= id@.skip(8));
    }
    let m = rest.unicode_len();
    let h = scan_class(rest, 0, &CharClass::PathSeg);
    proof {
        lemma_scan_cl(rest@, 0, CharClass::PathSeg);
    }
    if h == 0 || h >= m || rest.get_char(h) != '/' {
        return Err(Error::InvalidSheetId);
    }
    let s1 = scan_class(rest, h + 1, &CharClass::PathSeg);
    if s1 >= m || rest.get_char(s1) != '/' {
        return Err(Error::InvalidSheetId);
    }
    let s2 = scan_class(rest, s1 + 1, &CharClass::PathSeg);
    if s2 >= m || rest.get_char(s2) != '/' {
        return Err(Error::InvalidSheetId);
    }
    let s3 = scan_class(rest, s2 + 1, &CharClass::PathSeg);
    let seg = rest.substring_char(s2 + 1, s3);
    Ok(seg.to_owned())
}

impl GoogleSheetsReadOnlyClient {
    /// The content URL of one spreadsheet: the configured endpoint with the
    /// bare identifier appended.
    pub fn request_url(&self, id: &str) -> (r: String)
        ensures
            r@ == self.content_url@ + id@,
    {
        let mut out = self.content_url.clone();
        out.append(id);
        out
    }
}

/// The `ranges` query parameter: sheet name, `!`, then the range text.
pub fn range_param(sheet_name: &str, range: &Range) -> (r: String)
    ensures
        r@ == sheet_name@ + seq!['!'] + range.c1@ + spec_dec_digits(range.r1 as int) + seq![':']
            + range.c2@ + spec_dec_digits(range.r2 as int),
{
    let mut out = sheet_name.to_owned();
    crate::text::push_char(&mut out, '!');
    let rs = range.to_string();
    out.append(rs.as_str());
    proof {
        assert(out@ =~= sheet_name@ + seq!['!'] + range.c1@ + spec_dec_digits(range.r1 as int)
            + seq![':'] + range.c2@ + spec_dec_digits(range.r2 as int));
    }
    out
}

/// The `Authorization` header value carrying a bearer credential.
pub fn bearer_header(token: &str) -> (r: String)
    ensures
        r@ == "Bearer "@ + token@,
{
    let mut out = String::from_str("Bearer ");
    out.append(token);
    out
}

/// Whether a cached access credential is still fresh: it was created less
/// than 59 minutes before now.
pub fn cache_is_fresh(created_secs: i64, now_secs: i64) -> (r: bool)
    requires
        created_secs <= i64::MAX - 3540,
    ensures
        r == (created_secs + 3540 > now_secs),
{
    created_secs + 3540 > now_secs
}

} // verus!
