use gsqlite::client::{
    bearer_header, cache_is_fresh, normalize_sheet_id, range_param, GoogleSheetsReadOnlyClient,
};
use gsqlite::error::Error;
use gsqlite::range::Range;

#[test]
fn test_builder_defaults() {
    let c = GoogleSheetsReadOnlyClient::builder().build();
    assert_eq!(8080, c.port);
    assert_eq!("https://accounts.google.com/o/oauth2/auth", c.google_auth_url);
    assert_eq!("https://oauth2.googleapis.com/token", c.google_token_url);
    assert_eq!(
        "https://content-sheets.googleapis.com/v4/spreadsheets/",
        c.content_url
    );
    assert!(!c.cache_access_token);
    assert_eq!("", c.client_id);
}

#[test]
fn test_builder_overrides() {
    let c = GoogleSheetsReadOnlyClient::builder()
        .client_id("id".to_string())
        .client_secret("secret".to_string())
        .port(9999)
        .cache_access_token(true)
        .google_auth_url("http://localhost/auth".to_string())
        .google_token_url("http://localhost/token".to_string())
        .content_url("http://localhost/content/".to_string())
        .build();
    assert_eq!("id", c.client_id);
    assert_eq!("secret", c.client_secret);
    assert_eq!(9999, c.port);
    assert!(c.cache_access_token);
    assert_eq!("http://localhost/auth", c.google_auth_url);
    assert_eq!("http://localhost/token", c.google_token_url);
    assert_eq!("http://localhost/content/", c.content_url);
}

#[test]
fn test_normalize_plain_id_passes_through() {
    assert_eq!("abc123", normalize_sheet_id("abc123").unwrap());
    assert_eq!("", normalize_sheet_id("").unwrap());
}

#[test]
fn test_normalize_sharing_url_takes_third_path_segment() {
    let url = "https://docs.google.com/spreadsheets/d/1XyZ_abc/edit#gid=0";
    assert_eq!("1XyZ_abc", normalize_sheet_id(url).unwrap());
    let short = "https://docs.google.com/spreadsheets/d/1XyZ_abc";
    assert_eq!("1XyZ_abc", normalize_sheet_id(short).unwrap());
}

#[test]
fn test_normalize_url_without_enough_segments_fails() {
    for url in [
        "https://docs.google.com",
        "https://docs.google.com/",
        "https://docs.google.com/spreadsheets",
        "https://docs.google.com/spreadsheets/d",
    ] {
        assert_eq!(Err(Error::InvalidSheetId), normalize_sheet_id(url), "url {:?}", url);
    }
}

#[test]
fn test_request_url_appends_id() {
    let c = GoogleSheetsReadOnlyClient::builder().build();
    assert_eq!(
        "https://content-sheets.googleapis.com/v4/spreadsheets/abc",
        c.request_url("abc")
    );
}

#[test]
fn test_range_param_and_bearer_header() {
    let r = Range::parse("A2:D5");
    assert_eq!("Jan!A2:D5", range_param("Jan", &r));
    assert_eq!("Bearer tok", bearer_header("tok"));
}

#[test]
fn test_cache_freshness_window() {
    let created = 1_000_000i64;
    assert!(cache_is_fresh(created, created + 3539));
    assert!(!cache_is_fresh(created, created + 3540));
    assert!(cache_is_fresh(created, created));
}
