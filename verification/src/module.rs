//! The virtual-table lifecycle: creating a table from its arguments and
//! declaring its schema. Creating and connecting are the same operation,
//! since the schema is always derived anew from a fresh fetch.

use vstd::prelude::*;
use crate::client::GoogleSheetsReadOnlyClient;
use crate::error::SheetError;
use crate::module_argument::{collect_options_from_args, collect_state, args_model};
use crate::sheet::Sheet;

verus! {

/// The module under which the host registers this adapter.
pub struct Module {
    pub name: String,
}

impl Module {
    pub fn new() -> (m: Module)
        ensures
            m.name@ == "gsqlite"@,
    {
        Module { name: String::from_str("gsqlite") }
    }

    /// Builds the table a creation request describes: validates the
    /// arguments and constructs a table with no rows yet. A missing
    /// identifier or sheet name, or a range without valid rows, fails
    /// fast, before any fetch.
    pub fn create(&self, client: GoogleSheetsReadOnlyClient, args: &Vec<String>) -> (r: Result<
        Sheet,
        SheetError,
    >)
        ensures
            ({
                let st = collect_state(args_model(args@));
                if st.id.len() == 0 {
                    r == Err::<Sheet, SheetError>(SheetError::NoId)
                } else if st.sheet.len() == 0 {
                    r == Err::<Sheet, SheetError>(SheetError::NoSheet)
                } else if st.r1 == 0 || st.r2 == 0 {
                    r == Err::<Sheet, SheetError>(SheetError::InvalidRange)
                } else {
                    r matches Ok(sh) && sh.client == client && sh.rows@.len() == 0 && sh.id@
                        == st.id && sh.sheet@ == st.sheet && sh.range.c1@ == st.c1 && sh.range.r1
                        == st.r1 && sh.range.c2@ == st.c2 && sh.range.r2 == st.r2
                }
            }),
    {
        match collect_options_from_args(args) {
            Ok((id, sheet, range)) => Ok(Sheet::new(client, id, sheet, range)),
            Err(e) => Err(e),
        }
    }

    /// Connecting is the same construction path as creating.
    pub fn connect(&self, client: GoogleSheetsReadOnlyClient, args: &Vec<String>) -> (r: Result<
        Sheet,
        SheetError,
    >)
        ensures
            ({
                let st = collect_state(args_model(args@));
                if st.id.len() == 0 {
                    r == Err::<Sheet, SheetError>(SheetError::NoId)
                } else if st.sheet.len() == 0 {
                    r == Err::<Sheet, SheetError>(SheetError::NoSheet)
                } else if st.r1 == 0 || st.r2 == 0 {
                    r == Err::<Sheet, SheetError>(SheetError::InvalidRange)
                } else {
                    r matches Ok(sh) && sh.client == client && sh.rows@.len() == 0 && sh.id@
                        == st.id && sh.sheet@ == st.sheet && sh.range.c1@ == st.c1 && sh.range.r1
                        == st.r1 && sh.range.c2@ == st.c2 && sh.range.r2 == st.r2
                }
            }),
    {
        self.create(client, args)
    }
}

/// Joins column names with `", "`.
pub open spec fn spec_join_columns(cs: Seq<Seq<char>>) -> Seq<char>
    decreases cs.len(),
{
    if cs.len() == 0 {
        Seq::empty()
    } else if cs.len() == 1 {
        cs[0]
    } else {
        spec_join_columns(cs.drop_last()) + ", "@ + cs.last()
    }
}

pub open spec fn columns_model(cs: Seq<String>) -> Seq<Seq<char>> {
    Seq::new(cs.len(), |i: int| cs[i]@)
}

/// The schema declaration the host receives: a single table named `sheet`
/// whose untyped columns are exactly the computed letter names.
pub fn create_declare_table_statement(columns: &Vec<String>) -> (r: String)
    ensures
        r@ == "CREATE TABLE sheet("@ + spec_join_columns(columns_model(columns@)) + ")"@,
{
    let mut out = String::from_str("CREATE TABLE sheet(");
    let mut i: usize = 0;
    while i < columns.len()
        invariant
            i <= columns@.len(),
            out@ == "CREATE TABLE sheet("@ + spec_join_columns(
                columns_model(columns@).take(i as int),
            ),
        decreases columns@.len() - i,
    {
        proof {
            assert(columns_model(columns@).take(i + 1).drop_last() =~= columns_model(
                columns@,
            ).take(i as int));
            assert(columns_model(columns@).take(i + 1).last() == columns@[i as int]@);
        }
        if i > 0 {
            out.append(", ");
        }
        out.append(columns[i].as_str());
        proof {
            if i == 0 {
                assert(spec_join_columns(columns_model(columns@).take(1)) == columns@[0]@);
            }
        }
        i = i + 1;
    }
    proof {
        assert(columns_model(columns@).take(columns@.len() as int) =~= columns_model(columns@));
    }
    out.append(")");
    out
}

} // verus!
