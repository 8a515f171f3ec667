//! The handler that lists the tables of the database and answers with their
//! names as a JSON array.

use vstd::prelude::*;

pub use crate::gateway::{Identity, RequestContext};
use crate::text::{json_string_array, json_string_array_text};

verus! {

/// The HTTP response.
#[derive(Clone, Debug, PartialEq)]
pub struct CustomOutput {
    pub is_base64_encoded: bool,
    pub status_code: u16,
    pub body: String,
}

impl CustomOutput {
    /// The successful answer with the body `body`: status 200, not base64.
    pub fn new(body: String) -> (out: Self)
        ensures
            out.status_code == 200,
            !out.is_base64_encoded,
            out.body@ == body@,
    {
        CustomOutput { is_base64_encoded: false, status_code: 200, body }
    }
}

/// The body listing the tables: the JSON array of `table_names`, or `[]`
/// when the listing gave no names.
pub open spec fn tables_body(table_names: Option<Seq<Seq<char>>>) -> Seq<char> {
    match table_names {
        Some(names) => json_string_array(names),
        None => "[]"@,
    }
}

/// Without names the body is the empty array `[]`; with names it is their
/// JSON array.
pub proof fn lemma_tables_body_cases(names: Seq<Seq<char>>)
    ensures
        tables_body(None) == seq!['[', ']'],
        tables_body(Some(names)) == json_string_array(names),
{
    reveal_strlit("[]");
    assert("[]"@ =~= seq!['[', ']']);
}

/// The handler's answer to the listing `table_names` (`None` where the
/// listing failed or named no tables).
pub fn respond(table_names: Option<Vec<String>>) -> (out: CustomOutput)
    ensures
        out.status_code == 200,
        !out.is_base64_encoded,
        out.body@ == tables_body(
            match table_names {
                Some(names) => Some(names@.map_values(|name: String| name@)),
                None => None,
            },
        ),
{
    let body = match &table_names {
        Some(names) => json_string_array_text(names),
        None => "[]".to_owned(),
    };
    CustomOutput::new(body)
}

} // verus!
