//! The handler that echoes a clap request: it answers with the post and the
//! number of claps of the request body, without touching the table.

use vstd::prelude::*;

pub use crate::gateway::{Identity, RequestContext};
use crate::gateway::{cors_json_header_list, cors_json_headers, Header};
use crate::text::{int_text, int_to_text, json_quoted, quote_json};

verus! {

/// The query string of the request.
#[derive(Clone, Debug, Default, PartialEq)]
pub struct QueryString {
    pub slug: Option<String>,
}

/// The request body: a post and a number of claps.
#[derive(Clone, Debug, Default, PartialEq)]
pub struct Body {
    pub slug: String,
    pub claps: u32,
}

/// The gateway event the handler receives, with its body already decoded
/// from JSON (`None` where the event has no body).
#[derive(Clone, Debug, Default, PartialEq)]
pub struct CustomEvent {
    pub query_string_parameters: Option<QueryString>,
    pub body: Option<Body>,
    pub request_context: Option<RequestContext>,
}

/// The HTTP response.
#[derive(Clone, Debug, PartialEq)]
pub struct CustomOutput {
    pub is_base64_encoded: bool,
    pub status_code: u16,
    pub body: String,
    pub headers: Vec<Header>,
}

/// `out` is the successful answer with the body `body`: status 200, a plain
/// (not base64) body, and the JSON headers allowing any origin.
pub open spec fn ok_response(out: CustomOutput, body: Seq<char>) -> bool {
    &&& out.status_code == 200
    &&& !out.is_base64_encoded
    &&& out.body@ == body
    &&& cors_json_headers(out.headers@, "*"@)
}

impl CustomOutput {
    /// The successful answer with the body `body`.
    pub fn new(body: String) -> (out: Self)
        ensures
            ok_response(out, body@),
    {
        CustomOutput {
            is_base64_encoded: false,
            status_code: 200,
            body,
            headers: cors_json_header_list("*"),
        }
    }
}

/// The handler works with the event's own slug and claps, and with the
/// slug `init` and no claps when the event has no body.
pub proof fn lemma_body_default(e: CustomEvent)
    ensures
        e.body matches Some(b) ==> body_of(e) == (b.slug@, b.claps),
        e.body is None ==> body_of(e) == (seq!['i', 'n', 'i', 't'], 0u32),
{
    reveal_strlit("init");
    assert("init"@ =~= seq!['i', 'n', 'i', 't']);
}

/// The post and claps of the event's body, or `init` with no claps when it
/// has none.
pub open spec fn body_of(e: CustomEvent) -> (Seq<char>, u32) {
    match e.body {
        Some(b) => (b.slug@, b.claps),
        None => ("init"@, 0),
    }
}

/// The JSON echo of a clap request (keys in `serde_json`'s sorted order).
pub open spec fn echo_body(slug: Seq<char>, claps: u32) -> Seq<char> {
    "{\"claps\":"@ + int_text(claps as int) + ",\"slug\":"@ + json_quoted(slug) + "}"@
}

/// The echo carries the request's numbers and slug: between `{"claps":`
/// and `,"slug":` stands a nonempty run of decimal digits worth exactly
/// `claps`, and after it the slug as a JSON string.
pub proof fn lemma_echo_carries_claps(slug: Seq<char>, claps: u32)
    ensures
        exists|t: Seq<char>|
            {
                &&& echo_body(slug, claps) == "{\"claps\":"@ + t + ",\"slug\":"@ + json_quoted(slug)
                    + "}"@
                &&& t.len() > 0
                &&& crate::text::all_digits(vstd::utf8::encode_utf8(t))
                &&& crate::text::digits_value(vstd::utf8::encode_utf8(t)) == claps
            },
{
    let t = int_text(claps as int);
    crate::text::lemma_int_text_of_natural(claps as int);
    assert(echo_body(slug, claps) == "{\"claps\":"@ + t + ",\"slug\":"@ + json_quoted(slug) + "}"@);
}

/// The JSON echo of `body`.
pub fn echo_text(body: &Body) -> (s: String)
    ensures
        s@ == echo_body(body.slug@, body.claps),
{
    let mut s = "{\"claps\":".to_owned();
    s.append(int_to_text(body.claps as i64).as_str());
    s.append(",\"slug\":");
    s.append(quote_json(body.slug.as_str()).as_str());
    s.append("}");
    s
}

/// The handler: the echo of the event's body (or of `init` with no claps).
pub fn respond(e: CustomEvent) -> (out: CustomOutput)
    ensures
        ok_response(out, echo_body(body_of(e).0, body_of(e).1)),
{
    let body = match e.body {
        Some(b) => b,
        None => Body { claps: 0, slug: "init".to_owned() },
    };
    CustomOutput::new(echo_text(&body))
}

} // verus!
