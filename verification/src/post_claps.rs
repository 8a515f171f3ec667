//! The handler that records claps: it adds the claps of the request body to
//! the reader's clap item of the post, up to a limit that DynamoDB enforces,
//! and answers with DynamoDB's reply or with the error.

use vstd::prelude::*;

use crate::dynamo::{
    clap_sort_key, clap_sort_key_of, is_number_attr, is_string_attr, post_key, post_key_of,
    table_name, AttrValue, NamedAttr, UpdateRequest,
};
pub use crate::gateway::{Identity, RequestContext};
use crate::gateway::{cors_json_header_list, cors_json_headers, source_ip, source_ip_of, Header};
use crate::text::{int_text, int_to_text, json_quoted, quote_json};

verus! {

/// The request body: the post and the number of claps to add.
#[derive(Clone, Debug, Default, PartialEq)]
pub struct Body {
    pub slug: String,
    pub claps: u32,
}

/// The gateway event the handler receives, with its body already decoded
/// from JSON (`None` where the event has no body).
#[derive(Clone, Debug, Default, PartialEq)]
pub struct CustomEvent {
    pub body: Option<Body>,
    pub request_context: Option<RequestContext>,
}

/// The HTTP response.
#[derive(Clone, Debug, PartialEq)]
pub struct CustomOutput {
    pub is_base64_encoded: bool,
    pub status_code: u16,
    pub body: String,
    pub headers: Vec<Header>,
}

/// The site allowed to call the endpoint.
pub open spec fn allowed_origin() -> Seq<char> {
    "https://coffeecodeclimb.com"@
}

/// `out` has the status `status` and the body `body`, a plain (not base64)
/// body and the JSON headers allowing the site.
pub open spec fn response_with(out: CustomOutput, status: u16, body: Seq<char>) -> bool {
    &&& out.status_code == status
    &&& !out.is_base64_encoded
    &&& out.body@ == body
    &&& cors_json_headers(out.headers@, allowed_origin())
}

impl CustomOutput {
    /// The successful answer (status 200) with the body `body`.
    pub fn new(body: String) -> (out: Self)
        ensures
            response_with(out, 200, body@),
    {
        CustomOutput {
            is_base64_encoded: false,
            status_code: 200,
            body,
            headers: cors_json_header_list("https://coffeecodeclimb.com"),
        }
    }

    /// The failure answer (status 500) with the body `body`.
    pub fn error(body: String) -> (out: Self)
        ensures
            response_with(out, 500, body@),
    {
        CustomOutput {
            is_base64_encoded: false,
            status_code: 500,
            body,
            headers: cors_json_header_list("https://coffeecodeclimb.com"),
        }
    }
}

/// The handler works with the event's own slug and claps, and with the
/// slug `init` and no claps when the event has no body.
pub proof fn lemma_body_default(e: CustomEvent)
    ensures
        e.body matches Some(b) ==> body_of(e) == (b.slug@, b.claps),
        e.body is None ==> body_of(e) == (seq!['i', 'n', 'i', 't'], 0u32),
{
    reveal_strlit("init");
    assert("init"@ =~= seq!['i', 'n', 'i', 't']);
}

/// The body the handler works with: the event's, or `init` with no claps
/// when the event has none.
pub open spec fn body_of(e: CustomEvent) -> (Seq<char>, u32) {
    match e.body {
        Some(b) => (b.slug@, b.claps),
        None => ("init"@, 0),
    }
}

/// `r` adds `claps` to the clap item of the reader at `ip` for the post
/// `slug`, creating it at zero when absent, only while the stored count is
/// below 60, and asks for the updated attributes back.
pub open spec fn is_clap_update(r: UpdateRequest, slug: Seq<char>, claps: u32, ip: Seq<char>) -> bool {
    &&& r.table_name@ == table_name()
    &&& r.key@.len() == 2
    &&& is_string_attr(r.key@[0], "PK"@, post_key(slug))
    &&& is_string_attr(r.key@[1], "SK"@, clap_sort_key(ip))
    &&& r.update_expression@ == "SET claps = if_not_exists(claps, :zero) + :inc"@
    &&& r.expression_attribute_values@.len() == 3
    &&& is_number_attr(r.expression_attribute_values@[0], ":inc"@, int_text(claps as int))
    &&& is_number_attr(r.expression_attribute_values@[1], ":zero"@, "0"@)
    &&& is_number_attr(r.expression_attribute_values@[2], ":limit"@, "60"@)
    &&& r.condition_expression@ == "attribute_not_exists(claps) OR (claps < :limit)"@
    &&& r.return_values@ == "UPDATED_NEW"@
}

/// The update that adds the claps of `body` for the reader at `ip`.
pub fn clap_update(body: &Body, ip: &str) -> (r: UpdateRequest)
    ensures
        is_clap_update(r, body.slug@, body.claps, ip@),
{
    let pk = NamedAttr { name: "PK".to_owned(), value: AttrValue::S(post_key_of(body.slug.as_str())) };
    let sk = NamedAttr { name: "SK".to_owned(), value: AttrValue::S(clap_sort_key_of(ip)) };
    let inc = NamedAttr {
        name: ":inc".to_owned(),
        value: AttrValue::N(int_to_text(body.claps as i64)),
    };
    let zero = NamedAttr { name: ":zero".to_owned(), value: AttrValue::N("0".to_owned()) };
    let limit = NamedAttr { name: ":limit".to_owned(), value: AttrValue::N("60".to_owned()) };
    UpdateRequest {
        table_name: "claps".to_owned(),
        key: vec![pk, sk],
        update_expression: "SET claps = if_not_exists(claps, :zero) + :inc".to_owned(),
        expression_attribute_values: vec![inc, zero, limit],
        condition_expression: "attribute_not_exists(claps) OR (claps < :limit)".to_owned(),
        return_values: "UPDATED_NEW".to_owned(),
    }
}

/// The first half of the handler: the update that the event asks for.
pub fn prepare(e: CustomEvent) -> (r: UpdateRequest)
    ensures
        is_clap_update(r, body_of(e).0, body_of(e).1, source_ip_of(e.request_context)),
{
    let body = match e.body {
        Some(b) => b,
        None => Body { claps: 0, slug: "init".to_owned() },
    };
    let ip = source_ip(e.request_context);
    clap_update(&body, ip.as_str())
}

/// The JSON body that reports the failure `message`.
pub open spec fn error_body(message: Seq<char>) -> Seq<char> {
    "{\"Error\":"@ + json_quoted(message) + "}"@
}

/// The failure body is the JSON object with the single key `Error` whose
/// value is the whole message as a JSON string.
pub proof fn lemma_error_body_carries_message(message: Seq<char>)
    ensures
        error_body(message) == seq!['{', '"', 'E', 'r', 'r', 'o', 'r', '"', ':'] + json_quoted(message)
            + seq!['}'],
{
    reveal_strlit("{\"Error\":");
    reveal_strlit("}");
    assert("{\"Error\":"@ =~= seq!['{', '"', 'E', 'r', 'r', 'o', 'r', '"', ':']);
    assert("}"@ =~= seq!['}']);
}

/// The JSON body that reports the failure `message`.
pub fn error_text(message: &str) -> (s: String)
    ensures
        s@ == error_body(message@),
{
    let mut s = "{\"Error\":".to_owned();
    s.append(quote_json(message).as_str());
    s.append("}");
    s
}

/// The second half of the handler: DynamoDB's reply (as JSON text) is
/// answered with status 200; a failure (as its message) with status 500 and
/// the message in a JSON body.
pub fn respond(outcome: Result<String, String>) -> (out: CustomOutput)
    ensures
        match outcome {
            Ok(reply) => response_with(out, 200, reply@),
            Err(message) => response_with(out, 500, error_body(message@)),
        },
{
    match outcome {
        Ok(reply) => CustomOutput::new(reply),
        Err(message) => CustomOutput::error(error_text(message.as_str())),
    }
}

} // verus!
