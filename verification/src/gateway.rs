//! The parts of an API Gateway proxy event and response that the handlers
//! read and write.

use vstd::prelude::*;

verus! {

/// Who sent the request.
#[derive(Clone, Debug, Default, PartialEq)]
pub struct Identity {
    pub source_ip: String,
}

/// The gateway's description of the request.
#[derive(Clone, Debug, Default, PartialEq)]
pub struct RequestContext {
    pub identity: Identity,
}

/// The address the handlers record when the event names no caller.
pub open spec fn unknown_ip() -> Seq<char> {
    "0.0.0.0"@
}

/// The caller's address as the handlers see it: the source IP of the request
/// context, or `0.0.0.0` when the event carries none.
pub open spec fn source_ip_of(request_context: Option<RequestContext>) -> Seq<char> {
    match request_context {
        Some(rc) => rc.identity.source_ip@,
        None => unknown_ip(),
    }
}

/// The caller's address is the one the request context names, and the
/// seven characters `0.0.0.0` when the event names none.
pub proof fn lemma_source_ip_default(request_context: Option<RequestContext>)
    ensures
        request_context matches Some(rc) ==> source_ip_of(request_context) == rc.identity.source_ip@,
        request_context is None ==> source_ip_of(request_context) == seq!['0', '.', '0', '.', '0', '.', '0'],
{
    reveal_strlit("0.0.0.0");
    assert("0.0.0.0"@ =~= seq!['0', '.', '0', '.', '0', '.', '0']);
}

/// The caller's address: the source IP of the request context, or
/// `0.0.0.0` when there is none.
pub fn source_ip(request_context: Option<RequestContext>) -> (ip: String)
    ensures
        ip@ == source_ip_of(request_context),
{
    match request_context {
        Some(rc) => rc.identity.source_ip,
        None => "0.0.0.0".to_owned(),
    }
}

/// The value of a response header: a JSON boolean or a JSON string.
#[derive(Clone, Debug, PartialEq)]
pub enum HeaderValue {
    Flag(bool),
    Text(String),
}

/// One response header.
#[derive(Clone, Debug, PartialEq)]
pub struct Header {
    pub name: String,
    pub value: HeaderValue,
}

/// `h` is the header `name` with the string value `value`.
pub open spec fn is_text_header(h: Header, name: Seq<char>, value: Seq<char>) -> bool {
    &&& h.name@ == name
    &&& h.value matches HeaderValue::Text(v) && v@ == value
}

/// `h` is the header `name` with the boolean value `flag`.
pub open spec fn is_flag_header(h: Header, name: Seq<char>, flag: bool) -> bool {
    &&& h.name@ == name
    &&& h.value == HeaderValue::Flag(flag)
}

/// The headers of the clap endpoints: credentials allowed, the origin
/// `origin` allowed, and a JSON body.
pub open spec fn cors_json_headers(h: Seq<Header>, origin: Seq<char>) -> bool {
    &&& h.len() == 3
    &&& is_flag_header(h[0], "Access-Control-Allow-Credentials"@, true)
    &&& is_text_header(h[1], "Access-Control-Allow-Origin"@, origin)
    &&& is_text_header(h[2], "Content-Type"@, "application/json"@)
}

/// The headers of the clap endpoints for the allowed origin `origin`.
pub fn cors_json_header_list(origin: &str) -> (h: Vec<Header>)
    ensures
        cors_json_headers(h@, origin@),
{
    let credentials = Header {
        name: "Access-Control-Allow-Credentials".to_owned(),
        value: HeaderValue::Flag(true),
    };
    let allow_origin = Header {
        name: "Access-Control-Allow-Origin".to_owned(),
        value: HeaderValue::Text(origin.to_owned()),
    };
    let content_type = Header {
        name: "Content-Type".to_owned(),
        value: HeaderValue::Text("application/json".to_owned()),
    };
    vec![credentials, allow_origin, content_type]
}

} // verus!
