//! The handler that answers an API Gateway proxy request with its path.

use vstd::prelude::*;

verus! {

/// `serde_json::Value`: the event fields that the handler carries without
/// reading them.
#[verifier::external_type_specification]
#[verifier::external_body]
pub struct ExJsonValue(serde_json::Value);

/// The full API Gateway proxy event.
#[derive(Debug, Default, PartialEq)]
pub struct Root {
    pub resource: String,
    pub path: String,
    pub http_method: String,
    pub headers: serde_json::Value,
    pub multi_value_headers: serde_json::Value,
    pub query_string_parameters: serde_json::Value,
    pub multi_value_query_string_parameters: serde_json::Value,
    pub path_parameters: serde_json::Value,
    pub stage_variables: serde_json::Value,
    pub request_context: RequestContext,
    pub body: serde_json::Value,
    pub is_base64_encoded: bool,
}

/// The gateway's description of the request.
#[derive(Debug, Default, PartialEq)]
pub struct RequestContext {
    pub resource_id: String,
    pub resource_path: String,
    pub http_method: String,
    pub extended_request_id: String,
    pub request_time: String,
    pub path: String,
    pub account_id: String,
    pub protocol: String,
    pub stage: String,
    pub domain_prefix: String,
    pub request_time_epoch: i64,
    pub request_id: String,
    pub identity: Identity,
    pub domain_name: String,
    pub api_id: String,
}

/// Who sent the request.
#[derive(Debug, Default, PartialEq)]
pub struct Identity {
    pub cognito_identity_pool_id: serde_json::Value,
    pub cognito_identity_id: serde_json::Value,
    pub api_key: String,
    pub principal_org_id: serde_json::Value,
    pub cognito_authentication_type: serde_json::Value,
    pub user_arn: String,
    pub api_key_id: String,
    pub user_agent: String,
    pub account_id: String,
    pub caller: String,
    pub source_ip: String,
    pub access_key: String,
    pub cognito_authentication_provider: serde_json::Value,
    pub user: String,
}

/// The HTTP response: a body, a status code and headers (name, value).
#[derive(Clone, Debug, PartialEq)]
pub struct Response {
    pub body: String,
    pub status_code: i32,
    pub headers: Vec<(String, String)>,
}

/// Answers with the request's path as the body, status 200, and the single
/// header `Content-Type: application/json`.
pub fn my_handler(e: Root) -> (r: Response)
    ensures
        r.body@ == e.path@,
        r.status_code == 200,
        r.headers@.len() == 1,
        r.headers@[0].0@ == "Content-Type"@,
        r.headers@[0].1@ == "application/json"@,
{
    let headers = vec![("Content-Type".to_owned(), "application/json".to_owned())];
    Response { body: e.path, status_code: 200, headers }
}

} // verus!
