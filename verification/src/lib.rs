//! Request handling for a small family of AWS Lambda functions that keep a
//! per-post "clap" counter in DynamoDB: decoding the gateway event, building the
//! DynamoDB requests, tallying query results and shaping the HTTP responses.

pub mod text;
pub mod gateway;
pub mod dynamo;
pub mod query_claps;
pub mod post_claps;
pub mod consistency;
pub mod post_claps_with_body;
pub mod async_await_fn;
pub mod my_lambda_function;
