# lambda_claps

Request handling for a family of AWS Lambda functions behind API Gateway that
keep per-post "clap" counters in DynamoDB, verified with Verus.

- `src/` — the verified library: `text` (decimal numbers, `i32` parsing, JSON
  string literals and arrays), `gateway` (event parts, caller address,
  response headers), `dynamo` (request shapes, keys, sort-key reading),
  one module per function (`async_await_fn`, `my_lambda_function`,
  `post_claps`, `post_claps_with_body`, `query_claps`) and `consistency`
  (what the query reads of what the post writes).
- `app/` — the Lambda runtime, JSON (de)serialisation of events and
  responses, and the DynamoDB calls.
- `tests/` — tests of the library on concrete values.
