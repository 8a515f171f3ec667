use lambda_claps::dynamo::{AttrValue, NamedAttr};
use lambda_claps::{async_await_fn, my_lambda_function, post_claps, post_claps_with_body, query_claps};
use query_claps::{ClapRecord, QueryFault, QueryOutcome, RecordFault};

fn s(text: &str) -> String {
    text.to_string()
}

fn string_attr(name: &str, value: &str) -> NamedAttr {
    NamedAttr { name: s(name), value: AttrValue::S(s(value)) }
}

fn number_attr(name: &str, value: &str) -> NamedAttr {
    NamedAttr { name: s(name), value: AttrValue::N(s(value)) }
}

fn record(claps: &str, sk: &str) -> ClapRecord {
    ClapRecord { claps: Some(s(claps)), sort_key: Some(s(sk)) }
}

fn context(ip: &str) -> query_claps::RequestContext {
    query_claps::RequestContext { identity: query_claps::Identity { source_ip: s(ip) } }
}

#[test]
fn list_tables_answers_with_names() {
    let out = async_await_fn::respond(Some(vec![s("claps"), s("posts")]));
    assert_eq!(out.status_code, 200);
    assert!(!out.is_base64_encoded);
    assert_eq!(out.body, "[\"claps\",\"posts\"]");
}

#[test]
fn list_tables_without_names_answers_empty_array() {
    assert_eq!(async_await_fn::respond(None).body, "[]");
    assert_eq!(async_await_fn::respond(Some(vec![])).body, "[]");
    let out = async_await_fn::CustomOutput::new(s("x"));
    assert_eq!((out.status_code, out.is_base64_encoded, out.body.as_str()), (200, false, "x"));
}

#[test]
fn path_is_echoed() {
    let mut e = my_lambda_function::Root::default();
    e.path = s("/hello/world");
    let r = my_lambda_function::my_handler(e);
    assert_eq!(r.body, "/hello/world");
    assert_eq!(r.status_code, 200);
    assert_eq!(r.headers, vec![(s("Content-Type"), s("application/json"))]);
}

#[test]
fn echo_of_clap_request() {
    let e = post_claps_with_body::CustomEvent {
        query_string_parameters: None,
        body: Some(post_claps_with_body::Body { slug: s("my-post"), claps: 3 }),
        request_context: None,
    };
    let out = post_claps_with_body::respond(e);
    assert_eq!(out.status_code, 200);
    assert!(!out.is_base64_encoded);
    assert_eq!(out.body, "{\"claps\":3,\"slug\":\"my-post\"}");
    assert_eq!(out.headers[1].value, lambda_claps::gateway::HeaderValue::Text(s("*")));
}

#[test]
fn echo_without_body_uses_init() {
    let out = post_claps_with_body::respond(post_claps_with_body::CustomEvent::default());
    assert_eq!(out.body, "{\"claps\":0,\"slug\":\"init\"}");
}

#[test]
fn clap_update_for_a_reader() {
    let e = post_claps::CustomEvent {
        body: Some(post_claps::Body { slug: s("my-post"), claps: 5 }),
        request_context: Some(post_claps::RequestContext {
            identity: post_claps::Identity { source_ip: s("1.2.3.4") },
        }),
    };
    let r = post_claps::prepare(e);
    assert_eq!(r.table_name, "claps");
    assert_eq!(r.key, vec![string_attr("PK", "POST#my-post"), string_attr("SK", "#CLAP#1.2.3.4")]);
    assert_eq!(r.update_expression, "SET claps = if_not_exists(claps, :zero) + :inc");
    assert_eq!(
        r.expression_attribute_values,
        vec![number_attr(":inc", "5"), number_attr(":zero", "0"), number_attr(":limit", "60")]
    );
    assert_eq!(r.condition_expression, "attribute_not_exists(claps) OR (claps < :limit)");
    assert_eq!(r.return_values, "UPDATED_NEW");
}

#[test]
fn clap_update_defaults() {
    let r = post_claps::prepare(post_claps::CustomEvent::default());
    assert_eq!(r.key, vec![string_attr("PK", "POST#init"), string_attr("SK", "#CLAP#0.0.0.0")]);
    assert_eq!(r.expression_attribute_values[0], number_attr(":inc", "0"));
}

#[test]
fn clap_update_answers() {
    let ok = post_claps::respond(Ok(s("{\"Attributes\":{}}")));
    assert_eq!(ok.status_code, 200);
    assert_eq!(ok.body, "{\"Attributes\":{}}");
    assert_eq!(
        ok.headers[1].value,
        lambda_claps::gateway::HeaderValue::Text(s("https://coffeecodeclimb.com"))
    );
    let failed = post_claps::respond(Err(s("The conditional request failed")));
    assert_eq!(failed.status_code, 500);
    assert!(!failed.is_base64_encoded);
    assert_eq!(failed.body, "{\"Error\":\"The conditional request failed\"}");
    let quoted = post_claps::error_text("say \"no\"");
    assert_eq!(quoted, "{\"Error\":\"say \\\"no\\\"\"}");
}

#[test]
fn query_for_a_post() {
    let e = query_claps::CustomEvent {
        query_string_parameters: Some(query_claps::QueryString { slug: Some(s("my-post")) }),
        body: None,
        request_context: Some(context("9.9.9.9")),
    };
    let q = query_claps::prepare(e);
    assert_eq!(q.slug, "my-post");
    assert_eq!(q.ip, "9.9.9.9");
    assert_eq!(q.request.table_name, "claps");
    assert_eq!(q.request.key_condition_expression, "PK = :pk AND begins_with(SK, :sk)");
    assert_eq!(
        q.request.expression_attribute_values,
        vec![string_attr(":pk", "POST#my-post"), string_attr(":sk", "#CLAP#")]
    );
}

#[test]
fn query_defaults() {
    let q = query_claps::prepare(query_claps::CustomEvent::default());
    assert_eq!(q.slug, "");
    assert_eq!(q.ip, "0.0.0.0");
    let q = query_claps::prepare(query_claps::CustomEvent {
        query_string_parameters: Some(query_claps::QueryString { slug: None }),
        ..Default::default()
    });
    assert_eq!(q.slug, "");
}

#[test]
fn tally_sums_and_finds_the_reader() {
    let records = vec![
        record("3", "#CLAP#1.1.1.1"),
        record("5", "#CLAP#2.2.2.2"),
        record("-1", "#CLAP#3.3.3.3"),
    ];
    let t = query_claps::tally_claps(&records, "2.2.2.2").unwrap();
    assert_eq!((t.total, t.viewer_claps), (7, 5));
    let t = query_claps::tally_claps(&records, "4.4.4.4").unwrap();
    assert_eq!((t.total, t.viewer_claps), (7, 0));
    let t = query_claps::tally_claps(&vec![], "4.4.4.4").unwrap();
    assert_eq!((t.total, t.viewer_claps), (0, 0));
}

#[test]
fn tally_keeps_the_last_match() {
    let records = vec![record("3", "#CLAP#1.1.1.1"), record("4", "XXXXXX1.1.1.1")];
    let t = query_claps::tally_claps(&records, "1.1.1.1").unwrap();
    assert_eq!((t.total, t.viewer_claps), (7, 4));
}

#[test]
fn tally_faults() {
    let ok = record("1", "#CLAP#a");
    let cases = vec![
        (ClapRecord { claps: None, sort_key: Some(s("#CLAP#a")) }, RecordFault::MissingClaps),
        (record("x", "#CLAP#a"), RecordFault::InvalidClaps),
        (record("2147483647", "#CLAP#a"), RecordFault::Overflow),
        (ClapRecord { claps: Some(s("1")), sort_key: None }, RecordFault::MissingSortKey),
        (record("1", "#CLA"), RecordFault::UnsliceableSortKey),
    ];
    for (bad, fault) in cases {
        let records = vec![ok.clone(), bad, record("zzz", "")];
        assert_eq!(
            query_claps::tally_claps(&records, "a"),
            Err(QueryFault::Record { index: 1, fault })
        );
    }
}

#[test]
fn query_answers_with_summary() {
    let q = query_claps::prepare(query_claps::CustomEvent {
        query_string_parameters: Some(query_claps::QueryString { slug: Some(s("hello")) }),
        body: None,
        request_context: Some(context("2.2.2.2")),
    });
    let outcome = QueryOutcome {
        items: Some(vec![record("2", "#CLAP#1.1.1.1"), record("5", "#CLAP#2.2.2.2")]),
        count: Some(2),
    };
    let out = query_claps::respond(&q, outcome).unwrap();
    assert_eq!(out.status_code, 200);
    assert!(!out.is_base64_encoded);
    assert_eq!(out.body, "{\"slug\":\"hello\",\"total\":7,\"viewerClapCount\":5,\"voterCount\":2}");
}

#[test]
fn query_faults_in_order() {
    let q = query_claps::prepare(query_claps::CustomEvent::default());
    assert_eq!(
        query_claps::respond(&q, QueryOutcome { items: None, count: None }),
        Err(QueryFault::MissingItems)
    );
    assert_eq!(
        query_claps::respond(&q, QueryOutcome { items: Some(vec![]), count: None }),
        Err(QueryFault::MissingCount)
    );
    assert_eq!(
        query_claps::respond(&q, QueryOutcome { items: Some(vec![record("", "")]), count: Some(1) }),
        Err(QueryFault::Record { index: 0, fault: RecordFault::InvalidClaps })
    );
}

#[test]
fn summary_with_negative_numbers() {
    assert_eq!(
        query_claps::summary_text("a\"b", -3, 0, 0),
        "{\"slug\":\"a\\\"b\",\"total\":-3,\"viewerClapCount\":0,\"voterCount\":0}"
    );
}

#[test]
fn query_reads_back_what_post_writes() {
    let update = post_claps::prepare(post_claps::CustomEvent {
        body: Some(post_claps::Body { slug: s("p"), claps: 12 }),
        request_context: Some(post_claps::RequestContext {
            identity: post_claps::Identity { source_ip: s("8.8.8.8") },
        }),
    });
    let query = query_claps::clap_query("p");
    assert_eq!(update.key[0].value, query.expression_attribute_values[0].value);
    let (sk, claps) = match (&update.key[1].value, &update.expression_attribute_values[0].value) {
        (AttrValue::S(sk), AttrValue::N(n)) => (sk.clone(), n.clone()),
        _ => panic!("unexpected attribute kinds"),
    };
    let t = query_claps::tally_claps(&vec![ClapRecord { claps: Some(claps), sort_key: Some(sk) }], "8.8.8.8")
        .unwrap();
    assert_eq!((t.total, t.viewer_claps), (12, 12));
}
