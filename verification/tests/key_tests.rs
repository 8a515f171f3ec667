use lambda_claps::dynamo::{clap_sort_key_of, post_key_of, sort_key_names};
use lambda_claps::gateway::{cors_json_header_list, source_ip, Header, HeaderValue, Identity, RequestContext};

#[test]
fn unknown_caller_is_all_zeros() {
    assert_eq!(source_ip(None), "0.0.0.0");
    let rc = RequestContext { identity: Identity { source_ip: "10.1.2.3".to_string() } };
    assert_eq!(source_ip(Some(rc)), "10.1.2.3");
}

#[test]
fn keys_of_posts_and_readers() {
    assert_eq!(post_key_of("hello-world"), "POST#hello-world");
    assert_eq!(post_key_of(""), "POST#");
    assert_eq!(clap_sort_key_of("151.205.100.100"), "#CLAP#151.205.100.100");
}

#[test]
fn sort_key_names_its_reader() {
    assert_eq!(sort_key_names("#CLAP#151.205.100.100", "151.205.100.100"), Some(true));
    assert_eq!(sort_key_names("#CLAP#151.205.100.101", "151.205.100.100"), Some(false));
    assert_eq!(sort_key_names("#CLAP#", ""), Some(true));
    assert_eq!(sort_key_names("XXXXXX1.2.3.4", "1.2.3.4"), Some(true));
    assert_eq!(sort_key_names("#CLAP#é", "é"), Some(true));
}

#[test]
fn sort_key_that_cannot_be_cut() {
    assert_eq!(sort_key_names("#CLA", "x"), None);
    assert_eq!(sort_key_names("", ""), None);
    // 'é' takes bytes 5 and 6: byte 6 is inside it.
    assert_eq!(sort_key_names("#CLAPé1", "1"), None);
}

#[test]
fn written_sort_key_read_back() {
    for ip in ["0.0.0.0", "::1", "", "é"] {
        let sk = clap_sort_key_of(ip);
        assert_eq!(sort_key_names(&sk, ip), Some(true));
        assert_eq!(sort_key_names(&sk, "1.1.1.1"), Some(ip == "1.1.1.1"));
    }
}

#[test]
fn cors_headers() {
    let h = cors_json_header_list("*");
    assert_eq!(
        h,
        vec![
            Header {
                name: "Access-Control-Allow-Credentials".to_string(),
                value: HeaderValue::Flag(true)
            },
            Header {
                name: "Access-Control-Allow-Origin".to_string(),
                value: HeaderValue::Text("*".to_string())
            },
            Header {
                name: "Content-Type".to_string(),
                value: HeaderValue::Text("application/json".to_string())
            },
        ]
    );
}
