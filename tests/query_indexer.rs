use query_indexer::indexer::{Error, HttpRequest, HttpResponse, QueryIndexer, DEFAULT_URL};
use query_indexer::request::{build_request_body, push_decimal, request_headers};
use query_indexer::response::{decode_reward_amount, skip_whitespace};
use query_indexer::indexer::rewards_from_response;
use std::cell::RefCell;

const URL: &str = "https://api.subquery.network/sq/GuiGou12358/lucky-shibuya-v0_1_0/";

fn answer(status_code: u16, body: &str) -> Option<HttpResponse> {
    Some(HttpResponse { status_code, body: body.as_bytes().to_vec() })
}

fn expected_body(era: &str) -> String {
    format!(
        "{{\"query\" : \"query {{developerRewards (filter: {{ era: {{ equalTo: \\\"{}\\\" }} }}){{nodes {{amount, era}}}}}}\"}}",
        era
    )
}

#[test]
fn get_developer_rewards() {
    let url = "https://api.subquery.network/sq/GuiGou12358/lucky-shibuya-v0_1_0/";
    let query_indexer = QueryIndexer::new(url.to_string());
    let era = 2800;
    let res = query_indexer.get_developer_rewards(era, |_request: HttpRequest| {
        answer(200, r#"{"data":{"developerRewards":{"nodes":[{"amount":"1000000000000","era":"2800"}]}}}"#)
    });
    assert!(res.is_ok());
    let r = res.unwrap();
    println!("Era {} Developer rewards {}", era, r);
}

#[test]
fn era_2800_returns_the_amount() {
    let indexer = QueryIndexer::new(URL.to_string());
    let res = indexer.get_developer_rewards(2800, |_q: HttpRequest| {
        answer(200, r#"{"data":{"developerRewards":{"nodes":[{"amount":"1000000000000","era":"2800"}]}}}"#)
    });
    assert_eq!(res, Ok("1000000000000".to_string()));
}

#[test]
fn era_0_returns_zero() {
    let indexer = QueryIndexer::new(URL.to_string());
    let res = indexer.get_developer_rewards(0, |_q: HttpRequest| {
        answer(200, r#"{"data":{"developerRewards":{"nodes":[{"amount":"0","era":"0"}]}}}"#)
    });
    assert_eq!(res, Ok("0".to_string()));
}

#[test]
fn status_500_is_a_failed_request() {
    let indexer = QueryIndexer::new(URL.to_string());
    let res = indexer.get_developer_rewards(65535, |_q: HttpRequest| {
        answer(500, r#"{"data":{"developerRewards":{"nodes":[{"amount":"5","era":"65535"}]}}}"#)
    });
    assert_eq!(res, Err(Error::HttpRequestFailed));
}

#[test]
fn empty_nodes_is_an_invalid_body() {
    let indexer = QueryIndexer::new(URL.to_string());
    let res = indexer.get_developer_rewards(42, |_q: HttpRequest| {
        answer(200, r#"{"data":{"developerRewards":{"nodes":[]}}}"#)
    });
    assert_eq!(res, Err(Error::InvalidResponseBody));
}

#[test]
fn not_json_is_an_invalid_body() {
    let indexer = QueryIndexer::new(URL.to_string());
    let res = indexer.get_developer_rewards(42, |_q: HttpRequest| answer(200, "not json"));
    assert_eq!(res, Err(Error::InvalidResponseBody));
}

#[test]
fn default_url() {
    let indexer = QueryIndexer::default();
    assert_eq!(
        indexer.get_url(),
        Ok("https://api.subquery.network/sq/GuiGou12358/lucky-shibuya-v0_1_0/".to_string())
    );
    assert_eq!(DEFAULT_URL, URL);
}

#[test]
fn get_url_twice_gives_the_same_url() {
    let indexer = QueryIndexer::new("http://localhost:3000/".to_string());
    let first = indexer.get_url();
    let second = indexer.get_url();
    assert_eq!(first, second);
    assert_eq!(first, Ok("http://localhost:3000/".to_string()));
}

#[test]
fn url_stays_after_queries() {
    let indexer = QueryIndexer::new("http://localhost:3000/".to_string());
    let _ = indexer.get_developer_rewards(1, |_q: HttpRequest| None);
    let _ = indexer.get_developer_rewards(2, |_q: HttpRequest| answer(404, ""));
    assert_eq!(indexer.get_url(), Ok("http://localhost:3000/".to_string()));
}

#[test]
fn transport_failure_is_a_failed_request() {
    let indexer = QueryIndexer::new(URL.to_string());
    let res = indexer.get_developer_rewards(7, |_q: HttpRequest| None);
    assert_eq!(res, Err(Error::HttpRequestFailed));
}

#[test]
fn any_status_but_200_fails_whatever_the_body() {
    for status in [199u16, 201, 204, 301, 400, 404, 503] {
        let res = rewards_from_response(answer(status, "not json"));
        assert_eq!(res, Err(Error::HttpRequestFailed));
    }
}

#[test]
fn the_request_sent_is_the_rewards_request() {
    let indexer = QueryIndexer::new("http://indexer.test/graphql".to_string());
    let seen: RefCell<Option<(String, Vec<u8>, Vec<(String, String)>)>> = RefCell::new(None);
    let res = indexer.get_developer_rewards(2800, |q: HttpRequest| {
        *seen.borrow_mut() = Some((q.url, q.body, q.headers));
        answer(200, r#"{"data":{"developerRewards":{"nodes":[{"amount":"12","era":"2800"}]}}}"#)
    });
    assert_eq!(res, Ok("12".to_string()));
    let (url, body, headers) = seen.into_inner().unwrap();
    assert_eq!(url, "http://indexer.test/graphql");
    assert_eq!(String::from_utf8(body).unwrap(), expected_body("2800"));
    assert_eq!(
        headers,
        vec![
            ("Content-Type".to_string(), "application/json".to_string()),
            ("Accept".to_string(), "application/json".to_string()),
        ]
    );
}

#[test]
fn request_body_is_byte_exact() {
    assert_eq!(
        String::from_utf8(build_request_body(2800)).unwrap(),
        r#"{"query" : "query {developerRewards (filter: { era: { equalTo: \"2800\" } }){nodes {amount, era}}}"}"#
    );
    assert_eq!(String::from_utf8(build_request_body(0)).unwrap(), expected_body("0"));
    assert_eq!(String::from_utf8(build_request_body(65535)).unwrap(), expected_body("65535"));
    assert_eq!(String::from_utf8(build_request_body(10)).unwrap(), expected_body("10"));
}

#[test]
fn era_filter_occurs_once_in_every_body() {
    for era in [0u16, 1, 9, 10, 42, 99, 100, 2800, 65535] {
        let body = String::from_utf8(build_request_body(era)).unwrap();
        let needle = format!("equalTo: \\\"{}\\\"", era);
        assert_eq!(body.matches(needle.as_str()).count(), 1);
    }
}

#[test]
fn decimal_digits_have_no_leading_zeros() {
    let mut out = vec![b'x'];
    push_decimal(&mut out, 507);
    assert_eq!(out, b"x507".to_vec());
    let mut zero = Vec::new();
    push_decimal(&mut zero, 0);
    assert_eq!(zero, b"0".to_vec());
}

#[test]
fn headers_ask_for_json() {
    let h = request_headers();
    assert_eq!(h.len(), 2);
    assert_eq!(h[0], ("Content-Type".to_string(), "application/json".to_string()));
    assert_eq!(h[1], ("Accept".to_string(), "application/json".to_string()));
}

#[test]
fn decoder_takes_whitespace_between_tokens() {
    let body = b" { \"data\" :\n{\"developerRewards\":{ \"nodes\" : [ {\"amount\" : \"77\" ,\t\"era\":\"3\"} ] } }\r\n} ";
    assert_eq!(decode_reward_amount(body), Some("77".to_string()));
}

#[test]
fn decoder_rejects_two_nodes() {
    let body = br#"{"data":{"developerRewards":{"nodes":[{"amount":"1","era":"1"},{"amount":"2","era":"1"}]}}}"#;
    assert_eq!(decode_reward_amount(body), None);
    let res = rewards_from_response(answer(200, std::str::from_utf8(body).unwrap()));
    assert_eq!(res, Err(Error::InvalidResponseBody));
}

#[test]
fn decoder_rejects_missing_keys() {
    let bodies = [
        r#"{"developerRewards":{"nodes":[{"amount":"1","era":"1"}]}}"#,
        r#"{"data":{"nodes":[{"amount":"1","era":"1"}]}}"#,
        r#"{"data":{"developerRewards":{}}}"#,
        r#"{"data":{"developerRewards":{"nodes":[{"era":"1"}]}}}"#,
        r#"{"data":{"developerRewards":{"nodes":[{"amount":"1"}]}}}"#,
    ];
    for body in bodies {
        assert_eq!(rewards_from_response(answer(200, body)), Err(Error::InvalidResponseBody));
    }
}

#[test]
fn decoder_rejects_wrong_types_and_trailing_text() {
    let bodies = [
        r#"{"data":{"developerRewards":{"nodes":[{"amount":1,"era":"1"}]}}}"#,
        r#"{"data":{"developerRewards":{"nodes":[{"amount":"1","era":1}]}}}"#,
        r#"{"data":{"developerRewards":{"nodes":{"amount":"1","era":"1"}}}}"#,
        r#"{"data":{"developerRewards":{"nodes":[{"amount":"1","era":"1"}]}}}x"#,
        r#"{"data":{"developerRewards":{"nodes":[{"amount":"1","era":"1"}]}}"#,
        r#"{"data":{"developerRewards":{"nodes":[{"amount":"1,"era":"1"}]}}}"#,
        "",
    ];
    for body in bodies {
        assert_eq!(rewards_from_response(answer(200, body)), Err(Error::InvalidResponseBody));
    }
}

#[test]
fn decoder_keeps_the_amount_verbatim() {
    let body = br#"{"data":{"developerRewards":{"nodes":[{"amount":"00012.50 \"x\" \\","era":"1"}]}}}"#;
    assert_eq!(decode_reward_amount(body), Some(r#"00012.50 \"x\" \\"#.to_string()));
    let utf8 = "{\"data\":{\"developerRewards\":{\"nodes\":[{\"amount\":\"\u{e9}1\",\"era\":\"1\"}]}}}";
    assert_eq!(decode_reward_amount(utf8.as_bytes()), Some("\u{e9}1".to_string()));
}

#[test]
fn decoder_rejects_strings_that_are_not_utf8() {
    let mut body = br#"{"data":{"developerRewards":{"nodes":[{"amount":""#.to_vec();
    body.push(0xff);
    body.extend_from_slice(br#"","era":"1"}]}}}"#);
    assert_eq!(decode_reward_amount(&body), None);
    let mut era_bad = br#"{"data":{"developerRewards":{"nodes":[{"amount":"5","era":""#.to_vec();
    era_bad.push(0xc3);
    era_bad.extend_from_slice(br#""}]}}}"#);
    assert_eq!(decode_reward_amount(&era_bad), None);
}

#[test]
fn whitespace_skipping_stops_at_text() {
    assert_eq!(skip_whitespace(b" \t\r\n x", 0), 5);
    assert_eq!(skip_whitespace(b"ab", 1), 1);
    assert_eq!(skip_whitespace(b"  ", 0), 2);
}

#[test]
fn request_body_is_one_string_under_query() {
    for era in [0u16, 7, 2800, 65535] {
        let body = String::from_utf8(build_request_body(era)).unwrap();
        let value = body
            .strip_prefix("{\"query\" : \"")
            .and_then(|rest| rest.strip_suffix("\"}"))
            .unwrap();
        assert!(!value.is_empty());
        let bytes = value.as_bytes();
        for (k, b) in bytes.iter().enumerate() {
            if *b == b'"' {
                assert_eq!(bytes[k - 1], b'\\');
            }
        }
        assert_eq!(value.matches("\\\"").count(), 2);
    }
}

#[test]
fn node_keys_in_either_order() {
    let indexer = QueryIndexer::new(URL.to_string());
    let res = indexer.get_developer_rewards(1, |_q: HttpRequest| {
        answer(200, r#"{"data":{"developerRewards":{"nodes":[{"era":"1","amount":"5"}]}}}"#)
    });
    assert_eq!(res, Ok("5".to_string()));
    let body = br#"{"data":{"developerRewards":{"nodes":[ { "era" : "1" , "amount" : "6" } ]}}}"#;
    assert_eq!(decode_reward_amount(body), Some("6".to_string()));
}

#[test]
fn decoder_rejects_a_repeated_key_in_place_of_the_other() {
    let body = br#"{"data":{"developerRewards":{"nodes":[{"era":"1","era":"5"}]}}}"#;
    assert_eq!(decode_reward_amount(body), None);
    let as_value = br#"{"data":{"developerRewards":{"nodes":[{"era":"amount","x":"5"}]}}}"#;
    assert_eq!(decode_reward_amount(as_value), None);
}

#[test]
fn decoder_checks_escapes_and_control_bytes() {
    let unicode = r#"{"data":{"developerRewards":{"nodes":[{"amount":"1é\n\u00E9","era":"1"}]}}}"#;
    assert_eq!(decode_reward_amount(unicode.as_bytes()), Some(r#"1é\n\u00E9"#.to_string()));
    let unknown = br#"{"data":{"developerRewards":{"nodes":[{"amount":"1\q","era":"1"}]}}}"#;
    assert_eq!(decode_reward_amount(unknown), None);
    let short_hex = br#"{"data":{"developerRewards":{"nodes":[{"amount":"1\u00g0","era":"1"}]}}}"#;
    assert_eq!(decode_reward_amount(short_hex), None);
    let raw_tab = b"{\"data\":{\"developerRewards\":{\"nodes\":[{\"amount\":\"1\t2\",\"era\":\"1\"}]}}}";
    assert_eq!(decode_reward_amount(raw_tab), None);
    let raw_newline_in_era = b"{\"data\":{\"developerRewards\":{\"nodes\":[{\"amount\":\"1\",\"era\":\"\n\"}]}}}";
    assert_eq!(decode_reward_amount(raw_newline_in_era), None);
}
