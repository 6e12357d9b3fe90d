use arcanum::mcp::request::{
    argument_as_u64, checked_header, internal_error, parse_token_repeat, required_header,
    token_repeat, visible_text, JsonMember, ToolError, AIH_HEADER, ARGUMENTS_HEADER,
    RESPONSE_ID_HEADER,
};
use rmcp::model::Extensions;

/// The extensions of a request with these headers.
fn extensions(headers: &[(&str, &[u8])]) -> Extensions {
    let mut builder = http::Request::builder();
    for (name, value) in headers {
        builder = builder.header(*name, *value);
    }
    let (parts, _) = builder.body(()).expect("a request").into_parts();
    let mut extensions = Extensions::new();
    extensions.insert(parts);
    extensions
}

fn invalid<T>(r: Result<T, ToolError>) -> String {
    match r {
        Err(ToolError::InvalidParams(message)) => message,
        Err(ToolError::Internal(message)) => panic!("internal: {message}"),
        Ok(_) => panic!("expected an error"),
    }
}

#[test]
fn token_repeat_accepts_string_and_number() {
    assert_eq!(parse_token_repeat(r#"{"token-repeat":"5000"}"#), Some(5000));
    assert_eq!(parse_token_repeat(r#"{"token-repeat":5000}"#), Some(5000));
}

#[test]
fn token_repeat_rejects_missing_or_bad() {
    assert_eq!(parse_token_repeat(r#"{}"#), None);
    assert_eq!(parse_token_repeat(r#"{"token-repeat":"abc"}"#), None);
    assert_eq!(parse_token_repeat(r#"not json"#), None);
}

#[test]
fn token_repeat_is_a_u64() {
    assert_eq!(parse_token_repeat(r#"{"token-repeat":-1}"#), None);
    assert_eq!(parse_token_repeat(r#"{"token-repeat":1.5}"#), None);
    assert_eq!(parse_token_repeat(r#"{"token-repeat":18446744073709551615}"#), Some(u64::MAX));
    assert_eq!(parse_token_repeat(r#"{"token-repeat":18446744073709551616}"#), None);
    assert_eq!(parse_token_repeat(r#"{"token-repeat":" 5"}"#), None);
    assert_eq!(parse_token_repeat(r#"{"token-repeat":null}"#), None);
    assert_eq!(parse_token_repeat(r#"{"token-repeat":true}"#), None);
    assert_eq!(parse_token_repeat(r#"{"token-repeat":[1]}"#), None);
    assert_eq!(parse_token_repeat(r#"{"token-repeat":{"a":1}}"#), None);
    assert_eq!(parse_token_repeat(r#"["token-repeat"]"#), None);
    assert_eq!(parse_token_repeat(r#"7"#), None);
}

#[test]
fn an_argument_is_a_number_or_writes_one() {
    let number = |unsigned, signed| JsonMember::Number { unsigned, signed };
    assert_eq!(argument_as_u64(&number(Some(7), Some(7))), Some(7));
    assert_eq!(argument_as_u64(&number(None, Some(-7))), None);
    assert_eq!(argument_as_u64(&number(None, None)), None);
    assert_eq!(argument_as_u64(&JsonMember::Text("+7".to_string())), Some(7));
    assert_eq!(argument_as_u64(&JsonMember::Text("seven".to_string())), None);
    assert_eq!(argument_as_u64(&JsonMember::Null), None);
    assert_eq!(argument_as_u64(&JsonMember::Bool(true)), None);
    assert_eq!(argument_as_u64(&JsonMember::Array), None);
    assert_eq!(argument_as_u64(&JsonMember::Object), None);
}

#[test]
fn a_required_header_is_trimmed() {
    let ext = extensions(&[(AIH_HEADER, b" top/agent\t"), (RESPONSE_ID_HEADER, b"r-1")]);
    assert_eq!(required_header(&ext, AIH_HEADER).ok().as_deref(), Some("top/agent"));
    assert_eq!(required_header(&ext, RESPONSE_ID_HEADER).ok().as_deref(), Some("r-1"));
}

#[test]
fn header_names_are_found_in_any_case() {
    let ext = extensions(&[("X-ObjectiveAI-Response-Id", b"r-1")]);
    assert_eq!(required_header(&ext, RESPONSE_ID_HEADER).ok().as_deref(), Some("r-1"));
}

#[test]
fn the_first_of_several_values_is_taken() {
    let ext = extensions(&[(RESPONSE_ID_HEADER, b"first"), (RESPONSE_ID_HEADER, b"second")]);
    assert_eq!(required_header(&ext, RESPONSE_ID_HEADER).ok().as_deref(), Some("first"));
}

#[test]
fn a_header_that_is_absent_blank_or_no_text_is_missing() {
    let missing = format!("missing required header: {AIH_HEADER}");
    assert_eq!(invalid(required_header(&extensions(&[]), AIH_HEADER)), missing);
    assert_eq!(invalid(required_header(&extensions(&[(AIH_HEADER, b" \t ")]), AIH_HEADER)), missing);
    assert_eq!(invalid(required_header(&extensions(&[(AIH_HEADER, b"")]), AIH_HEADER)), missing);
    let latin = extensions(&[(AIH_HEADER, b"caf\xe9")]);
    assert_eq!(invalid(required_header(&latin, AIH_HEADER)), missing);
    let no_header = extensions(&[(AIH_HEADER, b"a")]);
    assert_eq!(
        invalid(required_header(&no_header, "no header")),
        "missing required header: no header"
    );
}

#[test]
fn a_request_without_parts_has_no_headers() {
    assert_eq!(
        invalid(required_header(&Extensions::new(), AIH_HEADER)),
        "missing request parts"
    );
    assert_eq!(invalid(token_repeat(&Extensions::new())), "missing request parts");
}

#[test]
fn header_text_is_that_of_http() {
    for b in 0..=255_u8 {
        if let Ok(value) = http::HeaderValue::from_bytes(&[b'a', b]) {
            let expected = value.to_str().ok().map(str::to_string);
            assert_eq!(visible_text(&vec![b'a', b]), expected, "{b}");
        }
    }
    assert_eq!(visible_text(&vec![]).as_deref(), Some(""));
    assert_eq!(visible_text(&vec![127]), None);
}

#[test]
fn a_found_value_is_checked() {
    assert_eq!(checked_header(Some(b" a ".to_vec()), "h").ok().as_deref(), Some("a"));
    assert_eq!(invalid(checked_header(Some(b"  ".to_vec()), "h")), "missing required header: h");
    assert_eq!(invalid(checked_header(None, "h")), "missing required header: h");
}

#[test]
fn token_repeat_is_read_off_the_arguments_header() {
    let ext = extensions(&[(ARGUMENTS_HEADER, br#" {"token-repeat":"250"} "#)]);
    assert_eq!(token_repeat(&ext).ok(), Some(250));
    let ext = extensions(&[(ARGUMENTS_HEADER, br#"{"token-repeat":"-250"}"#)]);
    assert_eq!(invalid(token_repeat(&ext)), "token-repeat must be a u64");
    let ext = extensions(&[(ARGUMENTS_HEADER, b"{")]);
    assert_eq!(invalid(token_repeat(&ext)), "token-repeat must be a u64");
    let ext = extensions(&[(AIH_HEADER, b"a")]);
    assert_eq!(
        invalid(token_repeat(&ext)),
        format!("missing required header: {ARGUMENTS_HEADER}")
    );
}

#[test]
fn an_internal_error_says_what_was_being_done() {
    match internal_error("servers list", "gone") {
        ToolError::Internal(message) => assert_eq!(message, "servers list: gone"),
        ToolError::InvalidParams(_) => panic!("not the caller's fault"),
    }
}
