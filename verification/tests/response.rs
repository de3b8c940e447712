use text_edit_core::response::{
    contains, json_content, parse_response_content, starts_with, JsonAttempt,
    Response, ResponseContent, StatusClass,
};

fn text(s: &str) -> ResponseContent {
    ResponseContent::Text(s.to_string())
}

fn json(s: &str) -> ResponseContent {
    ResponseContent::Json(s.to_string())
}

#[test]
fn an_image_is_kept_with_its_media_type() {
    let bytes = vec![0x89, 0x50, 0x4e, 0x47];
    assert_eq!(
        parse_response_content(Some("image/png"), bytes.clone()),
        ResponseContent::Image(bytes, "image/png".to_string())
    );
}

#[test]
fn an_image_need_not_be_text() {
    let bytes = vec![0xff, 0xd8, 0xff];
    assert_eq!(
        parse_response_content(Some("image/jpeg; q=1"), bytes.clone()),
        ResponseContent::Image(bytes, "image/jpeg; q=1".to_string())
    );
}

#[test]
fn declared_json_is_printed_with_indentation() {
    let body = b"{\"a\":1,\"b\":[true,null]}".to_vec();
    assert_eq!(
        parse_response_content(Some("application/json"), body),
        json("{\n  \"a\": 1,\n  \"b\": [\n    true,\n    null\n  ]\n}")
    );
}

#[test]
fn declared_json_that_is_none_stays_text() {
    let body = b"{not json".to_vec();
    assert_eq!(
        parse_response_content(Some("application/json; charset=utf-8"), body),
        text("{not json")
    );
}

#[test]
fn declared_text_is_not_tried_as_json() {
    assert_eq!(parse_response_content(Some("text/html"), b"[1,2]".to_vec()), text("[1,2]"));
    assert_eq!(parse_response_content(Some("application/xml"), b"{}".to_vec()), text("{}"));
    assert_eq!(parse_response_content(Some("application/xhtml"), b"7".to_vec()), text("7"));
}

#[test]
fn a_missing_content_type_means_plain_text() {
    assert_eq!(parse_response_content(None, b"{\"a\":1}".to_vec()), text("{\"a\":1}"));
    assert_eq!(parse_response_content(None, b"hello".to_vec()), text("hello"));
}

#[test]
fn json_and_text_together_count_as_json() {
    assert_eq!(parse_response_content(Some("text/json"), b"[1]".to_vec()), json("[\n  1\n]"));
}

#[test]
fn an_unknown_type_is_tried_as_json() {
    assert_eq!(
        parse_response_content(Some("application/octet-stream"), b"{\"k\":\"v\"}".to_vec()),
        json("{\n  \"k\": \"v\"\n}")
    );
    assert_eq!(
        parse_response_content(Some("application/octet-stream"), b"plain".to_vec()),
        text("plain")
    );
}

#[test]
fn bytes_that_are_no_text_are_binary() {
    let bytes = vec![0xff, 0xfe, 0x00, 0x41];
    assert_eq!(
        parse_response_content(Some("application/json"), bytes.clone()),
        ResponseContent::Binary(bytes.clone())
    );
    assert_eq!(parse_response_content(None, bytes.clone()), ResponseContent::Binary(bytes));
}

#[test]
fn text_of_many_bytes_per_character_is_text() {
    let body = "caf\u{e9} \u{1f600}".as_bytes().to_vec();
    assert_eq!(parse_response_content(Some("text/plain"), body), text("caf\u{e9} \u{1f600}"));
}

#[test]
fn an_empty_body_is_empty_text() {
    assert_eq!(parse_response_content(Some("text/plain"), Vec::new()), text(""));
    assert_eq!(parse_response_content(Some("application/json"), Vec::new()), text(""));
}

#[test]
fn json_is_printed_the_same_for_every_declaration() {
    let pretty = json("[\n  1,\n  2\n]");
    assert_eq!(parse_response_content(Some("application/json"), b"[1, 2]".to_vec()), pretty);
    assert_eq!(parse_response_content(Some("application/x-custom"), b"[1, 2]".to_vec()), pretty);
    assert_eq!(parse_response_content(Some("application/json"), b"\"s\"".to_vec()), json("\"s\""));
    assert_eq!(parse_response_content(Some("application/json"), b"{} x".to_vec()), text("{} x"));
}

#[test]
fn json_content_follows_the_attempt() {
    let printed = JsonAttempt::Printed("{}".to_string());
    assert_eq!(json_content("{ }".to_string(), printed.clone(), true), json("{}"));
    assert_eq!(json_content("{ }".to_string(), printed, false), json("{}"));
    assert_eq!(json_content("{ }".to_string(), JsonAttempt::NotPrinted, true), json("{ }"));
    assert_eq!(json_content("{ }".to_string(), JsonAttempt::NotPrinted, false), text("{ }"));
    assert_eq!(json_content("x".to_string(), JsonAttempt::NotJson, true), text("x"));
    assert_eq!(json_content("x".to_string(), JsonAttempt::NotJson, false), text("x"));
}

#[test]
fn starts_with_and_contains_compare_bytes() {
    assert!(starts_with("image/png", "image/"));
    assert!(!starts_with("an image/png", "image/"));
    assert!(!starts_with("imag", "image/"));
    assert!(starts_with("x", ""));
    assert!(contains("application/json", "json"));
    assert!(contains("json", "json"));
    assert!(!contains("jso", "json"));
    assert!(!contains("application/jsan", "json"));
    assert!(contains("", ""));
    assert!(contains("ab", ""));
    assert!(!contains("", "a"));
    assert!(contains("aab", "ab"));
}

#[test]
fn from_error_is_a_response_without_a_status() {
    let r = Response::from_error("Invalid URL: empty host".to_string());
    assert_eq!(r.status, 0);
    assert_eq!(r.status_text, "Error");
    assert!(r.headers.is_empty());
    assert_eq!(r.content, ResponseContent::Error("Invalid URL: empty host".to_string()));
    assert_eq!(r.elapsed_ms, 0);
    assert_eq!(r.size_bytes, 0);
    assert_eq!(r.content_type(), "Error");
    assert_eq!(r.status_class(), StatusClass::Other);
}

#[test]
fn from_parts_builds_the_response() {
    let headers = vec![("content-type".to_string(), "application/json".to_string())];
    let r = Response::from_parts(
        201,
        Some("Created"),
        headers.clone(),
        Some("application/json"),
        b"[]".to_vec(),
        42,
    );
    assert_eq!(r.status, 201);
    assert_eq!(r.status_text, "Created");
    assert_eq!(r.headers, headers);
    assert_eq!(r.content, json("[]"));
    assert_eq!(r.elapsed_ms, 42);
    assert_eq!(r.size_bytes, 2);
    let r = Response::from_parts(299, None, Vec::new(), None, b"ok".to_vec(), 0);
    assert_eq!(r.status_text, "Unknown");
    assert_eq!(r.content, text("ok"));
}

#[test]
fn the_kind_of_content_has_a_name() {
    let mut r = Response::from_error(String::new());
    r.content = text("t");
    assert_eq!(r.content_type(), "Text");
    assert!(r.is_text() && !r.is_json() && !r.is_image());
    r.content = json("1");
    assert_eq!(r.content_type(), "JSON");
    assert!(!r.is_text() && r.is_json() && !r.is_image());
    r.content = ResponseContent::Image(vec![1], "image/gif".to_string());
    assert_eq!(r.content_type(), "Image");
    assert!(!r.is_text() && !r.is_json() && r.is_image());
    r.content = ResponseContent::Binary(vec![1]);
    assert_eq!(r.content_type(), "Binary");
    assert!(!r.is_text() && !r.is_json() && !r.is_image());
}

#[test]
fn status_codes_fall_in_three_classes() {
    let mut r = Response::from_error(String::new());
    for (status, class) in [
        (0u16, StatusClass::Other),
        (199, StatusClass::Other),
        (200, StatusClass::Success),
        (299, StatusClass::Success),
        (300, StatusClass::Other),
        (399, StatusClass::Other),
        (400, StatusClass::Failure),
        (503, StatusClass::Failure),
        (u16::MAX, StatusClass::Failure),
    ] {
        r.status = status;
        assert_eq!(r.status_class(), class);
    }
}
