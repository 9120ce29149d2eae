use silvapi::curl::{format_curl, shell_quote};
use silvapi::models::{ApiRequest, AuthConfig, BodyType, HttpMethod, KeyValue, RequestBody};
use silvapi::row_status::{method_color, request_row_status, row_status_text, status_color, RequestActivity, RequestRowStatus};
use silvapi::text::decimal_text;

fn request(url: &str) -> ApiRequest {
    ApiRequest {
        id: "r".to_string(),
        name: "n".to_string(),
        method: HttpMethod::POST,
        url: url.to_string(),
        params: Vec::new(),
        headers: Vec::new(),
        body: RequestBody { body_type: BodyType::Json, content: String::new(), urlencoded: Vec::new(), form_data: Vec::new() },
        auth: AuthConfig::default(),
    }
}

#[test]
fn shell_words_are_quoted_only_when_needed() {
    assert_eq!(shell_quote("https://a.b/c?d=1&e=%20{x}"), "https://a.b/c?d=1&e=%20{x}");
    assert_eq!(shell_quote("a b"), "'a b'");
    assert_eq!(shell_quote("it's"), "'it'\\''s'");
    assert_eq!(shell_quote(""), "");
}

#[test]
fn requests_become_curl_commands() {
    let mut req = request("https://api.x/v1");
    let mut off = KeyValue::new("X-Off", "1");
    off.enabled = false;
    req.headers = vec![KeyValue::new("Content-Type", "application/json"), off, KeyValue::new("", "ignored")];
    req.body.content = "{\"a\": 1}".to_string();
    assert_eq!(
        format_curl(&req, "unused"),
        "curl -X POST https://api.x/v1 -H 'Content-Type: application/json' -d '{\"a\": 1}'"
    );
    let mut form = request("/f");
    form.method = HttpMethod::GET;
    form.body.body_type = BodyType::UrlEncoded;
    form.body.content = "ignored".to_string();
    form.body.urlencoded = vec![KeyValue::new("a", "1")];
    assert_eq!(format_curl(&form, "a=1"), "curl -X GET /f -d a=1");
    let bare = request("/b");
    assert_eq!(format_curl(&bare, ""), "curl -X POST /b");
}

#[test]
fn row_status_prefers_running_then_last_run_then_cache() {
    let running = RequestActivity { loading: true, last_status: Some(200), last_error: None };
    assert_eq!(request_row_status(Some(&running), Some(404)), Some(RequestRowStatus::Loading));
    let done = RequestActivity { loading: false, last_status: Some(201), last_error: Some("x".to_string()) };
    assert_eq!(request_row_status(Some(&done), Some(404)), Some(RequestRowStatus::Status(201)));
    let failed = RequestActivity { loading: false, last_status: None, last_error: Some("x".to_string()) };
    assert_eq!(request_row_status(Some(&failed), Some(404)), Some(RequestRowStatus::Error));
    let idle = RequestActivity { loading: false, last_status: None, last_error: None };
    assert_eq!(request_row_status(Some(&idle), Some(404)), Some(RequestRowStatus::Status(404)));
    assert_eq!(request_row_status(None, None), None);
}

#[test]
fn colours_and_texts_of_marks() {
    assert_eq!(status_color(204), 0x00C853);
    assert_eq!(status_color(301), 0xFF9800);
    assert_eq!(status_color(500), 0xFF4081);
    assert_eq!(status_color(199), 0xFF4081);
    assert_eq!(method_color("GET"), 0x4CAF50);
    assert_eq!(method_color("DELETE"), 0xF44336);
    assert_eq!(method_color("get"), 0x607D8B);
    assert_eq!(row_status_text(RequestRowStatus::Status(404)), "404");
    assert_eq!(row_status_text(RequestRowStatus::Error), "ERR");
    assert_eq!(row_status_text(RequestRowStatus::Loading), "");
    assert_eq!(decimal_text(0), "0");
    assert_eq!(decimal_text(18446744073709551615), "18446744073709551615");
}

fn read_back(word: &str) -> String {
    let mut out = String::new();
    let mut quoted = false;
    let mut chars = word.chars().peekable();
    while let Some(c) = chars.next() {
        if quoted {
            if c == '\'' {
                quoted = false;
            } else {
                out.push(c);
            }
        } else if c == '\'' {
            quoted = true;
        } else if c == '\\' && chars.peek().is_some() {
            out.push(chars.next().unwrap());
        } else {
            out.push(c);
        }
    }
    out
}

#[test]
fn quoted_words_read_back() {
    for word in ["plain/path", "it's", "'''", "a b\\c", "", "\u{e9}t\u{e9}", "x'y z'"] {
        assert_eq!(read_back(&shell_quote(word)), word);
    }
}
