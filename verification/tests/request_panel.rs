use silvapi::models::KeyValue;
use silvapi::request_panel::{ParamRow, RequestPanel, RequestTab, UrlSegment};

fn row(key: &str, value: &str, enabled: bool) -> ParamRow {
    ParamRow { key: key.to_string(), value: value.to_string(), enabled }
}

fn keys(rows: &[ParamRow]) -> Vec<String> {
    rows.iter().map(|r| r.key.clone()).collect()
}

#[test]
fn stale_path_param_prefix_rows_are_pruned() {
    let extracted = vec!["paramssksjska".to_string()];
    let previous = Vec::new();

    assert!(RequestPanel::is_stale_path_param_row("params", "", &extracted, &previous));
    assert!(!RequestPanel::is_stale_path_param_row("paramssksjska", "", &extracted, &previous));
    assert!(!RequestPanel::is_stale_path_param_row("limit", "", &extracted, &previous));
    assert!(!RequestPanel::is_stale_path_param_row("params", "manual", &extracted, &previous));
}

#[test]
fn blank_query_params_with_rows_become_placeholders() {
    let params = vec![KeyValue::new("limit", "10"), KeyValue::new("offset", "")];

    assert_eq!(
        RequestPanel::normalize_query_param_placeholders(
            "{{baseUrl}}/api/v2/berry/?limit=&offset=&q=",
            &params
        ),
        "{{baseUrl}}/api/v2/berry/?limit=:limit&offset=:offset&q="
    );
}

#[test]
fn previous_path_params_are_stale_once_gone_from_the_url() {
    let extracted = vec!["id".to_string()];
    let previous = vec!["user".to_string()];
    assert!(RequestPanel::is_stale_path_param_row(" user ", "42", &extracted, &previous));
    assert!(!RequestPanel::is_stale_path_param_row("id", "", &extracted, &previous));
    assert!(!RequestPanel::is_stale_path_param_row("   ", "", &extracted, &previous));
}

#[test]
fn placeholders_keep_fragment_and_untouched_urls() {
    let params = vec![KeyValue::new("page", "")];
    assert_eq!(
        RequestPanel::normalize_query_param_placeholders("https://x.io/a?page=#top", &params),
        "https://x.io/a?page=:page#top"
    );
    assert_eq!(
        RequestPanel::normalize_query_param_placeholders("https://x.io/a?page=2", &params),
        "https://x.io/a?page=2"
    );
    assert_eq!(RequestPanel::normalize_query_param_placeholders("https://x.io/a", &params), "https://x.io/a");
    let odd = vec![KeyValue::new("a b", "")];
    assert_eq!(
        RequestPanel::normalize_query_param_placeholders("/p?a+b=", &odd),
        "/p?a+b="
    );
}

#[test]
fn normalizing_placeholders_twice_changes_nothing_more() {
    let params = vec![KeyValue::new("limit", ""), KeyValue::new("q", "x")];
    let once = RequestPanel::normalize_query_param_placeholders("/s?limit=&q=&z=", &params);
    let twice = RequestPanel::normalize_query_param_placeholders(&once, &params);
    assert_eq!(once, "/s?limit=:limit&q=:q&z=");
    assert_eq!(once, twice);
}

#[test]
fn tab_indices_round_trip() {
    for (i, tab) in [RequestTab::Body, RequestTab::Params, RequestTab::Headers, RequestTab::Auth, RequestTab::Info]
        .iter()
        .enumerate()
    {
        assert_eq!(tab.index(), i);
        assert_eq!(RequestTab::from_index(i), *tab);
    }
    assert_eq!(RequestTab::from_index(17), RequestTab::Info);
}

#[test]
fn variable_names_are_distinct_and_valid() {
    let names = RequestPanel::extract_variable_names("{{ host }}/{{$random}}/{{id}}/{{host}}/{{bad name}}/{{open");
    assert_eq!(names, vec!["host".to_string(), "id".to_string()]);
    assert!(RequestPanel::is_url_variable_name("base.url-2_x"));
    assert!(!RequestPanel::is_url_variable_name(""));
    assert!(!RequestPanel::is_url_variable_name("$ts"));
    assert!(!RequestPanel::is_url_variable_name("a b"));
}

#[test]
fn path_param_starts_follow_slash_or_equals() {
    assert!(RequestPanel::is_url_path_param_start("/users/:id", 7));
    assert!(RequestPanel::is_url_path_param_start(":id", 0));
    assert!(RequestPanel::is_url_path_param_start("/q?x=:id", 5));
    assert!(!RequestPanel::is_url_path_param_start("http://host", 4));
    assert!(!RequestPanel::is_url_path_param_start("/a:/b", 2));
    assert!(RequestPanel::is_url_path_param_start("\u{e9}/:x", 3));
    assert!(!RequestPanel::is_url_path_param_start("\u{e9}:x", 2));
    assert!(RequestPanel::is_url_path_param_char('_'));
    assert!(!RequestPanel::is_url_path_param_char('.'));
}

#[test]
fn form_components_decode() {
    assert_eq!(RequestPanel::decode_urlencoded_component("a+b%20c%2"), "a b c%2");
    assert_eq!(RequestPanel::decode_urlencoded_component("%zz%41"), "%zzA");
    assert_eq!(RequestPanel::decode_urlencoded_component("%FF"), "\u{FFFD}");
    assert_eq!(RequestPanel::input_line("a\r\nb"), "a  b");
    assert!(RequestPanel::can_use_query_placeholder("page_2-x"));
    assert!(!RequestPanel::can_use_query_placeholder("a.b"));
    assert!(!RequestPanel::can_use_query_placeholder(""));
}

#[test]
fn syncing_rows_drops_stale_and_adds_missing() {
    let mut panel = RequestPanel::new(None, &[]);
    panel.param_rows = vec![row("user", "1", true), row("id", "7", true), row("id", "8", true), row("limit", "", true)];
    panel.path_param_keys = vec!["user".to_string()];
    let changed = panel.sync_path_param_rows(&["id".to_string(), "org".to_string()]);
    assert!(changed);
    assert_eq!(keys(&panel.param_rows), vec!["id", "limit", "org"]);
    assert_eq!(panel.param_rows[0].value, "7");
    assert_eq!(panel.param_rows[2].value, "");
    assert_eq!(panel.path_param_keys, vec!["id".to_string(), "org".to_string()]);
    let again = panel.sync_path_param_rows(&["id".to_string(), "org".to_string()]);
    assert!(!again);
    assert_eq!(keys(&panel.param_rows), vec!["id", "limit", "org"]);
}

fn describe(segments: &[UrlSegment]) -> Vec<String> {
    segments
        .iter()
        .map(|s| match s {
            UrlSegment::Text(t) => format!("text:{}", t),
            UrlSegment::Variable(v) => format!("var:{}", v),
            UrlSegment::PathParam(p) => format!("param:{}", p),
        })
        .collect()
}

#[test]
fn url_segments_split_variables_and_params() {
    let segments = RequestPanel::url_segments("{{ base }}/users/:id?x=1&y={{$no}}");
    assert_eq!(
        describe(&segments),
        vec!["var:base", "text:/users/", "param:id", "text:?x=1&y={{$no}}"]
    );
    let plain = RequestPanel::url_segments("http://a:80/");
    assert_eq!(describe(&plain), vec!["text:http://a:80/"]);
}
