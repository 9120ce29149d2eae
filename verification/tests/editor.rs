use silvapi::editor::{shown_kv_rows, shown_multipart_rows};
use silvapi::models::{
    ApiRequest, AuthConfig, AuthType, BodyType, Collection, CollectionItem, FormDataPart, FormDataPartKind, HttpMethod,
    KeyValue, RequestBody, Variable,
};
use silvapi::request_panel::{tab_labels, ParamRow, RequestPanel, UrlVariableRow};
use silvapi::rows::RowList;
use silvapi::variables::{update_global_variable, variable_value};

fn row(key: &str, value: &str, enabled: bool) -> ParamRow {
    ParamRow { key: key.to_string(), value: value.to_string(), enabled }
}

fn request(id: &str, url: &str) -> ApiRequest {
    ApiRequest {
        id: id.to_string(),
        name: "Get user".to_string(),
        method: HttpMethod::GET,
        url: url.to_string(),
        params: Vec::new(),
        headers: Vec::new(),
        body: RequestBody { body_type: BodyType::Json, content: String::new(), urlencoded: Vec::new(), form_data: Vec::new() },
        auth: AuthConfig::default(),
    }
}

fn is_uuid(s: &str) -> bool {
    s.len() == 36
        && s.chars().enumerate().all(|(i, c)| {
            if i == 8 || i == 13 || i == 18 || i == 23 {
                c == '-'
            } else {
                c.is_ascii_digit() || ('a'..='f').contains(&c)
            }
        })
}

#[test]
fn collect_kv_drops_rows_without_key() {
    let rows = vec![row("a", "1", true), row("", "x", true), row("b", "", false)];
    let kvs = RequestPanel::collect_kv(&rows);
    assert_eq!(kvs.len(), 2);
    assert_eq!((kvs[0].key.as_str(), kvs[0].value.as_str(), kvs[0].enabled), ("a", "1", true));
    assert_eq!((kvs[1].key.as_str(), kvs[1].value.as_str(), kvs[1].enabled), ("b", "", false));
    assert!(kvs.iter().all(|kv| is_uuid(&kv.id) && kv.description.is_empty()));
    assert_ne!(kvs[0].id, kvs[1].id);
}

#[test]
fn merge_path_params_adds_missing_keys_once() {
    let mut params = vec![KeyValue::new("id", "7")];
    let keep_id = params[0].id.clone();
    RequestPanel::merge_path_params(&["id".to_string(), "org".to_string(), "org".to_string()], &mut params);
    assert_eq!(params.len(), 2);
    assert_eq!(params[0].id, keep_id);
    assert_eq!(params[0].value, "7");
    assert_eq!((params[1].key.as_str(), params[1].value.as_str(), params[1].enabled), ("org", "", true));
    assert!(is_uuid(&params[1].id));
}

#[test]
fn path_param_value_prefers_enabled_rows_then_request() {
    let mut panel = RequestPanel::new(None, &[]);
    panel.param_rows = vec![row("id", "off", false), row("id", "7", true)];
    assert_eq!(panel.path_param_value("id", None), Some("7".to_string()));
    let saved = vec![KeyValue::new("org", "acme")];
    assert_eq!(panel.path_param_value("org", Some(&saved)), Some("acme".to_string()));
    assert_eq!(panel.path_param_value("org", None), None);
    assert_eq!(panel.path_param_value("none", Some(&saved)), None);
}

#[test]
fn curl_commands_are_recognised() {
    assert!(RequestPanel::looks_like_curl("  curl https://x"));
    assert!(RequestPanel::looks_like_curl("curl\t-X GET"));
    assert!(!RequestPanel::looks_like_curl("curl"));
    assert!(!RequestPanel::looks_like_curl("curlx https://x"));
    assert!(!RequestPanel::looks_like_curl("https://curl.se"));
}

fn collections() -> Vec<Collection> {
    let inner = request("r1", "/a");
    vec![
        Collection { id: "c0".to_string(), name: "Zero".to_string(), items: Vec::new(), variables: vec![Variable::new("host", "zero")] },
        Collection {
            id: "c1".to_string(),
            name: "One".to_string(),
            items: vec![CollectionItem::Request(inner)],
            variables: vec![Variable::new("host", "one.local"), Variable::new("token", "t1")],
        },
    ]
}

#[test]
fn variables_resolve_workspace_first_then_collection() {
    let cols = collections();
    let ws = vec![Variable::new("token", "global")];
    let active = Some("r1".to_string());
    assert_eq!(variable_value(&ws, &cols, &active, "token"), Some("global".to_string()));
    assert_eq!(variable_value(&ws, &cols, &active, "host"), Some("one.local".to_string()));
    assert_eq!(variable_value(&ws, &cols, &None, "host"), None);
    assert_eq!(variable_value(&ws, &cols, &Some("zz".to_string()), "host"), None);
}

#[test]
fn setting_a_variable_reads_back() {
    let mut ws = vec![Variable::new("a", "1"), Variable::new("b", "2")];
    ws[1].enabled = false;
    let id_b = ws[1].id.clone();
    update_global_variable(&mut ws, "b", "3");
    assert_eq!(ws.len(), 2);
    assert_eq!((ws[1].value.as_str(), ws[1].enabled, ws[1].id.clone()), ("3", true, id_b));
    update_global_variable(&mut ws, "c", "4");
    assert_eq!(ws.len(), 3);
    assert_eq!((ws[2].name.as_str(), ws[2].value.as_str(), ws[2].enabled), ("c", "4", true));
    let cols = collections();
    assert_eq!(variable_value(&ws, &cols, &None, "c"), Some("4".to_string()));
    assert_eq!(variable_value(&ws, &cols, &None, "a"), Some("1".to_string()));
}

#[test]
fn url_variable_rows_refresh() {
    let cols = collections();
    let ws = vec![Variable::new("host", "h\nx")];
    let mut panel = RequestPanel::new(None, &[]);
    panel.refresh_url_variable_rows("{{host}}/{{missing}}", &ws, &cols, &None);
    assert_eq!(panel.url_variable_rows.len(), 2);
    assert_eq!((panel.url_variable_rows[0].name.as_str(), panel.url_variable_rows[0].value.as_str()), ("host", "h x"));
    assert_eq!(panel.url_variable_rows[1].value, "");
    panel.url_variable_rows[1].value = "typed".to_string();
    panel.refresh_url_variable_rows("{{host}}/{{missing}}", &ws, &cols, &None);
    assert_eq!(panel.url_variable_rows[1].value, "typed");
    panel.refresh_url_variable_rows("{{missing}}", &ws, &cols, &None);
    assert_eq!(panel.url_variable_rows.len(), 1);
    assert_eq!(panel.url_variable_rows[0].value, "");
    let _ = UrlVariableRow { name: String::new(), value: String::new() };
}

#[test]
fn loading_a_request_fills_the_editor() {
    let mut req = request("r1", "/users/:id?limit=");
    req.params = vec![KeyValue::new("limit", "10"), KeyValue::new("line", "a\nb")];
    req.headers = vec![KeyValue::new("Accept", "json")];
    req.body.content = "{}".to_string();
    req.body.form_data = vec![FormDataPart {
        id: "p1".to_string(),
        name: "f\r".to_string(),
        value: "v".to_string(),
        enabled: true,
        kind: FormDataPartKind::Text,
        content_type: String::new(),
    }];
    req.auth.auth_type = AuthType::Bearer;
    req.auth.bearer_token = "tok".to_string();
    let mut panel = RequestPanel::new(None, &[]);
    let changed = panel.load_request(&req, &["id".to_string(), "limit".to_string()]);
    assert!(changed);
    assert_eq!(panel.url, "/users/:id?limit=:limit");
    assert_eq!(panel.body_text, "{}");
    let keys: Vec<&str> = panel.param_rows.iter().map(|r| r.key.as_str()).collect();
    assert_eq!(keys, vec!["limit", "line", "id"]);
    assert_eq!(panel.param_rows[1].value, "a b");
    assert_eq!(panel.header_rows.len(), 1);
    assert_eq!(panel.multipart_rows[0].name, "f ");
    assert_eq!(panel.auth_inputs.bearer_token, "tok");
    assert_eq!(panel.auth_inputs.bearer_prefix, "Bearer");
}

#[test]
fn writing_the_editor_into_the_request() {
    let mut panel = RequestPanel::new(None, &[]);
    panel.param_rows = vec![row("page", "", true), row("", "dropped", true)];
    panel.header_rows = vec![row("X-A", "1", true)];
    panel.body_text = "{\"a\":1}".to_string();
    panel.auth_inputs.bearer_token = "secret".to_string();
    let mut req = request("r9", "");
    let pending = panel.write_request(&mut req, "/list?page=");
    assert!(!pending);
    assert_eq!(req.url, "/list?page=:page");
    assert_eq!(panel.url, req.url);
    assert_eq!(req.params.len(), 1);
    assert_eq!(req.headers[0].key, "X-A");
    assert_eq!(req.body.content, "{\"a\":1}");
    assert_eq!(req.auth.bearer_token, "secret");
    assert_eq!(req.id, "r9");

    req.body.body_type = BodyType::UrlEncoded;
    req.body.content = "old".to_string();
    panel.urlencoded_rows = vec![row("k", "v", true)];
    assert!(panel.write_request(&mut req, "/list"));
    assert_eq!(req.body.content, "old");
    assert_eq!(req.body.urlencoded[0].key, "k");

    panel.param_rows = vec![row("only", "1", true)];
    panel.persist_param_rows(&mut req);
    assert_eq!(req.params.len(), 1);
    panel.url = "/new".to_string();
    panel.persist_url_and_param_rows(&mut req);
    assert_eq!(req.url, "/new");
}

#[test]
fn pasted_requests_take_the_old_id() {
    let mut parsed = request("fresh", "/u/:id");
    parsed.body.body_type = BodyType::UrlEncoded;
    parsed.body.content = "a=1&b=2".to_string();
    let mut panel = RequestPanel::new(None, &[]);
    panel.multipart_rows = shown_multipart_rows(&[FormDataPart::empty()]);
    let (active, pending) = panel.load_pasted_request(parsed, &["id".to_string()], &Some("old".to_string()));
    assert_eq!(active.id, "old");
    assert!(pending);
    assert_eq!(active.params.len(), 1);
    assert_eq!(active.params[0].key, "id");
    assert_eq!(active.body.urlencoded.len(), 2);
    assert_eq!(panel.urlencoded_rows.len(), 2);
    assert!(panel.multipart_rows.is_empty());
    assert_eq!(panel.url, "/u/:id");
    let rows = shown_kv_rows(&active.params);
    assert_eq!(rows[0].key, "id");
}

#[test]
fn sending_builds_the_outgoing_request() {
    let mut panel = RequestPanel::new(None, &[]);
    panel.param_rows = vec![row("q", "1", true)];
    panel.body_text = "payload".to_string();
    assert!(panel.prepare_send(request("r", ""), "", &[]).is_none());
    let (req, pending) = panel.prepare_send(request("r", "old"), "/u/:id?q=", &["id".to_string(), "q".to_string()]).unwrap();
    assert!(!pending);
    assert_eq!(req.url, "/u/:id?q=");
    assert_eq!(panel.url, "/u/:id?q=");
    let keys: Vec<&str> = req.params.iter().map(|p| p.key.as_str()).collect();
    assert_eq!(keys, vec!["q", "id"]);
    assert_eq!(req.body.content, "payload");
    assert_eq!(req.id, "r");
}

#[test]
fn rows_are_added_ticked_and_removed() {
    let mut panel = RequestPanel::new(None, &[]);
    panel.add_row(RowList::Headers);
    assert_eq!(panel.header_rows.len(), 1);
    assert!(panel.header_rows[0].enabled && panel.header_rows[0].key.is_empty());
    assert!(panel.param_rows.is_empty());
    assert!(panel.set_list_row_enabled(RowList::Headers, 0, false));
    assert!(!panel.header_rows[0].enabled);
    assert!(!panel.set_list_row_enabled(RowList::Headers, 3, true));
    panel.add_row(RowList::UrlEncoded);
    assert!(panel.remove_list_row(RowList::UrlEncoded, 0));
    assert!(!panel.remove_list_row(RowList::UrlEncoded, 0));
    assert!(panel.urlencoded_rows.is_empty());
    assert_eq!(panel.header_rows.len(), 1);
}

#[test]
fn load_then_write_gives_the_request_back() {
    let mut req = request("r1", "/users/:id?limit=:limit");
    req.params = vec![KeyValue::new("limit", "10"), KeyValue::new("id", "7")];
    req.headers = vec![KeyValue::new("Accept", "application/json")];
    req.body.content = "{\"q\": 1}".to_string();
    let keys = vec!["id".to_string(), "limit".to_string()];
    let mut panel = RequestPanel::new(None, &[]);
    assert!(!panel.load_request(&req, &keys));
    let mut written = request("r1", "");
    let url = panel.url.clone();
    panel.write_request(&mut written, &url);
    assert_eq!(written.url, req.url);
    let texts = |kvs: &[KeyValue]| kvs.iter().map(|kv| (kv.key.clone(), kv.value.clone(), kv.enabled)).collect::<Vec<_>>();
    assert_eq!(texts(&written.params), texts(&req.params));
    assert_eq!(texts(&written.headers), texts(&req.headers));
    assert_eq!(written.body.content, req.body.content);
}

#[test]
fn hovering_chips_shows_one_tooltip() {
    let cols = collections();
    let ws = vec![Variable::new("host", "api.local"), Variable::new("empty", "")];
    let mut panel = RequestPanel::new(None, &[]);
    panel.param_rows = vec![row("id", "42", true)];
    panel.hover_url_variable("host", true);
    assert_eq!(panel.url_variable_tooltip("host", &ws, &cols, &None), Some("host = api.local".to_string()));
    assert_eq!(panel.url_variable_tooltip("other", &ws, &cols, &None), None);
    panel.hover_url_path_param("id", true);
    assert!(panel.hovered_url_variable.is_none());
    assert_eq!(panel.path_param_tooltip("id", None), Some(":id = 42".to_string()));
    assert_eq!(panel.url_variable_tooltip("host", &ws, &cols, &None), None);
    panel.hover_url_path_param("other", false);
    assert_eq!(panel.hovered_url_path_param, Some("id".to_string()));
    panel.hover_url_path_param("id", false);
    assert!(panel.hovered_url_path_param.is_none());
    panel.hover_url_variable("empty", true);
    assert_eq!(panel.url_variable_tooltip("empty", &ws, &cols, &None), Some("empty = No value".to_string()));
    panel.hover_url_variable("nothing", true);
    assert_eq!(panel.url_variable_tooltip("nothing", &ws, &cols, &None), Some("nothing = No value".to_string()));
}

#[test]
fn urls_with_variables_or_params_are_decorated() {
    assert!(RequestPanel::url_is_decorated("{{host}}/a", &[]));
    assert!(RequestPanel::url_is_decorated("/a/:id", &["id".to_string()]));
    assert!(!RequestPanel::url_is_decorated("/a/{{$bad}}", &[]));
}

#[test]
fn url_parameters_list_path_then_new_query_keys() {
    let path = vec!["id".to_string(), "org".to_string()];
    let query = vec!["limit".to_string(), "id".to_string(), "limit".to_string(), "q".to_string()];
    let keys = RequestPanel::url_param_keys(&path, &query);
    assert_eq!(keys, vec!["id", "org", "limit", "q"].iter().map(|s| s.to_string()).collect::<Vec<_>>());
}

fn part(name: &str, value: &str) -> FormDataPart {
    FormDataPart {
        id: "p".to_string(),
        name: name.to_string(),
        value: value.to_string(),
        enabled: true,
        kind: FormDataPartKind::Text,
        content_type: String::new(),
    }
}

#[test]
fn tab_labels_count_filled_rows() {
    let params = vec![row("a", "1", true), row("", "x", true), row("b", "", false)];
    let headers = vec![row("", "", true)];
    let urlencoded = vec![row("", "v", true), row("", "", true), row("k", "", true)];
    let parts = vec![part("f", ""), part("", ""), part("", "v")];
    let labels = tab_labels(&params, &headers, &urlencoded, BodyType::UrlEncoded, &parts, AuthType::NoAuth);
    assert_eq!(labels, vec!["Url Encoded (2)", "Params (2)", "Headers", "Auth", "Info"]);
    let labels = tab_labels(&params, &headers, &urlencoded, BodyType::FormData, &parts, AuthType::Bearer);
    assert_eq!(labels[0], "Multi-Part (2)");
    assert_eq!(labels[3], "Bearer");
    let labels = tab_labels(&[], &[], &urlencoded, BodyType::Json, &parts, AuthType::OAuth2);
    assert_eq!(labels, vec!["JSON", "Params", "Headers", "OAuth 2", "Info"]);
    let many: Vec<ParamRow> = (0..12).map(|i| row(&format!("k{}", i), "", true)).collect();
    assert_eq!(tab_labels(&many, &many, &[], BodyType::NoBody, &[], AuthType::NoAuth)[..3], ["No Body", "Params (12)", "Headers (12)"]);
}

#[test]
fn form_components_decode_as_utf8() {
    assert_eq!(RequestPanel::decode_urlencoded_component("a+b%41%zz%4"), "a bA%zz%4");
    assert_eq!(RequestPanel::decode_urlencoded_component("%E2%82%AC"), "\u{20AC}");
    assert_eq!(RequestPanel::decode_urlencoded_component("plain-text_1"), "plain-text_1");
}

#[test]
fn a_new_editor_shows_the_active_request() {
    let mut req = request("r9", "https://x/api/:id?limit=&q=");
    req.params = vec![KeyValue::new("limit", "10")];
    req.headers = vec![KeyValue::new("Accept", "a\nb")];
    req.body.content = "{}".to_string();
    let keys = vec!["id".to_string(), "limit".to_string()];
    let panel = RequestPanel::new(Some(&req), &keys);
    assert_eq!(panel.url, "https://x/api/:id?limit=:limit&q=");
    assert_eq!(panel.body_text, "{}");
    assert_eq!(panel.path_param_keys, keys);
    assert_eq!(panel.param_rows.len(), 2);
    assert_eq!((panel.param_rows[0].key.as_str(), panel.param_rows[0].value.as_str()), ("limit", "10"));
    assert_eq!(panel.param_rows[1].key, "id");
    assert_eq!((panel.header_rows[0].key.as_str(), panel.header_rows[0].value.as_str()), ("Accept", "a b"));
    assert!(panel.hovered_url_variable.is_none() && panel.hovered_url_path_param.is_none());
    let empty = RequestPanel::new(None, &keys);
    assert!(empty.url.is_empty() && empty.param_rows.is_empty() && empty.path_param_keys.is_empty());
}
