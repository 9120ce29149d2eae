use silvapi::auth::{
    auth_type_label, auth_type_long_label, default_if_empty, ensure_auth_defaults, load_auth_inputs, oauth_grant_label,
    sync_auth_inputs_to_config, update_auth_config, AuthChange,
};
use silvapi::body::{
    body_type_label, collect_multipart, delete_multipart_part, empty_body_label, format_json_body, is_text_body_type,
    parse_urlencoded_content, select_body_type, set_multipart_file, update_multipart_part, urlencoded_fields_for_body,
    MultipartRow, PartEdit,
};
use silvapi::collection_panel::{drag_display, drop_target, flat_row_status, step_position, CollectionPanel, FolderKey};
use silvapi::row_status::{RequestActivity, RequestRowStatus};
use silvapi::models::{
    ApiRequest, AuthConfig, AuthType, BodyType, Collection, CollectionItem, Folder, FormDataPart, FormDataPartKind,
    HttpMethod, KeyValue, RequestBody,
};
use silvapi::tree::{
    collection_contains_request, edit_folder_in_items, find_folder_in_items, find_name_by_id, find_request_path,
    FolderEdit,
};

fn request(id: &str, name: &str) -> ApiRequest {
    ApiRequest {
        id: id.to_string(),
        name: name.to_string(),
        method: HttpMethod::DELETE,
        url: String::new(),
        params: Vec::new(),
        headers: Vec::new(),
        body: RequestBody { body_type: BodyType::NoBody, content: String::new(), urlencoded: Vec::new(), form_data: Vec::new() },
        auth: AuthConfig::default(),
    }
}

fn folder(id: &str, name: &str, items: Vec<CollectionItem>) -> Folder {
    Folder {
        id: id.to_string(),
        name: name.to_string(),
        description: String::new(),
        items,
        headers: Vec::new(),
        variables: Vec::new(),
        auth: AuthConfig::default(),
    }
}

fn workspace() -> Vec<Collection> {
    let deep = folder("f2", "Deep", vec![CollectionItem::Request(request("r2", "Remove"))]);
    let top = folder("f1", "Top", vec![CollectionItem::Folder(deep)]);
    vec![Collection {
        id: "c1".to_string(),
        name: "Api".to_string(),
        items: vec![CollectionItem::Request(request("r1", "Ping")), CollectionItem::Folder(top)],
        variables: Vec::new(),
    }]
}

#[test]
fn auth_defaults_fill_blanks_and_rename_legacy_values() {
    let mut auth = AuthConfig::default();
    auth.oauth_grant_type = "Password".to_string();
    auth.oauth_send_credentials = "As Basic Auth Header".to_string();
    auth.bearer_prefix = "Token".to_string();
    ensure_auth_defaults(&mut auth);
    assert_eq!(auth.bearer_prefix, "Token");
    assert_eq!(auth.aws_service, "sts");
    assert_eq!(auth.aws_region, "us-east-1");
    assert_eq!(auth.jwt_algorithm, "HS256");
    assert_eq!(auth.jwt_payload, "{\n  \"foo\": \"bar\"\n}");
    assert_eq!(auth.oauth_grant_type, "Resource Owner Password Credential");
    assert_eq!(auth.oauth_send_credentials, "As Basic Authentication");
    assert_eq!(auth.oauth_token_target, "access_token");
    let once = auth.clone_texts();
    ensure_auth_defaults(&mut auth);
    assert_eq!(once, auth.clone_texts());
    assert_eq!(default_if_empty("", "x"), "x");
    assert_eq!(default_if_empty("y", "x"), "y");
}

trait Texts {
    fn clone_texts(&self) -> Vec<String>;
}

impl Texts for AuthConfig {
    fn clone_texts(&self) -> Vec<String> {
        vec![
            self.bearer_prefix.clone(),
            self.aws_service.clone(),
            self.oauth_grant_type.clone(),
            self.oauth_send_credentials.clone(),
            self.oauth_header_name.clone(),
        ]
    }
}

#[test]
fn auth_inputs_round_trip() {
    let mut auth = AuthConfig::default();
    auth.basic_username = "ann".to_string();
    let inputs = load_auth_inputs(&auth);
    assert_eq!(inputs.bearer_prefix, "Bearer");
    assert_eq!(inputs.basic_username, "ann");
    let mut back = AuthConfig::default();
    sync_auth_inputs_to_config(&inputs, &mut back);
    assert_eq!(back.basic_username, "ann");
    assert_eq!(back.bearer_prefix, "Bearer");
    assert_eq!(inputs.all().len(), 25);
}

#[test]
fn auth_changes_apply_then_default() {
    let mut auth = AuthConfig::default();
    update_auth_config(&mut auth, AuthChange::Scheme(AuthType::OAuth2));
    assert!(auth.auth_type == AuthType::OAuth2);
    assert_eq!(auth.oauth_header_name, "Authorization");
    update_auth_config(&mut auth, AuthChange::GrantType("Password".to_string()));
    assert_eq!(auth.oauth_grant_type, "Resource Owner Password Credential");
    assert_eq!(auth_type_label(&AuthType::AwsV4), "AWS v4");
    assert_eq!(auth_type_long_label(&AuthType::AwsV4), "AWS Signature");
    assert_eq!(oauth_grant_label("Password"), "Resource Owner Password Credential");
    assert_eq!(CollectionPanel::folder_auth_label(false, &AuthType::Basic), "Inherit from Parent");
    assert_eq!(CollectionPanel::folder_auth_label(true, &AuthType::Basic), "Basic Auth");
    assert_eq!(CollectionPanel::folder_auth_short_label(false, &AuthType::Jwt), "Inherit");
    assert_eq!(CollectionPanel::folder_auth_short_label(true, &AuthType::Jwt), "JWT");
}

#[test]
fn body_labels_and_urlencoded_content() {
    assert_eq!(body_type_label(&BodyType::FormData), "Multi-Part");
    assert_eq!(empty_body_label(&BodyType::BinaryFile), "No file selected");
    assert!(is_text_body_type(&BodyType::Raw));
    assert!(!is_text_body_type(&BodyType::UrlEncoded));
    let fields = parse_urlencoded_content("a=1&&b+c=%41&=&d");
    let got: Vec<(String, String)> = fields.iter().map(|f| (f.key.clone(), f.value.clone())).collect();
    assert_eq!(
        got,
        vec![
            ("a".to_string(), "1".to_string()),
            ("b c".to_string(), "A".to_string()),
            ("d".to_string(), String::new())
        ]
    );
    assert!(parse_urlencoded_content("a=1\nb=2").is_empty());
    let mut body = RequestBody { body_type: BodyType::Json, content: "x=1".to_string(), urlencoded: Vec::new(), form_data: Vec::new() };
    assert!(urlencoded_fields_for_body(&body).is_empty());
    select_body_type(&mut body, BodyType::UrlEncoded);
    assert_eq!(body.urlencoded.len(), 1);
    assert_eq!(body.urlencoded[0].key, "x");
    select_body_type(&mut body, BodyType::FormData);
    assert_eq!(body.form_data.len(), 1);
}

#[test]
fn json_bodies_are_pretty_printed() {
    assert_eq!(format_json_body(BodyType::Json, "{\"a\":[1,2]}"), Some("{\n  \"a\": [\n    1,\n    2\n  ]\n}".to_string()));
    assert_eq!(format_json_body(BodyType::Json, "{oops"), None);
    assert_eq!(format_json_body(BodyType::Raw, "{}"), None);
}

#[test]
fn multipart_rows_and_edits() {
    let part = FormDataPart {
        id: "p1".to_string(),
        name: "file".to_string(),
        value: "/tmp/a".to_string(),
        enabled: false,
        kind: FormDataPartKind::File,
        content_type: "image/png".to_string(),
    };
    let body = RequestBody { body_type: BodyType::FormData, content: String::new(), urlencoded: Vec::new(), form_data: vec![part] };
    let rows = vec![
        MultipartRow { id: "p1".to_string(), name: "upload".to_string(), value: "/tmp/b".to_string() },
        MultipartRow { id: "p2".to_string(), name: String::new(), value: String::new() },
        MultipartRow { id: "p3".to_string(), name: "note".to_string(), value: "hi".to_string() },
    ];
    let parts = collect_multipart(&rows, &body);
    assert_eq!(parts.len(), 2);
    assert_eq!((parts[0].name.as_str(), parts[0].enabled, parts[0].kind == FormDataPartKind::File), ("upload", false, true));
    assert_eq!((parts[1].name.as_str(), parts[1].enabled, parts[1].kind == FormDataPartKind::Text), ("note", true, true));
    let mut parts = parts;
    update_multipart_part(&mut parts, "p3", PartEdit::Enabled(false));
    assert!(!parts[1].enabled);
    set_multipart_file(&mut parts, "p1", "/x/y.txt");
    assert_eq!(parts[0].value, "/x/y.txt");
    delete_multipart_part(&mut parts, "p1");
    assert_eq!(parts.len(), 1);
    assert_eq!(parts[0].id, "p3");
}

#[test]
fn tree_lookups() {
    let cols = workspace();
    assert!(collection_contains_request(&cols[0], "r2"));
    assert!(!collection_contains_request(&cols[0], "zz"));
    assert_eq!(find_name_by_id(&cols, "f2"), Some("Deep".to_string()));
    assert_eq!(find_name_by_id(&cols, "c1"), Some("Api".to_string()));
    assert_eq!(find_name_by_id(&cols, "nope"), None);
    let mut path = vec!["c1".to_string()];
    assert!(find_request_path(&cols[0].items, "r2", &mut path));
    assert_eq!(path, vec!["c1".to_string(), "f1".to_string(), "f2".to_string()]);
    let mut miss = vec!["c1".to_string()];
    assert!(!find_request_path(&cols[0].items, "zz", &mut miss));
    assert_eq!(miss, vec!["c1".to_string()]);
    assert_eq!(find_folder_in_items(&cols[0].items, "f2").map(|f| f.name.clone()), Some("Deep".to_string()));
    assert!(cols[0].matches_query("remove"));
    assert!(!cols[0].matches_query("zzz"));
}

#[test]
fn folder_edits_reach_nested_folders() {
    let mut cols = workspace();
    let found = edit_folder_in_items(&mut cols[0].items, "f2", &FolderEdit::Auth(AuthChange::Enabled(true)));
    assert!(found);
    assert!(find_folder_in_items(&cols[0].items, "f2").unwrap().auth.enabled);
    assert!(!edit_folder_in_items(&mut cols[0].items, "missing", &FolderEdit::Auth(AuthChange::Enabled(true))));
}

#[test]
fn tree_rows_expand_and_move() {
    let cols = workspace();
    let mut panel = CollectionPanel::new(&cols);
    let rows = panel.build_flat(&cols, "");
    let ids: Vec<&str> = rows.iter().map(|r| r.id.as_str()).collect();
    assert_eq!(ids, vec!["c1", "r1", "f1"]);
    assert!(rows[0].is_expanded);
    panel.toggle_expanded("c1");
    assert_eq!(panel.build_flat(&cols, "").len(), 1);
    panel.toggle_expanded("c1");
    assert_eq!(panel.build_flat(&cols, "").len(), 3);
    assert_eq!(rows[1].method_str, "DELETE");
    assert_eq!(rows[2].depth, 1);
    let searched = panel.build_flat(&cols, "REMOVE");
    let ids: Vec<&str> = searched.iter().map(|r| r.id.as_str()).collect();
    assert_eq!(ids, vec!["c1", "f1", "f2", "r2"]);
    assert_eq!(panel.move_selection(&rows, false), Some(("c1".to_string(), false)));
    assert_eq!(panel.move_selection(&rows, false), Some(("r1".to_string(), true)));
    assert_eq!(panel.move_selection(&rows, true), Some(("c1".to_string(), false)));
    assert_eq!(panel.move_selection(&rows, true), Some(("f1".to_string(), false)));
    panel.folder_key(&rows, FolderKey::Open);
    assert!(panel.expanded.contains(&"f1".to_string()));
    panel.folder_key(&rows, FolderKey::Close);
    assert!(!panel.expanded.contains(&"f1".to_string()));
    assert_eq!(step_position(3, Some(2), false), 0);
    assert_eq!(step_position(3, None, true), 2);
    assert_eq!(drop_target(&rows[0]), "root:c1");
    assert_eq!(drop_target(&rows[2]), "folder:f1");
    assert_eq!(drop_target(&rows[1]), "");
}

#[test]
fn revealing_and_renaming() {
    let cols = workspace();
    let mut panel = CollectionPanel::new(&cols);
    panel.reveal_active_request(&cols, &Some("r2".to_string()));
    assert_eq!(panel.selected_id, Some("r2".to_string()));
    for id in ["c1", "f1", "f2"] {
        assert!(panel.expanded.contains(&id.to_string()));
    }
    assert_eq!(panel.start_rename(&cols, "f1"), "Top");
    assert_eq!(panel.commit_rename(""), None);
    panel.start_rename(&cols, "f1");
    assert_eq!(panel.commit_rename("Renamed"), Some(("f1".to_string(), "Renamed".to_string())));
    assert!(panel.renaming_id.is_none());
    let _ = KeyValue::new("k", "v");
}

#[test]
fn folder_clicks_rename_cancel_and_drag_labels() {
    let cols = workspace();
    let mut panel = CollectionPanel::new(&cols);
    panel.click_folder_row("f1");
    assert_eq!(panel.selected_id, Some("f1".to_string()));
    assert!(panel.expanded.contains(&"f1".to_string()));
    panel.click_folder_row("f1");
    assert!(!panel.expanded.contains(&"f1".to_string()));
    assert!(!panel.cancel_rename());
    panel.start_rename(&cols, "r1");
    assert!(panel.cancel_rename());
    assert!(panel.renaming_id.is_none());
    let rows = panel.build_flat(&cols, "");
    assert_eq!(drag_display(&rows[1]), "DELETE Ping");
    assert_eq!(drag_display(&rows[0]), "Api");
}

#[test]
fn folder_settings_round_trip() {
    let mut cols = workspace();
    let mut panel = CollectionPanel::new(&cols);
    assert!(panel.open_folder_settings(&cols, "missing").is_none());
    let mut form = panel.open_folder_settings(&cols, "f2").unwrap();
    assert!(panel.folder_settings_open());
    assert_eq!(form.name, "Deep");
    form.add_row(false);
    form.header_rows[0].key = "X-Team".to_string();
    form.header_rows[0].value = "core".to_string();
    form.add_row(false);
    form.add_row(true);
    form.variable_rows[0].key = "region".to_string();
    form.variable_rows[0].value = "eu".to_string();
    form.add_row(true);
    assert!(form.remove_row(true, 1));
    assert!(!form.remove_row(true, 5));
    form.name = "Deeper".to_string();
    assert!(panel.set_folder_auth(true, AuthType::Bearer, &mut cols));
    assert!(panel.close_folder_settings(&mut cols, &form));
    assert!(!panel.folder_settings_open());
    let saved = find_folder_in_items(&cols[0].items, "f2").unwrap();
    assert_eq!(saved.name, "Deeper");
    assert_eq!(saved.headers.len(), 1);
    assert_eq!((saved.headers[0].key.as_str(), saved.headers[0].value.as_str()), ("X-Team", "core"));
    assert_eq!(saved.variables.len(), 1);
    assert_eq!(saved.variables[0].name, "region");
    assert!(saved.auth.enabled && saved.auth.auth_type == AuthType::Bearer);
    assert_eq!(saved.auth.bearer_prefix, "Bearer");
}

#[test]
fn flat_rows_are_cached_until_something_changes() {
    let cols = workspace();
    let mut panel = CollectionPanel::new(&cols);
    assert_eq!(panel.flat_items(&cols, "").len(), 3);
    assert!(!panel.flat_dirty);
    let other = vec![Collection { id: "x".to_string(), name: "X".to_string(), items: Vec::new(), variables: Vec::new() }];
    assert_eq!(panel.flat_items(&other, "")[0].id, "c1");
    panel.toggle_expanded("c1");
    assert_eq!(panel.flat_items(&cols, "").len(), 1);
}

#[test]
fn collections_start_open_and_new_ones_open_too() {
    let mut cols = workspace();
    let mut panel = CollectionPanel::new(&cols);
    assert_eq!(panel.expanded, vec!["c1".to_string()]);
    assert!(panel.flat_dirty);
    let _ = panel.flat_items(&cols, "");
    panel.collapse("c1");
    cols.push(Collection { id: "c2".to_string(), name: "Second".to_string(), items: Vec::new(), variables: Vec::new() });
    panel.open_new_collections(&cols);
    assert!(panel.flat_dirty);
    assert!(panel.expanded.contains(&"c1".to_string()));
    assert!(panel.expanded.contains(&"c2".to_string()));
    panel.open_new_collections(&cols);
    assert_eq!(panel.expanded.iter().filter(|id| id.as_str() == "c2").count(), 1);
    assert_eq!(panel.expanded.len(), 2);
    let rows = panel.build_flat(&cols, "");
    let ids: Vec<&str> = rows.iter().map(|r| r.id.as_str()).collect();
    assert_eq!(ids, vec!["c1", "r1", "f1", "c2"]);
}

#[test]
fn folder_rows_carry_no_status_mark() {
    let cols = workspace();
    let panel = CollectionPanel::new(&cols);
    let rows = panel.build_flat(&cols, "");
    let running = RequestActivity { loading: true, last_status: None, last_error: None };
    assert_eq!(flat_row_status(&rows[0], Some(&running), Some(200)), None);
    assert_eq!(flat_row_status(&rows[2], None, Some(404)), None);
    assert_eq!(flat_row_status(&rows[1], Some(&running), Some(200)), Some(RequestRowStatus::Loading));
    assert_eq!(flat_row_status(&rows[1], None, Some(201)), Some(RequestRowStatus::Status(201)));
    assert_eq!(flat_row_status(&rows[1], None, None), None);
}
