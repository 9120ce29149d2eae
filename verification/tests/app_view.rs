use silvapi::app_view::{
    api_list_for_query, collect_reqs, initial_font_family, normalized_shortcut, shadowed_key, shortcut_action, shortcut_key,
    shortcut_inputs, shortcut_setting_name, shortcut_specs, ActionEffect, AppView, CaptureOutcome, FocusState,
    MaximizedPanel, Picker, ResponseLayout, ShortcutAction, ShortcutInput, WindowAction,
};
use silvapi::models::{ApiRequest, AuthConfig, BodyType, Collection, CollectionItem, Folder, HttpMethod, RequestBody};

fn request(id: &str, name: &str) -> ApiRequest {
    ApiRequest {
        id: id.to_string(),
        name: name.to_string(),
        method: HttpMethod::GET,
        url: String::new(),
        params: Vec::new(),
        headers: Vec::new(),
        body: RequestBody { body_type: BodyType::NoBody, content: String::new(), urlencoded: Vec::new(), form_data: Vec::new() },
        auth: AuthConfig::default(),
    }
}

fn workspace() -> Vec<Collection> {
    let folder = Folder {
        id: "f".to_string(),
        name: "Users".to_string(),
        description: String::new(),
        items: vec![CollectionItem::Request(request("r2", "List")), CollectionItem::Request(request("r3", "Create"))],
        headers: Vec::new(),
        variables: Vec::new(),
        auth: AuthConfig::default(),
    };
    vec![
        Collection {
            id: "c".to_string(),
            name: "Shop".to_string(),
            items: vec![CollectionItem::Request(request("r1", "Health")), CollectionItem::Folder(folder)],
            variables: Vec::new(),
        },
        Collection { id: "d".to_string(), name: "Empty".to_string(), items: Vec::new(), variables: Vec::new() },
    ]
}

fn view() -> AppView {
    let inputs = shortcut_specs()
        .into_iter()
        .map(|spec| ShortcutInput { spec, value: spec.default_key.to_string() })
        .collect();
    AppView::new(vec!["Inter".to_string(), "Arial".to_string(), "Fira Code".to_string()], "Arial".to_string(), inputs)
}

fn names(list: &[(String, String)]) -> Vec<&str> {
    list.iter().map(|e| e.1.as_str()).collect()
}

#[test]
fn picker_paths_follow_folders() {
    let mut out = Vec::new();
    collect_reqs(&workspace()[0].items, "Shop", &mut out);
    assert_eq!(names(&out), vec!["Shop / Health", "Shop / Users / List", "Shop / Users / Create"]);
    assert_eq!(out[1].0, "r2");
}

#[test]
fn api_list_renames_active_and_filters() {
    let cols = workspace();
    let all = api_list_for_query(&cols, Some(("r2", "List all")), "");
    assert_eq!(names(&all), vec!["Shop / Health", "Shop / Users / List all", "Shop / Users / Create"]);
    let some = api_list_for_query(&cols, None, "users / c");
    assert_eq!(names(&some), vec!["Shop / Users / Create"]);
    let none = api_list_for_query(&cols, Some(("zz", "x")), "nothing");
    assert!(none.is_empty());
}

#[test]
fn adjacent_api_wraps_and_round_trips() {
    let cols = workspace();
    let mut v = view();
    let active = Some("r3".to_string());
    let next = v.select_adjacent_api(&cols, None, &active, false);
    assert_eq!(next, Some("r1".to_string()));
    assert_eq!(v.api_cursor, 0);
    let back = v.select_adjacent_api(&cols, None, &Some("r1".to_string()), true);
    assert_eq!(back, Some("r3".to_string()));
    assert_eq!(v.api_cursor, 2);
    let mut empty = view();
    assert_eq!(empty.select_adjacent_api(&[], None, &active, false), None);
}

#[test]
fn api_picker_opens_on_active_request() {
    let cols = workspace();
    let mut v = view();
    v.open_api_picker(&cols, None, &Some("r2".to_string()));
    assert!(v.api_picker_open);
    assert_eq!(v.api_cursor, 1);
    assert_eq!(v.api_at_cursor(), Some("r2".to_string()));
    v.update_api_list(&cols, None, "CREATE");
    assert_eq!(names(&v.api_list), vec!["Shop / Users / Create"]);
    v.on_workspace_changed(&cols, None, &None, "");
    assert_eq!(v.api_list.len(), 3);
    assert_eq!(v.api_cursor, 2);
    v.close_api_picker();
    v.on_workspace_changed(&cols, None, &None, "");
    assert!(v.api_list_dirty);
}

#[test]
fn layout_and_maximise() {
    let mut v = view();
    v.toggle_response_layout();
    assert!(v.response_layout == ResponseLayout::Column);
    v.toggle_response_layout();
    assert!(v.response_layout == ResponseLayout::Row);
    v.toggle_maximize(false, false, false, false, false);
    assert!(v.maximized_panel == MaximizedPanel::Response);
    v.toggle_maximize(true, false, false, false, false);
    assert!(v.maximized_panel == MaximizedPanel::NoPanel);
    v.toggle_maximize(false, false, false, true, true);
    assert!(v.maximized_panel == MaximizedPanel::Request);
}

#[test]
fn picker_cursors_wrap() {
    let mut v = view();
    v.rebuild_font_list("");
    assert_eq!(v.font_list.len(), 3);
    assert_eq!(v.font_cursor, 1);
    v.move_picker_cursor(Picker::Font, false);
    assert_eq!(v.font_cursor, 2);
    v.move_picker_cursor(Picker::Font, false);
    assert_eq!(v.font_cursor, 0);
    v.move_picker_cursor(Picker::Font, true);
    assert_eq!(v.font_cursor, 2);
    v.move_picker_cursor(Picker::Theme, true);
    assert_eq!(v.theme_cursor, 0);
    v.rebuild_font_list("CODE");
    assert_eq!(v.font_list, vec!["Fira Code".to_string()]);
    assert_eq!(v.font_cursor, 0);
    assert_eq!(v.font_at_cursor(), Some("Fira Code".to_string()));
}

#[test]
fn themes_are_filtered_and_sorted() {
    let mut v = view();
    let themes = vec!["Solarized Dark".to_string(), "Ayu Dark".to_string(), "Light".to_string()];
    v.update_theme_list(themes, "DARK", "Solarized Dark");
    assert_eq!(v.theme_list, vec!["Ayu Dark".to_string(), "Solarized Dark".to_string()]);
    assert_eq!(v.theme_cursor, 1);
    assert_eq!(v.theme_at_cursor(), Some("Solarized Dark".to_string()));
    v.open_theme_picker("Light");
    assert_eq!(v.original_theme, "Light");
    v.close_theme_picker(true);
    assert!(v.original_theme.is_empty());
}

#[test]
fn shortcut_table_and_keys() {
    let specs = shortcut_specs();
    assert_eq!(specs.len(), 13);
    assert_eq!((specs[0].id, specs[0].label, specs[0].default_key), ("theme_picker", "Open Theme Picker", "ctrl-k"));
    assert_eq!(specs[12].default_key, "alt-3");
    assert_eq!(shortcut_setting_name("next_api"), "shortcut.next_api");
    assert_eq!(shortcut_key(&specs[1], Some("ctrl-o".to_string()), true), "ctrl-o");
    assert_eq!(shortcut_key(&specs[1], Some("??".to_string()), false), "ctrl-p");
    assert_eq!(shortcut_key(&specs[1], None, true), "ctrl-p");
    assert_eq!(normalized_shortcut("  Ctrl-K "), Some("ctrl-k".to_string()));
    assert_eq!(normalized_shortcut("   "), None);
    assert_eq!(shadowed_key(" CTRL-K", "ctrl-k"), None);
    assert_eq!(shadowed_key("ctrl-k", "ctrl-j"), Some("ctrl-k".to_string()));
    assert_eq!(shadowed_key("", "ctrl-j"), None);
}

#[test]
fn recording_a_shortcut() {
    let mut v = view();
    assert!(matches!(v.record_shortcut_key("k", true, false, false, "ctrl-k"), CaptureOutcome::Ignore));
    v.start_recording_shortcut("api_picker");
    assert!(matches!(v.record_shortcut_key("shift", false, false, false, "shift"), CaptureOutcome::Ignore));
    assert!(matches!(v.record_shortcut_key("k", false, false, false, "k"), CaptureOutcome::NeedsModifier));
    assert_eq!(v.shortcut_message.as_deref(), Some("Use Ctrl or Alt \u{2014} Shift alone isn't enough for a shortcut."));
    assert!(v.recording_shortcut.is_some());
    match v.record_shortcut_key("k", true, false, false, "ctrl-k") {
        CaptureOutcome::Taken(i) => assert_eq!(i, 0),
        _ => panic!("expected a refusal"),
    }
    assert_eq!(
        v.shortcut_message.as_deref(),
        Some("That shortcut is already used by \"Open Theme Picker\". Pick a different key.")
    );
    assert!(v.recording_shortcut.is_none());
    v.start_recording_shortcut("api_picker");
    match v.record_shortcut_key("f2", false, false, false, "f2") {
        CaptureOutcome::Accept(old) => assert_eq!(old, "ctrl-p"),
        _ => panic!("expected the key to be taken"),
    }
    assert_eq!(v.shortcut_inputs[1].value, "f2");
    assert!(v.shortcut_message.is_none());
    v.start_recording_shortcut("api_picker");
    assert!(matches!(v.record_shortcut_key("escape", false, false, false, "escape"), CaptureOutcome::Cancel));
    assert!(v.recording_shortcut.is_none());
    v.start_recording_shortcut("api_picker");
    assert_eq!(v.reset_shortcut(1), "f2");
    assert_eq!(v.shortcut_inputs[1].value, "ctrl-p");
    assert!(v.recording_shortcut.is_none());
    v.open_settings();
    v.start_recording_shortcut("x");
    v.close_settings();
    assert!(!v.settings_open && v.recording_shortcut.is_none());
}

#[test]
fn initial_font_is_saved_when_available() {
    let fonts = vec!["Inter".to_string()];
    assert_eq!(initial_font_family(Some("Inter".to_string()), &fonts, "Theme Sans"), "Inter");
    assert_eq!(initial_font_family(Some("Gone".to_string()), &fonts, "Theme Sans"), "Theme Sans");
    assert_eq!(initial_font_family(None, &fonts, "Theme Sans"), "Theme Sans");
}

#[test]
fn system_fonts_are_ordered_and_deduplicated() {
    let names: Vec<String> = ["b", "Arial", "", "  ", ".SystemUIFont", "arial", "Zed", "Inter", "inter"]
        .iter()
        .map(|s| s.to_string())
        .collect();
    assert_eq!(
        AppView::system_font_families(names),
        vec![".SystemUIFont", "Inter", "Arial", "b", "Zed"].iter().map(|s| s.to_string()).collect::<Vec<_>>()
    );
    assert_eq!(AppView::system_font_families(Vec::new()), vec![".SystemUIFont".to_string()]);
}

#[test]
fn shortcut_ids_map_to_actions() {
    assert_eq!(shortcut_action("theme_picker"), Some(ShortcutAction::ThemePicker));
    assert_eq!(shortcut_action("focus_response_panel"), Some(ShortcutAction::FocusResponsePanel));
    assert_eq!(shortcut_action("nope"), None);
    for spec in shortcut_specs() {
        assert!(shortcut_action(spec.id).is_some());
    }
    let mut v = view();
    assert!(v.accepts_actions());
    v.start_recording_shortcut("next_api");
    assert!(!v.accepts_actions());
}

#[test]
fn font_family_settings() {
    assert_eq!(silvapi::app_view::configured_font_family(Some("Fira".to_string()), "Theme"), "Fira");
    assert_eq!(silvapi::app_view::configured_font_family(Some("   ".to_string()), "Theme"), "Theme");
    assert_eq!(silvapi::app_view::configured_font_family(None, "Theme"), "Theme");
    assert_eq!(silvapi::app_view::font_family_to_save("  Inter "), Some("Inter".to_string()));
    assert_eq!(silvapi::app_view::font_family_to_save("  "), None);
}

#[test]
fn font_picker_opens_on_all_fonts() {
    let mut v = view();
    v.open_font_picker();
    assert!(v.font_picker_open);
    assert_eq!(v.font_list.len(), 3);
    assert_eq!(v.font_cursor, 1);
    v.select_font("Fira Code".to_string());
    v.close_font_picker();
    assert!(!v.font_picker_open);
    assert_eq!(v.selected_font_family, "Fira Code");
}

#[test]
fn shortcut_fields_hold_saved_keys_that_parse() {
    let mut saved: Vec<Option<String>> = vec![None; 13];
    saved[1] = Some("ctrl-o".to_string());
    saved[2] = Some("??".to_string());
    let mut parses = vec![false; 13];
    parses[1] = true;
    let inputs = shortcut_inputs(&saved, &parses);
    let specs = shortcut_specs();
    assert_eq!(inputs.len(), 13);
    for (input, spec) in inputs.iter().zip(specs.iter()) {
        assert_eq!(input.spec.id, spec.id);
    }
    assert_eq!(inputs[0].value, "ctrl-k");
    assert_eq!(inputs[1].value, "ctrl-o");
    assert_eq!(inputs[2].value, "ctrl-tab");
    let defaults = shortcut_inputs(&[], &[]);
    assert!(defaults.iter().all(|i| i.value == i.spec.default_key));
    let v = AppView::new(Vec::new(), "Inter".to_string(), inputs);
    assert_eq!(v.shortcut_inputs[1].value, "ctrl-o");
}

#[test]
fn window_actions_wait_while_a_shortcut_is_recorded() {
    let mut v = view();
    let focus = FocusState { collection: true, request: false, response: false, request_input: false, response_input: false };
    v.start_recording_shortcut("api_picker");
    for action in [WindowAction::ToggleMaximize, WindowAction::OpenSettings, WindowAction::FocusUrl, WindowAction::SendRequest] {
        assert_eq!(v.window_action(action, focus), ActionEffect::Ignored);
    }
    assert_eq!(v.maximized_panel, MaximizedPanel::NoPanel);
    assert!(!v.settings_open);
    assert!(v.recording_shortcut.is_some());
    v.finish_recording_shortcut();
    assert_eq!(v.window_action(WindowAction::ToggleMaximize, focus), ActionEffect::Done);
    assert_eq!(v.maximized_panel, MaximizedPanel::Collection);
    assert_eq!(v.window_action(WindowAction::FocusResponsePanel, focus), ActionEffect::FocusResponsePanel);
    assert_eq!(v.maximized_panel, MaximizedPanel::NoPanel);
    assert_eq!(v.window_action(WindowAction::OpenSettings, focus), ActionEffect::Done);
    assert!(v.settings_open);
    assert_eq!(v.window_action(WindowAction::NextApi, focus), ActionEffect::SelectAdjacentApi(true));
    assert_eq!(v.window_action(WindowAction::CloseSettings, focus), ActionEffect::Done);
    assert!(!v.settings_open);
}

#[test]
fn closing_settings_keeps_the_message() {
    let mut v = view();
    v.open_settings();
    v.start_recording_shortcut("api_picker");
    assert!(matches!(v.record_shortcut_key("k", false, false, false, "k"), CaptureOutcome::NeedsModifier));
    v.close_settings();
    assert!(!v.settings_open);
    assert!(v.recording_shortcut.is_none());
    assert_eq!(v.shortcut_message.as_deref(), Some("Use Ctrl or Alt \u{2014} Shift alone isn't enough for a shortcut."));
}
