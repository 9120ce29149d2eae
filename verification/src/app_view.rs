//! The main window's logic: which panel is maximised, how the response
//! panel is laid out, the cursors of the theme, API and font pickers, and
//! recording keyboard shortcuts.
use vstd::prelude::*;

use crate::collection_panel::stepped;
use crate::models::{Collection, CollectionItem};
use crate::text::{
    chars_of, contains_text, lowercase, occurs_in, own, push_str, search_key, search_key_of, to_lowercase, trim, trimmed,
};
use crate::request_panel::texts;
use crate::sorting::{is_sorted, sort_texts};
use crate::tree::{item_has_request, items_have_request};
use crate::variables::first_index;

verus! {

/// The panel that fills the window, if any.
#[derive(Clone, Copy, Debug, PartialEq, Eq, Structural)]
pub enum MaximizedPanel {
    NoPanel,
    Collection,
    Request,
    Response,
}

/// How the request and response panels share their space.
#[derive(Clone, Copy, Debug, PartialEq, Eq, Structural)]
pub enum ResponseLayout {
    /// Side by side.
    Row,
    /// Stacked.
    Column,
}

/// One of the three list pickers.
#[derive(Clone, Copy, Debug, PartialEq, Eq, Structural)]
pub enum Picker {
    Theme,
    Api,
    Font,
}

/// The state of the main window that its logic reads and changes.
pub struct AppView {
    pub theme_picker_open: bool,
    pub theme_cursor: usize,
    pub theme_list: Vec<String>,
    pub original_theme: String,
    pub api_picker_open: bool,
    /// `(request id, "collection / folder / request")` entries.
    pub api_list: Vec<(String, String)>,
    pub api_list_query: String,
    pub api_list_dirty: bool,
    pub api_cursor: usize,
    pub settings_open: bool,
    /// The shortcuts and the keys they are bound to.
    pub shortcut_inputs: Vec<ShortcutInput>,
    /// The id of the shortcut being recorded.
    pub recording_shortcut: Option<String>,
    /// Why the last recorded shortcut was refused.
    pub shortcut_message: Option<String>,
    pub available_fonts: Vec<String>,
    pub selected_font_family: String,
    pub font_picker_open: bool,
    pub font_list: Vec<String>,
    pub font_cursor: usize,
    pub maximized_panel: MaximizedPanel,
    pub response_layout: ResponseLayout,
}

/// The other layout.
pub open spec fn flipped(l: ResponseLayout) -> ResponseLayout {
    match l {
        ResponseLayout::Row => ResponseLayout::Column,
        ResponseLayout::Column => ResponseLayout::Row,
    }
}

/// The panel that the maximise key fills the window with: none if one is
/// already maximised; else the panel holding the focus (collection,
/// request, response, in that order of checking), then the panel with a
/// focused input (request before response), and the response panel when
/// nothing is focused.
pub open spec fn maximize_target(
    current: MaximizedPanel,
    collection_focused: bool,
    request_focused: bool,
    response_focused: bool,
    request_input_focused: bool,
    response_input_focused: bool,
) -> MaximizedPanel {
    if current != MaximizedPanel::NoPanel {
        MaximizedPanel::NoPanel
    } else if collection_focused {
        MaximizedPanel::Collection
    } else if request_focused {
        MaximizedPanel::Request
    } else if response_focused {
        MaximizedPanel::Response
    } else if request_input_focused {
        MaximizedPanel::Request
    } else {
        MaximizedPanel::Response
    }
}

impl AppView {
    /// A window with closed pickers and dialogs, empty lists, an API list to
    /// build, no maximised panel and the side-by-side layout. `fonts` are the
    /// fonts to offer, `font_family` the one in use, and `shortcut_inputs`
    /// the shortcuts with their keys.
    pub fn new(fonts: Vec<String>, font_family: String, shortcut_inputs: Vec<ShortcutInput>) -> (r: AppView)
        ensures
            !r.theme_picker_open && !r.api_picker_open && !r.settings_open && !r.font_picker_open,
            r.theme_cursor == 0 && r.api_cursor == 0 && r.font_cursor == 0,
            r.theme_list@.len() == 0 && r.api_list@.len() == 0 && r.font_list@.len() == 0,
            r.original_theme@.len() == 0,
            r.api_list_query@.len() == 0,
            r.api_list_dirty,
            r.recording_shortcut is None,
            r.shortcut_message is None,
            r.available_fonts == fonts,
            r.selected_font_family == font_family,
            r.shortcut_inputs == shortcut_inputs,
            r.maximized_panel == MaximizedPanel::NoPanel,
            r.response_layout == ResponseLayout::Row,
    {
        AppView {
            theme_picker_open: false,
            theme_cursor: 0,
            theme_list: Vec::new(),
            original_theme: String::new(),
            api_picker_open: false,
            api_list: Vec::new(),
            api_list_query: String::new(),
            api_list_dirty: true,
            api_cursor: 0,
            settings_open: false,
            shortcut_inputs,
            recording_shortcut: None,
            shortcut_message: None,
            available_fonts: fonts,
            selected_font_family: font_family,
            font_picker_open: false,
            font_list: Vec::new(),
            font_cursor: 0,
            maximized_panel: MaximizedPanel::NoPanel,
            response_layout: ResponseLayout::Row,
        }
    }

    /// Switches between the side-by-side and the stacked layout.
    pub fn toggle_response_layout(&mut self)
        ensures
            *final(self) == (AppView { response_layout: flipped(old(self).response_layout), ..*old(self) }),
    {
        self.response_layout = match self.response_layout {
            ResponseLayout::Row => ResponseLayout::Column,
            ResponseLayout::Column => ResponseLayout::Row,
        };
    }

    /// The maximise key: restores the layout when a panel is maximised,
    /// else maximises the panel that the focus is in.
    pub fn toggle_maximize(
        &mut self,
        collection_focused: bool,
        request_focused: bool,
        response_focused: bool,
        request_input_focused: bool,
        response_input_focused: bool,
    )
        ensures
            *final(self) == (AppView {
                maximized_panel: maximize_target(
                    old(self).maximized_panel,
                    collection_focused,
                    request_focused,
                    response_focused,
                    request_input_focused,
                    response_input_focused,
                ),
                ..*old(self)
            }),
    {
        self.maximized_panel = if self.maximized_panel != MaximizedPanel::NoPanel {
            MaximizedPanel::NoPanel
        } else if collection_focused {
            MaximizedPanel::Collection
        } else if request_focused {
            MaximizedPanel::Request
        } else if response_focused {
            MaximizedPanel::Response
        } else if request_input_focused {
            MaximizedPanel::Request
        } else {
            MaximizedPanel::Response
        };
    }

    /// Moves a picker's cursor one entry up (`up`) or down, wrapping around
    /// at both ends; an empty list leaves it where it is.
    pub fn move_picker_cursor(&mut self, picker: Picker, up: bool)
        ensures
            ({
                let (before, after, len) = match picker {
                    Picker::Theme => (old(self).theme_cursor, final(self).theme_cursor, old(self).theme_list@.len()),
                    Picker::Api => (old(self).api_cursor, final(self).api_cursor, old(self).api_list@.len()),
                    Picker::Font => (old(self).font_cursor, final(self).font_cursor, old(self).font_list@.len()),
                };
                after == if len == 0 {
                    before as int
                } else {
                    stepped(len as int, Some(before), up)
                }
            }),
            picker != Picker::Theme ==> final(self).theme_cursor == old(self).theme_cursor,
            picker != Picker::Api ==> final(self).api_cursor == old(self).api_cursor,
            picker != Picker::Font ==> final(self).font_cursor == old(self).font_cursor,
            final(self).theme_list == old(self).theme_list,
            final(self).api_list == old(self).api_list,
            final(self).font_list == old(self).font_list,
            *final(self) == (AppView {
                theme_cursor: final(self).theme_cursor,
                api_cursor: final(self).api_cursor,
                font_cursor: final(self).font_cursor,
                ..*old(self)
            }),
    {
        let len = match picker {
            Picker::Theme => self.theme_list.len(),
            Picker::Api => self.api_list.len(),
            Picker::Font => self.font_list.len(),
        };
        if len == 0 {
            return;
        }
        let before = match picker {
            Picker::Theme => self.theme_cursor,
            Picker::Api => self.api_cursor,
            Picker::Font => self.font_cursor,
        };
        let after = if up {
            if before > 0 {
                before - 1
            } else {
                len - 1
            }
        } else {
            if before < len {
                (before + 1) % len
            } else {
                ((before % len) + 1) % len
            }
        };
        proof {
            if !up && before >= len {
                lemma_mod_succ(before as int, len as int);
            }
        }
        match picker {
            Picker::Theme => self.theme_cursor = after,
            Picker::Api => self.api_cursor = after,
            Picker::Font => self.font_cursor = after,
        }
    }
}

/// `(b + 1) % n` can be computed from `b % n`.
proof fn lemma_mod_succ(b: int, n: int)
    requires
        0 <= b,
        0 < n,
    ensures
        ((b % n) + 1) % n == (b + 1) % n,
{
    vstd::arithmetic::div_mod::lemma_add_mod_noop_right(1, b, n);
    assert(1 + (b % n) == (b % n) + 1);
    assert(1 + b == b + 1);
}

/// Switching the layout twice gives the layout one started from.
pub proof fn law_layout_toggle_twice(l: ResponseLayout)
    ensures
        flipped(flipped(l)) == l,
{
}

/// Pressing the maximise key twice with the focus unchanged restores the
/// layout one started from when no panel was maximised.
pub proof fn law_maximize_twice(a: bool, b: bool, c: bool, d: bool, e: bool)
    ensures
        maximize_target(maximize_target(MaximizedPanel::NoPanel, a, b, c, d, e), a, b, c, d, e)
            == MaximizedPanel::NoPanel,
        maximize_target(MaximizedPanel::NoPanel, a, b, c, d, e) != MaximizedPanel::NoPanel,
{
}


// ---------------------------------------------------------------------------
// Keyboard shortcuts
// ---------------------------------------------------------------------------

/// A shortcut that the settings let the user rebind.
#[derive(Clone, Copy)]
pub struct ShortcutSpec {
    pub id: &'static str,
    pub label: &'static str,
    pub default_key: &'static str,
}

/// A shortcut and the text of its key field.
pub struct ShortcutInput {
    pub spec: ShortcutSpec,
    pub value: String,
}

/// The rebindable shortcuts: id, label, default key.
pub open spec fn shortcut_table() -> Seq<(Seq<char>, Seq<char>, Seq<char>)> {
    seq![
        ("theme_picker"@, "Open Theme Picker"@, "ctrl-k"@),
        ("api_picker"@, "Open API Picker"@, "ctrl-p"@),
        ("next_api"@, "Next API"@, "ctrl-tab"@),
        ("prev_api"@, "Previous API"@, "shift-ctrl-tab"@),
        ("send_request"@, "Send Request"@, "ctrl-enter"@),
        ("rename_selected"@, "Rename Selected"@, "enter"@),
        ("toggle_maximize"@, "Toggle Maximize Panel"@, "shift-escape"@),
        ("open_settings"@, "Open Settings"@, "ctrl-,"@),
        ("focus_active_request"@, "Reveal Active Request"@, "ctrl-shift-f"@),
        ("focus_url"@, "Focus URL"@, "ctrl-l"@),
        ("focus_collection_panel"@, "Focus Request List"@, "alt-1"@),
        ("focus_request_panel"@, "Focus Request Editor"@, "alt-2"@),
        ("focus_response_panel"@, "Focus Response Panel"@, "alt-3"@),
    ]
}

pub open spec fn spec_row(s: ShortcutSpec) -> (Seq<char>, Seq<char>, Seq<char>) {
    (s.id@, s.label@, s.default_key@)
}

/// The rebindable shortcuts, in the order the settings list them.
pub fn shortcut_specs() -> (r: Vec<ShortcutSpec>)
    ensures
        r@.map_values(|s: ShortcutSpec| spec_row(s)) == shortcut_table(),
{
    let r = vec![
        ShortcutSpec { id: "theme_picker", label: "Open Theme Picker", default_key: "ctrl-k" },
        ShortcutSpec { id: "api_picker", label: "Open API Picker", default_key: "ctrl-p" },
        ShortcutSpec { id: "next_api", label: "Next API", default_key: "ctrl-tab" },
        ShortcutSpec { id: "prev_api", label: "Previous API", default_key: "shift-ctrl-tab" },
        ShortcutSpec { id: "send_request", label: "Send Request", default_key: "ctrl-enter" },
        ShortcutSpec { id: "rename_selected", label: "Rename Selected", default_key: "enter" },
        ShortcutSpec { id: "toggle_maximize", label: "Toggle Maximize Panel", default_key: "shift-escape" },
        ShortcutSpec { id: "open_settings", label: "Open Settings", default_key: "ctrl-," },
        ShortcutSpec {
            id: "focus_active_request",
            label: "Reveal Active Request",
            default_key: "ctrl-shift-f",
        },
        ShortcutSpec { id: "focus_url", label: "Focus URL", default_key: "ctrl-l" },
        ShortcutSpec { id: "focus_collection_panel", label: "Focus Request List", default_key: "alt-1" },
        ShortcutSpec { id: "focus_request_panel", label: "Focus Request Editor", default_key: "alt-2" },
        ShortcutSpec { id: "focus_response_panel", label: "Focus Response Panel", default_key: "alt-3" },
    ];
    assert(r@.map_values(|s: ShortcutSpec| spec_row(s)) =~= shortcut_table());
    r
}

/// The name of the setting that stores a shortcut's key: `shortcut.<id>`.
pub fn shortcut_setting_name(id: &str) -> (r: String)
    ensures
        r@ == "shortcut."@ + id@,
{
    let mut r = own("shortcut.");
    push_str(&mut r, id);
    r
}

/// The key of a shortcut: the saved key when there is one that parses as
/// a keystroke, else the default.
pub open spec fn key_text(spec: ShortcutSpec, saved: Option<String>, saved_parses: bool) -> Seq<char> {
    match saved {
        Some(k) => if saved_parses {
            k@
        } else {
            spec.default_key@
        },
        None => spec.default_key@,
    }
}

/// The key of a shortcut: the saved key when there is one that parses as
/// a keystroke (`saved_parses`), else the default.
pub fn shortcut_key(spec: &ShortcutSpec, saved: Option<String>, saved_parses: bool) -> (r: String)
    ensures
        r@ == key_text(*spec, saved, saved_parses),
{
    match saved {
        Some(k) => if saved_parses {
            k
        } else {
            own(spec.default_key)
        },
        None => own(spec.default_key),
    }
}

/// The saved key at `i`, nothing past the end.
pub open spec fn saved_at(saved: Seq<Option<String>>, i: int) -> Option<String> {
    if 0 <= i < saved.len() {
        saved[i]
    } else {
        None
    }
}

/// Whether the saved key at `i` parses; not past the end.
pub open spec fn parses_at(parses: Seq<bool>, i: int) -> bool {
    0 <= i < parses.len() && parses[i]
}

/// The shortcut fields of a new window: one per shortcut, in the order of
/// `shortcut_specs`, each holding its key as `shortcut_key` chooses it from
/// the saved key `saved[i]` and whether that parses as a keystroke
/// (`parses[i]`). A missing entry counts as nothing saved.
pub fn shortcut_inputs(saved: &[Option<String>], parses: &[bool]) -> (r: Vec<ShortcutInput>)
    ensures
        r@.len() == shortcut_table().len(),
        forall|i: int|
            0 <= i < r@.len() ==> spec_row(#[trigger] r@[i].spec) == shortcut_table()[i] && r@[i].value@ == key_text(
                r@[i].spec,
                saved_at(saved@, i),
                parses_at(parses@, i),
            ),
{
    let specs = shortcut_specs();
    let mut r: Vec<ShortcutInput> = Vec::new();
    let mut i: usize = 0;
    while i < specs.len()
        invariant
            i <= specs.len(),
            specs@.map_values(|s: ShortcutSpec| spec_row(s)) == shortcut_table(),
            r@.len() == i,
            forall|j: int|
                0 <= j < i ==> spec_row(#[trigger] r@[j].spec) == shortcut_table()[j] && r@[j].value@ == key_text(
                    r@[j].spec,
                    saved_at(saved@, j),
                    parses_at(parses@, j),
                ),
        decreases specs.len() - i,
    {
        let spec = specs[i];
        assert(spec_row(spec) == shortcut_table()[i as int]);
        let sv: Option<String> = if i < saved.len() {
            match &saved[i] {
                Some(k) => Some(k.clone()),
                None => None,
            }
        } else {
            None
        };
        let p = i < parses.len() && parses[i];
        assert(sv == saved_at(saved@, i as int));
        let value = shortcut_key(&spec, sv, p);
        r.push(ShortcutInput { spec, value });
        i = i + 1;
    }
    r
}

/// A typed key as it is saved: trimmed and in lower case.
pub open spec fn normal_key(s: Seq<char>) -> Seq<char> {
    lowercase(trim(s))
}

/// The key to save from a key field: its text trimmed and in lower case;
/// none when that is empty.
pub fn normalized_shortcut(value: &str) -> (r: Option<String>)
    ensures
        normal_key(value@).len() == 0 ==> r is None,
        normal_key(value@).len() > 0 ==> (r matches Some(k) && k@ == normal_key(value@)),
{
    let t = trimmed(value);
    let k = to_lowercase(t.as_str());
    if k.as_str().is_empty() {
        None
    } else {
        Some(k)
    }
}

/// The old key to unbind when a shortcut moves from `old_key` to
/// `new_key`: the old key, trimmed and in lower case, unless it is empty
/// or the same as the new one.
pub fn shadowed_key(old_key: &str, new_key: &str) -> (r: Option<String>)
    ensures
        normal_key(old_key@).len() == 0 || normal_key(old_key@) == normal_key(new_key@) ==> r is None,
        normal_key(old_key@).len() > 0 && normal_key(old_key@) != normal_key(new_key@) ==> (r matches Some(
            k,
        ) && k@ == normal_key(old_key@)),
{
    let o = trimmed(old_key);
    let o = to_lowercase(o.as_str());
    let n = trimmed(new_key);
    let n = to_lowercase(n.as_str());
    if o.as_str().is_empty() || crate::text::same_text(o.as_str(), n.as_str()) {
        None
    } else {
        Some(o)
    }
}

/// Keys that only modify others.
pub open spec fn is_modifier_key(k: Seq<char>) -> bool {
    k == "control"@ || k == "shift"@ || k == "alt"@ || k == "platform"@ || k == "cmd"@ || k == "super"@
        || k == "fn"@ || k == "function"@
}

/// What a key press does while a shortcut is recorded.
pub enum CaptureOutcome {
    /// Escape: recording stops, nothing changes.
    Cancel,
    /// A modifier alone, or no key: recording goes on.
    Ignore,
    /// A character key without Ctrl, Alt or the platform key: refused,
    /// recording goes on.
    NeedsModifier,
    /// Already the key of the shortcut at this position: refused,
    /// recording stops.
    Taken(usize),
    /// Taken: the shortcut's field gets the new key; its old key is given.
    Accept(String),
}

/// Why a character key alone is refused.
pub open spec fn needs_modifier_text() -> Seq<char> {
    "Use Ctrl or Alt \u{2014} Shift alone isn't enough for a shortcut."@
}

/// Why a key that another shortcut has is refused.
pub open spec fn taken_text(label: Seq<char>) -> Seq<char> {
    "That shortcut is already used by \""@ + label + "\". Pick a different key."@
}

/// Position of the first field other than the shortcut `id`'s that holds
/// `combo`, searching from `k` on.
pub open spec fn taken_by(inputs: Seq<ShortcutInput>, id: Seq<char>, combo: Seq<char>, k: int) -> Option<int>
    decreases inputs.len() - k,
{
    if k < 0 || k >= inputs.len() {
        None
    } else if inputs[k].spec.id@ != id && inputs[k].value@ == combo {
        Some(k)
    } else {
        taken_by(inputs, id, combo, k + 1)
    }
}

/// Position of the first field of the shortcut `id`.
pub open spec fn input_of(inputs: Seq<ShortcutInput>, id: Seq<char>, k: int) -> Option<int>
    decreases inputs.len() - k,
{
    if k < 0 || k >= inputs.len() {
        None
    } else if inputs[k].spec.id@ == id {
        Some(k)
    } else {
        input_of(inputs, id, k + 1)
    }
}


/// The first field other than the shortcut `id`'s that holds `combo`.
fn find_taken(inputs: &[ShortcutInput], id: &str, combo: &str) -> (r: Option<usize>)
    ensures
        match r {
            Some(t) => t < inputs@.len() && taken_by(inputs@, id@, combo@, 0) == Some(t as int),
            None => taken_by(inputs@, id@, combo@, 0) is None,
        },
{
    let mut t: usize = 0;
    while t < inputs.len()
        invariant
            t <= inputs.len(),
            taken_by(inputs@, id@, combo@, 0) == taken_by(inputs@, id@, combo@, t as int),
        decreases inputs.len() - t,
    {
        if !crate::text::same_text(inputs[t].spec.id, id) && crate::text::same_text(inputs[t].value.as_str(), combo) {
            return Some(t);
        }
        t = t + 1;
    }
    None
}

/// The first field of the shortcut `id`.
fn find_input(inputs: &[ShortcutInput], id: &str) -> (r: Option<usize>)
    ensures
        match r {
            Some(c) => c < inputs@.len() && input_of(inputs@, id@, 0) == Some(c as int),
            None => input_of(inputs@, id@, 0) is None,
        },
{
    let mut c: usize = 0;
    while c < inputs.len()
        invariant
            c <= inputs.len(),
            input_of(inputs@, id@, 0) == input_of(inputs@, id@, c as int),
        decreases inputs.len() - c,
    {
        if crate::text::same_text(inputs[c].spec.id, id) {
            return Some(c);
        }
        c = c + 1;
    }
    None
}

impl AppView {
    /// Starts recording the key of the shortcut `id`.
    pub fn start_recording_shortcut(&mut self, id: &str)
        ensures
            final(self).recording_shortcut matches Some(s) && s@ == id@,
            *final(self) == (AppView {
                recording_shortcut: final(self).recording_shortcut,
                shortcut_message: None,
                ..*old(self)
            }),
    {
        self.recording_shortcut = Some(own(id));
        self.shortcut_message = None;
    }

    /// Stops recording.
    pub fn finish_recording_shortcut(&mut self)
        ensures
            *final(self) == (AppView { recording_shortcut: None, ..*old(self) }),
    {
        self.recording_shortcut = None;
    }

    /// Opens the settings dialog.
    pub fn open_settings(&mut self)
        ensures
            *final(self) == (AppView { settings_open: true, ..*old(self) }),
    {
        self.settings_open = true;
    }

    /// Closes the settings dialog, ending any recording; nothing else
    /// changes.
    pub fn close_settings(&mut self)
        ensures
            *final(self) == (AppView { settings_open: false, recording_shortcut: None, ..*old(self) }),
    {
        if self.recording_shortcut.is_some() {
            self.finish_recording_shortcut();
        }
        self.settings_open = false;
    }

    /// A key press while the shortcut `recording_shortcut` is recorded:
    /// `key` is the key's name, `control`, `alt` and `platform` its
    /// modifiers and `combo` the whole keystroke as text. Escape cancels;
    /// a modifier alone is ignored; a character key needs Ctrl, Alt or the
    /// platform key; a combination that another shortcut's field holds is
    /// refused; any other becomes the recorded shortcut's key. Without a
    /// recording, nothing happens.
    pub fn record_shortcut_key(&mut self, key: &str, control: bool, alt: bool, platform: bool, combo: &str) -> (r:
        CaptureOutcome)
        ensures
            match old(self).recording_shortcut {
                None => r is Ignore && *final(self) == *old(self),
                Some(id) => if key@ == "escape"@ {
                    &&& r is Cancel
                    &&& *final(self) == (AppView { recording_shortcut: None, ..*old(self) })
                } else if key@.len() == 0 || is_modifier_key(key@) {
                    r is Ignore && *final(self) == *old(self)
                } else if key@.len() == 1 && !(control || alt || platform) {
                    &&& r is NeedsModifier
                    &&& final(self).shortcut_message matches Some(m) && m@ == needs_modifier_text()
                    &&& final(self).recording_shortcut == old(self).recording_shortcut
                    &&& final(self).shortcut_inputs == old(self).shortcut_inputs
                } else {
                    &&& final(self).recording_shortcut is None
                    &&& match taken_by(old(self).shortcut_inputs@, id@, combo@, 0) {
                        Some(t) => {
                            &&& r matches CaptureOutcome::Taken(p) && p == t
                            &&& final(self).shortcut_message matches Some(m) && m@ == taken_text(
                                old(self).shortcut_inputs@[t].spec.label@,
                            )
                            &&& final(self).shortcut_inputs == old(self).shortcut_inputs
                        },
                        None => {
                            &&& final(self).shortcut_message is None
                            &&& match input_of(old(self).shortcut_inputs@, id@, 0) {
                                Some(c) => {
                                    &&& r matches CaptureOutcome::Accept(o) && o == old(self).shortcut_inputs@[c].value
                                    &&& final(self).shortcut_inputs@.len() == old(self).shortcut_inputs@.len()
                                    &&& final(self).shortcut_inputs@[c].value@ == combo@
                                    &&& final(self).shortcut_inputs@[c].spec == old(self).shortcut_inputs@[c].spec
                                    &&& forall|j: int|
                                        0 <= j < old(self).shortcut_inputs@.len() && j != c
                                            ==> final(self).shortcut_inputs@[j] == old(self).shortcut_inputs@[j]
                                },
                                None => r is Ignore && final(self).shortcut_inputs == old(self).shortcut_inputs,
                            }
                        },
                    }
                },
            },
            *final(self) == (AppView {
                recording_shortcut: final(self).recording_shortcut,
                shortcut_message: final(self).shortcut_message,
                shortcut_inputs: final(self).shortcut_inputs,
                ..*old(self)
            }),
    {
        let id = match &self.recording_shortcut {
            None => {
                return CaptureOutcome::Ignore;
            },
            Some(id) => id.clone(),
        };
        proof {
            reveal_strlit("escape");
            reveal_strlit("control");
            reveal_strlit("shift");
            reveal_strlit("alt");
            reveal_strlit("platform");
            reveal_strlit("cmd");
            reveal_strlit("super");
            reveal_strlit("fn");
            reveal_strlit("function");
        }
        if crate::text::same_text(key, "escape") {
            self.finish_recording_shortcut();
            return CaptureOutcome::Cancel;
        }
        if key.is_empty() || crate::text::same_text(key, "control") || crate::text::same_text(key, "shift")
            || crate::text::same_text(key, "alt") || crate::text::same_text(key, "platform")
            || crate::text::same_text(key, "cmd") || crate::text::same_text(key, "super")
            || crate::text::same_text(key, "fn") || crate::text::same_text(key, "function") {
            return CaptureOutcome::Ignore;
        }
        let single = crate::text::chars_of(key).len() == 1;
        if single && !(control || alt || platform) {
            self.shortcut_message = Some(own("Use Ctrl or Alt \u{2014} Shift alone isn't enough for a shortcut."));
            return CaptureOutcome::NeedsModifier;
        }
        match find_taken(self.shortcut_inputs.as_slice(), id.as_str(), combo) {
            Some(t) => {
                let mut m = own("That shortcut is already used by \"");
                push_str(&mut m, self.shortcut_inputs[t].spec.label);
                push_str(&mut m, "\". Pick a different key.");
                self.shortcut_message = Some(m);
                self.finish_recording_shortcut();
                return CaptureOutcome::Taken(t);
            },
            None => {},
        }
        self.shortcut_message = None;
        self.finish_recording_shortcut();
        match find_input(self.shortcut_inputs.as_slice(), id.as_str()) {
            Some(c) => {
                let spec = self.shortcut_inputs[c].spec;
                let old_value = self.shortcut_inputs[c].value.clone();
                self.shortcut_inputs.set(c, ShortcutInput { spec, value: own(combo) });
                CaptureOutcome::Accept(old_value)
            },
            None => CaptureOutcome::Ignore,
        }
    }

    /// The reset button of the shortcut at `i`: its field gets the default
    /// key, and a recording of this shortcut stops. Returns the old key.
    pub fn reset_shortcut(&mut self, i: usize) -> (old_key: String)
        requires
            i < old(self).shortcut_inputs@.len(),
        ensures
            old_key == old(self).shortcut_inputs@[i as int].value,
            final(self).shortcut_inputs@.len() == old(self).shortcut_inputs@.len(),
            final(self).shortcut_inputs@[i as int].value@ == old(self).shortcut_inputs@[i as int].spec.default_key@,
            final(self).shortcut_inputs@[i as int].spec == old(self).shortcut_inputs@[i as int].spec,
            forall|j: int|
                0 <= j < old(self).shortcut_inputs@.len() && j != i ==> final(self).shortcut_inputs@[j] == old(
                    self,
                ).shortcut_inputs@[j],
            final(self).recording_shortcut == match old(self).recording_shortcut {
                Some(r) => if r@ == old(self).shortcut_inputs@[i as int].spec.id@ {
                    None
                } else {
                    Some(r)
                },
                None => None,
            },
            *final(self) == (AppView {
                shortcut_inputs: final(self).shortcut_inputs,
                recording_shortcut: final(self).recording_shortcut,
                ..*old(self)
            }),
    {
        let spec = self.shortcut_inputs[i].spec;
        let old_value = self.shortcut_inputs[i].value.clone();
        self.shortcut_inputs.set(i, ShortcutInput { spec, value: own(spec.default_key) });
        let stop = match &self.recording_shortcut {
            Some(r) => crate::text::same_text(r.as_str(), spec.id),
            None => false,
        };
        if stop {
            self.finish_recording_shortcut();
        }
        old_value
    }
}


// ---------------------------------------------------------------------------
// The API picker
// ---------------------------------------------------------------------------

/// An entry of the API picker as plain values: request id, path.
pub type PickerEntry = (Seq<char>, Seq<char>);

pub open spec fn entry_texts(v: Seq<(String, String)>) -> Seq<PickerEntry> {
    v.map_values(|e: (String, String)| (e.0@, e.1@))
}

/// `prefix / name`.
pub open spec fn path_join(prefix: Seq<char>, name: Seq<char>) -> Seq<char> {
    prefix + " / "@ + name
}

/// The entries of the requests inside `item`, their paths under `prefix`.
pub open spec fn item_entries(item: CollectionItem, prefix: Seq<char>) -> Seq<PickerEntry>
    decreases item, 0int,
{
    match item {
        CollectionItem::Request(r) => seq![(r.id@, path_join(prefix, r.name@))],
        CollectionItem::Folder(f) => items_entries(f.items@, path_join(prefix, f.name@), 0),
    }
}

/// The entries of the requests inside `items` from position `k` on.
pub open spec fn items_entries(items: Seq<CollectionItem>, prefix: Seq<char>, k: int) -> Seq<PickerEntry>
    decreases items, items.len() - k,
{
    if k < 0 || k >= items.len() {
        Seq::empty()
    } else {
        item_entries(items[k], prefix) + items_entries(items, prefix, k + 1)
    }
}

/// The entries of every request of the collections from position `k` on,
/// each collection's requests under its name.
pub open spec fn all_entries(cols: Seq<Collection>, k: int) -> Seq<PickerEntry>
    decreases cols.len() - k,
{
    if k < 0 || k >= cols.len() {
        Seq::empty()
    } else {
        items_entries(cols[k].items@, cols[k].name@, 0) + all_entries(cols, k + 1)
    }
}

/// ` / ` starts at position `j` of `s`.
pub open spec fn sep_at(s: Seq<char>, j: int) -> bool {
    0 <= j && j + 3 <= s.len() && s[j] == ' ' && s[j + 1] == '/' && s[j + 2] == ' '
}

/// The last position at or before `e` where ` / ` starts.
pub open spec fn last_sep_before(s: Seq<char>, e: int) -> Option<int>
    decreases e + 1,
{
    if e < 0 {
        None
    } else if sep_at(s, e) {
        Some(e)
    } else {
        last_sep_before(s, e - 1)
    }
}

/// `path` with its last part replaced by `name`.
pub open spec fn renamed_path(path: Seq<char>, name: Seq<char>) -> Seq<char> {
    match last_sep_before(path, path.len() - 3) {
        Some(j) => path_join(path.take(j), name),
        None => name,
    }
}

pub open spec fn entry_ids(es: Seq<PickerEntry>) -> Seq<Seq<char>> {
    es.map_values(|e: PickerEntry| e.0)
}

/// The entries with the active request's path ending in its current,
/// possibly unsaved, name.
pub open spec fn with_active_name(es: Seq<PickerEntry>, active: Option<(Seq<char>, Seq<char>)>) -> Seq<PickerEntry> {
    match active {
        None => es,
        Some(a) => match first_index(entry_ids(es), a.0, 0) {
            Some(i) => es.update(i, (es[i].0, renamed_path(es[i].1, a.1))),
            None => es,
        },
    }
}

/// The entries whose lower-cased path contains `q`; all of them for an
/// empty `q`.
pub open spec fn matching_entries(es: Seq<PickerEntry>, q: Seq<char>) -> Seq<PickerEntry>
    decreases es.len(),
{
    if es.len() == 0 {
        Seq::empty()
    } else {
        let init = matching_entries(es.drop_last(), q);
        if q.len() == 0 || occurs_in(lowercase(es.last().1), q) {
            init.push(es.last())
        } else {
            init
        }
    }
}

/// The API picker's list for the query `q`.
pub open spec fn api_entries(cols: Seq<Collection>, active: Option<(Seq<char>, Seq<char>)>, q: Seq<char>) -> Seq<
    PickerEntry,
> {
    matching_entries(with_active_name(all_entries(cols, 0), active), q)
}

/// The active request as the picker needs it: id and current name.
pub open spec fn active_entry(active: Option<(&str, &str)>) -> Option<(Seq<char>, Seq<char>)> {
    match active {
        Some(a) => Some((a.0@, a.1@)),
        None => None,
    }
}

/// `prefix / name` as a string.
fn joined_path(prefix: &str, name: &str) -> (r: String)
    ensures
        r@ == path_join(prefix@, name@),
{
    let mut r = own(prefix);
    push_str(&mut r, " / ");
    push_str(&mut r, name);
    r
}

/// Appends the entries of every request inside `items`, at any depth, to
/// `out`; a request's path is `prefix`, the names of the folders on the way
/// and its own name, joined by ` / `.
pub fn collect_reqs(items: &[CollectionItem], prefix: &str, out: &mut Vec<(String, String)>)
    ensures
        entry_texts(final(out)@) == entry_texts(old(out)@) + items_entries(items@, prefix@, 0),
    decreases items@,
{
    let ghost start = entry_texts(out@);
    let mut i: usize = 0;
    while i < items.len()
        invariant
            i <= items.len(),
            start + items_entries(items@, prefix@, 0) == entry_texts(out@) + items_entries(
                items@,
                prefix@,
                i as int,
            ),
        decreases items.len() - i,
    {
        let ghost before = entry_texts(out@);
        match &items[i] {
            CollectionItem::Folder(f) => {
                let p = joined_path(prefix, f.name.as_str());
                assert(decreases_to!(items@ => f.items@));
                collect_reqs(f.items.as_slice(), p.as_str(), out);
            },
            CollectionItem::Request(r) => {
                out.push((r.id.clone(), joined_path(prefix, r.name.as_str())));
                assert(entry_texts(out@) =~= before + seq![(r.id@, path_join(prefix@, r.name@))]);
            },
        }
        assert(items_entries(items@, prefix@, i as int) == item_entries(items@[i as int], prefix@)
            + items_entries(items@, prefix@, i + 1));
        assert(entry_texts(out@) == before + item_entries(items@[i as int], prefix@));
        assert((before + item_entries(items@[i as int], prefix@)) + items_entries(items@, prefix@, i + 1)
            == before + (item_entries(items@[i as int], prefix@) + items_entries(items@, prefix@, i + 1)));
        i = i + 1;
    }
    assert(items_entries(items@, prefix@, items.len() as int) =~= Seq::<PickerEntry>::empty());
    assert(entry_texts(out@) + Seq::<PickerEntry>::empty() == entry_texts(out@));
}

/// The last position where ` / ` starts in `s`.
fn last_separator(s: &str) -> (r: Option<usize>)
    ensures
        match r {
            Some(j) => j + 3 <= s@.len() && last_sep_before(s@, s@.len() - 3) == Some(j as int),
            None => last_sep_before(s@, s@.len() - 3) is None,
        },
{
    let v = chars_of(s);
    if v.len() < 3 {
        assert(last_sep_before(s@, s@.len() - 3) is None);
        return None;
    }
    let mut e: usize = v.len() - 3;
    loop
        invariant
            e + 3 <= v.len(),
            v@ == s@,
            last_sep_before(s@, s@.len() - 3) == last_sep_before(s@, e as int),
        decreases e,
    {
        if v[e] == ' ' && v[e + 1] == '/' && v[e + 2] == ' ' {
            return Some(e);
        }
        if e == 0 {
            assert(last_sep_before(s@, -1) is None);
            return None;
        }
        e = e - 1;
    }
}

/// The position of the first entry with the id `id`.
fn entry_position(list: &Vec<(String, String)>, id: &str) -> (r: Option<usize>)
    ensures
        match r {
            Some(i) => i < list@.len() && first_index(entry_ids(entry_texts(list@)), id@, 0) == Some(i as int),
            None => first_index(entry_ids(entry_texts(list@)), id@, 0) is None,
        },
{
    let ghost ids = entry_ids(entry_texts(list@));
    let mut i: usize = 0;
    while i < list.len()
        invariant
            i <= list.len(),
            ids == entry_ids(entry_texts(list@)),
            first_index(ids, id@, 0) == first_index(ids, id@, i as int),
        decreases list.len() - i,
    {
        assert(ids[i as int] == list@[i as int].0@);
        if crate::text::same_text(list[i].0.as_str(), id) {
            return Some(i);
        }
        i = i + 1;
    }
    None
}

/// The API picker's entries for the query `query`: every request of the
/// collections, the active one (`active`: id and current name) under its
/// current name, those whose lower-cased path contains `query`.
pub fn api_list_for_query(
    collections: &[Collection],
    active: Option<(&str, &str)>,
    query: &str,
) -> (r: Vec<(String, String)>)
    ensures
        entry_texts(r@) == api_entries(collections@, active_entry(active), query@),
{
    let mut out: Vec<(String, String)> = Vec::new();
    let mut c: usize = 0;
    assert(entry_texts(out@) =~= Seq::<PickerEntry>::empty());
    while c < collections.len()
        invariant
            c <= collections.len(),
            all_entries(collections@, 0) == entry_texts(out@) + all_entries(collections@, c as int),
        decreases collections.len() - c,
    {
        let ghost before = entry_texts(out@);
        collect_reqs(collections[c].items.as_slice(), collections[c].name.as_str(), &mut out);
        assert(all_entries(collections@, c as int) == items_entries(collections@[c as int].items@, collections@[c as int].name@, 0) + all_entries(collections@, c + 1));
        assert(before + all_entries(collections@, c as int) == entry_texts(out@) + all_entries(collections@, c + 1));
        c = c + 1;
    }
    assert(all_entries(collections@, collections.len() as int) =~= Seq::<PickerEntry>::empty());
    assert(entry_texts(out@) + Seq::<PickerEntry>::empty() == entry_texts(out@));
    let ghost all = entry_texts(out@);
    match active {
        Some((active_id, active_name)) => match entry_position(&out, active_id) {
            Some(i) => {
                let path = out[i].1.clone();
                let name = match last_separator(path.as_str()) {
                    Some(j) => {
                        let v = chars_of(path.as_str());
                        let head = crate::text::string_of_range(&v, 0, j);
                        assert(v@.subrange(0, j as int) == path@.take(j as int));
                        joined_path(head.as_str(), active_name)
                    },
                    None => own(active_name),
                };
                let id = out[i].0.clone();
                out.set(i, (id, name));
                assert(entry_texts(out@) =~= all.update(i as int, (all[i as int].0, renamed_path(all[i as int].1, active_name@))));
            },
            None => {},
        },
        None => {},
    }
    let ghost renamed = entry_texts(out@);
    assert(renamed == with_active_name(all, active_entry(active)));
    let mut kept: Vec<(String, String)> = Vec::new();
    let mut k: usize = 0;
    assert(renamed.take(0) =~= Seq::<PickerEntry>::empty());
    assert(entry_texts(kept@) =~= Seq::<PickerEntry>::empty());
    while k < out.len()
        invariant
            k <= out.len(),
            renamed == entry_texts(out@),
            entry_texts(kept@) == matching_entries(renamed.take(k as int), query@),
        decreases out.len() - k,
    {
        let ghost before = entry_texts(kept@);
        assert(renamed.take(k + 1).drop_last() == renamed.take(k as int));
        assert(renamed.take(k + 1).last() == (out@[k as int].0@, out@[k as int].1@));
        let keep = if query.is_empty() {
            true
        } else {
            let low = to_lowercase(out[k].1.as_str());
            contains_text(low.as_str(), query)
        };
        if keep {
            kept.push((out[k].0.clone(), out[k].1.clone()));
            assert(entry_texts(kept@) =~= before.push((out@[k as int].0@, out@[k as int].1@)));
        }
        k = k + 1;
    }
    assert(renamed.take(out.len() as int) == renamed);
    kept
}

impl AppView {
    /// Rebuilds the API picker's list for `query`, with the cursor on the
    /// first entry.
    pub fn rebuild_api_list_for_query(
        &mut self,
        collections: &[Collection],
        active: Option<(&str, &str)>,
        query: String,
    )
        ensures
            entry_texts(final(self).api_list@) == api_entries(collections@, active_entry(active), query@),
            final(self).api_list_query == query,
            !final(self).api_list_dirty,
            final(self).api_cursor == 0,
            final(self).api_picker_open == old(self).api_picker_open,
            *final(self) == (AppView {
                api_list: final(self).api_list,
                api_list_query: final(self).api_list_query,
                api_list_dirty: final(self).api_list_dirty,
                api_cursor: final(self).api_cursor,
                ..*old(self)
            }),
    {
        self.api_list = api_list_for_query(collections, active, query.as_str());
        self.api_list_query = query;
        self.api_list_dirty = false;
        self.api_cursor = 0;
    }

    /// Rebuilds the API picker's list for `query` when the workspace changed
    /// since it was built or it was built for another query.
    pub fn ensure_api_list_for_query(
        &mut self,
        collections: &[Collection],
        active: Option<(&str, &str)>,
        query: &str,
    )
        ensures
            old(self).api_list_dirty || old(self).api_list_query@ != query@ ==> {
                &&& entry_texts(final(self).api_list@) == api_entries(collections@, active_entry(active), query@)
                &&& final(self).api_list_query@ == query@
                &&& !final(self).api_list_dirty
                &&& final(self).api_cursor == 0
            },
            !(old(self).api_list_dirty || old(self).api_list_query@ != query@) ==> {
                &&& final(self).api_list == old(self).api_list
                &&& final(self).api_cursor == old(self).api_cursor
                &&& final(self).api_list_query == old(self).api_list_query
                &&& final(self).api_list_dirty == old(self).api_list_dirty
            },
            final(self).api_picker_open == old(self).api_picker_open,
            *final(self) == (AppView {
                api_list: final(self).api_list,
                api_list_query: final(self).api_list_query,
                api_list_dirty: final(self).api_list_dirty,
                api_cursor: final(self).api_cursor,
                ..*old(self)
            }),
    {
        if self.api_list_dirty || !crate::text::same_text(self.api_list_query.as_str(), query) {
            self.rebuild_api_list_for_query(collections, active, own(query));
        }
    }

    /// The search field of the API picker changed to `search`: the list is
    /// brought up to date for its lower-cased text.
    pub fn update_api_list(&mut self, collections: &[Collection], active: Option<(&str, &str)>, search: &str)
        ensures
            old(self).api_list_dirty || old(self).api_list_query@ != search_key(search@) ==> {
                &&& entry_texts(final(self).api_list@) == api_entries(collections@, active_entry(active), search_key(search@))
                &&& final(self).api_list_query@ == search_key(search@)
                &&& !final(self).api_list_dirty
                &&& final(self).api_cursor == 0
            },
            !(old(self).api_list_dirty || old(self).api_list_query@ != search_key(search@)) ==> {
                &&& final(self).api_list == old(self).api_list
                &&& final(self).api_cursor == old(self).api_cursor
                &&& final(self).api_list_query == old(self).api_list_query
                &&& final(self).api_list_dirty == old(self).api_list_dirty
            },
            final(self).api_picker_open == old(self).api_picker_open,
            *final(self) == (AppView {
                api_list: final(self).api_list,
                api_list_query: final(self).api_list_query,
                api_list_dirty: final(self).api_list_dirty,
                api_cursor: final(self).api_cursor,
                ..*old(self)
            }),
    {
        let query = search_key_of(search);
        self.ensure_api_list_for_query(collections, active, query.as_str());
    }

    /// Opens the API picker on the full list, with the cursor on the active
    /// request when it is listed.
    pub fn open_api_picker(
        &mut self,
        collections: &[Collection],
        active: Option<(&str, &str)>,
        active_request_id: &Option<String>,
    )
        ensures
            final(self).api_picker_open,
            old(self).api_list_dirty || old(self).api_list_query@.len() != 0 ==> entry_texts(final(self).api_list@)
                == api_entries(collections@, active_entry(active), Seq::empty()),
            !(old(self).api_list_dirty || old(self).api_list_query@.len() != 0) ==> final(self).api_list
                == old(self).api_list,
            match active_request_id {
                Some(id) => match first_index(entry_ids(entry_texts(final(self).api_list@)), id@, 0) {
                    Some(i) => final(self).api_cursor == i,
                    None => final(self).api_cursor == if old(self).api_list_dirty || old(self).api_list_query@.len() != 0 {
                        0
                    } else {
                        old(self).api_cursor
                    },
                },
                None => final(self).api_cursor == if old(self).api_list_dirty || old(self).api_list_query@.len() != 0 {
                    0
                } else {
                    old(self).api_cursor
                },
            },
            *final(self) == (AppView {
                api_picker_open: true,
                api_list: final(self).api_list,
                api_list_query: final(self).api_list_query,
                api_list_dirty: final(self).api_list_dirty,
                api_cursor: final(self).api_cursor,
                ..*old(self)
            }),
    {
        proof {
            reveal_strlit("");
            assert(""@ =~= Seq::<char>::empty());
            if old(self).api_list_query@.len() == 0 {
                assert(old(self).api_list_query@ =~= ""@);
            }
        }
        self.ensure_api_list_for_query(collections, active, "");
        if let Some(id) = active_request_id {
            if let Some(i) = entry_position(&self.api_list, id.as_str()) {
                self.api_cursor = i;
            }
        }
        self.api_picker_open = true;
    }

    /// The request under the API picker's cursor.
    pub fn api_at_cursor(&self) -> (r: Option<String>)
        ensures
            self.api_cursor < self.api_list@.len() ==> r == Some(self.api_list@[self.api_cursor as int].0),
            self.api_cursor >= self.api_list@.len() ==> r is None,
    {
        if self.api_cursor < self.api_list.len() {
            Some(self.api_list[self.api_cursor].0.clone())
        } else {
            None
        }
    }

    /// Closes the API picker.
    pub fn close_api_picker(&mut self)
        ensures
            !final(self).api_picker_open,
            final(self).api_list == old(self).api_list,
            final(self).api_cursor == old(self).api_cursor,
            *final(self) == (AppView {
                api_picker_open: false,
                ..*old(self)
            }),
    {
        self.api_picker_open = false;
    }

    /// The next (or, `backwards`, previous) request of the full API list
    /// after the active one, wrapping around; the cursor moves onto it.
    /// The active request is found at the cursor when it is there, else at
    /// its first entry, else the first entry counts as the active one.
    /// Returns the request to select; none when no request is listed.
    pub fn select_adjacent_api(
        &mut self,
        collections: &[Collection],
        active: Option<(&str, &str)>,
        active_request_id: &Option<String>,
        backwards: bool,
    ) -> (r: Option<String>)
        ensures
            ({
                let rebuilt = old(self).api_list_dirty || old(self).api_list_query@.len() != 0;
                let list = if rebuilt {
                    api_entries(collections@, active_entry(active), Seq::empty())
                } else {
                    entry_texts(old(self).api_list@)
                };
                let cursor: int = if rebuilt {
                    0
                } else {
                    old(self).api_cursor as int
                };
                let current: int = match active_request_id {
                    Some(id) => if 0 <= cursor < list.len() && list[cursor].0 == id@ {
                        cursor
                    } else {
                        match first_index(entry_ids(list), id@, 0) {
                            Some(p) => p,
                            None => 0,
                        }
                    },
                    None => 0,
                };
                &&& entry_texts(final(self).api_list@) == list
                &&& list.len() == 0 ==> r is None
                &&& list.len() > 0 ==> {
                    let target = stepped(list.len() as int, Some(current as usize), backwards);
                    &&& final(self).api_cursor == target
                    &&& r matches Some(id) && id@ == list[target].0
                }
            }),
            *final(self) == (AppView {
                api_list: final(self).api_list,
                api_list_query: final(self).api_list_query,
                api_list_dirty: final(self).api_list_dirty,
                api_cursor: final(self).api_cursor,
                ..*old(self)
            }),
    {
        proof {
            reveal_strlit("");
            assert(""@ =~= Seq::<char>::empty());
            if old(self).api_list_query@.len() == 0 {
                assert(old(self).api_list_query@ =~= ""@);
            }
        }
        self.ensure_api_list_for_query(collections, active, "");
        let len = self.api_list.len();
        if len == 0 {
            return None;
        }
        let ghost list = entry_texts(self.api_list@);
        let current: usize = match active_request_id {
            Some(id) => if self.api_cursor < len && crate::text::same_text(self.api_list[self.api_cursor].0.as_str(), id.as_str()) {
                self.api_cursor
            } else {
                match entry_position(&self.api_list, id.as_str()) {
                    Some(p) => p,
                    None => 0,
                }
            },
            None => 0,
        };
        let target = if backwards {
            if current == 0 {
                len - 1
            } else {
                current - 1
            }
        } else {
            (current + 1) % len
        };
        self.api_cursor = target;
        Some(self.api_list[target].0.clone())
    }

    /// The workspace changed: the API list is to be rebuilt, and while the
    /// picker is open it is rebuilt at once for the lower-cased `search`
    /// text, keeping the cursor on the entry it was on (or on the active
    /// request) when that is still listed.
    pub fn on_workspace_changed(
        &mut self,
        collections: &[Collection],
        active: Option<(&str, &str)>,
        active_request_id: &Option<String>,
        search: &str,
    )
        ensures
            !old(self).api_picker_open ==> final(self).api_list_dirty && final(self).api_list == old(self).api_list
                && final(self).api_cursor == old(self).api_cursor,
            old(self).api_picker_open ==> {
                let selected: Option<Seq<char>> = if old(self).api_cursor < old(self).api_list@.len() {
                    Some(old(self).api_list@[old(self).api_cursor as int].0@)
                } else {
                    match active_request_id {
                        Some(id) => Some(id@),
                        None => None,
                    }
                };
                let list = api_entries(collections@, active_entry(active), search_key(search@));
                &&& entry_texts(final(self).api_list@) == list
                &&& !final(self).api_list_dirty
                &&& final(self).api_cursor == match selected {
                    Some(sel) => match first_index(entry_ids(list), sel, 0) {
                        Some(i) => i,
                        None => 0,
                    },
                    None => 0,
                }
            },
            final(self).api_picker_open == old(self).api_picker_open,
            *final(self) == (AppView {
                api_list: final(self).api_list,
                api_list_query: final(self).api_list_query,
                api_list_dirty: final(self).api_list_dirty,
                api_cursor: final(self).api_cursor,
                ..*old(self)
            }),
    {
        self.api_list_dirty = true;
        if !self.api_picker_open {
            return;
        }
        let selected: Option<String> = if self.api_cursor < self.api_list.len() {
            Some(self.api_list[self.api_cursor].0.clone())
        } else {
            match active_request_id {
                Some(id) => Some(id.clone()),
                None => None,
            }
        };
        let query = search_key_of(search);
        self.rebuild_api_list_for_query(collections, active, query);
        if let Some(sel) = selected {
            if let Some(i) = entry_position(&self.api_list, sel.as_str()) {
                self.api_cursor = i;
            }
        }
    }
}


// ---------------------------------------------------------------------------
// The theme and font pickers
// ---------------------------------------------------------------------------

/// The names whose lower-cased text contains `q`; all of them for an empty
/// `q`; in their order.
pub open spec fn matching_texts(s: Seq<Seq<char>>, q: Seq<char>) -> Seq<Seq<char>>
    decreases s.len(),
{
    if s.len() == 0 {
        Seq::empty()
    } else {
        let init = matching_texts(s.drop_last(), q);
        if q.len() == 0 || occurs_in(lowercase(s.last()), q) {
            init.push(s.last())
        } else {
            init
        }
    }
}

/// The names of `names` that match the query `q`.
fn matching_names(names: &[String], q: &str) -> (r: Vec<String>)
    ensures
        texts(r@) == matching_texts(texts(names@), q@),
{
    let ghost all = texts(names@);
    let mut out: Vec<String> = Vec::new();
    let mut i: usize = 0;
    assert(all.take(0) =~= Seq::<Seq<char>>::empty());
    assert(texts(out@) =~= Seq::<Seq<char>>::empty());
    while i < names.len()
        invariant
            i <= names.len(),
            all == texts(names@),
            texts(out@) == matching_texts(all.take(i as int), q@),
        decreases names.len() - i,
    {
        let ghost before = texts(out@);
        assert(all.take(i + 1).drop_last() == all.take(i as int));
        assert(all.take(i + 1).last() == names@[i as int]@);
        let keep = if q.is_empty() {
            true
        } else {
            let low = to_lowercase(names[i].as_str());
            contains_text(low.as_str(), q)
        };
        if keep {
            out.push(names[i].clone());
            assert(texts(out@) =~= before.push(names@[i as int]@));
        }
        i = i + 1;
    }
    assert(all.take(names.len() as int) == all);
    out
}

/// The position of the first name equal to `name`.
fn name_position(list: &Vec<String>, name: &str) -> (r: Option<usize>)
    ensures
        match r {
            Some(i) => i < list@.len() && first_index(texts(list@), name@, 0) == Some(i as int),
            None => first_index(texts(list@), name@, 0) is None,
        },
{
    let ghost ns = texts(list@);
    let mut i: usize = 0;
    while i < list.len()
        invariant
            i <= list.len(),
            ns == texts(list@),
            first_index(ns, name@, 0) == first_index(ns, name@, i as int),
        decreases list.len() - i,
    {
        assert(ns[i as int] == list@[i as int]@);
        if crate::text::same_text(list[i].as_str(), name) {
            return Some(i);
        }
        i = i + 1;
    }
    None
}

impl AppView {
    /// Fills the theme picker: the installed themes `names` whose
    /// lower-cased name contains the lower-cased `search`, sorted, with the
    /// cursor on the current theme, or on the first when it is not listed.
    pub fn update_theme_list(&mut self, names: Vec<String>, search: &str, current_theme: &str)
        ensures
            is_sorted(texts(final(self).theme_list@)),
            texts(final(self).theme_list@).to_multiset() == matching_texts(texts(names@), search_key(search@)).to_multiset(),
            final(self).theme_cursor == match first_index(texts(final(self).theme_list@), current_theme@, 0) {
                Some(i) => i,
                None => 0,
            },
            *final(self) == (AppView {
                theme_list: final(self).theme_list,
                theme_cursor: final(self).theme_cursor,
                ..*old(self)
            }),
    {
        let query = search_key_of(search);
        let matching = matching_names(names.as_slice(), query.as_str());
        self.theme_list = sort_texts(matching);
        self.theme_cursor = match name_position(&self.theme_list, current_theme) {
            Some(i) => i,
            None => 0,
        };
    }

    /// The theme under the cursor.
    pub fn theme_at_cursor(&self) -> (r: Option<String>)
        ensures
            self.theme_cursor < self.theme_list@.len() ==> r == Some(self.theme_list@[self.theme_cursor as int]),
            self.theme_cursor >= self.theme_list@.len() ==> r is None,
    {
        if self.theme_cursor < self.theme_list.len() {
            Some(self.theme_list[self.theme_cursor].clone())
        } else {
            None
        }
    }

    /// Opens the theme picker, remembering the theme in use to restore it
    /// when the picker is dismissed.
    pub fn open_theme_picker(&mut self, current_theme: &str)
        ensures
            final(self).theme_picker_open,
            final(self).original_theme@ == current_theme@,
            *final(self) == (AppView {
                theme_picker_open: true,
                original_theme: final(self).original_theme,
                ..*old(self)
            }),
    {
        self.original_theme = own(current_theme);
        self.theme_picker_open = true;
    }

    /// Closes the theme picker; `committed` when a theme was chosen, which
    /// forgets the theme to restore.
    pub fn close_theme_picker(&mut self, committed: bool)
        ensures
            !final(self).theme_picker_open,
            committed ==> final(self).original_theme@.len() == 0,
            !committed ==> final(self).original_theme == old(self).original_theme,
            *final(self) == (AppView {
                theme_picker_open: false,
                original_theme: final(self).original_theme,
                ..*old(self)
            }),
    {
        self.theme_picker_open = false;
        if committed {
            self.original_theme = String::new();
        }
    }

    /// Fills the font picker: the available fonts whose lower-cased name
    /// contains the lower-cased `search`, in their order, with the cursor on
    /// the selected font, or on the first when it is not listed.
    pub fn rebuild_font_list(&mut self, search: &str)
        ensures
            texts(final(self).font_list@) == matching_texts(texts(old(self).available_fonts@), search_key(search@)),
            final(self).font_cursor == match first_index(texts(final(self).font_list@), old(self).selected_font_family@, 0) {
                Some(i) => i,
                None => 0,
            },
            final(self).available_fonts == old(self).available_fonts,
            final(self).selected_font_family == old(self).selected_font_family,
            *final(self) == (AppView {
                font_list: final(self).font_list,
                font_cursor: final(self).font_cursor,
                ..*old(self)
            }),
    {
        let query = search_key_of(search);
        self.font_list = matching_names(self.available_fonts.as_slice(), query.as_str());
        self.font_cursor = match name_position(&self.font_list, self.selected_font_family.as_str()) {
            Some(i) => i,
            None => 0,
        };
    }

    /// Opens the font picker on every available font, the cursor on the
    /// selected one.
    pub fn open_font_picker(&mut self)
        ensures
            final(self).font_picker_open,
            texts(final(self).font_list@) == texts(old(self).available_fonts@),
            final(self).font_cursor == match first_index(texts(final(self).font_list@), old(self).selected_font_family@, 0) {
                Some(i) => i,
                None => 0,
            },
            *final(self) == (AppView {
                font_picker_open: true,
                font_list: final(self).font_list,
                font_cursor: final(self).font_cursor,
                ..*old(self)
            }),
    {
        proof {
            reveal_strlit("");
            lemma_matching_all(texts(self.available_fonts@), ""@);
        }
        self.font_list = matching_names(self.available_fonts.as_slice(), "");
        self.font_cursor = match name_position(&self.font_list, self.selected_font_family.as_str()) {
            Some(i) => i,
            None => 0,
        };
        self.font_picker_open = true;
    }

    /// Closes the font picker.
    pub fn close_font_picker(&mut self)
        ensures
            !final(self).font_picker_open,
            final(self).font_list == old(self).font_list,
            final(self).selected_font_family == old(self).selected_font_family,
            *final(self) == (AppView {
                font_picker_open: false,
                ..*old(self)
            }),
    {
        self.font_picker_open = false;
    }

    /// The font under the cursor.
    pub fn font_at_cursor(&self) -> (r: Option<String>)
        ensures
            self.font_cursor < self.font_list@.len() ==> r == Some(self.font_list@[self.font_cursor as int]),
            self.font_cursor >= self.font_list@.len() ==> r is None,
    {
        if self.font_cursor < self.font_list.len() {
            Some(self.font_list[self.font_cursor].clone())
        } else {
            None
        }
    }

    /// Makes `font` the selected font.
    pub fn select_font(&mut self, font: String)
        ensures
            final(self).selected_font_family == font,
            final(self).available_fonts == old(self).available_fonts,
            *final(self) == (AppView {
                selected_font_family: final(self).selected_font_family,
                ..*old(self)
            }),
    {
        self.selected_font_family = font;
    }
}

/// The font family to start with: the saved one when it is available,
/// else the theme's.
pub fn initial_font_family(saved: Option<String>, available: &[String], theme_font: &str) -> (r: String)
    ensures
        r@ == match saved {
            Some(f) => if texts(available@).contains(f@) {
                f@
            } else {
                theme_font@
            },
            None => theme_font@,
        },
{
    match saved {
        Some(f) => {
            let mut i: usize = 0;
            while i < available.len()
                invariant
                    i <= available.len(),
                    saved == Some(f),
                    forall|j: int| 0 <= j < i ==> available@[j]@ != f@,
                decreases available.len() - i,
            {
                if crate::text::same_text(available[i].as_str(), f.as_str()) {
                    assert(texts(available@)[i as int] == f@);
                    return f;
                }
                i = i + 1;
            }
            assert(!texts(available@).contains(f@)) by {
                if texts(available@).contains(f@) {
                    let w = choose|w: int| 0 <= w < texts(available@).len() && texts(available@)[w] == f@;
                    assert(available@[w]@ == f@);
                }
            }
            own(theme_font)
        },
        None => own(theme_font),
    }
}


/// The actions that shortcuts trigger.
#[derive(Clone, Copy, Debug, PartialEq, Eq, Structural)]
pub enum ShortcutAction {
    ThemePicker,
    ApiPicker,
    NextApi,
    PrevApi,
    SendRequest,
    RenameSelected,
    ToggleMaximize,
    OpenSettings,
    FocusActiveRequest,
    FocusUrl,
    FocusCollectionPanel,
    FocusRequestPanel,
    FocusResponsePanel,
}

/// The action of the shortcut `id`.
pub open spec fn action_of(id: Seq<char>) -> Option<ShortcutAction> {
    if id == "theme_picker"@ {
        Some(ShortcutAction::ThemePicker)
    } else if id == "api_picker"@ {
        Some(ShortcutAction::ApiPicker)
    } else if id == "next_api"@ {
        Some(ShortcutAction::NextApi)
    } else if id == "prev_api"@ {
        Some(ShortcutAction::PrevApi)
    } else if id == "send_request"@ {
        Some(ShortcutAction::SendRequest)
    } else if id == "rename_selected"@ {
        Some(ShortcutAction::RenameSelected)
    } else if id == "toggle_maximize"@ {
        Some(ShortcutAction::ToggleMaximize)
    } else if id == "open_settings"@ {
        Some(ShortcutAction::OpenSettings)
    } else if id == "focus_active_request"@ {
        Some(ShortcutAction::FocusActiveRequest)
    } else if id == "focus_url"@ {
        Some(ShortcutAction::FocusUrl)
    } else if id == "focus_collection_panel"@ {
        Some(ShortcutAction::FocusCollectionPanel)
    } else if id == "focus_request_panel"@ {
        Some(ShortcutAction::FocusRequestPanel)
    } else if id == "focus_response_panel"@ {
        Some(ShortcutAction::FocusResponsePanel)
    } else {
        None
    }
}

/// The action that the shortcut `id` is bound to; none for an unknown id.
pub fn shortcut_action(id: &str) -> (r: Option<ShortcutAction>)
    ensures
        r == action_of(id@),
{
    if crate::text::same_text(id, "theme_picker") {
        Some(ShortcutAction::ThemePicker)
    } else if crate::text::same_text(id, "api_picker") {
        Some(ShortcutAction::ApiPicker)
    } else if crate::text::same_text(id, "next_api") {
        Some(ShortcutAction::NextApi)
    } else if crate::text::same_text(id, "prev_api") {
        Some(ShortcutAction::PrevApi)
    } else if crate::text::same_text(id, "send_request") {
        Some(ShortcutAction::SendRequest)
    } else if crate::text::same_text(id, "rename_selected") {
        Some(ShortcutAction::RenameSelected)
    } else if crate::text::same_text(id, "toggle_maximize") {
        Some(ShortcutAction::ToggleMaximize)
    } else if crate::text::same_text(id, "open_settings") {
        Some(ShortcutAction::OpenSettings)
    } else if crate::text::same_text(id, "focus_active_request") {
        Some(ShortcutAction::FocusActiveRequest)
    } else if crate::text::same_text(id, "focus_url") {
        Some(ShortcutAction::FocusUrl)
    } else if crate::text::same_text(id, "focus_collection_panel") {
        Some(ShortcutAction::FocusCollectionPanel)
    } else if crate::text::same_text(id, "focus_request_panel") {
        Some(ShortcutAction::FocusRequestPanel)
    } else if crate::text::same_text(id, "focus_response_panel") {
        Some(ShortcutAction::FocusResponsePanel)
    } else {
        None
    }
}

impl AppView {
    /// The window's actions run only while no shortcut is being recorded,
    /// so that the keys pressed for a new shortcut do not trigger them.
    pub fn accepts_actions(&self) -> (r: bool)
        ensures
            r == self.recording_shortcut is None,
    {
        self.recording_shortcut.is_none()
    }
}

/// An action that the main window handles itself.
#[derive(Clone, Copy, Debug, PartialEq, Eq, Structural)]
pub enum WindowAction {
    ThemePicker,
    OpenSettings,
    CloseSettings,
    NextApi,
    PrevApi,
    ApiPicker,
    FocusCollectionPanel,
    FocusRequestPanel,
    FocusResponsePanel,
    FocusUrl,
    SendRequest,
    ToggleMaximize,
}

/// Where the focus is when an action runs: in which panel, and whether an
/// input of the request or response panel holds it.
#[derive(Clone, Copy, Debug, PartialEq, Eq, Structural)]
pub struct FocusState {
    pub collection: bool,
    pub request: bool,
    pub response: bool,
    pub request_input: bool,
    pub response_input: bool,
}

/// What is left to do once the window has taken its own part of an action.
#[derive(Clone, Copy, Debug, PartialEq, Eq, Structural)]
pub enum ActionEffect {
    /// The action was ignored.
    Ignored,
    /// The window did all there was to do.
    Done,
    /// Open the theme picker, or close it restoring the theme it started with.
    ToggleThemePicker,
    /// Open the API picker, or close it.
    ToggleApiPicker,
    /// Select the next (`true`) or previous request of the list.
    SelectAdjacentApi(bool),
    /// Send the request being edited.
    SendRequest,
    /// Move the focus to the request tree.
    FocusCollectionPanel,
    /// Move the focus to the request editor.
    FocusRequestPanel,
    /// Move the focus to the response panel.
    FocusResponsePanel,
    /// Move the focus to the URL field.
    FocusUrl,
}

/// What an action leaves to do when the window accepts it.
pub open spec fn action_effect(action: WindowAction) -> ActionEffect {
    match action {
        WindowAction::ThemePicker => ActionEffect::ToggleThemePicker,
        WindowAction::ApiPicker => ActionEffect::ToggleApiPicker,
        WindowAction::NextApi => ActionEffect::SelectAdjacentApi(true),
        WindowAction::PrevApi => ActionEffect::SelectAdjacentApi(false),
        WindowAction::SendRequest => ActionEffect::SendRequest,
        WindowAction::FocusUrl => ActionEffect::FocusUrl,
        WindowAction::FocusCollectionPanel => ActionEffect::FocusCollectionPanel,
        WindowAction::FocusRequestPanel => ActionEffect::FocusRequestPanel,
        WindowAction::FocusResponsePanel => ActionEffect::FocusResponsePanel,
        WindowAction::ToggleMaximize | WindowAction::OpenSettings | WindowAction::CloseSettings => ActionEffect::Done,
    }
}

/// The window after it accepts `action` with the focus `focus`: the
/// maximise key maximises or restores, the settings open or close (ending
/// a recording), a focus move restores the layout first; the other
/// actions leave the window as it is.
pub open spec fn after_action(v: AppView, action: WindowAction, focus: FocusState) -> AppView {
    match action {
        WindowAction::CloseSettings => AppView { settings_open: false, recording_shortcut: None, ..v },
        WindowAction::OpenSettings => AppView { settings_open: true, ..v },
        WindowAction::ToggleMaximize => AppView {
            maximized_panel: maximize_target(
                v.maximized_panel,
                focus.collection,
                focus.request,
                focus.response,
                focus.request_input,
                focus.response_input,
            ),
            ..v
        },
        WindowAction::FocusUrl | WindowAction::FocusCollectionPanel | WindowAction::FocusRequestPanel
        | WindowAction::FocusResponsePanel => AppView { maximized_panel: MaximizedPanel::NoPanel, ..v },
        _ => v,
    }
}

impl AppView {
    /// Runs the window's part of `action`, and says what is left to do.
    /// While a shortcut is being recorded every action is ignored and the
    /// window stays as it is, so that the keys pressed for the new shortcut
    /// trigger nothing.
    pub fn window_action(&mut self, action: WindowAction, focus: FocusState) -> (r: ActionEffect)
        ensures
            old(self).recording_shortcut is Some ==> r == ActionEffect::Ignored && *final(self) == *old(self),
            old(self).recording_shortcut is None ==> r == action_effect(action) && *final(self) == after_action(
                *old(self),
                action,
                focus,
            ),
    {
        if !self.accepts_actions() {
            return ActionEffect::Ignored;
        }
        match action {
            WindowAction::CloseSettings => {
                self.close_settings();
                ActionEffect::Done
            },
            WindowAction::OpenSettings => {
                self.open_settings();
                ActionEffect::Done
            },
            WindowAction::ToggleMaximize => {
                self.toggle_maximize(
                    focus.collection,
                    focus.request,
                    focus.response,
                    focus.request_input,
                    focus.response_input,
                );
                ActionEffect::Done
            },
            WindowAction::ThemePicker => ActionEffect::ToggleThemePicker,
            WindowAction::ApiPicker => ActionEffect::ToggleApiPicker,
            WindowAction::NextApi => ActionEffect::SelectAdjacentApi(true),
            WindowAction::PrevApi => ActionEffect::SelectAdjacentApi(false),
            WindowAction::SendRequest => ActionEffect::SendRequest,
            WindowAction::FocusUrl => {
                self.maximized_panel = MaximizedPanel::NoPanel;
                ActionEffect::FocusUrl
            },
            WindowAction::FocusCollectionPanel => {
                self.maximized_panel = MaximizedPanel::NoPanel;
                ActionEffect::FocusCollectionPanel
            },
            WindowAction::FocusRequestPanel => {
                self.maximized_panel = MaximizedPanel::NoPanel;
                ActionEffect::FocusRequestPanel
            },
            WindowAction::FocusResponsePanel => {
                self.maximized_panel = MaximizedPanel::NoPanel;
                ActionEffect::FocusResponsePanel
            },
        }
    }
}

/// No two key fields hold the same key.
pub open spec fn keys_distinct(inputs: Seq<ShortcutInput>) -> bool {
    forall|i: int, j: int|
        0 <= i < j < inputs.len() ==> (#[trigger] inputs[i]).value@ != (#[trigger] inputs[j]).value@
}

/// No two shortcuts share an id.
pub open spec fn ids_distinct(inputs: Seq<ShortcutInput>) -> bool {
    forall|i: int, j: int|
        0 <= i < j < inputs.len() ==> (#[trigger] inputs[i]).spec.id@ != (#[trigger] inputs[j]).spec.id@
}

/// Recording never binds one key to two shortcuts: a key that another
/// shortcut's field holds is refused, so fields that held distinct keys
/// still do after the new key is taken.
pub proof fn law_recorded_keys_stay_distinct(
    before: Seq<ShortcutInput>,
    after: Seq<ShortcutInput>,
    id: Seq<char>,
    combo: Seq<char>,
    c: int,
)
    requires
        ids_distinct(before),
        keys_distinct(before),
        taken_by(before, id, combo, 0) is None,
        input_of(before, id, 0) == Some(c),
        after.len() == before.len(),
        after[c].value@ == combo,
        after[c].spec == before[c].spec,
        forall|j: int| 0 <= j < before.len() && j != c ==> after[j] == before[j],
    ensures
        keys_distinct(after),
        ids_distinct(after),
{
    lemma_input_of(before, id, 0);
    lemma_taken_by(before, id, combo, 0);
    assert forall|i: int, j: int| 0 <= i < j < after.len() implies (#[trigger] after[i]).value@ != (
    #[trigger] after[j]).value@ by {
        if i == c {
            assert(before[j].spec.id@ != id);
        } else if j == c {
            assert(before[i].spec.id@ != id);
        } else {
            assert(before[i].value@ != before[j].value@);
        }
    }
    assert forall|i: int, j: int| 0 <= i < j < after.len() implies (#[trigger] after[i]).spec.id@ != (
    #[trigger] after[j]).spec.id@ by {
        assert(before[i].spec.id@ != before[j].spec.id@);
    }
}

/// What `input_of` finds.
proof fn lemma_input_of(inputs: Seq<ShortcutInput>, id: Seq<char>, k: int)
    requires
        0 <= k,
    ensures
        match input_of(inputs, id, k) {
            Some(c) => k <= c < inputs.len() && inputs[c].spec.id@ == id,
            None => forall|j: int| k <= j < inputs.len() ==> inputs[j].spec.id@ != id,
        },
    decreases inputs.len() - k,
{
    if k < inputs.len() && inputs[k].spec.id@ != id {
        lemma_input_of(inputs, id, k + 1);
    }
}

/// What `taken_by` finds: with none found, every field holding `combo`
/// belongs to the shortcut `id`.
proof fn lemma_taken_by(inputs: Seq<ShortcutInput>, id: Seq<char>, combo: Seq<char>, k: int)
    requires
        0 <= k,
    ensures
        taken_by(inputs, id, combo, k) is None ==> forall|j: int|
            k <= j < inputs.len() && inputs[j].value@ == combo ==> inputs[j].spec.id@ == id,
    decreases inputs.len() - k,
{
    if k < inputs.len() {
        lemma_taken_by(inputs, id, combo, k + 1);
    }
}


/// The font family in use: the saved one unless it is blank, else the
/// theme's.
pub fn configured_font_family(saved: Option<String>, theme_font: &str) -> (r: String)
    ensures
        r@ == match saved {
            Some(f) => if trim(f@).len() > 0 {
                f@
            } else {
                theme_font@
            },
            None => theme_font@,
        },
{
    match saved {
        Some(f) => {
            let t = trimmed(f.as_str());
            if t.as_str().is_empty() {
                own(theme_font)
            } else {
                f
            }
        },
        None => own(theme_font),
    }
}

/// The font family to save from the family field: its trimmed text,
/// unless that is empty.
pub fn font_family_to_save(family: &str) -> (r: Option<String>)
    ensures
        trim(family@).len() == 0 ==> r is None,
        trim(family@).len() > 0 ==> (r matches Some(f) && f@ == trim(family@)),
{
    let t = trimmed(family);
    if t.as_str().is_empty() {
        None
    } else {
        Some(t)
    }
}


/// Every name matches an empty query.
proof fn lemma_matching_all(s: Seq<Seq<char>>, q: Seq<char>)
    requires
        q.len() == 0,
    ensures
        matching_texts(s, q) == s,
    decreases s.len(),
{
    if s.len() > 0 {
        lemma_matching_all(s.drop_last(), q);
        assert(s.drop_last().push(s.last()) =~= s);
    }
}

/// Every entry matches an empty query.
proof fn lemma_matching_entries_all(es: Seq<PickerEntry>, q: Seq<char>)
    requires
        q.len() == 0,
    ensures
        matching_entries(es, q) == es,
    decreases es.len(),
{
    if es.len() > 0 {
        lemma_matching_entries_all(es.drop_last(), q);
        assert(es.drop_last().push(es.last()) =~= es);
    }
}

/// The number of requests inside `items` from position `k` on, at any
/// depth.
pub open spec fn request_count(items: Seq<CollectionItem>, k: int) -> nat
    decreases items, items.len() - k,
{
    if k < 0 || k >= items.len() {
        0
    } else {
        (match items[k] {
            CollectionItem::Request(_) => 1nat,
            CollectionItem::Folder(f) => request_count(f.items@, 0),
        }) + request_count(items, k + 1)
    }
}

/// The number of requests of the collections from position `k` on.
pub open spec fn collections_request_count(cols: Seq<Collection>, k: int) -> nat
    decreases cols.len() - k,
{
    if k < 0 || k >= cols.len() {
        0
    } else {
        request_count(cols[k].items@, 0) + collections_request_count(cols, k + 1)
    }
}

proof fn lemma_ids_concat(a: Seq<PickerEntry>, b: Seq<PickerEntry>)
    ensures
        entry_ids(a + b) == entry_ids(a) + entry_ids(b),
{
    assert(entry_ids(a + b) =~= entry_ids(a) + entry_ids(b));
}

proof fn lemma_contains_ids_concat(a: Seq<Seq<char>>, b: Seq<Seq<char>>, x: Seq<char>)
    ensures
        (a + b).contains(x) <==> a.contains(x) || b.contains(x),
{
    if a.contains(x) {
        let i = choose|i: int| 0 <= i < a.len() && a[i] == x;
        assert((a + b)[i] == x);
    }
    if b.contains(x) {
        let i = choose|i: int| 0 <= i < b.len() && b[i] == x;
        assert((a + b)[a.len() + i] == x);
    }
    if (a + b).contains(x) {
        let i = choose|i: int| 0 <= i < (a + b).len() && (a + b)[i] == x;
        if i < a.len() {
            assert(a[i] == x);
        } else {
            assert(b[i - a.len()] == x);
        }
    }
}

/// The entries of a list of items name exactly the requests it holds, one
/// entry per request.
proof fn lemma_items_entries(items: Seq<CollectionItem>, prefix: Seq<char>, k: int, id: Seq<char>)
    requires
        0 <= k,
    ensures
        entry_ids(items_entries(items, prefix, k)).contains(id) == items_have_request(items, id, k),
        items_entries(items, prefix, k).len() == request_count(items, k),
    decreases items, items.len() - k,
{
    if k < items.len() {
        let head = item_entries(items[k], prefix);
        let tail = items_entries(items, prefix, k + 1);
        lemma_items_entries(items, prefix, k + 1, id);
        match items[k] {
            CollectionItem::Folder(f) => {
                assert(decreases_to!(items => f.items@));
                lemma_items_entries(f.items@, path_join(prefix, f.name@), 0, id);
            },
            CollectionItem::Request(r) => {
                assert(entry_ids(head) =~= seq![r.id@]);
                if entry_ids(head).contains(id) {
                    assert(entry_ids(head)[0] == id);
                }
                if r.id@ == id {
                    assert(entry_ids(head)[0] == id);
                }
            },
        }
        assert(items_entries(items, prefix, k) == head + tail);
        assert(items_have_request(items, id, k) == (item_has_request(items[k], id) || items_have_request(
            items,
            id,
            k + 1,
        )));
        lemma_ids_concat(head, tail);
        lemma_contains_ids_concat(entry_ids(head), entry_ids(tail), id);
    } else {
        assert(entry_ids(items_entries(items, prefix, k)) =~= Seq::<Seq<char>>::empty());
    }
}

proof fn lemma_all_entries(cols: Seq<Collection>, k: int, id: Seq<char>)
    requires
        0 <= k,
    ensures
        entry_ids(all_entries(cols, k)).contains(id) <==> exists|c: int|
            k <= c < cols.len() && items_have_request(#[trigger] cols[c].items@, id, 0),
        all_entries(cols, k).len() == collections_request_count(cols, k),
    decreases cols.len() - k,
{
    if k < cols.len() {
        lemma_all_entries(cols, k + 1, id);
        let head = items_entries(cols[k].items@, cols[k].name@, 0);
        let tail = all_entries(cols, k + 1);
        lemma_items_entries(cols[k].items@, cols[k].name@, 0, id);
        lemma_ids_concat(head, tail);
        lemma_contains_ids_concat(entry_ids(head), entry_ids(tail), id);
        if exists|c: int| k <= c < cols.len() && items_have_request(#[trigger] cols[c].items@, id, 0) {
            let c = choose|c: int| k <= c < cols.len() && items_have_request(#[trigger] cols[c].items@, id, 0);
            if c > k {
                assert(items_have_request(cols[c].items@, id, 0));
            }
        }
    }
}

/// With no search text the API picker lists every request of every
/// collection, wherever it sits in the folders: a request id is listed
/// exactly when some collection holds a request with that id, and there is
/// one entry per request.
pub proof fn law_picker_lists_every_request(cols: Seq<Collection>, id: Seq<char>)
    ensures
        entry_ids(api_entries(cols, None, Seq::empty())).contains(id) <==> exists|c: int|
            0 <= c < cols.len() && items_have_request(#[trigger] cols[c].items@, id, 0),
        api_entries(cols, None, Seq::empty()).len() == collections_request_count(cols, 0),
{
    lemma_matching_entries_all(all_entries(cols, 0), Seq::empty());
    lemma_all_entries(cols, 0, id);
}

} // verus!
