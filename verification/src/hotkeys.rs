//! Hotkeys: recording a key combination, normalising it, and showing it.
use crate::protocol::types::HotkeySettings;
use crate::text::{
    ascii_lower_seq, ascii_upper, chars_of, join_seqs, join_strings, opt_chars, owned, pieces_of, push_char,
    push_str, split_all, split_ranges, str_eq, string_from_range, strings_view, to_ascii_lowercase,
    to_ascii_upper_char, trim, trimmed,
};
use vstd::prelude::*;

verus! {

/// An action that a hotkey triggers.
#[derive(Debug, Clone, Copy, PartialEq, Eq, Structural)]
pub enum HotkeyAction {
    NewTab,
    NextTab,
    PrevTab,
    TabSelector,
}

/// The modifier keys held during a key press.
#[derive(Debug, Clone, Copy, Default, PartialEq, Eq, Structural)]
pub struct Modifiers {
    pub control: bool,
    pub alt: bool,
    pub shift: bool,
    pub platform: bool,
    pub function: bool,
}

impl Modifiers {
    /// No modifier held.
    pub fn none() -> (r: Self)
        ensures
            r == no_modifiers(),
    {
        Modifiers { control: false, alt: false, shift: false, platform: false, function: false }
    }
}

/// A key press: the name of the key and the modifiers held with it.
#[derive(Debug, Clone, PartialEq, Eq)]
pub struct Keystroke {
    pub key: String,
    pub modifiers: Modifiers,
}

/// No modifier held.
pub open spec fn no_modifiers() -> Modifiers {
    Modifiers { control: false, alt: false, shift: false, platform: false, function: false }
}

/// The arrow keys keep their direction: a key whose trimmed, lowercased name is `left`,
/// `right`, `up` or `down` is named `arrowleft`, `arrowright`, `arrowup` or `arrowdown`, as a
/// key press and as a part of a typed combination; likewise `esc` is `escape` and `return` is
/// `enter`.
pub proof fn arrow_keys_keep_their_direction(key: Seq<char>, st: (Modifiers, Option<Seq<char>>))
    ensures
        ascii_lower_seq(trim(key)) == "left"@ ==> key_name(key) == Some("arrowleft"@),
        ascii_lower_seq(trim(key)) == "right"@ ==> key_name(key) == Some("arrowright"@),
        ascii_lower_seq(trim(key)) == "up"@ ==> key_name(key) == Some("arrowup"@),
        ascii_lower_seq(trim(key)) == "down"@ ==> key_name(key) == Some("arrowdown"@),
        combo_step(st, "left"@).1 == Some("arrowleft"@),
        combo_step(st, "right"@).1 == Some("arrowright"@),
        combo_step(st, "up"@).1 == Some("arrowup"@),
        combo_step(st, "down"@).1 == Some("arrowdown"@),
        ascii_lower_seq(trim(key)) == "esc"@ ==> key_name(key) == Some("escape"@),
        ascii_lower_seq(trim(key)) == "return"@ ==> key_name(key) == Some("enter"@),
{
    reveal_strlit("left");
    reveal_strlit("right");
    reveal_strlit("up");
    reveal_strlit("down");
    reveal_strlit("arrowleft");
    reveal_strlit("arrowright");
    reveal_strlit("arrowup");
    reveal_strlit("arrowdown");
    reveal_strlit("esc");
    reveal_strlit("return");
    reveal_strlit("control");
    reveal_strlit("ctrl");
    reveal_strlit("shift");
    reveal_strlit("alt");
    reveal_strlit("meta");
    reveal_strlit("super");
    reveal_strlit("cmd");
    reveal_strlit("command");
    reveal_strlit("platform");
    reveal_strlit("function");
    reveal_strlit("fn");
    reveal_strlit("escape");
    reveal_strlit("enter");
    assert("esc"@[0] != "cmd"@[0] && "esc"@[0] != "alt"@[0]);
    assert(!is_modifier_name("esc"@));
    assert(key_alias("esc"@) == "escape"@);
    assert(ascii_lower_seq("esc"@) =~= "esc"@);
    let words = seq!["left"@, "right"@, "up"@, "down"@];
    assert forall|i: int| 0 <= i < 4 implies ascii_lower_seq(trim(words[i])) == words[i] by {
        assert(ascii_lower_seq(words[i]) =~= words[i]);
    }
}

/// The names that stand for a modifier key rather than a key.
pub open spec fn is_modifier_name(k: Seq<char>) -> bool {
    ||| k == "control"@
    ||| k == "ctrl"@
    ||| k == "shift"@
    ||| k == "alt"@
    ||| k == "meta"@
    ||| k == "super"@
    ||| k == "cmd"@
    ||| k == "command"@
    ||| k == "platform"@
    ||| k == "function"@
    ||| k == "fn"@
}

/// The canonical name of a (lowercase) key.
pub open spec fn key_alias(k: Seq<char>) -> Seq<char> {
    if k == "left"@ {
        "arrowleft"@
    } else if k == "right"@ {
        "arrowright"@
    } else if k == "up"@ {
        "arrowup"@
    } else if k == "down"@ {
        "arrowdown"@
    } else if k == "esc"@ {
        "escape"@
    } else if k == "return"@ {
        "enter"@
    } else {
        k
    }
}

/// The normalised name of a key: trimmed, ASCII-lowercased and canonical; none for an empty
/// name or a modifier.
pub open spec fn key_name(key: Seq<char>) -> Option<Seq<char>> {
    if ascii_lower_seq(trim(key)).len() == 0 || is_modifier_name(ascii_lower_seq(trim(key))) {
        None
    } else {
        Some(key_alias(ascii_lower_seq(trim(key))))
    }
}

/// The names of the held modifiers, in the order ctrl, alt, shift, cmd, fn.
pub open spec fn modifier_names(m: Modifiers) -> Seq<Seq<char>> {
    let a: Seq<Seq<char>> = if m.control {
        seq!["ctrl"@]
    } else {
        Seq::empty()
    };
    let b = if m.alt {
        a.push("alt"@)
    } else {
        a
    };
    let c = if m.shift {
        b.push("shift"@)
    } else {
        b
    };
    let d = if m.platform {
        c.push("cmd"@)
    } else {
        c
    };
    if m.function {
        d.push("fn"@)
    } else {
        d
    }
}

/// The combination text of held modifiers and a key: `ctrl+shift+k`.
pub open spec fn combo_text(m: Modifiers, key: Seq<char>) -> Seq<char> {
    join_seqs(modifier_names(m).push(key), "+"@)
}

/// The normalised combination of a key press, if its key is not a modifier.
pub open spec fn keystroke_combo(k: Keystroke) -> Option<Seq<char>> {
    match key_name(k.key@) {
        Some(key) => Some(combo_text(k.modifiers, key)),
        None => None,
    }
}

/// One (trimmed, lowercase, non-empty) part of a combination applied to what was read so far:
/// a modifier name sets that modifier, anything else replaces the key.
pub open spec fn combo_step(st: (Modifiers, Option<Seq<char>>), part: Seq<char>) -> (Modifiers, Option<Seq<char>>) {
    let m = st.0;
    if part == "ctrl"@ || part == "control"@ {
        (Modifiers { control: true, alt: m.alt, shift: m.shift, platform: m.platform, function: m.function }, st.1)
    } else if part == "alt"@ {
        (Modifiers { control: m.control, alt: true, shift: m.shift, platform: m.platform, function: m.function }, st.1)
    } else if part == "shift"@ {
        (Modifiers { control: m.control, alt: m.alt, shift: true, platform: m.platform, function: m.function }, st.1)
    } else if part == "cmd"@ || part == "command"@ || part == "meta"@ || part == "platform"@ || part == "super"@ {
        (Modifiers { control: m.control, alt: m.alt, shift: m.shift, platform: true, function: m.function }, st.1)
    } else if part == "fn"@ || part == "function"@ {
        (Modifiers { control: m.control, alt: m.alt, shift: m.shift, platform: m.platform, function: true }, st.1)
    } else {
        (m, key_name(part))
    }
}

/// The modifiers and key read from the `+`-separated parts of a combination, each trimmed and
/// lowercased, empty ones skipped.
pub open spec fn combo_fold(parts: Seq<Seq<char>>) -> (Modifiers, Option<Seq<char>>)
    decreases parts.len(),
{
    if parts.len() == 0 {
        (no_modifiers(), None)
    } else if ascii_lower_seq(trim(parts.last())).len() == 0 {
        combo_fold(parts.drop_last())
    } else {
        combo_step(combo_fold(parts.drop_last()), ascii_lower_seq(trim(parts.last())))
    }
}

/// The normalised form of a combination typed by the user, if it names a key.
pub open spec fn combo_of(value: Seq<char>) -> Option<Seq<char>> {
    match combo_fold(split_all(value, '+')).1 {
        Some(key) => Some(combo_text(combo_fold(split_all(value, '+')).0, key)),
        None => None,
    }
}

/// The label shown for one part of a stored combination.
pub open spec fn display_part(p: Seq<char>) -> Seq<char> {
    if p == "ctrl"@ {
        "Ctrl"@
    } else if p == "alt"@ {
        "Alt"@
    } else if p == "shift"@ {
        "Shift"@
    } else if p == "cmd"@ {
        "Cmd"@
    } else if p == "fn"@ {
        "Fn"@
    } else if p == "arrowleft"@ {
        "Left"@
    } else if p == "arrowright"@ {
        "Right"@
    } else if p == "arrowup"@ {
        "Up"@
    } else if p == "arrowdown"@ {
        "Down"@
    } else if p == "pageup"@ {
        "PageUp"@
    } else if p == "pagedown"@ {
        "PageDown"@
    } else if p == "escape"@ {
        "Esc"@
    } else {
        seq![ascii_upper(p[0])] + p.drop_first()
    }
}

/// The labels of the non-empty parts.
pub open spec fn display_parts(ps: Seq<Seq<char>>) -> Seq<Seq<char>>
    decreases ps.len(),
{
    if ps.len() == 0 {
        Seq::empty()
    } else if ps.last().len() == 0 {
        display_parts(ps.drop_last())
    } else {
        display_parts(ps.drop_last()).push(display_part(ps.last()))
    }
}

/// The key name that the UI toolkit uses for one part of a stored combination.
pub open spec fn binding_part(p: Seq<char>) -> Seq<char> {
    if p == "arrowleft"@ {
        "left"@
    } else if p == "arrowright"@ {
        "right"@
    } else if p == "arrowup"@ {
        "up"@
    } else if p == "arrowdown"@ {
        "down"@
    } else {
        p
    }
}

/// The toolkit names of the non-empty parts.
pub open spec fn binding_parts(ps: Seq<Seq<char>>) -> Seq<Seq<char>>
    decreases ps.len(),
{
    if ps.len() == 0 {
        Seq::empty()
    } else if ps.last().len() == 0 {
        binding_parts(ps.drop_last())
    } else {
        binding_parts(ps.drop_last()).push(binding_part(ps.last()))
    }
}

/// The stored combination of an action.
pub open spec fn hotkey_of(settings: HotkeySettings, action: HotkeyAction) -> Seq<char> {
    match action {
        HotkeyAction::NewTab => settings.new_tab@,
        HotkeyAction::NextTab => settings.next_tab@,
        HotkeyAction::PrevTab => settings.prev_tab@,
        HotkeyAction::TabSelector => settings.tab_selector@,
    }
}

/// The settings with the combination of `action` replaced by `value`.
pub open spec fn with_hotkey(settings: HotkeySettings, action: HotkeyAction, value: String) -> HotkeySettings {
    match action {
        HotkeyAction::NewTab => HotkeySettings { new_tab: value, ..settings },
        HotkeyAction::NextTab => HotkeySettings { next_tab: value, ..settings },
        HotkeyAction::PrevTab => HotkeySettings { prev_tab: value, ..settings },
        HotkeyAction::TabSelector => HotkeySettings { tab_selector: value, ..settings },
    }
}

/// Tracks which action, if any, is waiting for a key press to bind.
#[derive(Debug, Clone, PartialEq, Eq)]
pub struct HotkeyManager {
    recording_action: Option<HotkeyAction>,
}

impl View for HotkeyManager {
    type V = Option<HotkeyAction>;

    closed spec fn view(&self) -> Option<HotkeyAction> {
        self.recording_action
    }
}

/// What a key press does while `recording` is the action being recorded: the binding it
/// yields, if any, and the action still being recorded afterwards.
pub open spec fn record_outcome(recording: Option<HotkeyAction>, k: Keystroke) -> (
    Option<(HotkeyAction, Seq<char>)>,
    Option<HotkeyAction>,
) {
    match recording {
        None => (None, None),
        Some(action) => if ascii_lower_seq(k.key@) == "escape"@ {
            (None, None)
        } else {
            match keystroke_combo(k) {
                Some(combo) => (Some((action, combo)), None),
                None => (None, recording),
            }
        },
    }
}

impl Default for HotkeyManager {
    fn default() -> (r: Self)
        ensures
            r@ is None,
    {
        HotkeyManager::new()
    }
}

impl HotkeyManager {
    /// A manager that records nothing.
    pub fn new() -> (r: Self)
        ensures
            r@ is None,
    {
        HotkeyManager { recording_action: None }
    }

    /// Starts waiting for a key press to bind to `action`.
    pub fn start_recording(&mut self, action: HotkeyAction)
        ensures
            final(self)@ == Some(action),
    {
        self.recording_action = Some(action);
    }

    /// Stops recording.
    pub fn cancel_recording(&mut self)
        ensures
            final(self)@ is None,
    {
        self.recording_action = None;
    }

    /// The action being recorded, if any.
    pub fn recording_action(&self) -> (r: Option<HotkeyAction>)
        ensures
            r == self@,
    {
        self.recording_action
    }

    /// Whether `action` is the one being recorded.
    pub fn is_recording(&self, action: HotkeyAction) -> (r: bool)
        ensures
            r == (self@ == Some(action)),
    {
        match self.recording_action {
            Some(a) => a == action,
            None => false,
        }
    }

    /// Feeds a key press to the recorder: Escape cancels, a press of a bare modifier keeps
    /// waiting, and any other key ends the recording with the normalised combination.
    pub fn record_keystroke(&mut self, keystroke: &Keystroke) -> (r: Option<(HotkeyAction, String)>)
        ensures
            match r {
                Some(p) => record_outcome(old(self)@, *keystroke).0 == Some((p.0, p.1@)),
                None => record_outcome(old(self)@, *keystroke).0 is None,
            },
            final(self)@ == record_outcome(old(self)@, *keystroke).1,
    {
        let action = match self.recording_action {
            Some(a) => a,
            None => return None,
        };
        let lower = to_ascii_lowercase(keystroke.key.as_str());
        if str_eq(lower.as_str(), "escape") {
            self.cancel_recording();
            return None;
        }
        match normalize_keystroke(keystroke) {
            Some(normalized) => {
                self.cancel_recording();
                Some((action, normalized))
            },
            None => None,
        }
    }
}

/// The stored combination of an action.
pub fn hotkey_for_action(settings: &HotkeySettings, action: HotkeyAction) -> (r: &str)
    ensures
        r@ == hotkey_of(*settings, action),
{
    match action {
        HotkeyAction::NewTab => settings.new_tab.as_str(),
        HotkeyAction::NextTab => settings.next_tab.as_str(),
        HotkeyAction::PrevTab => settings.prev_tab.as_str(),
        HotkeyAction::TabSelector => settings.tab_selector.as_str(),
    }
}

/// Replaces the combination of `action`, leaving the others as they are.
pub fn set_hotkey_for_action(settings: &mut HotkeySettings, action: HotkeyAction, value: String)
    ensures
        *final(settings) == with_hotkey(*old(settings), action, value),
{
    match action {
        HotkeyAction::NewTab => settings.new_tab = value,
        HotkeyAction::NextTab => settings.next_tab = value,
        HotkeyAction::PrevTab => settings.prev_tab = value,
        HotkeyAction::TabSelector => settings.tab_selector = value,
    }
}

fn is_modifier_name_exec(k: &str) -> (r: bool)
    ensures
        r == is_modifier_name(k@),
{
    str_eq(k, "control") || str_eq(k, "ctrl") || str_eq(k, "shift") || str_eq(k, "alt") || str_eq(k, "meta")
        || str_eq(k, "super") || str_eq(k, "cmd") || str_eq(k, "command") || str_eq(k, "platform") || str_eq(
        k,
        "function",
    ) || str_eq(k, "fn")
}

fn key_alias_exec(k: &str) -> (r: String)
    ensures
        r@ == key_alias(k@),
{
    if str_eq(k, "left") {
        owned("arrowleft")
    } else if str_eq(k, "right") {
        owned("arrowright")
    } else if str_eq(k, "up") {
        owned("arrowup")
    } else if str_eq(k, "down") {
        owned("arrowdown")
    } else if str_eq(k, "esc") {
        owned("escape")
    } else if str_eq(k, "return") {
        owned("enter")
    } else {
        owned(k)
    }
}

/// The normalised name of a key, or `None` for an empty name or a modifier.
pub fn normalize_key_name(key: &str) -> (r: Option<String>)
    ensures
        opt_chars(r) == key_name(key@),
{
    let t = trimmed(key);
    let lower = to_ascii_lowercase(t.as_str());
    let k = lower.as_str();
    if k.is_empty() || is_modifier_name_exec(k) {
        return None;
    }
    Some(key_alias_exec(k))
}

/// The names of the held modifiers.
fn modifier_parts(m: Modifiers) -> (r: Vec<String>)
    ensures
        strings_view(r@) == modifier_names(m),
{
    let mut r: Vec<String> = Vec::new();
    if m.control {
        r.push(owned("ctrl"));
    }
    if m.alt {
        r.push(owned("alt"));
    }
    if m.shift {
        r.push(owned("shift"));
    }
    if m.platform {
        r.push(owned("cmd"));
    }
    if m.function {
        r.push(owned("fn"));
    }
    assert(strings_view(r@) =~= modifier_names(m));
    r
}

/// `ctrl+...+key` for the held modifiers and a key.
fn combo_string(m: Modifiers, key: String) -> (r: String)
    ensures
        r@ == combo_text(m, key@),
{
    let mut parts = modifier_parts(m);
    let ghost before = parts@;
    parts.push(key);
    assert(strings_view(parts@) =~= strings_view(before).push(key@));
    join_strings(&parts, "+")
}

/// The normalised combination of a key press (`ctrl+shift+k`), or `None` when its key is a
/// modifier or empty.
pub fn normalize_keystroke(keystroke: &Keystroke) -> (r: Option<String>)
    ensures
        opt_chars(r) == keystroke_combo(*keystroke),
{
    match normalize_key_name(keystroke.key.as_str()) {
        Some(key) => Some(combo_string(keystroke.modifiers, key)),
        None => None,
    }
}

/// The normalised form of a combination typed by the user (`Control + K` gives `ctrl+k`),
/// or `None` when it names no key.
pub fn normalize_hotkey_combo(value: &str) -> (r: Option<String>)
    ensures
        opt_chars(r) == combo_of(value@),
{
    let v = chars_of(value);
    let rs = split_ranges(&v, 0, v.len(), '+');
    let ghost pieces = pieces_of(v@, rs@);
    proof {
        assert(v@.subrange(0, v@.len() as int) =~= v@);
    }
    let mut m = Modifiers::none();
    let mut key: Option<String> = None;
    let mut k: usize = 0;
    while k < rs.len()
        invariant
            k <= rs@.len(),
            pieces == pieces_of(v@, rs@),
            forall|j: int| 0 <= j < rs@.len() ==> (#[trigger] rs@[j]).0 <= rs@[j].1 <= v@.len(),
            combo_fold(pieces.take(k as int)) == (m, opt_chars(key)),
        decreases rs@.len() - k,
    {
        let (lo, hi) = rs[k];
        let piece = string_from_range(&v, lo, hi);
        let t = trimmed(piece.as_str());
        let part = to_ascii_lowercase(t.as_str());
        let p = part.as_str();
        proof {
            assert(pieces.take(k + 1).drop_last() =~= pieces.take(k as int));
            assert(pieces.take(k + 1).last() == piece@);
        }
        if !p.is_empty() {
            if str_eq(p, "ctrl") || str_eq(p, "control") {
                m.control = true;
            } else if str_eq(p, "alt") {
                m.alt = true;
            } else if str_eq(p, "shift") {
                m.shift = true;
            } else if str_eq(p, "cmd") || str_eq(p, "command") || str_eq(p, "meta") || str_eq(p, "platform")
                || str_eq(p, "super") {
                m.platform = true;
            } else if str_eq(p, "fn") || str_eq(p, "function") {
                m.function = true;
            } else {
                key = normalize_key_name(p);
            }
        }
        k = k + 1;
    }
    proof {
        assert(pieces.take(rs@.len() as int) =~= pieces);
    }
    match key {
        Some(kk) => Some(combo_string(m, kk)),
        None => None,
    }
}

/// Whether a key press is the combination `combo` (both normalised).
pub fn matches_hotkey(keystroke: &Keystroke, combo: &str) -> (r: bool)
    ensures
        r == (keystroke_combo(*keystroke) is Some && keystroke_combo(*keystroke) == combo_of(combo@)),
{
    match (normalize_keystroke(keystroke), normalize_hotkey_combo(combo)) {
        (Some(actual), Some(expected)) => str_eq(actual.as_str(), expected.as_str()),
        _ => false,
    }
}

fn display_part_exec(p: &str) -> (r: String)
    requires
        p@.len() > 0,
    ensures
        r@ == display_part(p@),
{
    if str_eq(p, "ctrl") {
        owned("Ctrl")
    } else if str_eq(p, "alt") {
        owned("Alt")
    } else if str_eq(p, "shift") {
        owned("Shift")
    } else if str_eq(p, "cmd") {
        owned("Cmd")
    } else if str_eq(p, "fn") {
        owned("Fn")
    } else if str_eq(p, "arrowleft") {
        owned("Left")
    } else if str_eq(p, "arrowright") {
        owned("Right")
    } else if str_eq(p, "arrowup") {
        owned("Up")
    } else if str_eq(p, "arrowdown") {
        owned("Down")
    } else if str_eq(p, "pageup") {
        owned("PageUp")
    } else if str_eq(p, "pagedown") {
        owned("PageDown")
    } else if str_eq(p, "escape") {
        owned("Esc")
    } else {
        let v = chars_of(p);
        let mut r = String::new();
        let first = to_ascii_upper_char(v[0]);
        push_char(&mut r, first);
        let rest = string_from_range(&v, 1, v.len());
        push_str(&mut r, rest.as_str());
        proof {
            assert(r@ =~= seq![ascii_upper(p@[0])] + p@.drop_first());
        }
        r
    }
}

/// The label of a stored combination for display: `ctrl+shift+k` gives `Ctrl+Shift+K`.
pub fn format_hotkey_display(value: &str) -> (r: String)
    ensures
        r@ == join_seqs(display_parts(split_all(value@, '+')), "+"@),
{
    let v = chars_of(value);
    let rs = split_ranges(&v, 0, v.len(), '+');
    let ghost pieces = pieces_of(v@, rs@);
    proof {
        assert(v@.subrange(0, v@.len() as int) =~= v@);
    }
    let mut out: Vec<String> = Vec::new();
    let mut k: usize = 0;
    while k < rs.len()
        invariant
            k <= rs@.len(),
            pieces == pieces_of(v@, rs@),
            forall|j: int| 0 <= j < rs@.len() ==> (#[trigger] rs@[j]).0 <= rs@[j].1 <= v@.len(),
            strings_view(out@) == display_parts(pieces.take(k as int)),
        decreases rs@.len() - k,
    {
        let (lo, hi) = rs[k];
        let piece = string_from_range(&v, lo, hi);
        proof {
            assert(pieces.take(k + 1).drop_last() =~= pieces.take(k as int));
            assert(pieces.take(k + 1).last() == piece@);
        }
        if !piece.as_str().is_empty() {
            let d = display_part_exec(piece.as_str());
            let ghost before = out@;
            out.push(d);
            assert(strings_view(out@) =~= strings_view(before).push(d@));
        }
        k = k + 1;
    }
    proof {
        assert(pieces.take(rs@.len() as int) =~= pieces);
    }
    join_strings(&out, "+")
}

fn binding_part_exec(p: &str) -> (r: String)
    ensures
        r@ == binding_part(p@),
{
    if str_eq(p, "arrowleft") {
        owned("left")
    } else if str_eq(p, "arrowright") {
        owned("right")
    } else if str_eq(p, "arrowup") {
        owned("up")
    } else if str_eq(p, "arrowdown") {
        owned("down")
    } else {
        owned(p)
    }
}

/// The key binding text of the UI toolkit for a stored combination (`alt+arrowleft` gives
/// `alt-left`), or `None` when it has no non-empty part.
pub fn to_gpui_binding(value: &str) -> (r: Option<String>)
    ensures
        opt_chars(r) == (if binding_parts(split_all(value@, '+')).len() == 0 {
            None
        } else {
            Some(join_seqs(binding_parts(split_all(value@, '+')), "-"@))
        }),
{
    let v = chars_of(value);
    let rs = split_ranges(&v, 0, v.len(), '+');
    let ghost pieces = pieces_of(v@, rs@);
    proof {
        assert(v@.subrange(0, v@.len() as int) =~= v@);
    }
    let mut out: Vec<String> = Vec::new();
    let mut k: usize = 0;
    while k < rs.len()
        invariant
            k <= rs@.len(),
            pieces == pieces_of(v@, rs@),
            forall|j: int| 0 <= j < rs@.len() ==> (#[trigger] rs@[j]).0 <= rs@[j].1 <= v@.len(),
            strings_view(out@) == binding_parts(pieces.take(k as int)),
        decreases rs@.len() - k,
    {
        let (lo, hi) = rs[k];
        let piece = string_from_range(&v, lo, hi);
        proof {
            assert(pieces.take(k + 1).drop_last() =~= pieces.take(k as int));
            assert(pieces.take(k + 1).last() == piece@);
        }
        if !piece.as_str().is_empty() {
            let d = binding_part_exec(piece.as_str());
            let ghost before = out@;
            out.push(d);
            assert(strings_view(out@) =~= strings_view(before).push(d@));
        }
        k = k + 1;
    }
    proof {
        assert(pieces.take(rs@.len() as int) =~= pieces);
    }
    if out.len() == 0 {
        None
    } else {
        Some(join_strings(&out, "-"))
    }
}

} // verus!
