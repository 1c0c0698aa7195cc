//! The hotkey that saves a clip.

use vstd::prelude::*;

use crate::encoder_options::opt_str;
use crate::settings::{setting, setting_str, TextMap};
use crate::text::{
    ascii_upper, ascii_uppered, cat, cat3, parse_u64, parse_unsigned, same, strip_prefix, trim,
    trimmed, without_prefix,
};

verus! {

broadcast use vstd::string::group_string_axioms;

/// Hotkey where none is stored, and where the stored one is taken by another program.
pub const DEFAULT_HOTKEY: &'static str = "F9";

/// Least time between two presses that count, which keeps key repeat out.
pub const HOTKEY_DEBOUNCE_MS: u128 = 400;

// ---------------------------------------------------------------------------
// Shortcuts
// ---------------------------------------------------------------------------
/// A shortcut that was read.
pub struct Shortcut {
    /// It has no modifier.
    pub bare: bool,
    /// The name of its key.
    pub key: String,
    /// The whole shortcut in its one canonical spelling.
    pub canonical: String,
}

/// What a shortcut that was read stands for.
pub struct ShortcutModel {
    pub bare: bool,
    pub key: Seq<char>,
    pub canonical: Seq<char>,
}

impl View for Shortcut {
    type V = ShortcutModel;

    open spec fn view(&self) -> ShortcutModel {
        ShortcutModel { bare: self.bare, key: self.key@, canonical: self.canonical@ }
    }
}

/// What comes of reading a text as a shortcut.
pub enum ShortcutRead {
    Shortcut(ShortcutModel),
    /// The description of what is wrong with the text.
    Failure(Seq<char>),
}

/// What `HotKey::from_str` of `global_hotkey` reads out of a text, on Linux and Windows.
pub uninterp spec fn shortcut_parse(text: Seq<char>) -> ShortcutRead;

/// `HotKey::from_str` of `global_hotkey`: the shortcut that a text names, with
/// whether it is without modifiers, the name of its key and its canonical
/// spelling, or the error's own description.
#[verifier::external_body]
fn read_shortcut(text: &str) -> (r: Result<Shortcut, String>)
    ensures
        match r {
            Ok(s) => shortcut_parse(text@) == ShortcutRead::Shortcut(s@),
            Err(e) => shortcut_parse(text@) == ShortcutRead::Failure(e@),
        },
{
    match text.parse::<global_hotkey::hotkey::HotKey>() {
        Ok(h) => Ok(Shortcut {
            bare: h.mods.is_empty(),
            key: h.key.to_string(),
            canonical: h.into_string(),
        }),
        Err(e) => Err(e.to_string()),
    }
}

/// A key that may be used alone: F1 to F12, Print Screen and Pause. A letter
/// would be taken from every other program.
pub open spec fn works_alone(key: Seq<char>) -> bool {
    let k = ascii_upper(key);
    let number = match strip_prefix(k, "F"@) {
        Some(rest) => parse_unsigned(rest, 255),
        None => None,
    };
    match number {
        Some(n) => 1 <= n <= 12,
        None => k == "PRINTSCREEN"@ || k == "PAUSE"@,
    }
}

/// Whether a key may be used alone.
pub fn is_allowed_single_key(key: &str) -> (r: bool)
    ensures
        r == works_alone(key@),
{
    let k = ascii_uppered(key);
    let number: Option<u64> = match without_prefix(k.as_str(), "F") {
        Some(rest) => parse_u64(rest.as_str(), 255),
        None => None,
    };
    match number {
        Some(n) => 1 <= n && n <= 12,
        None => same(k.as_str(), "PRINTSCREEN") || same(k.as_str(), "PAUSE"),
    }
}

/// The canonical spelling of a shortcut, or what is wrong with it. `text` is
/// the shortcut as it was given, without white space around it.
pub open spec fn accepted_shortcut(text: Seq<char>, read: ShortcutRead) -> Result<
    Seq<char>,
    Seq<char>,
> {
    if text.len() == 0 {
        Err("empty shortcut"@)
    } else {
        match read {
            ShortcutRead::Failure(e) => Err(e),
            ShortcutRead::Shortcut(s) => if s.bare && !works_alone(s.key) {
                Err(
                    text
                        + ": needs a modifier (Ctrl/Alt/Shift/Super) — only function keys can be used alone"@,
                )
            } else {
                Ok(s.canonical)
            },
        }
    }
}

/// What the outcome of reading a shortcut stands for.
pub open spec fn text_outcome(r: Result<String, String>) -> Result<Seq<char>, Seq<char>> {
    match r {
        Ok(s) => Ok(s@),
        Err(e) => Err(e@),
    }
}

/// Takes a shortcut that was read, or says what is wrong with it.
pub fn accept_shortcut(text: &str, s: Shortcut) -> (r: Result<String, String>)
    requires
        text@.len() > 0,
    ensures
        text_outcome(r) == accepted_shortcut(text@, ShortcutRead::Shortcut(s@)),
{
    if s.bare && !is_allowed_single_key(s.key.as_str()) {
        Err(
            cat(
                text,
                ": needs a modifier (Ctrl/Alt/Shift/Super) — only function keys can be used alone",
            ),
        )
    } else {
        Ok(s.canonical)
    }
}

/// Canonical spelling of a shortcut.
pub fn normalize_hotkey(input: &str) -> (r: Result<String, String>)
    ensures
        text_outcome(r) == accepted_shortcut(trim(input@), shortcut_parse(trim(input@))),
{
    let t = trimmed(input);
    if t.as_str().is_empty() {
        return Err("empty shortcut".to_owned());
    }
    match read_shortcut(t.as_str()) {
        Ok(s) => accept_shortcut(t.as_str(), s),
        Err(e) => Err(e),
    }
}

/// The stored hotkey, or the default.
pub open spec fn hotkey_of(settings: Map<Seq<char>, Seq<char>>) -> Seq<char> {
    setting(settings, "hotkey"@, DEFAULT_HOTKEY@)
}

/// The stored hotkey, or the default.
pub fn stored_hotkey(settings: &TextMap) -> (r: String)
    ensures
        r@ == hotkey_of(settings@),
{
    setting_str(settings, "hotkey", DEFAULT_HOTKEY)
}

/// A shortcut without a modifier is only accepted where its key works alone.
pub proof fn law_no_bare_letter_is_accepted(text: Seq<char>, s: ShortcutModel)
    requires
        text.len() > 0,
        s.bare,
    ensures
        accepted_shortcut(text, ShortcutRead::Shortcut(s)) is Ok <==> works_alone(s.key),
{
}

// ---------------------------------------------------------------------------
// Changing the hotkey
// ---------------------------------------------------------------------------
/// What is to be done for a new hotkey.
#[derive(Debug, Clone, Copy, PartialEq, Eq, Structural)]
pub enum HotkeyStep {
    /// It is in use already.
    Unchanged,
    /// Release the previous one and register the new one.
    Rebind,
}

/// What is to be done for a new hotkey: nothing where it is the stored one and
/// is registered.
pub open spec fn hotkey_step_of(
    canonical: Seq<char>,
    previous: Seq<char>,
    registered: bool,
) -> HotkeyStep {
    if canonical == previous && registered {
        HotkeyStep::Unchanged
    } else {
        HotkeyStep::Rebind
    }
}

/// What is to be done for a new hotkey: nothing where it is the stored one and
/// is registered.
pub fn hotkey_step(canonical: &str, previous: &str, registered: bool) -> (r: HotkeyStep)
    ensures
        r == hotkey_step_of(canonical@, previous@, registered),
{
    if same(canonical, previous) && registered {
        HotkeyStep::Unchanged
    } else {
        HotkeyStep::Rebind
    }
}

/// How a change of the hotkey ends.
pub enum HotkeyEnd {
    /// Store the new one.
    Store(String),
    /// Register the previous one again, and fail.
    Restore { previous: String, message: String },
}

/// What the end of a change stands for.
pub enum EndModel {
    Store(Seq<char>),
    /// The hotkey that is registered again, and the message.
    Restore(Seq<char>, Seq<char>),
}

impl View for HotkeyEnd {
    type V = EndModel;

    open spec fn view(&self) -> EndModel {
        match *self {
            HotkeyEnd::Store(s) => EndModel::Store(s@),
            HotkeyEnd::Restore { previous, message } => EndModel::Restore(previous@, message@),
        }
    }
}

/// How a change of the hotkey ends.
pub open spec fn hotkey_end_of(
    canonical: Seq<char>,
    previous: Seq<char>,
    error: Option<Seq<char>>,
) -> EndModel {
    match error {
        None => EndModel::Store(canonical),
        Some(e) => EndModel::Restore(previous, canonical + ": "@ + e),
    }
}

/// How a change of the hotkey ends, given the error of registering it, if
/// there was one. There is always a hotkey left.
pub fn hotkey_end(canonical: &str, previous: &str, error: Option<&str>) -> (r: HotkeyEnd)
    ensures
        r@ == hotkey_end_of(canonical@, previous@, opt_str(error)),
{
    match error {
        None => HotkeyEnd::Store(canonical.to_owned()),
        Some(e) => HotkeyEnd::Restore {
            previous: previous.to_owned(),
            message: cat3(canonical, ": ", e),
        },
    }
}

// ---------------------------------------------------------------------------
// Pressing the hotkey
// ---------------------------------------------------------------------------
/// When the hotkey last counted.
#[derive(Debug, Clone, Copy)]
pub struct HotkeyState {
    pub last_emit_ms: Option<u128>,
}

/// A press at `now` counts: none has, or enough time has passed since.
pub open spec fn press_counts(last: Option<u128>, now: u128) -> bool {
    match last {
        None => true,
        Some(t) => now >= t && now - t >= HOTKEY_DEBOUNCE_MS,
    }
}

/// When the hotkey last counted, after a press.
pub open spec fn last_press(last: Option<u128>, now: u128) -> Option<u128> {
    if press_counts(last, now) {
        Some(now)
    } else {
        last
    }
}

impl Default for HotkeyState {
    fn default() -> (r: Self)
        ensures
            r.last_emit_ms is None,
    {
        HotkeyState { last_emit_ms: None }
    }
}

impl HotkeyState {
    /// Whether a press counts. One that does is remembered.
    pub fn press(&mut self, now: u128) -> (r: bool)
        ensures
            r == press_counts(old(self).last_emit_ms, now),
            final(self).last_emit_ms == last_press(old(self).last_emit_ms, now),
    {
        let counts = match self.last_emit_ms {
            None => true,
            Some(t) => now >= t && now - t >= HOTKEY_DEBOUNCE_MS,
        };
        if counts {
            self.last_emit_ms = Some(now);
        }
        counts
    }
}

} // verus!
