//! Keyboard input for terminal panes.
//!
//! A keystroke arrives as its parts: the key's name, the text it would type
//! (if any) and the modifier flags. Some keystrokes belong to the application
//! (workspace shortcuts, clipboard shortcuts, pane and column shortcuts); the
//! rest become a `LiveTerminalKeyInput` for the terminal.

use vstd::prelude::*;
use crate::text::{
    is_ascii_upper, lower_char, lower, is_control, str_chars, chars_to_lower, char_to_lower,
    char_is_control, string_from_chars, opt_view, opt_str_view, is_word,
};
use crate::num::{dec, u64_dec};
use crate::text::concat;

verus! {

/// A key as the terminal encoder sees it.
#[derive(Clone, Copy, Debug, PartialEq, Eq, Structural)]
pub enum LiveTerminalKey {
    Character(char),
    Space,
    Enter,
    Backspace,
    Delete,
    Tab,
    Escape,
    ArrowLeft,
    ArrowRight,
    ArrowUp,
    ArrowDown,
    Home,
    End,
    PageUp,
    PageDown,
    Insert,
    F(u8),
}

#[derive(Clone, Copy, Debug, PartialEq, Eq, Structural)]
pub struct LiveTerminalModifiers {
    pub shift: bool,
    pub alt: bool,
    pub control: bool,
    pub platform: bool,
}

/// One keystroke for a terminal: the key, the text it types (if any), the
/// modifiers, and the key's unshifted character (`'\0'` for none).
#[derive(Clone, Debug, PartialEq, Eq)]
pub struct LiveTerminalKeyInput {
    pub key: LiveTerminalKey,
    pub text: Option<String>,
    pub modifiers: LiveTerminalModifiers,
    pub unshifted: char,
}

/// What an input is, with its text taken by its view.
pub type KeyInputModel = (LiveTerminalKey, Option<Seq<char>>, LiveTerminalModifiers, char);

impl LiveTerminalKeyInput {
    pub open spec fn model(&self) -> KeyInputModel {
        (self.key, opt_view(self.text), self.modifiers, self.unshifted)
    }
}

pub open spec fn opt_model(r: Option<LiveTerminalKeyInput>) -> Option<KeyInputModel> {
    match r {
        Some(i) => Some(i.model()),
        None => None,
    }
}

/// Keystrokes that copy, cut or paste through the application's clipboard.
#[derive(Clone, Copy, Debug, PartialEq, Eq, Structural)]
pub enum ClipboardShortcutAction {
    Copy,
    Cut,
    Paste,
}

/// The keys that a rename dialog answers itself.
#[derive(Clone, Copy, Debug, PartialEq, Eq, Structural)]
pub enum SidebarRenameDialogKeyAction {
    Confirm,
    Cancel,
}

pub open spec fn mods(shift: bool, alt: bool, control: bool, platform: bool) -> LiveTerminalModifiers {
    LiveTerminalModifiers { shift, alt, control, platform }
}

// ---------------------------------------------------------------------------
// Characters
// ---------------------------------------------------------------------------

/// The character on the same key without shift, on a US layout.
pub open spec fn unshifted(c: char) -> char {
    if is_ascii_upper(c) {
        lower_char(c)
    } else if c == ')' {
        '0'
    } else if c == '!' {
        '1'
    } else if c == '@' {
        '2'
    } else if c == '#' {
        '3'
    } else if c == '$' {
        '4'
    } else if c == '%' {
        '5'
    } else if c == '^' {
        '6'
    } else if c == '&' {
        '7'
    } else if c == '*' {
        '8'
    } else if c == '(' {
        '9'
    } else if c == '_' {
        '-'
    } else if c == '+' {
        '='
    } else if c == '{' {
        '['
    } else if c == '}' {
        ']'
    } else if c == '|' {
        '\\'
    } else if c == ':' {
        ';'
    } else if c == '"' {
        '\''
    } else if c == '<' {
        ','
    } else if c == '>' {
        '.'
    } else if c == '?' {
        '/'
    } else if c == '~' {
        '`'
    } else {
        c
    }
}

pub fn unshifted_character(character: char) -> (r: char)
    ensures
        r == unshifted(character),
{
    if 'A' <= character && character <= 'Z' {
        char_to_lower(character)
    } else if character == ')' {
        '0'
    } else if character == '!' {
        '1'
    } else if character == '@' {
        '2'
    } else if character == '#' {
        '3'
    } else if character == '$' {
        '4'
    } else if character == '%' {
        '5'
    } else if character == '^' {
        '6'
    } else if character == '&' {
        '7'
    } else if character == '*' {
        '8'
    } else if character == '(' {
        '9'
    } else if character == '_' {
        '-'
    } else if character == '+' {
        '='
    } else if character == '{' {
        '['
    } else if character == '}' {
        ']'
    } else if character == '|' {
        '\\'
    } else if character == ':' {
        ';'
    } else if character == '"' {
        '\''
    } else if character == '<' {
        ','
    } else if character == '>' {
        '.'
    } else if character == '?' {
        '/'
    } else if character == '~' {
        '`'
    } else {
        character
    }
}

// ---------------------------------------------------------------------------
// Workspace shortcuts: control-shift and a digit row key
// ---------------------------------------------------------------------------

/// The workspace that a digit-row character opens: `1`..`9` then `0`, typed
/// with or without shift.
pub open spec fn shortcut_char_index(c: char) -> Option<usize> {
    if c == '1' || c == '!' {
        Some(0)
    } else if c == '2' || c == '@' {
        Some(1)
    } else if c == '3' || c == '#' {
        Some(2)
    } else if c == '4' || c == '$' {
        Some(3)
    } else if c == '5' || c == '%' {
        Some(4)
    } else if c == '6' || c == '^' {
        Some(5)
    } else if c == '7' || c == '&' {
        Some(6)
    } else if c == '8' || c == '*' {
        Some(7)
    } else if c == '9' || c == '(' {
        Some(8)
    } else if c == '0' || c == ')' {
        Some(9)
    } else {
        None
    }
}

pub open spec fn shortcut_token_index(token: Seq<char>) -> Option<usize> {
    if token.len() == 1 {
        shortcut_char_index(token[0])
    } else {
        None
    }
}

/// Control-shift and a digit-row key, by the key's name or else by its text.
pub open spec fn shortcut_index(
    key: Seq<char>,
    key_char: Option<Seq<char>>,
    control: bool,
    alt: bool,
    shift: bool,
    platform: bool,
    function: bool,
) -> Option<usize> {
    if !control || !shift || alt || platform || function {
        None
    } else {
        match shortcut_token_index(key) {
            Some(i) => Some(i),
            None => match key_char {
                Some(k) => shortcut_token_index(k),
                None => None,
            },
        }
    }
}

fn shortcut_char_index_exec(c: char) -> (r: Option<usize>)
    ensures
        r == shortcut_char_index(c),
{
    if c == '1' || c == '!' {
        Some(0)
    } else if c == '2' || c == '@' {
        Some(1)
    } else if c == '3' || c == '#' {
        Some(2)
    } else if c == '4' || c == '$' {
        Some(3)
    } else if c == '5' || c == '%' {
        Some(4)
    } else if c == '6' || c == '^' {
        Some(5)
    } else if c == '7' || c == '&' {
        Some(6)
    } else if c == '8' || c == '*' {
        Some(7)
    } else if c == '9' || c == '(' {
        Some(8)
    } else if c == '0' || c == ')' {
        Some(9)
    } else {
        None
    }
}

pub fn workspace_shortcut_index_from_token(token: &str) -> (r: Option<usize>)
    ensures
        r == shortcut_token_index(token@),
{
    let t = str_chars(token);
    if t.len() != 1 {
        return None;
    }
    shortcut_char_index_exec(t[0])
}

pub fn workspace_shortcut_index_from_key_parts(
    key: &str,
    key_char: Option<&str>,
    control: bool,
    alt: bool,
    shift: bool,
    platform: bool,
    function: bool,
) -> (r: Option<usize>)
    ensures
        r == shortcut_index(key@, opt_str_view(key_char), control, alt, shift, platform, function),
{
    if !control || !shift || alt || platform || function {
        return None;
    }
    match workspace_shortcut_index_from_token(key) {
        Some(i) => Some(i),
        None => match key_char {
            Some(k) => workspace_shortcut_index_from_token(k),
            None => None,
        },
    }
}

// ---------------------------------------------------------------------------
// Keys that stay with the application
// ---------------------------------------------------------------------------

/// Control-shift with these moves between panes or closes one.
pub open spec fn pane_action_word(k: Seq<char>) -> bool {
    ||| k == "left"@
    ||| k == "right"@
    ||| k == "up"@
    ||| k == "down"@
    ||| k == "arrowleft"@
    ||| k == "arrowright"@
    ||| k == "arrowup"@
    ||| k == "arrowdown"@
    ||| k == "w"@
}

/// Control-alt with these makes the focused column wider or slimmer.
pub open spec fn column_resize_word(k: Seq<char>) -> bool {
    ||| k == "left"@
    ||| k == "right"@
    ||| k == "arrowleft"@
    ||| k == "arrowright"@
}

fn pane_action_chars(k: &[char]) -> (r: bool)
    ensures
        r == pane_action_word(k@),
{
    is_word(k, "left") || is_word(k, "right") || is_word(k, "up") || is_word(k, "down")
        || is_word(k, "arrowleft") || is_word(k, "arrowright") || is_word(k, "arrowup")
        || is_word(k, "arrowdown") || is_word(k, "w")
}

fn column_resize_chars(k: &[char]) -> (r: bool)
    ensures
        r == column_resize_word(k@),
{
    is_word(k, "left") || is_word(k, "right") || is_word(k, "arrowleft") || is_word(
        k,
        "arrowright",
    )
}

pub fn is_pane_action_key(key: &str) -> (r: bool)
    ensures
        r == pane_action_word(lower(key@)),
{
    let k = chars_to_lower(str_chars(key).as_slice());
    pane_action_chars(k.as_slice())
}

pub fn is_column_resize_key(key: &str) -> (r: bool)
    ensures
        r == column_resize_word(lower(key@)),
{
    let k = chars_to_lower(str_chars(key).as_slice());
    column_resize_chars(k.as_slice())
}

/// The key name that clipboard shortcuts compare: lowercase, with a
/// `Key` prefix of a physical key code (`KeyC`) taken off.
pub open spec fn clipboard_key(key: Seq<char>) -> Seq<char> {
    let k = lower(key);
    if k.len() == 4 && k.take(3) == "key"@ {
        k.skip(3)
    } else {
        k
    }
}

pub open spec fn letter_action(k: Seq<char>, p_pastes: bool) -> Option<ClipboardShortcutAction> {
    if k == "c"@ {
        Some(ClipboardShortcutAction::Copy)
    } else if k == "x"@ {
        Some(ClipboardShortcutAction::Cut)
    } else if k == "v"@ || (p_pastes && k == "p"@) {
        Some(ClipboardShortcutAction::Paste)
    } else {
        None
    }
}

/// Platform-C/X/V/P, control-shift-C/X/V, control-insert (copy) and
/// shift-insert (paste).
pub open spec fn clipboard_action(
    key: Seq<char>,
    control: bool,
    alt: bool,
    shift: bool,
    platform: bool,
    function: bool,
) -> Option<ClipboardShortcutAction> {
    let k = clipboard_key(key);
    if function || alt {
        None
    } else if platform && !control {
        letter_action(k, true)
    } else if control && shift && !platform {
        letter_action(k, false)
    } else if !platform && k == "insert"@ {
        if control && !shift {
            Some(ClipboardShortcutAction::Copy)
        } else if shift && !control {
            Some(ClipboardShortcutAction::Paste)
        } else {
            None
        }
    } else {
        None
    }
}

fn clipboard_key_chars(key: &str) -> (r: Vec<char>)
    ensures
        r@ == clipboard_key(key@),
{
    let k = chars_to_lower(str_chars(key).as_slice());
    if k.len() == 4 && k[0] == 'k' && k[1] == 'e' && k[2] == 'y' {
        proof {
            reveal_strlit("key");
            assert(k@.take(3) =~= "key"@);
        }
        let mut r: Vec<char> = Vec::new();
        r.push(k[3]);
        proof {
            assert(r@ =~= k@.skip(3));
        }
        r
    } else {
        proof {
            reveal_strlit("key");
            if k@.len() == 4 && k@.take(3) == "key"@ {
                assert(k@.take(3)[0] == 'k' && k@.take(3)[1] == 'e' && k@.take(3)[2] == 'y');
            }
        }
        k
    }
}

fn letter_action_exec(k: &[char], p_pastes: bool) -> (r: Option<ClipboardShortcutAction>)
    ensures
        r == letter_action(k@, p_pastes),
{
    if is_word(k, "c") {
        Some(ClipboardShortcutAction::Copy)
    } else if is_word(k, "x") {
        Some(ClipboardShortcutAction::Cut)
    } else if is_word(k, "v") || (p_pastes && is_word(k, "p")) {
        Some(ClipboardShortcutAction::Paste)
    } else {
        None
    }
}

pub fn clipboard_shortcut_action_from_key_parts(
    key: &str,
    _key_char: Option<&str>,
    control: bool,
    alt: bool,
    shift: bool,
    platform: bool,
    function: bool,
) -> (r: Option<ClipboardShortcutAction>)
    ensures
        r == clipboard_action(key@, control, alt, shift, platform, function),
{
    let k = clipboard_key_chars(key);
    if function || alt {
        None
    } else if platform && !control {
        letter_action_exec(k.as_slice(), true)
    } else if control && shift && !platform {
        letter_action_exec(k.as_slice(), false)
    } else if !platform && is_word(k.as_slice(), "insert") {
        if control && !shift {
            Some(ClipboardShortcutAction::Copy)
        } else if shift && !control {
            Some(ClipboardShortcutAction::Paste)
        } else {
            None
        }
    } else {
        None
    }
}

/// Enter confirms a rename dialog and escape cancels it; every other key
/// goes to the dialog's text field.
pub open spec fn rename_dialog_action(key: Seq<char>) -> Option<SidebarRenameDialogKeyAction> {
    let k = lower(key);
    if k == "enter"@ || k == "return"@ {
        Some(SidebarRenameDialogKeyAction::Confirm)
    } else if k == "escape"@ {
        Some(SidebarRenameDialogKeyAction::Cancel)
    } else {
        None
    }
}

pub fn sidebar_rename_dialog_key_action(key: &str) -> (r: Option<SidebarRenameDialogKeyAction>)
    ensures
        r == rename_dialog_action(key@),
{
    let k = chars_to_lower(str_chars(key).as_slice());
    if is_word(k.as_slice(), "enter") || is_word(k.as_slice(), "return") {
        Some(SidebarRenameDialogKeyAction::Confirm)
    } else if is_word(k.as_slice(), "escape") {
        Some(SidebarRenameDialogKeyAction::Cancel)
    } else {
        None
    }
}

// ---------------------------------------------------------------------------
// Keys for the terminal
// ---------------------------------------------------------------------------

/// The text a keystroke types: what the platform reported, when no control
/// or platform modifier is held and it holds no control character.
pub open spec fn printable_text(key_char: Option<Seq<char>>, control: bool, platform: bool) -> Option<
    Seq<char>,
> {
    if control || platform {
        None
    } else {
        match key_char {
            Some(t) => if t.len() > 0 && (forall|i: int| 0 <= i < t.len() ==> !is_control(#[trigger] t[i])) {
                Some(t)
            } else {
                None
            },
            None => None,
        }
    }
}

/// The text of a key whose platform reported none: a space for the space
/// key, and an unshifted one-character key name as it is.
pub open spec fn synthesized_text(normalized_key: Seq<char>, control: bool, shift: bool, platform: bool) -> Option<
    Seq<char>,
> {
    if control || platform {
        None
    } else if normalized_key == "space"@ {
        Some(" "@)
    } else if !shift && normalized_key.len() == 1 {
        Some(normalized_key)
    } else {
        None
    }
}

/// `f1`..`f12`.
pub open spec fn function_key_number(k: Seq<char>) -> Option<u8> {
    if k.len() == 2 && k[0] == 'f' && '1' <= k[1] && k[1] <= '9' {
        Some((k[1] as u32 - '0' as u32) as u8)
    } else if k.len() == 3 && k[0] == 'f' && k[1] == '1' && '0' <= k[2] && k[2] <= '2' {
        Some((10 + k[2] as u32 - '0' as u32) as u8)
    } else {
        None
    }
}

/// The terminal key named by a lowercase key name; a one-character name is
/// that character, unshifted.
pub open spec fn named_key(k: Seq<char>) -> Option<LiveTerminalKey> {
    if k == "enter"@ || k == "return"@ {
        Some(LiveTerminalKey::Enter)
    } else if k == "backspace"@ {
        Some(LiveTerminalKey::Backspace)
    } else if k == "delete"@ {
        Some(LiveTerminalKey::Delete)
    } else if k == "tab"@ {
        Some(LiveTerminalKey::Tab)
    } else if k == "escape"@ {
        Some(LiveTerminalKey::Escape)
    } else if k == "left"@ {
        Some(LiveTerminalKey::ArrowLeft)
    } else if k == "right"@ {
        Some(LiveTerminalKey::ArrowRight)
    } else if k == "up"@ {
        Some(LiveTerminalKey::ArrowUp)
    } else if k == "down"@ {
        Some(LiveTerminalKey::ArrowDown)
    } else if k == "home"@ {
        Some(LiveTerminalKey::Home)
    } else if k == "end"@ {
        Some(LiveTerminalKey::End)
    } else if k == "pageup"@ {
        Some(LiveTerminalKey::PageUp)
    } else if k == "pagedown"@ {
        Some(LiveTerminalKey::PageDown)
    } else if k == "insert"@ {
        Some(LiveTerminalKey::Insert)
    } else if k == "space"@ {
        Some(LiveTerminalKey::Space)
    } else if function_key_number(k) is Some {
        Some(LiveTerminalKey::F(function_key_number(k)->0))
    } else if k.len() == 1 {
        Some(LiveTerminalKey::Character(unshifted(k[0])))
    } else {
        None
    }
}

/// Each key name names its own key, and no other name gives it: `enter` and
/// `return` give Enter, `backspace` Backspace, `delete` Delete, and so on
/// for the named keys.
pub proof fn lemma_key_names(k: Seq<char>)
    ensures
        named_key(k) == Some(LiveTerminalKey::Enter) <==> (k == "enter"@ || k == "return"@),
        named_key(k) == Some(LiveTerminalKey::Backspace) <==> k == "backspace"@,
        named_key(k) == Some(LiveTerminalKey::Delete) <==> k == "delete"@,
        named_key(k) == Some(LiveTerminalKey::Tab) <==> k == "tab"@,
        named_key(k) == Some(LiveTerminalKey::Escape) <==> k == "escape"@,
        named_key(k) == Some(LiveTerminalKey::ArrowLeft) <==> k == "left"@,
        named_key(k) == Some(LiveTerminalKey::ArrowRight) <==> k == "right"@,
        named_key(k) == Some(LiveTerminalKey::ArrowUp) <==> k == "up"@,
        named_key(k) == Some(LiveTerminalKey::ArrowDown) <==> k == "down"@,
        named_key(k) == Some(LiveTerminalKey::Home) <==> k == "home"@,
        named_key(k) == Some(LiveTerminalKey::End) <==> k == "end"@,
        named_key(k) == Some(LiveTerminalKey::PageUp) <==> k == "pageup"@,
        named_key(k) == Some(LiveTerminalKey::PageDown) <==> k == "pagedown"@,
        named_key(k) == Some(LiveTerminalKey::Insert) <==> k == "insert"@,
        named_key(k) == Some(LiveTerminalKey::Space) <==> k == "space"@,
{
    reveal_strlit("enter");
    reveal_strlit("return");
    reveal_strlit("backspace");
    reveal_strlit("delete");
    reveal_strlit("tab");
    reveal_strlit("escape");
    reveal_strlit("left");
    reveal_strlit("right");
    reveal_strlit("up");
    reveal_strlit("down");
    reveal_strlit("home");
    reveal_strlit("end");
    reveal_strlit("pageup");
    reveal_strlit("pagedown");
    reveal_strlit("insert");
    reveal_strlit("space");
    if k == "pagedown"@ {
        assert(k.len() == 8 && k[4] == 'd');
        assert(k != "pageup"@);
        assert(named_key(k) == Some(LiveTerminalKey::PageDown));
    }
}

/// Distinct key names of more than one character give distinct keys; only
/// `enter` and `return` share one.
pub proof fn lemma_named_keys_are_distinct(k1: Seq<char>, k2: Seq<char>)
    requires
        k1.len() > 1,
        k2.len() > 1,
        named_key(k1) is Some,
        named_key(k1) == named_key(k2),
    ensures
        k1 == k2 || ((k1 == "enter"@ || k1 == "return"@) && (k2 == "enter"@ || k2 == "return"@)),
{
    lemma_key_names(k1);
    lemma_key_names(k2);
    match named_key(k1) {
        Some(LiveTerminalKey::F(n)) => {
            assert(function_key_number(k1) == Some(n));
            assert(function_key_number(k2) == Some(n));
            assert(k1 =~= k2);
        },
        _ => {},
    }
}

/// The unshifted character that goes with a key.
pub open spec fn key_unshifted(key: LiveTerminalKey) -> char {
    match key {
        LiveTerminalKey::Character(c) => c,
        LiveTerminalKey::Space => ' ',
        _ => '\0',
    }
}

/// A keystroke that types `text`: its key is the first character, unshifted.
pub open spec fn printable_model(text: Seq<char>, control: bool, alt: bool, shift: bool, platform: bool) -> KeyInputModel {
    let c = if text.len() > 0 {
        unshifted(text[0])
    } else {
        '\0'
    };
    (LiveTerminalKey::Character(c), Some(text), mods(shift, alt, control, platform), c)
}

/// Control-J, which line editors take as a newline that does not submit.
pub open spec fn control_j_model() -> KeyInputModel {
    (LiveTerminalKey::Character('j'), None, mods(false, false, true, false), 'j')
}

pub open spec fn tab_model(shift: bool) -> KeyInputModel {
    (LiveTerminalKey::Tab, None, mods(shift, false, false, false), '\0')
}

/// What a keystroke sends to the terminal, or `None` where the application
/// keeps it: function-modified keys, workspace and clipboard shortcuts,
/// control-shift pane keys and control-alt column keys. Typed text wins over
/// the key's name; shift-enter becomes control-J.
pub open spec fn live_input(
    key: Seq<char>,
    key_char: Option<Seq<char>>,
    control: bool,
    alt: bool,
    shift: bool,
    platform: bool,
    function: bool,
) -> Option<KeyInputModel> {
    let k = lower(key);
    if function || shortcut_index(key, key_char, control, alt, shift, platform, false) is Some
        || clipboard_action(key, control, alt, shift, platform, false) is Some || (control && shift
        && pane_action_word(k)) || (control && alt && column_resize_word(k)) {
        None
    } else {
        match printable_text(key_char, control, platform) {
            Some(t) => Some(printable_model(t, control, alt, shift, platform)),
            None => match synthesized_text(k, control, shift, platform) {
                Some(t) => Some(printable_model(t, control, alt, shift, platform)),
                None => if (k == "enter"@ || k == "return"@) && shift && !control && !alt
                    && !platform {
                    Some(control_j_model())
                } else {
                    match named_key(k) {
                        Some(named) => Some(
                            (named, None, mods(shift, alt, control, platform), key_unshifted(named)),
                        ),
                        None => None,
                    }
                },
            },
        }
    }
}

fn has_control_char(t: &[char]) -> (r: bool)
    ensures
        r == exists|i: int| 0 <= i < t@.len() && is_control(#[trigger] t@[i]),
{
    let mut i: usize = 0;
    while i < t.len()
        invariant
            i <= t.len(),
            forall|j: int| 0 <= j < i ==> !is_control(#[trigger] t@[j]),
        decreases t.len() - i,
    {
        if char_is_control(t[i]) {
            return true;
        }
        i = i + 1;
    }
    false
}

pub fn terminal_printable_key_text(key_char: Option<&str>, control: bool, platform: bool) -> (r:
    Option<String>)
    ensures
        opt_view(r) == printable_text(opt_str_view(key_char), control, platform),
{
    if control || platform {
        return None;
    }
    match key_char {
        Some(text) => {
            let chars = str_chars(text);
            if chars.len() == 0 || has_control_char(chars.as_slice()) {
                None
            } else {
                Some(text.to_owned())
            }
        },
        None => None,
    }
}

pub fn synthesized_terminal_printable_key_text(
    normalized_key: &str,
    control: bool,
    shift: bool,
    platform: bool,
) -> (r: Option<String>)
    ensures
        opt_view(r) == synthesized_text(normalized_key@, control, shift, platform),
{
    if control || platform {
        return None;
    }
    let k = str_chars(normalized_key);
    if is_word(k.as_slice(), "space") {
        return Some(" ".to_owned());
    }
    if !shift && k.len() == 1 {
        return Some(normalized_key.to_owned());
    }
    None
}

fn function_key_number_exec(k: &[char]) -> (r: Option<u8>)
    ensures
        r == function_key_number(k@),
{
    if k.len() == 2 && k[0] == 'f' && '1' <= k[1] && k[1] <= '9' {
        Some(((k[1] as u32) - ('0' as u32)) as u8)
    } else if k.len() == 3 && k[0] == 'f' && k[1] == '1' && '0' <= k[2] && k[2] <= '2' {
        Some((10 + (k[2] as u32) - ('0' as u32)) as u8)
    } else {
        None
    }
}

fn named_key_exec(k: &[char]) -> (r: Option<LiveTerminalKey>)
    ensures
        r == named_key(k@),
{
    if is_word(k, "enter") || is_word(k, "return") {
        Some(LiveTerminalKey::Enter)
    } else if is_word(k, "backspace") {
        Some(LiveTerminalKey::Backspace)
    } else if is_word(k, "delete") {
        Some(LiveTerminalKey::Delete)
    } else if is_word(k, "tab") {
        Some(LiveTerminalKey::Tab)
    } else if is_word(k, "escape") {
        Some(LiveTerminalKey::Escape)
    } else if is_word(k, "left") {
        Some(LiveTerminalKey::ArrowLeft)
    } else if is_word(k, "right") {
        Some(LiveTerminalKey::ArrowRight)
    } else if is_word(k, "up") {
        Some(LiveTerminalKey::ArrowUp)
    } else if is_word(k, "down") {
        Some(LiveTerminalKey::ArrowDown)
    } else if is_word(k, "home") {
        Some(LiveTerminalKey::Home)
    } else if is_word(k, "end") {
        Some(LiveTerminalKey::End)
    } else if is_word(k, "pageup") {
        Some(LiveTerminalKey::PageUp)
    } else if is_word(k, "pagedown") {
        Some(LiveTerminalKey::PageDown)
    } else if is_word(k, "insert") {
        Some(LiveTerminalKey::Insert)
    } else if is_word(k, "space") {
        Some(LiveTerminalKey::Space)
    } else {
        match function_key_number_exec(k) {
            Some(n) => Some(LiveTerminalKey::F(n)),
            None => if k.len() == 1 {
                Some(LiveTerminalKey::Character(unshifted_character(k[0])))
            } else {
                None
            },
        }
    }
}

fn first_char(s: &str) -> (r: Option<char>)
    ensures
        r == (if s@.len() > 0 {
            Some(s@[0])
        } else {
            None
        }),
{
    let chars = str_chars(s);
    if chars.len() > 0 {
        Some(chars[0])
    } else {
        None
    }
}

/// The keystroke that types `text`.
pub fn live_terminal_printable_input(
    text: String,
    control: bool,
    alt: bool,
    shift: bool,
    platform: bool,
) -> (r: LiveTerminalKeyInput)
    ensures
        r.model() == printable_model(text@, control, alt, shift, platform),
{
    let character = match first_char(text.as_str()) {
        Some(c) => unshifted_character(c),
        None => '\0',
    };
    LiveTerminalKeyInput {
        key: LiveTerminalKey::Character(character),
        text: Some(text),
        modifiers: LiveTerminalModifiers { shift, alt, control, platform },
        unshifted: character,
    }
}

/// Tab, or shift-tab: the key that the application forwards to the terminal
/// in place of moving focus.
pub fn terminal_tab_input(shift: bool) -> (r: LiveTerminalKeyInput)
    ensures
        r.model() == tab_model(shift),
{
    LiveTerminalKeyInput {
        key: LiveTerminalKey::Tab,
        text: None,
        modifiers: LiveTerminalModifiers { shift, alt: false, control: false, platform: false },
        unshifted: '\0',
    }
}

pub fn terminal_control_j_input() -> (r: LiveTerminalKeyInput)
    ensures
        r.model() == control_j_model(),
{
    LiveTerminalKeyInput {
        key: LiveTerminalKey::Character('j'),
        text: None,
        modifiers: LiveTerminalModifiers { shift: false, alt: false, control: true, platform: false },
        unshifted: 'j',
    }
}

pub fn live_terminal_input_from_key_parts(
    key: &str,
    key_char: Option<&str>,
    control: bool,
    alt: bool,
    shift: bool,
    platform: bool,
    function: bool,
) -> (r: Option<LiveTerminalKeyInput>)
    ensures
        opt_model(r) == live_input(
            key@,
            opt_str_view(key_char),
            control,
            alt,
            shift,
            platform,
            function,
        ),
{
    if function {
        return None;
    }
    if workspace_shortcut_index_from_key_parts(key, key_char, control, alt, shift, platform, false).is_some() {
        return None;
    }
    if clipboard_shortcut_action_from_key_parts(key, key_char, control, alt, shift, platform, false).is_some() {
        return None;
    }
    let k = chars_to_lower(str_chars(key).as_slice());
    if control && shift && pane_action_chars(k.as_slice()) {
        return None;
    }
    if control && alt && column_resize_chars(k.as_slice()) {
        return None;
    }
    let normalized_key = string_from_chars(k.as_slice());
    if let Some(key_text) = terminal_printable_key_text(key_char, control, platform) {
        return Some(live_terminal_printable_input(key_text, control, alt, shift, platform));
    }
    if let Some(key_text) = synthesized_terminal_printable_key_text(
        normalized_key.as_str(),
        control,
        shift,
        platform,
    ) {
        return Some(live_terminal_printable_input(key_text, control, alt, shift, platform));
    }
    if (is_word(k.as_slice(), "enter") || is_word(k.as_slice(), "return")) && shift && !control
        && !alt && !platform {
        return Some(terminal_control_j_input());
    }
    match named_key_exec(k.as_slice()) {
        Some(live_key) => {
            let unshifted = match live_key {
                LiveTerminalKey::Character(character) => character,
                LiveTerminalKey::Space => ' ',
                _ => '\0',
            };
            Some(
                LiveTerminalKeyInput {
                    key: live_key,
                    text: None,
                    modifiers: LiveTerminalModifiers { shift, alt, control, platform },
                    unshifted,
                },
            )
        },
        None => None,
    }
}

/// Page-up and page-down without modifiers or text scroll the terminal's
/// viewport (up is -1, down is 1) instead of reaching the program.
pub open spec fn page_scroll_direction(input: KeyInputModel) -> Option<int> {
    let m = input.2;
    if input.1 is Some || m.shift || m.alt || m.control || m.platform {
        None
    } else {
        match input.0 {
            LiveTerminalKey::PageUp => Some(-1),
            LiveTerminalKey::PageDown => Some(1),
            _ => None,
        }
    }
}

pub fn terminal_page_scroll_direction(input: &LiveTerminalKeyInput) -> (r: Option<isize>)
    ensures
        match r {
            Some(d) => page_scroll_direction(input.model()) == Some(d as int),
            None => page_scroll_direction(input.model()) is None,
        },
{
    if input.text.is_some() || input.modifiers.shift || input.modifiers.alt
        || input.modifiers.control || input.modifiers.platform {
        return None;
    }
    match input.key {
        LiveTerminalKey::PageUp => Some(-1),
        LiveTerminalKey::PageDown => Some(1),
        _ => None,
    }
}

/// The key name that `tmux send-keys` takes for a keystroke, used when a
/// terminal is reached through its tmux session: named keys, control and a
/// letter (`C-j`), and `F1`..`F12`.
pub open spec fn retach_key(input: KeyInputModel) -> Option<Seq<char>> {
    match input.0 {
        LiveTerminalKey::Enter => Some("Enter"@),
        LiveTerminalKey::Backspace => Some("BSpace"@),
        LiveTerminalKey::Delete => Some("Delete"@),
        LiveTerminalKey::Tab => Some("Tab"@),
        LiveTerminalKey::Escape => Some("Escape"@),
        LiveTerminalKey::ArrowLeft => Some("Left"@),
        LiveTerminalKey::ArrowRight => Some("Right"@),
        LiveTerminalKey::ArrowUp => Some("Up"@),
        LiveTerminalKey::ArrowDown => Some("Down"@),
        LiveTerminalKey::Home => Some("Home"@),
        LiveTerminalKey::End => Some("End"@),
        LiveTerminalKey::PageUp => Some("PageUp"@),
        LiveTerminalKey::PageDown => Some("PageDown"@),
        LiveTerminalKey::Insert => Some("Insert"@),
        LiveTerminalKey::Character(c) => if input.2.control {
            Some("C-"@.push(lower_char(c)))
        } else {
            None
        },
        LiveTerminalKey::F(n) => if 1 <= n && n <= 12 {
            Some("F"@ + dec(n as nat))
        } else {
            None
        },
        LiveTerminalKey::Space => None,
    }
}

pub fn retach_key_for_live_key(input: &LiveTerminalKeyInput) -> (r: Option<String>)
    ensures
        opt_view(r) == retach_key(input.model()),
{
    let name = match input.key {
        LiveTerminalKey::Enter => "Enter",
        LiveTerminalKey::Backspace => "BSpace",
        LiveTerminalKey::Delete => "Delete",
        LiveTerminalKey::Tab => "Tab",
        LiveTerminalKey::Escape => "Escape",
        LiveTerminalKey::ArrowLeft => "Left",
        LiveTerminalKey::ArrowRight => "Right",
        LiveTerminalKey::ArrowUp => "Up",
        LiveTerminalKey::ArrowDown => "Down",
        LiveTerminalKey::Home => "Home",
        LiveTerminalKey::End => "End",
        LiveTerminalKey::PageUp => "PageUp",
        LiveTerminalKey::PageDown => "PageDown",
        LiveTerminalKey::Insert => "Insert",
        LiveTerminalKey::Character(character) => {
            if !input.modifiers.control {
                return None;
            }
            let mut out = str_chars("C-");
            out.push(char_to_lower(character));
            return Some(string_from_chars(out.as_slice()));
        },
        LiveTerminalKey::F(number) => {
            if number < 1 || number > 12 {
                return None;
            }
            let out = concat(str_chars("F").as_slice(), u64_dec(number as u64).as_slice());
            return Some(string_from_chars(out.as_slice()));
        },
        LiveTerminalKey::Space => {
            return None;
        },
    };
    Some(name.to_owned())
}

// ---------------------------------------------------------------------------
// Where a keystroke goes
// ---------------------------------------------------------------------------

/// Where a key press goes.
#[derive(Clone, Debug, PartialEq, Eq)]
pub enum KeyDownRoute {
    /// The rename dialog is open: it takes the press (confirm, cancel, or
    /// nothing), and the press goes nowhere else.
    RenameDialog(Option<SidebarRenameDialogKeyAction>),
    /// A workspace shortcut: the workspace at this position opens.
    OpenWorkspace(usize),
    /// Input for the terminal of the active pane.
    Terminal(LiveTerminalKeyInput),
    /// The press is left to the window.
    Ignore,
}

/// Where a key press goes: the open rename dialog takes it first, then the
/// workspace shortcuts, then the terminal.
pub fn route_key_down(
    rename_dialog_open: bool,
    key: &str,
    key_char: Option<&str>,
    control: bool,
    alt: bool,
    shift: bool,
    platform: bool,
    function: bool,
) -> (r: KeyDownRoute)
    ensures
        rename_dialog_open ==> r == KeyDownRoute::RenameDialog(rename_dialog_action(key@)),
        !rename_dialog_open ==> match shortcut_index(key@, opt_str_view(key_char), control, alt, shift, platform, function) {
            Some(i) => r == KeyDownRoute::OpenWorkspace(i),
            None => match live_input(key@, opt_str_view(key_char), control, alt, shift, platform, function) {
                Some(m) => r matches KeyDownRoute::Terminal(input) && input.model() == m,
                None => r == KeyDownRoute::Ignore,
            },
        },
{
    if rename_dialog_open {
        return KeyDownRoute::RenameDialog(sidebar_rename_dialog_key_action(key));
    }
    match workspace_shortcut_index_from_key_parts(key, key_char, control, alt, shift, platform, function) {
        Some(i) => KeyDownRoute::OpenWorkspace(i),
        None => match live_terminal_input_from_key_parts(key, key_char, control, alt, shift, platform, function) {
            Some(input) => KeyDownRoute::Terminal(input),
            None => KeyDownRoute::Ignore,
        },
    }
}

} // verus!
