//! Shell types: the kinds of terminal pane a user can open, each with a
//! command, a starting directory, a keyboard shortcut and a default width.

use vstd::prelude::*;
use crate::types::{
    TerminalKind, TerminalExitBehavior, TerminalPanePayload, SessionState, PaneType, DEFAULT_TERMINAL_WIDTH_CHARS,
};
use crate::layout::{PanePayload, PaneState};
use crate::text::{
    lower, trim, str_chars, chars_trim, chars_to_lower, string_from_chars, is_word, push_all,
    starts_with, ends_with,
};
use crate::split::{split_char, split_exec};

verus! {

#[derive(Clone, Debug, PartialEq, Eq)]
pub struct ShellTypeConfig {
    pub name: String,
    pub shortcut: String,
    pub directory: String,
    pub command: String,
    pub command_parameters: Vec<String>,
    pub on_exit: TerminalExitBehavior,
    pub default_width_chars: u16,
}

#[derive(Clone, Debug, PartialEq, Eq)]
pub struct ShellTypeConfigFile {
    pub shell_types: Vec<ShellTypeConfig>,
}

/// Why a shell type configuration is refused.
#[derive(Clone, Debug, PartialEq, Eq)]
pub enum ShellConfigError {
    /// The file defines no shell type.
    NoShellTypes,
    /// A shell type's name is empty or blank.
    EmptyName,
    /// The named shell type has a default width of zero.
    ZeroWidth(String),
}

impl ShellConfigError {
    pub open spec fn message_text(&self) -> Seq<char> {
        match *self {
            ShellConfigError::NoShellTypes => "shell type config must define at least one shell type"@,
            ShellConfigError::EmptyName => "shell type config contains an empty name"@,
            ShellConfigError::ZeroWidth(name) => "shell type `"@ + name@
                + "` must have a positive default_width_chars"@,
        }
    }

    /// The error as a sentence.
    pub fn message(&self) -> (r: String)
        ensures
            r@ == self.message_text(),
    {
        match self {
            ShellConfigError::NoShellTypes => "shell type config must define at least one shell type".to_owned(),
            ShellConfigError::EmptyName => "shell type config contains an empty name".to_owned(),
            ShellConfigError::ZeroWidth(name) => {
                let mut out = str_chars("shell type `");
                push_all(&mut out, str_chars(name.as_str()).as_slice());
                push_all(&mut out, str_chars("` must have a positive default_width_chars").as_slice());
                string_from_chars(out.as_slice())
            },
        }
    }
}

/// The first shell type, in order, that breaks a rule: a blank name, or a
/// default width of zero.
pub open spec fn first_invalid(types: Seq<ShellTypeConfig>) -> Option<ShellConfigError>
    decreases types.len(),
{
    if types.len() == 0 {
        None
    } else if trim(types[0].name@).len() == 0 {
        Some(ShellConfigError::EmptyName)
    } else if types[0].default_width_chars == 0 {
        Some(ShellConfigError::ZeroWidth(types[0].name))
    } else {
        first_invalid(types.drop_first())
    }
}

/// Accepts a configuration with at least one shell type, each named and
/// with a positive default width.
pub fn validate_shell_type_config(config: ShellTypeConfigFile) -> (r: Result<
    ShellTypeConfigFile,
    ShellConfigError,
>)
    ensures
        match r {
            Ok(c) => c == config && config.shell_types@.len() > 0 && first_invalid(
                config.shell_types@,
            ) is None,
            Err(e) => if config.shell_types@.len() == 0 {
                e == ShellConfigError::NoShellTypes
            } else {
                first_invalid(config.shell_types@) == Some(e)
            },
        },
{
    if config.shell_types.len() == 0 {
        return Err(ShellConfigError::NoShellTypes);
    }
    let ghost all = config.shell_types@;
    let mut i: usize = 0;
    proof {
        assert(all.skip(0) =~= all);
    }
    while i < config.shell_types.len()
        invariant
            i <= all.len(),
            all == config.shell_types@,
            first_invalid(all) == first_invalid(all.skip(i as int)),
        decreases all.len() - i,
    {
        let shell_type = &config.shell_types[i];
        proof {
            assert(all.skip(i as int)[0] == shell_type);
            assert(all.skip(i as int).drop_first() =~= all.skip(i + 1));
        }
        let (a, b) = crate::text::trim_bounds(str_chars(shell_type.name.as_str()).as_slice());
        if a == b {
            return Err(ShellConfigError::EmptyName);
        }
        if shell_type.default_width_chars == 0 {
            return Err(ShellConfigError::ZeroWidth(shell_type.name.clone()));
        }
        i = i + 1;
    }
    proof {
        assert(all.skip(i as int) =~= Seq::<ShellTypeConfig>::empty());
    }
    Ok(config)
}

fn shell_type(
    name: &str,
    shortcut: &str,
    command: &str,
    command_parameters: Vec<String>,
    on_exit: TerminalExitBehavior,
    default_width_chars: u16,
) -> (r: ShellTypeConfig)
    ensures
        r.name@ == name@,
        r.shortcut@ == shortcut@,
        r.directory@ == "workspace"@,
        r.command@ == command@,
        r.command_parameters == command_parameters,
        r.on_exit == on_exit,
        r.default_width_chars == default_width_chars,
{
    ShellTypeConfig {
        name: name.to_owned(),
        shortcut: shortcut.to_owned(),
        directory: "workspace".to_owned(),
        command: command.to_owned(),
        command_parameters,
        on_exit,
        default_width_chars,
    }
}

/// The shell types a new installation starts with: a plain shell, Codex
/// and jjui, each opened in the workspace.
pub fn default_shell_type_config() -> (r: ShellTypeConfigFile)
    ensures
        r.shell_types@.len() == 3,
        r.shell_types@[0].name@ == "plain"@,
        r.shell_types@[0].shortcut@ == "ctrl-shift-s"@,
        r.shell_types@[0].command@ == ""@,
        r.shell_types@[0].command_parameters@.len() == 0,
        r.shell_types@[0].on_exit == TerminalExitBehavior::Close,
        r.shell_types@[0].default_width_chars == DEFAULT_TERMINAL_WIDTH_CHARS,
        r.shell_types@[1].name@ == "codex"@,
        r.shell_types@[1].shortcut@ == "ctrl-shift-a"@,
        r.shell_types@[1].command@ == "codex"@,
        r.shell_types@[1].command_parameters@.len() == 1,
        r.shell_types@[1].command_parameters@[0]@ == "--dangerously-bypass-approvals-and-sandbox"@,
        r.shell_types@[1].on_exit == TerminalExitBehavior::RestartManually,
        r.shell_types@[1].default_width_chars == 120,
        r.shell_types@[2].name@ == "jjui"@,
        r.shell_types@[2].shortcut@ == "ctrl-shift-j"@,
        r.shell_types@[2].command@ == "jjui"@,
        r.shell_types@[2].command_parameters@.len() == 0,
        r.shell_types@[2].on_exit == TerminalExitBehavior::Close,
        r.shell_types@[2].default_width_chars == DEFAULT_TERMINAL_WIDTH_CHARS,
        forall|i: int| 0 <= i < 3 ==> #[trigger] r.shell_types@[i].directory@ == "workspace"@,
{
    let mut codex_parameters: Vec<String> = Vec::new();
    codex_parameters.push("--dangerously-bypass-approvals-and-sandbox".to_owned());
    let mut shell_types: Vec<ShellTypeConfig> = Vec::new();
    shell_types.push(
        shell_type(
            "plain",
            "ctrl-shift-s",
            "",
            Vec::new(),
            TerminalExitBehavior::Close,
            DEFAULT_TERMINAL_WIDTH_CHARS,
        ),
    );
    shell_types.push(
        shell_type(
            "codex",
            "ctrl-shift-a",
            "codex",
            codex_parameters,
            TerminalExitBehavior::RestartManually,
            120,
        ),
    );
    shell_types.push(
        shell_type("jjui", "ctrl-shift-j", "jjui", Vec::new(), TerminalExitBehavior::Close, DEFAULT_TERMINAL_WIDTH_CHARS),
    );
    ShellTypeConfigFile { shell_types }
}

// ---------------------------------------------------------------------------
// Working directory and terminal kind
// ---------------------------------------------------------------------------

/// `rel` under `base`, as `Path::join` forms it on Unix: an absolute `rel`
/// stands alone; otherwise one slash separates the two (none after an empty
/// base or one that ends with a slash).
pub open spec fn join_path(base: Seq<char>, rel: Seq<char>) -> Seq<char> {
    if starts_with(rel, "/"@) {
        rel
    } else if base.len() == 0 || ends_with(base, "/"@) {
        base + rel
    } else {
        base + "/"@ + rel
    }
}

/// Where a shell type's terminal starts: the workspace for an empty
/// directory, `workspace` or `.`; an absolute directory as it is; a relative
/// one under the workspace.
pub open spec fn shell_cwd(directory: Seq<char>, workspace_path: Seq<char>) -> Seq<char> {
    let d = trim(directory);
    if d.len() == 0 || d == "workspace"@ || d == "."@ {
        workspace_path
    } else {
        join_path(workspace_path, d)
    }
}

pub fn shell_type_cwd(shell_type: &ShellTypeConfig, workspace_path: &str) -> (r: String)
    ensures
        r@ == shell_cwd(shell_type.directory@, workspace_path@),
{
    let d = chars_trim(str_chars(shell_type.directory.as_str()).as_slice());
    if d.len() == 0 || is_word(d.as_slice(), "workspace") || is_word(d.as_slice(), ".") {
        return workspace_path.to_owned();
    }
    proof {
        reveal_strlit("/");
    }
    if d[0] == '/' {
        proof {
            assert(d@.subrange(0, 1) =~= "/"@);
        }
        return string_from_chars(d.as_slice());
    }
    proof {
        if starts_with(d@, "/"@) {
            assert(d@.subrange(0, 1)[0] == '/');
        }
    }
    let base = str_chars(workspace_path);
    let mut out = str_chars(workspace_path);
    if base.len() > 0 && base[base.len() - 1] != '/' {
        out.push('/');
        proof {
            if ends_with(base@, "/"@) {
                assert(base@.subrange(base@.len() - 1, base@.len() as int)[0] == '/');
            }
            assert(out@ =~= base@ + "/"@);
        }
    } else {
        proof {
            if base@.len() > 0 {
                assert(base@.subrange(base@.len() - 1, base@.len() as int) =~= "/"@);
            }
        }
    }
    push_all(&mut out, d.as_slice());
    string_from_chars(out.as_slice())
}

/// The terminal kind that a shell type's name calls for, in any case.
pub open spec fn kind_for_name(name: Seq<char>) -> TerminalKind {
    let n = lower(trim(name));
    if n == "codex"@ {
        TerminalKind::Codex
    } else if n == "jjui"@ {
        TerminalKind::Jjui
    } else if n == "pi"@ {
        TerminalKind::Pi
    } else if n == "nvim"@ {
        TerminalKind::Nvim
    } else {
        TerminalKind::Shell
    }
}

pub fn terminal_kind_for_shell_type(name: &str) -> (r: TerminalKind)
    ensures
        r == kind_for_name(name@),
{
    let n = chars_to_lower(chars_trim(str_chars(name).as_slice()).as_slice());
    if is_word(n.as_slice(), "codex") {
        TerminalKind::Codex
    } else if is_word(n.as_slice(), "jjui") {
        TerminalKind::Jjui
    } else if is_word(n.as_slice(), "pi") {
        TerminalKind::Pi
    } else if is_word(n.as_slice(), "nvim") {
        TerminalKind::Nvim
    } else {
        TerminalKind::Shell
    }
}

/// The terminal of a new pane of a shell type: its kind, command, arguments,
/// exit behaviour and width from the shell type, started in the shell
/// type's directory, not yet running.
pub open spec fn is_shell_terminal(r: TerminalPanePayload, shell_type: ShellTypeConfig, workspace_path: Seq<char>) -> bool {
    &&& r.kind == kind_for_name(shell_type.name@)
    &&& r.shell_type == shell_type.name
    &&& r.session_id is None
    &&& r.session_state == SessionState::Stopped
    &&& r.cwd@ == shell_cwd(shell_type.directory@, workspace_path)
    &&& r.command == shell_type.command
    &&& r.command_parameters@ == shell_type.command_parameters@
    &&& r.on_exit == shell_type.on_exit
    &&& r.default_width_chars == shell_type.default_width_chars
    &&& r.exit_code is None
    &&& r.auto_start
    &&& r.restored_buffer@.len() == 0
    &&& r.embedded_session is None
    &&& r.embedded_session_correlation_id is None
    &&& r.agent_attention_state is None
}

/// The terminal of a new pane of shell type `shell_type`.
pub fn shell_terminal_payload(shell_type: &ShellTypeConfig, workspace_path: &str) -> (r:
    TerminalPanePayload)
    ensures
        is_shell_terminal(r, *shell_type, workspace_path@),
{
    let mut parameters: Vec<String> = Vec::new();
    let mut i: usize = 0;
    while i < shell_type.command_parameters.len()
        invariant
            i <= shell_type.command_parameters@.len(),
            parameters@ == shell_type.command_parameters@.take(i as int),
        decreases shell_type.command_parameters.len() - i,
    {
        parameters.push(shell_type.command_parameters[i].clone());
        proof {
            assert(parameters@ =~= shell_type.command_parameters@.take(i + 1));
        }
        i = i + 1;
    }
    proof {
        assert(parameters@ =~= shell_type.command_parameters@);
    }
    TerminalPanePayload {
        kind: terminal_kind_for_shell_type(shell_type.name.as_str()),
        shell_type: shell_type.name.clone(),
        session_id: None,
        session_state: SessionState::Stopped,
        cwd: shell_type_cwd(shell_type, workspace_path),
        command: shell_type.command.clone(),
        command_parameters: parameters,
        on_exit: shell_type.on_exit,
        default_width_chars: shell_type.default_width_chars,
        exit_code: None,
        auto_start: true,
        restored_buffer: String::new(),
        embedded_session: None,
        embedded_session_correlation_id: None,
        agent_attention_state: None,
    }
}

// ---------------------------------------------------------------------------
// Shortcuts
// ---------------------------------------------------------------------------

/// The modifiers and key of a keystroke.
#[derive(Clone, Copy, Debug, PartialEq, Eq, Structural)]
pub struct KeystrokeModifiers {
    pub control: bool,
    pub alt: bool,
    pub shift: bool,
    pub platform: bool,
    pub function: bool,
}

pub open spec fn no_modifiers() -> KeystrokeModifiers {
    KeystrokeModifiers { control: false, alt: false, shift: false, platform: false, function: false }
}

/// Adds the modifier that `token` names to `m`; none for a token that
/// names no modifier.
pub open spec fn add_modifier(m: KeystrokeModifiers, token: Seq<char>) -> Option<KeystrokeModifiers> {
    let t = lower(token);
    if t == "ctrl"@ || t == "control"@ {
        Some(KeystrokeModifiers { control: true, ..m })
    } else if t == "alt"@ || t == "option"@ {
        Some(KeystrokeModifiers { alt: true, ..m })
    } else if t == "shift"@ {
        Some(KeystrokeModifiers { shift: true, ..m })
    } else if t == "cmd"@ || t == "super"@ || t == "win"@ || t == "platform"@ {
        Some(KeystrokeModifiers { platform: true, ..m })
    } else if t == "fn"@ {
        Some(KeystrokeModifiers { function: true, ..m })
    } else {
        None
    }
}

pub open spec fn modifiers_of(tokens: Seq<Seq<char>>) -> Option<KeystrokeModifiers>
    decreases tokens.len(),
{
    if tokens.len() == 0 {
        Some(no_modifiers())
    } else {
        match modifiers_of(tokens.drop_last()) {
            Some(m) => add_modifier(m, tokens.last()),
            None => None,
        }
    }
}

/// A shortcut such as `ctrl-shift-a`: modifier names and a key, joined
/// with `-`; the key is taken in lowercase. None when a part before the key
/// is no modifier or the key is empty.
pub open spec fn parsed_shortcut(shortcut: Seq<char>) -> Option<(KeystrokeModifiers, Seq<char>)> {
    let tokens = split_char(shortcut, '-');
    let key = lower(tokens.last());
    if key.len() == 0 {
        None
    } else {
        match modifiers_of(tokens.drop_last()) {
            Some(m) => Some((m, key)),
            None => None,
        }
    }
}

fn add_modifier_exec(m: KeystrokeModifiers, token: &[char]) -> (r: Option<KeystrokeModifiers>)
    ensures
        r == add_modifier(m, token@),
{
    let t = chars_to_lower(token);
    let t = t.as_slice();
    if is_word(t, "ctrl") || is_word(t, "control") {
        Some(KeystrokeModifiers { control: true, ..m })
    } else if is_word(t, "alt") || is_word(t, "option") {
        Some(KeystrokeModifiers { alt: true, ..m })
    } else if is_word(t, "shift") {
        Some(KeystrokeModifiers { shift: true, ..m })
    } else if is_word(t, "cmd") || is_word(t, "super") || is_word(t, "win") || is_word(t, "platform") {
        Some(KeystrokeModifiers { platform: true, ..m })
    } else if is_word(t, "fn") {
        Some(KeystrokeModifiers { function: true, ..m })
    } else {
        None
    }
}

pub fn parse_shortcut(shortcut: &str) -> (r: Option<(KeystrokeModifiers, Vec<char>)>)
    ensures
        match r {
            Some((m, key)) => parsed_shortcut(shortcut@) == Some((m, key@)),
            None => parsed_shortcut(shortcut@) is None,
        },
{
    let tokens = split_exec(str_chars(shortcut).as_slice(), '-', '-', false);
    let ghost ts = tokens@.map_values(|p: Vec<char>| p@);
    assert(ts == split_char(shortcut@, '-'));
    proof {
        crate::split::lemma_split_nonempty(shortcut@, '-');
    }
    let n = tokens.len();
    let key = chars_to_lower(tokens[n - 1].as_slice());
    if key.len() == 0 {
        return None;
    }
    let mut m = KeystrokeModifiers {
        control: false,
        alt: false,
        shift: false,
        platform: false,
        function: false,
    };
    let mut i: usize = 0;
    while i < n - 1
        invariant
            n == tokens@.len(),
            n >= 1,
            i <= n - 1,
            ts == tokens@.map_values(|p: Vec<char>| p@),
            ts == split_char(shortcut@, '-'),
            key@ == lower(ts.last()),
            key@.len() > 0,
            modifiers_of(ts.take(i as int)) == Some(m),
        decreases n - 1 - i,
    {
        proof {
            assert(ts.take(i + 1).drop_last() =~= ts.take(i as int));
        }
        match add_modifier_exec(m, tokens[i].as_slice()) {
            Some(next) => {
                m = next;
            },
            None => {
                proof {
                    assert(ts.drop_last().take(i + 1) =~= ts.take(i + 1));
                    lemma_modifiers_prefix_fails(ts.drop_last(), i + 1);
                }
                return None;
            },
        }
        i = i + 1;
    }
    proof {
        assert(ts.take(n - 1) =~= ts.drop_last());
    }
    Some((m, key))
}

proof fn lemma_modifiers_prefix_fails(tokens: Seq<Seq<char>>, k: int)
    requires
        0 <= k <= tokens.len(),
        modifiers_of(tokens.take(k)) is None,
    ensures
        modifiers_of(tokens) is None,
    decreases tokens.len() - k,
{
    if k < tokens.len() {
        assert(tokens.take(k + 1).drop_last() =~= tokens.take(k));
        lemma_modifiers_prefix_fails(tokens, k + 1);
    } else {
        assert(tokens.take(k) =~= tokens);
    }
}

/// The keystroke `key` with these modifiers is the shortcut.
pub open spec fn shortcut_matches(shortcut: Seq<char>, key: Seq<char>, modifiers: KeystrokeModifiers) -> bool {
    parsed_shortcut(shortcut) == Some((modifiers, lower(key)))
}

/// The first shell type whose shortcut is this keystroke.
pub open spec fn shell_type_for_keystroke(types: Seq<ShellTypeConfig>, key: Seq<char>, modifiers: KeystrokeModifiers) -> Option<Seq<char>>
    decreases types.len(),
{
    if types.len() == 0 {
        None
    } else if shortcut_matches(types[0].shortcut@, key, modifiers) {
        Some(types[0].name@)
    } else {
        shell_type_for_keystroke(types.drop_first(), key, modifiers)
    }
}

/// The name of the shell type that a keystroke opens, if any; shell type
/// shortcuts are looked up before the keystroke goes to a terminal.
pub fn shell_type_shortcut_from_key_parts(
    shell_types: &[ShellTypeConfig],
    key: &str,
    modifiers: KeystrokeModifiers,
) -> (r: Option<String>)
    ensures
        crate::text::opt_view(r) == shell_type_for_keystroke(shell_types@, key@, modifiers),
{
    let wanted = chars_to_lower(str_chars(key).as_slice());
    let ghost all = shell_types@;
    let mut i: usize = 0;
    proof {
        assert(all.skip(0) =~= all);
    }
    while i < shell_types.len()
        invariant
            i <= all.len(),
            all == shell_types@,
            wanted@ == lower(key@),
            shell_type_for_keystroke(all, key@, modifiers) == shell_type_for_keystroke(
                all.skip(i as int),
                key@,
                modifiers,
            ),
        decreases all.len() - i,
    {
        proof {
            assert(all.skip(i as int)[0] == shell_types@[i as int]);
            assert(all.skip(i as int).drop_first() =~= all.skip(i + 1));
        }
        match parse_shortcut(shell_types[i].shortcut.as_str()) {
            Some((m, k)) => {
                if m == modifiers && crate::text::chars_eq(k.as_slice(), wanted.as_slice()) {
                    return Some(shell_types[i].name.clone());
                }
            },
            None => {},
        }
        i = i + 1;
    }
    None
}

/// A new pane of shell type `shell_type`, with id `id` (the caller makes
/// ids unique): a shell pane titled by the shell type's name, running the
/// shell type's terminal.
pub fn shell_pane_state_for_config(shell_type: &ShellTypeConfig, workspace_path: &str, id: String) -> (r: PaneState)
    ensures
        r.id == id,
        r.pane_type == PaneType::Shell,
        r.title == shell_type.name,
        r.payload matches PanePayload::Terminal(p) && is_shell_terminal(p, *shell_type, workspace_path@),
{
    PaneState {
        id,
        pane_type: PaneType::Shell,
        title: shell_type.name.clone(),
        payload: PanePayload::Terminal(shell_terminal_payload(shell_type, workspace_path)),
    }
}

} // verus!
