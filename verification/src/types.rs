//! Domain records shared by the workspace model: panes, terminals, project
//! roots, workspaces and their version-control status.

use vstd::prelude::*;
use crate::text::{str_chars, string_from_chars, concat, starts_with, starts_with_exec};

verus! {

#[derive(Clone, Copy, Debug, PartialEq, Eq, Structural)]
pub enum PaneType {
    Shell,
    AgentShell,
    Note,
    Browser,
    Diff,
}

#[derive(Clone, Copy, Debug, PartialEq, Eq, Structural)]
pub enum TerminalKind {
    Shell,
    Codex,
    Pi,
    Nvim,
    Jjui,
}

#[derive(Clone, Copy, Debug, PartialEq, Eq, Structural)]
pub enum TerminalExitBehavior {
    RestartAuto,
    RestartManually,
    Close,
}

impl Default for TerminalExitBehavior {
    fn default() -> (r: Self)
        ensures
            r == TerminalExitBehavior::Close,
    {
        TerminalExitBehavior::Close
    }
}

/// Width, in characters, that a terminal pane starts with.
pub const DEFAULT_TERMINAL_WIDTH_CHARS: u16 = 90;

/// The text `plain`.
pub open spec fn plain_name() -> Seq<char> {
    seq!['p', 'l', 'a', 'i', 'n']
}

/// Name of the shell type that a terminal pane has when none is recorded.
pub fn default_shell_type_name() -> (r: String)
    ensures
        r@ == plain_name(),
{
    let v: Vec<char> = vec!['p', 'l', 'a', 'i', 'n'];
    proof {
        assert(v@ =~= plain_name());
    }
    string_from_chars(v.as_slice())
}

pub fn default_terminal_width_chars() -> (r: u16)
    ensures
        r == DEFAULT_TERMINAL_WIDTH_CHARS,
{
    DEFAULT_TERMINAL_WIDTH_CHARS
}

#[derive(Clone, Copy, Debug, PartialEq, Eq, Structural)]
pub enum PanePlacement {
    NewColumn,
    Stack,
}

#[derive(Clone, Copy, Debug, PartialEq, Eq, Structural)]
pub enum SidebarTarget {
    Left,
    Right,
}

#[derive(Clone, Copy, Debug, PartialEq, Eq, Structural)]
pub enum SessionState {
    Live,
    Stopped,
    Missing,
}

#[derive(Clone, Copy, Debug, PartialEq, Eq, Structural)]
pub enum AgentAttentionState {
    IdleSeen,
    Thinking,
    IdleUnseen,
}

#[derive(Clone, Copy, Debug, PartialEq, Eq, Structural)]
pub enum ActivityState {
    Active,
    IdleUnseen,
    IdleSeen,
}

#[derive(Clone, Copy, Debug, PartialEq, Eq, Structural)]
pub enum WorkspaceBookmarkRelation {
    NoBookmark,
    Exact,
    Above,
}

#[derive(Clone, Copy, Debug, PartialEq, Eq, Structural)]
pub enum WorkspaceState {
    Published,
    MergedLocal,
    Draft,
    Conflicted,
    Unknown,
}

/// Which baseline a workspace's state is judged against.
#[derive(Clone, Copy, Debug, PartialEq, Eq, Structural)]
pub enum BaselineRelationTarget {
    Local,
    Remote,
    NoBaseline,
}

/// How a workspace stands to a baseline.
#[derive(Clone, Copy, Debug, PartialEq, Eq, Structural)]
pub enum BaselineRelationState {
    Same,
    Ahead,
    Behind,
    Diverged,
}

/// Counts of non-empty commits on either side of a baseline.
#[derive(Clone, Debug, PartialEq, Eq)]
pub struct BaselineRelation {
    pub target_name: String,
    pub detail_name: Option<String>,
    pub ahead_count: i64,
    pub behind_count: i64,
}

impl BaselineRelation {
    pub open spec fn spec_state(&self) -> BaselineRelationState {
        if self.ahead_count > 0 && self.behind_count > 0 {
            BaselineRelationState::Diverged
        } else if self.ahead_count > 0 {
            BaselineRelationState::Ahead
        } else if self.behind_count > 0 {
            BaselineRelationState::Behind
        } else {
            BaselineRelationState::Same
        }
    }

    /// Same, ahead, behind or both (diverged), from the two counts.
    pub fn state(&self) -> (r: BaselineRelationState)
        ensures
            r == self.spec_state(),
    {
        if self.ahead_count > 0 && self.behind_count > 0 {
            BaselineRelationState::Diverged
        } else if self.ahead_count > 0 {
            BaselineRelationState::Ahead
        } else if self.behind_count > 0 {
            BaselineRelationState::Behind
        } else {
            BaselineRelationState::Same
        }
    }
}

#[derive(Clone, Debug, PartialEq, Eq)]
pub struct EmbeddedSessionRef {
    pub provider: String,
    pub id: String,
    pub label: Option<String>,
    pub detected_at: i64,
}

#[derive(Clone, Debug, PartialEq, Eq)]
pub struct ProjectRootRecord {
    pub id: String,
    pub root_path: String,
    pub display_name: String,
    pub created_at: i64,
    pub updated_at: i64,
}

#[derive(Clone, Debug, PartialEq, Eq)]
pub struct WorkspaceStatus {
    pub workspace_state: WorkspaceState,
    pub has_working_copy_changes: bool,
    pub effective_added_lines: i64,
    pub effective_removed_lines: i64,
    pub has_conflicts: bool,
    pub unpublished_change_count: i64,
    pub unpublished_added_lines: i64,
    pub unpublished_removed_lines: i64,
    pub not_in_default_available: bool,
    pub not_in_default_change_count: i64,
    pub not_in_default_added_lines: i64,
    pub not_in_default_removed_lines: i64,
    pub local_relation: Option<BaselineRelation>,
    pub remote_relation: Option<BaselineRelation>,
    pub primary_relation: BaselineRelationTarget,
    pub bookmarks: Vec<String>,
    pub bookmark_relation: WorkspaceBookmarkRelation,
    pub unread_notes: i64,
    pub active_agent_count: i64,
    pub agent_attention_state: Option<AgentAttentionState>,
    pub recent_activity_at: i64,
    pub diff_text: String,
}

impl WorkspaceStatus {
    /// The status that a workspace has before anything is known of it.
    pub open spec fn is_default(&self) -> bool {
        &&& self.workspace_state == WorkspaceState::Unknown
        &&& !self.has_working_copy_changes
        &&& self.effective_added_lines == 0
        &&& self.effective_removed_lines == 0
        &&& !self.has_conflicts
        &&& self.unpublished_change_count == 0
        &&& self.unpublished_added_lines == 0
        &&& self.unpublished_removed_lines == 0
        &&& !self.not_in_default_available
        &&& self.not_in_default_change_count == 0
        &&& self.not_in_default_added_lines == 0
        &&& self.not_in_default_removed_lines == 0
        &&& self.local_relation is None
        &&& self.remote_relation is None
        &&& self.primary_relation == BaselineRelationTarget::NoBaseline
        &&& self.bookmarks@.len() == 0
        &&& self.bookmark_relation == WorkspaceBookmarkRelation::NoBookmark
        &&& self.unread_notes == 0
        &&& self.active_agent_count == 0
        &&& self.agent_attention_state is None
        &&& self.recent_activity_at == 0
        &&& self.diff_text@.len() == 0
    }
}

impl Default for WorkspaceStatus {
    fn default() -> (r: Self)
        ensures
            r.is_default(),
    {
        WorkspaceStatus {
            workspace_state: WorkspaceState::Unknown,
            has_working_copy_changes: false,
            effective_added_lines: 0,
            effective_removed_lines: 0,
            has_conflicts: false,
            unpublished_change_count: 0,
            unpublished_added_lines: 0,
            unpublished_removed_lines: 0,
            not_in_default_available: false,
            not_in_default_change_count: 0,
            not_in_default_added_lines: 0,
            not_in_default_removed_lines: 0,
            local_relation: None,
            remote_relation: None,
            primary_relation: BaselineRelationTarget::NoBaseline,
            bookmarks: Vec::new(),
            bookmark_relation: WorkspaceBookmarkRelation::NoBookmark,
            unread_notes: 0,
            active_agent_count: 0,
            agent_attention_state: None,
            recent_activity_at: 0,
            diff_text: String::new(),
        }
    }
}

#[derive(Clone, Debug, PartialEq, Eq)]
pub struct WorkspaceSummary {
    pub id: String,
    pub root_id: String,
    pub root_path: String,
    pub project_display_name: String,
    pub workspace_name: String,
    pub display_name: String,
    pub workspace_path: String,
    pub status: WorkspaceStatus,
    pub created_at: i64,
    pub updated_at: i64,
    pub last_opened_at: i64,
}

#[derive(Clone, Debug, PartialEq, Eq)]
pub struct NoteRecord {
    pub workspace_id: String,
    pub path: String,
    pub file_name: String,
    pub title: String,
    pub body: String,
    pub unread: bool,
    pub updated_at: i64,
    pub last_read_at: i64,
}

#[derive(Clone, Debug, PartialEq, Eq)]
pub struct TerminalPanePayload {
    pub kind: TerminalKind,
    pub shell_type: String,
    pub session_id: Option<String>,
    pub session_state: SessionState,
    pub cwd: String,
    pub command: String,
    pub command_parameters: Vec<String>,
    pub on_exit: TerminalExitBehavior,
    pub default_width_chars: u16,
    pub exit_code: Option<i64>,
    pub auto_start: bool,
    pub restored_buffer: String,
    pub embedded_session: Option<EmbeddedSessionRef>,
    pub embedded_session_correlation_id: Option<String>,
    pub agent_attention_state: Option<AgentAttentionState>,
}

#[derive(Clone, Debug, PartialEq, Eq)]
pub struct NotePanePayload {
    pub note_path: Option<String>,
}

#[derive(Clone, Copy, Debug, PartialEq, Eq)]
pub struct DiffPanePayload {
    pub pinned: bool,
}

#[derive(Clone, Debug, PartialEq, Eq)]
pub struct SessionSnapshot {
    pub id: String,
    pub workspace_id: String,
    pub pane_id: String,
    pub kind: TerminalKind,
    pub cwd: String,
    pub command: String,
    pub buffer: String,
    pub screen: Option<String>,
    pub state: SessionState,
    pub exit_code: Option<i64>,
    pub embedded_session: Option<EmbeddedSessionRef>,
    pub embedded_session_correlation_id: Option<String>,
    pub agent_attention_state: Option<AgentAttentionState>,
}

#[derive(Clone, Debug, PartialEq, Eq)]
pub struct BrowserRefRecord {
    pub workspace_id: String,
    pub pane_id: String,
    pub url: String,
    pub title: String,
    pub updated_at: i64,
}

/// The prefix that marks a workspace whose directory version control does not
/// record: `jj-missing://`.
pub open spec fn missing_workspace_path_prefix() -> Seq<char> {
    seq!['j', 'j', '-', 'm', 'i', 's', 's', 'i', 'n', 'g', ':', '/', '/']
}

fn missing_prefix_chars() -> (v: Vec<char>)
    ensures
        v@ == missing_workspace_path_prefix(),
{
    let v: Vec<char> = vec!['j', 'j', '-', 'm', 'i', 's', 's', 'i', 'n', 'g', ':', '/', '/'];
    proof {
        assert(v@ =~= missing_workspace_path_prefix());
    }
    v
}

/// The placeholder path of a workspace that has no recorded directory.
pub fn encode_missing_workspace_path(workspace_name: &str) -> (r: String)
    ensures
        r@ == missing_workspace_path_prefix() + workspace_name@,
{
    let prefix = missing_prefix_chars();
    let name = str_chars(workspace_name);
    let all = concat(prefix.as_slice(), name.as_slice());
    string_from_chars(all.as_slice())
}

/// The path is a real directory, not a placeholder for a missing one.
pub fn has_recorded_workspace_path(workspace_path: &str) -> (r: bool)
    ensures
        r == !starts_with(workspace_path@, missing_workspace_path_prefix()),
{
    let prefix = missing_prefix_chars();
    let path = str_chars(workspace_path);
    !starts_with_exec(path.as_slice(), prefix.as_slice())
}

/// A placeholder path is never a recorded one: decoding what was encoded
/// tells that the directory is missing.
pub proof fn lemma_missing_path_is_not_recorded(workspace_name: Seq<char>)
    ensures
        starts_with(missing_workspace_path_prefix() + workspace_name, missing_workspace_path_prefix()),
{
    let p = missing_workspace_path_prefix();
    assert((p + workspace_name).subrange(0, p.len() as int) =~= p);
}

impl WorkspaceSummary {
    /// The name the user gave the workspace, else its `jj` name.
    pub fn display_name_or_workspace_name(&self) -> (r: &str)
        ensures
            r@ == if self.display_name@.len() == 0 {
                self.workspace_name@
            } else {
                self.display_name@
            },
    {
        if self.display_name.as_str().is_empty() {
            self.workspace_name.as_str()
        } else {
            self.display_name.as_str()
        }
    }
}

/// The pane an operation named does not exist.
#[derive(Clone, Debug, PartialEq, Eq)]
pub enum LayoutError {
    MissingPane(String),
}

impl LayoutError {
    pub fn message(&self) -> (r: String)
        ensures
            match *self {
                LayoutError::MissingPane(id) => r@ == "pane `"@ + id@ + "` does not exist"@,
            },
    {
        match self {
            LayoutError::MissingPane(id) => {
                let mut out = str_chars("pane `");
                crate::text::push_all(&mut out, str_chars(id.as_str()).as_slice());
                crate::text::push_all(&mut out, str_chars("` does not exist").as_slice());
                string_from_chars(out.as_slice())
            },
        }
    }
}

/// The default title of a terminal pane of a kind.
pub open spec fn terminal_title_text(kind: TerminalKind) -> Seq<char> {
    match kind {
        TerminalKind::Shell => "Shell"@,
        TerminalKind::Codex => "Codex"@,
        TerminalKind::Pi => "PI"@,
        TerminalKind::Nvim => "Nvim"@,
        TerminalKind::Jjui => "JJ UI"@,
    }
}

pub fn terminal_title(kind: &TerminalKind) -> (r: &'static str)
    ensures
        r@ == terminal_title_text(*kind),
{
    match kind {
        TerminalKind::Shell => "Shell",
        TerminalKind::Codex => "Codex",
        TerminalKind::Pi => "PI",
        TerminalKind::Nvim => "Nvim",
        TerminalKind::Jjui => "JJ UI",
    }
}

/// The program a terminal of a kind runs; empty for the user's shell.
pub open spec fn terminal_command_text(kind: TerminalKind) -> Seq<char> {
    match kind {
        TerminalKind::Shell => ""@,
        TerminalKind::Codex => "codex"@,
        TerminalKind::Pi => "pi"@,
        TerminalKind::Nvim => "nvim"@,
        TerminalKind::Jjui => "jjui"@,
    }
}

pub fn terminal_command(kind: &TerminalKind) -> (r: &'static str)
    ensures
        r@ == terminal_command_text(*kind),
{
    match kind {
        TerminalKind::Shell => "",
        TerminalKind::Codex => "codex",
        TerminalKind::Pi => "pi",
        TerminalKind::Nvim => "nvim",
        TerminalKind::Jjui => "jjui",
    }
}

/// A workspace state in words.
pub open spec fn workspace_status_label_text(state: WorkspaceState) -> Seq<char> {
    match state {
        WorkspaceState::Published => "published"@,
        WorkspaceState::MergedLocal => "merged local"@,
        WorkspaceState::Draft => "draft"@,
        WorkspaceState::Conflicted => "conflicted"@,
        WorkspaceState::Unknown => "unknown"@,
    }
}

pub fn workspace_status_label(state: &WorkspaceState) -> (r: &'static str)
    ensures
        r@ == workspace_status_label_text(*state),
{
    match state {
        WorkspaceState::Published => "published",
        WorkspaceState::MergedLocal => "merged local",
        WorkspaceState::Draft => "draft",
        WorkspaceState::Conflicted => "conflicted",
        WorkspaceState::Unknown => "unknown",
    }
}

/// How a stopped terminal is labelled: `exited`, with the status when it
/// is not zero.
pub open spec fn exit_status_label(exit_code: Option<i64>) -> Seq<char> {
    match exit_code {
        Some(code) => if code == 0 {
            "exited"@
        } else {
            "exited with status "@ + crate::num::dec_int(code as int)
        },
        None => "exited"@,
    }
}

pub fn terminal_exit_status_label(exit_code: Option<i64>) -> (r: String)
    ensures
        r@ == exit_status_label(exit_code),
{
    match exit_code {
        Some(code) => if code == 0 {
            "exited".to_owned()
        } else {
            let mut out = str_chars("exited with status ");
            crate::text::push_all(&mut out, crate::num::i64_dec(code).as_slice());
            string_from_chars(out.as_slice())
        },
        None => "exited".to_owned(),
    }
}

/// Lines that page-up (-1) or page-down (1) scrolls a terminal with `rows`
/// rows: one less than a screen, at least one; 24 rows when the size is
/// not known yet.
pub open spec fn page_scroll_lines(rows: Option<u16>, direction: int) -> int {
    let r = match rows {
        Some(r) => r as int,
        None => 24,
    };
    direction * (if r - 1 >= 1 {
        r - 1
    } else {
        1
    })
}

pub fn terminal_page_scroll_lines(rows: Option<u16>, direction: isize) -> (r: isize)
    requires
        isize::MIN <= page_scroll_lines(rows, direction as int) <= isize::MAX,
    ensures
        r == page_scroll_lines(rows, direction as int),
{
    let r: u16 = match rows {
        Some(r) => r,
        None => 24,
    };
    let lines: u16 = if r >= 2 {
        r - 1
    } else {
        1
    };
    direction * (lines as isize)
}

} // verus!
