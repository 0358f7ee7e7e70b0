//! How workspace records are written to and read from database columns:
//! enums as words, booleans as integers, and checked reads of column
//! values.

use vstd::prelude::*;
use crate::types::{
    BaselineRelationTarget, AgentAttentionState, SessionState, TerminalKind, WorkspaceBookmarkRelation, WorkspaceState,
};
use crate::text::{str_chars, is_word};

verus! {

/// A database column value, as far as the codecs read it: a real number is
/// only recognised, never read.
#[derive(Clone, Debug, PartialEq, Eq)]
pub enum DbValue {
    Null,
    Integer(i64),
    Real,
    Text(String),
    Blob(Vec<u8>),
}

/// Why a stored record could not be read.
#[derive(Clone, Debug, PartialEq, Eq)]
pub enum StoreError {
    Database(String),
    Json(String),
    Io(String),
    UnexpectedValue { column: String, value: DbValue },
}

pub fn text(value: DbValue, column: &str) -> (r: Result<String, StoreError>)
    ensures
        match value {
            DbValue::Text(t) => r == Ok::<String, StoreError>(t),
            _ => r matches Err(StoreError::UnexpectedValue { column: c, value: v }) && c@ == column@
                && v == value,
        },
{
    match value {
        DbValue::Text(t) => Ok(t),
        other => Err(StoreError::UnexpectedValue { column: column.to_owned(), value: other }),
    }
}

pub fn integer(value: DbValue, column: &str) -> (r: Result<i64, StoreError>)
    ensures
        match value {
            DbValue::Integer(n) => r == Ok::<i64, StoreError>(n),
            _ => r matches Err(StoreError::UnexpectedValue { column: c, value: v }) && c@ == column@
                && v == value,
        },
{
    match value {
        DbValue::Integer(n) => Ok(n),
        other => Err(StoreError::UnexpectedValue { column: column.to_owned(), value: other }),
    }
}

/// What an optional integer column reads as: `Some` of the value for
/// `NULL` or an integer, `None` for anything else.
pub open spec fn read_optional_integer(value: DbValue) -> Option<Option<i64>> {
    match value {
        DbValue::Null => Some(None),
        DbValue::Integer(n) => Some(Some(n)),
        _ => None,
    }
}

pub fn optional_integer(value: DbValue, column: &str) -> (r: Result<Option<i64>, StoreError>)
    ensures
        match read_optional_integer(value) {
            Some(v) => r == Ok::<Option<i64>, StoreError>(v),
            None => r matches Err(StoreError::UnexpectedValue { column: c, value: v }) && c@ == column@
                && v == value,
        },
{
    match value {
        DbValue::Null => Ok(None),
        DbValue::Integer(n) => Ok(Some(n)),
        other => Err(StoreError::UnexpectedValue { column: column.to_owned(), value: other }),
    }
}

pub fn optional_text(value: DbValue, column: &str) -> (r: Result<Option<String>, StoreError>)
    ensures
        match value {
            DbValue::Null => r == Ok::<Option<String>, StoreError>(None),
            DbValue::Text(t) => r == Ok::<Option<String>, StoreError>(Some(t)),
            _ => r matches Err(StoreError::UnexpectedValue { column: c, value: v }) && c@ == column@
                && v == value,
        },
{
    match value {
        DbValue::Null => Ok(None),
        DbValue::Text(t) => Ok(Some(t)),
        other => Err(StoreError::UnexpectedValue { column: column.to_owned(), value: other }),
    }
}

/// How an optional integer is written: `NULL` or the integer.
pub open spec fn optional_integer_value(value: Option<i64>) -> DbValue {
    match value {
        Some(n) => DbValue::Integer(n),
        None => DbValue::Null,
    }
}

pub fn optional_i64_to_value(value: Option<i64>) -> (r: DbValue)
    ensures
        r == optional_integer_value(value),
{
    match value {
        Some(n) => DbValue::Integer(n),
        None => DbValue::Null,
    }
}

pub fn optional_str_to_value(value: Option<&str>) -> (r: DbValue)
    ensures
        match value {
            Some(s) => r matches DbValue::Text(t) && t@ == s@,
            None => r == DbValue::Null,
        },
{
    match value {
        Some(s) => DbValue::Text(s.to_owned()),
        None => DbValue::Null,
    }
}

pub fn bool_to_int(value: bool) -> (r: i64)
    ensures
        r == if value {
            1int
        } else {
            0int
        },
{
    if value {
        1
    } else {
        0
    }
}

// ---------------------------------------------------------------------------
// Enums as words
// ---------------------------------------------------------------------------

pub open spec fn workspace_state_word(value: WorkspaceState) -> Seq<char> {
    match value {
        WorkspaceState::Published => "published"@,
        WorkspaceState::MergedLocal => "merged-local"@,
        WorkspaceState::Draft => "draft"@,
        WorkspaceState::Conflicted => "conflicted"@,
        WorkspaceState::Unknown => "unknown"@,
    }
}

/// The state a word names; unknown for any other word.
pub open spec fn workspace_state_of_word(word: Seq<char>) -> WorkspaceState {
    if word == "published"@ {
        WorkspaceState::Published
    } else if word == "merged-local"@ {
        WorkspaceState::MergedLocal
    } else if word == "draft"@ {
        WorkspaceState::Draft
    } else if word == "conflicted"@ {
        WorkspaceState::Conflicted
    } else {
        WorkspaceState::Unknown
    }
}

pub fn workspace_state_to_str(value: &WorkspaceState) -> (r: &'static str)
    ensures
        r@ == workspace_state_word(*value),
{
    match value {
        WorkspaceState::Published => "published",
        WorkspaceState::MergedLocal => "merged-local",
        WorkspaceState::Draft => "draft",
        WorkspaceState::Conflicted => "conflicted",
        WorkspaceState::Unknown => "unknown",
    }
}

pub fn parse_workspace_state(value: &str) -> (r: WorkspaceState)
    ensures
        r == workspace_state_of_word(value@),
{
    let w = str_chars(value);
    let w = w.as_slice();
    if is_word(w, "published") {
        WorkspaceState::Published
    } else if is_word(w, "merged-local") {
        WorkspaceState::MergedLocal
    } else if is_word(w, "draft") {
        WorkspaceState::Draft
    } else if is_word(w, "conflicted") {
        WorkspaceState::Conflicted
    } else {
        WorkspaceState::Unknown
    }
}

pub open spec fn bookmark_relation_word(value: WorkspaceBookmarkRelation) -> Seq<char> {
    match value {
        WorkspaceBookmarkRelation::NoBookmark => "none"@,
        WorkspaceBookmarkRelation::Exact => "exact"@,
        WorkspaceBookmarkRelation::Above => "above"@,
    }
}

pub open spec fn bookmark_relation_of_word(word: Seq<char>) -> WorkspaceBookmarkRelation {
    if word == "exact"@ {
        WorkspaceBookmarkRelation::Exact
    } else if word == "above"@ {
        WorkspaceBookmarkRelation::Above
    } else {
        WorkspaceBookmarkRelation::NoBookmark
    }
}

pub fn bookmark_relation_to_str(value: &WorkspaceBookmarkRelation) -> (r: &'static str)
    ensures
        r@ == bookmark_relation_word(*value),
{
    match value {
        WorkspaceBookmarkRelation::NoBookmark => "none",
        WorkspaceBookmarkRelation::Exact => "exact",
        WorkspaceBookmarkRelation::Above => "above",
    }
}

pub fn parse_bookmark_relation(value: &str) -> (r: WorkspaceBookmarkRelation)
    ensures
        r == bookmark_relation_of_word(value@),
{
    let w = str_chars(value);
    if is_word(w.as_slice(), "exact") {
        WorkspaceBookmarkRelation::Exact
    } else if is_word(w.as_slice(), "above") {
        WorkspaceBookmarkRelation::Above
    } else {
        WorkspaceBookmarkRelation::NoBookmark
    }
}

pub open spec fn agent_attention_word(value: AgentAttentionState) -> Seq<char> {
    match value {
        AgentAttentionState::IdleSeen => "idle-seen"@,
        AgentAttentionState::Thinking => "thinking"@,
        AgentAttentionState::IdleUnseen => "idle-unseen"@,
    }
}

pub open spec fn agent_attention_of_word(word: Seq<char>) -> Option<AgentAttentionState> {
    if word == "idle-seen"@ {
        Some(AgentAttentionState::IdleSeen)
    } else if word == "thinking"@ {
        Some(AgentAttentionState::Thinking)
    } else if word == "idle-unseen"@ {
        Some(AgentAttentionState::IdleUnseen)
    } else {
        None
    }
}

pub fn optional_agent_attention_to_value(value: &Option<AgentAttentionState>) -> (r: DbValue)
    ensures
        match *value {
            Some(a) => r matches DbValue::Text(t) && t@ == agent_attention_word(a),
            None => r == DbValue::Null,
        },
{
    match value {
        Some(AgentAttentionState::IdleSeen) => DbValue::Text("idle-seen".to_owned()),
        Some(AgentAttentionState::Thinking) => DbValue::Text("thinking".to_owned()),
        Some(AgentAttentionState::IdleUnseen) => DbValue::Text("idle-unseen".to_owned()),
        None => DbValue::Null,
    }
}

/// A stored agent attention state: none for null or an unknown word.
pub fn parse_optional_agent_attention(value: DbValue) -> (r: Result<
    Option<AgentAttentionState>,
    StoreError,
>)
    ensures
        match value {
            DbValue::Null => r == Ok::<Option<AgentAttentionState>, StoreError>(None),
            DbValue::Text(t) => r == Ok::<Option<AgentAttentionState>, StoreError>(
                agent_attention_of_word(t@),
            ),
            _ => r matches Err(StoreError::UnexpectedValue { column: c, value: v }) && c@
                == "agent_attention_state"@ && v == value,
        },
{
    match value {
        DbValue::Null => Ok(None),
        DbValue::Text(t) => {
            let w = str_chars(t.as_str());
            let w = w.as_slice();
            Ok(
                if is_word(w, "idle-seen") {
                    Some(AgentAttentionState::IdleSeen)
                } else if is_word(w, "thinking") {
                    Some(AgentAttentionState::Thinking)
                } else if is_word(w, "idle-unseen") {
                    Some(AgentAttentionState::IdleUnseen)
                } else {
                    None
                },
            )
        },
        other => Err(
            StoreError::UnexpectedValue { column: "agent_attention_state".to_owned(), value: other },
        ),
    }
}

pub open spec fn terminal_kind_word(value: TerminalKind) -> Seq<char> {
    match value {
        TerminalKind::Shell => "shell"@,
        TerminalKind::Codex => "codex"@,
        TerminalKind::Pi => "pi"@,
        TerminalKind::Nvim => "nvim"@,
        TerminalKind::Jjui => "jjui"@,
    }
}

pub open spec fn terminal_kind_of_word(word: Seq<char>) -> TerminalKind {
    if word == "codex"@ {
        TerminalKind::Codex
    } else if word == "pi"@ {
        TerminalKind::Pi
    } else if word == "nvim"@ {
        TerminalKind::Nvim
    } else if word == "jjui"@ {
        TerminalKind::Jjui
    } else {
        TerminalKind::Shell
    }
}

pub fn terminal_kind_to_str(value: &TerminalKind) -> (r: &'static str)
    ensures
        r@ == terminal_kind_word(*value),
{
    match value {
        TerminalKind::Shell => "shell",
        TerminalKind::Codex => "codex",
        TerminalKind::Pi => "pi",
        TerminalKind::Nvim => "nvim",
        TerminalKind::Jjui => "jjui",
    }
}

pub fn parse_terminal_kind(value: &str) -> (r: TerminalKind)
    ensures
        r == terminal_kind_of_word(value@),
{
    let w = str_chars(value);
    let w = w.as_slice();
    if is_word(w, "codex") {
        TerminalKind::Codex
    } else if is_word(w, "pi") {
        TerminalKind::Pi
    } else if is_word(w, "nvim") {
        TerminalKind::Nvim
    } else if is_word(w, "jjui") {
        TerminalKind::Jjui
    } else {
        TerminalKind::Shell
    }
}

pub open spec fn session_state_word(value: SessionState) -> Seq<char> {
    match value {
        SessionState::Live => "live"@,
        SessionState::Stopped => "stopped"@,
        SessionState::Missing => "missing"@,
    }
}

pub open spec fn session_state_of_word(word: Seq<char>) -> SessionState {
    if word == "live"@ {
        SessionState::Live
    } else if word == "missing"@ {
        SessionState::Missing
    } else {
        SessionState::Stopped
    }
}

pub fn session_state_to_str(value: &SessionState) -> (r: &'static str)
    ensures
        r@ == session_state_word(*value),
{
    match value {
        SessionState::Live => "live",
        SessionState::Stopped => "stopped",
        SessionState::Missing => "missing",
    }
}

pub fn parse_session_state(value: &str) -> (r: SessionState)
    ensures
        r == session_state_of_word(value@),
{
    let w = str_chars(value);
    if is_word(w.as_slice(), "live") {
        SessionState::Live
    } else if is_word(w.as_slice(), "missing") {
        SessionState::Missing
    } else {
        SessionState::Stopped
    }
}

pub open spec fn primary_relation_word(value: BaselineRelationTarget) -> Seq<char> {
    match value {
        BaselineRelationTarget::Local => "local"@,
        BaselineRelationTarget::Remote => "remote"@,
        BaselineRelationTarget::NoBaseline => "none"@,
    }
}

/// The baseline a word names; none for any other word.
pub open spec fn primary_relation_of_word(word: Seq<char>) -> BaselineRelationTarget {
    if word == "local"@ {
        BaselineRelationTarget::Local
    } else if word == "remote"@ {
        BaselineRelationTarget::Remote
    } else {
        BaselineRelationTarget::NoBaseline
    }
}

pub fn primary_relation_to_str(value: &BaselineRelationTarget) -> (r: &'static str)
    ensures
        r@ == primary_relation_word(*value),
{
    match value {
        BaselineRelationTarget::Local => "local",
        BaselineRelationTarget::Remote => "remote",
        BaselineRelationTarget::NoBaseline => "none",
    }
}

pub fn parse_primary_relation(value: &str) -> (r: BaselineRelationTarget)
    ensures
        r == primary_relation_of_word(value@),
{
    let w = str_chars(value);
    if is_word(w.as_slice(), "local") {
        BaselineRelationTarget::Local
    } else if is_word(w.as_slice(), "remote") {
        BaselineRelationTarget::Remote
    } else {
        BaselineRelationTarget::NoBaseline
    }
}

/// The primary baseline reads back as it was written.
pub proof fn lemma_primary_relation_round_trip(value: BaselineRelationTarget)
    ensures
        primary_relation_of_word(primary_relation_word(value)) == value,
{
    reveal_strlit("local");
    reveal_strlit("remote");
    reveal_strlit("none");
    assert("local"@[0] == 'l');
    assert("remote"@[0] == 'r');
    assert("none"@[0] == 'n');
}

// ---------------------------------------------------------------------------
// What is written reads back
// ---------------------------------------------------------------------------

/// Every value stored as a word reads back as the same value.
pub proof fn lemma_words_round_trip(
    state: WorkspaceState,
    relation: WorkspaceBookmarkRelation,
    attention: AgentAttentionState,
    kind: TerminalKind,
    session: SessionState,
)
    ensures
        workspace_state_of_word(workspace_state_word(state)) == state,
        bookmark_relation_of_word(bookmark_relation_word(relation)) == relation,
        agent_attention_of_word(agent_attention_word(attention)) == Some(attention),
        terminal_kind_of_word(terminal_kind_word(kind)) == kind,
        session_state_of_word(session_state_word(session)) == session,
{
    reveal_strlit("published");
    reveal_strlit("merged-local");
    reveal_strlit("draft");
    reveal_strlit("conflicted");
    reveal_strlit("unknown");
    reveal_strlit("none");
    reveal_strlit("exact");
    reveal_strlit("above");
    reveal_strlit("idle-seen");
    reveal_strlit("thinking");
    reveal_strlit("idle-unseen");
    reveal_strlit("shell");
    reveal_strlit("codex");
    reveal_strlit("pi");
    reveal_strlit("nvim");
    reveal_strlit("jjui");
    reveal_strlit("live");
    reveal_strlit("stopped");
    reveal_strlit("missing");
    assert("published"@[0] == 'p');
    assert("published"@.len() == 9);
    assert("merged-local"@[0] == 'm');
    assert("merged-local"@.len() == 12);
    assert("draft"@[0] == 'd');
    assert("draft"@.len() == 5);
    assert("conflicted"@[0] == 'c');
    assert("conflicted"@.len() == 10);
    assert("unknown"@[0] == 'u');
    assert("unknown"@.len() == 7);
    assert("none"@[0] == 'n');
    assert("none"@.len() == 4);
    assert("exact"@[0] == 'e');
    assert("exact"@.len() == 5);
    assert("above"@[0] == 'a');
    assert("above"@.len() == 5);
    assert("idle-seen"@[0] == 'i');
    assert("idle-seen"@.len() == 9);
    assert("thinking"@[0] == 't');
    assert("thinking"@.len() == 8);
    assert("idle-unseen"@[0] == 'i');
    assert("idle-unseen"@.len() == 11);
    assert("shell"@[0] == 's');
    assert("shell"@.len() == 5);
    assert("codex"@[0] == 'c');
    assert("codex"@.len() == 5);
    assert("pi"@[0] == 'p');
    assert("pi"@.len() == 2);
    assert("nvim"@[0] == 'n');
    assert("nvim"@.len() == 4);
    assert("jjui"@[0] == 'j');
    assert("jjui"@.len() == 4);
    assert("live"@[0] == 'l');
    assert("live"@.len() == 4);
    assert("stopped"@[0] == 's');
    assert("stopped"@.len() == 7);
    assert("missing"@[0] == 'm');
    assert("missing"@.len() == 7);
    assert("idle-seen"@[5] == 's' && "idle-unseen"@[5] == 'u');
}

/// An optional integer reads back as written.
pub proof fn lemma_optional_integer_round_trip(value: Option<i64>)
    ensures
        read_optional_integer(optional_integer_value(value)) == Some(value),
{
}

} // verus!
