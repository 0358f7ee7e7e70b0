//! Records as database rows: the column values a record is written as, and
//! the record a row reads back as, refused at the first column whose value
//! is of the wrong kind.

use vstd::prelude::*;
use crate::activity::PaneActivity;
use crate::codecs::{
    integer, optional_integer, optional_text, text, DbValue, StoreError, terminal_kind_to_str,
    parse_terminal_kind, session_state_to_str, parse_session_state, terminal_kind_word,
    terminal_kind_of_word, session_state_word, session_state_of_word, lemma_words_round_trip,
};
use crate::types::{ProjectRootRecord, SessionSnapshot, SessionState, TerminalKind, WorkspaceState,
    WorkspaceBookmarkRelation, AgentAttentionState, WorkspaceSummary, WorkspaceStatus, BaselineRelation,
    BaselineRelationTarget};
use crate::codecs::{
    workspace_state_to_str, parse_workspace_state, workspace_state_word, workspace_state_of_word,
    bookmark_relation_to_str, parse_bookmark_relation, bookmark_relation_word, bookmark_relation_of_word,
    primary_relation_to_str, parse_primary_relation, primary_relation_word, primary_relation_of_word,
    optional_agent_attention_to_value, parse_optional_agent_attention, agent_attention_word,
    agent_attention_of_word, lemma_primary_relation_round_trip,
};
use crate::jj::string_views;

verus! {

/// What a column holds.
#[derive(Clone, Copy, Debug, PartialEq, Eq, Structural)]
pub enum ColumnKind {
    Text,
    Integer,
    OptionalInteger,
    OptionalText,
}

/// A value of the kind a column holds.
pub open spec fn fits(kind: ColumnKind, value: DbValue) -> bool {
    match kind {
        ColumnKind::Text => value is Text,
        ColumnKind::Integer => value is Integer,
        ColumnKind::OptionalInteger => value is Integer || value is Null,
        ColumnKind::OptionalText => value is Text || value is Null,
    }
}

/// Column `i` is the first whose value is of the wrong kind.
pub open spec fn is_first_misfit(kinds: Seq<ColumnKind>, row: Seq<DbValue>, i: int) -> bool {
    &&& 0 <= i < kinds.len()
    &&& !fits(kinds[i], row[i])
    &&& forall|j: int| 0 <= j < i ==> fits(kinds[j], row[j])
}

/// Every column holds a value of its kind.
pub open spec fn row_fits(kinds: Seq<ColumnKind>, row: Seq<DbValue>) -> bool {
    forall|j: int| 0 <= j < kinds.len() ==> fits(kinds[j], row[j])
}

pub open spec fn text_of(value: DbValue) -> String {
    match value {
        DbValue::Text(t) => t,
        _ => arbitrary(),
    }
}

pub open spec fn integer_of(value: DbValue) -> i64 {
    match value {
        DbValue::Integer(n) => n,
        _ => 0,
    }
}

pub open spec fn optional_integer_of(value: DbValue) -> Option<i64> {
    match value {
        DbValue::Integer(n) => Some(n),
        _ => None,
    }
}

pub open spec fn optional_text_of(value: DbValue) -> Option<String> {
    match value {
        DbValue::Text(t) => Some(t),
        _ => None,
    }
}

pub open spec fn optional_integer_column(value: Option<i64>) -> DbValue {
    match value {
        Some(n) => DbValue::Integer(n),
        None => DbValue::Null,
    }
}

pub open spec fn optional_text_column(value: Option<String>) -> DbValue {
    match value {
        Some(t) => DbValue::Text(t),
        None => DbValue::Null,
    }
}

fn copy_optional_text(value: &Option<String>) -> (r: DbValue)
    ensures
        r == optional_text_column(*value),
{
    match value {
        Some(t) => DbValue::Text(t.clone()),
        None => DbValue::Null,
    }
}

fn optional_integer_to_column(value: Option<i64>) -> (r: DbValue)
    ensures
        r == optional_integer_column(value),
{
    match value {
        Some(n) => DbValue::Integer(n),
        None => DbValue::Null,
    }
}

// ---------------------------------------------------------------------------
// Pane activity
// ---------------------------------------------------------------------------

/// The kinds of the pane activity columns, in the table's order.
pub open spec fn pane_activity_kinds() -> Seq<ColumnKind> {
    seq![
        ColumnKind::Text,
        ColumnKind::Text,
        ColumnKind::Integer,
        ColumnKind::Integer,
        ColumnKind::Integer,
        ColumnKind::OptionalInteger,
        ColumnKind::OptionalInteger,
        ColumnKind::OptionalText,
        ColumnKind::OptionalText,
        ColumnKind::Integer,
        ColumnKind::Integer,
        ColumnKind::Integer,
        ColumnKind::Integer,
    ]
}

/// The names of the pane activity columns, in the table's order.
pub open spec fn pane_activity_columns() -> Seq<Seq<char>> {
    seq![
        "workspace_id"@,
        "pane_id"@,
        "last_activity_at_ms"@,
        "last_seen_at_ms"@,
        "last_seen_activity_at_ms"@,
        "last_tmux_activity_at_s"@,
        "last_seen_tmux_activity_at_s"@,
        "last_screen_fingerprint"@,
        "last_seen_screen_fingerprint"@,
        "needs_attention"@,
        "needs_attention_at_ms"@,
        "needs_attention_cleared_at_ms"@,
        "updated_at_ms"@,
    ]
}

/// The column values a pane activity record is written as; the attention
/// flag as one or zero.
pub open spec fn pane_activity_values(a: PaneActivity) -> Seq<DbValue> {
    seq![
        DbValue::Text(a.workspace_id),
        DbValue::Text(a.pane_id),
        DbValue::Integer(a.last_activity_at_ms),
        DbValue::Integer(a.last_seen_at_ms),
        DbValue::Integer(a.last_seen_activity_at_ms),
        optional_integer_column(a.last_tmux_activity_at_s),
        optional_integer_column(a.last_seen_tmux_activity_at_s),
        optional_text_column(a.last_screen_fingerprint),
        optional_text_column(a.last_seen_screen_fingerprint),
        DbValue::Integer(if a.needs_attention { 1 } else { 0 }),
        DbValue::Integer(a.needs_attention_at_ms),
        DbValue::Integer(a.needs_attention_cleared_at_ms),
        DbValue::Integer(a.updated_at_ms),
    ]
}

/// The record a fitting pane activity row reads as; a nonzero flag is set.
pub open spec fn pane_activity_of_row(row: Seq<DbValue>) -> PaneActivity {
    PaneActivity {
        workspace_id: text_of(row[0]),
        pane_id: text_of(row[1]),
        last_activity_at_ms: integer_of(row[2]),
        last_seen_at_ms: integer_of(row[3]),
        last_seen_activity_at_ms: integer_of(row[4]),
        last_tmux_activity_at_s: optional_integer_of(row[5]),
        last_seen_tmux_activity_at_s: optional_integer_of(row[6]),
        last_screen_fingerprint: optional_text_of(row[7]),
        last_seen_screen_fingerprint: optional_text_of(row[8]),
        needs_attention: integer_of(row[9]) != 0,
        needs_attention_at_ms: integer_of(row[10]),
        needs_attention_cleared_at_ms: integer_of(row[11]),
        updated_at_ms: integer_of(row[12]),
    }
}

/// The column values of a pane activity record, in the table's order.
pub fn pane_activity_row(activity: &PaneActivity) -> (row: Vec<DbValue>)
    ensures
        row@ == pane_activity_values(*activity),
{
    let mut row: Vec<DbValue> = Vec::new();
    row.push(DbValue::Text(activity.workspace_id.clone()));
    row.push(DbValue::Text(activity.pane_id.clone()));
    row.push(DbValue::Integer(activity.last_activity_at_ms));
    row.push(DbValue::Integer(activity.last_seen_at_ms));
    row.push(DbValue::Integer(activity.last_seen_activity_at_ms));
    row.push(optional_integer_to_column(activity.last_tmux_activity_at_s));
    row.push(optional_integer_to_column(activity.last_seen_tmux_activity_at_s));
    row.push(copy_optional_text(&activity.last_screen_fingerprint));
    row.push(copy_optional_text(&activity.last_seen_screen_fingerprint));
    row.push(DbValue::Integer(if activity.needs_attention { 1 } else { 0 }));
    row.push(DbValue::Integer(activity.needs_attention_at_ms));
    row.push(DbValue::Integer(activity.needs_attention_cleared_at_ms));
    row.push(DbValue::Integer(activity.updated_at_ms));
    assert(row@ =~= pane_activity_values(*activity));
    row
}

/// The error that names column `i` of a row.
pub open spec fn names_column(e: StoreError, names: Seq<Seq<char>>, row: Seq<DbValue>, i: int) -> bool {
    e matches StoreError::UnexpectedValue { column: c, value: v } && c@ == names[i] && v == row[i]
}

/// The pane activity record a row reads as; refused with the first column
/// whose value is of the wrong kind.
pub fn pane_activity_from_row(row: Vec<DbValue>) -> (r: Result<PaneActivity, StoreError>)
    requires
        row@.len() == 13,
    ensures
        match r {
            Ok(a) => row_fits(pane_activity_kinds(), row@) && a == pane_activity_of_row(row@),
            Err(e) => exists|i: int| is_first_misfit(pane_activity_kinds(), row@, i)
                && names_column(e, pane_activity_columns(), row@, i),
        },
{
    let ghost values = row@;
    let ghost kinds = pane_activity_kinds();
    let ghost names = pane_activity_columns();
    proof {
        reveal_strlit("workspace_id");
        reveal_strlit("pane_id");
        reveal_strlit("last_activity_at_ms");
        reveal_strlit("last_seen_at_ms");
        reveal_strlit("last_seen_activity_at_ms");
        reveal_strlit("last_tmux_activity_at_s");
        reveal_strlit("last_seen_tmux_activity_at_s");
        reveal_strlit("last_screen_fingerprint");
        reveal_strlit("last_seen_screen_fingerprint");
        reveal_strlit("needs_attention");
        reveal_strlit("needs_attention_at_ms");
        reveal_strlit("needs_attention_cleared_at_ms");
        reveal_strlit("updated_at_ms");
    }
    let mut row = row;
    let v12 = row.pop().unwrap();
    let v11 = row.pop().unwrap();
    let v10 = row.pop().unwrap();
    let v9 = row.pop().unwrap();
    let v8 = row.pop().unwrap();
    let v7 = row.pop().unwrap();
    let v6 = row.pop().unwrap();
    let v5 = row.pop().unwrap();
    let v4 = row.pop().unwrap();
    let v3 = row.pop().unwrap();
    let v2 = row.pop().unwrap();
    let v1 = row.pop().unwrap();
    let v0 = row.pop().unwrap();
    assert(v0 == values[0] && v1 == values[1] && v2 == values[2] && v3 == values[3]);
    assert(v4 == values[4] && v5 == values[5] && v6 == values[6] && v7 == values[7]);
    assert(v8 == values[8] && v9 == values[9] && v10 == values[10] && v11 == values[11]);
    assert(v12 == values[12]);
    let workspace_id = match text(v0, "workspace_id") {
        Ok(t) => t,
        Err(e) => {
            assert(is_first_misfit(kinds, values, 0));
            return Err(e);
        },
    };
    let pane_id = match text(v1, "pane_id") {
        Ok(t) => t,
        Err(e) => {
            assert(is_first_misfit(kinds, values, 1));
            return Err(e);
        },
    };
    let last_activity_at_ms = match integer(v2, "last_activity_at_ms") {
        Ok(n) => n,
        Err(e) => {
            assert(is_first_misfit(kinds, values, 2));
            return Err(e);
        },
    };
    let last_seen_at_ms = match integer(v3, "last_seen_at_ms") {
        Ok(n) => n,
        Err(e) => {
            assert(is_first_misfit(kinds, values, 3));
            return Err(e);
        },
    };
    let last_seen_activity_at_ms = match integer(v4, "last_seen_activity_at_ms") {
        Ok(n) => n,
        Err(e) => {
            assert(is_first_misfit(kinds, values, 4));
            return Err(e);
        },
    };
    let last_tmux_activity_at_s = match optional_integer(v5, "last_tmux_activity_at_s") {
        Ok(n) => n,
        Err(e) => {
            assert(is_first_misfit(kinds, values, 5));
            return Err(e);
        },
    };
    let last_seen_tmux_activity_at_s = match optional_integer(v6, "last_seen_tmux_activity_at_s") {
        Ok(n) => n,
        Err(e) => {
            assert(is_first_misfit(kinds, values, 6));
            return Err(e);
        },
    };
    let last_screen_fingerprint = match optional_text(v7, "last_screen_fingerprint") {
        Ok(t) => t,
        Err(e) => {
            assert(is_first_misfit(kinds, values, 7));
            return Err(e);
        },
    };
    let last_seen_screen_fingerprint = match optional_text(v8, "last_seen_screen_fingerprint") {
        Ok(t) => t,
        Err(e) => {
            assert(is_first_misfit(kinds, values, 8));
            return Err(e);
        },
    };
    let needs_attention = match integer(v9, "needs_attention") {
        Ok(n) => n != 0,
        Err(e) => {
            assert(is_first_misfit(kinds, values, 9));
            return Err(e);
        },
    };
    let needs_attention_at_ms = match integer(v10, "needs_attention_at_ms") {
        Ok(n) => n,
        Err(e) => {
            assert(is_first_misfit(kinds, values, 10));
            return Err(e);
        },
    };
    let needs_attention_cleared_at_ms = match integer(v11, "needs_attention_cleared_at_ms") {
        Ok(n) => n,
        Err(e) => {
            assert(is_first_misfit(kinds, values, 11));
            return Err(e);
        },
    };
    let updated_at_ms = match integer(v12, "updated_at_ms") {
        Ok(n) => n,
        Err(e) => {
            assert(is_first_misfit(kinds, values, 12));
            return Err(e);
        },
    };
    Ok(PaneActivity {
        workspace_id,
        pane_id,
        last_activity_at_ms,
        last_seen_at_ms,
        last_seen_activity_at_ms,
        last_tmux_activity_at_s,
        last_seen_tmux_activity_at_s,
        last_screen_fingerprint,
        last_seen_screen_fingerprint,
        needs_attention,
        needs_attention_at_ms,
        needs_attention_cleared_at_ms,
        updated_at_ms,
    })
}

/// A pane activity record reads back from its row as it was written.
pub proof fn lemma_pane_activity_row_round_trip(a: PaneActivity)
    ensures
        row_fits(pane_activity_kinds(), pane_activity_values(a)),
        pane_activity_of_row(pane_activity_values(a)) == a,
{
    let row = pane_activity_values(a);
    assert(row_fits(pane_activity_kinds(), row));
    assert(pane_activity_of_row(row) == a);
}

// ---------------------------------------------------------------------------
// Project roots
// ---------------------------------------------------------------------------

/// The kinds of the project root columns, in the order they are read.
pub open spec fn project_root_kinds() -> Seq<ColumnKind> {
    seq![
        ColumnKind::Text,
        ColumnKind::Text,
        ColumnKind::Text,
        ColumnKind::Integer,
        ColumnKind::Integer,
    ]
}

/// The names of the project root columns, in the order they are read.
pub open spec fn project_root_columns() -> Seq<Seq<char>> {
    seq!["id"@, "root_path"@, "label"@, "created_at"@, "updated_at"@]
}

/// The column values a project root is written as; its display name is the
/// label column.
pub open spec fn project_root_values(root: ProjectRootRecord) -> Seq<DbValue> {
    seq![
        DbValue::Text(root.id),
        DbValue::Text(root.root_path),
        DbValue::Text(root.display_name),
        DbValue::Integer(root.created_at),
        DbValue::Integer(root.updated_at),
    ]
}

/// The project root a fitting row reads as.
pub open spec fn project_root_of_row(row: Seq<DbValue>) -> ProjectRootRecord {
    ProjectRootRecord {
        id: text_of(row[0]),
        root_path: text_of(row[1]),
        display_name: text_of(row[2]),
        created_at: integer_of(row[3]),
        updated_at: integer_of(row[4]),
    }
}

/// The column values of a project root, in the order they are read.
pub fn project_root_row(root: &ProjectRootRecord) -> (row: Vec<DbValue>)
    ensures
        row@ == project_root_values(*root),
{
    let mut row: Vec<DbValue> = Vec::new();
    row.push(DbValue::Text(root.id.clone()));
    row.push(DbValue::Text(root.root_path.clone()));
    row.push(DbValue::Text(root.display_name.clone()));
    row.push(DbValue::Integer(root.created_at));
    row.push(DbValue::Integer(root.updated_at));
    assert(row@ =~= project_root_values(*root));
    row
}

/// The project root a row reads as; refused with the first column whose
/// value is of the wrong kind.
pub fn project_root_from_row(row: Vec<DbValue>) -> (r: Result<ProjectRootRecord, StoreError>)
    requires
        row@.len() == 5,
    ensures
        match r {
            Ok(root) => row_fits(project_root_kinds(), row@) && root == project_root_of_row(row@),
            Err(e) => exists|i: int| is_first_misfit(project_root_kinds(), row@, i)
                && names_column(e, project_root_columns(), row@, i),
        },
{
    let ghost values = row@;
    let ghost kinds = project_root_kinds();
    proof {
        reveal_strlit("id");
        reveal_strlit("root_path");
        reveal_strlit("label");
        reveal_strlit("created_at");
        reveal_strlit("updated_at");
    }
    let mut row = row;
    let v4 = row.pop().unwrap();
    let v3 = row.pop().unwrap();
    let v2 = row.pop().unwrap();
    let v1 = row.pop().unwrap();
    let v0 = row.pop().unwrap();
    assert(v0 == values[0] && v1 == values[1] && v2 == values[2] && v3 == values[3]);
    assert(v4 == values[4]);
    let id = match text(v0, "id") {
        Ok(t) => t,
        Err(e) => {
            assert(is_first_misfit(kinds, values, 0));
            return Err(e);
        },
    };
    let root_path = match text(v1, "root_path") {
        Ok(t) => t,
        Err(e) => {
            assert(is_first_misfit(kinds, values, 1));
            return Err(e);
        },
    };
    let display_name = match text(v2, "label") {
        Ok(t) => t,
        Err(e) => {
            assert(is_first_misfit(kinds, values, 2));
            return Err(e);
        },
    };
    let created_at = match integer(v3, "created_at") {
        Ok(n) => n,
        Err(e) => {
            assert(is_first_misfit(kinds, values, 3));
            return Err(e);
        },
    };
    let updated_at = match integer(v4, "updated_at") {
        Ok(n) => n,
        Err(e) => {
            assert(is_first_misfit(kinds, values, 4));
            return Err(e);
        },
    };
    Ok(ProjectRootRecord { id, root_path, display_name, created_at, updated_at })
}

/// A project root reads back from its row as it was written.
pub proof fn lemma_project_root_row_round_trip(root: ProjectRootRecord)
    ensures
        row_fits(project_root_kinds(), project_root_values(root)),
        project_root_of_row(project_root_values(root)) == root,
{
    let row = project_root_values(root);
    assert(row_fits(project_root_kinds(), row));
    assert(project_root_of_row(row) == root);
}

// ---------------------------------------------------------------------------
// Terminal sessions
// ---------------------------------------------------------------------------

/// The kinds of the session columns, in the order they are read: the
/// terminal kind and the session state are stored as words.
pub open spec fn session_kinds() -> Seq<ColumnKind> {
    seq![
        ColumnKind::Text,
        ColumnKind::Text,
        ColumnKind::Text,
        ColumnKind::Text,
        ColumnKind::Text,
        ColumnKind::Text,
        ColumnKind::Text,
        ColumnKind::OptionalInteger,
        ColumnKind::Text,
    ]
}

/// The names of the session columns, in the order they are read.
pub open spec fn session_columns() -> Seq<Seq<char>> {
    seq![
        "pane_id"@,
        "workspace_id"@,
        "session_id"@,
        "kind"@,
        "cwd"@,
        "command"@,
        "state"@,
        "exit_code"@,
        "buffer"@,
    ]
}

/// `value` is a text column holding `word`.
pub open spec fn holds_word(value: DbValue, word: Seq<char>) -> bool {
    value matches DbValue::Text(t) && t@ == word
}

/// `row` is the row a session is written as. The screen, the embedded
/// session, its correlation id and the agent's attention state are not
/// stored.
pub open spec fn is_session_row(row: Seq<DbValue>, s: SessionSnapshot) -> bool {
    &&& row.len() == 9
    &&& row[0] == DbValue::Text(s.pane_id)
    &&& row[1] == DbValue::Text(s.workspace_id)
    &&& row[2] == DbValue::Text(s.id)
    &&& holds_word(row[3], terminal_kind_word(s.kind))
    &&& row[4] == DbValue::Text(s.cwd)
    &&& row[5] == DbValue::Text(s.command)
    &&& holds_word(row[6], session_state_word(s.state))
    &&& row[7] == optional_integer_column(s.exit_code)
    &&& row[8] == DbValue::Text(s.buffer)
}

/// The session a fitting row reads as; a word that names no kind reads as a
/// shell, one that names no state as stopped.
pub open spec fn session_of_row(row: Seq<DbValue>) -> SessionSnapshot {
    SessionSnapshot {
        pane_id: text_of(row[0]),
        workspace_id: text_of(row[1]),
        id: text_of(row[2]),
        kind: terminal_kind_of_word(text_of(row[3])@),
        cwd: text_of(row[4]),
        command: text_of(row[5]),
        state: session_state_of_word(text_of(row[6])@),
        exit_code: optional_integer_of(row[7]),
        buffer: text_of(row[8]),
        screen: None,
        embedded_session: None,
        embedded_session_correlation_id: None,
        agent_attention_state: None,
    }
}

/// The row a session is written as.
pub fn session_row(session: &SessionSnapshot) -> (row: Vec<DbValue>)
    ensures
        is_session_row(row@, *session),
{
    let mut row: Vec<DbValue> = Vec::new();
    row.push(DbValue::Text(session.pane_id.clone()));
    row.push(DbValue::Text(session.workspace_id.clone()));
    row.push(DbValue::Text(session.id.clone()));
    row.push(DbValue::Text(terminal_kind_to_str(&session.kind).to_owned()));
    row.push(DbValue::Text(session.cwd.clone()));
    row.push(DbValue::Text(session.command.clone()));
    row.push(DbValue::Text(session_state_to_str(&session.state).to_owned()));
    row.push(optional_integer_to_column(session.exit_code));
    row.push(DbValue::Text(session.buffer.clone()));
    row
}

/// The session a row reads as; refused with the first column whose value
/// is of the wrong kind.
pub fn session_from_row(row: Vec<DbValue>) -> (r: Result<SessionSnapshot, StoreError>)
    requires
        row@.len() == 9,
    ensures
        match r {
            Ok(s) => row_fits(session_kinds(), row@) && s == session_of_row(row@),
            Err(e) => exists|i: int| is_first_misfit(session_kinds(), row@, i)
                && names_column(e, session_columns(), row@, i),
        },
{
    let ghost values = row@;
    let ghost kinds = session_kinds();
    proof {
        reveal_strlit("pane_id");
        reveal_strlit("workspace_id");
        reveal_strlit("session_id");
        reveal_strlit("kind");
        reveal_strlit("cwd");
        reveal_strlit("command");
        reveal_strlit("state");
        reveal_strlit("exit_code");
        reveal_strlit("buffer");
    }
    let mut row = row;
    let v8 = row.pop().unwrap();
    let v7 = row.pop().unwrap();
    let v6 = row.pop().unwrap();
    let v5 = row.pop().unwrap();
    let v4 = row.pop().unwrap();
    let v3 = row.pop().unwrap();
    let v2 = row.pop().unwrap();
    let v1 = row.pop().unwrap();
    let v0 = row.pop().unwrap();
    assert(v0 == values[0] && v1 == values[1] && v2 == values[2] && v3 == values[3]);
    assert(v4 == values[4] && v5 == values[5] && v6 == values[6] && v7 == values[7]);
    assert(v8 == values[8]);
    let pane_id = match text(v0, "pane_id") {
        Ok(t) => t,
        Err(e) => {
            assert(is_first_misfit(kinds, values, 0));
            return Err(e);
        },
    };
    let workspace_id = match text(v1, "workspace_id") {
        Ok(t) => t,
        Err(e) => {
            assert(is_first_misfit(kinds, values, 1));
            return Err(e);
        },
    };
    let id = match text(v2, "session_id") {
        Ok(t) => t,
        Err(e) => {
            assert(is_first_misfit(kinds, values, 2));
            return Err(e);
        },
    };
    let kind_word = match text(v3, "kind") {
        Ok(t) => t,
        Err(e) => {
            assert(is_first_misfit(kinds, values, 3));
            return Err(e);
        },
    };
    let cwd = match text(v4, "cwd") {
        Ok(t) => t,
        Err(e) => {
            assert(is_first_misfit(kinds, values, 4));
            return Err(e);
        },
    };
    let command = match text(v5, "command") {
        Ok(t) => t,
        Err(e) => {
            assert(is_first_misfit(kinds, values, 5));
            return Err(e);
        },
    };
    let state_word = match text(v6, "state") {
        Ok(t) => t,
        Err(e) => {
            assert(is_first_misfit(kinds, values, 6));
            return Err(e);
        },
    };
    let exit_code = match optional_integer(v7, "exit_code") {
        Ok(n) => n,
        Err(e) => {
            assert(is_first_misfit(kinds, values, 7));
            return Err(e);
        },
    };
    let buffer = match text(v8, "buffer") {
        Ok(t) => t,
        Err(e) => {
            assert(is_first_misfit(kinds, values, 8));
            return Err(e);
        },
    };
    Ok(SessionSnapshot {
        pane_id,
        workspace_id,
        id,
        kind: parse_terminal_kind(kind_word.as_str()),
        cwd,
        command,
        state: parse_session_state(state_word.as_str()),
        exit_code,
        buffer,
        screen: None,
        embedded_session: None,
        embedded_session_correlation_id: None,
        agent_attention_state: None,
    })
}

/// A session whose screen, embedded session, correlation id and attention
/// state are unset reads back from its row as it was written.
pub proof fn lemma_session_row_round_trip(row: Seq<DbValue>, s: SessionSnapshot)
    requires
        is_session_row(row, s),
        s.screen is None,
        s.embedded_session is None,
        s.embedded_session_correlation_id is None,
        s.agent_attention_state is None,
    ensures
        row_fits(session_kinds(), row),
        session_of_row(row) == s,
{
    lemma_words_round_trip(
        WorkspaceState::Draft,
        WorkspaceBookmarkRelation::NoBookmark,
        AgentAttentionState::Thinking,
        s.kind,
        s.state,
    );
    assert(row_fits(session_kinds(), row));
    assert(session_of_row(row) == s);
}

// ---------------------------------------------------------------------------
// Workspaces
// ---------------------------------------------------------------------------

/// The JSON text (an array of strings) that `serde_json::to_string` writes
/// for a list of strings, where it writes one.
pub uninterp spec fn json_strings_text_of(items: Seq<Seq<char>>) -> Option<Seq<char>>;

/// The list of strings that `serde_json::from_str` reads from a JSON text
/// holding an array of strings; none for any other text.
pub uninterp spec fn json_strings_of(text: Seq<char>) -> Option<Seq<Seq<char>>>;

/// A list of strings as JSON (`serde_json::to_string`), or the text of the
/// error serde_json gives.
#[verifier::external_body]
fn json_strings_text(items: &Vec<String>) -> (r: Result<String, String>)
    ensures
        match r {
            Ok(text) => json_strings_text_of(string_views(items@)) == Some(text@),
            Err(_) => json_strings_text_of(string_views(items@)) is None,
        },
{
    match serde_json::to_string(items) {
        Ok(text) => Ok(text),
        Err(error) => Err(error.to_string()),
    }
}

/// The list of strings in a JSON text (`serde_json::from_str` into
/// `Vec<String>`); none where the text holds no such list.
#[verifier::external_body]
fn json_strings(text: &str) -> (r: Option<Vec<String>>)
    ensures
        match r {
            Some(items) => json_strings_of(text@) == Some(string_views(items@)),
            None => json_strings_of(text@) is None,
        },
{
    match serde_json::from_str::<Vec<String>>(text) {
        Ok(items) => Some(items),
        Err(_) => None,
    }
}

/// The names of the workspace columns, in the table's order.
pub open spec fn workspace_columns() -> Seq<Seq<char>> {
    seq![
        "id"@,
        "root_id"@,
        "root_path"@,
        "project_label"@,
        "workspace_name"@,
        "display_name"@,
        "workspace_path"@,
        "workspace_state"@,
        "has_working_copy_changes"@,
        "bookmarks"@,
        "has_conflicts"@,
        "local_baseline_name"@,
        "local_baseline_detail"@,
        "local_ahead_count"@,
        "local_behind_count"@,
        "remote_baseline_name"@,
        "remote_baseline_detail"@,
        "remote_ahead_count"@,
        "remote_behind_count"@,
        "primary_relation"@,
        "bookmark_relation"@,
        "unread_notes"@,
        "active_agent_count"@,
        "agent_attention_state"@,
        "recent_activity_at"@,
        "diff_text"@,
        "created_at"@,
        "updated_at"@,
        "last_opened_at"@,
    ]
}

/// What workspace column `c` holds: words and texts, flags and counts as
/// integers, the names and details of the baselines and the agent's
/// attention as optional texts.
pub open spec fn workspace_kind(c: int) -> ColumnKind {
    if c == 8 || c == 10 || c == 13 || c == 14 || c == 17 || c == 18 || c == 21 || c == 22 || c == 24 || c >= 26 {
        ColumnKind::Integer
    } else if c == 11 || c == 12 || c == 15 || c == 16 || c == 23 {
        ColumnKind::OptionalText
    } else {
        ColumnKind::Text
    }
}

/// Column `c` is read: a baseline's detail and counts only where the
/// baseline has a name.
pub open spec fn workspace_reads(row: Seq<DbValue>, c: int) -> bool {
    &&& 0 <= c < 29
    &&& (12 <= c <= 14 ==> row[11] is Text)
    &&& (16 <= c <= 18 ==> row[15] is Text)
}

/// When column `c` is read: the bookmarks first, then the local and the
/// remote baseline, then the other columns in the table's order.
pub open spec fn workspace_read_rank(c: int) -> int {
    if c == 9 {
        0
    } else if 11 <= c <= 18 {
        c - 10
    } else if 0 <= c <= 8 {
        c + 9
    } else if c == 10 {
        18
    } else {
        c
    }
}

/// Every column read holds a value of its kind.
pub open spec fn workspace_row_fits(row: Seq<DbValue>) -> bool {
    forall|c: int| workspace_reads(row, c) ==> fits(workspace_kind(c), #[trigger] row[c])
}

/// Column `c` is the first column read whose value is of the wrong kind.
pub open spec fn is_first_workspace_misfit(row: Seq<DbValue>, c: int) -> bool {
    &&& workspace_reads(row, c)
    &&& !fits(workspace_kind(c), row[c])
    &&& forall|d: int|
        workspace_reads(row, d) && workspace_read_rank(d) < workspace_read_rank(c) ==> fits(
            workspace_kind(d),
            #[trigger] row[d],
        )
}

/// The columns a baseline is written as, from column `b` on: its name, its
/// detail and its two counts; all empty where there is no baseline.
pub open spec fn baseline_columns(row: Seq<DbValue>, b: int, relation: Option<BaselineRelation>) -> bool {
    match relation {
        Some(r) => {
            &&& row[b] == DbValue::Text(r.target_name)
            &&& row[b + 1] == optional_text_column(r.detail_name)
            &&& row[b + 2] == DbValue::Integer(r.ahead_count)
            &&& row[b + 3] == DbValue::Integer(r.behind_count)
        },
        None => row[b] == DbValue::Null && row[b + 1] == DbValue::Null && row[b + 2] == DbValue::Null && row[b + 3]
            == DbValue::Null,
    }
}

/// The baseline that the columns from `b` on read as.
pub open spec fn baseline_of_row(row: Seq<DbValue>, b: int) -> Option<BaselineRelation> {
    match row[b] {
        DbValue::Text(name) => Some(
            BaselineRelation {
                target_name: name,
                detail_name: optional_text_of(row[b + 1]),
                ahead_count: integer_of(row[b + 2]),
                behind_count: integer_of(row[b + 3]),
            },
        ),
        _ => None,
    }
}

/// `row` is the row a workspace is written as: enums as words, flags as one
/// or zero, the bookmarks as JSON. The line counts, unpublished changes and
/// the comparison with the default branch are not stored.
pub open spec fn is_workspace_row(row: Seq<DbValue>, w: WorkspaceSummary) -> bool {
    &&& row.len() == 29
    &&& row[0] == DbValue::Text(w.id)
    &&& row[1] == DbValue::Text(w.root_id)
    &&& row[2] == DbValue::Text(w.root_path)
    &&& row[3] == DbValue::Text(w.project_display_name)
    &&& row[4] == DbValue::Text(w.workspace_name)
    &&& row[5] == DbValue::Text(w.display_name)
    &&& row[6] == DbValue::Text(w.workspace_path)
    &&& holds_word(row[7], workspace_state_word(w.status.workspace_state))
    &&& row[8] == DbValue::Integer(if w.status.has_working_copy_changes { 1 } else { 0 })
    &&& (row[9] matches DbValue::Text(t) && json_strings_text_of(string_views(w.status.bookmarks@)) == Some(t@))
    &&& row[10] == DbValue::Integer(if w.status.has_conflicts { 1 } else { 0 })
    &&& baseline_columns(row, 11, w.status.local_relation)
    &&& baseline_columns(row, 15, w.status.remote_relation)
    &&& holds_word(row[19], primary_relation_word(w.status.primary_relation))
    &&& holds_word(row[20], bookmark_relation_word(w.status.bookmark_relation))
    &&& row[21] == DbValue::Integer(w.status.unread_notes)
    &&& row[22] == DbValue::Integer(w.status.active_agent_count)
    &&& match w.status.agent_attention_state {
        Some(a) => holds_word(row[23], agent_attention_word(a)),
        None => row[23] == DbValue::Null,
    }
    &&& row[24] == DbValue::Integer(w.status.recent_activity_at)
    &&& row[25] == DbValue::Text(w.status.diff_text)
    &&& row[26] == DbValue::Integer(w.created_at)
    &&& row[27] == DbValue::Integer(w.updated_at)
    &&& row[28] == DbValue::Integer(w.last_opened_at)
}

/// The status fields that are not stored have their default values.
pub open spec fn unstored_status_default(s: WorkspaceStatus) -> bool {
    &&& s.effective_added_lines == 0
    &&& s.effective_removed_lines == 0
    &&& s.unpublished_change_count == 0
    &&& s.unpublished_added_lines == 0
    &&& s.unpublished_removed_lines == 0
    &&& !s.not_in_default_available
    &&& s.not_in_default_change_count == 0
    &&& s.not_in_default_added_lines == 0
    &&& s.not_in_default_removed_lines == 0
}

/// `w` is the workspace a fitting row reads as: a word that names nothing
/// reads as the default, a nonzero flag is set, bookmarks that are no JSON
/// list of strings read as none, and what is not stored is left default.
pub open spec fn reads_as_workspace(row: Seq<DbValue>, w: WorkspaceSummary) -> bool {
    &&& w.id == text_of(row[0])
    &&& w.root_id == text_of(row[1])
    &&& w.root_path == text_of(row[2])
    &&& w.project_display_name == text_of(row[3])
    &&& w.workspace_name == text_of(row[4])
    &&& w.display_name == text_of(row[5])
    &&& w.workspace_path == text_of(row[6])
    &&& w.status.workspace_state == workspace_state_of_word(text_of(row[7])@)
    &&& w.status.has_working_copy_changes == (integer_of(row[8]) != 0)
    &&& string_views(w.status.bookmarks@) == match json_strings_of(text_of(row[9])@) {
        Some(items) => items,
        None => Seq::empty(),
    }
    &&& w.status.has_conflicts == (integer_of(row[10]) != 0)
    &&& w.status.local_relation == baseline_of_row(row, 11)
    &&& w.status.remote_relation == baseline_of_row(row, 15)
    &&& w.status.primary_relation == primary_relation_of_word(text_of(row[19])@)
    &&& w.status.bookmark_relation == bookmark_relation_of_word(text_of(row[20])@)
    &&& w.status.unread_notes == integer_of(row[21])
    &&& w.status.active_agent_count == integer_of(row[22])
    &&& w.status.agent_attention_state == match row[23] {
        DbValue::Text(t) => agent_attention_of_word(t@),
        _ => None,
    }
    &&& w.status.recent_activity_at == integer_of(row[24])
    &&& w.status.diff_text == text_of(row[25])
    &&& w.created_at == integer_of(row[26])
    &&& w.updated_at == integer_of(row[27])
    &&& w.last_opened_at == integer_of(row[28])
    &&& unstored_status_default(w.status)
}

fn optional_str_column(value: &Option<String>) -> (r: DbValue)
    ensures
        r == optional_text_column(*value),
{
    copy_optional_text(value)
}

fn push_baseline(row: &mut Vec<DbValue>, relation: &Option<BaselineRelation>)
    ensures
        final(row)@.len() == old(row)@.len() + 4,
        final(row)@.subrange(0, old(row)@.len() as int) == old(row)@,
        baseline_columns(final(row)@, old(row)@.len() as int, *relation),
{
    let ghost start = row@.len() as int;
    match relation {
        Some(r) => {
            row.push(DbValue::Text(r.target_name.clone()));
            row.push(optional_str_column(&r.detail_name));
            row.push(DbValue::Integer(r.ahead_count));
            row.push(DbValue::Integer(r.behind_count));
        },
        None => {
            row.push(DbValue::Null);
            row.push(DbValue::Null);
            row.push(DbValue::Null);
            row.push(DbValue::Null);
        },
    }
    assert(row@.subrange(0, start) =~= old(row)@);
}

/// The row a workspace is written as; refused when serde_json cannot write
/// its bookmarks.
pub fn workspace_row(w: &WorkspaceSummary) -> (r: Result<Vec<DbValue>, StoreError>)
    ensures
        match r {
            Ok(row) => is_workspace_row(row@, *w),
            Err(e) => json_strings_text_of(string_views(w.status.bookmarks@)) is None && e is Json,
        },
{
    let bookmarks = match json_strings_text(&w.status.bookmarks) {
        Ok(text) => text,
        Err(message) => {
            return Err(StoreError::Json(message));
        },
    };
    let mut row: Vec<DbValue> = Vec::new();
    row.push(DbValue::Text(w.id.clone()));
    row.push(DbValue::Text(w.root_id.clone()));
    row.push(DbValue::Text(w.root_path.clone()));
    row.push(DbValue::Text(w.project_display_name.clone()));
    row.push(DbValue::Text(w.workspace_name.clone()));
    row.push(DbValue::Text(w.display_name.clone()));
    row.push(DbValue::Text(w.workspace_path.clone()));
    row.push(DbValue::Text(workspace_state_to_str(&w.status.workspace_state).to_owned()));
    row.push(DbValue::Integer(if w.status.has_working_copy_changes { 1 } else { 0 }));
    row.push(DbValue::Text(bookmarks));
    row.push(DbValue::Integer(if w.status.has_conflicts { 1 } else { 0 }));
    let ghost before_local = row@;
    push_baseline(&mut row, &w.status.local_relation);
    let ghost before_remote = row@;
    push_baseline(&mut row, &w.status.remote_relation);
    let ghost after_remote = row@;
    row.push(DbValue::Text(primary_relation_to_str(&w.status.primary_relation).to_owned()));
    row.push(DbValue::Text(bookmark_relation_to_str(&w.status.bookmark_relation).to_owned()));
    row.push(DbValue::Integer(w.status.unread_notes));
    row.push(DbValue::Integer(w.status.active_agent_count));
    row.push(optional_agent_attention_to_value(&w.status.agent_attention_state));
    row.push(DbValue::Integer(w.status.recent_activity_at));
    row.push(DbValue::Text(w.status.diff_text.clone()));
    row.push(DbValue::Integer(w.created_at));
    row.push(DbValue::Integer(w.updated_at));
    row.push(DbValue::Integer(w.last_opened_at));
    proof {
        assert forall|k: int| 0 <= k < 19 implies row@[k] == after_remote[k] by {
            assert(row@.subrange(0, 19)[k] == row@[k]);
        }
        assert forall|k: int| 0 <= k < 15 implies after_remote[k] == before_remote[k] by {
            assert(after_remote.subrange(0, 15)[k] == after_remote[k]);
        }
        assert forall|k: int| 0 <= k < 11 implies before_remote[k] == before_local[k] by {
            assert(before_remote.subrange(0, 11)[k] == before_remote[k]);
        }
        assert(row@[0] == before_local[0] && row@[1] == before_local[1] && row@[2] == before_local[2]);
        assert(row@[3] == before_local[3] && row@[4] == before_local[4] && row@[5] == before_local[5]);
        assert(row@[6] == before_local[6] && row@[7] == before_local[7] && row@[8] == before_local[8]);
        assert(row@[9] == before_local[9] && row@[10] == before_local[10]);
        assert(baseline_columns(row@, 11, w.status.local_relation)) by {
            assert(row@[11] == before_remote[11] && row@[12] == before_remote[12]);
            assert(row@[13] == before_remote[13] && row@[14] == before_remote[14]);
        }
        assert(baseline_columns(row@, 15, w.status.remote_relation)) by {
            assert(row@[15] == after_remote[15] && row@[16] == after_remote[16]);
            assert(row@[17] == after_remote[17] && row@[18] == after_remote[18]);
        }
    }
    Ok(row)
}

/// The workspace a row reads as; refused with the first column read whose
/// value is of the wrong kind (the bookmarks first, then the local and the
/// remote baseline, then the other columns in order).
pub fn workspace_from_row(row: Vec<DbValue>) -> (r: Result<WorkspaceSummary, StoreError>)
    requires
        row@.len() == 29,
    ensures
        match r {
            Ok(w) => workspace_row_fits(row@) && reads_as_workspace(row@, w),
            Err(e) => exists|c: int| is_first_workspace_misfit(row@, c)
                && names_column(e, workspace_columns(), row@, c),
        },
{
    let ghost values = row@;
    proof {
        reveal_strlit("id");
        reveal_strlit("root_id");
        reveal_strlit("root_path");
        reveal_strlit("project_label");
        reveal_strlit("workspace_name");
        reveal_strlit("display_name");
        reveal_strlit("workspace_path");
        reveal_strlit("workspace_state");
        reveal_strlit("has_working_copy_changes");
        reveal_strlit("bookmarks");
        reveal_strlit("has_conflicts");
        reveal_strlit("local_baseline_name");
        reveal_strlit("local_baseline_detail");
        reveal_strlit("local_ahead_count");
        reveal_strlit("local_behind_count");
        reveal_strlit("remote_baseline_name");
        reveal_strlit("remote_baseline_detail");
        reveal_strlit("remote_ahead_count");
        reveal_strlit("remote_behind_count");
        reveal_strlit("primary_relation");
        reveal_strlit("bookmark_relation");
        reveal_strlit("unread_notes");
        reveal_strlit("active_agent_count");
        reveal_strlit("agent_attention_state");
        reveal_strlit("recent_activity_at");
        reveal_strlit("diff_text");
        reveal_strlit("created_at");
        reveal_strlit("updated_at");
        reveal_strlit("last_opened_at");
    }
    let mut row = row;
    let v28 = row.pop().unwrap();
    let v27 = row.pop().unwrap();
    let v26 = row.pop().unwrap();
    let v25 = row.pop().unwrap();
    let v24 = row.pop().unwrap();
    let v23 = row.pop().unwrap();
    let v22 = row.pop().unwrap();
    let v21 = row.pop().unwrap();
    let v20 = row.pop().unwrap();
    let v19 = row.pop().unwrap();
    let v18 = row.pop().unwrap();
    let v17 = row.pop().unwrap();
    let v16 = row.pop().unwrap();
    let v15 = row.pop().unwrap();
    let v14 = row.pop().unwrap();
    let v13 = row.pop().unwrap();
    let v12 = row.pop().unwrap();
    let v11 = row.pop().unwrap();
    let v10 = row.pop().unwrap();
    let v9 = row.pop().unwrap();
    let v8 = row.pop().unwrap();
    let v7 = row.pop().unwrap();
    let v6 = row.pop().unwrap();
    let v5 = row.pop().unwrap();
    let v4 = row.pop().unwrap();
    let v3 = row.pop().unwrap();
    let v2 = row.pop().unwrap();
    let v1 = row.pop().unwrap();
    let v0 = row.pop().unwrap();
    assert(v0 == values[0] && v1 == values[1] && v2 == values[2] && v3 == values[3]);
    assert(v4 == values[4] && v5 == values[5] && v6 == values[6] && v7 == values[7]);
    assert(v8 == values[8] && v9 == values[9] && v10 == values[10] && v11 == values[11]);
    assert(v12 == values[12] && v13 == values[13] && v14 == values[14] && v15 == values[15]);
    assert(v16 == values[16] && v17 == values[17] && v18 == values[18] && v19 == values[19]);
    assert(v20 == values[20] && v21 == values[21] && v22 == values[22] && v23 == values[23]);
    assert(v24 == values[24] && v25 == values[25] && v26 == values[26] && v27 == values[27]);
    assert(v28 == values[28]);
    let bookmarks_text = match text(v9, "bookmarks") {
        Ok(t) => t,
        Err(e) => {
            assert(is_first_workspace_misfit(values, 9));
            return Err(e);
        },
    };
    let local_name = match optional_text(v11, "local_baseline_name") {
        Ok(t) => t,
        Err(e) => {
            assert(is_first_workspace_misfit(values, 11));
            return Err(e);
        },
    };
    let local_relation = match local_name {
        Some(target_name) => {
            let detail_name = match optional_text(v12, "local_baseline_detail") {
                Ok(t) => t,
                Err(e) => {
                    assert(is_first_workspace_misfit(values, 12));
                    return Err(e);
                },
            };
            let ahead_count = match integer(v13, "local_ahead_count") {
                Ok(n) => n,
                Err(e) => {
                    assert(is_first_workspace_misfit(values, 13));
                    return Err(e);
                },
            };
            let behind_count = match integer(v14, "local_behind_count") {
                Ok(n) => n,
                Err(e) => {
                    assert(is_first_workspace_misfit(values, 14));
                    return Err(e);
                },
            };
            Some(BaselineRelation { target_name, detail_name, ahead_count, behind_count })
        },
        None => None,
    };
    let remote_name = match optional_text(v15, "remote_baseline_name") {
        Ok(t) => t,
        Err(e) => {
            assert(is_first_workspace_misfit(values, 15));
            return Err(e);
        },
    };
    let remote_relation = match remote_name {
        Some(target_name) => {
            let detail_name = match optional_text(v16, "remote_baseline_detail") {
                Ok(t) => t,
                Err(e) => {
                    assert(is_first_workspace_misfit(values, 16));
                    return Err(e);
                },
            };
            let ahead_count = match integer(v17, "remote_ahead_count") {
                Ok(n) => n,
                Err(e) => {
                    assert(is_first_workspace_misfit(values, 17));
                    return Err(e);
                },
            };
            let behind_count = match integer(v18, "remote_behind_count") {
                Ok(n) => n,
                Err(e) => {
                    assert(is_first_workspace_misfit(values, 18));
                    return Err(e);
                },
            };
            Some(BaselineRelation { target_name, detail_name, ahead_count, behind_count })
        },
        None => None,
    };
    let id = match text(v0, "id") {
        Ok(t) => t,
        Err(e) => {
            assert(is_first_workspace_misfit(values, 0));
            return Err(e);
        },
    };
    let root_id = match text(v1, "root_id") {
        Ok(t) => t,
        Err(e) => {
            assert(is_first_workspace_misfit(values, 1));
            return Err(e);
        },
    };
    let root_path = match text(v2, "root_path") {
        Ok(t) => t,
        Err(e) => {
            assert(is_first_workspace_misfit(values, 2));
            return Err(e);
        },
    };
    let project_display_name = match text(v3, "project_label") {
        Ok(t) => t,
        Err(e) => {
            assert(is_first_workspace_misfit(values, 3));
            return Err(e);
        },
    };
    let workspace_name = match text(v4, "workspace_name") {
        Ok(t) => t,
        Err(e) => {
            assert(is_first_workspace_misfit(values, 4));
            return Err(e);
        },
    };
    let display_name = match text(v5, "display_name") {
        Ok(t) => t,
        Err(e) => {
            assert(is_first_workspace_misfit(values, 5));
            return Err(e);
        },
    };
    let workspace_path = match text(v6, "workspace_path") {
        Ok(t) => t,
        Err(e) => {
            assert(is_first_workspace_misfit(values, 6));
            return Err(e);
        },
    };
    let state_word = match text(v7, "workspace_state") {
        Ok(t) => t,
        Err(e) => {
            assert(is_first_workspace_misfit(values, 7));
            return Err(e);
        },
    };
    let working_copy = match integer(v8, "has_working_copy_changes") {
        Ok(t) => t,
        Err(e) => {
            assert(is_first_workspace_misfit(values, 8));
            return Err(e);
        },
    };
    let conflicts = match integer(v10, "has_conflicts") {
        Ok(t) => t,
        Err(e) => {
            assert(is_first_workspace_misfit(values, 10));
            return Err(e);
        },
    };
    let primary_word = match text(v19, "primary_relation") {
        Ok(t) => t,
        Err(e) => {
            assert(is_first_workspace_misfit(values, 19));
            return Err(e);
        },
    };
    let bookmarks = match json_strings(bookmarks_text.as_str()) {
        Some(items) => items,
        None => {
            let none: Vec<String> = Vec::new();
            assert(string_views(none@) =~= Seq::<Seq<char>>::empty());
            none
        },
    };
    let bookmark_word = match text(v20, "bookmark_relation") {
        Ok(t) => t,
        Err(e) => {
            assert(is_first_workspace_misfit(values, 20));
            return Err(e);
        },
    };
    let unread_notes = match integer(v21, "unread_notes") {
        Ok(t) => t,
        Err(e) => {
            assert(is_first_workspace_misfit(values, 21));
            return Err(e);
        },
    };
    let active_agent_count = match integer(v22, "active_agent_count") {
        Ok(t) => t,
        Err(e) => {
            assert(is_first_workspace_misfit(values, 22));
            return Err(e);
        },
    };
    let agent_attention_state = match parse_optional_agent_attention(v23) {
        Ok(a) => a,
        Err(e) => {
            assert(is_first_workspace_misfit(values, 23));
            return Err(e);
        },
    };
    let recent_activity_at = match integer(v24, "recent_activity_at") {
        Ok(t) => t,
        Err(e) => {
            assert(is_first_workspace_misfit(values, 24));
            return Err(e);
        },
    };
    let diff_text = match text(v25, "diff_text") {
        Ok(t) => t,
        Err(e) => {
            assert(is_first_workspace_misfit(values, 25));
            return Err(e);
        },
    };
    let created_at = match integer(v26, "created_at") {
        Ok(t) => t,
        Err(e) => {
            assert(is_first_workspace_misfit(values, 26));
            return Err(e);
        },
    };
    let updated_at = match integer(v27, "updated_at") {
        Ok(t) => t,
        Err(e) => {
            assert(is_first_workspace_misfit(values, 27));
            return Err(e);
        },
    };
    let last_opened_at = match integer(v28, "last_opened_at") {
        Ok(t) => t,
        Err(e) => {
            assert(is_first_workspace_misfit(values, 28));
            return Err(e);
        },
    };
    let status = WorkspaceStatus {
        workspace_state: parse_workspace_state(state_word.as_str()),
        has_working_copy_changes: working_copy != 0,
        effective_added_lines: 0,
        effective_removed_lines: 0,
        has_conflicts: conflicts != 0,
        unpublished_change_count: 0,
        unpublished_added_lines: 0,
        unpublished_removed_lines: 0,
        not_in_default_available: false,
        not_in_default_change_count: 0,
        not_in_default_added_lines: 0,
        not_in_default_removed_lines: 0,
        local_relation,
        remote_relation,
        primary_relation: parse_primary_relation(primary_word.as_str()),
        bookmarks,
        bookmark_relation: parse_bookmark_relation(bookmark_word.as_str()),
        unread_notes,
        active_agent_count,
        agent_attention_state,
        recent_activity_at,
        diff_text,
    };
    let w = WorkspaceSummary {
        id,
        root_id,
        root_path,
        project_display_name,
        workspace_name,
        display_name,
        workspace_path,
        status,
        created_at,
        updated_at,
        last_opened_at,
    };
    assert(workspace_row_fits(values));
    Ok(w)
}

/// A workspace reads back from its row as it was written, where the line
/// counts, unpublished changes and comparison with the default branch that
/// are not stored have their default values, and serde_json reads its
/// bookmarks back from the JSON it wrote for them.
pub proof fn lemma_workspace_row_round_trip(row: Seq<DbValue>, w: WorkspaceSummary)
    requires
        is_workspace_row(row, w),
        unstored_status_default(w.status),
        forall|t: Seq<char>|
            json_strings_text_of(string_views(w.status.bookmarks@)) == Some(t) ==> json_strings_of(t) == Some(
                string_views(w.status.bookmarks@),
            ),
    ensures
        workspace_row_fits(row),
        reads_as_workspace(row, w),
{
    let a = match w.status.agent_attention_state {
        Some(a) => a,
        None => AgentAttentionState::Thinking,
    };
    lemma_words_round_trip(
        w.status.workspace_state,
        w.status.bookmark_relation,
        a,
        TerminalKind::Shell,
        SessionState::Live,
    );
    lemma_primary_relation_round_trip(w.status.primary_relation);
    assert(workspace_row_fits(row));
    assert(reads_as_workspace(row, w));
}

} // verus!
