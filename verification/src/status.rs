//! Putting together a workspace's status from what `jj` reported, and the
//! workspace summaries of a repository.

use vstd::prelude::*;
use crate::types::{
    BaselineRelation, BaselineRelationTarget, ProjectRootRecord, WorkspaceBookmarkRelation,
    WorkspaceState, WorkspaceStatus, WorkspaceSummary, encode_missing_workspace_path,
    missing_workspace_path_prefix,
};
use crate::jj::{
    DiscoveredWorkspace, bookmark_names, classify_bookmark_relation, classify_workspace_state,
    parse_bookmarks, primary_relation, primary_target, string_views, workspace_id,
    workspace_id_for, workspace_state_of,
};
use crate::split::split_char;
use crate::text::{trim, str_chars, trim_bounds, chars_eq};
use crate::clock::now_ms;

verus! {

/// The bookmarks shown for a workspace and how they relate to it: those on
/// its own revision when there are any, else those on the nearest ancestor
/// that has some.
pub fn bookmark_status(exact_output: &str, display_output: &str) -> (r: (
    Vec<String>,
    WorkspaceBookmarkRelation,
))
    ensures
        ({
            let exact = bookmark_names(split_char(trim(exact_output@), ','));
            let display = bookmark_names(split_char(trim(display_output@), ','));
            &&& string_views(r.0@) == (if exact.len() == 0 {
                display
            } else {
                exact
            })
            &&& r.1 == (if exact.len() > 0 {
                WorkspaceBookmarkRelation::Exact
            } else if display.len() > 0 {
                WorkspaceBookmarkRelation::Above
            } else {
                WorkspaceBookmarkRelation::NoBookmark
            })
        }),
{
    let exact = parse_bookmarks(exact_output);
    let display = parse_bookmarks(display_output);
    let relation = classify_bookmark_relation(exact.as_slice(), display.as_slice());
    if exact.len() == 0 {
        (display, relation)
    } else {
        (exact, relation)
    }
}

/// The status of a workspace as `jj` reports it: its bookmarks, its diff,
/// the number of conflicted revisions, its two baseline relations and when
/// this was read. Note and agent counts start at zero.
pub open spec fn jj_status_fields(
    status: WorkspaceStatus,
    workspace_name: Seq<char>,
    bookmarks: Seq<String>,
    bookmark_relation: WorkspaceBookmarkRelation,
    diff: Seq<char>,
    conflicted_count: i64,
    local_relation: Option<BaselineRelation>,
    remote_relation: Option<BaselineRelation>,
    recent_activity_at: i64,
) -> bool {
    let primary = primary_target(workspace_name, local_relation is Some, remote_relation is Some);
    let baseline = match primary {
        BaselineRelationTarget::Local => local_relation,
        BaselineRelationTarget::Remote => remote_relation,
        BaselineRelationTarget::NoBaseline => None,
    };
    &&& status.workspace_state == workspace_state_of(conflicted_count > 0, primary, baseline)
    &&& status.has_working_copy_changes == (trim(diff).len() > 0)
    &&& status.has_conflicts == (conflicted_count > 0)
    &&& status.local_relation == local_relation
    &&& status.remote_relation == remote_relation
    &&& status.primary_relation == primary
    &&& status.bookmarks@ == bookmarks
    &&& status.bookmark_relation == bookmark_relation
    &&& status.recent_activity_at == recent_activity_at
    &&& status.diff_text@ == diff
    &&& status.effective_added_lines == 0
    &&& status.effective_removed_lines == 0
    &&& status.unpublished_change_count == 0
    &&& status.unpublished_added_lines == 0
    &&& status.unpublished_removed_lines == 0
    &&& !status.not_in_default_available
    &&& status.not_in_default_change_count == 0
    &&& status.not_in_default_added_lines == 0
    &&& status.not_in_default_removed_lines == 0
    &&& status.unread_notes == 0
    &&& status.active_agent_count == 0
    &&& status.agent_attention_state is None
}

pub fn workspace_status_from_parts(
    workspace_name: &str,
    bookmarks: Vec<String>,
    bookmark_relation: WorkspaceBookmarkRelation,
    diff: String,
    conflicted_count: i64,
    local_relation: Option<BaselineRelation>,
    remote_relation: Option<BaselineRelation>,
    recent_activity_at: i64,
) -> (r: WorkspaceStatus)
    ensures
        jj_status_fields(
            r,
            workspace_name@,
            bookmarks@,
            bookmark_relation,
            diff@,
            conflicted_count,
            local_relation,
            remote_relation,
            recent_activity_at,
        ),
{
    let primary = primary_relation(workspace_name, &local_relation, &remote_relation);
    let has_conflicts = conflicted_count > 0;
    let workspace_state = match primary {
        BaselineRelationTarget::Local => classify_workspace_state(
            has_conflicts,
            primary,
            local_relation.as_ref(),
        ),
        BaselineRelationTarget::Remote => classify_workspace_state(
            has_conflicts,
            primary,
            remote_relation.as_ref(),
        ),
        BaselineRelationTarget::NoBaseline => classify_workspace_state(has_conflicts, primary, None),
    };
    let diff_chars = str_chars(diff.as_str());
    let (a, b) = trim_bounds(diff_chars.as_slice());
    WorkspaceStatus {
        workspace_state,
        has_working_copy_changes: a < b,
        effective_added_lines: 0,
        effective_removed_lines: 0,
        has_conflicts,
        unpublished_change_count: 0,
        unpublished_added_lines: 0,
        unpublished_removed_lines: 0,
        not_in_default_available: false,
        not_in_default_change_count: 0,
        not_in_default_added_lines: 0,
        not_in_default_removed_lines: 0,
        local_relation,
        remote_relation,
        primary_relation: primary,
        bookmarks,
        bookmark_relation,
        unread_notes: 0,
        active_agent_count: 0,
        agent_attention_state: None,
        recent_activity_at,
        diff_text: diff,
    }
}

/// A fresh status from `jj`, keeping the counts that `jj` knows nothing of
/// (unread notes, active agents, agent attention).
pub fn merge_jj_workspace_status(existing: &WorkspaceStatus, jj_status: WorkspaceStatus) -> (r:
    WorkspaceStatus)
    ensures
        r == (WorkspaceStatus {
            unread_notes: existing.unread_notes,
            active_agent_count: existing.active_agent_count,
            agent_attention_state: existing.agent_attention_state,
            ..jj_status
        }),
{
    WorkspaceStatus {
        unread_notes: existing.unread_notes,
        active_agent_count: existing.active_agent_count,
        agent_attention_state: existing.agent_attention_state,
        ..jj_status
    }
}

/// The status of a workspace that `jj` cannot read (its path is not
/// recorded): everything from `jj` reset, the other counts kept, the time
/// of the reset as its recent activity.
pub open spec fn reset_status(status: WorkspaceStatus, existing: WorkspaceStatus, now_ms: i64) -> bool {
    &&& status.unread_notes == existing.unread_notes
    &&& status.active_agent_count == existing.active_agent_count
    &&& status.agent_attention_state == existing.agent_attention_state
    &&& status.recent_activity_at == now_ms
    &&& status.workspace_state == WorkspaceState::Unknown
    &&& !status.has_working_copy_changes
    &&& status.effective_added_lines == 0
    &&& status.effective_removed_lines == 0
    &&& !status.has_conflicts
    &&& status.unpublished_change_count == 0
    &&& status.unpublished_added_lines == 0
    &&& status.unpublished_removed_lines == 0
    &&& !status.not_in_default_available
    &&& status.not_in_default_change_count == 0
    &&& status.not_in_default_added_lines == 0
    &&& status.not_in_default_removed_lines == 0
    &&& status.local_relation is None
    &&& status.remote_relation is None
    &&& status.primary_relation == BaselineRelationTarget::NoBaseline
    &&& status.bookmarks@.len() == 0
    &&& status.bookmark_relation == WorkspaceBookmarkRelation::NoBookmark
    &&& status.diff_text@.len() == 0
}

pub fn reset_jj_workspace_status_at(existing: &WorkspaceStatus, now_ms: i64) -> (r: WorkspaceStatus)
    ensures
        reset_status(r, *existing, now_ms),
{
    let mut status = WorkspaceStatus::default();
    status.unread_notes = existing.unread_notes;
    status.active_agent_count = existing.active_agent_count;
    status.agent_attention_state = existing.agent_attention_state;
    status.recent_activity_at = now_ms;
    status
}

/// `reset_jj_workspace_status_at` at the current time.
pub fn reset_jj_workspace_status(existing: &WorkspaceStatus) -> (r: WorkspaceStatus)
    ensures
        exists|now: i64| reset_status(r, *existing, now),
{
    reset_jj_workspace_status_at(existing, now_ms())
}

// ---------------------------------------------------------------------------
// Discovered workspaces
// ---------------------------------------------------------------------------

/// Where a listed workspace lives: the path `jj` recorded for it; else, for
/// the workspace that the repository's own working copy belongs to, that
/// working copy's root; else a placeholder that marks the path as missing.
pub open spec fn workspace_location(
    recorded: Option<Seq<char>>,
    current_change_id: Option<Seq<char>>,
    current_path: Option<Seq<char>>,
    workspace_name: Seq<char>,
    target_change_id: Seq<char>,
) -> Seq<char> {
    match recorded {
        Some(p) => p,
        None => match (current_change_id, current_path) {
            (Some(id), Some(p)) => if id == target_change_id {
                p
            } else {
                missing_workspace_path_prefix() + workspace_name
            },
            _ => missing_workspace_path_prefix() + workspace_name,
        },
    }
}

pub fn choose_workspace_path(
    recorded: Option<String>,
    current_change_id: Option<&str>,
    current_path: Option<String>,
    entry: &DiscoveredWorkspace,
) -> (r: String)
    ensures
        r@ == workspace_location(
            crate::text::opt_view(recorded),
            crate::text::opt_str_view(current_change_id),
            crate::text::opt_view(current_path),
            entry.workspace_name@,
            entry.target_change_id@,
        ),
{
    if let Some(path) = recorded {
        return path;
    }
    if let (Some(id), Some(path)) = (current_change_id, current_path) {
        if chars_eq(str_chars(id).as_slice(), str_chars(entry.target_change_id.as_str()).as_slice()) {
            return path;
        }
    }
    encode_missing_workspace_path(entry.workspace_name.as_str())
}

/// The summary of a listed workspace: its id from the root path and name,
/// the project's id and display name, and a default status.
pub fn discovered_workspace_summary(
    root: &ProjectRootRecord,
    root_path: &str,
    entry: DiscoveredWorkspace,
    workspace_path: String,
) -> (r: WorkspaceSummary)
    ensures
        r.id@ == workspace_id(root_path@, entry.workspace_name@),
        r.root_id == root.id,
        r.root_path@ == root_path@,
        r.project_display_name == root.display_name,
        r.workspace_name == entry.workspace_name,
        r.display_name == entry.workspace_name,
        r.workspace_path == workspace_path,
        r.status.is_default(),
        r.created_at == 0,
        r.updated_at == 0,
        r.last_opened_at == 0,
{
    let id = workspace_id_for(root_path, entry.workspace_name.as_str());
    let name = entry.workspace_name.clone();
    WorkspaceSummary {
        id,
        root_id: root.id.clone(),
        root_path: root_path.to_owned(),
        project_display_name: root.display_name.clone(),
        workspace_name: name,
        display_name: entry.workspace_name,
        workspace_path,
        status: WorkspaceStatus::default(),
        created_at: 0,
        updated_at: 0,
        last_opened_at: 0,
    }
}

} // verus!
