//! The workspace sidebar: projects with their workspaces, the status tags
//! and labels of a workspace, and the context menu's entries and selection.

use vstd::prelude::*;
use crate::types::{
    BaselineRelation, BaselineRelationState, BaselineRelationTarget, ProjectRootRecord,
    WorkspaceBookmarkRelation, WorkspaceState, WorkspaceStatus, WorkspaceSummary,
    has_recorded_workspace_path, missing_workspace_path_prefix,
};
use crate::num::{dec, dec_int, i64_dec};
use crate::text::{str_chars, push_all, string_from_chars, chars_eq, opt_view, starts_with};
use crate::split::{join, join_exec};
use crate::jj::string_views;

verus! {

// ---------------------------------------------------------------------------
// Groups
// ---------------------------------------------------------------------------

/// A project and the positions of its workspaces in the workspace list; the
/// group without a project holds the workspaces whose project is gone.
#[derive(Clone, Debug, PartialEq, Eq)]
pub struct SidebarWorkspaceGroup {
    pub root: Option<ProjectRootRecord>,
    pub workspace_indices: Vec<usize>,
}

/// The positions, in increasing order, of the workspaces that belong to
/// `root_id`, among the first `n`.
pub open spec fn indices_of_root(workspaces: Seq<WorkspaceSummary>, root_id: Seq<char>, n: int) -> Seq<usize>
    decreases n,
{
    if n <= 0 {
        seq![]
    } else {
        let previous = indices_of_root(workspaces, root_id, n - 1);
        if workspaces[n - 1].root_id@ == root_id {
            previous.push((n - 1) as usize)
        } else {
            previous
        }
    }
}

pub open spec fn has_root(roots: Seq<ProjectRootRecord>, root_id: Seq<char>) -> bool {
    exists|r: int| 0 <= r < roots.len() && #[trigger] roots[r].id@ == root_id
}

/// The positions of the workspaces, among the first `n`, whose project is
/// not in `roots`.
pub open spec fn orphan_indices(workspaces: Seq<WorkspaceSummary>, roots: Seq<ProjectRootRecord>, n: int) -> Seq<usize>
    decreases n,
{
    if n <= 0 {
        seq![]
    } else {
        let previous = orphan_indices(workspaces, roots, n - 1);
        if !has_root(roots, workspaces[n - 1].root_id@) {
            previous.push((n - 1) as usize)
        } else {
            previous
        }
    }
}

proof fn lemma_root_indices_hold(workspaces: Seq<WorkspaceSummary>, i: int, n: int)
    requires
        0 <= i < n <= workspaces.len(),
        workspaces.len() <= usize::MAX,
    ensures
        indices_of_root(workspaces, workspaces[i].root_id@, n).contains(i as usize),
    decreases n,
{
    let id = workspaces[i].root_id@;
    if n == i + 1 {
        let s = indices_of_root(workspaces, id, n);
        assert(s.last() == i as usize);
        assert(s[s.len() - 1] == i as usize);
    } else {
        lemma_root_indices_hold(workspaces, i, n - 1);
        let previous = indices_of_root(workspaces, id, n - 1);
        let j = choose|j: int| 0 <= j < previous.len() && previous[j] == i as usize;
        if workspaces[n - 1].root_id@ == id {
            assert(previous.push((n - 1) as usize)[j] == i as usize);
        }
    }
}

proof fn lemma_orphan_indices_hold(workspaces: Seq<WorkspaceSummary>, roots: Seq<ProjectRootRecord>, i: int, n: int)
    requires
        0 <= i < n <= workspaces.len(),
        workspaces.len() <= usize::MAX,
        !has_root(roots, workspaces[i].root_id@),
    ensures
        orphan_indices(workspaces, roots, n).contains(i as usize),
    decreases n,
{
    if n == i + 1 {
        let s = orphan_indices(workspaces, roots, n);
        assert(s[s.len() - 1] == i as usize);
    } else {
        lemma_orphan_indices_hold(workspaces, roots, i, n - 1);
        let previous = orphan_indices(workspaces, roots, n - 1);
        let j = choose|j: int| 0 <= j < previous.len() && previous[j] == i as usize;
        if !has_root(roots, workspaces[n - 1].root_id@) {
            assert(previous.push((n - 1) as usize)[j] == i as usize);
        }
    }
}

/// No workspace is left out of the sidebar: each is listed in the group of
/// its project when the project is known, else in the group without a
/// project.
pub proof fn lemma_groups_keep_every_workspace(
    workspaces: Seq<WorkspaceSummary>,
    roots: Seq<ProjectRootRecord>,
    i: int,
)
    requires
        0 <= i < workspaces.len(),
        workspaces.len() <= usize::MAX,
    ensures
        if has_root(roots, workspaces[i].root_id@) {
            indices_of_root(workspaces, workspaces[i].root_id@, workspaces.len() as int).contains(i as usize)
        } else {
            orphan_indices(workspaces, roots, workspaces.len() as int).contains(i as usize)
        },
{
    if has_root(roots, workspaces[i].root_id@) {
        lemma_root_indices_hold(workspaces, i, workspaces.len() as int);
    } else {
        lemma_orphan_indices_hold(workspaces, roots, i, workspaces.len() as int);
    }
}

fn root_indices(workspaces: &[WorkspaceSummary], root_id: &str) -> (r: Vec<usize>)
    ensures
        r@ == indices_of_root(workspaces@, root_id@, workspaces@.len() as int),
{
    let id = str_chars(root_id);
    let mut out: Vec<usize> = Vec::new();
    let mut i: usize = 0;
    while i < workspaces.len()
        invariant
            i <= workspaces@.len(),
            id@ == root_id@,
            out@ == indices_of_root(workspaces@, root_id@, i as int),
        decreases workspaces.len() - i,
    {
        if chars_eq(str_chars(workspaces[i].root_id.as_str()).as_slice(), id.as_slice()) {
            out.push(i);
        }
        i = i + 1;
    }
    out
}

fn is_known_root(roots: &[ProjectRootRecord], root_id: &str) -> (r: bool)
    ensures
        r == has_root(roots@, root_id@),
{
    let id = str_chars(root_id);
    let mut k: usize = 0;
    while k < roots.len()
        invariant
            k <= roots@.len(),
            id@ == root_id@,
            forall|j: int| 0 <= j < k ==> #[trigger] roots@[j].id@ != root_id@,
        decreases roots.len() - k,
    {
        if chars_eq(str_chars(roots[k].id.as_str()).as_slice(), id.as_slice()) {
            return true;
        }
        k = k + 1;
    }
    false
}

fn copy_root(root: &ProjectRootRecord) -> (r: ProjectRootRecord)
    ensures
        r == *root,
{
    ProjectRootRecord {
        id: root.id.clone(),
        root_path: root.root_path.clone(),
        display_name: root.display_name.clone(),
        created_at: root.created_at,
        updated_at: root.updated_at,
    }
}

/// One group per project, in the projects' order, each with its
/// workspaces in list order; then, when some workspace's project is
/// unknown, one group of those workspaces.
pub fn sidebar_workspace_groups(project_roots: &[ProjectRootRecord], workspaces: &[WorkspaceSummary]) -> (r:
    Vec<SidebarWorkspaceGroup>)
    ensures
        ({
            let orphans = orphan_indices(workspaces@, project_roots@, workspaces@.len() as int);
            &&& r@.len() == project_roots@.len() + (if orphans.len() > 0 {
                1int
            } else {
                0
            })
            &&& forall|g: int|
                0 <= g < project_roots@.len() ==> #[trigger] r@[g].root == Some(project_roots@[g])
                    && r@[g].workspace_indices@ == indices_of_root(
                    workspaces@,
                    project_roots@[g].id@,
                    workspaces@.len() as int,
                )
            &&& orphans.len() > 0 ==> r@[project_roots@.len() as int].root is None
                && r@[project_roots@.len() as int].workspace_indices@ == orphans
        }),
{
    let mut groups: Vec<SidebarWorkspaceGroup> = Vec::new();
    let mut g: usize = 0;
    while g < project_roots.len()
        invariant
            g <= project_roots@.len(),
            groups@.len() == g,
            forall|k: int|
                0 <= k < g ==> #[trigger] groups@[k].root == Some(project_roots@[k])
                    && groups@[k].workspace_indices@ == indices_of_root(
                    workspaces@,
                    project_roots@[k].id@,
                    workspaces@.len() as int,
                ),
        decreases project_roots.len() - g,
    {
        let root = copy_root(&project_roots[g]);
        let indices = root_indices(workspaces, project_roots[g].id.as_str());
        groups.push(SidebarWorkspaceGroup { root: Some(root), workspace_indices: indices });
        g = g + 1;
    }
    let mut orphans: Vec<usize> = Vec::new();
    let mut i: usize = 0;
    while i < workspaces.len()
        invariant
            i <= workspaces@.len(),
            orphans@ == orphan_indices(workspaces@, project_roots@, i as int),
        decreases workspaces.len() - i,
    {
        if !is_known_root(project_roots, workspaces[i].root_id.as_str()) {
            orphans.push(i);
        }
        i = i + 1;
    }
    if orphans.len() > 0 {
        groups.push(SidebarWorkspaceGroup { root: None, workspace_indices: orphans });
    }
    groups
}

// ---------------------------------------------------------------------------
// Relations and status tags
// ---------------------------------------------------------------------------

pub fn relation_has_changes(relation: &BaselineRelation) -> (r: bool)
    ensures
        r == (relation.ahead_count > 0 || relation.behind_count > 0),
{
    relation.ahead_count > 0 || relation.behind_count > 0
}

/// `Default 0`, `Default +2`, `Remote -1`, `Remote +2/-1`.
pub open spec fn relation_label(relation: BaselineRelation) -> Seq<char> {
    let target = relation.target_name@;
    let ahead = relation.ahead_count as int;
    let behind = relation.behind_count as int;
    if ahead == 0 && behind == 0 {
        target + " 0"@
    } else if behind == 0 {
        target + " +"@ + dec_int(ahead)
    } else if ahead == 0 {
        target + " -"@ + dec_int(behind)
    } else {
        target + " +"@ + dec_int(ahead) + "/-"@ + dec_int(behind)
    }
}

/// The label of a relation reads its counts where they belong: the number
/// after `+` is how many commits the workspace is ahead, the number after
/// `-` how many it is behind, each written in decimal after the target's
/// name; a relation with neither reads `0`.
pub proof fn lemma_relation_label_counts(relation: BaselineRelation)
    requires
        relation.ahead_count >= 0,
        relation.behind_count >= 0,
    ensures
        ({
            let target = relation.target_name@;
            let ahead = relation.ahead_count as nat;
            let behind = relation.behind_count as nat;
            &&& (ahead > 0 && behind > 0) ==> relation_label(relation) == target + " +"@ + dec(ahead) + "/-"@ + dec(
                behind,
            )
            &&& (ahead > 0 && behind == 0) ==> relation_label(relation) == target + " +"@ + dec(ahead)
            &&& (ahead == 0 && behind > 0) ==> relation_label(relation) == target + " -"@ + dec(behind)
            &&& (ahead == 0 && behind == 0) ==> relation_label(relation) == target + " 0"@
        }),
{
}

pub fn format_relation(relation: &BaselineRelation) -> (r: String)
    ensures
        r@ == relation_label(*relation),
{
    let mut out = str_chars(relation.target_name.as_str());
    let ahead = relation.ahead_count;
    let behind = relation.behind_count;
    if ahead == 0 && behind == 0 {
        push_all(&mut out, str_chars(" 0").as_slice());
    } else if behind == 0 {
        push_all(&mut out, str_chars(" +").as_slice());
        push_all(&mut out, i64_dec(ahead).as_slice());
    } else if ahead == 0 {
        push_all(&mut out, str_chars(" -").as_slice());
        push_all(&mut out, i64_dec(behind).as_slice());
    } else {
        push_all(&mut out, str_chars(" +").as_slice());
        push_all(&mut out, i64_dec(ahead).as_slice());
        push_all(&mut out, str_chars("/-").as_slice());
        push_all(&mut out, i64_dec(behind).as_slice());
    }
    string_from_chars(out.as_slice())
}

pub open spec fn commit_word_text(count: i64) -> Seq<char> {
    if count == 1 {
        "commit is"@
    } else {
        "commits are"@
    }
}

pub fn commit_word(count: i64) -> (r: &'static str)
    ensures
        r@ == commit_word_text(count),
{
    if count == 1 {
        "commit is"
    } else {
        "commits are"
    }
}

/// The sentence that explains a relation, naming its detail (such as
/// `main@origin`) when there is one.
pub open spec fn relation_tooltip(relation: BaselineRelation) -> Seq<char> {
    let target = match relation.detail_name {
        Some(d) => d@,
        None => relation.target_name@,
    };
    let ahead = relation.ahead_count;
    let behind = relation.behind_count;
    let ahead_part = "+"@ + dec_int(ahead as int) + ": "@ + commit_word_text(ahead)
        + " in this workspace and not in "@ + target + "."@;
    let behind_part = "-"@ + dec_int(behind as int) + ": "@ + commit_word_text(behind) + " in "@
        + target + " and not in this workspace."@;
    if ahead == 0 && behind == 0 {
        "No non-empty commit difference between this workspace and "@ + target + "."@
    } else if behind == 0 {
        ahead_part
    } else if ahead == 0 {
        behind_part
    } else {
        ahead_part + " "@ + behind_part
    }
}

fn push_str(out: &mut Vec<char>, s: &str)
    ensures
        final(out)@ == old(out)@ + s@,
{
    push_all(out, str_chars(s).as_slice());
}

pub fn format_relation_tooltip(relation: &BaselineRelation) -> (r: String)
    ensures
        r@ == relation_tooltip(*relation),
{
    let target = match &relation.detail_name {
        Some(d) => str_chars(d.as_str()),
        None => str_chars(relation.target_name.as_str()),
    };
    let ahead = relation.ahead_count;
    let behind = relation.behind_count;
    let mut out: Vec<char> = Vec::new();
    if ahead == 0 && behind == 0 {
        push_str(&mut out, "No non-empty commit difference between this workspace and ");
        push_all(&mut out, target.as_slice());
        push_str(&mut out, ".");
        proof {
            assert(out@ =~= relation_tooltip(*relation));
        }
        return string_from_chars(out.as_slice());
    }
    if ahead != 0 {
        push_str(&mut out, "+");
        push_all(&mut out, i64_dec(ahead).as_slice());
        push_str(&mut out, ": ");
        push_str(&mut out, commit_word(ahead));
        push_str(&mut out, " in this workspace and not in ");
        push_all(&mut out, target.as_slice());
        push_str(&mut out, ".");
    }
    if ahead != 0 && behind != 0 {
        push_str(&mut out, " ");
    }
    if behind != 0 {
        push_str(&mut out, "-");
        push_all(&mut out, i64_dec(behind).as_slice());
        push_str(&mut out, ": ");
        push_str(&mut out, commit_word(behind));
        push_str(&mut out, " in ");
        push_all(&mut out, target.as_slice());
        push_str(&mut out, " and not in this workspace.");
    }
    proof {
        assert(out@ =~= relation_tooltip(*relation));
    }
    string_from_chars(out.as_slice())
}

/// The colour of a status tag.
#[derive(Clone, Copy, Debug, PartialEq, Eq, Structural)]
pub enum StatusTagKind {
    Secondary,
    Success,
    Info,
    Warning,
}

/// One status tag of a workspace row: its label (with `*` when the working
/// copy has changes and the tag carries them), its colour and its tooltip.
#[derive(Clone, Debug, PartialEq, Eq)]
pub struct WorkspaceStatusTag {
    pub kind: StatusTagKind,
    pub label: String,
    pub tooltip: Option<String>,
}

pub open spec fn tag_view(tag: WorkspaceStatusTag) -> (StatusTagKind, Seq<char>, Option<Seq<char>>) {
    (tag.kind, tag.label@, opt_view(tag.tooltip))
}

pub open spec fn starred(label: Seq<char>, changed: bool) -> Seq<char> {
    if changed {
        label.push('*')
    } else {
        label
    }
}

pub open spec fn unknown_tag(changed: bool) -> (StatusTagKind, Seq<char>, Option<Seq<char>>) {
    (StatusTagKind::Secondary, starred("Unknown"@, changed), Some("Workspace status is unavailable."@))
}

pub open spec fn relation_kind(relation: BaselineRelation) -> StatusTagKind {
    match relation.spec_state() {
        BaselineRelationState::Same => StatusTagKind::Success,
        BaselineRelationState::Ahead => StatusTagKind::Info,
        BaselineRelationState::Behind => StatusTagKind::Warning,
        BaselineRelationState::Diverged => StatusTagKind::Warning,
    }
}

pub open spec fn relation_tag(relation: BaselineRelation, changed: bool) -> (StatusTagKind, Seq<char>, Option<Seq<char>>) {
    (relation_kind(relation), starred(relation_label(relation), changed), Some(relation_tooltip(relation)))
}

/// The tags of a workspace row: the primary relation first (starred when
/// the working copy has changes), then the other relations that show a
/// difference; `Unknown` when the state is unknown or nothing else shows.
pub open spec fn status_tags(status: WorkspaceStatus) -> Seq<(StatusTagKind, Seq<char>, Option<Seq<char>>)> {
    if status.workspace_state == WorkspaceState::Unknown {
        seq![unknown_tag(status.has_working_copy_changes)]
    } else {
        let changed = status.has_working_copy_changes;
        let primary: Seq<(StatusTagKind, Seq<char>, Option<Seq<char>>)> = match status.primary_relation {
            BaselineRelationTarget::Local => match status.local_relation {
                Some(r) => seq![relation_tag(r, changed)],
                None => seq![],
            },
            BaselineRelationTarget::Remote => match status.remote_relation {
                Some(r) => seq![relation_tag(r, changed)],
                None => seq![],
            },
            BaselineRelationTarget::NoBaseline => seq![],
        };
        let local: Seq<(StatusTagKind, Seq<char>, Option<Seq<char>>)> = match status.local_relation {
            Some(r) => if status.primary_relation != BaselineRelationTarget::Local && (r.ahead_count
                > 0 || r.behind_count > 0) {
                seq![relation_tag(r, false)]
            } else {
                seq![]
            },
            None => seq![],
        };
        let remote: Seq<(StatusTagKind, Seq<char>, Option<Seq<char>>)> = match status.remote_relation {
            Some(r) => if status.primary_relation != BaselineRelationTarget::Remote && (
            r.ahead_count > 0 || r.behind_count > 0) {
                seq![relation_tag(r, false)]
            } else {
                seq![]
            },
            None => seq![],
        };
        let tags = primary + local + remote;
        if tags.len() == 0 {
            seq![unknown_tag(changed)]
        } else {
            tags
        }
    }
}

fn starred_string(label: String, changed: bool) -> (r: String)
    ensures
        r@ == starred(label@, changed),
{
    if changed {
        let mut out = str_chars(label.as_str());
        out.push('*');
        string_from_chars(out.as_slice())
    } else {
        label
    }
}

fn unknown_status_tag(changed: bool) -> (r: WorkspaceStatusTag)
    ensures
        tag_view(r) == unknown_tag(changed),
{
    WorkspaceStatusTag {
        kind: StatusTagKind::Secondary,
        label: starred_string("Unknown".to_owned(), changed),
        tooltip: Some("Workspace status is unavailable.".to_owned()),
    }
}

fn relation_status_tag(relation: &BaselineRelation, changed: bool) -> (r: WorkspaceStatusTag)
    ensures
        tag_view(r) == relation_tag(*relation, changed),
{
    let kind = match relation.state() {
        BaselineRelationState::Same => StatusTagKind::Success,
        BaselineRelationState::Ahead => StatusTagKind::Info,
        BaselineRelationState::Behind => StatusTagKind::Warning,
        BaselineRelationState::Diverged => StatusTagKind::Warning,
    };
    WorkspaceStatusTag {
        kind,
        label: starred_string(format_relation(relation), changed),
        tooltip: Some(format_relation_tooltip(relation)),
    }
}

pub fn workspace_status_tags(status: &WorkspaceStatus) -> (r: Vec<WorkspaceStatusTag>)
    ensures
        r@.map_values(|t: WorkspaceStatusTag| tag_view(t)) == status_tags(*status),
{
    let mut tags: Vec<WorkspaceStatusTag> = Vec::new();
    let changed = status.has_working_copy_changes;
    if let WorkspaceState::Unknown = status.workspace_state {
        tags.push(unknown_status_tag(changed));
        proof {
            assert(tags@.map_values(|t: WorkspaceStatusTag| tag_view(t)) =~= status_tags(*status));
        }
        return tags;
    }
    match status.primary_relation {
        BaselineRelationTarget::Local => {
            if let Some(r) = &status.local_relation {
                tags.push(relation_status_tag(r, changed));
            }
        },
        BaselineRelationTarget::Remote => {
            if let Some(r) = &status.remote_relation {
                tags.push(relation_status_tag(r, changed));
            }
        },
        BaselineRelationTarget::NoBaseline => {},
    }
    let ghost after_primary = tags@.map_values(|t: WorkspaceStatusTag| tag_view(t));
    let not_local = match status.primary_relation {
        BaselineRelationTarget::Local => false,
        _ => true,
    };
    if let Some(r) = &status.local_relation {
        if not_local && relation_has_changes(r) {
            tags.push(relation_status_tag(r, false));
        }
    }
    let ghost after_local = tags@.map_values(|t: WorkspaceStatusTag| tag_view(t));
    let not_remote = match status.primary_relation {
        BaselineRelationTarget::Remote => false,
        _ => true,
    };
    if let Some(r) = &status.remote_relation {
        if not_remote && relation_has_changes(r) {
            tags.push(relation_status_tag(r, false));
        }
    }
    let ghost after_remote = tags@.map_values(|t: WorkspaceStatusTag| tag_view(t));
    if tags.len() == 0 {
        tags.push(unknown_status_tag(changed));
    }
    proof {
        assert(tags@.map_values(|t: WorkspaceStatusTag| tag_view(t)) =~= status_tags(*status));
    }
    tags
}

/// The bookmarks of a workspace joined with commas, marked `(+)` when they
/// sit on an ancestor rather than on the workspace's own revision.
pub open spec fn bookmark_label(workspace: WorkspaceSummary) -> Option<Seq<char>> {
    let names = string_views(workspace.status.bookmarks@);
    if names.len() == 0 {
        None
    } else {
        let joined = join(names, ", "@);
        Some(
            if workspace.status.bookmark_relation == WorkspaceBookmarkRelation::Above {
                joined + " (+)"@
            } else {
                joined
            },
        )
    }
}

pub fn workspace_bookmark_label(workspace: &WorkspaceSummary) -> (r: Option<String>)
    ensures
        opt_view(r) == bookmark_label(*workspace),
{
    let bookmarks = &workspace.status.bookmarks;
    if bookmarks.len() == 0 {
        return None;
    }
    let mut pieces: Vec<Vec<char>> = Vec::new();
    let mut i: usize = 0;
    while i < bookmarks.len()
        invariant
            i <= bookmarks@.len(),
            pieces@.map_values(|p: Vec<char>| p@) == string_views(bookmarks@).take(i as int),
        decreases bookmarks.len() - i,
    {
        let ghost before = pieces@.map_values(|p: Vec<char>| p@);
        pieces.push(str_chars(bookmarks[i].as_str()));
        proof {
            assert(pieces@.map_values(|p: Vec<char>| p@) =~= before.push(bookmarks@[i as int]@));
            assert(string_views(bookmarks@).take(i + 1) =~= string_views(bookmarks@).take(i as int).push(bookmarks@[i as int]@));
        }
        i = i + 1;
    }
    proof {
        assert(string_views(bookmarks@).take(bookmarks@.len() as int) =~= string_views(bookmarks@));
    }
    let sep = str_chars(", ");
    let mut label = join_exec(&pieces, sep.as_slice());
    if let WorkspaceBookmarkRelation::Above = workspace.status.bookmark_relation {
        push_str(&mut label, " (+)");
    }
    Some(string_from_chars(label.as_slice()))
}

// ---------------------------------------------------------------------------
// Context menu
// ---------------------------------------------------------------------------

/// What a rename dialog renames.
#[derive(Clone, Debug, PartialEq, Eq)]
pub enum SidebarRenameTarget {
    ProjectRoot(String),
    Workspace(String),
}

/// What a sidebar menu entry does, with the id it acts on.
#[derive(Clone, Debug, PartialEq, Eq)]
pub enum SidebarMenuAction {
    CreateWorkspaceForRoot(String),
    RenameProjectRoot(String),
    RemoveProjectRoot(String),
    RenameWorkspace(String),
    ForgetWorkspace(String),
    DeleteAndForgetWorkspace(String),
}

#[derive(Clone, Debug, PartialEq, Eq)]
pub enum SidebarMenuEntry {
    Item { label: String, action: SidebarMenuAction, disabled: bool },
    Separator,
}

fn copy_action(action: &SidebarMenuAction) -> (r: SidebarMenuAction)
    ensures
        r == *action,
{
    match action {
        SidebarMenuAction::CreateWorkspaceForRoot(id) => SidebarMenuAction::CreateWorkspaceForRoot(
            id.clone(),
        ),
        SidebarMenuAction::RenameProjectRoot(id) => SidebarMenuAction::RenameProjectRoot(id.clone()),
        SidebarMenuAction::RemoveProjectRoot(id) => SidebarMenuAction::RemoveProjectRoot(id.clone()),
        SidebarMenuAction::RenameWorkspace(id) => SidebarMenuAction::RenameWorkspace(id.clone()),
        SidebarMenuAction::ForgetWorkspace(id) => SidebarMenuAction::ForgetWorkspace(id.clone()),
        SidebarMenuAction::DeleteAndForgetWorkspace(id) => SidebarMenuAction::DeleteAndForgetWorkspace(
            id.clone(),
        ),
    }
}

impl SidebarMenuEntry {
    pub open spec fn spec_enabled(&self) -> bool {
        *self matches SidebarMenuEntry::Item { disabled, .. } && !disabled
    }

    pub fn item(label: String, action: SidebarMenuAction) -> (r: Self)
        ensures
            r == (SidebarMenuEntry::Item { label, action, disabled: false }),
    {
        Self::item_with_disabled(label, action, false)
    }

    pub fn item_with_disabled(label: String, action: SidebarMenuAction, disabled: bool) -> (r: Self)
        ensures
            r == (SidebarMenuEntry::Item { label, action, disabled }),
    {
        SidebarMenuEntry::Item { label, action, disabled }
    }

    /// An item that can be chosen (not a separator, not disabled).
    pub fn is_enabled_item(&self) -> (r: bool)
        ensures
            r == self.spec_enabled(),
    {
        match self {
            SidebarMenuEntry::Item { disabled, .. } => !*disabled,
            SidebarMenuEntry::Separator => false,
        }
    }

    pub fn action(&self) -> (r: Option<SidebarMenuAction>)
        ensures
            r == (match *self {
                SidebarMenuEntry::Item { action, disabled, .. } => if disabled {
                    None
                } else {
                    Some(action)
                },
                SidebarMenuEntry::Separator => None,
            }),
    {
        match self {
            SidebarMenuEntry::Item { action, disabled, .. } => if *disabled {
                None
            } else {
                Some(copy_action(action))
            },
            SidebarMenuEntry::Separator => None,
        }
    }
}

/// The entries of a project root's menu: create a workspace in the root,
/// rename it, a separator, and forget it.
pub fn project_root_menu_entries(root_id: &str) -> (r: Vec<SidebarMenuEntry>)
    ensures
        r@.len() == 4,
        r@[0] matches SidebarMenuEntry::Item { label, action: SidebarMenuAction::CreateWorkspaceForRoot(id), disabled }
            && label@ == "New Workspace"@ && id@ == root_id@ && !disabled,
        r@[1] matches SidebarMenuEntry::Item { label, action: SidebarMenuAction::RenameProjectRoot(id), disabled }
            && label@ == "Rename"@ && id@ == root_id@ && !disabled,
        r@[2] == SidebarMenuEntry::Separator,
        r@[3] matches SidebarMenuEntry::Item { label, action: SidebarMenuAction::RemoveProjectRoot(id), disabled }
            && label@ == "Forget"@ && id@ == root_id@ && !disabled,
{
    let mut r: Vec<SidebarMenuEntry> = Vec::new();
    r.push(SidebarMenuEntry::item(
        "New Workspace".to_owned(),
        SidebarMenuAction::CreateWorkspaceForRoot(root_id.to_owned()),
    ));
    r.push(SidebarMenuEntry::item("Rename".to_owned(), SidebarMenuAction::RenameProjectRoot(root_id.to_owned())));
    r.push(SidebarMenuEntry::Separator);
    r.push(SidebarMenuEntry::item("Forget".to_owned(), SidebarMenuAction::RemoveProjectRoot(root_id.to_owned())));
    r
}

/// The entries of a workspace's menu: rename it, a separator, forget it and
/// delete it from disk and forget it, each of the last two disabled as
/// asked.
pub fn workspace_menu_entries(workspace_id: &str, forget_disabled: bool, delete_disabled: bool) -> (r: Vec<
    SidebarMenuEntry,
>)
    ensures
        r@.len() == 4,
        r@[0] matches SidebarMenuEntry::Item { label, action: SidebarMenuAction::RenameWorkspace(id), disabled }
            && label@ == "Rename"@ && id@ == workspace_id@ && !disabled,
        r@[1] == SidebarMenuEntry::Separator,
        r@[2] matches SidebarMenuEntry::Item { label, action: SidebarMenuAction::ForgetWorkspace(id), disabled }
            && label@ == "Forget"@ && id@ == workspace_id@ && disabled == forget_disabled,
        r@[3] matches SidebarMenuEntry::Item {
            label,
            action: SidebarMenuAction::DeleteAndForgetWorkspace(id),
            disabled,
        } && label@ == "Delete and forget"@ && id@ == workspace_id@ && disabled == delete_disabled,
{
    let mut r: Vec<SidebarMenuEntry> = Vec::new();
    r.push(SidebarMenuEntry::item("Rename".to_owned(), SidebarMenuAction::RenameWorkspace(workspace_id.to_owned())));
    r.push(SidebarMenuEntry::Separator);
    r.push(SidebarMenuEntry::item_with_disabled(
        "Forget".to_owned(),
        SidebarMenuAction::ForgetWorkspace(workspace_id.to_owned()),
        forget_disabled,
    ));
    r.push(SidebarMenuEntry::item_with_disabled(
        "Delete and forget".to_owned(),
        SidebarMenuAction::DeleteAndForgetWorkspace(workspace_id.to_owned()),
        delete_disabled,
    ));
    r
}

/// `entries` is the menu of a workspace's sidebar row: the default
/// workspace cannot be forgotten, and only a workspace that can be
/// forgotten and whose directory is recorded can be deleted.
pub open spec fn is_workspace_row_menu(entries: Seq<SidebarMenuEntry>, workspace: WorkspaceSummary) -> bool {
    let can_forget = workspace.workspace_name@ != "default"@;
    let can_delete = can_forget && !starts_with(workspace.workspace_path@, missing_workspace_path_prefix());
    &&& entries.len() == 4
    &&& entries[0] matches SidebarMenuEntry::Item { label, action: SidebarMenuAction::RenameWorkspace(id), disabled }
        && label@ == "Rename"@ && id@ == workspace.id@ && !disabled
    &&& entries[1] == SidebarMenuEntry::Separator
    &&& entries[2] matches SidebarMenuEntry::Item { label, action: SidebarMenuAction::ForgetWorkspace(id), disabled }
        && label@ == "Forget"@ && id@ == workspace.id@ && disabled == !can_forget
    &&& entries[3] matches SidebarMenuEntry::Item {
        label,
        action: SidebarMenuAction::DeleteAndForgetWorkspace(id),
        disabled,
    } && label@ == "Delete and forget"@ && id@ == workspace.id@ && disabled == !can_delete
}

/// The entries of the menu of a workspace's sidebar row.
pub fn workspace_row_menu_entries(workspace: &WorkspaceSummary) -> (r: Vec<SidebarMenuEntry>)
    ensures
        is_workspace_row_menu(r@, *workspace),
{
    let default_name = "default".to_owned();
    let can_forget = !workspace.workspace_name.eq(&default_name);
    let can_delete = can_forget && has_recorded_workspace_path(workspace.workspace_path.as_str());
    workspace_menu_entries(workspace.id.as_str(), !can_forget, !can_delete)
}

/// What a workspace's sidebar row shows, apart from its activity icon and
/// status tags: its title, the meta line (bookmark label, shortcut, conflict
/// tag) if any part of it is there, the badges (missing directory, unread
/// notes) and the entries of its menu.
#[derive(Clone, Debug, PartialEq, Eq)]
pub struct SidebarWorkspaceRow {
    pub title: String,
    pub bookmark_label: Option<String>,
    pub shortcut_label: Option<String>,
    pub shows_conflict: bool,
    pub shows_meta_row: bool,
    pub missing_path: bool,
    pub unread_notes_label: Option<String>,
    pub menu: Vec<SidebarMenuEntry>,
}

/// The unread notes badge: the count and the word `note`.
pub open spec fn unread_notes_badge(unread_notes: i64) -> Option<Seq<char>> {
    if unread_notes > 0 {
        Some(dec_int(unread_notes as int) + " note"@)
    } else {
        None
    }
}

/// The row of `workspace` in the sidebar, with its shortcut label if it has
/// one.
pub fn sidebar_workspace_row(workspace: &WorkspaceSummary, shortcut_label: Option<&str>) -> (r: SidebarWorkspaceRow)
    ensures
        r.title@ == if workspace.display_name@.len() == 0 {
            workspace.workspace_name@
        } else {
            workspace.display_name@
        },
        opt_view(r.bookmark_label) == bookmark_label(*workspace),
        opt_view(r.shortcut_label) == match shortcut_label {
            Some(l) => Some(l@),
            None => None,
        },
        r.shows_conflict == workspace.status.has_conflicts,
        r.shows_meta_row == (r.bookmark_label is Some || shortcut_label is Some || workspace.status.has_conflicts),
        r.missing_path == starts_with(workspace.workspace_path@, missing_workspace_path_prefix()),
        opt_view(r.unread_notes_label) == unread_notes_badge(workspace.status.unread_notes),
        is_workspace_row_menu(r.menu@, *workspace),
{
    let title = workspace.display_name_or_workspace_name().to_owned();
    let bookmark = workspace_bookmark_label(workspace);
    let shortcut = match shortcut_label {
        Some(l) => Some(l.to_owned()),
        None => None,
    };
    let has_conflicts = workspace.status.has_conflicts;
    let shows_meta_row = bookmark.is_some() || shortcut.is_some() || has_conflicts;
    let missing_path = !has_recorded_workspace_path(workspace.workspace_path.as_str());
    let unread = workspace.status.unread_notes;
    let unread_notes_label = if unread > 0 {
        let mut label = i64_dec(unread);
        push_str(&mut label, " note");
        Some(string_from_chars(label.as_slice()))
    } else {
        None
    };
    let menu = workspace_row_menu_entries(workspace);
    SidebarWorkspaceRow {
        title,
        bookmark_label: bookmark,
        shortcut_label: shortcut,
        shows_conflict: has_conflicts,
        shows_meta_row,
        missing_path,
        unread_notes_label,
        menu,
    }
}

/// The positions of the enabled entries among the first `n`, in order.
pub open spec fn enabled_upto(entries: Seq<SidebarMenuEntry>, n: int) -> Seq<usize>
    decreases n,
{
    if n <= 0 {
        seq![]
    } else {
        let previous = enabled_upto(entries, n - 1);
        if entries[n - 1].spec_enabled() {
            previous.push((n - 1) as usize)
        } else {
            previous
        }
    }
}

pub open spec fn enabled_positions(entries: Seq<SidebarMenuEntry>) -> Seq<usize> {
    enabled_upto(entries, entries.len() as int)
}

/// Where `x` first occurs in `s`.
pub open spec fn find_position(s: Seq<usize>, x: usize) -> Option<int>
    decreases s.len(),
{
    if s.len() == 0 {
        None
    } else if s[0] == x {
        Some(0)
    } else {
        match find_position(s.drop_first(), x) {
            Some(p) => Some(p + 1),
            None => None,
        }
    }
}

/// The entries of an open sidebar menu and the highlighted one.
#[derive(Clone, Debug, PartialEq, Eq)]
pub struct SidebarMenuState {
    pub entries: Vec<SidebarMenuEntry>,
    pub selected_index: Option<usize>,
}

/// The highlighted position within the enabled entries: where the selected
/// entry is, the first when none is selected or it is not enabled.
pub open spec fn selected_position(enabled: Seq<usize>, selected: Option<usize>) -> int {
    let current = match selected {
        Some(i) => i,
        None => enabled[0],
    };
    match find_position(enabled, current) {
        Some(p) => p,
        None => 0,
    }
}

proof fn lemma_enabled_upto_shape(entries: Seq<SidebarMenuEntry>, n: int)
    requires
        0 <= n <= entries.len(),
        entries.len() <= usize::MAX,
    ensures
        forall|i: int, j: int|
            0 <= i < j < enabled_upto(entries, n).len() ==> enabled_upto(entries, n)[i]
                < enabled_upto(entries, n)[j],
        forall|i: int|
            0 <= i < enabled_upto(entries, n).len() ==> enabled_upto(entries, n)[i] < n
                && entries[enabled_upto(entries, n)[i] as int].spec_enabled(),
    decreases n,
{
    if n > 0 {
        lemma_enabled_upto_shape(entries, n - 1);
        let previous = enabled_upto(entries, n - 1);
        let all = enabled_upto(entries, n);
        if entries[n - 1].spec_enabled() {
            assert(all == previous.push((n - 1) as usize));
        } else {
            assert(all == previous);
        }
        assert forall|i: int| 0 <= i < all.len() implies all[i] < n && entries[all[i] as int].spec_enabled() by {
            if i < previous.len() {
                assert(all[i] == previous[i]);
            }
        }
        assert forall|i: int, j: int| 0 <= i < j < all.len() implies all[i] < all[j] by {
            if j < previous.len() {
                assert(all[i] == previous[i] && all[j] == previous[j]);
            } else {
                assert(all[i] == previous[i]);
            }
        }
    }
}

proof fn lemma_find_position_of_member(s: Seq<usize>, p: int)
    requires
        0 <= p < s.len(),
        forall|i: int, j: int| 0 <= i < j < s.len() ==> s[i] < s[j],
    ensures
        find_position(s, s[p]) == Some(p),
    decreases s.len(),
{
    if p > 0 {
        let r = s.drop_first();
        assert forall|i: int, j: int| 0 <= i < j < r.len() implies r[i] < r[j] by {
            assert(r[i] == s[i + 1] && r[j] == s[j + 1]);
        }
        assert(r[p - 1] == s[p]);
        lemma_find_position_of_member(r, p - 1);
        assert(s[0] < s[p]);
    }
}

proof fn lemma_find_position_bound(s: Seq<usize>, x: usize)
    ensures
        find_position(s, x) matches Some(p) ==> 0 <= p < s.len() && s[p] == x,
    decreases s.len(),
{
    if s.len() > 0 && s[0] != x {
        lemma_find_position_bound(s.drop_first(), x);
    }
}

impl SidebarMenuState {
    /// A menu with its first enabled entry highlighted.
    pub fn new(entries: Vec<SidebarMenuEntry>) -> (r: Self)
        ensures
            r.entries@ == entries@,
            r.selected_index == (if enabled_positions(entries@).len() > 0 {
                Some(enabled_positions(entries@)[0])
            } else {
                None
            }),
    {
        let enabled = enabled_indices_of(&entries);
        let selected_index = if enabled.len() > 0 {
            Some(enabled[0])
        } else {
            None
        };
        SidebarMenuState { entries, selected_index }
    }

    pub fn enabled_indices(&self) -> (r: Vec<usize>)
        ensures
            r@ == enabled_positions(self.entries@),
    {
        enabled_indices_of(&self.entries)
    }

    /// Highlights the previous enabled entry, wrapping to the last.
    pub fn select_up(&mut self)
        ensures
            final(self).entries == old(self).entries,
            ({
                let enabled = enabled_positions(old(self).entries@);
                let p = selected_position(enabled, old(self).selected_index);
                final(self).selected_index == if enabled.len() == 0 {
                    old(self).selected_index
                } else if p == 0 {
                    Some(enabled[enabled.len() - 1])
                } else {
                    Some(enabled[p - 1])
                }
            }),
    {
        let enabled = enabled_indices_of(&self.entries);
        if enabled.len() == 0 {
            return;
        }
        let position = position_in(&enabled, self.selected_index);
        let next = if position == 0 {
            enabled.len() - 1
        } else {
            position - 1
        };
        self.selected_index = Some(enabled[next]);
    }

    /// Highlights the next enabled entry, wrapping to the first.
    pub fn select_down(&mut self)
        ensures
            final(self).entries == old(self).entries,
            ({
                let enabled = enabled_positions(old(self).entries@);
                let p = selected_position(enabled, old(self).selected_index);
                final(self).selected_index == if enabled.len() == 0 {
                    old(self).selected_index
                } else {
                    Some(enabled[(p + 1) % (enabled.len() as int)])
                }
            }),
    {
        let enabled = enabled_indices_of(&self.entries);
        if enabled.len() == 0 {
            return;
        }
        let position = position_in(&enabled, self.selected_index);
        self.selected_index = Some(enabled[(position + 1) % enabled.len()]);
    }

    /// The action of the entry at `index`, when it is an enabled item.
    pub fn action_at(&self, index: usize) -> (r: Option<SidebarMenuAction>)
        ensures
            r == (if index < self.entries@.len() {
                match self.entries@[index as int] {
                    SidebarMenuEntry::Item { action, disabled, .. } => if disabled {
                        None
                    } else {
                        Some(action)
                    },
                    SidebarMenuEntry::Separator => None,
                }
            } else {
                None
            }),
    {
        if index < self.entries.len() {
            self.entries[index].action()
        } else {
            None
        }
    }
}

fn enabled_indices_of(entries: &Vec<SidebarMenuEntry>) -> (r: Vec<usize>)
    ensures
        r@ == enabled_positions(entries@),
{
    let mut out: Vec<usize> = Vec::new();
    let mut i: usize = 0;
    while i < entries.len()
        invariant
            i <= entries@.len(),
            out@ == enabled_upto(entries@, i as int),
        decreases entries.len() - i,
    {
        if entries[i].is_enabled_item() {
            out.push(i);
        }
        i = i + 1;
    }
    out
}

fn position_in(enabled: &Vec<usize>, selected: Option<usize>) -> (p: usize)
    requires
        enabled@.len() > 0,
    ensures
        p == selected_position(enabled@, selected),
        p < enabled@.len(),
{
    let current = match selected {
        Some(i) => i,
        None => enabled[0],
    };
    let mut k: usize = 0;
    proof {
        assert(enabled@.skip(0) =~= enabled@);
    }
    while k < enabled.len()
        invariant
            k <= enabled@.len(),
            enabled@.len() > 0,
            current == match selected {
                Some(i) => i,
                None => enabled@[0],
            },
            forall|j: int| 0 <= j < k ==> enabled@[j] != current,
            find_position(enabled@, current) == match find_position(enabled@.skip(k as int), current) {
                Some(q) => Some(q + k),
                None => None,
            },
        decreases enabled.len() - k,
    {
        if enabled[k] == current {
            proof {
                assert(enabled@.skip(k as int)[0] == current);
                assert(find_position(enabled@.skip(k as int), current) == Some(0int));
                assert(find_position(enabled@, current) == Some(k as int));
            }
            return k;
        }
        proof {
            assert(enabled@.skip(k as int).drop_first() =~= enabled@.skip(k + 1));
        }
        k = k + 1;
    }
    proof {
        assert(enabled@.skip(k as int) =~= Seq::<usize>::empty());
    }
    0
}

/// Moving the highlight down and then up returns it to an enabled entry
/// that was highlighted.
pub proof fn lemma_menu_down_then_up(entries: Seq<SidebarMenuEntry>, selected: usize)
    requires
        entries.len() <= usize::MAX,
        enabled_positions(entries).contains(selected),
    ensures
        ({
            let enabled = enabled_positions(entries);
            let p = selected_position(enabled, Some(selected));
            let down = Some(enabled[(p + 1) % (enabled.len() as int)]);
            let q = selected_position(enabled, down);
            (if q == 0 {
                enabled[enabled.len() - 1]
            } else {
                enabled[q - 1]
            }) == selected
        }),
{
    let enabled = enabled_positions(entries);
    lemma_enabled_upto_shape(entries, entries.len() as int);
    let k = choose|k: int| 0 <= k < enabled.len() && enabled[k] == selected;
    lemma_find_position_of_member(enabled, k);
    let n = enabled.len() as int;
    let next = (k + 1) % n;
    lemma_find_position_of_member(enabled, next);
    if k + 1 < n {
        vstd::arithmetic::div_mod::lemma_small_mod((k + 1) as nat, n as nat);
        assert(next == k + 1);
    } else {
        vstd::arithmetic::div_mod::lemma_mod_self_0(n);
        assert(next == 0);
    }
}

} // verus!
