//! Loading the workspace list: project records for repository roots,
//! merging freshly listed workspaces with what was stored, and choosing the
//! workspace to open.

use vstd::prelude::*;
use crate::types::{ProjectRootRecord, WorkspaceSummary, has_recorded_workspace_path, missing_workspace_path_prefix};
use crate::codex::{path_components, path_is_in_workspace};
use crate::text::starts_with;
use crate::activity::{fnv, FNV_OFFSET, fnv1a_bytes};
use crate::num::{dec, hex_fixed, u64_hex16, u64_dec};
use crate::text::{str_chars, string_from_chars, push_all, chars_eq};
use crate::split::{words, words_exec, join, join_exec, split_char, split_exec};
use crate::clock::now_ms;

verus! {

/// `root-` and sixteen lowercase hexadecimal digits of the FNV-1a hash of
/// the root path's UTF-8 bytes: stable for a path.
pub open spec fn project_root_id(root_path: Seq<char>) -> Seq<char> {
    "root-"@ + hex_fixed(fnv(vstd::utf8::encode_utf8(root_path), FNV_OFFSET) as nat, 16)
}

pub fn stable_project_root_id(root_path: &str) -> (r: String)
    ensures
        r@ == project_root_id(root_path@),
{
    let hash = fnv1a_bytes(root_path.as_bytes());
    let mut out = str_chars("root-");
    push_all(&mut out, u64_hex16(hash).as_slice());
    string_from_chars(out.as_slice())
}

/// The last named component of a path (`Path::file_name`): empty and `.`
/// components are skipped; none when the path ends in `..` or has no
/// component.
pub open spec fn last_component(components: Seq<Seq<char>>) -> Option<Seq<char>>
    decreases components.len(),
{
    if components.len() == 0 {
        None
    } else {
        let c = components.last();
        if c.len() == 0 || c == "."@ {
            last_component(components.drop_last())
        } else if c == ".."@ {
            None
        } else {
            Some(c)
        }
    }
}

/// The name a project is shown by: the root directory's name, `repo` when
/// the path has none.
pub open spec fn root_display_name(root_path: Seq<char>) -> Seq<char> {
    match last_component(split_char(root_path, '/')) {
        Some(name) => name,
        None => "repo"@,
    }
}

pub fn repo_directory_name(root_path: &str) -> (r: String)
    ensures
        r@ == root_display_name(root_path@),
{
    let components = split_exec(str_chars(root_path).as_slice(), '/', '/', false);
    let ghost cs = components@.map_values(|p: Vec<char>| p@);
    assert(cs == split_char(root_path@, '/'));
    assert(cs.take(cs.len() as int) =~= cs);
    let mut k = components.len();
    while k > 0
        invariant
            k <= components@.len(),
            cs == components@.map_values(|p: Vec<char>| p@),
            cs == split_char(root_path@, '/'),
            last_component(cs) == last_component(cs.take(k as int)),
        decreases k,
    {
        let c = components[k - 1].as_slice();
        proof {
            assert(cs.take(k as int).drop_last() =~= cs.take(k - 1));
            assert(cs.take(k as int).last() == c@);
        }
        if c.len() == 0 || crate::text::is_word(c, ".") {
            k = k - 1;
        } else if crate::text::is_word(c, "..") {
            return "repo".to_owned();
        } else {
            return string_from_chars(c);
        }
    }
    "repo".to_owned()
}

/// The project record of a repository root, created and updated at
/// `now_ms`.
pub fn project_root_from_path_at(root_path: &str, now_ms: i64) -> (r: ProjectRootRecord)
    ensures
        r.id@ == project_root_id(root_path@),
        r.root_path@ == root_path@,
        r.display_name@ == root_display_name(root_path@),
        r.created_at == now_ms,
        r.updated_at == now_ms,
{
    ProjectRootRecord {
        id: stable_project_root_id(root_path),
        root_path: root_path.to_owned(),
        display_name: repo_directory_name(root_path),
        created_at: now_ms,
        updated_at: now_ms,
    }
}

/// `project_root_from_path_at` at the current time.
pub fn project_root_from_path(root_path: &str) -> (r: ProjectRootRecord)
    ensures
        r.id@ == project_root_id(root_path@),
        r.root_path@ == root_path@,
        r.display_name@ == root_display_name(root_path@),
        r.created_at == r.updated_at,
{
    project_root_from_path_at(root_path, now_ms())
}

/// A display name typed by the user: its words joined by single spaces.
pub open spec fn sanitized_name(input: Seq<char>) -> Seq<char> {
    join(words(input), " "@)
}

pub fn sanitize_display_name(input: &str) -> (r: String)
    ensures
        r@ == sanitized_name(input@),
{
    let parts = words_exec(str_chars(input).as_slice());
    let joined = join_exec(&parts, str_chars(" ").as_slice());
    string_from_chars(joined.as_slice())
}

/// A listed workspace as it is stored at `now_ms`: what the user chose
/// before (display name, creation and last opening) comes from the stored
/// record when there is one; a new record is created now.
pub open spec fn merged_workspace(
    listed: WorkspaceSummary,
    existing: Option<WorkspaceSummary>,
    now_ms: i64,
    out: WorkspaceSummary,
) -> bool {
    &&& out.id == listed.id
    &&& out.root_id == listed.root_id
    &&& out.root_path == listed.root_path
    &&& out.project_display_name == listed.project_display_name
    &&& out.workspace_name == listed.workspace_name
    &&& out.workspace_path == listed.workspace_path
    &&& out.status == listed.status
    &&& out.updated_at == now_ms
    &&& match existing {
        Some(e) => {
            &&& out.display_name == e.display_name
            &&& out.created_at == e.created_at
            &&& out.last_opened_at == e.last_opened_at
        },
        None => {
            &&& out.display_name == listed.display_name
            &&& out.created_at == (if listed.created_at == 0 {
                now_ms
            } else {
                listed.created_at
            })
            &&& out.last_opened_at == listed.last_opened_at
        },
    }
}

pub open spec fn opt_ref_workspace(o: Option<&WorkspaceSummary>) -> Option<WorkspaceSummary> {
    match o {
        Some(w) => Some(*w),
        None => None,
    }
}

pub fn merge_discovered_workspace(
    listed: WorkspaceSummary,
    existing: Option<&WorkspaceSummary>,
    now_ms: i64,
) -> (r: WorkspaceSummary)
    ensures
        merged_workspace(listed, opt_ref_workspace(existing), now_ms, r),
{
    let mut workspace = listed;
    match existing {
        Some(e) => {
            workspace.display_name = e.display_name.clone();
            workspace.created_at = e.created_at;
            workspace.last_opened_at = e.last_opened_at;
        },
        None => {
            if workspace.created_at == 0 {
                workspace.created_at = now_ms;
            }
        },
    }
    workspace.updated_at = now_ms;
    workspace
}

/// The stored record with the same id as `workspace`, if any.
pub open spec fn find_by_id(stored: Seq<WorkspaceSummary>, id: Seq<char>) -> Option<int>
    decreases stored.len(),
{
    if stored.len() == 0 {
        None
    } else if stored[0].id@ == id {
        Some(0)
    } else {
        match find_by_id(stored.drop_first(), id) {
            Some(i) => Some(i + 1),
            None => None,
        }
    }
}

pub fn find_workspace_index(workspaces: &[WorkspaceSummary], id: &str) -> (r: Option<usize>)
    ensures
        match r {
            Some(i) => find_by_id(workspaces@, id@) == Some(i as int),
            None => find_by_id(workspaces@, id@) is None,
        },
{
    let wanted = str_chars(id);
    let ghost all = workspaces@;
    let mut i: usize = 0;
    proof {
        assert(all.skip(0) =~= all);
    }
    while i < workspaces.len()
        invariant
            i <= all.len(),
            all == workspaces@,
            wanted@ == id@,
            find_by_id(all, id@) == match find_by_id(all.skip(i as int), id@) {
                Some(k) => Some(k + i),
                None => None,
            },
        decreases all.len() - i,
    {
        proof {
            assert(all.skip(i as int)[0] == workspaces@[i as int]);
            assert(all.skip(i as int).drop_first() =~= all.skip(i + 1));
        }
        if chars_eq(str_chars(workspaces[i].id.as_str()).as_slice(), wanted.as_slice()) {
            return Some(i);
        }
        i = i + 1;
    }
    proof {
        assert(all.skip(i as int) =~= Seq::<WorkspaceSummary>::empty());
    }
    None
}

/// The workspace to open after loading: the one asked for when it is
/// listed, otherwise the first; none when nothing is listed.
pub open spec fn active_index(workspaces: Seq<WorkspaceSummary>, active_id: Option<Seq<char>>) -> Option<int> {
    if workspaces.len() == 0 {
        None
    } else {
        match active_id {
            Some(id) => match find_by_id(workspaces, id) {
                Some(i) => Some(i),
                None => Some(0),
            },
            None => Some(0),
        }
    }
}

pub fn choose_active_workspace_index(workspaces: &[WorkspaceSummary], active_workspace_id: Option<&str>) -> (r:
    Option<usize>)
    ensures
        match r {
            Some(i) => active_index(workspaces@, crate::text::opt_str_view(active_workspace_id))
                == Some(i as int),
            None => active_index(workspaces@, crate::text::opt_str_view(active_workspace_id)) is None,
        },
{
    if workspaces.len() == 0 {
        return None;
    }
    match active_workspace_id {
        Some(id) => match find_workspace_index(workspaces, id) {
            Some(i) => Some(i),
            None => Some(0),
        },
        None => Some(0),
    }
}

/// The status line after loading.
pub open spec fn bootstrap_status(workspace_count: nat, warning_count: nat) -> Seq<char> {
    if workspace_count == 0 {
        "No project roots yet. Run from inside a JJ repo to auto-seed the first root."@
    } else if warning_count == 0 {
        "Loaded "@ + dec(workspace_count) + " JJ workspace(s)."@
    } else {
        "Loaded "@ + dec(workspace_count) + " JJ workspace(s), with "@ + dec(warning_count)
            + " refresh warning(s)."@
    }
}

pub fn bootstrap_status_message(workspace_count: usize, warning_count: usize) -> (r: String)
    ensures
        r@ == bootstrap_status(workspace_count as nat, warning_count as nat),
{
    if workspace_count == 0 {
        return "No project roots yet. Run from inside a JJ repo to auto-seed the first root.".to_owned();
    }
    let mut out = str_chars("Loaded ");
    push_all(&mut out, u64_dec(workspace_count as u64).as_slice());
    if warning_count == 0 {
        push_all(&mut out, str_chars(" JJ workspace(s).").as_slice());
    } else {
        push_all(&mut out, str_chars(" JJ workspace(s), with ").as_slice());
        push_all(&mut out, u64_dec(warning_count as u64).as_slice());
        push_all(&mut out, str_chars(" refresh warning(s).").as_slice());
    }
    string_from_chars(out.as_slice())
}

/// The current repository is seeded as the first project root only when
/// no root is recorded yet and seeding was asked for.
pub fn should_seed_current_repo(root_count: usize, auto_seed_current_repo: bool) -> (r: bool)
    ensures
        r == (root_count == 0 && auto_seed_current_repo),
{
    root_count == 0 && auto_seed_current_repo
}

/// The workspaces that loading ends with: those discovered under the
/// project roots, or the stored list when discovery found none.
pub fn loaded_workspaces(discovered: Vec<WorkspaceSummary>, stored: Vec<WorkspaceSummary>) -> (r: Vec<
    WorkspaceSummary,
>)
    ensures
        r@ == if discovered@.len() == 0 {
            stored@
        } else {
            discovered@
        },
{
    if discovered.len() == 0 {
        stored
    } else {
        discovered
    }
}

/// The name of the `attempt`-th candidate for a new workspace.
pub open spec fn candidate_workspace_name(attempt: nat) -> Seq<char> {
    "workspace-"@ + dec(attempt)
}

pub fn workspace_candidate_name(attempt: u64) -> (r: String)
    ensures
        r@ == candidate_workspace_name(attempt as nat),
{
    let mut out = str_chars("workspace-");
    push_all(&mut out, u64_dec(attempt).as_slice());
    string_from_chars(out.as_slice())
}

/// `base` joined with the relative component `name`, as `Path::join` joins
/// them: a separator between them unless `base` is empty or already ends
/// in one.
pub open spec fn path_join(base: Seq<char>, name: Seq<char>) -> Seq<char> {
    if base.len() == 0 {
        name
    } else if base.last() == '/' {
        base + name
    } else {
        base + "/"@ + name
    }
}

fn path_join_exec(base: Vec<char>, name: &[char]) -> (r: Vec<char>)
    ensures
        r@ == path_join(base@, name@),
{
    let ghost b = base@;
    let mut out = base;
    if out.len() > 0 && out[out.len() - 1] != '/' {
        out.push('/');
        assert(out@ =~= b + "/"@) by {
            reveal_strlit("/");
        }
    }
    push_all(&mut out, name);
    out
}

/// Where new workspaces of a project are made: `workspaces/<repository
/// name>` under the home directory, or under the current directory where
/// no home directory is known.
pub open spec fn workspace_directory(home: Option<Seq<char>>, root_path: Seq<char>) -> Seq<char> {
    let base = match home {
        Some(h) => h,
        None => "."@,
    };
    path_join(path_join(base, "workspaces"@), root_display_name(root_path))
}

pub fn default_workspace_directory(home: Option<&str>, root: &ProjectRootRecord) -> (r: String)
    ensures
        r@ == workspace_directory(
            match home {
                Some(h) => Some(h@),
                None => None,
            },
            root.root_path@,
        ),
{
    let base = match home {
        Some(h) => str_chars(h),
        None => str_chars("."),
    };
    let with_workspaces = path_join_exec(base, str_chars("workspaces").as_slice());
    let name = repo_directory_name(root.root_path.as_str());
    let out = path_join_exec(with_workspaces, str_chars(name.as_str()).as_slice());
    string_from_chars(out.as_slice())
}

/// Why a forgotten workspace's directory is not deleted; each names the
/// workspace.
#[derive(Clone, Debug, PartialEq, Eq)]
pub enum WorkspaceDeletionError {
    PathNotRecorded(String),
    RepoRoot(String),
}

impl WorkspaceDeletionError {
    pub open spec fn message_text(&self) -> Seq<char> {
        match *self {
            WorkspaceDeletionError::PathNotRecorded(name) => "workspace "@ + name@
                + " was forgotten, but its directory path is not recorded"@,
            WorkspaceDeletionError::RepoRoot(name) => "refusing to delete the repo root for workspace "@ + name@,
        }
    }

    pub fn message(&self) -> (r: String)
        ensures
            r@ == self.message_text(),
    {
        match self {
            WorkspaceDeletionError::PathNotRecorded(name) => {
                let mut out = str_chars("workspace ");
                push_all(&mut out, str_chars(name.as_str()).as_slice());
                push_all(&mut out, str_chars(" was forgotten, but its directory path is not recorded").as_slice());
                string_from_chars(out.as_slice())
            },
            WorkspaceDeletionError::RepoRoot(name) => {
                let mut out = str_chars("refusing to delete the repo root for workspace ");
                push_all(&mut out, str_chars(name.as_str()).as_slice());
                string_from_chars(out.as_slice())
            },
        }
    }
}

/// Two paths name the same place component by component (`Path`'s `==`).
pub open spec fn same_path(a: Seq<char>, b: Seq<char>) -> bool {
    path_components(a) == path_components(b)
}

/// Whether a forgotten workspace's directory may be deleted, given the
/// directory and the repository root as resolved on disk: not where the
/// directory was never recorded, and never the repository root itself.
pub fn check_workspace_directory_deletion(workspace: &WorkspaceSummary, workspace_path: &str, root_path: &str) -> (r:
    Result<(), WorkspaceDeletionError>)
    ensures
        starts_with(workspace.workspace_path@, missing_workspace_path_prefix()) ==> (r matches Err(
            WorkspaceDeletionError::PathNotRecorded(name),
        ) && name@ == workspace.workspace_name@),
        !starts_with(workspace.workspace_path@, missing_workspace_path_prefix()) && same_path(workspace_path@, root_path@)
            ==> (r matches Err(WorkspaceDeletionError::RepoRoot(name)) && name@ == workspace.workspace_name@),
        !starts_with(workspace.workspace_path@, missing_workspace_path_prefix()) && !same_path(workspace_path@, root_path@)
            ==> r == Ok::<(), WorkspaceDeletionError>(()),
{
    if !has_recorded_workspace_path(workspace.workspace_path.as_str()) {
        return Err(WorkspaceDeletionError::PathNotRecorded(workspace.workspace_name.clone()));
    }
    let inside = path_is_in_workspace(workspace_path, root_path);
    let around = path_is_in_workspace(root_path, workspace_path);
    proof {
        let a = path_components(workspace_path@);
        let b = path_components(root_path@);
        if inside && around {
            assert(a =~= b);
        }
        if a == b {
            assert(a.subrange(0, a.len() as int) =~= a);
        }
    }
    if inside && around {
        Err(WorkspaceDeletionError::RepoRoot(workspace.workspace_name.clone()))
    } else {
        Ok(())
    }
}

} // verus!
