//! The decisions behind the sidebar's confirmations and renames: which
//! prompt to show, what it says, and which workspace stays open after the
//! change.

use vstd::prelude::*;
use crate::types::{ProjectRootRecord, WorkspaceSummary};
use crate::sidebar::SidebarRenameTarget;
use crate::bootstrap::{sanitize_display_name, sanitized_name};
use crate::text::{opt_view, concat3};
use crate::shortcuts::workspace_title;

verus! {

/// The workspace that is open: the one at the active index, if any.
pub open spec fn active_workspace(workspaces: Seq<WorkspaceSummary>, active_index: Option<usize>) -> Option<
    WorkspaceSummary,
> {
    match active_index {
        Some(i) => if i < workspaces.len() {
            Some(workspaces[i as int])
        } else {
            None
        },
        None => None,
    }
}

/// Position `i` holds the first workspace with id `id`.
pub open spec fn is_first_workspace(workspaces: Seq<WorkspaceSummary>, id: Seq<char>, i: int) -> bool {
    &&& 0 <= i < workspaces.len()
    &&& workspaces[i].id@ == id
    &&& forall|j: int| 0 <= j < i ==> (#[trigger] workspaces[j]).id@ != id
}

/// The question that asks to forget a workspace, or to delete its
/// directory and forget it.
pub open spec fn forget_question(w: WorkspaceSummary, delete_directory: bool) -> Seq<char> {
    if delete_directory {
        "Delete the workspace directory and forget "@ + workspace_title(w) + "?"@
    } else {
        "Forget "@ + workspace_title(w) + " from JJ and Octty?"@
    }
}

/// A confirmation to ask before forgetting a workspace: the question, the
/// directory named below it when it is to be deleted, the label of the
/// confirming button, the workspace, and the workspace to open afterwards.
#[derive(Clone, Debug, PartialEq, Eq)]
pub struct ForgetWorkspacePrompt {
    pub message: String,
    pub detail: Option<String>,
    pub confirm_label: String,
    pub workspace_index: usize,
    pub delete_directory: bool,
    pub active_workspace_id: Option<String>,
}

/// What asking to forget a workspace leads to.
#[derive(Clone, Debug, PartialEq, Eq)]
pub enum ForgetWorkspaceStep {
    NotFound,
    Refused(String),
    Confirm(ForgetWorkspacePrompt),
}

fn find_workspace(workspaces: &[WorkspaceSummary], id: &str) -> (r: Option<usize>)
    ensures
        match r {
            Some(i) => is_first_workspace(workspaces@, id@, i as int),
            None => forall|j: int| 0 <= j < workspaces@.len() ==> (#[trigger] workspaces@[j]).id@ != id@,
        },
{
    let wanted = id.to_owned();
    let mut i: usize = 0;
    while i < workspaces.len()
        invariant
            i <= workspaces@.len(),
            wanted@ == id@,
            forall|j: int| 0 <= j < i ==> (#[trigger] workspaces@[j]).id@ != id@,
        decreases workspaces.len() - i,
    {
        if workspaces[i].id.eq(&wanted) {
            return Some(i);
        }
        i = i + 1;
    }
    None
}

/// Asking to forget the workspace `workspace_id` (and to delete its
/// directory when `delete_directory`): nothing when no workspace has that
/// id; refused for the default workspace; else the confirmation, after
/// which the open workspace stays open unless it is the one forgotten.
pub fn forget_workspace_step(
    workspaces: &[WorkspaceSummary],
    active_index: Option<usize>,
    workspace_id: &str,
    delete_directory: bool,
) -> (r: ForgetWorkspaceStep)
    ensures
        match r {
            ForgetWorkspaceStep::NotFound => forall|j: int|
                0 <= j < workspaces@.len() ==> (#[trigger] workspaces@[j]).id@ != workspace_id@,
            ForgetWorkspaceStep::Refused(message) => exists|i: int|
                is_first_workspace(workspaces@, workspace_id@, i) && workspaces@[i].workspace_name@ == "default"@
                    && message@ == "The default workspace cannot be forgotten."@,
            ForgetWorkspaceStep::Confirm(p) => {
                let w = workspaces@[p.workspace_index as int];
                &&& is_first_workspace(workspaces@, workspace_id@, p.workspace_index as int)
                &&& w.workspace_name@ != "default"@
                &&& p.message@ == forget_question(w, delete_directory)
                &&& opt_view(p.detail) == (if delete_directory {
                    Some(w.workspace_path@)
                } else {
                    None
                })
                &&& p.confirm_label@ == (if delete_directory {
                    "Delete"@
                } else {
                    "Forget"@
                })
                &&& p.delete_directory == delete_directory
                &&& opt_view(p.active_workspace_id) == match active_workspace(workspaces@, active_index) {
                    Some(a) => if a.id@ != w.id@ {
                        Some(a.id@)
                    } else {
                        None
                    },
                    None => None,
                }
            },
        },
{
    let i = match find_workspace(workspaces, workspace_id) {
        Some(i) => i,
        None => {
            return ForgetWorkspaceStep::NotFound;
        },
    };
    let workspace = &workspaces[i];
    let default_name = "default".to_owned();
    if workspace.workspace_name.eq(&default_name) {
        return ForgetWorkspaceStep::Refused("The default workspace cannot be forgotten.".to_owned());
    }
    let active_workspace_id = match active_index {
        Some(a) => if a < workspaces.len() && !workspaces[a].id.eq(&workspace.id) {
            Some(workspaces[a].id.clone())
        } else {
            None
        },
        None => None,
    };
    let name = workspace.display_name_or_workspace_name();
    let (message, detail, confirm_label) = if delete_directory {
        (
            concat3("Delete the workspace directory and forget ", name, "?"),
            Some(workspace.workspace_path.clone()),
            "Delete".to_owned(),
        )
    } else {
        (concat3("Forget ", name, " from JJ and Octty?"), None, "Forget".to_owned())
    };
    ForgetWorkspaceStep::Confirm(
        ForgetWorkspacePrompt {
            message,
            detail,
            confirm_label,
            workspace_index: i,
            delete_directory,
            active_workspace_id,
        },
    )
}

/// A confirmation to ask before forgetting a project root: the question,
/// the root's path below it, the root's position, and the workspace to open
/// afterwards.
#[derive(Clone, Debug, PartialEq, Eq)]
pub struct RemoveProjectRootPrompt {
    pub message: String,
    pub detail: String,
    pub root_index: usize,
    pub active_workspace_id: Option<String>,
}

/// Asking to forget the project root `root_id`: nothing when no root has
/// that id; else the confirmation naming the root's path, after which the
/// open workspace stays open unless it belongs to that root.
pub fn remove_project_root_step(
    roots: &[ProjectRootRecord],
    workspaces: &[WorkspaceSummary],
    active_index: Option<usize>,
    root_id: &str,
) -> (r: Option<RemoveProjectRootPrompt>)
    ensures
        match r {
            None => forall|j: int| 0 <= j < roots@.len() ==> (#[trigger] roots@[j]).id@ != root_id@,
            Some(p) => {
                let root = roots@[p.root_index as int];
                &&& p.root_index < roots@.len()
                &&& root.id@ == root_id@
                &&& forall|j: int| 0 <= j < p.root_index ==> (#[trigger] roots@[j]).id@ != root_id@
                &&& p.message@ == "Forget this project root from Octty?"@
                &&& p.detail@ == root.root_path@
                &&& opt_view(p.active_workspace_id) == match active_workspace(workspaces@, active_index) {
                    Some(a) => if a.root_id@ != root.id@ {
                        Some(a.id@)
                    } else {
                        None
                    },
                    None => None,
                }
            },
        },
{
    let wanted = root_id.to_owned();
    let mut i: usize = 0;
    while i < roots.len()
        invariant
            i <= roots@.len(),
            wanted@ == root_id@,
            forall|j: int| 0 <= j < i ==> (#[trigger] roots@[j]).id@ != root_id@,
        decreases roots.len() - i,
    {
        if roots[i].id.eq(&wanted) {
            let root = &roots[i];
            let active_workspace_id = match active_index {
                Some(a) => if a < workspaces.len() && !workspaces[a].root_id.eq(&root.id) {
                    Some(workspaces[a].id.clone())
                } else {
                    None
                },
                None => None,
            };
            return Some(
                RemoveProjectRootPrompt {
                    message: "Forget this project root from Octty?".to_owned(),
                    detail: root.root_path.clone(),
                    root_index: i,
                    active_workspace_id,
                },
            );
        }
        i = i + 1;
    }
    None
}

/// The title of the rename dialog for a target.
pub fn rename_dialog_title(target: &SidebarRenameTarget) -> (r: &'static str)
    ensures
        r@ == match target {
            SidebarRenameTarget::ProjectRoot(_) => "Rename repo"@,
            SidebarRenameTarget::Workspace(_) => "Rename workspace"@,
        },
{
    match target {
        SidebarRenameTarget::ProjectRoot(_) => "Rename repo",
        SidebarRenameTarget::Workspace(_) => "Rename workspace",
    }
}

/// The name typed into the rename dialog, with its words joined by single
/// spaces; refused with the error to show when no word is left.
pub fn confirm_rename_value(value: &str) -> (r: Result<String, String>)
    ensures
        match r {
            Ok(name) => name@ == sanitized_name(value@) && name@.len() > 0,
            Err(message) => sanitized_name(value@).len() == 0 && message@ == "Display name cannot be empty."@,
        },
{
    let name = sanitize_display_name(value);
    if name.as_str().is_empty() {
        Err("Display name cannot be empty.".to_owned())
    } else {
        Ok(name)
    }
}

/// The status shown while a rename is saved.
pub fn rename_status_message(target: &SidebarRenameTarget, display_name: &str) -> (r: String)
    ensures
        r@ == match target {
            SidebarRenameTarget::ProjectRoot(_) => "Renaming repo to "@ + display_name@ + "..."@,
            SidebarRenameTarget::Workspace(_) => "Renaming workspace to "@ + display_name@ + "..."@,
        },
{
    match target {
        SidebarRenameTarget::ProjectRoot(_) => concat3("Renaming repo to ", display_name, "..."),
        SidebarRenameTarget::Workspace(_) => concat3("Renaming workspace to ", display_name, "..."),
    }
}

} // verus!
