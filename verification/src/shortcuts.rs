//! The keyboard shortcuts that open the first ten workspaces, moving
//! between workspaces, and what opening one does.

use vstd::prelude::*;
use crate::types::WorkspaceSummary;
use crate::text::{str_chars, push_all, string_from_chars, concat3};

verus! {

#[derive(Clone, Debug, PartialEq, Eq)]
pub struct WorkspaceShortcutTarget {
    pub workspace_id: String,
    pub label: String,
}

/// The digit key of the `index`-th shortcut: `1`..`9`, then `0`.
pub open spec fn digit_for(index: int) -> Seq<char> {
    if 0 <= index < 9 {
        seq![(('1' as u32) + index) as char]
    } else {
        seq!['0']
    }
}

pub fn shortcut_digit(index: usize) -> (r: &'static str)
    ensures
        r@ == digit_for(index as int),
{
    proof {
        reveal_strlit("1");
        reveal_strlit("2");
        reveal_strlit("3");
        reveal_strlit("4");
        reveal_strlit("5");
        reveal_strlit("6");
        reveal_strlit("7");
        reveal_strlit("8");
        reveal_strlit("9");
        reveal_strlit("0");
    }
    match index {
        0 => "1",
        1 => "2",
        2 => "3",
        3 => "4",
        4 => "5",
        5 => "6",
        6 => "7",
        7 => "8",
        8 => "9",
        _ => "0",
    }
}

/// The label shown for the `index`-th shortcut.
pub open spec fn shortcut_label(index: int) -> Seq<char> {
    "Ctrl+Shift+"@ + digit_for(index)
}

/// One shortcut for each of the first ten workspaces, in order:
/// control-shift-1 opens the first, control-shift-0 the tenth.
pub fn workspace_shortcut_targets(workspaces: &[WorkspaceSummary]) -> (r: Vec<WorkspaceShortcutTarget>)
    ensures
        r@.len() == if workspaces@.len() < 10 {
            workspaces@.len()
        } else {
            10
        },
        forall|i: int|
            0 <= i < r@.len() ==> #[trigger] r@[i].workspace_id == workspaces@[i].id
                && r@[i].label@ == shortcut_label(i),
{
    let mut out: Vec<WorkspaceShortcutTarget> = Vec::new();
    let mut i: usize = 0;
    while i < workspaces.len() && i < 10
        invariant
            i <= workspaces@.len(),
            i <= 10,
            out@.len() == i,
            forall|k: int|
                0 <= k < i ==> #[trigger] out@[k].workspace_id == workspaces@[k].id
                    && out@[k].label@ == shortcut_label(k),
        decreases workspaces.len() - i,
    {
        let mut label = str_chars("Ctrl+Shift+");
        push_all(&mut label, str_chars(shortcut_digit(i)).as_slice());
        out.push(
            WorkspaceShortcutTarget {
                workspace_id: workspaces[i].id.clone(),
                label: string_from_chars(label.as_slice()),
            },
        );
        i = i + 1;
    }
    out
}

/// The name a workspace is shown by: the user's name for it, else its
/// `jj` name.
pub open spec fn shown_name(w: WorkspaceSummary) -> Seq<char> {
    if w.display_name@.len() == 0 {
        w.workspace_name@
    } else {
        w.display_name@
    }
}

/// The text of the menu item that opens the `index`-th workspace: its name
/// and its shortcut, as `name <Ctrl+Shift+1>`.
pub open spec fn menu_item_text(w: WorkspaceSummary, index: int) -> Seq<char> {
    shown_name(w) + " <"@ + shortcut_label(index) + ">"@
}

/// The texts of the workspace menu's items, one for each workspace that has
/// a shortcut, in order.
pub fn workspace_menu_item_labels(workspaces: &[WorkspaceSummary]) -> (r: Vec<String>)
    ensures
        r@.len() == if workspaces@.len() < 10 {
            workspaces@.len()
        } else {
            10
        },
        forall|i: int| 0 <= i < r@.len() ==> (#[trigger] r@[i])@ == menu_item_text(workspaces@[i], i),
{
    let targets = workspace_shortcut_targets(workspaces);
    assert forall|k: int| 0 <= k < targets@.len() implies #[trigger] targets@[k].label@ == shortcut_label(k) by {
        assert(targets@[k].workspace_id == workspaces@[k].id);
    }
    let mut out: Vec<String> = Vec::new();
    let mut i: usize = 0;
    while i < targets.len()
        invariant
            i <= targets@.len(),
            targets@.len() <= workspaces@.len(),
            targets@.len() == if workspaces@.len() < 10 {
                workspaces@.len()
            } else {
                10
            },
            forall|k: int| 0 <= k < targets@.len() ==> #[trigger] targets@[k].label@ == shortcut_label(k),
            out@.len() == i,
            forall|k: int| 0 <= k < i ==> (#[trigger] out@[k])@ == menu_item_text(workspaces@[k], k),
        decreases targets.len() - i,
    {
        let mut text = str_chars(workspaces[i].display_name_or_workspace_name());
        push_all(&mut text, str_chars(" <").as_slice());
        push_all(&mut text, str_chars(targets[i].label.as_str()).as_slice());
        push_all(&mut text, str_chars(">").as_slice());
        assert(targets@[i as int].label@ == shortcut_label(i as int));
        out.push(string_from_chars(text.as_slice()));
        i = i + 1;
    }
    out
}

/// Moving to the previous or the next workspace in the list.
#[derive(Clone, Copy, Debug, PartialEq, Eq, Structural)]
pub enum WorkspaceNavigationDirection {
    Previous,
    Next,
}

/// The position of the current workspace: the active one, the first when
/// none is active, the last when the active position is past the end.
pub open spec fn current_position(count: int, active: Option<usize>) -> int {
    let a = match active {
        Some(i) => i as int,
        None => 0,
    };
    if a < count - 1 {
        a
    } else {
        count - 1
    }
}

/// The workspace that moving from the current one reaches, wrapping around
/// the list; none for an empty list or where it is the current one.
pub open spec fn navigation_position(count: int, active: Option<usize>, direction: WorkspaceNavigationDirection) -> Option<int> {
    if count <= 0 {
        None
    } else {
        let current = current_position(count, active);
        let target = match direction {
            WorkspaceNavigationDirection::Previous => if current > 0 {
                current - 1
            } else {
                count - 1
            },
            WorkspaceNavigationDirection::Next => (current + 1) % count,
        };
        if target == current {
            None
        } else {
            Some(target)
        }
    }
}

pub fn workspace_navigation_target(
    workspace_count: usize,
    active_workspace_index: Option<usize>,
    direction: WorkspaceNavigationDirection,
) -> (r: Option<usize>)
    ensures
        match r {
            Some(t) => navigation_position(workspace_count as int, active_workspace_index, direction) == Some(t as int),
            None => navigation_position(workspace_count as int, active_workspace_index, direction) is None,
        },
{
    if workspace_count == 0 {
        return None;
    }
    let active = match active_workspace_index {
        Some(i) => i,
        None => 0,
    };
    let current = if active < workspace_count - 1 {
        active
    } else {
        workspace_count - 1
    };
    let target = match direction {
        WorkspaceNavigationDirection::Previous => if current > 0 {
            current - 1
        } else {
            workspace_count - 1
        },
        WorkspaceNavigationDirection::Next => (current + 1) % workspace_count,
    };
    if target == current {
        None
    } else {
        Some(target)
    }
}

/// What asking to open the workspace at `index` does.
#[derive(Clone, Debug, PartialEq, Eq)]
pub enum OpenWorkspaceStep {
    /// Nothing: there is no such workspace, or it is open and no menu is.
    Ignore,
    /// The workspace is already open; the open sidebar menu closes.
    CloseMenu,
    /// The workspace becomes the open one and its layout is loaded; the
    /// status says so meanwhile.
    Open { index: usize, status: String },
}

/// The name a workspace is shown by.
pub open spec fn workspace_title(w: WorkspaceSummary) -> Seq<char> {
    if w.display_name@.len() == 0 {
        w.workspace_name@
    } else {
        w.display_name@
    }
}

/// Asking to open the workspace at `index` while `active_index` is open and
/// a sidebar menu is or is not showing.
pub fn open_workspace_step(
    workspaces: &[WorkspaceSummary],
    active_index: Option<usize>,
    menu_open: bool,
    index: usize,
) -> (r: OpenWorkspaceStep)
    ensures
        index >= workspaces@.len() ==> r == OpenWorkspaceStep::Ignore,
        index < workspaces@.len() && active_index == Some(index) ==> r == (if menu_open {
            OpenWorkspaceStep::CloseMenu
        } else {
            OpenWorkspaceStep::Ignore
        }),
        index < workspaces@.len() && active_index != Some(index) ==> (r matches OpenWorkspaceStep::Open {
            index: i,
            status,
        } && i == index && status@ == "Opening "@ + workspace_title(workspaces@[index as int]) + "..."@),
{
    if index >= workspaces.len() {
        return OpenWorkspaceStep::Ignore;
    }
    if active_index == Some(index) {
        return if menu_open {
            OpenWorkspaceStep::CloseMenu
        } else {
            OpenWorkspaceStep::Ignore
        };
    }
    let name = workspaces[index].display_name_or_workspace_name();
    OpenWorkspaceStep::Open { index, status: concat3("Opening ", name, "...") }
}

/// The status once a workspace's layout has loaded, or the error shown when
/// it could not be loaded; none when another workspace was opened
/// meanwhile, so the result is dropped.
pub fn opened_workspace_status(
    workspaces: &[WorkspaceSummary],
    active_index: Option<usize>,
    opened: &WorkspaceSummary,
    load_error: Option<&str>,
) -> (r: Option<Result<String, String>>)
    ensures
        ({
            let still_active = match active_index {
                Some(a) => a < workspaces@.len() && workspaces@[a as int].id@ == opened.id@,
                None => false,
            };
            &&& !still_active ==> r is None
            &&& still_active ==> match load_error {
                None => r matches Some(Ok(status)) && status@ == "Opened "@ + workspace_title(*opened) + "."@,
                Some(e) => r matches Some(Err(message)) && message@ == "Failed to open "@ + workspace_title(*opened)
                    + ": "@ + e@,
            }
        }),
{
    let still_active = match active_index {
        Some(a) => a < workspaces.len() && workspaces[a].id.eq(&opened.id),
        None => false,
    };
    if !still_active {
        return None;
    }
    let name = opened.display_name_or_workspace_name();
    match load_error {
        None => Some(Ok(concat3("Opened ", name, "."))),
        Some(e) => {
            let mut out = str_chars("Failed to open ");
            push_all(&mut out, str_chars(name).as_slice());
            push_all(&mut out, str_chars(": ").as_slice());
            push_all(&mut out, str_chars(e).as_slice());
            Some(Err(string_from_chars(out.as_slice())))
        },
    }
}

} // verus!
