//! What the events of the live terminals do to the workspace: a
//! notification marks its pane seen or in need of attention, a new snapshot
//! records activity and, in the open workspace, becomes the pane's session
//! and text. The window drains the terminals and carries these out.

use vstd::prelude::*;
use crate::layout::{
    active_terminal_pane, active_terminal_pane_id, first_index, opt_id, pane_ids_of, PanePayload, PaneState,
    WorkspaceLayout,
};
use crate::panes::{live_key, live_terminal_key, split_live_terminal_key, split_once};
use crate::text::owned;
use crate::types::{SessionState, TerminalPanePayload};

verus! {

/// The key of the live terminal that has keyboard focus: that of the open
/// layout's terminal pane in workspace `active_workspace_id`.
pub fn focused_live_terminal_key(layout: &WorkspaceLayout, active_workspace_id: &str) -> (r: Option<String>)
    ensures
        match active_terminal_pane(layout.panes@, opt_id(layout.active_pane_id)) {
            Some(pane) => r matches Some(key) && key@ == live_key(active_workspace_id@, pane),
            None => r is None,
        },
{
    match active_terminal_pane_id(layout) {
        Some(pane) => Some(live_terminal_key(active_workspace_id, pane.as_str())),
        None => None,
    }
}

/// The panel of the terminal under `key` has focus: the terminal window is
/// active and the terminal is the focused one.
pub fn terminal_panel_focused(key: &str, focused_key: &Option<String>, window_active: bool) -> (r: bool)
    ensures
        r == (window_active && (focused_key matches Some(f) && f@ == key@)),
{
    match focused_key {
        Some(f) => window_active && f.eq(&owned(key)),
        None => false,
    }
}

/// What a terminal's notification leads to.
#[derive(Clone, Debug, PartialEq, Eq)]
pub enum TerminalNotificationAction {
    /// The pane's panel has focus: the pane counts as seen, and nothing is
    /// shown.
    MarkSeen { workspace_id: String, pane_id: String },
    /// The pane needs attention, and the notification is shown on the
    /// desktop.
    MarkAttention { workspace_id: String, pane_id: String },
    /// The key names no pane: the notification is only shown.
    ShowOnly,
}

/// What the notification of the terminal under `key` leads to.
pub fn terminal_notification_action(key: &str, panel_focused: bool) -> (r: TerminalNotificationAction)
    ensures
        match split_once(key@, ':') {
            Some((w, p)) => if panel_focused {
                r matches TerminalNotificationAction::MarkSeen { workspace_id, pane_id } && workspace_id@ == w
                    && pane_id@ == p
            } else {
                r matches TerminalNotificationAction::MarkAttention { workspace_id, pane_id } && workspace_id@ == w
                    && pane_id@ == p
            },
            None => r == TerminalNotificationAction::ShowOnly,
        },
{
    match split_live_terminal_key(key) {
        Some((workspace_id, pane_id)) => if panel_focused {
            TerminalNotificationAction::MarkSeen { workspace_id, pane_id }
        } else {
            TerminalNotificationAction::MarkAttention { workspace_id, pane_id }
        },
        None => TerminalNotificationAction::ShowOnly,
    }
}

/// What a new snapshot of a terminal leads to: activity is recorded for
/// its pane, which counts as seen when its panel has focus; in the open
/// workspace the snapshot also goes into the layout.
#[derive(Clone, Debug, PartialEq, Eq)]
pub struct TerminalUpdateAction {
    pub workspace_id: String,
    pub pane_id: String,
    pub mark_seen: bool,
    pub update_layout: bool,
}

/// What a new snapshot of the terminal under `key` leads to; nothing where
/// the key names no pane.
pub fn terminal_update_action(key: &str, panel_focused: bool, active_workspace_id: &str) -> (r: Option<
    TerminalUpdateAction,
>)
    ensures
        match split_once(key@, ':') {
            Some((w, p)) => r matches Some(a) && a.workspace_id@ == w && a.pane_id@ == p && a.mark_seen
                == panel_focused && a.update_layout == (w == active_workspace_id@),
            None => r is None,
        },
{
    match split_live_terminal_key(key) {
        Some((workspace_id, pane_id)) => {
            let update_layout = workspace_id.eq(&owned(active_workspace_id));
            Some(TerminalUpdateAction { workspace_id, pane_id, mark_seen: panel_focused, update_layout })
        },
        None => None,
    }
}

/// A terminal pane once its terminal shows a live snapshot: the snapshot's
/// session, the live state and the snapshot's text; other panes unchanged.
pub open spec fn with_live_terminal(pane: PaneState, session_id: String, plain_text: String) -> PaneState {
    match pane.payload {
        PanePayload::Terminal(t) => PaneState {
            payload: PanePayload::Terminal(
                TerminalPanePayload {
                    session_id: Some(session_id),
                    session_state: SessionState::Live,
                    restored_buffer: plain_text,
                    ..t
                },
            ),
            ..pane
        },
        _ => pane,
    }
}

/// The layout once the terminal of pane `pane_id` shows a live snapshot of
/// session `session_id` with text `plain_text`, dated `now`; the second
/// part says whether anything changed. A pane that is missing or shows no
/// terminal leaves the layout as it is.
pub fn record_live_terminal_snapshot(
    layout: WorkspaceLayout,
    pane_id: &str,
    session_id: String,
    plain_text: String,
    now: i64,
) -> (r: (WorkspaceLayout, bool))
    ensures
        match first_index(pane_ids_of(layout.panes@), pane_id@) {
            Some(k) => if layout.panes@[k].payload is Terminal {
                &&& r.1
                &&& r.0.panes@ == layout.panes@.update(k, with_live_terminal(layout.panes@[k], session_id, plain_text))
                &&& r.0.updated_at == now
                &&& r.0.layout_version == layout.layout_version
                &&& r.0.workspace_id == layout.workspace_id
                &&& r.0.active_pane_id == layout.active_pane_id
                &&& r.0.columns == layout.columns
                &&& r.0.center_column_ids == layout.center_column_ids
                &&& r.0.pinned_left_column_id == layout.pinned_left_column_id
                &&& r.0.pinned_right_column_id == layout.pinned_right_column_id
            } else {
                r == (layout, false)
            },
            None => r == (layout, false),
        },
{
    let k = match crate::layout::find_pane_index(&layout.panes, &owned(pane_id)) {
        Some(k) => k,
        None => {
            return (layout, false);
        },
    };
    match &layout.panes[k].payload {
        PanePayload::Terminal(_) => {},
        _ => {
            return (layout, false);
        },
    }
    let ghost before = layout;
    let mut layout = layout;
    let PaneState { id, pane_type, title, payload } = layout.panes.remove(k);
    match payload {
        PanePayload::Terminal(t) => {
            let live = TerminalPanePayload {
                session_id: Some(session_id),
                session_state: SessionState::Live,
                restored_buffer: plain_text,
                ..t
            };
            layout.panes.insert(k, PaneState { id, pane_type, title, payload: PanePayload::Terminal(live) });
        },
        _ => {
            proof {
                assert(false);
            }
        },
    }
    proof {
        assert(layout.panes@ =~= before.panes@.update(
            k as int,
            with_live_terminal(before.panes@[k as int], session_id, plain_text),
        ));
    }
    layout.updated_at = now;
    (layout, true)
}

} // verus!
