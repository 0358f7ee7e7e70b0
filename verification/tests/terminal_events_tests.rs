use octty::bootstrap::{loaded_workspaces, should_seed_current_repo};
use octty::layout::{add_pane_at, create_default_snapshot_at, create_pane_state, remove_pane_at, PanePayload, PaneState};
use octty::profile::{TerminalRenderProfileSample, TerminalRenderProfiler};
use octty::terminal_events::{
    focused_live_terminal_key, record_live_terminal_snapshot, terminal_notification_action, terminal_panel_focused,
    terminal_update_action, TerminalNotificationAction, TerminalUpdateAction,
};
use octty::types::{PaneType, SessionState, WorkspaceStatus, WorkspaceSummary};
use std::collections::VecDeque;

fn pane(pane_type: PaneType, id: &str) -> PaneState {
    create_pane_state(pane_type, "/tmp/ws".to_owned(), None, id.to_owned())
}

fn workspace(id: &str) -> WorkspaceSummary {
    WorkspaceSummary {
        id: id.to_owned(),
        root_id: "root".to_owned(),
        root_path: "/repos/root".to_owned(),
        project_display_name: "root".to_owned(),
        workspace_name: id.to_owned(),
        display_name: id.to_owned(),
        workspace_path: format!("/repos/root/{id}"),
        status: WorkspaceStatus::default(),
        created_at: 0,
        updated_at: 0,
        last_opened_at: 0,
    }
}

#[test]
fn the_focused_terminal_is_the_active_terminal_pane_of_the_open_workspace() {
    let layout = create_default_snapshot_at("ws-1", 1);
    assert_eq!(focused_live_terminal_key(&layout, "ws-1"), None);
    let layout = add_pane_at(layout, pane(PaneType::Shell, "pane-a"), "column-a".to_owned(), 2);
    let layout = add_pane_at(layout, pane(PaneType::Note, "pane-n"), "column-n".to_owned(), 3);
    assert_eq!(focused_live_terminal_key(&layout, "ws-1"), Some("ws-1:pane-a".to_owned()));

    let focused = Some("ws-1:pane-a".to_owned());
    assert!(terminal_panel_focused("ws-1:pane-a", &focused, true));
    assert!(!terminal_panel_focused("ws-1:pane-a", &focused, false));
    assert!(!terminal_panel_focused("ws-1:pane-b", &focused, true));
    assert!(!terminal_panel_focused("ws-1:pane-a", &None, true));
}

#[test]
fn a_notification_marks_a_focused_pane_seen_and_others_for_attention() {
    assert_eq!(
        terminal_notification_action("ws-1:pane-a", true),
        TerminalNotificationAction::MarkSeen { workspace_id: "ws-1".to_owned(), pane_id: "pane-a".to_owned() }
    );
    assert_eq!(
        terminal_notification_action("ws-1:pane-a", false),
        TerminalNotificationAction::MarkAttention { workspace_id: "ws-1".to_owned(), pane_id: "pane-a".to_owned() }
    );
    assert_eq!(terminal_notification_action("no-separator", false), TerminalNotificationAction::ShowOnly);
}

#[test]
fn a_snapshot_records_activity_and_updates_only_the_open_workspace() {
    assert_eq!(
        terminal_update_action("ws-1:pane-a", true, "ws-1"),
        Some(TerminalUpdateAction {
            workspace_id: "ws-1".to_owned(),
            pane_id: "pane-a".to_owned(),
            mark_seen: true,
            update_layout: true,
        })
    );
    assert_eq!(
        terminal_update_action("ws-2:pane-b", false, "ws-1"),
        Some(TerminalUpdateAction {
            workspace_id: "ws-2".to_owned(),
            pane_id: "pane-b".to_owned(),
            mark_seen: false,
            update_layout: false,
        })
    );
    assert_eq!(terminal_update_action("no-separator", true, "ws-1"), None);
}

#[test]
fn a_live_snapshot_becomes_the_terminal_panes_session_and_text() {
    let layout = create_default_snapshot_at("ws-1", 1);
    let layout = add_pane_at(layout, pane(PaneType::Shell, "pane-a"), "column-a".to_owned(), 2);
    let layout = add_pane_at(layout, pane(PaneType::Note, "pane-n"), "column-n".to_owned(), 3);

    let (after, changed) =
        record_live_terminal_snapshot(layout.clone(), "pane-a", "session-1".to_owned(), "hello\n".to_owned(), 9);
    assert!(changed);
    assert_eq!(after.updated_at, 9);
    assert_eq!(after.panes[1], layout.panes[1]);
    match &after.panes[0].payload {
        PanePayload::Terminal(t) => {
            assert_eq!(t.session_id.as_deref(), Some("session-1"));
            assert_eq!(t.session_state, SessionState::Live);
            assert_eq!(t.restored_buffer, "hello\n");
            assert_eq!(t.cwd, "/tmp/ws");
        }
        other => panic!("unexpected {other:?}"),
    }

    let (same, changed) = record_live_terminal_snapshot(layout.clone(), "pane-n", "s".to_owned(), "x".to_owned(), 9);
    assert!(!changed);
    assert_eq!(same, layout);
    let (same, changed) = record_live_terminal_snapshot(layout.clone(), "pane-x", "s".to_owned(), "x".to_owned(), 9);
    assert!(!changed);
    assert_eq!(same, layout);
}

#[test]
fn a_removed_pane_leaves_the_pane_map() {
    let layout = create_default_snapshot_at("ws-1", 1);
    let layout = add_pane_at(layout, pane(PaneType::Shell, "pane-a"), "column-a".to_owned(), 2);
    let layout = add_pane_at(layout, pane(PaneType::Diff, "pane-b"), "column-b".to_owned(), 3);
    let after = remove_pane_at(layout, "pane-a", 4).unwrap();
    assert_eq!(after.panes, vec![pane(PaneType::Diff, "pane-b")]);
    assert!(after.panes.iter().all(|p| p.id != "pane-a"));
}

#[test]
fn seeding_happens_only_without_roots() {
    assert!(should_seed_current_repo(0, true));
    assert!(!should_seed_current_repo(0, false));
    assert!(!should_seed_current_repo(2, true));
}

#[test]
fn loading_falls_back_to_the_stored_workspaces() {
    let stored = vec![workspace("stored")];
    assert_eq!(loaded_workspaces(Vec::new(), stored.clone()), stored);
    let found = vec![workspace("found-1"), workspace("found-2")];
    assert_eq!(loaded_workspaces(found.clone(), stored), found);
}

#[test]
fn a_new_profiler_keeps_one_zero_in_each_count_series() {
    let mut profiler = TerminalRenderProfiler::new();
    profiler.record(TerminalRenderProfileSample {
        build_micros: 10,
        rows: 1,
        cols: 3,
        reused_rows: 1,
        ..TerminalRenderProfileSample::default()
    });
    profiler.record(TerminalRenderProfileSample {
        rows: 1,
        cols: 3,
        painted_rows: 1,
        submitted_backgrounds: 1,
        ..TerminalRenderProfileSample::default()
    });
    assert_eq!(profiler.dirty_rows, VecDeque::from([0]));
    assert_eq!(profiler.rebuilt_rows, VecDeque::from([0]));
    assert_eq!(profiler.submitted_glyphs, VecDeque::from([0]));
    assert_eq!(profiler.paint_micros, VecDeque::from([0]));
    assert_eq!(profiler.build_micros, VecDeque::from([10]));
}
