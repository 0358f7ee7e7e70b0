use octty::layout::{
    active_column_id, add_pane, create_default_snapshot, create_pane_state, pane_navigation_target, remove_pane,
    PaneNavigationDirection, PanePayload, PaneState, WorkspaceLayout, LAYOUT_VERSION,
};
use octty::types::{LayoutError, PaneType};

fn shell(id: &str) -> PaneState {
    create_pane_state(PaneType::Shell, "/tmp/ws".to_owned(), None, id.to_owned())
}

fn diff(id: &str) -> PaneState {
    create_pane_state(PaneType::Diff, "/tmp/ws".to_owned(), None, id.to_owned())
}

fn has_pane(snapshot: &WorkspaceLayout, id: &str) -> bool {
    snapshot.panes.iter().any(|pane| pane.id == id)
}

#[test]
fn new_workspaces_start_without_panes() {
    let snapshot = create_default_snapshot("workspace-1");
    assert!(snapshot.panes.is_empty());
    assert!(snapshot.columns.is_empty());
    assert!(snapshot.active_pane_id.is_none());
    assert_eq!(snapshot.layout_version, LAYOUT_VERSION);
}

#[test]
fn add_pane_creates_a_center_column() {
    let snapshot = create_default_snapshot("workspace-1");
    let pane = shell("pane-1");
    let pane_id = pane.id.clone();

    let snapshot = add_pane(snapshot, pane, "column-1".to_owned());

    assert_eq!(snapshot.active_pane_id.as_deref(), Some(pane_id.as_str()));
    assert_eq!(snapshot.center_column_ids.len(), 1);
    assert!(has_pane(&snapshot, &pane_id));
    let state = snapshot.panes.iter().find(|pane| pane.id == pane_id).expect("added pane");
    assert!(matches!(state.payload, PanePayload::Terminal(_)));
    let column = snapshot
        .columns
        .iter()
        .find(|column| column.id == snapshot.center_column_ids[0])
        .expect("created column");
    assert_eq!(column.pane_ids, vec![pane_id.clone()]);
}

#[test]
fn adding_a_pane_with_a_known_id_replaces_its_state() {
    let snapshot = add_pane(create_default_snapshot("workspace-1"), shell("pane-1"), "column-1".to_owned());
    let snapshot = add_pane(snapshot, diff("pane-1"), "column-2".to_owned());

    assert_eq!(snapshot.panes.len(), 1);
    assert_eq!(snapshot.panes[0], diff("pane-1"));
    assert_eq!(snapshot.center_column_ids, vec!["column-1".to_owned(), "column-2".to_owned()]);
}

#[test]
fn remove_active_pane_selects_next_available_pane() {
    let snapshot = add_pane(create_default_snapshot("workspace-1"), shell("pane-1"), "column-1".to_owned());
    let first_id = snapshot.active_pane_id.clone().unwrap();
    let snapshot = add_pane(snapshot, diff("pane-2"), "column-2".to_owned());
    let second_id = snapshot.active_pane_id.clone().unwrap();

    let snapshot = remove_pane(snapshot, &second_id).unwrap();

    assert_eq!(snapshot.active_pane_id.as_deref(), Some(first_id.as_str()));
    assert!(!has_pane(&snapshot, &second_id));
}

#[test]
fn removing_a_missing_pane_is_refused() {
    let snapshot = add_pane(create_default_snapshot("workspace-1"), shell("pane-1"), "column-1".to_owned());

    let error = remove_pane(snapshot, "pane-9").expect_err("missing pane");

    assert_eq!(error, LayoutError::MissingPane("pane-9".to_owned()));
    assert_eq!(error.message(), "pane `pane-9` does not exist");
}

#[test]
fn removing_a_pane_drops_emptied_columns_and_their_pins() {
    let mut snapshot = create_default_snapshot("workspace-1");
    snapshot = add_pane(snapshot, shell("pane-1"), "column-1".to_owned());
    snapshot = add_pane(snapshot, shell("pane-2"), "column-2".to_owned());
    snapshot.columns[0].pane_ids.push("pane-3".to_owned());
    snapshot.panes.push(shell("pane-3"));
    snapshot.pinned_left_column_id = Some("column-2".to_owned());
    snapshot.pinned_right_column_id = Some("column-1".to_owned());
    snapshot.active_pane_id = Some("pane-1".to_owned());

    let removed = remove_pane(snapshot.clone(), "pane-2").unwrap();
    assert_eq!(removed.center_column_ids, vec!["column-1".to_owned()]);
    assert_eq!(removed.pinned_left_column_id, None);
    assert_eq!(removed.pinned_right_column_id.as_deref(), Some("column-1"));
    assert_eq!(removed.active_pane_id.as_deref(), Some("pane-1"));

    let removed = remove_pane(snapshot, "pane-1").unwrap();
    assert_eq!(removed.columns[0].pane_ids, vec!["pane-3".to_owned()]);
    assert_eq!(removed.active_pane_id.as_deref(), Some("pane-3"));
}

#[test]
fn removing_an_added_pane_restores_the_layout() {
    let before = add_pane(create_default_snapshot("workspace-1"), shell("pane-1"), "column-1".to_owned());
    let added = add_pane(before.clone(), diff("pane-2"), "column-2".to_owned());

    let removed: WorkspaceLayout = remove_pane(added, "pane-2").unwrap();

    assert_eq!(removed.panes, before.panes);
    assert_eq!(removed.columns, before.columns);
    assert_eq!(removed.center_column_ids, before.center_column_ids);
    assert_eq!(removed.pinned_left_column_id, before.pinned_left_column_id);
}

#[test]
fn tests_pane_navigation_moves_between_columns() {
    let mut snapshot = create_default_snapshot("workspace-1");
    snapshot = add_pane(
        snapshot,
        create_pane_state(PaneType::Note, "/tmp".to_owned(), None, "pane-note".to_owned()),
        "column-1".to_owned(),
    );
    let first = snapshot.active_pane_id.clone().expect("first pane");
    snapshot = add_pane(snapshot, diff("pane-diff"), "column-2".to_owned());
    let second = snapshot.active_pane_id.clone().expect("second pane");

    snapshot.active_pane_id = Some(first.clone());
    assert_eq!(
        pane_navigation_target(&snapshot, PaneNavigationDirection::Right).as_deref(),
        Some(second.as_str())
    );

    snapshot.active_pane_id = Some(second);
    assert_eq!(
        pane_navigation_target(&snapshot, PaneNavigationDirection::Left).as_deref(),
        Some(first.as_str())
    );
}

#[test]
fn pane_navigation_keeps_height_and_stops_at_edges() {
    let mut snapshot = create_default_snapshot("workspace-1");
    snapshot = add_pane(snapshot, shell("a"), "column-1".to_owned());
    snapshot = add_pane(snapshot, shell("b"), "column-2".to_owned());
    snapshot.columns[0].pane_ids.push("a2".to_owned());
    snapshot.columns[0].pane_ids.push("a3".to_owned());
    snapshot.panes.push(shell("a2"));
    snapshot.panes.push(shell("a3"));

    snapshot.active_pane_id = Some("a3".to_owned());
    assert_eq!(pane_navigation_target(&snapshot, PaneNavigationDirection::Right).as_deref(), Some("b"));
    assert_eq!(pane_navigation_target(&snapshot, PaneNavigationDirection::Left), None);
    assert_eq!(active_column_id(&snapshot).as_deref(), Some("column-1"));

    snapshot.active_pane_id = None;
    assert_eq!(active_column_id(&snapshot).as_deref(), Some("column-1"));
    assert_eq!(pane_navigation_target(&snapshot, PaneNavigationDirection::Right).as_deref(), Some("b"));
}
