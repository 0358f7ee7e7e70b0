use octty::layout::{create_pane_state, PanePayload};
use octty::types::PaneType;
use octty::refresh::{refresh_idle, status_refresh_step, RefreshAction, RefreshEvent};
use octty::relation::{
    local_relation_start, relation_step, remote_relation_start, RelationAction, RelationEvent, RelationState,
};
use octty::shortcuts::{open_workspace_step, opened_workspace_status, OpenWorkspaceStep};
use octty::replay::{
    terminal_replay_events_args, terminal_replay_record_args, ReplayArgsError, TerminalReplayEventsArgs,
    TerminalReplayRecordArgs,
};
use octty::panes::pane_attention_visible;
use octty::sidebar::sidebar_workspace_groups;
use octty::grid::terminal_rebuild_row_flags;
use octty::latency::TerminalLatencyStats;
use octty::grid::take_presentable_terminal_snapshot;
use octty::shortcuts::{workspace_navigation_target, WorkspaceNavigationDirection};
use octty::taskspace::terminal_screen_excerpt;
use octty::grid::{terminal_paint_cursor, TerminalCursorSnapshot};
use octty::shortcuts::workspace_menu_item_labels;
use octty::types::{WorkspaceStatus, WorkspaceSummary};
use octty::selection::terminal_selection_mode_from_modifiers;
use octty::activity::PaneActivity;
use octty::activity_map::{pane_activity_map, rekey_pane_activity_map};
use octty::codecs::{integer, parse_workspace_state, text, workspace_state_to_str, DbValue, StoreError};
use octty::grid::{
    terminal_background_runs, TerminalBackgroundRun, TerminalCellSnapshot, TerminalDamageSnapshot,
    TerminalGridSnapshot, TerminalRgb, TerminalRowSnapshot, TerminalScrollSnapshot, TerminalSnapshotTiming,
};
use octty::metrics::push_latency_sample;
use octty::panes::{live_terminal_key, rekey_live_terminal_key, split_live_terminal_key};
use octty::paste::terminal_paste_bytes;
use octty::replay::{parse_terminal_replay_events, ReplayError};
use octty::selection::{terminal_selection_runs, TerminalGridPoint, TerminalSelection, TerminalSelectionMode};
use octty::shell::{
    default_shell_type_config, shell_terminal_payload, validate_shell_type_config, KeystrokeModifiers,
    ShellConfigError, ShellTypeConfigFile,
};
use octty::sidebar::{SidebarMenuAction, SidebarMenuEntry, SidebarMenuState};
use octty::types::{TerminalExitBehavior, TerminalKind, WorkspaceState};
use std::collections::VecDeque;

fn cell(text: &str, fg: Option<TerminalRgb>, bg: Option<TerminalRgb>, inverse: bool) -> TerminalCellSnapshot {
    TerminalCellSnapshot {
        text: text.to_owned(),
        width: 1,
        fg,
        bg,
        bold: false,
        italic: false,
        faint: false,
        blink: false,
        underline: false,
        inverse,
        invisible: false,
        strikethrough: false,
        overline: false,
    }
}

fn grid(default_fg: TerminalRgb, default_bg: TerminalRgb, cells: Vec<TerminalCellSnapshot>) -> TerminalGridSnapshot {
    let cols = cells.len() as u16;
    TerminalGridSnapshot {
        session_id: "session-1".to_owned(),
        cols,
        rows: 1,
        scroll: TerminalScrollSnapshot { total: 1, offset: 0, len: 1 },
        default_fg,
        default_bg,
        cursor: None,
        damage: TerminalDamageSnapshot { full: false, rows: Vec::new(), cells: 0 },
        rows_data: vec![TerminalRowSnapshot { cells }],
        plain_text: String::new(),
        timing: TerminalSnapshotTiming::default(),
    }
}

const DEFAULT_FG: TerminalRgb = TerminalRgb { r: 200, g: 200, b: 200 };
const DEFAULT_BG: TerminalRgb = TerminalRgb { r: 0, g: 0, b: 0 };

#[test]
fn terminal_background_runs_ignore_foreground_style_splits() {
    let highlighted = TerminalRgb { r: 20, g: 60, b: 80 };
    let mut bold = cell("b", Some(TerminalRgb { r: 0, g: 255, b: 0 }), Some(highlighted), false);
    bold.bold = true;
    let mut italic = cell("c", Some(TerminalRgb { r: 0, g: 0, b: 255 }), Some(highlighted), false);
    italic.italic = true;
    let mut snapshot = grid(
        DEFAULT_FG,
        DEFAULT_BG,
        vec![
            cell("a", Some(TerminalRgb { r: 255, g: 0, b: 0 }), Some(highlighted), false),
            bold,
            italic,
            cell("d", None, Some(highlighted), false),
        ],
    );
    snapshot.plain_text = "abcd\n".to_owned();

    let runs = terminal_background_runs(0, &snapshot.rows_data[0], &snapshot, DEFAULT_BG);

    assert_eq!(runs.len(), 1);
    assert_eq!(runs[0].start_col, 0);
    assert_eq!(runs[0].cell_count, 4);
}

#[test]
fn terminal_background_runs_render_inverse_default_colors() {
    let mut snapshot = grid(DEFAULT_FG, DEFAULT_BG, vec![cell("a", None, None, true), cell("b", None, None, false)]);
    snapshot.plain_text = "ab\n".to_owned();

    let runs = terminal_background_runs(0, &snapshot.rows_data[0], &snapshot, DEFAULT_BG);

    assert_eq!(runs.len(), 1);
    assert_eq!(runs[0].start_col, 0);
    assert_eq!(runs[0].cell_count, 1);
    assert_eq!(runs[0].color, DEFAULT_FG);
}

#[test]
fn background_runs_split_on_colour_changes_and_gaps() {
    let red = TerminalRgb { r: 255, g: 0, b: 0 };
    let blue = TerminalRgb { r: 0, g: 0, b: 255 };
    let snapshot = grid(
        DEFAULT_FG,
        DEFAULT_BG,
        vec![
            cell("a", None, Some(red), false),
            cell("b", None, Some(blue), false),
            cell("c", None, None, false),
            cell("d", None, Some(blue), false),
            cell("e", None, Some(DEFAULT_BG), false),
        ],
    );

    let runs = terminal_background_runs(0, &snapshot.rows_data[0], &snapshot, DEFAULT_BG);

    assert_eq!(
        runs,
        vec![
            TerminalBackgroundRun { start_col: 0, cell_count: 1, color: red },
            TerminalBackgroundRun { start_col: 1, cell_count: 1, color: blue },
            TerminalBackgroundRun { start_col: 3, cell_count: 1, color: blue },
        ]
    );
}

#[test]
fn shell_pane_state_copies_configured_metadata() {
    let config = default_shell_type_config();
    let codex = config
        .shell_types
        .iter()
        .find(|shell_type| shell_type.name == "codex")
        .expect("codex shell type");
    let pane = octty::shell::shell_pane_state_for_config(codex, "/tmp/workspace", "pane-1".to_owned());
    let PanePayload::Terminal(payload) = pane.payload else {
        panic!("expected terminal payload");
    };

    assert_eq!(pane.title, "codex");
    assert_eq!(payload.kind, TerminalKind::Codex);
    assert_eq!(payload.shell_type, "codex");
    assert_eq!(payload.cwd, "/tmp/workspace");
    assert_eq!(payload.command, "codex");
    assert_eq!(payload.on_exit, TerminalExitBehavior::RestartManually);
    assert_eq!(payload.default_width_chars, 120);
}

#[test]
fn shell_terminal_payload_copies_configured_metadata() {
    let config = default_shell_type_config();
    let codex = config
        .shell_types
        .iter()
        .find(|shell_type| shell_type.name == "codex")
        .expect("codex shell type");
    let payload = shell_terminal_payload(codex, "/tmp/workspace");

    assert_eq!(payload.kind, TerminalKind::Codex);
    assert_eq!(payload.shell_type, "codex");
    assert_eq!(payload.cwd, "/tmp/workspace");
    assert_eq!(payload.command, "codex");
    assert_eq!(payload.on_exit, TerminalExitBehavior::RestartManually);
    assert_eq!(payload.default_width_chars, 120);
}

#[test]
fn shell_config_errors_name_their_cause() {
    assert_eq!(
        validate_shell_type_config(ShellTypeConfigFile { shell_types: Vec::new() }),
        Err(ShellConfigError::NoShellTypes)
    );
    let mut blank = default_shell_type_config();
    blank.shell_types[1].name = "  ".to_owned();
    assert_eq!(validate_shell_type_config(blank), Err(ShellConfigError::EmptyName));
    let mut narrow = default_shell_type_config();
    narrow.shell_types[2].default_width_chars = 0;
    let error = validate_shell_type_config(narrow).expect_err("zero width");
    assert_eq!(error, ShellConfigError::ZeroWidth("jjui".to_owned()));
    assert_eq!(error.message(), "shell type `jjui` must have a positive default_width_chars");
    assert!(validate_shell_type_config(default_shell_type_config()).is_ok());
}

#[test]
fn replay_errors_name_the_missing_field() {
    assert_eq!(
        parse_terminal_replay_events("1 kind=output offset=0 len=3\n"),
        Err(ReplayError::MissingStart)
    );
    assert_eq!(
        parse_terminal_replay_events("1 kind=start cols=80 rows=24\n"),
        Err(ReplayError::StartMissingOutput)
    );
    assert_eq!(
        parse_terminal_replay_events("1 kind=start output=/o rows=24\n"),
        Err(ReplayError::StartMissingCols)
    );
    assert_eq!(
        parse_terminal_replay_events("1 kind=start output=/o cols=80 rows=24\n2 kind=resize rows=3\n"),
        Err(ReplayError::ResizeMissingCols)
    );
    assert_eq!(
        parse_terminal_replay_events("1 kind=start output=/o cols=80 rows=24\n2 kind=output len=3\n"),
        Err(ReplayError::OutputMissingOffset)
    );
}

#[test]
fn store_values_of_the_wrong_kind_are_refused() {
    assert_eq!(text(DbValue::Text("x".to_owned()), "name"), Ok("x".to_owned()));
    assert_eq!(
        integer(DbValue::Text("x".to_owned()), "count"),
        Err(StoreError::UnexpectedValue { column: "count".to_owned(), value: DbValue::Text("x".to_owned()) })
    );
}

#[test]
fn workspace_state_words_round_trip() {
    for state in [
        WorkspaceState::Published,
        WorkspaceState::MergedLocal,
        WorkspaceState::Draft,
        WorkspaceState::Conflicted,
        WorkspaceState::Unknown,
    ] {
        assert_eq!(parse_workspace_state(workspace_state_to_str(&state)), state);
    }
}

#[test]
fn live_terminal_keys_split_back_into_their_parts() {
    let key = live_terminal_key("workspace-1", "pane:2");
    assert_eq!(split_live_terminal_key(&key), Some(("workspace-1".to_owned(), "pane:2".to_owned())));
    assert_eq!(
        rekey_live_terminal_key(&key, "workspace-1", "workspace-9"),
        Some((key.clone(), live_terminal_key("workspace-9", "pane:2")))
    );
    assert_eq!(rekey_live_terminal_key(&key, "workspace-2", "workspace-9"), None);
}

#[test]
fn selection_runs_do_not_depend_on_drag_direction() {
    let forward = TerminalSelection {
        anchor: TerminalGridPoint { row: 1, col: 3 },
        active: TerminalGridPoint { row: 4, col: 0 },
        mode: TerminalSelectionMode { rectangular: true, filter_indent: false },
    };
    let backward = TerminalSelection { anchor: forward.active, active: forward.anchor, mode: forward.mode };
    assert_eq!(terminal_selection_runs(&forward, 6, 5), terminal_selection_runs(&backward, 6, 5));
}

#[test]
fn pasted_text_never_holds_a_line_feed() {
    let bytes = terminal_paste_bytes("a\nb\r\nc\n\n");
    assert!(!bytes.contains(&b'\n'));
    assert_eq!(bytes, b"a\rb\rc\r\r");
}

#[test]
fn latency_series_stays_within_its_limit() {
    let mut samples = VecDeque::new();
    for micros in 0..300u64 {
        push_latency_sample(&mut samples, micros);
    }
    assert_eq!(samples.len(), 256);
    assert_eq!(samples.front(), Some(&44));
    assert_eq!(samples.back(), Some(&299));
}

#[test]
fn menu_selection_down_then_up_returns() {
    let mut menu = SidebarMenuState::new(vec![
        SidebarMenuEntry::item("Rename".to_owned(), SidebarMenuAction::RenameWorkspace("w".to_owned())),
        SidebarMenuEntry::Separator,
        SidebarMenuEntry::item_with_disabled(
            "Forget".to_owned(),
            SidebarMenuAction::ForgetWorkspace("w".to_owned()),
            true,
        ),
        SidebarMenuEntry::item("Delete".to_owned(), SidebarMenuAction::DeleteAndForgetWorkspace("w".to_owned())),
    ]);
    let start = menu.selected_index;
    menu.select_down();
    assert_eq!(menu.selected_index, Some(3));
    menu.select_up();
    assert_eq!(menu.selected_index, start);
}

#[test]
fn renamed_workspace_keeps_its_pane_activity() {
    let mut moved = PaneActivity::new("old", "pane-1", 10);
    moved.record_attention(20);
    let replaced = PaneActivity::new("new", "pane-1", 5);
    let other = PaneActivity::new("other", "pane-2", 7);
    let mut activities = pane_activity_map(vec![moved.clone(), replaced, other.clone()]);

    rekey_pane_activity_map(&mut activities, "old", "new");

    assert_eq!(activities.len(), 2);
    let renamed = activities
        .iter()
        .find(|a| a.workspace_id == "new" && a.pane_id == "pane-1")
        .expect("moved record");
    assert!(renamed.needs_attention);
    assert_eq!(renamed.last_activity_at_ms, moved.last_activity_at_ms);
    assert!(activities.iter().all(|a| a.workspace_id != "old"));
    assert!(activities.contains(&other));
}

#[test]
fn screen_excerpt_keeps_last_eight_nonblank_lines() {
    let screen = "one  \n\n two\nthree\n4\n5\n6\n7\n8\n9\n   \n";
    assert_eq!(terminal_screen_excerpt(screen), " two\nthree\n4\n5\n6\n7\n8\n9");
    assert_eq!(terminal_screen_excerpt("a \r\nb"), "a\nb");
    assert_eq!(terminal_screen_excerpt(""), "");
}

#[test]
fn cursor_paints_block_and_visible_glyph() {
    let mut snapshot = grid(DEFAULT_FG, DEFAULT_BG, vec![cell("x", None, None, false), cell(" ", None, None, false)]);
    snapshot.cursor = Some(TerminalCursorSnapshot { row: 0, col: 0, visible: true });
    let cursor = terminal_paint_cursor(&snapshot, DEFAULT_FG, DEFAULT_BG).expect("cursor");
    assert_eq!(cursor.row_index, 0);
    assert_eq!(cursor.col_index, 0);
    assert_eq!(cursor.cell_width, 1);
    assert_eq!(cursor.background, DEFAULT_FG);
    let glyph = cursor.glyph_cell.expect("glyph");
    assert_eq!(glyph.text, "x");
    assert_eq!(glyph.color, DEFAULT_BG);

    snapshot.cursor = Some(TerminalCursorSnapshot { row: 0, col: 1, visible: true });
    assert_eq!(terminal_paint_cursor(&snapshot, DEFAULT_FG, DEFAULT_BG).expect("cursor").glyph_cell, None);

    snapshot.cursor = Some(TerminalCursorSnapshot { row: 0, col: 1, visible: false });
    assert_eq!(terminal_paint_cursor(&snapshot, DEFAULT_FG, DEFAULT_BG), None);
    snapshot.cursor = Some(TerminalCursorSnapshot { row: 0, col: 2, visible: true });
    assert_eq!(terminal_paint_cursor(&snapshot, DEFAULT_FG, DEFAULT_BG), None);
}

#[test]
fn workspace_menu_lists_names_with_shortcuts() {
    let workspace = |name: &str, display: &str| WorkspaceSummary {
        id: format!("id-{name}"),
        root_id: "root".to_owned(),
        root_path: "/repo".to_owned(),
        project_display_name: "repo".to_owned(),
        workspace_name: name.to_owned(),
        display_name: display.to_owned(),
        workspace_path: format!("/repo/{name}"),
        status: WorkspaceStatus::default(),
        created_at: 0,
        updated_at: 0,
        last_opened_at: 0,
    };
    let labels = workspace_menu_item_labels(&[workspace("default", ""), workspace("feature", "Feature work")]);
    assert_eq!(labels, vec!["default <Ctrl+Shift+1>".to_owned(), "Feature work <Ctrl+Shift+2>".to_owned()]);
}

#[test]
fn selection_mode_follows_control_and_shift() {
    let mode = terminal_selection_mode_from_modifiers(KeystrokeModifiers {
        control: true,
        alt: false,
        shift: false,
        platform: false,
        function: false,
    });
    assert!(mode.rectangular);
    assert!(!mode.filter_indent);
}

#[test]
fn latency_stats_cap_key_latency_and_skip_missing_pty_times() {
    let mut stats = TerminalLatencyStats::default();
    stats.record_key_to_snapshot(u128::from(u64::MAX) + 5);
    stats.record_key_to_snapshot(1_500);
    stats.record_pty_to_snapshot(None);
    stats.record_pty_to_snapshot(Some(42));
    stats.record_dirty_rows(3);
    assert_eq!(stats.key_to_snapshot_micros, VecDeque::from([u64::MAX, 1_500]));
    assert_eq!(stats.pty_to_snapshot_micros, VecDeque::from([42]));
    assert_eq!(stats.dirty_rows, VecDeque::from([3]));
    assert!(stats.dirty_cells.is_empty());
}

#[test]
fn background_snapshot_waits_for_its_frame_interval() {
    let snapshot = grid(DEFAULT_FG, DEFAULT_BG, vec![cell("a", None, None, false)]);
    let now: u64 = 1_000_000;
    let mut pending = Some(snapshot.clone());
    assert_eq!(take_presentable_terminal_snapshot(&mut pending, Some(now - 10_000), false, now), None);
    assert!(pending.is_some());
    assert_eq!(take_presentable_terminal_snapshot(&mut pending, Some(now - 10_000), true, now), Some(snapshot));
    assert!(pending.is_none());
}

#[test]
fn workspace_navigation_wraps_around_the_list() {
    assert_eq!(workspace_navigation_target(0, None, WorkspaceNavigationDirection::Next), None);
    assert_eq!(workspace_navigation_target(1, Some(0), WorkspaceNavigationDirection::Next), None);
    assert_eq!(workspace_navigation_target(3, Some(2), WorkspaceNavigationDirection::Next), Some(0));
    assert_eq!(workspace_navigation_target(3, None, WorkspaceNavigationDirection::Previous), Some(2));
    assert_eq!(workspace_navigation_target(3, Some(7), WorkspaceNavigationDirection::Previous), Some(1));
}

#[test]
fn paint_rebuilds_only_damaged_or_uncached_rows() {
    let damage = TerminalDamageSnapshot { full: false, rows: vec![1], cells: 2 };
    assert_eq!(terminal_rebuild_row_flags(false, &damage, &[true, true, false]), vec![false, true, true]);
    assert_eq!(terminal_rebuild_row_flags(true, &damage, &[true, true, true]), vec![true, true, true]);
    let full = TerminalDamageSnapshot { full: true, rows: Vec::new(), cells: 0 };
    assert_eq!(terminal_rebuild_row_flags(false, &full, &[true, true]), vec![true, true]);
}

#[test]
fn attention_marker_fades_four_seconds_after_the_pane_is_seen() {
    let mut activity = PaneActivity::new("workspace-1", "pane-1", 100);
    activity.record_attention(1_000);
    activity.record_seen(2_000);
    assert!(pane_attention_visible(&activity, 2_000));
    assert!(pane_attention_visible(&activity, 5_999));
    assert!(!pane_attention_visible(&activity, 6_000));
}

#[test]
fn sidebar_groups_list_every_workspace_once() {
    let root = |id: &str| octty::types::ProjectRootRecord {
        id: id.to_owned(),
        root_path: format!("/repos/{id}"),
        display_name: id.to_owned(),
        created_at: 0,
        updated_at: 0,
    };
    let workspace = |id: &str, root_id: &str| octty::types::WorkspaceSummary {
        id: id.to_owned(),
        root_id: root_id.to_owned(),
        root_path: format!("/repos/{root_id}"),
        project_display_name: root_id.to_owned(),
        workspace_name: id.to_owned(),
        display_name: id.to_owned(),
        workspace_path: format!("/repos/{root_id}/{id}"),
        status: octty::types::WorkspaceStatus::default(),
        created_at: 0,
        updated_at: 0,
        last_opened_at: 0,
    };
    let workspaces = vec![workspace("a", "r1"), workspace("b", "gone"), workspace("c", "r2"), workspace("d", "r1")];
    let groups = sidebar_workspace_groups(&[root("r1"), root("r2")], &workspaces);
    let mut listed: Vec<usize> = groups.iter().flat_map(|g| g.workspace_indices.clone()).collect();
    listed.sort_unstable();
    assert_eq!(listed, vec![0, 1, 2, 3]);
}

#[test]
fn pane_activity_row_reads_back_as_written() {
    let mut activity = PaneActivity::new("workspace-1", "pane-1", 1_000);
    activity.last_tmux_activity_at_s = Some(42);
    activity.last_screen_fingerprint = Some("abc".to_owned());
    activity.needs_attention = true;
    activity.needs_attention_at_ms = 1_500;
    let row = octty::rows::pane_activity_row(&activity);
    assert_eq!(row.len(), 13);
    assert_eq!(row[0], DbValue::Text("workspace-1".to_owned()));
    assert_eq!(row[5], DbValue::Integer(42));
    assert_eq!(row[6], DbValue::Null);
    assert_eq!(row[7], DbValue::Text("abc".to_owned()));
    assert_eq!(row[9], DbValue::Integer(1));
    let read = octty::rows::pane_activity_from_row(row).unwrap();
    assert_eq!(read, activity);
}

#[test]
fn pane_activity_row_refuses_first_misfit_column() {
    let activity = PaneActivity::new("workspace-1", "pane-1", 1_000);
    let mut row = octty::rows::pane_activity_row(&activity);
    row[3] = DbValue::Text("late".to_owned());
    row[8] = DbValue::Integer(3);
    let error = octty::rows::pane_activity_from_row(row).unwrap_err();
    assert_eq!(
        error,
        StoreError::UnexpectedValue { column: "last_seen_at_ms".to_owned(), value: DbValue::Text("late".to_owned()) }
    );
}

#[test]
fn project_root_row_reads_back_as_written() {
    let root = octty::types::ProjectRootRecord {
        id: "root-1".to_owned(),
        root_path: "/tmp/project".to_owned(),
        display_name: "Project".to_owned(),
        created_at: 10,
        updated_at: 20,
    };
    let row = octty::rows::project_root_row(&root);
    assert_eq!(
        row,
        vec![
            DbValue::Text("root-1".to_owned()),
            DbValue::Text("/tmp/project".to_owned()),
            DbValue::Text("Project".to_owned()),
            DbValue::Integer(10),
            DbValue::Integer(20),
        ]
    );
    assert_eq!(octty::rows::project_root_from_row(row).unwrap(), root);
    let bad = vec![
        DbValue::Text("root-1".to_owned()),
        DbValue::Text("/tmp/project".to_owned()),
        DbValue::Null,
        DbValue::Integer(10),
        DbValue::Integer(20),
    ];
    assert_eq!(
        octty::rows::project_root_from_row(bad).unwrap_err(),
        StoreError::UnexpectedValue { column: "label".to_owned(), value: DbValue::Null }
    );
}

#[test]
fn keyboard_input_goes_to_active_terminal_or_first_terminal() {
    let note = create_pane_state(PaneType::Note, "/tmp".to_owned(), None, "pane-n".to_owned());
    let shell_a = create_pane_state(PaneType::Shell, "/tmp".to_owned(), None, "pane-a".to_owned());
    let shell_b = create_pane_state(PaneType::Shell, "/tmp".to_owned(), None, "pane-b".to_owned());
    let layout = octty::layout::create_default_snapshot_at("workspace-1", 1);
    assert_eq!(octty::layout::active_terminal_pane_id(&layout), None);
    let layout = octty::layout::add_pane_at(layout, note, "column-n".to_owned(), 2);
    assert_eq!(octty::layout::active_terminal_pane_id(&layout), None);
    let layout = octty::layout::add_pane_at(layout, shell_a, "column-a".to_owned(), 3);
    let layout = octty::layout::add_pane_at(layout, shell_b, "column-b".to_owned(), 4);
    assert_eq!(layout.active_pane_id.as_deref(), Some("pane-b"));
    assert_eq!(octty::layout::active_terminal_pane_id(&layout), Some("pane-b".to_owned()));
    let mut on_note = layout.clone();
    on_note.active_pane_id = Some("pane-n".to_owned());
    assert_eq!(octty::layout::active_terminal_pane_id(&on_note), Some("pane-a".to_owned()));
    on_note.active_pane_id = None;
    assert_eq!(octty::layout::active_terminal_pane_id(&on_note), Some("pane-a".to_owned()));
}

#[test]
fn tmux_poll_creates_then_updates_pane_record() {
    let mut activities: Vec<PaneActivity> = vec![PaneActivity::new("other", "pane-9", 5)];
    let first = octty::activity_map::observe_tmux_pane(
        &mut activities,
        "workspace-1",
        "pane-1",
        1_000,
        None,
        Some(40),
        Some("screen-a".to_owned()),
    );
    assert_eq!(activities.len(), 2);
    assert_eq!(first.last_tmux_activity_at_s, Some(40));
    assert_eq!(first.last_activity_at_ms, 1_000);
    assert_eq!(first.last_screen_fingerprint.as_deref(), Some("screen-a"));
    assert_eq!(first.updated_at_ms, 1_000);
    let second = octty::activity_map::observe_tmux_pane(
        &mut activities,
        "workspace-1",
        "pane-1",
        2_000,
        Some(40),
        Some(90),
        None,
    );
    assert_eq!(activities.len(), 2);
    assert_eq!(second.last_tmux_activity_at_s, Some(40));
    assert_eq!(second.last_activity_at_ms, 1_000);
    assert_eq!(second.last_screen_fingerprint.as_deref(), Some("screen-a"));
    assert_eq!(second.updated_at_ms, 2_000);
    assert_eq!(activities[1], second);
    assert_eq!(activities[0], PaneActivity::new("other", "pane-9", 5));
}

#[test]
fn seeing_a_pane_clears_attention_in_the_records() {
    let mut pending = PaneActivity::new("workspace-1", "pane-1", 10);
    pending.record_activity(100, Some(3), Some("s".to_owned()));
    pending.record_attention(150);
    let mut activities = vec![pending];
    let seen = octty::activity_map::record_pane_seen(&mut activities, "workspace-1", "pane-1", 200);
    assert!(!seen.needs_attention);
    assert_eq!(seen.needs_attention_cleared_at_ms, 200);
    assert_eq!(seen.last_seen_activity_at_ms, 100);
    assert_eq!(seen.last_seen_tmux_activity_at_s, Some(3));
    assert_eq!(seen.last_seen_screen_fingerprint.as_deref(), Some("s"));
    assert!(!seen.has_unseen_activity());
    assert_eq!(activities, vec![seen.clone()]);
    let fresh = octty::activity_map::record_pane_seen(&mut activities, "workspace-1", "pane-2", 300);
    assert_eq!(activities.len(), 2);
    assert_eq!(fresh.last_seen_at_ms, 300);
    assert_eq!(fresh.updated_at_ms, 300);
}

#[test]
fn session_row_reads_back_as_written() {
    let session = octty::types::SessionSnapshot {
        id: "tmux-session-1".to_owned(),
        workspace_id: "workspace-1".to_owned(),
        pane_id: "pane-1".to_owned(),
        kind: TerminalKind::Codex,
        cwd: "/tmp/repo".to_owned(),
        command: "codex".to_owned(),
        buffer: "hello".to_owned(),
        screen: None,
        state: octty::types::SessionState::Live,
        exit_code: Some(2),
        embedded_session: None,
        embedded_session_correlation_id: None,
        agent_attention_state: None,
    };
    let row = octty::rows::session_row(&session);
    assert_eq!(row[3], DbValue::Text("codex".to_owned()));
    assert_eq!(row[6], DbValue::Text("live".to_owned()));
    assert_eq!(row[7], DbValue::Integer(2));
    assert_eq!(octty::rows::session_from_row(row).unwrap(), session);
}

#[test]
fn session_row_reads_unknown_words_as_defaults_and_refuses_misfits() {
    let row = vec![
        DbValue::Text("pane-1".to_owned()),
        DbValue::Text("workspace-1".to_owned()),
        DbValue::Text("session-1".to_owned()),
        DbValue::Text("zsh".to_owned()),
        DbValue::Text("/tmp".to_owned()),
        DbValue::Text("".to_owned()),
        DbValue::Text("paused".to_owned()),
        DbValue::Null,
        DbValue::Text("".to_owned()),
    ];
    let read = octty::rows::session_from_row(row.clone()).unwrap();
    assert_eq!(read.kind, TerminalKind::Shell);
    assert_eq!(read.state, octty::types::SessionState::Stopped);
    assert_eq!(read.exit_code, None);
    let mut bad = row;
    bad[7] = DbValue::Text("1".to_owned());
    assert_eq!(
        octty::rows::session_from_row(bad).unwrap_err(),
        StoreError::UnexpectedValue { column: "exit_code".to_owned(), value: DbValue::Text("1".to_owned()) }
    );
}

fn sidebar_workspace(workspace_name: &str, workspace_path: &str, unread_notes: i64) -> WorkspaceSummary {
    WorkspaceSummary {
        id: format!("workspace-{workspace_name}"),
        root_id: "root-1".to_owned(),
        root_path: "/tmp/repo".to_owned(),
        project_display_name: "repo".to_owned(),
        workspace_name: workspace_name.to_owned(),
        display_name: String::new(),
        workspace_path: workspace_path.to_owned(),
        status: WorkspaceStatus { unread_notes, has_conflicts: true, ..WorkspaceStatus::default() },
        created_at: 1,
        updated_at: 2,
        last_opened_at: 3,
    }
}

#[test]
fn project_root_menu_offers_new_rename_and_forget() {
    let entries = octty::sidebar::project_root_menu_entries("root-1");
    assert_eq!(
        entries,
        vec![
            SidebarMenuEntry::item("New Workspace".to_owned(), SidebarMenuAction::CreateWorkspaceForRoot("root-1".to_owned())),
            SidebarMenuEntry::item("Rename".to_owned(), SidebarMenuAction::RenameProjectRoot("root-1".to_owned())),
            SidebarMenuEntry::Separator,
            SidebarMenuEntry::item("Forget".to_owned(), SidebarMenuAction::RemoveProjectRoot("root-1".to_owned())),
        ]
    );
}

#[test]
fn default_workspace_row_cannot_be_forgotten_or_deleted() {
    let row = octty::sidebar::sidebar_workspace_row(&sidebar_workspace("default", "/tmp/repo", 0), None);
    assert_eq!(row.title, "default");
    assert!(row.shows_conflict && row.shows_meta_row);
    assert!(!row.missing_path);
    assert_eq!(row.unread_notes_label, None);
    assert_eq!(row.menu[2].action(), None);
    assert_eq!(row.menu[3].action(), None);
    assert_eq!(row.menu[0].action(), Some(SidebarMenuAction::RenameWorkspace("workspace-default".to_owned())));
}

#[test]
fn workspace_row_with_missing_directory_can_be_forgotten_but_not_deleted() {
    let missing = octty::types::encode_missing_workspace_path("feature");
    let row = octty::sidebar::sidebar_workspace_row(&sidebar_workspace("feature", &missing, 3), Some("2"));
    assert_eq!(row.title, "feature");
    assert_eq!(row.shortcut_label.as_deref(), Some("2"));
    assert!(row.missing_path);
    assert_eq!(row.unread_notes_label.as_deref(), Some("3 note"));
    assert_eq!(row.menu[2].action(), Some(SidebarMenuAction::ForgetWorkspace("workspace-feature".to_owned())));
    assert_eq!(row.menu[3].action(), None);
    let present = octty::sidebar::sidebar_workspace_row(&sidebar_workspace("feature", "/tmp/feature", 0), None);
    assert_eq!(
        present.menu[3].action(),
        Some(SidebarMenuAction::DeleteAndForgetWorkspace("workspace-feature".to_owned()))
    );
}

fn arg_list(args: &[&str]) -> Vec<String> {
    args.iter().map(|arg| arg.to_string()).collect()
}

#[test]
fn replay_record_arguments_default_grid_size() {
    assert_eq!(terminal_replay_record_args(&arg_list(&["--headless-check"])), None);
    assert_eq!(
        terminal_replay_record_args(&arg_list(&["--terminal-replay-record", "out.pty", "100", "30"])),
        Some(Ok(TerminalReplayRecordArgs { path: "out.pty".to_owned(), cols: 100, rows: 30 }))
    );
    assert_eq!(
        terminal_replay_record_args(&arg_list(&["-v", "--terminal-replay-record", "out.pty", "wide"])),
        Some(Ok(TerminalReplayRecordArgs { path: "out.pty".to_owned(), cols: 120, rows: 40 }))
    );
    let missing = terminal_replay_record_args(&arg_list(&["--terminal-replay-record"]));
    assert_eq!(missing, Some(Err(ReplayArgsError::MissingRecordPath)));
    assert_eq!(ReplayArgsError::MissingRecordPath.message(), "--terminal-replay-record requires a .pty path");
}

#[test]
fn replay_events_arguments_take_optional_output() {
    assert_eq!(
        terminal_replay_events_args(&arg_list(&["--terminal-replay-events", "a.events"])),
        Some(Ok(TerminalReplayEventsArgs { events_path: "a.events".to_owned(), output_path: None }))
    );
    assert_eq!(
        terminal_replay_events_args(&arg_list(&["--terminal-replay-events", "a.events", "screen.txt"])),
        Some(Ok(TerminalReplayEventsArgs {
            events_path: "a.events".to_owned(),
            output_path: Some("screen.txt".to_owned())
        }))
    );
    assert_eq!(
        terminal_replay_events_args(&arg_list(&["x", "--terminal-replay-events"])),
        Some(Err(ReplayArgsError::MissingEventsPath))
    );
    assert_eq!(terminal_replay_events_args(&arg_list(&[])), None);
}

#[test]
fn launch_mode_follows_flag_precedence() {
    let mode = |args: &[&str]| octty::launch::launch_mode(&arg_list(args));
    assert_eq!(mode(&["octty"]), octty::launch::LaunchMode::Window);
    assert_eq!(mode(&["octty", "--pane-check", "--headless-check"]), octty::launch::LaunchMode::HeadlessCheck);
    assert_eq!(mode(&["octty", "--shell-check", "--pane-check"]), octty::launch::LaunchMode::PaneCheck);
    assert_eq!(
        mode(&["octty", "--terminal-replay-record", "a.pty", "--terminal-replay-events", "b.events"]),
        octty::launch::LaunchMode::ReplayEvents
    );
    assert_eq!(mode(&["octty", "--terminal-replay-record", "a.pty"]), octty::launch::LaunchMode::ReplayRecord);
    assert_eq!(mode(&["--terminal-replay-record"]), octty::launch::LaunchMode::Window);
    assert_eq!(mode(&["octty", "--live-terminal-check"]), octty::launch::LaunchMode::LiveTerminalCheck);
}

#[test]
fn new_workspaces_go_under_home_workspaces_directory() {
    let root = octty::types::ProjectRootRecord {
        id: "root-1".to_owned(),
        root_path: "/src/octty".to_owned(),
        display_name: "octty".to_owned(),
        created_at: 0,
        updated_at: 0,
    };
    assert_eq!(octty::bootstrap::default_workspace_directory(Some("/home/u"), &root), "/home/u/workspaces/octty");
    assert_eq!(octty::bootstrap::default_workspace_directory(Some("/home/u/"), &root), "/home/u/workspaces/octty");
    assert_eq!(octty::bootstrap::default_workspace_directory(None, &root), "./workspaces/octty");
    let bare = octty::types::ProjectRootRecord { root_path: "/".to_owned(), ..root };
    assert_eq!(octty::bootstrap::default_workspace_directory(Some(""), &bare), "workspaces/repo");
}

#[test]
fn workspace_directory_deletion_refuses_unrecorded_paths_and_the_repo_root() {
    let check = octty::bootstrap::check_workspace_directory_deletion;
    let present = sidebar_workspace("feature", "/tmp/repo/feature", 0);
    assert_eq!(check(&present, "/tmp/repo/feature", "/tmp/repo"), Ok(()));
    let error = check(&present, "/tmp/repo/", "/tmp//repo").unwrap_err();
    assert_eq!(error, octty::bootstrap::WorkspaceDeletionError::RepoRoot("feature".to_owned()));
    assert_eq!(error.message(), "refusing to delete the repo root for workspace feature");
    let missing = sidebar_workspace("gone", &octty::types::encode_missing_workspace_path("gone"), 0);
    let error = check(&missing, "/tmp/x", "/tmp/repo").unwrap_err();
    assert_eq!(error.message(), "workspace gone was forgotten, but its directory path is not recorded");
}

#[test]
fn forgetting_a_workspace_asks_first_and_keeps_another_open() {
    let mut named = sidebar_workspace("feature", "/tmp/repo/feature", 0);
    named.display_name = "Feature work".to_owned();
    let workspaces = vec![sidebar_workspace("default", "/tmp/repo", 0), named];
    let step = octty::prompts::forget_workspace_step(&workspaces, Some(0), "workspace-feature", true);
    assert_eq!(
        step,
        octty::prompts::ForgetWorkspaceStep::Confirm(octty::prompts::ForgetWorkspacePrompt {
            message: "Delete the workspace directory and forget Feature work?".to_owned(),
            detail: Some("/tmp/repo/feature".to_owned()),
            confirm_label: "Delete".to_owned(),
            workspace_index: 1,
            delete_directory: true,
            active_workspace_id: Some("workspace-default".to_owned()),
        })
    );
    let step = octty::prompts::forget_workspace_step(&workspaces, Some(1), "workspace-feature", false);
    match step {
        octty::prompts::ForgetWorkspaceStep::Confirm(prompt) => {
            assert_eq!(prompt.message, "Forget Feature work from JJ and Octty?");
            assert_eq!(prompt.detail, None);
            assert_eq!(prompt.confirm_label, "Forget");
            assert_eq!(prompt.active_workspace_id, None);
        }
        other => panic!("unexpected {other:?}"),
    }
    assert_eq!(
        octty::prompts::forget_workspace_step(&workspaces, None, "workspace-default", false),
        octty::prompts::ForgetWorkspaceStep::Refused("The default workspace cannot be forgotten.".to_owned())
    );
    assert_eq!(
        octty::prompts::forget_workspace_step(&workspaces, None, "workspace-other", false),
        octty::prompts::ForgetWorkspaceStep::NotFound
    );
}

#[test]
fn forgetting_a_project_root_keeps_workspaces_of_other_roots_open() {
    let root = |id: &str| octty::types::ProjectRootRecord {
        id: id.to_owned(),
        root_path: format!("/src/{id}"),
        display_name: id.to_owned(),
        created_at: 0,
        updated_at: 0,
    };
    let roots = vec![root("root-1"), root("root-2")];
    let workspaces = vec![sidebar_workspace("default", "/tmp/repo", 0)];
    let prompt = octty::prompts::remove_project_root_step(&roots, &workspaces, Some(0), "root-2").unwrap();
    assert_eq!(prompt.message, "Forget this project root from Octty?");
    assert_eq!(prompt.detail, "/src/root-2");
    assert_eq!(prompt.root_index, 1);
    assert_eq!(prompt.active_workspace_id.as_deref(), Some("workspace-default"));
    let prompt = octty::prompts::remove_project_root_step(&roots, &workspaces, Some(0), "root-1").unwrap();
    assert_eq!(prompt.active_workspace_id, None);
    assert_eq!(octty::prompts::remove_project_root_step(&roots, &workspaces, Some(0), "root-3"), None);
}

#[test]
fn rename_dialog_sanitizes_and_refuses_empty_names() {
    let target = octty::sidebar::SidebarRenameTarget::Workspace("workspace-1".to_owned());
    assert_eq!(octty::prompts::rename_dialog_title(&target), "Rename workspace");
    assert_eq!(
        octty::prompts::rename_dialog_title(&octty::sidebar::SidebarRenameTarget::ProjectRoot("root-1".to_owned())),
        "Rename repo"
    );
    assert_eq!(octty::prompts::confirm_rename_value("  My   work \t"), Ok("My work".to_owned()));
    assert_eq!(octty::prompts::confirm_rename_value(" \n "), Err("Display name cannot be empty.".to_owned()));
    assert_eq!(octty::prompts::rename_status_message(&target, "My work"), "Renaming workspace to My work...");
}

#[test]
fn closing_the_active_pane_reports_it() {
    let layout = octty::layout::create_default_snapshot_at("workspace-1", 1);
    assert_eq!(
        octty::layout::close_active_pane_at(layout.clone(), 5),
        octty::layout::CloseActivePaneStep::NoActivePane
    );
    let pane_a = create_pane_state(PaneType::Shell, "/tmp".to_owned(), None, "pane-a".to_owned());
    let pane_b = create_pane_state(PaneType::Shell, "/tmp".to_owned(), None, "pane-b".to_owned());
    let layout = octty::layout::add_pane_at(layout, pane_a.clone(), "column-a".to_owned(), 2);
    let layout = octty::layout::add_pane_at(layout, pane_b.clone(), "column-b".to_owned(), 3);
    match octty::layout::close_active_pane_at(layout.clone(), 9) {
        octty::layout::CloseActivePaneStep::Closed { layout: after, pane_id, status } => {
            assert_eq!(pane_id, "pane-b");
            assert_eq!(status, "Closed pane pane-b.");
            assert_eq!(after.panes, vec![pane_a.clone()]);
            assert_eq!(after.active_pane_id.as_deref(), Some("pane-a"));
            assert_eq!(after.updated_at, 9);
        }
        other => panic!("unexpected {other:?}"),
    }
    let mut dangling = layout.clone();
    dangling.active_pane_id = Some("pane-x".to_owned());
    assert_eq!(
        octty::layout::close_active_pane_at(dangling, 9),
        octty::layout::CloseActivePaneStep::Failed("Failed to close pane: pane `pane-x` does not exist".to_owned())
    );
    match octty::layout::close_exited_terminal_pane_at(layout.clone(), "workspace-1", "pane-a", Some(2), 11) {
        octty::layout::ExitedPaneStep::Closed { layout: after, status } => {
            assert_eq!(status, "Closed pane pane-a after terminal exited with status 2.");
            assert_eq!(after.panes, vec![pane_b.clone()]);
        }
        other => panic!("unexpected {other:?}"),
    }
    assert_eq!(
        octty::layout::close_exited_terminal_pane_at(layout.clone(), "workspace-2", "pane-a", None, 11),
        octty::layout::ExitedPaneStep::NotInLayout(layout)
    );
}

#[test]
fn opening_a_workspace_loads_it_unless_it_is_open() {
    let workspaces = vec![sidebar_workspace("default", "/tmp/repo", 0), sidebar_workspace("feature", "/tmp/f", 0)];
    assert_eq!(open_workspace_step(&workspaces, Some(0), false, 5), OpenWorkspaceStep::Ignore);
    assert_eq!(open_workspace_step(&workspaces, Some(0), false, 0), OpenWorkspaceStep::Ignore);
    assert_eq!(open_workspace_step(&workspaces, Some(0), true, 0), OpenWorkspaceStep::CloseMenu);
    assert_eq!(
        open_workspace_step(&workspaces, Some(0), false, 1),
        OpenWorkspaceStep::Open { index: 1, status: "Opening feature...".to_owned() }
    );
    assert_eq!(opened_workspace_status(&workspaces, Some(1), &workspaces[1], None), Some(Ok("Opened feature.".to_owned())));
    assert_eq!(
        opened_workspace_status(&workspaces, Some(1), &workspaces[1], Some("no such table")),
        Some(Err("Failed to open feature: no such table".to_owned()))
    );
    assert_eq!(opened_workspace_status(&workspaces, Some(0), &workspaces[1], None), None);
}

#[test]
fn toasts_keep_the_last_four_and_dismiss_by_id() {
    let mut queue = octty::toasts::ToastQueue::new();
    let mut ids = Vec::new();
    for n in 1..=5 {
        ids.push(queue.show(format!("error {n}")));
    }
    assert_eq!(ids, vec![1, 2, 3, 4, 5]);
    let shown: Vec<u64> = queue.toasts.iter().map(|toast| toast.id).collect();
    assert_eq!(shown, vec![2, 3, 4, 5]);
    assert!(queue.dismiss(3));
    assert!(!queue.dismiss(1));
    let shown: Vec<&str> = queue.toasts.iter().map(|toast| toast.message.as_str()).collect();
    assert_eq!(shown, vec!["error 2", "error 4", "error 5"]);
    queue.next_toast_id = u64::MAX;
    assert_eq!(queue.show("last".to_owned()), u64::MAX);
    assert_eq!(queue.next_toast_id, 1);
}

#[test]
fn key_presses_go_to_dialog_then_shortcuts_then_terminal() {
    let route = octty::input::route_key_down;
    assert_eq!(
        route(true, "Enter", None, false, false, false, false, false),
        octty::input::KeyDownRoute::RenameDialog(Some(octty::input::SidebarRenameDialogKeyAction::Confirm))
    );
    assert_eq!(route(true, "a", Some("a"), false, false, false, false, false), octty::input::KeyDownRoute::RenameDialog(None));
    assert_eq!(route(false, "2", Some("@"), true, false, true, false, false), octty::input::KeyDownRoute::OpenWorkspace(1));
    match route(false, "a", Some("a"), false, false, false, false, false) {
        octty::input::KeyDownRoute::Terminal(input) => {
            assert_eq!(input.key, octty::input::LiveTerminalKey::Character('a'));
            assert_eq!(input.text.as_deref(), Some("a"));
        }
        other => panic!("unexpected {other:?}"),
    }
    assert_eq!(route(false, "f5", None, false, false, false, false, true), octty::input::KeyDownRoute::Ignore);
}

#[test]
fn typed_input_is_previewed_in_the_restored_buffer() {
    let config = default_shell_type_config();
    let mut payload = shell_terminal_payload(&config.shell_types[0], "/tmp/workspace");
    let before = payload.clone();
    let key = |key: octty::input::LiveTerminalKey, text: Option<&str>| octty::input::LiveTerminalKeyInput {
        key,
        text: text.map(str::to_owned),
        modifiers: octty::input::LiveTerminalModifiers { shift: false, alt: false, control: false, platform: false },
        unshifted: '\0',
    };
    octty::taskspace::preview_terminal_input(&mut payload, &key(octty::input::LiveTerminalKey::Character('l'), Some("ls")));
    octty::taskspace::preview_terminal_input(&mut payload, &key(octty::input::LiveTerminalKey::Backspace, None));
    octty::taskspace::preview_terminal_input(&mut payload, &key(octty::input::LiveTerminalKey::Tab, None));
    octty::taskspace::preview_terminal_input(&mut payload, &key(octty::input::LiveTerminalKey::Enter, None));
    octty::taskspace::preview_terminal_input(&mut payload, &key(octty::input::LiveTerminalKey::ArrowUp, None));
    assert_eq!(payload.restored_buffer, format!("{}l\t\n", before.restored_buffer));
    assert_eq!(octty::types::TerminalPanePayload { restored_buffer: before.restored_buffer.clone(), ..payload }, before);
}

#[test]
fn workspace_row_reads_back_as_written() {
    let workspace = WorkspaceSummary {
        id: "workspace-1".to_owned(),
        root_id: "root-1".to_owned(),
        root_path: "/tmp/repo".to_owned(),
        project_display_name: "repo".to_owned(),
        workspace_name: "default".to_owned(),
        display_name: "default".to_owned(),
        workspace_path: "/tmp/repo".to_owned(),
        status: WorkspaceStatus {
            workspace_state: WorkspaceState::Draft,
            has_working_copy_changes: true,
            bookmarks: vec!["main".to_owned()],
            bookmark_relation: octty::types::WorkspaceBookmarkRelation::Exact,
            local_relation: Some(octty::types::BaselineRelation {
                target_name: "main".to_owned(),
                detail_name: None,
                ahead_count: 2,
                behind_count: 0,
            }),
            primary_relation: octty::types::BaselineRelationTarget::Local,
            ..WorkspaceStatus::default()
        },
        created_at: 3,
        updated_at: 4,
        last_opened_at: 5,
    };
    let row = octty::rows::workspace_row(&workspace).unwrap();
    assert_eq!(row.len(), 29);
    assert_eq!(row[7], DbValue::Text("draft".to_owned()));
    assert_eq!(row[9], DbValue::Text("[\"main\"]".to_owned()));
    assert_eq!(row[11], DbValue::Text("main".to_owned()));
    assert_eq!(row[13], DbValue::Integer(2));
    assert_eq!(row[15], DbValue::Null);
    assert_eq!(row[19], DbValue::Text("local".to_owned()));
    assert_eq!(octty::rows::workspace_from_row(row.clone()).unwrap(), workspace);
    let mut bad = row.clone();
    bad[2] = DbValue::Integer(1);
    bad[9] = DbValue::Null;
    assert_eq!(
        octty::rows::workspace_from_row(bad).unwrap_err(),
        StoreError::UnexpectedValue { column: "bookmarks".to_owned(), value: DbValue::Null }
    );
    let mut unread_baseline = row;
    unread_baseline[11] = DbValue::Null;
    unread_baseline[13] = DbValue::Text("not read".to_owned());
    unread_baseline[9] = DbValue::Text("not json".to_owned());
    let read = octty::rows::workspace_from_row(unread_baseline).unwrap();
    assert_eq!(read.status.local_relation, None);
    assert!(read.status.bookmarks.is_empty());
}

#[test]
fn remote_baseline_is_first_tracked_bookmark_then_trunk() {
    let bookmarks = vec!["feature".to_owned(), "main".to_owned()];
    let (state, action) = remote_relation_start(&bookmarks);
    assert_eq!(state, RelationState::CheckingBookmark(0));
    assert_eq!(action, RelationAction::Count("tracked_remote_bookmarks(exact:\"feature\")".to_owned()));
    let (state, action) = relation_step(&bookmarks, state, RelationEvent::Count(0));
    assert_eq!(state, RelationState::CheckingBookmark(1));
    assert_eq!(action, RelationAction::Count("tracked_remote_bookmarks(exact:\"main\")".to_owned()));
    let (state, action) = relation_step(&bookmarks, state, RelationEvent::Count(1));
    assert_eq!(state, RelationState::ReadingDetail(1));
    assert_eq!(action, RelationAction::ReadRemoteBookmarks("tracked_remote_bookmarks(exact:\"main\")".to_owned()));
    let (state, action) =
        relation_step(&bookmarks, state, RelationEvent::Output("main\tgit\nmain\torigin\n".to_owned()));
    assert_eq!(action, RelationAction::Count("tracked_remote_bookmarks(exact:\"main\")..@ ~ empty()".to_owned()));
    let (state, action) = relation_step(&bookmarks, state, RelationEvent::Count(3));
    assert_eq!(action, RelationAction::Count("@..tracked_remote_bookmarks(exact:\"main\") ~ empty()".to_owned()));
    let (state, action) = relation_step(&bookmarks, state, RelationEvent::Count(1));
    assert_eq!(state, RelationState::Finished);
    assert_eq!(
        action,
        RelationAction::Done(Some(octty::types::BaselineRelation {
            target_name: "Remote".to_owned(),
            detail_name: Some("main@origin".to_owned()),
            ahead_count: 3,
            behind_count: 1,
        }))
    );
    let (state, action) = remote_relation_start(&Vec::new());
    assert_eq!(state, RelationState::CheckingTrunk);
    assert_eq!(action, RelationAction::Count("present(trunk()) ~ root()".to_owned()));
    let (_, action) = relation_step(&Vec::new(), state, RelationEvent::Count(0));
    assert_eq!(action, RelationAction::Done(None));
}

#[test]
fn local_baseline_needs_the_default_workspace() {
    let (state, action) = local_relation_start();
    assert_eq!(action, RelationAction::Count("present(default@)".to_owned()));
    let (_, done) = relation_step(&Vec::new(), state.clone(), RelationEvent::Count(0));
    assert_eq!(done, RelationAction::Done(None));
    let (state, action) = relation_step(&Vec::new(), state, RelationEvent::Count(1));
    assert_eq!(action, RelationAction::Count("default@..@ ~ empty()".to_owned()));
    let (state, action) = relation_step(&Vec::new(), state, RelationEvent::Count(0));
    assert_eq!(action, RelationAction::Count("@..default@ ~ empty()".to_owned()));
    let (_, action) = relation_step(&Vec::new(), state, RelationEvent::Count(2));
    assert_eq!(
        action,
        RelationAction::Done(Some(octty::types::BaselineRelation {
            target_name: "Default".to_owned(),
            detail_name: Some("default@".to_owned()),
            ahead_count: 0,
            behind_count: 2,
        }))
    );
}

#[test]
fn status_refresh_waits_for_the_latest_change() {
    let (state, action) = status_refresh_step(refresh_idle(), RefreshEvent::Changed { now_ms: 1_000 });
    assert_eq!(action, RefreshAction::StartTimer(180));
    let (state, action) = status_refresh_step(state, RefreshEvent::Changed { now_ms: 1_100 });
    assert_eq!(action, RefreshAction::Nothing);
    let (state, action) = status_refresh_step(state, RefreshEvent::TimerFired { now_ms: 1_180 });
    assert_eq!(action, RefreshAction::Wait(100));
    let (state, action) = status_refresh_step(state, RefreshEvent::TimerFired { now_ms: 1_280 });
    assert_eq!(action, RefreshAction::Refresh);
    assert_eq!(state, refresh_idle());
}

#[test]
fn new_panes_get_titles_and_default_terminal_kinds() {
    let shell = create_pane_state(PaneType::Shell, "/tmp/repo".to_owned(), None, "pane-1".to_owned());
    assert_eq!(shell.title, "Shell");
    match &shell.payload {
        PanePayload::Terminal(p) => {
            assert_eq!(p.kind, TerminalKind::Shell);
            assert_eq!(p.cwd, "/tmp/repo");
            assert_eq!(p.command, "");
            assert!(p.auto_start);
            assert_eq!(p.shell_type, "plain");
        }
        other => panic!("unexpected {other:?}"),
    }
    let agent = create_pane_state(PaneType::AgentShell, "/tmp/repo".to_owned(), None, "pane-2".to_owned());
    assert_eq!(agent.title, "Codex");
    let nvim = create_pane_state(PaneType::Shell, "/tmp/repo".to_owned(), Some(TerminalKind::Nvim), "pane-3".to_owned());
    assert_eq!(nvim.title, "Nvim");
    let note = create_pane_state(PaneType::Note, "/tmp/repo".to_owned(), None, "pane-4".to_owned());
    assert_eq!(note.title, "Note");
    let browser = create_pane_state(PaneType::Browser, "/tmp/repo".to_owned(), None, "pane-5".to_owned());
    match browser.payload {
        PanePayload::Browser(b) => assert_eq!(b.url, "about:blank"),
        other => panic!("unexpected {other:?}"),
    }
    let diff = create_pane_state(PaneType::Diff, "/tmp/repo".to_owned(), None, "pane-6".to_owned());
    assert_eq!(diff.id, "pane-6");
    assert_eq!(diff.title, "Diff");
}

#[test]
fn a_saved_layout_of_this_version_opens_unchanged() {
    let layout = octty::layout::add_pane_at(
        octty::layout::create_default_snapshot_at("workspace-1", 1),
        create_pane_state(PaneType::Note, "/tmp".to_owned(), None, "pane-a".to_owned()),
        "column-a".to_owned(),
        2,
    );
    assert_eq!(octty::layout::restore_layout_at(Some(layout.clone()), "workspace-1", 9), (layout.clone(), false));
    let mut old = layout;
    old.layout_version = 1;
    let (fresh, save) = octty::layout::restore_layout_at(Some(old), "workspace-1", 9);
    assert!(save);
    assert_eq!(fresh, octty::layout::create_default_snapshot_at("workspace-1", 9));
    assert_eq!(octty::layout::restore_layout_at(None, "workspace-1", 9).1, true);
}

#[test]
fn migration_adds_only_missing_columns() {
    let existing = vec!["id".to_owned(), "has_conflicts".to_owned(), "local_baseline_name".to_owned()];
    let wanted = octty::migrations::workspace_status_columns();
    let added = octty::migrations::column_additions("workspaces", &existing, &wanted);
    assert_eq!(added.len(), 8);
    assert_eq!(added[0], "alter table workspaces add column local_baseline_detail text");
    assert_eq!(added[7], "alter table workspaces add column primary_relation text not null default 'none'");
    let attention = octty::migrations::pane_activity_attention_columns();
    assert!(octty::migrations::column_additions(
        "pane_activity",
        &attention.iter().map(|c| c.0.clone()).collect(),
        &attention
    )
    .is_empty());
}
