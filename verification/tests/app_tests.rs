use octty::activity::PaneActivity;
use octty::activity_map::workspace_activity_indicator_at;
use octty::clock::now_ms;
use octty::grid::{
    coalesce_terminal_snapshots, mark_terminal_snapshot_full_damage,
    terminal_snapshot_coalesce_interval, terminal_snapshot_presentation_delay_for_state,
    TerminalCellSnapshot, TerminalDamageSnapshot, TerminalGridSnapshot, TerminalRgb,
    TerminalRowSnapshot, TerminalScrollSnapshot, TerminalSnapshotTiming,
    TERMINAL_BACKGROUND_FRAME_INTERVAL_MICROS, TERMINAL_FOCUSED_FRAME_INTERVAL_MICROS,
};
use octty::input::{
    clipboard_shortcut_action_from_key_parts, live_terminal_input_from_key_parts,
    retach_key_for_live_key, sidebar_rename_dialog_key_action, terminal_control_j_input,
    terminal_page_scroll_direction, terminal_tab_input, workspace_shortcut_index_from_key_parts,
    ClipboardShortcutAction, LiveTerminalKey, SidebarRenameDialogKeyAction,
};
use octty::metrics::{first_font_family, summary_percentiles, terminal_env_value_enabled};
use octty::panes::{
    pane_attention_clear_remaining_ms, pane_attention_visible, pane_border_marker,
    workspace_activity_marker, PaneActivityIndicator, PaneBorderMarker,
    WorkspaceActivityIndicator, WorkspaceActivityMarker, PANE_ACTIVITY_ACTIVE_WINDOW_MS,
};
use octty::paste::{quote_terminal_path_for_paste, terminal_paste_bytes};
use octty::profile::{TerminalRenderProfileSample, TerminalRenderProfiler};
use octty::replay::{parse_terminal_replay_events, TerminalReplayEventsStep};
use octty::selection::{
    terminal_selection_runs, terminal_selection_text, terminal_selection_text_remove_common_indent,
    TerminalGridPoint, TerminalSelection, TerminalSelectionMode, TerminalSelectionRun,
};
use octty::shell::{default_shell_type_config, shell_type_shortcut_from_key_parts, KeystrokeModifiers};
use octty::sidebar::sidebar_workspace_groups;
use octty::types::{ActivityState, ProjectRootRecord, WorkspaceStatus, WorkspaceSummary};
use std::collections::VecDeque;

fn test_project_root(id: &str, display_name: &str) -> ProjectRootRecord {
    ProjectRootRecord {
        id: id.to_owned(),
        root_path: format!("/repos/{display_name}"),
        display_name: display_name.to_owned(),
        created_at: 0,
        updated_at: 0,
    }
}

fn test_workspace(id: &str, root_id: &str, workspace_name: &str) -> WorkspaceSummary {
    WorkspaceSummary {
        id: id.to_owned(),
        root_id: root_id.to_owned(),
        root_path: format!("/repos/{root_id}"),
        project_display_name: root_id.to_owned(),
        workspace_name: workspace_name.to_owned(),
        display_name: workspace_name.to_owned(),
        workspace_path: format!("/repos/{root_id}/{workspace_name}"),
        status: WorkspaceStatus::default(),
        created_at: 0,
        updated_at: 0,
        last_opened_at: 0,
    }
}

fn test_terminal_scroll(rows: u16) -> TerminalScrollSnapshot {
    TerminalScrollSnapshot {
        total: u64::from(rows),
        offset: 0,
        len: u64::from(rows),
    }
}

fn picker_cell(
    text: &str,
    fg: Option<TerminalRgb>,
    bg: Option<TerminalRgb>,
    bold: bool,
    italic: bool,
) -> TerminalCellSnapshot {
    TerminalCellSnapshot {
        text: text.to_owned(),
        width: 1,
        fg,
        bg,
        bold,
        italic,
        faint: false,
        blink: false,
        underline: false,
        inverse: false,
        invisible: false,
        strikethrough: false,
        overline: false,
    }
}

fn write_picker_text(
    cells: &mut [TerminalCellSnapshot],
    start_col: usize,
    text: &str,
    fg: Option<TerminalRgb>,
    bg: Option<TerminalRgb>,
    bold: bool,
    italic: bool,
) {
    for (offset, ch) in text.chars().enumerate() {
        let Some(cell) = cells.get_mut(start_col + offset) else {
            break;
        };
        *cell = picker_cell(&ch.to_string(), fg, bg, bold, italic);
    }
}

fn test_terminal_snapshot(
    session_id: &str,
    cols: u16,
    rows: u16,
    dirty_rows: Vec<u16>,
    full_damage: bool,
) -> TerminalGridSnapshot {
    let default_fg = TerminalRgb { r: 210, g: 216, b: 222 };
    let default_bg = TerminalRgb { r: 30, g: 34, b: 48 };
    let rows_data = (0..rows)
        .map(|_| TerminalRowSnapshot {
            cells: (0..cols).map(|_| picker_cell("", None, None, false, false)).collect(),
        })
        .collect();
    let damage_cells = dirty_rows.len().saturating_mul(usize::from(cols)) as u32;
    let dirty_row_count = dirty_rows.len() as u32;
    TerminalGridSnapshot {
        session_id: session_id.to_owned(),
        cols,
        rows,
        scroll: test_terminal_scroll(rows),
        default_fg,
        default_bg,
        cursor: None,
        damage: TerminalDamageSnapshot {
            full: full_damage,
            rows: dirty_rows,
            cells: damage_cells,
        },
        rows_data,
        plain_text: String::new(),
        timing: TerminalSnapshotTiming {
            dirty_rows: dirty_row_count,
            dirty_cells: damage_cells,
            ..TerminalSnapshotTiming::default()
        },
    }
}

fn platform_key(key: &str) -> (String, Option<String>) {
    (key.to_owned(), None)
}

#[test]
fn workspace_activity_marker_combines_attention_and_recent_activity() {
    assert_eq!(
        workspace_activity_marker(WorkspaceActivityIndicator {
            activity_state: ActivityState::Active,
            needs_attention: true,
        }),
        WorkspaceActivityMarker::AttentionActive
    );
    assert_eq!(
        workspace_activity_marker(WorkspaceActivityIndicator {
            activity_state: ActivityState::IdleSeen,
            needs_attention: true,
        }),
        WorkspaceActivityMarker::AttentionIdle
    );
    assert_eq!(
        workspace_activity_marker(WorkspaceActivityIndicator {
            activity_state: ActivityState::Active,
            needs_attention: false,
        }),
        WorkspaceActivityMarker::Active
    );
    assert_eq!(
        workspace_activity_marker(WorkspaceActivityIndicator {
            activity_state: ActivityState::IdleUnseen,
            needs_attention: false,
        }),
        WorkspaceActivityMarker::Idle
    );
}

#[test]
fn workspace_activity_marker_stops_spinning_when_attention_closes_activity() {
    let workspace = test_workspace("workspace-1", "root-1", "main");
    let mut activity = PaneActivity::new("workspace-1", "pane-1", 1_000);
    activity.record_activity(now_ms(), None, None);
    activity.record_attention(now_ms());
    let pane_activity = vec![activity];

    assert_eq!(
        workspace_activity_marker(workspace_activity_indicator_at(&workspace, &pane_activity, now_ms())),
        WorkspaceActivityMarker::AttentionIdle
    );
}

#[test]
fn workspace_activity_marker_stays_idle_after_attention_is_seen() {
    let workspace = test_workspace("workspace-1", "root-1", "main");
    let mut activity = PaneActivity::new("workspace-1", "pane-1", 1_000);
    let now = now_ms();
    activity.record_activity(now, None, None);
    activity.record_attention(now);
    activity.record_seen(now);
    let pane_activity = vec![activity];

    assert_eq!(
        workspace_activity_marker(workspace_activity_indicator_at(&workspace, &pane_activity, now_ms())),
        WorkspaceActivityMarker::Idle
    );
}

#[test]
fn pane_border_marker_prefers_attention_until_seen() {
    assert_eq!(
        pane_border_marker(
            true,
            PaneActivityIndicator {
                activity_state: ActivityState::Active,
                needs_attention: true,
                show_attention: true,
            },
        ),
        PaneBorderMarker::Attention
    );
    assert_eq!(
        pane_border_marker(
            false,
            PaneActivityIndicator {
                activity_state: ActivityState::IdleUnseen,
                needs_attention: true,
                show_attention: true,
            },
        ),
        PaneBorderMarker::Attention
    );
    assert_eq!(
        pane_border_marker(
            true,
            PaneActivityIndicator {
                activity_state: ActivityState::Active,
                needs_attention: false,
                show_attention: false,
            },
        ),
        PaneBorderMarker::Focused
    );
    assert_eq!(
        pane_border_marker(
            false,
            PaneActivityIndicator {
                activity_state: ActivityState::IdleUnseen,
                needs_attention: false,
                show_attention: false,
            },
        ),
        PaneBorderMarker::Unfocused
    );
}

#[test]
fn pane_border_marker_keeps_attention_visible_after_seen() {
    let mut activity = PaneActivity::new("workspace-1", "pane-1", 1_000);
    activity.record_attention(2_000);
    activity.record_seen(2_100);

    assert!(pane_attention_visible(&activity, 2_500));
    assert_eq!(pane_attention_clear_remaining_ms(&activity, 2_500), Some(3_600));
    assert_eq!(
        pane_border_marker(
            true,
            PaneActivityIndicator {
                activity_state: activity.state_at(2_500, PANE_ACTIVITY_ACTIVE_WINDOW_MS),
                needs_attention: activity.needs_attention,
                show_attention: pane_attention_visible(&activity, 2_500),
            },
        ),
        PaneBorderMarker::Attention
    );
    assert!(pane_attention_visible(&activity, 5_500));
    assert!(!pane_attention_visible(&activity, 6_100));

    activity.record_seen(10_000);
    assert!(!pane_attention_visible(&activity, 10_000));
}

#[test]
fn sidebar_workspace_groups_follow_repo_order_and_keep_orphans() {
    let project_roots = vec![test_project_root("root-b", "bravo"), test_project_root("root-a", "alpha")];
    let workspaces = vec![
        test_workspace("workspace-1", "root-a", "one"),
        test_workspace("workspace-2", "missing-root", "two"),
        test_workspace("workspace-3", "root-b", "three"),
    ];

    let groups = sidebar_workspace_groups(&project_roots, &workspaces);

    assert_eq!(groups.len(), 3);
    assert_eq!(groups[0].root.as_ref().map(|root| root.id.as_str()), Some("root-b"));
    assert_eq!(groups[0].workspace_indices, vec![2]);
    assert_eq!(groups[1].root.as_ref().map(|root| root.id.as_str()), Some("root-a"));
    assert_eq!(groups[1].workspace_indices, vec![0]);
    assert_eq!(groups[2].root, None);
    assert_eq!(groups[2].workspace_indices, vec![1]);
}

#[test]
fn tests_printable_keys_become_terminal_text() {
    let input = live_terminal_input_from_key_parts("a", Some("a"), false, false, false, false, false)
        .expect("printable input");
    assert_eq!(input.key, LiveTerminalKey::Character('a'));
    assert_eq!(input.text.as_deref(), Some("a"));

    let shifted = live_terminal_input_from_key_parts("a", Some("A"), false, false, true, false, false)
        .expect("shifted input");
    assert_eq!(shifted.key, LiveTerminalKey::Character('a'));
    assert_eq!(shifted.text.as_deref(), Some("A"));
    assert!(shifted.modifiers.shift);
}

#[test]
fn tests_named_keys_become_terminal_keys() {
    let enter = live_terminal_input_from_key_parts("enter", None, false, false, false, false, false)
        .expect("enter input");
    assert_eq!(enter.key, LiveTerminalKey::Enter);

    let return_key = live_terminal_input_from_key_parts("return", None, false, false, false, false, false)
        .expect("return input");
    assert_eq!(return_key.key, LiveTerminalKey::Enter);

    let backspace =
        live_terminal_input_from_key_parts("backspace", None, false, false, false, false, false)
            .expect("backspace input");
    assert_eq!(backspace.key, LiveTerminalKey::Backspace);

    let page_up = live_terminal_input_from_key_parts("pageup", None, false, false, false, false, false)
        .expect("page-up input");
    assert_eq!(page_up.key, LiveTerminalKey::PageUp);

    let page_down =
        live_terminal_input_from_key_parts("pagedown", None, false, false, false, false, false)
            .expect("page-down input");
    assert_eq!(page_down.key, LiveTerminalKey::PageDown);
}

#[test]
fn page_keys_map_to_viewport_scroll_directions() {
    let page_up = live_terminal_input_from_key_parts("pageup", None, false, false, false, false, false)
        .expect("page-up input");
    assert_eq!(terminal_page_scroll_direction(&page_up), Some(-1));

    let page_down =
        live_terminal_input_from_key_parts("pagedown", None, false, false, false, false, false)
            .expect("page-down input");
    assert_eq!(terminal_page_scroll_direction(&page_down), Some(1));

    let modified = live_terminal_input_from_key_parts("pageup", None, true, false, false, false, false)
        .expect("modified page-up input");
    assert_eq!(terminal_page_scroll_direction(&modified), None);
}

#[test]
fn shift_return_becomes_control_j_for_terminal() {
    let input = live_terminal_input_from_key_parts("enter", None, false, false, true, false, false)
        .expect("shift-enter input");

    assert_eq!(input.key, LiveTerminalKey::Character('j'));
    assert_eq!(input.text, None);
    assert!(input.modifiers.control);
    assert!(!input.modifiers.shift);
    assert_eq!(input.unshifted, 'j');

    let return_key = live_terminal_input_from_key_parts("return", None, false, false, true, false, false)
        .expect("shift-return input");
    assert_eq!(return_key, input);

    let modified = live_terminal_input_from_key_parts("enter", None, true, false, true, false, false)
        .expect("ctrl-shift-enter input");
    assert_eq!(modified.key, LiveTerminalKey::Enter);
    assert!(modified.modifiers.control);
    assert!(modified.modifiers.shift);
}

#[test]
fn tab_keys_become_terminal_tab_keys() {
    let tab = live_terminal_input_from_key_parts("tab", None, false, false, false, false, false)
        .expect("tab input");
    assert_eq!(tab, terminal_tab_input(false));

    let tab_with_key_char =
        live_terminal_input_from_key_parts("tab", Some("\t"), false, false, false, false, false)
            .expect("tab input with key char");
    assert_eq!(tab_with_key_char, terminal_tab_input(false));

    let shift_tab = live_terminal_input_from_key_parts("tab", None, false, false, true, false, false)
        .expect("shift-tab input");
    assert_eq!(shift_tab, terminal_tab_input(true));
}

#[test]
fn retach_fallback_maps_tab_and_control_j() {
    assert_eq!(retach_key_for_live_key(&terminal_tab_input(false)).as_deref(), Some("Tab"));
    assert_eq!(retach_key_for_live_key(&terminal_control_j_input()).as_deref(), Some("C-j"));
}

#[test]
fn space_key_forwards_printable_space_text() {
    let input = live_terminal_input_from_key_parts("space", None, false, false, false, false, false)
        .expect("space input");

    assert_eq!(input.key, LiveTerminalKey::Character(' '));
    assert_eq!(input.text.as_deref(), Some(" "));
    assert_eq!(input.unshifted, ' ');
}

#[test]
fn printable_key_char_takes_precedence_over_named_key() {
    let input = live_terminal_input_from_key_parts("space", Some(" "), false, false, false, false, false)
        .expect("printable space input");

    assert_eq!(input.key, LiveTerminalKey::Character(' '));
    assert_eq!(input.text.as_deref(), Some(" "));
    assert_eq!(input.unshifted, ' ');
}

#[test]
fn unmodified_single_character_key_synthesizes_text_when_key_char_is_missing() {
    let input = live_terminal_input_from_key_parts("a", None, false, false, false, false, false)
        .expect("synthesized printable input");

    assert_eq!(input.key, LiveTerminalKey::Character('a'));
    assert_eq!(input.text.as_deref(), Some("a"));
    assert_eq!(input.unshifted, 'a');
}

#[test]
fn control_space_keeps_control_modifier_without_text() {
    let input = live_terminal_input_from_key_parts("space", None, true, false, false, false, false)
        .expect("control-space input");

    assert_eq!(input.key, LiveTerminalKey::Space);
    assert_eq!(input.text, None);
    assert!(input.modifiers.control);
    assert_eq!(input.unshifted, ' ');
}

#[test]
fn named_keys_do_not_forward_key_char_as_text() {
    let escape =
        live_terminal_input_from_key_parts("escape", Some("\x1b"), false, false, false, false, false)
            .expect("escape input");
    assert_eq!(escape.key, LiveTerminalKey::Escape);
    assert_eq!(escape.text, None);

    let up = live_terminal_input_from_key_parts("up", Some("\x1b[A"), false, false, false, false, false)
        .expect("up input");
    assert_eq!(up.key, LiveTerminalKey::ArrowUp);
    assert_eq!(up.text, None);
}

#[test]
fn control_characters_are_not_forwarded_as_text() {
    let escape =
        live_terminal_input_from_key_parts("escape", Some("\x1b"), false, false, false, false, false)
            .expect("escape input");
    assert_eq!(escape.text, None);
}

#[test]
fn tests_terminal_input_preserves_workspace_shortcuts() {
    assert_eq!(live_terminal_input_from_key_parts("1", Some("!"), true, false, true, false, false), None);
    assert_eq!(live_terminal_input_from_key_parts("!", Some("!"), true, false, true, false, false), None);
    assert_eq!(live_terminal_input_from_key_parts("up", None, true, false, true, false, false), None);
    assert_eq!(live_terminal_input_from_key_parts("down", None, true, false, true, false, false), None);
}

#[test]
fn workspace_shortcut_index_accepts_shifted_digit_key_tokens() {
    assert_eq!(
        workspace_shortcut_index_from_key_parts("1", Some("!"), true, false, true, false, false),
        Some(0)
    );
    assert_eq!(
        workspace_shortcut_index_from_key_parts("0", Some(")"), true, false, true, false, false),
        Some(9)
    );
    assert_eq!(
        workspace_shortcut_index_from_key_parts("!", Some("!"), true, false, true, false, false),
        Some(0)
    );
    assert_eq!(
        workspace_shortcut_index_from_key_parts("1", Some("!"), true, false, false, false, false),
        None
    );
    assert_eq!(
        workspace_shortcut_index_from_key_parts("1", Some("!"), true, true, true, false, false),
        None
    );
}

#[test]
fn tests_terminal_input_preserves_paste_shortcut() {
    for key in ["c", "x", "v"] {
        let key_char = key.to_ascii_uppercase();
        assert_eq!(
            live_terminal_input_from_key_parts(key, Some(key_char.as_str()), true, false, true, false, false),
            None
        );
    }
    assert!(live_terminal_input_from_key_parts("p", Some("P"), true, false, true, false, false).is_some());
    for key in ["c", "x", "v", "p"] {
        assert_eq!(live_terminal_input_from_key_parts(key, None, false, false, false, true, false), None);
    }
    assert_eq!(live_terminal_input_from_key_parts("KeyC", Some("c"), false, false, false, true, false), None);
    assert_eq!(live_terminal_input_from_key_parts("KeyX", Some("x"), false, false, false, true, false), None);
    assert_eq!(live_terminal_input_from_key_parts("KeyV", Some("v"), false, false, false, true, false), None);
    assert_eq!(live_terminal_input_from_key_parts("KeyP", Some("p"), false, false, false, true, false), None);
    assert_eq!(live_terminal_input_from_key_parts("insert", None, true, false, false, false, false), None);
    assert_eq!(live_terminal_input_from_key_parts("insert", None, false, false, true, false, false), None);
    assert!(live_terminal_input_from_key_parts("x", Some("x"), true, false, false, false, false).is_some());
}

#[test]
fn platform_clipboard_shortcuts_are_app_actions() {
    // "super-c" and the like: the key with the platform modifier.
    let (c, c_char) = platform_key("c");
    assert_eq!(
        clipboard_shortcut_action_from_key_parts(&c, c_char.as_deref(), false, false, false, true, false),
        Some(ClipboardShortcutAction::Copy)
    );
    let (x, x_char) = platform_key("x");
    assert_eq!(
        clipboard_shortcut_action_from_key_parts(&x, x_char.as_deref(), false, false, false, true, false),
        Some(ClipboardShortcutAction::Cut)
    );
    let (v, v_char) = platform_key("v");
    assert_eq!(
        clipboard_shortcut_action_from_key_parts(&v, v_char.as_deref(), false, false, false, true, false),
        Some(ClipboardShortcutAction::Paste)
    );
    let (p, p_char) = platform_key("p");
    assert_eq!(
        clipboard_shortcut_action_from_key_parts(&p, p_char.as_deref(), false, false, false, true, false),
        Some(ClipboardShortcutAction::Paste)
    );
    assert_eq!(
        clipboard_shortcut_action_from_key_parts("KeyC", Some("c"), false, false, false, true, false),
        Some(ClipboardShortcutAction::Copy)
    );
    assert_eq!(
        clipboard_shortcut_action_from_key_parts("KeyV", Some("v"), false, false, false, true, false),
        Some(ClipboardShortcutAction::Paste)
    );
    assert_eq!(
        clipboard_shortcut_action_from_key_parts("KeyX", Some("x"), false, false, false, true, false),
        Some(ClipboardShortcutAction::Cut)
    );
    assert_eq!(
        clipboard_shortcut_action_from_key_parts("KeyP", Some("p"), false, false, false, true, false),
        Some(ClipboardShortcutAction::Paste)
    );
}

#[test]
fn rewritten_clipboard_shortcuts_are_app_actions() {
    assert_eq!(
        clipboard_shortcut_action_from_key_parts("insert", None, true, false, false, false, false),
        Some(ClipboardShortcutAction::Copy)
    );
    assert_eq!(
        clipboard_shortcut_action_from_key_parts("insert", None, false, false, true, false, false),
        Some(ClipboardShortcutAction::Paste)
    );
    assert_eq!(
        clipboard_shortcut_action_from_key_parts("x", Some("x"), true, false, false, false, false),
        None
    );
}

#[test]
fn tests_terminal_input_preserves_pane_action_shortcuts() {
    assert_eq!(live_terminal_input_from_key_parts("left", None, true, false, true, false, false), None);
    assert_eq!(live_terminal_input_from_key_parts("w", Some("W"), true, false, true, false, false), None);
}

#[test]
fn tests_terminal_input_preserves_column_resize_shortcuts() {
    assert_eq!(live_terminal_input_from_key_parts("left", None, true, true, false, false, false), None);
    assert_eq!(live_terminal_input_from_key_parts("right", None, true, true, false, false, false), None);
}

#[test]
fn tests_control_letters_keep_control_modifier_for_encoder() {
    let input = live_terminal_input_from_key_parts("c", None, true, false, false, false, false)
        .expect("control input");
    assert_eq!(input.key, LiveTerminalKey::Character('c'));
    assert!(input.modifiers.control);
}

#[test]
fn rename_dialog_only_intercepts_commit_keys() {
    assert_eq!(sidebar_rename_dialog_key_action("enter"), Some(SidebarRenameDialogKeyAction::Confirm));
    assert_eq!(sidebar_rename_dialog_key_action("return"), Some(SidebarRenameDialogKeyAction::Confirm));
    assert_eq!(sidebar_rename_dialog_key_action("escape"), Some(SidebarRenameDialogKeyAction::Cancel));
    assert_eq!(sidebar_rename_dialog_key_action("a"), None);
    assert_eq!(sidebar_rename_dialog_key_action("space"), None);
}

#[test]
fn default_shell_type_config_defines_initial_types() {
    let config = default_shell_type_config();
    let names = config
        .shell_types
        .iter()
        .map(|shell_type| shell_type.name.as_str())
        .collect::<Vec<_>>();
    assert_eq!(names, vec!["plain", "codex", "jjui"]);
    assert_eq!(config.shell_types[0].shortcut, "ctrl-shift-s");
    assert_eq!(config.shell_types[1].shortcut, "ctrl-shift-a");
    assert_eq!(config.shell_types[1].command, "codex");
    assert_eq!(
        config.shell_types[1].command_parameters,
        vec!["--dangerously-bypass-approvals-and-sandbox".to_owned()]
    );
    assert_eq!(config.shell_types[2].shortcut, "ctrl-shift-j");
}

#[test]
fn configured_shell_shortcuts_match_key_events_before_terminal_input() {
    let config = default_shell_type_config();
    // "ctrl-shift-a" and "ctrl-shift-j" as keystrokes.
    let ctrl_shift = KeystrokeModifiers {
        control: true,
        alt: false,
        shift: true,
        platform: false,
        function: false,
    };

    assert_eq!(
        shell_type_shortcut_from_key_parts(&config.shell_types, "a", ctrl_shift),
        Some("codex".to_owned())
    );
    assert_eq!(
        shell_type_shortcut_from_key_parts(&config.shell_types, "j", ctrl_shift),
        Some("jjui".to_owned())
    );
}

#[test]
fn tests_css_font_stack_prefers_first_real_family() {
    assert_eq!(first_font_family("\"Iosevka Term\", monospace").as_deref(), Some("Iosevka Term"));
    assert_eq!(first_font_family("monospace, \"JetBrains Mono\"").as_deref(), Some("JetBrains Mono"));
}

#[test]
fn tests_terminal_paste_normalizes_newlines_to_carriage_returns() {
    assert_eq!(terminal_paste_bytes("one\ntwo\r\nthree"), b"one\rtwo\rthree");
}

#[test]
fn terminal_clipboard_paste_quotes_image_path() {
    assert_eq!(quote_terminal_path_for_paste("/tmp/screenshot.png"), "/tmp/screenshot.png");
    assert_eq!(quote_terminal_path_for_paste("/tmp/screen shot.png"), "'/tmp/screen shot.png'");
    assert_eq!(quote_terminal_path_for_paste("/tmp/it's.png"), "'/tmp/it'\\''s.png'");
}

#[test]
fn terminal_selection_runs_merge_rows() {
    let selection = TerminalSelection {
        anchor: TerminalGridPoint { row: 0, col: 2 },
        active: TerminalGridPoint { row: 2, col: 1 },
        mode: TerminalSelectionMode::default(),
    };

    assert_eq!(
        terminal_selection_runs(&selection, 5, 3),
        vec![
            TerminalSelectionRun { row: 0, start_col: 2, end_col: 5 },
            TerminalSelectionRun { row: 1, start_col: 0, end_col: 5 },
            TerminalSelectionRun { row: 2, start_col: 0, end_col: 2 },
        ]
    );

    let reversed = TerminalSelection {
        anchor: selection.active,
        active: selection.anchor,
        mode: selection.mode,
    };
    assert_eq!(terminal_selection_runs(&reversed, 5, 3), terminal_selection_runs(&selection, 5, 3));
}

#[test]
fn terminal_selection_text_trims_row_padding() {
    let mut snapshot = test_terminal_snapshot("selection-text", 6, 2, vec![0, 1], true);
    write_picker_text(&mut snapshot.rows_data[0].cells, 0, "abc   ", None, None, false, false);
    write_picker_text(&mut snapshot.rows_data[1].cells, 0, "de f  ", None, None, false, false);
    let selection = TerminalSelection {
        anchor: TerminalGridPoint { row: 0, col: 1 },
        active: TerminalGridPoint { row: 1, col: 3 },
        mode: TerminalSelectionMode::default(),
    };

    assert_eq!(terminal_selection_text(&snapshot, &selection), "bc\nde f");
}

#[test]
fn terminal_selection_runs_box_columns() {
    let selection = TerminalSelection {
        anchor: TerminalGridPoint { row: 3, col: 4 },
        active: TerminalGridPoint { row: 1, col: 1 },
        mode: TerminalSelectionMode {
            rectangular: true,
            filter_indent: false,
        },
    };

    assert_eq!(
        terminal_selection_runs(&selection, 8, 5),
        vec![
            TerminalSelectionRun { row: 1, start_col: 1, end_col: 5 },
            TerminalSelectionRun { row: 2, start_col: 1, end_col: 5 },
            TerminalSelectionRun { row: 3, start_col: 1, end_col: 5 },
        ]
    );
}

#[test]
fn terminal_selection_text_box_preserves_selected_columns() {
    let mut snapshot = test_terminal_snapshot("box-selection-text", 8, 3, vec![0, 1, 2], true);
    write_picker_text(&mut snapshot.rows_data[0].cells, 0, "  alpha", None, None, false, false);
    write_picker_text(&mut snapshot.rows_data[1].cells, 0, "  beta ", None, None, false, false);
    write_picker_text(&mut snapshot.rows_data[2].cells, 0, "  gam  ", None, None, false, false);
    let selection = TerminalSelection {
        anchor: TerminalGridPoint { row: 0, col: 2 },
        active: TerminalGridPoint { row: 2, col: 5 },
        mode: TerminalSelectionMode {
            rectangular: true,
            filter_indent: false,
        },
    };

    assert_eq!(terminal_selection_text(&snapshot, &selection), "alph\nbeta\ngam ");
}

#[test]
fn terminal_selection_text_filter_removes_common_indent() {
    assert_eq!(
        terminal_selection_text_remove_common_indent("    one\n      two\n    three"),
        "one\n  two\nthree"
    );
}

#[test]
fn terminal_env_value_enabled_treats_zero_and_false_as_off() {
    assert!(!terminal_env_value_enabled("0"));
    assert!(!terminal_env_value_enabled("false"));
    assert!(!terminal_env_value_enabled("FALSE"));
    assert!(terminal_env_value_enabled("1"));
    assert!(terminal_env_value_enabled("true"));
}

#[test]
fn latency_summary_percentiles_of_three_samples() {
    let samples: VecDeque<u64> = VecDeque::from([8_000, 500, 1_500]);
    let (p50, p95, max) = summary_percentiles(&samples).expect("latency summary");
    assert_eq!(p50, 1_500);
    assert_eq!(p95, 1_500);
    assert_eq!(max, 8_000);
    assert_eq!(summary_percentiles(&VecDeque::new()), None);
}

#[test]
fn terminal_render_profiler_keeps_zero_count_samples() {
    let mut profiler = TerminalRenderProfiler::default();

    profiler.record(TerminalRenderProfileSample {
        build_micros: 10,
        rows: 1,
        cols: 3,
        dirty_rows: 0,
        dirty_cells: 0,
        rebuilt_rows: 0,
        reused_rows: 1,
        glyph_cells: 0,
        background_runs: 0,
        text_bytes: 0,
        ..TerminalRenderProfileSample::default()
    });
    profiler.record(TerminalRenderProfileSample {
        paint_micros: 0,
        rows: 1,
        cols: 3,
        painted_rows: 1,
        submitted_glyphs: 0,
        submitted_backgrounds: 1,
        ..TerminalRenderProfileSample::default()
    });

    assert_eq!(profiler.dirty_rows, VecDeque::from([0]));
    assert_eq!(profiler.dirty_cells, VecDeque::from([0]));
    assert_eq!(profiler.rebuilt_rows, VecDeque::from([0]));
    assert_eq!(profiler.glyph_cells, VecDeque::from([0]));
    assert_eq!(profiler.submitted_glyphs, VecDeque::from([0]));
    assert_eq!(profiler.paint_micros, VecDeque::from([0]));
    // The report has a row-paint part exactly when paint times were kept.
    assert!(summary_percentiles(&profiler.build_micros).is_some());
    assert!(summary_percentiles(&profiler.paint_micros).is_some());
}

#[test]
fn terminal_snapshot_coalesce_keeps_first_recent_focused_input_immediate() {
    let now: u64 = 5_000_000;
    assert_eq!(terminal_snapshot_coalesce_interval(true, true, None, now), 0);
    assert_eq!(
        terminal_snapshot_coalesce_interval(true, false, None, now),
        TERMINAL_FOCUSED_FRAME_INTERVAL_MICROS
    );
    assert_eq!(
        terminal_snapshot_coalesce_interval(false, true, None, now),
        TERMINAL_BACKGROUND_FRAME_INTERVAL_MICROS
    );
}

#[test]
fn terminal_snapshot_coalesce_limits_recent_focused_input_to_frame_interval() {
    let now: u64 = 5_000_000;
    assert_eq!(
        terminal_snapshot_coalesce_interval(true, true, Some(now - 3_000), now),
        TERMINAL_FOCUSED_FRAME_INTERVAL_MICROS - 3_000
    );
    assert_eq!(
        terminal_snapshot_coalesce_interval(true, true, Some(now - TERMINAL_FOCUSED_FRAME_INTERVAL_MICROS), now),
        0
    );
}

#[test]
fn terminal_snapshot_coalesce_keeps_dirty_rows_from_skipped_snapshots() {
    let first = test_terminal_snapshot("session", 4, 3, vec![0, 1], false);
    let second = test_terminal_snapshot("session", 4, 3, vec![2], false);

    let snapshot = coalesce_terminal_snapshots(vec![first, second]).expect("coalesced snapshot");

    assert_eq!(snapshot.damage.rows, vec![0, 1, 2]);
    assert!(snapshot.damage.full);
    assert_eq!(snapshot.damage.cells, 12);
    assert_eq!(snapshot.timing.dirty_rows, 3);
    assert_eq!(snapshot.timing.dirty_cells, 12);
}

#[test]
fn terminal_snapshot_coalesce_forces_full_damage_on_resize() {
    let first = test_terminal_snapshot("session", 4, 3, vec![1], false);
    let second = test_terminal_snapshot("session", 4, 2, vec![0], false);

    let snapshot = coalesce_terminal_snapshots(vec![first, second]).expect("coalesced snapshot");

    assert_eq!(snapshot.rows, 2);
    assert_eq!(snapshot.damage.rows, vec![0, 1]);
    assert!(snapshot.damage.full);
    assert_eq!(snapshot.damage.cells, 8);
}

#[test]
fn terminal_snapshot_full_damage_marks_every_row_dirty() {
    let mut snapshot = test_terminal_snapshot("session", 4, 3, vec![1], false);

    mark_terminal_snapshot_full_damage(&mut snapshot);

    assert_eq!(snapshot.damage.rows, vec![0, 1, 2]);
    assert!(snapshot.damage.full);
    assert_eq!(snapshot.damage.cells, 12);
    assert_eq!(snapshot.timing.dirty_rows, 3);
    assert_eq!(snapshot.timing.dirty_cells, 12);
}

#[test]
fn terminal_snapshot_presentation_keeps_focused_terminal_immediate() {
    let now: u64 = 5_000_000;

    assert_eq!(terminal_snapshot_presentation_delay_for_state(true, Some(now), true, now), None);
}

#[test]
fn terminal_snapshot_presentation_rate_limits_background_terminal() {
    let now: u64 = 5_000_000;

    assert_eq!(
        terminal_snapshot_presentation_delay_for_state(true, Some(now), false, now),
        Some(TERMINAL_BACKGROUND_FRAME_INTERVAL_MICROS)
    );
}

#[test]
fn terminal_snapshot_presentation_releases_background_after_interval() {
    let now: u64 = 5_000_000;

    assert_eq!(
        terminal_snapshot_presentation_delay_for_state(
            true,
            Some(now - TERMINAL_BACKGROUND_FRAME_INTERVAL_MICROS),
            false,
            now
        ),
        None
    );
}

#[test]
fn terminal_replay_event_parser_keeps_resizes_and_output_order() {
    let events = "\
3 kind=start session=s cols=90 rows=20 output=/tmp/octty-record/session.pty
9 kind=resize cols=87 rows=52 pixel_width=696 pixel_height=936
10 kind=output offset=0 len=258 hex=1b5b
11 kind=input source=key len=1 hex=6e
12 kind=resize cols=87 rows=18 pixel_width=696 pixel_height=324
13 kind=output offset=258 len=224 hex=1b5b
";

    let plan = parse_terminal_replay_events(events).expect("parsed trace");

    assert_eq!(plan.output_path, "/tmp/octty-record/session.pty");
    assert_eq!(plan.initial_cols, 90);
    assert_eq!(plan.initial_rows, 20);
    assert_eq!(
        plan.steps,
        vec![
            TerminalReplayEventsStep::Resize { cols: 87, rows: 52 },
            TerminalReplayEventsStep::Output { offset: 0, len: 258 },
            TerminalReplayEventsStep::Resize { cols: 87, rows: 18 },
            TerminalReplayEventsStep::Output { offset: 258, len: 224 },
        ]
    );
}
