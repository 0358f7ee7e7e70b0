use octty::activity::{derive_workspace_activity, screen_fingerprint, PaneActivity};
use octty::jj::{
    classify_bookmark_relation, classify_workspace_state, is_stale_workspace_error, parse_bookmarks,
    parse_count, parse_workspace_list_output, revset_string_literal, summarize_unified_diff,
    DiffStats, DiscoveredWorkspace, CONFLICTED_WORKSPACE_REVSET, DEFAULT_WORKSPACE_REVSET,
    LOCAL_AHEAD_REVSET, LOCAL_BEHIND_REVSET,
};
use octty::shortcuts::workspace_shortcut_targets;
use octty::types::{
    ActivityState, BaselineRelation, BaselineRelationTarget, WorkspaceBookmarkRelation,
    WorkspaceState, WorkspaceStatus, WorkspaceSummary,
};
use octty::watch::{parse_workspace_watch_ignore_fragments_from_values, should_ignore_workspace_watch_path};

#[test]
fn pane_activity_moves_from_active_to_unseen_until_seen() {
    let mut activity = PaneActivity::new("workspace-1", "pane-1", 1_000);

    activity.record_activity(2_000, None, Some(screen_fingerprint("hello")));

    assert_eq!(activity.state_at(2_500, 1_000), ActivityState::Active);
    activity.record_seen(2_600);
    assert_eq!(activity.state_at(2_700, 1_000), ActivityState::IdleSeen);

    activity.record_activity(3_000, None, Some(screen_fingerprint("hello again")));
    assert_eq!(activity.state_at(4_100, 1_000), ActivityState::IdleUnseen);

    activity.record_seen(4_200);

    assert_eq!(activity.state_at(4_300, 1_000), ActivityState::IdleSeen);
}

#[test]
fn pane_activity_uses_tmux_and_fingerprint_as_restart_signals() {
    let mut activity = PaneActivity::new("workspace-1", "pane-1", 1_000);
    activity.record_tmux_observation(2_000, Some(10), Some(screen_fingerprint("first screen")));
    activity.record_seen(2_100);

    activity.record_tmux_observation(30_000, Some(11), Some(screen_fingerprint("first screen")));

    assert_eq!(activity.state_at(30_000, 1_000), ActivityState::Active);

    activity.record_seen(30_100);
    activity.record_tmux_observation(40_000, Some(11), Some(screen_fingerprint("changed screen")));

    assert_eq!(activity.state_at(40_000, 1_000), ActivityState::IdleUnseen);
}

#[test]
fn pane_activity_uses_tmux_observation_time_for_active_window() {
    let mut activity = PaneActivity::new("workspace-1", "pane-1", 1_000);

    activity.record_tmux_observation(30_000, Some(11), None);

    assert_eq!(activity.last_tmux_activity_at_s, Some(11));
    assert_eq!(activity.last_activity_at_ms, 30_000);
    assert_eq!(activity.state_at(32_900, 3_000), ActivityState::Active);
    assert_eq!(activity.state_at(33_100, 3_000), ActivityState::IdleUnseen);
}

#[test]
fn stale_tmux_observation_does_not_fabricate_activity() {
    let mut activity = PaneActivity::new("workspace-1", "pane-1", 1_000);

    activity.record_tmux_observation(10_000, Some(10), None);
    activity.record_seen(10_100);
    activity.record_tmux_observation(20_000, Some(10), None);

    assert_eq!(activity.last_activity_at_ms, 10_000);
    assert_eq!(activity.state_at(20_000, 3_000), ActivityState::IdleSeen);
}

#[test]
fn workspace_activity_uses_active_then_unseen_precedence() {
    assert_eq!(
        derive_workspace_activity(&[ActivityState::IdleSeen, ActivityState::IdleUnseen, ActivityState::IdleSeen]),
        ActivityState::IdleUnseen
    );
    assert_eq!(
        derive_workspace_activity(&[ActivityState::IdleUnseen, ActivityState::Active, ActivityState::IdleSeen]),
        ActivityState::Active
    );
    assert_eq!(derive_workspace_activity(&[ActivityState::IdleSeen]), ActivityState::IdleSeen);
}

#[test]
fn first_ten_workspaces_get_ctrl_shift_number_shortcuts() {
    let workspaces = (0..12)
        .map(|index| WorkspaceSummary {
            id: format!("workspace-{index}"),
            root_id: "root".to_owned(),
            root_path: "/repo".to_owned(),
            project_display_name: "repo".to_owned(),
            workspace_name: format!("w{index}"),
            display_name: format!("w{index}"),
            workspace_path: format!("/repo/w{index}"),
            status: WorkspaceStatus::default(),
            created_at: 0,
            updated_at: 0,
            last_opened_at: 0,
        })
        .collect::<Vec<_>>();

    let targets = workspace_shortcut_targets(&workspaces);

    assert_eq!(targets.len(), 10);
    assert_eq!(targets[0].label, "Ctrl+Shift+1");
    assert_eq!(targets[8].label, "Ctrl+Shift+9");
    assert_eq!(targets[9].label, "Ctrl+Shift+0");
}

#[test]
fn workspace_watch_ignores_common_generated_directories() {
    let fragments = parse_workspace_watch_ignore_fragments_from_values(Vec::new());

    assert!(should_ignore_workspace_watch_path("/home/pm/lynx/bear/service/target", &fragments));
    assert!(should_ignore_workspace_watch_path("/home/pm/lynx/bear/node_modules/pkg/index.js", &fragments));
    assert!(!should_ignore_workspace_watch_path("/home/pm/lynx/bear/.jj/repo/store", &fragments));
    assert!(!should_ignore_workspace_watch_path("/home/pm/lynx/bear/src/lib.rs", &fragments));
}

#[test]
fn workspace_watch_accepts_custom_ignore_fragments() {
    let fragments =
        parse_workspace_watch_ignore_fragments_from_values(vec!["tmp\ncustom-cache,logs".to_owned()]);

    assert!(should_ignore_workspace_watch_path("/repo/tmp/file", &fragments));
    assert!(should_ignore_workspace_watch_path("/repo/custom-cache/file", &fragments));
    assert!(should_ignore_workspace_watch_path("/repo/logs/output", &fragments));
    assert!(!should_ignore_workspace_watch_path("/repo/src/main.rs", &fragments));
}

#[test]
fn parses_jj_workspace_list_template_output() {
    let output = "default\tabc\nfeature\tdef\n".to_owned();
    let parsed = parse_workspace_list_output(&output);

    assert_eq!(
        parsed,
        vec![
            DiscoveredWorkspace {
                workspace_name: "default".to_owned(),
                target_change_id: "abc".to_owned()
            },
            DiscoveredWorkspace {
                workspace_name: "feature".to_owned(),
                target_change_id: "def".to_owned()
            }
        ]
    );
}

#[test]
fn recognizes_stale_workspace_errors() {
    assert!(is_stale_workspace_error(
        "The working copy is stale. Hint: Run `jj workspace update-stale` to update it."
    ));
}

#[test]
fn workspace_status_revsets_match_desktop_behavior() {
    assert_eq!(CONFLICTED_WORKSPACE_REVSET, "coalesce(@ ~ empty(), @-) & conflicts()");
    assert_eq!(DEFAULT_WORKSPACE_REVSET, "present(default@)");
    assert_eq!(LOCAL_AHEAD_REVSET, "default@..@ ~ empty()");
    assert_eq!(LOCAL_BEHIND_REVSET, "@..default@ ~ empty()");
}

#[test]
fn summarizes_unified_diff_without_file_headers() {
    let diff = "\
diff --git a/a.txt b/a.txt
--- a/a.txt
+++ b/a.txt
@@ -1,2 +1,3 @@
 unchanged
-old
+new
+another
";

    assert_eq!(
        summarize_unified_diff(diff),
        DiffStats {
            added_lines: 2,
            removed_lines: 1,
        }
    );
}

#[test]
fn parses_invalid_counts_as_zero() {
    assert_eq!(parse_count("12\n"), 12);
    assert_eq!(parse_count("not a number"), 0);
}

#[test]
fn parses_and_classifies_bookmarks() {
    let exact = parse_bookmarks("main, review ,\n");
    let display = parse_bookmarks("base\n");

    assert_eq!(exact, vec!["main".to_owned(), "review".to_owned()]);
    assert_eq!(classify_bookmark_relation(&exact, &display), WorkspaceBookmarkRelation::Exact);
    assert_eq!(classify_bookmark_relation(&[], &display), WorkspaceBookmarkRelation::Above);
    assert_eq!(classify_bookmark_relation(&[], &[]), WorkspaceBookmarkRelation::NoBookmark);
}

#[test]
fn classifies_workspace_state_from_primary_relation() {
    let same = BaselineRelation {
        target_name: "Default".to_owned(),
        detail_name: Some("default@".to_owned()),
        ahead_count: 0,
        behind_count: 0,
    };
    let ahead = BaselineRelation {
        target_name: "Default".to_owned(),
        detail_name: Some("default@".to_owned()),
        ahead_count: 2,
        behind_count: 0,
    };
    assert_eq!(
        classify_workspace_state(true, BaselineRelationTarget::Local, Some(&ahead)),
        WorkspaceState::Conflicted
    );
    assert_eq!(
        classify_workspace_state(false, BaselineRelationTarget::Remote, Some(&same)),
        WorkspaceState::Published
    );
    assert_eq!(
        classify_workspace_state(false, BaselineRelationTarget::Local, Some(&same)),
        WorkspaceState::MergedLocal
    );
    assert_eq!(
        classify_workspace_state(false, BaselineRelationTarget::Local, Some(&ahead)),
        WorkspaceState::Draft
    );
}

#[test]
fn quotes_revset_string_literals() {
    assert_eq!(revset_string_literal("main"), "\"main\"");
    assert_eq!(revset_string_literal("team/\"x\""), "\"team/\\\"x\\\"\"");
}
