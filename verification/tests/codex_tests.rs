use octty::codex::{
    codex_history_sessions, filter_codex_sessions_for_workspace, find_codex_inner_session_id_in_history,
    format_codex_history_timestamp, is_codex_session_description_candidate,
    list_resumable_codex_sessions_in_history, path_is_in_workspace, sort_sessions_latest_first,
    CodexHistorySession, CodexSessionInfo, CodexThreadMetadata,
};

/// Local time taken as UTC, so that the expected texts do not depend on the
/// machine running the tests.
fn utc(_ts: i64) -> i32 {
    0
}

fn history_line(session_id: &str, ts: i64, text: &str) -> String {
    let mut object = serde_json::Map::new();
    object.insert("session_id".to_owned(), serde_json::Value::from(session_id));
    object.insert("ts".to_owned(), serde_json::Value::from(ts));
    object.insert("text".to_owned(), serde_json::Value::from(text));
    serde_json::Value::Object(object).to_string()
}

fn codex_session(inner_session_id: &str) -> CodexSessionInfo {
    CodexSessionInfo {
        inner_session_id: inner_session_id.to_owned(),
        timestamp: "1".to_owned(),
        description: inner_session_id.to_owned(),
    }
}

fn codex_thread_metadata(cwd: &str, updated_at: i64) -> CodexThreadMetadata {
    CodexThreadMetadata {
        cwd: cwd.to_owned(),
        updated_at,
    }
}

#[test]
fn codex_history_lists_sessions_with_descriptions() {
    let lines = vec![history_line("019d96c4-8591-7353-9119-26e630293b23", 1776350954, "implement PLAN.md")];

    let sessions = list_resumable_codex_sessions_in_history(&lines, utc);

    assert_eq!(sessions.len(), 1);
    assert_eq!(sessions[0].inner_session_id, "019d96c4-8591-7353-9119-26e630293b23");
    assert_ne!(sessions[0].timestamp, "1776350954");
    assert!(sessions[0].timestamp.contains('-'));
    assert_eq!(sessions[0].description, "implement PLAN.md");
}

#[test]
fn codex_history_timestamp_falls_back_to_raw_value_when_unformattable() {
    assert_eq!(format_codex_history_timestamp(i64::MAX, 0), i64::MAX.to_string());
}

#[test]
fn codex_history_ignores_init_prompt_as_description() {
    let lines = vec![
        history_line(
            "019d96c4-8591-7353-9119-26e630293b23",
            1776350954,
            "FYI: You are running inside Octty pane \"pane-1\". Reply \"ok\"",
        ),
        history_line("019d96c4-8591-7353-9119-26e630293b23", 1776350959, "continue previous task"),
    ];

    let sessions = list_resumable_codex_sessions_in_history(&lines, utc);

    assert_eq!(sessions[0].description, "continue previous task");
}

#[test]
fn codex_history_lookup_finds_pane_marker_in_lines() {
    let pane_id = "pane-1776352389726-1";
    let lines = vec![history_line(
        "019d96da-76eb-7c00-90c1-ed9ddc30c613",
        1776352395,
        "FYI: You are running inside Octty pane \"pane-1776352389726-1\". Reply \"ok\"",
    )];
    let marker = format!("You are running inside Octty pane \"{pane_id}\"");

    assert_eq!(
        find_codex_inner_session_id_in_history(&lines, pane_id, &marker),
        Some("019d96da-76eb-7c00-90c1-ed9ddc30c613".to_owned())
    );
    assert_eq!(find_codex_inner_session_id_in_history(&lines, "pane-2", "pane-2"), None);
}

#[test]
fn codex_history_lookup_prefers_latest_then_last_marking_line() {
    let lines = vec![
        history_line("early", 10, "marker for pane-7"),
        history_line("late", 30, "marker for pane-7"),
        history_line("tie-first", 20, "marker for pane-7"),
        history_line("later-tie", 30, "marker for pane-7"),
        history_line("other", 99, "no mark here for pane-7"),
    ];

    assert_eq!(
        find_codex_inner_session_id_in_history(&lines, "pane-7", "marker"),
        Some("later-tie".to_owned())
    );
}

#[test]
fn codex_resume_filter_keeps_workspace_sessions_and_excludes_connected() {
    let sessions = vec![
        codex_session("workspace-session"),
        codex_session("workspace-child-session"),
        codex_session("other-session"),
        codex_session("connected-session"),
        codex_session("missing-thread-session"),
    ];
    let thread_metadata = vec![
        ("workspace-session".to_owned(), codex_thread_metadata("/repo/workspace", 1776350954)),
        ("workspace-child-session".to_owned(), codex_thread_metadata("/repo/workspace/crate", 1776352395)),
        ("other-session".to_owned(), codex_thread_metadata("/repo/workspace-other", 1776353000)),
        ("connected-session".to_owned(), codex_thread_metadata("/repo/workspace", 1776354000)),
    ];
    let connected = vec!["connected-session".to_owned()];

    let sessions = filter_codex_sessions_for_workspace(sessions, &thread_metadata, "/repo/workspace", &connected, utc);

    assert_eq!(
        sessions.iter().map(|session| session.inner_session_id.as_str()).collect::<Vec<_>>(),
        vec!["workspace-session", "workspace-child-session"]
    );
    assert!(sessions.iter().all(|session| session.timestamp != "1"));
}

#[test]
fn codex_history_aggregates_sessions_and_skips_unparsable_lines() {
    let lines = vec![
        history_line("a", 5, "first a"),
        "not json at all".to_owned(),
        "{\"ts\": 9, \"text\": \"no session\"}".to_owned(),
        history_line("b", 7, "   "),
        history_line("a", 3, "older a"),
        "{\"session_id\": \"c\", \"text\": \"no timestamp\"}".to_owned(),
    ];

    let sessions = codex_history_sessions(&lines);

    assert_eq!(sessions.len(), 3);
    let a = sessions.iter().find(|s| s.inner_session_id == "a").expect("session a");
    assert_eq!(a.latest_ts, 5);
    assert_eq!(a.description.as_deref(), Some("first a"));
    let b = sessions.iter().find(|s| s.inner_session_id == "b").expect("session b");
    assert_eq!(b.latest_ts, 7);
    assert_eq!(b.description, None);
    let c = sessions.iter().find(|s| s.inner_session_id == "c").expect("session c");
    assert_eq!(c.latest_ts, 0);
    assert_eq!(c.description.as_deref(), Some("no timestamp"));
}

#[test]
fn codex_history_lists_latest_session_first_with_placeholder_description() {
    let lines = vec![
        history_line("old", 100, "old work"),
        history_line("new", 300, "<environment_context> only"),
        history_line("middle", 200, "middle work"),
    ];

    let sessions = list_resumable_codex_sessions_in_history(&lines, utc);

    assert_eq!(
        sessions.iter().map(|s| s.inner_session_id.as_str()).collect::<Vec<_>>(),
        vec!["new", "middle", "old"]
    );
    assert_eq!(sessions[0].description, "Untitled Codex session");
}

#[test]
fn codex_sessions_sort_latest_first() {
    let session = |id: &str, ts: i64| CodexHistorySession {
        inner_session_id: id.to_owned(),
        latest_ts: ts,
        description_ts: i64::MIN,
        description: None,
    };
    let sorted = sort_sessions_latest_first(&[session("a", 1), session("b", 3), session("c", 2)]);
    assert_eq!(
        sorted.iter().map(|s| s.inner_session_id.as_str()).collect::<Vec<_>>(),
        vec!["b", "c", "a"]
    );
}

#[test]
fn codex_description_candidates_skip_instructions_and_blank_prompts() {
    assert!(is_codex_session_description_candidate("fix the build"));
    assert!(!is_codex_session_description_candidate("   \n"));
    assert!(!is_codex_session_description_candidate("  <permissions instructions> ..."));
    assert!(!is_codex_session_description_candidate("# AGENTS.md instructions for /repo"));
    assert!(!is_codex_session_description_candidate("You are running inside Octty pane \"p\""));
}

#[test]
fn workspace_paths_compare_whole_components() {
    assert!(path_is_in_workspace("/repo/workspace", "/repo/workspace"));
    assert!(path_is_in_workspace("/repo/workspace/crate", "/repo/workspace"));
    assert!(path_is_in_workspace("/repo//workspace/./crate/", "/repo/workspace/"));
    assert!(!path_is_in_workspace("/repo/workspace-other", "/repo/workspace"));
    assert!(!path_is_in_workspace("/repo", "/repo/workspace"));
    assert!(!path_is_in_workspace("repo/workspace", "/repo/workspace"));
}

#[test]
fn codex_history_timestamp_is_local_minute_text() {
    assert_eq!(format_codex_history_timestamp(0, 0), "1970-01-01 00:00");
    assert_eq!(format_codex_history_timestamp(1776350954, 0), "2026-04-16 14:49");
    assert_eq!(format_codex_history_timestamp(1776350954, 7200), "2026-04-16 16:49");
    assert_eq!(format_codex_history_timestamp(59, -3600), "1969-12-31 23:00");
    assert_eq!(format_codex_history_timestamp(-62135596800, 0), "0001-01-01 00:00");
    assert_eq!(format_codex_history_timestamp(-62135596801, 0), "0000-12-31 23:59");
    assert_eq!(format_codex_history_timestamp(253402300800, 0), "+10000-01-01 00:00");
}

#[test]
fn codex_history_listing_stamps_sessions_with_the_given_offset() {
    let lines = vec![history_line("s", 1776350954, "work")];
    let sessions = list_resumable_codex_sessions_in_history(&lines, |_ts| 3600);
    assert_eq!(sessions[0].timestamp, "2026-04-16 15:49");
}
