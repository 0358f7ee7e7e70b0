//! Per-pane state that the window keeps: the keys of live terminals, and
//! the attention and activity indicators drawn for panes and workspaces.

use vstd::prelude::*;
use crate::types::{ActivityState, WorkspaceSummary};
use crate::activity::{PaneActivity, sat_sub, saturating_sub_i64, workspace_activity};
use crate::text::{str_chars, string_from_chars, push_all, slice_range, chars_eq};

verus! {

// ---------------------------------------------------------------------------
// Live terminal keys: `<workspace id>:<pane id>`
// ---------------------------------------------------------------------------

/// The text before the first `c` and the text after it; none without a `c`
/// (`str::split_once`).
pub open spec fn split_once(s: Seq<char>, c: char) -> Option<(Seq<char>, Seq<char>)>
    decreases s.len(),
{
    if s.len() == 0 {
        None
    } else if s[0] == c {
        Some((seq![], s.drop_first()))
    } else {
        match split_once(s.drop_first(), c) {
            Some((head, tail)) => Some((seq![s[0]] + head, tail)),
            None => None,
        }
    }
}

pub proof fn lemma_split_once_at(s: Seq<char>, c: char, k: int)
    requires
        0 <= k <= s.len(),
        forall|j: int| 0 <= j < k ==> s[j] != c,
        k == s.len() || s[k] == c,
    ensures
        split_once(s, c) == (if k == s.len() {
            None
        } else {
            Some((s.take(k), s.skip(k + 1)))
        }),
    decreases k,
{
    if k == 0 {
        if s.len() > 0 {
            assert(s.take(0) =~= seq![]);
            assert(s.skip(1) =~= s.drop_first());
        }
    } else {
        let r = s.drop_first();
        assert forall|j: int| 0 <= j < k - 1 implies r[j] != c by {
            assert(r[j] == s[j + 1]);
        }
        if k - 1 < r.len() {
            assert(r[k - 1] == s[k]);
        }
        lemma_split_once_at(r, c, k - 1);
        if k < s.len() {
            assert(seq![s[0]] + r.take(k - 1) =~= s.take(k));
            assert(r.skip(k) =~= s.skip(k + 1));
        }
    }
}

pub open spec fn live_key(workspace_id: Seq<char>, pane_id: Seq<char>) -> Seq<char> {
    workspace_id + seq![':'] + pane_id
}

/// The key under which a pane's live terminal is kept.
pub fn live_terminal_key(workspace_id: &str, pane_id: &str) -> (r: String)
    ensures
        r@ == live_key(workspace_id@, pane_id@),
{
    let mut out = str_chars(workspace_id);
    out.push(':');
    push_all(&mut out, str_chars(pane_id).as_slice());
    string_from_chars(out.as_slice())
}

/// The workspace id and pane id of a live terminal key.
pub fn split_live_terminal_key(key: &str) -> (r: Option<(String, String)>)
    ensures
        match r {
            Some((w, p)) => split_once(key@, ':') == Some((w@, p@)),
            None => split_once(key@, ':') is None,
        },
{
    let chars = str_chars(key);
    let mut k: usize = 0;
    while k < chars.len() && chars[k] != ':'
        invariant
            k <= chars@.len(),
            chars@ == key@,
            forall|j: int| 0 <= j < k ==> chars@[j] != ':',
        decreases chars.len() - k,
    {
        k = k + 1;
    }
    proof {
        lemma_split_once_at(key@, ':', k as int);
    }
    if k == chars.len() {
        return None;
    }
    let head = slice_range(chars.as_slice(), 0, k);
    let tail = slice_range(chars.as_slice(), k + 1, chars.len());
    proof {
        assert(head@ =~= key@.take(k as int));
        assert(tail@ =~= key@.skip(k + 1));
    }
    Some((string_from_chars(head.as_slice()), string_from_chars(tail.as_slice())))
}

/// A live terminal key splits back into the ids it was made of, when the
/// workspace id holds no colon.
pub proof fn lemma_live_key_round_trip(workspace_id: Seq<char>, pane_id: Seq<char>)
    requires
        !workspace_id.contains(':'),
    ensures
        split_once(live_key(workspace_id, pane_id), ':') == Some((workspace_id, pane_id)),
{
    let key = live_key(workspace_id, pane_id);
    let k = workspace_id.len() as int;
    assert forall|j: int| 0 <= j < k implies key[j] != ':' by {
        assert(key[j] == workspace_id[j]);
        if key[j] == ':' {
            assert(workspace_id.contains(':'));
        }
    }
    assert(key[k] == ':');
    lemma_split_once_at(key, ':', k);
    assert(key.take(k) =~= workspace_id);
    assert(key.skip(k + 1) =~= pane_id);
}

/// After a workspace is renamed, the key of one of its live terminals and
/// the key it moves to; none for a terminal of another workspace.
pub open spec fn rekeyed_live_key(key: Seq<char>, previous_workspace_id: Seq<char>, next_workspace_id: Seq<char>) -> Option<(Seq<char>, Seq<char>)> {
    match split_once(key, ':') {
        Some((w, p)) => if w == previous_workspace_id {
            Some((key, live_key(next_workspace_id, p)))
        } else {
            None
        },
        None => None,
    }
}

pub fn rekey_live_terminal_key(key: &str, previous_workspace_id: &str, next_workspace_id: &str) -> (r:
    Option<(String, String)>)
    ensures
        match r {
            Some((from, to)) => rekeyed_live_key(key@, previous_workspace_id@, next_workspace_id@)
                == Some((from@, to@)),
            None => rekeyed_live_key(key@, previous_workspace_id@, next_workspace_id@) is None,
        },
{
    let (workspace_id, pane_id) = match split_live_terminal_key(key) {
        Some(parts) => parts,
        None => {
            return None;
        },
    };
    let w = str_chars(workspace_id.as_str());
    let prev = str_chars(previous_workspace_id);
    if !chars_eq(w.as_slice(), prev.as_slice()) {
        return None;
    }
    Some((key.to_owned(), live_terminal_key(next_workspace_id, pane_id.as_str())))
}

// ---------------------------------------------------------------------------
// Attention and activity indicators
// ---------------------------------------------------------------------------

/// Output newer than this makes a pane active.
pub const PANE_ACTIVITY_ACTIVE_WINDOW_MS: i64 = 3_000;

/// After the user sees a pane that asked for attention, its marker stays
/// this long.
pub const PANE_ATTENTION_CLEAR_GRACE_MS: i64 = 4_000;

/// How long the attention marker of a seen pane still shows.
pub open spec fn attention_clear_remaining(activity: PaneActivity, now_ms: i64) -> Option<int> {
    if activity.needs_attention || activity.needs_attention_cleared_at_ms == 0
        || activity.needs_attention_cleared_at_ms < activity.needs_attention_at_ms {
        None
    } else {
        let elapsed = sat_sub(now_ms, activity.needs_attention_cleared_at_ms);
        if elapsed < PANE_ATTENTION_CLEAR_GRACE_MS {
            Some(PANE_ATTENTION_CLEAR_GRACE_MS - elapsed)
        } else {
            None
        }
    }
}

pub open spec fn attention_visible(activity: PaneActivity, now_ms: i64) -> bool {
    activity.needs_attention || attention_clear_remaining(activity, now_ms) is Some
}

/// The time since the attention was cleared leaves room for the remaining
/// grace period in an `i64`: the clearing time lies less than `i64::MAX`
/// minus the grace period after `now_ms`.
pub open spec fn attention_times_in_range(activity: PaneActivity, now_ms: i64) -> bool {
    sat_sub(now_ms, activity.needs_attention_cleared_at_ms) >= PANE_ATTENTION_CLEAR_GRACE_MS - i64::MAX
}

/// A pane that asked for attention and is then seen keeps its attention
/// marker for the grace period from the moment it was seen, and loses it
/// after; seeing it at time zero or before the request clears the marker
/// at once.
pub proof fn lemma_attention_fades_after_grace(before: PaneActivity, after: PaneActivity, seen_at_ms: i64, now_ms: i64)
    requires
        before.needs_attention,
        !after.needs_attention,
        after.needs_attention_at_ms == before.needs_attention_at_ms,
        after.needs_attention_cleared_at_ms == seen_at_ms,
        seen_at_ms > 0,
        seen_at_ms >= before.needs_attention_at_ms,
        now_ms >= seen_at_ms,
    ensures
        attention_visible(after, now_ms) <==> now_ms - seen_at_ms < PANE_ATTENTION_CLEAR_GRACE_MS,
        attention_visible(after, now_ms) ==> attention_clear_remaining(after, now_ms) == Some(
            PANE_ATTENTION_CLEAR_GRACE_MS - (now_ms - seen_at_ms),
        ),
{
}

pub fn pane_attention_clear_remaining_ms(activity: &PaneActivity, now_ms: i64) -> (r: Option<i64>)
    requires
        attention_times_in_range(*activity, now_ms),
    ensures
        match r {
            Some(ms) => attention_clear_remaining(*activity, now_ms) == Some(ms as int),
            None => attention_clear_remaining(*activity, now_ms) is None,
        },
{
    if activity.needs_attention || activity.needs_attention_cleared_at_ms == 0
        || activity.needs_attention_cleared_at_ms < activity.needs_attention_at_ms {
        return None;
    }
    let elapsed = saturating_sub_i64(now_ms, activity.needs_attention_cleared_at_ms);
    if elapsed < PANE_ATTENTION_CLEAR_GRACE_MS {
        Some(PANE_ATTENTION_CLEAR_GRACE_MS - elapsed)
    } else {
        None
    }
}

pub fn pane_attention_visible(activity: &PaneActivity, now_ms: i64) -> (r: bool)
    requires
        attention_times_in_range(*activity, now_ms),
    ensures
        r == attention_visible(*activity, now_ms),
{
    activity.needs_attention || pane_attention_clear_remaining_ms(activity, now_ms).is_some()
}

#[derive(Clone, Copy, Debug, PartialEq, Eq, Structural)]
pub struct WorkspaceActivityIndicator {
    pub activity_state: ActivityState,
    pub needs_attention: bool,
}

#[derive(Clone, Copy, Debug, PartialEq, Eq, Structural)]
pub struct PaneActivityIndicator {
    pub activity_state: ActivityState,
    pub needs_attention: bool,
    pub show_attention: bool,
}

#[derive(Clone, Copy, Debug, PartialEq, Eq, Structural)]
pub enum PaneBorderMarker {
    Attention,
    Focused,
    Unfocused,
}

#[derive(Clone, Copy, Debug, PartialEq, Eq, Structural)]
pub enum WorkspaceActivityMarker {
    AttentionActive,
    AttentionIdle,
    Active,
    Idle,
}

/// A pane's border: the attention colour while its marker shows, else the
/// focus colour for the active pane.
pub fn pane_border_marker(active: bool, activity_indicator: PaneActivityIndicator) -> (r:
    PaneBorderMarker)
    ensures
        r == (if activity_indicator.show_attention {
            PaneBorderMarker::Attention
        } else if active {
            PaneBorderMarker::Focused
        } else {
            PaneBorderMarker::Unfocused
        }),
{
    if activity_indicator.show_attention {
        PaneBorderMarker::Attention
    } else if active {
        PaneBorderMarker::Focused
    } else {
        PaneBorderMarker::Unfocused
    }
}

/// A workspace's sidebar marker: whether a pane asks for attention, and
/// whether a pane is active.
pub open spec fn activity_marker(indicator: WorkspaceActivityIndicator) -> WorkspaceActivityMarker {
    let active = indicator.activity_state == ActivityState::Active;
    if indicator.needs_attention && active {
        WorkspaceActivityMarker::AttentionActive
    } else if indicator.needs_attention {
        WorkspaceActivityMarker::AttentionIdle
    } else if active {
        WorkspaceActivityMarker::Active
    } else {
        WorkspaceActivityMarker::Idle
    }
}

pub fn workspace_activity_marker(indicator: WorkspaceActivityIndicator) -> (r: WorkspaceActivityMarker)
    ensures
        r == activity_marker(indicator),
{
    let active = match indicator.activity_state {
        ActivityState::Active => true,
        _ => false,
    };
    if indicator.needs_attention && active {
        WorkspaceActivityMarker::AttentionActive
    } else if indicator.needs_attention {
        WorkspaceActivityMarker::AttentionIdle
    } else if active {
        WorkspaceActivityMarker::Active
    } else {
        WorkspaceActivityMarker::Idle
    }
}

} // verus!
