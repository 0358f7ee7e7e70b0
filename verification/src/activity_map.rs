//! The pane activity records of all workspaces, keyed by workspace id and
//! pane id, and the indicators computed from them.
//!
//! The records are kept in a vector in which no key occurs twice; a lookup
//! finds the record with a key.

use vstd::prelude::*;
use crate::types::{ActivityState, WorkspaceSummary};
use crate::activity::{PaneActivity, tmux_observed, fresh_activity, seen_recorded};
use crate::panes::{
    attention_clear_remaining, attention_visible, attention_times_in_range,
    pane_attention_clear_remaining_ms, pane_attention_visible, PaneActivityIndicator,
    WorkspaceActivityIndicator, PANE_ACTIVITY_ACTIVE_WINDOW_MS,
};
use crate::text::{str_chars, chars_eq, opt_string_clone};

verus! {

pub type ActivityKey = (Seq<char>, Seq<char>);

pub open spec fn key_of(a: PaneActivity) -> ActivityKey {
    (a.workspace_id@, a.pane_id@)
}

/// No two records share a key.
pub open spec fn unique_keys(s: Seq<PaneActivity>) -> bool {
    forall|i: int, j: int| 0 <= i < j < s.len() ==> key_of(s[i]) != key_of(s[j])
}

pub open spec fn has_key(s: Seq<PaneActivity>, k: ActivityKey) -> bool {
    exists|i: int| 0 <= i < s.len() && key_of(#[trigger] s[i]) == k
}

/// The record with key `k`.
pub open spec fn lookup(s: Seq<PaneActivity>, k: ActivityKey) -> Option<PaneActivity> {
    if has_key(s, k) {
        Some(s[choose|i: int| 0 <= i < s.len() && key_of(#[trigger] s[i]) == k])
    } else {
        None
    }
}

/// The last record with key `k` (what collecting into a map keeps).
pub open spec fn last_with_key(s: Seq<PaneActivity>, k: ActivityKey) -> Option<PaneActivity>
    decreases s.len(),
{
    if s.len() == 0 {
        None
    } else if key_of(s.last()) == k {
        Some(s.last())
    } else {
        last_with_key(s.drop_last(), k)
    }
}

proof fn lemma_lookup_at(s: Seq<PaneActivity>, i: int)
    requires
        unique_keys(s),
        0 <= i < s.len(),
    ensures
        lookup(s, key_of(s[i])) == Some(s[i]),
{
    let k = key_of(s[i]);
    assert(has_key(s, k));
    let j = choose|j: int| 0 <= j < s.len() && key_of(#[trigger] s[j]) == k;
    if j != i {
        if j < i {
            assert(key_of(s[j]) != key_of(s[i]));
        } else {
            assert(key_of(s[i]) != key_of(s[j]));
        }
    }
}

proof fn lemma_lookup_push(s: Seq<PaneActivity>, a: PaneActivity, k: ActivityKey)
    requires
        unique_keys(s),
        !has_key(s, key_of(a)),
    ensures
        unique_keys(s.push(a)),
        lookup(s.push(a), k) == if k == key_of(a) {
            Some(a)
        } else {
            lookup(s, k)
        },
{
    let t = s.push(a);
    assert forall|i: int, j: int| 0 <= i < j < t.len() implies key_of(t[i]) != key_of(t[j]) by {
        if j == s.len() {
            assert(t[i] == s[i]);
            if key_of(s[i]) == key_of(a) {
                assert(has_key(s, key_of(a)));
            }
        } else {
            assert(t[i] == s[i] && t[j] == s[j]);
        }
    }
    if k == key_of(a) {
        assert(t[s.len() as int] == a);
        lemma_lookup_at(t, s.len() as int);
    } else {
        if has_key(s, k) {
            let i = choose|i: int| 0 <= i < s.len() && key_of(#[trigger] s[i]) == k;
            lemma_lookup_at(s, i);
            assert(t[i] == s[i]);
            lemma_lookup_at(t, i);
        } else {
            if has_key(t, k) {
                let i = choose|i: int| 0 <= i < t.len() && key_of(#[trigger] t[i]) == k;
                if i < s.len() {
                    assert(t[i] == s[i]);
                    assert(has_key(s, k));
                }
            }
        }
    }
}

proof fn lemma_lookup_update(s: Seq<PaneActivity>, i: int, a: PaneActivity, k: ActivityKey)
    requires
        unique_keys(s),
        0 <= i < s.len(),
        key_of(a) == key_of(s[i]),
    ensures
        unique_keys(s.update(i, a)),
        lookup(s.update(i, a), k) == if k == key_of(a) {
            Some(a)
        } else {
            lookup(s, k)
        },
{
    let t = s.update(i, a);
    assert forall|x: int| 0 <= x < t.len() implies key_of(#[trigger] t[x]) == key_of(s[x]) by {}
    assert forall|x: int, y: int| 0 <= x < y < t.len() implies key_of(t[x]) != key_of(t[y]) by {
        assert(key_of(t[x]) == key_of(s[x]) && key_of(t[y]) == key_of(s[y]));
    }
    if k == key_of(a) {
        lemma_lookup_at(t, i);
    } else if has_key(s, k) {
        let j = choose|j: int| 0 <= j < s.len() && key_of(#[trigger] s[j]) == k;
        lemma_lookup_at(s, j);
        assert(t[j] == s[j]);
        lemma_lookup_at(t, j);
    } else if has_key(t, k) {
        let j = choose|j: int| 0 <= j < t.len() && key_of(#[trigger] t[j]) == k;
        assert(t[j] == s[j]);
        assert(has_key(s, k));
    }
}

/// A copy of a record.
pub fn copy_activity(a: &PaneActivity) -> (r: PaneActivity)
    ensures
        r == *a,
{
    PaneActivity {
        workspace_id: a.workspace_id.clone(),
        pane_id: a.pane_id.clone(),
        last_activity_at_ms: a.last_activity_at_ms,
        last_seen_at_ms: a.last_seen_at_ms,
        last_seen_activity_at_ms: a.last_seen_activity_at_ms,
        last_tmux_activity_at_s: a.last_tmux_activity_at_s,
        last_seen_tmux_activity_at_s: a.last_seen_tmux_activity_at_s,
        last_screen_fingerprint: opt_string_clone(&a.last_screen_fingerprint),
        last_seen_screen_fingerprint: opt_string_clone(&a.last_seen_screen_fingerprint),
        needs_attention: a.needs_attention,
        needs_attention_at_ms: a.needs_attention_at_ms,
        needs_attention_cleared_at_ms: a.needs_attention_cleared_at_ms,
        updated_at_ms: a.updated_at_ms,
    }
}

/// Where the record with this key is.
pub fn find_activity(activities: &[PaneActivity], workspace_id: &str, pane_id: &str) -> (r: Option<usize>)
    ensures
        match r {
            Some(i) => i < activities@.len() && key_of(activities@[i as int]) == (workspace_id@, pane_id@)
                && forall|j: int| 0 <= j < i ==> key_of(#[trigger] activities@[j]) != (workspace_id@, pane_id@),
            None => !has_key(activities@, (workspace_id@, pane_id@)),
        },
{
    let w = str_chars(workspace_id);
    let p = str_chars(pane_id);
    let mut i: usize = 0;
    while i < activities.len()
        invariant
            i <= activities@.len(),
            w@ == workspace_id@,
            p@ == pane_id@,
            forall|j: int| 0 <= j < i ==> key_of(#[trigger] activities@[j]) != (workspace_id@, pane_id@),
        decreases activities.len() - i,
    {
        let a = &activities[i];
        if chars_eq(str_chars(a.workspace_id.as_str()).as_slice(), w.as_slice()) && chars_eq(
            str_chars(a.pane_id.as_str()).as_slice(),
            p.as_slice(),
        ) {
            return Some(i);
        }
        i = i + 1;
    }
    None
}

/// The records keyed by workspace and pane; of two records with one key
/// the later is kept.
pub fn pane_activity_map(activities: Vec<PaneActivity>) -> (r: Vec<PaneActivity>)
    ensures
        unique_keys(r@),
        forall|k: ActivityKey| #[trigger] lookup(r@, k) == last_with_key(activities@, k),
{
    let ghost original = activities@;
    let mut remaining = activities;
    let mut out: Vec<PaneActivity> = Vec::new();
    while remaining.len() > 0
        invariant
            unique_keys(out@),
            original.len() >= remaining@.len(),
            remaining@ == original.take(remaining@.len() as int),
            forall|k: ActivityKey|
                #[trigger] last_with_key(original, k) == match lookup(out@, k) {
                    Some(a) => Some(a),
                    None => last_with_key(remaining@, k),
                },
        decreases remaining.len(),
    {
        let ghost before = remaining@;
        let a = remaining.pop().unwrap();
        proof {
            assert(a == before.last());
            assert(remaining@ == before.drop_last());
            assert(remaining@ =~= original.take(remaining@.len() as int));
        }
        match find_activity(out.as_slice(), a.workspace_id.as_str(), a.pane_id.as_str()) {
            Some(_) => {
                proof {
                    assert forall|k: ActivityKey| #[trigger] last_with_key(original, k) == match lookup(out@, k) {
                        Some(x) => Some(x),
                        None => last_with_key(remaining@, k),
                    } by {
                        assert(last_with_key(before, k) == if key_of(a) == k {
                            Some(a)
                        } else {
                            last_with_key(remaining@, k)
                        });
                        if k == key_of(a) {
                            assert(has_key(out@, k));
                        }
                    }
                }
            },
            None => {
                let ghost old_out = out@;
                out.push(a);
                proof {
                    assert forall|k: ActivityKey| #[trigger] last_with_key(original, k) == match lookup(out@, k) {
                        Some(x) => Some(x),
                        None => last_with_key(remaining@, k),
                    } by {
                        lemma_lookup_push(old_out, a, k);
                        assert(last_with_key(before, k) == if key_of(a) == k {
                            Some(a)
                        } else {
                            last_with_key(remaining@, k)
                        });
                    }
                    lemma_lookup_push(old_out, a, key_of(a));
                }
            },
        }
    }
    proof {
        assert forall|k: ActivityKey| #[trigger] lookup(out@, k) == last_with_key(original, k) by {
            assert(remaining@.len() == 0);
        }
    }
    out
}

// ---------------------------------------------------------------------------
// Indicators
// ---------------------------------------------------------------------------

/// The activity of the workspace's panes at `now_ms`: active when one of
/// them is, else idle-unseen when one is, else idle-seen; and whether one
/// asks for attention.
pub open spec fn workspace_indicator(activities: Seq<PaneActivity>, workspace_id: Seq<char>, now_ms: i64) -> WorkspaceActivityIndicator {
    let in_workspace = |i: int| 0 <= i < activities.len() && activities[i].workspace_id@ == workspace_id;
    WorkspaceActivityIndicator {
        activity_state: if exists|i: int| in_workspace(i) && #[trigger] activities[i].spec_state_at(
            now_ms,
            PANE_ACTIVITY_ACTIVE_WINDOW_MS,
        ) == ActivityState::Active {
            ActivityState::Active
        } else if exists|i: int| in_workspace(i) && #[trigger] activities[i].spec_state_at(
            now_ms,
            PANE_ACTIVITY_ACTIVE_WINDOW_MS,
        ) == ActivityState::IdleUnseen {
            ActivityState::IdleUnseen
        } else {
            ActivityState::IdleSeen
        },
        needs_attention: exists|i: int| in_workspace(i) && #[trigger] activities[i].needs_attention,
    }
}

pub fn workspace_activity_indicator_at(
    workspace: &WorkspaceSummary,
    activities: &[PaneActivity],
    now_ms: i64,
) -> (r: WorkspaceActivityIndicator)
    ensures
        r == workspace_indicator(activities@, workspace.id@, now_ms),
{
    let id = str_chars(workspace.id.as_str());
    let mut any_active = false;
    let mut any_unseen = false;
    let mut needs_attention = false;
    let mut i: usize = 0;
    while i < activities.len()
        invariant
            i <= activities@.len(),
            id@ == workspace.id@,
            any_active == exists|j: int| 0 <= j < i && activities@[j].workspace_id@ == workspace.id@
                && #[trigger] activities@[j].spec_state_at(now_ms, PANE_ACTIVITY_ACTIVE_WINDOW_MS)
                == ActivityState::Active,
            any_unseen == exists|j: int| 0 <= j < i && activities@[j].workspace_id@ == workspace.id@
                && #[trigger] activities@[j].spec_state_at(now_ms, PANE_ACTIVITY_ACTIVE_WINDOW_MS)
                == ActivityState::IdleUnseen,
            needs_attention == exists|j: int| 0 <= j < i && activities@[j].workspace_id@
                == workspace.id@ && #[trigger] activities@[j].needs_attention,
        decreases activities.len() - i,
    {
        let a = &activities[i];
        if chars_eq(str_chars(a.workspace_id.as_str()).as_slice(), id.as_slice()) {
            match a.state_at(now_ms, PANE_ACTIVITY_ACTIVE_WINDOW_MS) {
                ActivityState::Active => {
                    any_active = true;
                },
                ActivityState::IdleUnseen => {
                    any_unseen = true;
                },
                ActivityState::IdleSeen => {},
            }
            if a.needs_attention {
                needs_attention = true;
            }
        }
        i = i + 1;
    }
    let activity_state = if any_active {
        ActivityState::Active
    } else if any_unseen {
        ActivityState::IdleUnseen
    } else {
        ActivityState::IdleSeen
    };
    WorkspaceActivityIndicator { activity_state, needs_attention }
}

/// The indicator of one pane at `now_ms`; idle-seen without attention when
/// the pane has no record.
/// The workspace's indicator now, by the clock.
pub fn workspace_activity_indicator(workspace: &WorkspaceSummary, activities: &[PaneActivity]) -> (r:
    WorkspaceActivityIndicator)
    ensures
        exists|now: i64| r == workspace_indicator(activities@, workspace.id@, now),
{
    workspace_activity_indicator_at(workspace, activities, crate::clock::now_ms())
}

pub open spec fn pane_indicator(activity: Option<PaneActivity>, now_ms: i64) -> PaneActivityIndicator {
    match activity {
        Some(a) => PaneActivityIndicator {
            activity_state: a.spec_state_at(now_ms, PANE_ACTIVITY_ACTIVE_WINDOW_MS),
            needs_attention: a.needs_attention,
            show_attention: attention_visible(a, now_ms),
        },
        None => PaneActivityIndicator {
            activity_state: ActivityState::IdleSeen,
            needs_attention: false,
            show_attention: false,
        },
    }
}

pub fn pane_activity_indicator_at(
    workspace_id: &str,
    pane_id: &str,
    activities: &[PaneActivity],
    now_ms: i64,
) -> (r: PaneActivityIndicator)
    requires
        unique_keys(activities@),
        forall|i: int| 0 <= i < activities@.len() ==> attention_times_in_range(#[trigger] activities@[i], now_ms),
    ensures
        r == pane_indicator(lookup(activities@, (workspace_id@, pane_id@)), now_ms),
{
    match find_activity(activities, workspace_id, pane_id) {
        Some(i) => {
            proof {
                lemma_lookup_at(activities@, i as int);
            }
            let a = &activities[i];
            PaneActivityIndicator {
                activity_state: a.state_at(now_ms, PANE_ACTIVITY_ACTIVE_WINDOW_MS),
                needs_attention: a.needs_attention,
                show_attention: pane_attention_visible(a, now_ms),
            }
        },
        None => PaneActivityIndicator {
            activity_state: ActivityState::IdleSeen,
            needs_attention: false,
            show_attention: false,
        },
    }
}

/// The shortest time until an attention marker of one of the panes fades.
pub open spec fn min_clear_delay(activities: Seq<PaneActivity>, workspace_id: Seq<char>, pane_ids: Seq<Seq<char>>, now_ms: i64) -> Option<int>
    decreases pane_ids.len(),
{
    if pane_ids.len() == 0 {
        None
    } else {
        let previous = min_clear_delay(activities, workspace_id, pane_ids.drop_last(), now_ms);
        let this = match lookup(activities, (workspace_id, pane_ids.last())) {
            Some(a) => attention_clear_remaining(a, now_ms),
            None => None,
        };
        match (previous, this) {
            (Some(p), Some(t)) => Some(if t < p { t } else { p }),
            (Some(p), None) => Some(p),
            (None, t) => t,
        }
    }
}

/// When the window must redraw the panes of a workspace for an attention
/// marker to fade: the least remaining grace time, in milliseconds.
pub fn pane_attention_clear_delay_at(
    workspace_id: &str,
    pane_ids: &[String],
    activities: &[PaneActivity],
    now_ms: i64,
) -> (r: Option<u64>)
    requires
        unique_keys(activities@),
        forall|i: int| 0 <= i < activities@.len() ==> attention_times_in_range(#[trigger] activities@[i], now_ms),
    ensures
        match r {
            Some(ms) => min_clear_delay(activities@, workspace_id@, pane_ids@.map_values(|p: String| p@), now_ms)
                == Some(ms as int),
            None => min_clear_delay(activities@, workspace_id@, pane_ids@.map_values(|p: String| p@), now_ms) is None,
        },
{
    let ghost ids = pane_ids@.map_values(|p: String| p@);
    let mut best: Option<i64> = None;
    let mut k: usize = 0;
    while k < pane_ids.len()
        invariant
            k <= pane_ids@.len(),
            ids == pane_ids@.map_values(|p: String| p@),
            unique_keys(activities@),
            forall|i: int| 0 <= i < activities@.len() ==> attention_times_in_range(#[trigger] activities@[i], now_ms),
            match best {
                Some(b) => min_clear_delay(activities@, workspace_id@, ids.take(k as int), now_ms) == Some(b as int),
                None => min_clear_delay(activities@, workspace_id@, ids.take(k as int), now_ms) is None,
            },
            forall|b: i64| best == Some(b) ==> 0 < b,
        decreases pane_ids.len() - k,
    {
        proof {
            assert(ids.take(k + 1).drop_last() =~= ids.take(k as int));
            assert(ids.take(k + 1).last() == pane_ids@[k as int]@);
        }
        let this = match find_activity(activities, workspace_id, pane_ids[k].as_str()) {
            Some(i) => {
                proof {
                    lemma_lookup_at(activities@, i as int);
                }
                pane_attention_clear_remaining_ms(&activities[i], now_ms)
            },
            None => None,
        };
        best = match (best, this) {
            (Some(p), Some(t)) => Some(if t < p { t } else { p }),
            (Some(p), None) => Some(p),
            (None, t) => t,
        };
        k = k + 1;
    }
    proof {
        assert(ids.take(pane_ids@.len() as int) =~= ids);
    }
    match best {
        Some(b) => Some(b as u64),
        None => None,
    }
}

// ---------------------------------------------------------------------------
// Renaming a workspace
// ---------------------------------------------------------------------------

/// `a` and `b` agree on everything but the workspace id.
pub open spec fn same_except_workspace(a: PaneActivity, b: PaneActivity) -> bool {
    a == PaneActivity { workspace_id: a.workspace_id, ..b }
}

/// The record that key `k` holds after the workspace `previous` is renamed
/// to `next`, and whether it moved there: the panes of `previous` move to
/// `next` (replacing records of `next` with the same pane); nothing is left
/// under `previous`.
pub open spec fn rekey_source(s: Seq<PaneActivity>, previous: Seq<char>, next: Seq<char>, k: ActivityKey) -> Option<(PaneActivity, bool)> {
    if k.0 == next && has_key(s, (previous, k.1)) {
        Some((lookup(s, (previous, k.1))->0, true))
    } else if k.0 == previous {
        None
    } else {
        match lookup(s, k) {
            Some(a) => Some((a, false)),
            None => None,
        }
    }
}

pub open spec fn rekeyed_entry(found: Option<PaneActivity>, source: Option<(PaneActivity, bool)>, next: Seq<char>) -> bool {
    match (found, source) {
        (None, None) => true,
        (Some(a), Some((src, moved))) => if moved {
            same_except_workspace(a, src) && a.workspace_id@ == next
        } else {
            a == src
        },
        _ => false,
    }
}

fn moved_activity(a: &PaneActivity, next_workspace_id: &str) -> (r: PaneActivity)
    ensures
        same_except_workspace(r, *a),
        r.workspace_id@ == next_workspace_id@,
{
    let mut r = copy_activity(a);
    r.workspace_id = next_workspace_id.to_owned();
    r
}

/// Moves the records of workspace `previous_workspace_id` to
/// `next_workspace_id`, after the workspace was renamed.
pub fn rekey_pane_activity_map(
    activities: &mut Vec<PaneActivity>,
    previous_workspace_id: &str,
    next_workspace_id: &str,
)
    requires
        unique_keys(old(activities)@),
    ensures
        unique_keys(final(activities)@),
        forall|k: ActivityKey|
            #[trigger] rekeyed_entry(
                lookup(final(activities)@, k),
                rekey_source(old(activities)@, previous_workspace_id@, next_workspace_id@, k),
                next_workspace_id@,
            ),
{
    let ghost s = activities@;
    let ghost prev = previous_workspace_id@;
    let ghost next = next_workspace_id@;
    let prev_chars = str_chars(previous_workspace_id);
    let next_chars = str_chars(next_workspace_id);
    let mut out: Vec<PaneActivity> = Vec::new();
    let mut i: usize = 0;
    while i < activities.len()
        invariant
            i <= s.len(),
            s == activities@,
            unique_keys(s),
            prev_chars@ == previous_workspace_id@,
            prev == previous_workspace_id@,
            next == next_workspace_id@,
            unique_keys(out@),
            forall|k: ActivityKey| #[trigger] lookup(out@, k) is Some ==> k.0 == next_workspace_id@
                && has_key(s.take(i as int), (previous_workspace_id@, k.1)),
            forall|k: ActivityKey|
                k.0 == next_workspace_id@ && has_key(s.take(i as int), (previous_workspace_id@, k.1))
                    ==> #[trigger] lookup(out@, k) is Some && same_except_workspace(
                    lookup(out@, k)->0,
                    lookup(s, (previous_workspace_id@, k.1))->0,
                ) && (lookup(out@, k)->0).workspace_id@ == next_workspace_id@,
        decreases s.len() - i,
    {
        let a = &activities[i];
        proof {
            assert(s.take(i + 1) =~= s.take(i as int).push(s[i as int]));
        }
        if chars_eq(str_chars(a.workspace_id.as_str()).as_slice(), prev_chars.as_slice()) {
            let m = moved_activity(a, next_workspace_id);
            let ghost old_out = out@;
            proof {
                if has_key(old_out, key_of(m)) {
                    let j = choose|j: int| 0 <= j < old_out.len() && key_of(#[trigger] old_out[j]) == key_of(m);
                    lemma_lookup_at(old_out, j);
                    assert(has_key(s.take(i as int), (prev, s[i as int].pane_id@)));
                    let q = choose|q: int| 0 <= q < s.take(i as int).len() && key_of(#[trigger] s.take(i as int)[q]) == (prev, s[i as int].pane_id@);
                    assert(s.take(i as int)[q] == s[q]);
                    assert(key_of(s[q]) == key_of(s[i as int]));
                }
            }
            out.push(m);
            proof {
                lemma_lookup_at(s, i as int);
                assert forall|k: ActivityKey| #[trigger] lookup(out@, k) is Some implies k.0 == next
                    && has_key(s.take(i + 1), (prev, k.1)) by {
                    lemma_lookup_push(old_out, m, k);
                    if k == key_of(m) {
                        assert(s.take(i + 1)[i as int] == s[i as int]);
                    } else {
                        assert(lookup(old_out, k) is Some);
                        assert(has_key(s.take(i as int), (prev, k.1)));
                        let q = choose|q: int| 0 <= q < s.take(i as int).len() && key_of(#[trigger] s.take(i as int)[q]) == (prev, k.1);
                        assert(s.take(i + 1)[q] == s.take(i as int)[q]);
                    }
                }
                assert forall|k: ActivityKey|
                    k.0 == next && has_key(s.take(i + 1), (prev, k.1)) implies #[trigger] lookup(out@, k) is Some
                    && same_except_workspace(lookup(out@, k)->0, lookup(s, (prev, k.1))->0)
                    && (lookup(out@, k)->0).workspace_id@ == next by {
                    lemma_lookup_push(old_out, m, k);
                    let q = choose|q: int| 0 <= q < s.take(i + 1).len() && key_of(#[trigger] s.take(i + 1)[q]) == (prev, k.1);
                    if q == i {
                        assert(k == key_of(m));
                    } else {
                        assert(s.take(i + 1)[q] == s.take(i as int)[q]);
                        assert(has_key(s.take(i as int), (prev, k.1)));
                        if k == key_of(m) {
                            assert(key_of(s[q]) == key_of(s[i as int]));
                        }
                    }
                }
                lemma_lookup_push(old_out, m, key_of(m));
            }
        } else {
            proof {
                assert forall|k: ActivityKey| #[trigger] lookup(out@, k) is Some implies k.0 == next
                    && has_key(s.take(i + 1), (prev, k.1)) by {
                    assert(has_key(s.take(i as int), (prev, k.1)));
                    let q = choose|q: int| 0 <= q < s.take(i as int).len() && key_of(#[trigger] s.take(i as int)[q]) == (prev, k.1);
                    assert(s.take(i + 1)[q] == s.take(i as int)[q]);
                }
                assert forall|k: ActivityKey|
                    k.0 == next && has_key(s.take(i + 1), (prev, k.1)) implies #[trigger] lookup(out@, k) is Some
                    && same_except_workspace(lookup(out@, k)->0, lookup(s, (prev, k.1))->0)
                    && (lookup(out@, k)->0).workspace_id@ == next by {
                    let q = choose|q: int| 0 <= q < s.take(i + 1).len() && key_of(#[trigger] s.take(i + 1)[q]) == (prev, k.1);
                    if q == i {
                        assert(s[i as int].workspace_id@ == prev);
                    } else {
                        assert(s.take(i + 1)[q] == s.take(i as int)[q]);
                        assert(has_key(s.take(i as int), (prev, k.1)));
                    }
                }
            }
        }
        i = i + 1;
    }
    proof {
        assert(s.take(s.len() as int) =~= s);
    }
    let ghost moved_out = out@;
    let mut j: usize = 0;
    while j < activities.len()
        invariant
            j <= s.len(),
            s == activities@,
            unique_keys(s),
            prev_chars@ == previous_workspace_id@,
            prev == previous_workspace_id@,
            next == next_workspace_id@,
            next_chars@ == next_workspace_id@,
            unique_keys(out@),
            forall|k: ActivityKey| #[trigger] lookup(moved_out, k) is Some ==> k.0 == next_workspace_id@
                && has_key(s, (previous_workspace_id@, k.1)),
            forall|k: ActivityKey|
                k.0 == next_workspace_id@ && has_key(s, (previous_workspace_id@, k.1)) ==> #[trigger] lookup(
                    moved_out,
                    k,
                ) is Some && same_except_workspace(
                    lookup(moved_out, k)->0,
                    lookup(s, (previous_workspace_id@, k.1))->0,
                ) && (lookup(moved_out, k)->0).workspace_id@ == next_workspace_id@,
            forall|k: ActivityKey|
                #[trigger] lookup(out@, k) == if lookup(moved_out, k) is Some {
                    lookup(moved_out, k)
                } else if k.0 != previous_workspace_id@ && has_key(s.take(j as int), k) {
                    lookup(s, k)
                } else {
                    None
                },
        decreases s.len() - j,
    {
        let a = &activities[j];
        proof {
            assert(s.take(j + 1) =~= s.take(j as int).push(s[j as int]));
            lemma_lookup_at(s, j as int);
        }
        let in_previous = chars_eq(str_chars(a.workspace_id.as_str()).as_slice(), prev_chars.as_slice());
        let in_next = chars_eq(str_chars(a.workspace_id.as_str()).as_slice(), next_chars.as_slice());
        let previous_exists = find_activity(activities.as_slice(), previous_workspace_id, a.pane_id.as_str()).is_some();
        let replaced = in_next && previous_exists;
        if !in_previous && !replaced {
            let c = copy_activity(a);
            let ghost old_out = out@;
            proof {
                if has_key(old_out, key_of(c)) {
                    let q = choose|q: int| 0 <= q < old_out.len() && key_of(#[trigger] old_out[q]) == key_of(c);
                    lemma_lookup_at(old_out, q);
                    if lookup(moved_out, key_of(c)) is Some {
                    } else {
                        let r = choose|r: int| 0 <= r < s.take(j as int).len() && key_of(#[trigger] s.take(j as int)[r]) == key_of(c);
                        assert(s.take(j as int)[r] == s[r]);
                        assert(key_of(s[r]) == key_of(s[j as int]));
                    }
                }
            }
            out.push(c);
            proof {
                assert forall|k: ActivityKey| #[trigger] lookup(out@, k) == if lookup(moved_out, k) is Some {
                    lookup(moved_out, k)
                } else if k.0 != prev && has_key(s.take(j + 1), k) {
                    lookup(s, k)
                } else {
                    None
                } by {
                    lemma_lookup_push(old_out, c, k);
                    if k == key_of(c) {
                        assert(s.take(j + 1)[j as int] == s[j as int]);
                        assert(has_key(s.take(j + 1), k));
                        if lookup(moved_out, k) is Some {
                            assert(k.0 == next && has_key(s, (prev, k.1)));
                            assert(false);
                        }
                    } else if has_key(s.take(j + 1), k) && !has_key(s.take(j as int), k) {
                        let r = choose|r: int| 0 <= r < s.take(j + 1).len() && key_of(#[trigger] s.take(j + 1)[r]) == k;
                        if r < j {
                            assert(s.take(j + 1)[r] == s.take(j as int)[r]);
                        } else {
                            assert(s.take(j + 1)[r] == s[j as int]);
                            assert(key_of(s[j as int]) == k);
                        }
                    } else if has_key(s.take(j as int), k) {
                        let r = choose|r: int| 0 <= r < s.take(j as int).len() && key_of(#[trigger] s.take(j as int)[r]) == k;
                        assert(s.take(j + 1)[r] == s.take(j as int)[r]);
                    }
                }
                lemma_lookup_push(old_out, c, key_of(c));
            }
        } else {
            proof {
                assert forall|k: ActivityKey| #[trigger] lookup(out@, k) == if lookup(moved_out, k) is Some {
                    lookup(moved_out, k)
                } else if k.0 != prev && has_key(s.take(j + 1), k) {
                    lookup(s, k)
                } else {
                    None
                } by {
                    if has_key(s.take(j + 1), k) && !has_key(s.take(j as int), k) {
                        let r = choose|r: int| 0 <= r < s.take(j + 1).len() && key_of(#[trigger] s.take(j + 1)[r]) == k;
                        if r < j {
                            assert(s.take(j + 1)[r] == s.take(j as int)[r]);
                        } else {
                            assert(s.take(j + 1)[r] == s[j as int]);
                            assert(key_of(s[j as int]) == k);
                            if !in_previous {
                                assert(has_key(s, (prev, k.1)));
                            }
                        }
                    } else if has_key(s.take(j as int), k) {
                        let r = choose|r: int| 0 <= r < s.take(j as int).len() && key_of(#[trigger] s.take(j as int)[r]) == k;
                        assert(s.take(j + 1)[r] == s.take(j as int)[r]);
                    }
                }
            }
        }
        j = j + 1;
    }
    proof {
        assert(s.take(s.len() as int) =~= s);
        assert forall|k: ActivityKey| #[trigger] rekeyed_entry(
            lookup(out@, k),
            rekey_source(s, prev, next, k),
            next,
        ) by {
            if k.0 == next && has_key(s, (prev, k.1)) {
            } else if lookup(moved_out, k) is Some {
            } else if k.0 != prev && has_key(s, k) {
                let r = choose|r: int| 0 <= r < s.len() && key_of(#[trigger] s[r]) == k;
                lemma_lookup_at(s, r);
            }
        }
    }
    *activities = out;
}

// ---------------------------------------------------------------------------
// Tmux polls
// ---------------------------------------------------------------------------

/// The tmux activity time that a poll reports for a pane: the window's
/// where tmux gave one, else the session's.
pub open spec fn polled_activity_at_s(window_activity_at_s: Option<i64>, session_activity_at_s: Option<i64>) -> Option<i64> {
    match window_activity_at_s {
        Some(t) => Some(t),
        None => session_activity_at_s,
    }
}

/// A tmux poll of one terminal pane at `now_ms`: the pane's record (a fresh
/// one, dated `now_ms`, where it has none yet) takes the observation; the
/// updated record is returned and every other record is left as it was.
pub fn observe_tmux_pane(
    activities: &mut Vec<PaneActivity>,
    workspace_id: &str,
    pane_id: &str,
    now_ms: i64,
    window_activity_at_s: Option<i64>,
    session_activity_at_s: Option<i64>,
    screen_fingerprint: Option<String>,
) -> (r: PaneActivity)
    requires
        unique_keys(old(activities)@),
    ensures
        ({
            let k = (workspace_id@, pane_id@);
            let before = match lookup(old(activities)@, k) {
                Some(a) => a,
                None => fresh_activity(r.workspace_id, r.pane_id, now_ms),
            };
            &&& key_of(r) == k
            &&& r == tmux_observed(
                before,
                now_ms,
                polled_activity_at_s(window_activity_at_s, session_activity_at_s),
                screen_fingerprint,
            )
            &&& unique_keys(final(activities)@)
            &&& lookup(final(activities)@, k) == Some(r)
            &&& forall|k2: ActivityKey| k2 != k ==> #[trigger] lookup(final(activities)@, k2) == lookup(
                old(activities)@,
                k2,
            )
        }),
{
    let ghost k = (workspace_id@, pane_id@);
    let ghost s = activities@;
    let at_s = match window_activity_at_s {
        Some(t) => Some(t),
        None => session_activity_at_s,
    };
    match find_activity(activities.as_slice(), workspace_id, pane_id) {
        Some(i) => {
            let mut updated = copy_activity(&activities[i]);
            proof {
                lemma_lookup_at(s, i as int);
            }
            updated.record_tmux_observation(now_ms, at_s, screen_fingerprint);
            let result = copy_activity(&updated);
            activities.set(i, updated);
            proof {
                assert forall|k2: ActivityKey| #[trigger] lookup(activities@, k2) == if k2 == k {
                    Some(result)
                } else {
                    lookup(s, k2)
                } by {
                    lemma_lookup_update(s, i as int, result, k2);
                }
                lemma_lookup_update(s, i as int, result, k);
            }
            result
        },
        None => {
            let mut fresh = PaneActivity::new(workspace_id, pane_id, now_ms);
            let ghost start = fresh;
            proof {
                assert(start == fresh_activity(start.workspace_id, start.pane_id, now_ms));
            }
            fresh.record_tmux_observation(now_ms, at_s, screen_fingerprint);
            let result = copy_activity(&fresh);
            activities.push(fresh);
            proof {
                assert forall|k2: ActivityKey| #[trigger] lookup(activities@, k2) == if k2 == k {
                    Some(result)
                } else {
                    lookup(s, k2)
                } by {
                    lemma_lookup_push(s, result, k2);
                }
                lemma_lookup_push(s, result, k);
            }
            result
        },
    }
}

/// The user saw a pane at `seen_at_ms`: the pane's record (a fresh one,
/// dated `seen_at_ms`, where it has none yet) records the look; the updated
/// record is returned and every other record is left as it was.
pub fn record_pane_seen(activities: &mut Vec<PaneActivity>, workspace_id: &str, pane_id: &str, seen_at_ms: i64) -> (r:
    PaneActivity)
    requires
        unique_keys(old(activities)@),
    ensures
        ({
            let k = (workspace_id@, pane_id@);
            let before = match lookup(old(activities)@, k) {
                Some(a) => a,
                None => fresh_activity(r.workspace_id, r.pane_id, seen_at_ms),
            };
            &&& key_of(r) == k
            &&& r == seen_recorded(before, seen_at_ms)
            &&& unique_keys(final(activities)@)
            &&& lookup(final(activities)@, k) == Some(r)
            &&& forall|k2: ActivityKey| k2 != k ==> #[trigger] lookup(final(activities)@, k2) == lookup(
                old(activities)@,
                k2,
            )
        }),
{
    let ghost k = (workspace_id@, pane_id@);
    let ghost s = activities@;
    match find_activity(activities.as_slice(), workspace_id, pane_id) {
        Some(i) => {
            let mut updated = copy_activity(&activities[i]);
            proof {
                lemma_lookup_at(s, i as int);
            }
            updated.record_seen(seen_at_ms);
            let result = copy_activity(&updated);
            activities.set(i, updated);
            proof {
                assert forall|k2: ActivityKey| #[trigger] lookup(activities@, k2) == if k2 == k {
                    Some(result)
                } else {
                    lookup(s, k2)
                } by {
                    lemma_lookup_update(s, i as int, result, k2);
                }
                lemma_lookup_update(s, i as int, result, k);
            }
            result
        },
        None => {
            let mut fresh = PaneActivity::new(workspace_id, pane_id, seen_at_ms);
            let ghost start = fresh;
            proof {
                assert(start == fresh_activity(start.workspace_id, start.pane_id, seen_at_ms));
            }
            fresh.record_seen(seen_at_ms);
            let result = copy_activity(&fresh);
            activities.push(fresh);
            proof {
                assert forall|k2: ActivityKey| #[trigger] lookup(activities@, k2) == if k2 == k {
                    Some(result)
                } else {
                    lookup(s, k2)
                } by {
                    lemma_lookup_push(s, result, k2);
                }
                lemma_lookup_push(s, result, k);
            }
            result
        },
    }
}

} // verus!
