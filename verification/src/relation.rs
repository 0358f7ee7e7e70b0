//! Finding how a workspace stands to its baselines, one `jj` query at a
//! time: the local baseline is the default workspace's commit, the remote
//! one the first of the workspace's bookmarks that a remote tracks, else
//! `trunk()`. The caller runs each query the machine asks for and hands
//! back what it gave.

use vstd::prelude::*;
use crate::types::BaselineRelation;
use crate::jj::{
    DEFAULT_WORKSPACE_REVSET, LOCAL_AHEAD_REVSET, LOCAL_BEHIND_REVSET, remote_bookmark_revset,
    remote_bookmark_revset_text, ahead_revset, ahead_revset_text, behind_revset, behind_revset_text,
    remote_bookmark_detail_from_output, remote_detail, string_views,
};
use crate::text::opt_view;

verus! {

/// The revset that tells whether the repository has a `trunk()`.
pub const TRUNK_PRESENT_REVSET: &'static str = "present(trunk()) ~ root()";

pub const TRUNK_AHEAD_REVSET: &'static str = "trunk()..@ ~ empty()";

pub const TRUNK_BEHIND_REVSET: &'static str = "@..trunk() ~ empty()";

/// Where the search for a baseline stands.
#[derive(Clone, Debug, PartialEq, Eq)]
pub enum RelationState {
    /// Waiting for the count of the default workspace's commit.
    CheckingDefault,
    /// Waiting for the count of the remote bookmark tracking bookmark `i`.
    CheckingBookmark(usize),
    /// Waiting for the remote bookmarks at the one tracking bookmark `i`.
    ReadingDetail(usize),
    /// Waiting for whether `trunk()` is there.
    CheckingTrunk,
    /// Waiting for the count of commits ahead of the baseline.
    CountingAhead { target_name: String, detail_name: Option<String>, behind_revset: String },
    /// Waiting for the count of commits behind the baseline.
    CountingBehind { target_name: String, detail_name: Option<String>, ahead_count: i64 },
    /// Done.
    Finished,
}

/// What the caller is asked to do next.
#[derive(Clone, Debug, PartialEq, Eq)]
pub enum RelationAction {
    /// Count the commits of a revset (`jj log -r <revset> --count`).
    Count(String),
    /// List the remote bookmarks at a revset, `name<TAB>remote` per line.
    ReadRemoteBookmarks(String),
    /// The baseline found, if any.
    Done(Option<BaselineRelation>),
}

/// What the last query gave.
#[derive(Clone, Debug, PartialEq, Eq)]
pub enum RelationEvent {
    Count(i64),
    Output(String),
}

/// The state after bookmark `i` of `len` has a remote count of `c`: exactly
/// one tracked remote bookmark makes it the baseline; else the next
/// bookmark is tried, and after the last, `trunk()`.
pub open spec fn after_bookmark_count(len: nat, i: usize, c: i64) -> RelationState {
    if c == 1 {
        RelationState::ReadingDetail(i)
    } else if i + 1 < len {
        RelationState::CheckingBookmark((i + 1) as usize)
    } else {
        RelationState::CheckingTrunk
    }
}

/// `action` asks to count `revset`.
pub open spec fn counts(action: RelationAction, revset: Seq<char>) -> bool {
    action matches RelationAction::Count(r) && r@ == revset
}

/// `state` counts toward a baseline named `target` with detail `detail`,
/// next asking for `behind`.
pub open spec fn counting_ahead(state: RelationState, target: Seq<char>, detail: Seq<char>, behind: Seq<char>) -> bool {
    state matches RelationState::CountingAhead { target_name, detail_name, behind_revset } && target_name@ == target
        && opt_view(detail_name) == Some(detail) && behind_revset@ == behind
}

/// The first query for the local baseline.
pub fn local_relation_start() -> (r: (RelationState, RelationAction))
    ensures
        r.0 == RelationState::CheckingDefault,
        counts(r.1, DEFAULT_WORKSPACE_REVSET@),
        forall|len: nat| waits_for(r.0, r.1, len),
{
    (RelationState::CheckingDefault, RelationAction::Count(DEFAULT_WORKSPACE_REVSET.to_owned()))
}

/// The first query for the remote baseline: the first bookmark's tracked
/// remote bookmark, or `trunk()` when there is no bookmark.
pub fn remote_relation_start(bookmarks: &Vec<String>) -> (r: (RelationState, RelationAction))
    ensures
        bookmarks@.len() > 0 ==> r.0 == RelationState::CheckingBookmark(0) && counts(
            r.1,
            remote_bookmark_revset_text(bookmarks@[0]@),
        ),
        bookmarks@.len() == 0 ==> r.0 == RelationState::CheckingTrunk && counts(r.1, TRUNK_PRESENT_REVSET@),
        waits_for(r.0, r.1, bookmarks@.len()),
{
    if bookmarks.len() > 0 {
        (RelationState::CheckingBookmark(0), RelationAction::Count(remote_bookmark_revset(bookmarks[0].as_str())))
    } else {
        (RelationState::CheckingTrunk, RelationAction::Count(TRUNK_PRESENT_REVSET.to_owned()))
    }
}

/// `state` waits for a count, with `len` bookmarks.
pub open spec fn waits_for_count(state: RelationState, len: nat) -> bool {
    match state {
        RelationState::CheckingBookmark(i) => i < len,
        RelationState::ReadingDetail(_) => false,
        RelationState::Finished => false,
        _ => true,
    }
}

/// `state` waits for the remote bookmarks that a query listed.
pub open spec fn waits_for_output(state: RelationState, len: nat) -> bool {
    match state {
        RelationState::ReadingDetail(i) => i < len,
        _ => false,
    }
}

/// The answer that `state` waits for is `event`.
pub open spec fn expects(state: RelationState, event: RelationEvent, len: nat) -> bool {
    match event {
        RelationEvent::Count(_) => waits_for_count(state, len),
        RelationEvent::Output(_) => waits_for_output(state, len),
    }
}

/// `state` waits for the answer to `action`: a count after `Count`, the
/// listed bookmarks after `ReadRemoteBookmarks`, and nothing once `Done`.
pub open spec fn waits_for(state: RelationState, action: RelationAction, len: nat) -> bool {
    match action {
        RelationAction::Count(_) => waits_for_count(state, len),
        RelationAction::ReadRemoteBookmarks(_) => waits_for_output(state, len),
        RelationAction::Done(_) => state == RelationState::Finished,
    }
}

/// The next state and query after `event` answers the query of `state`.
pub open spec fn relation_step_holds(
    bookmarks: Seq<Seq<char>>,
    state: RelationState,
    event: RelationEvent,
    next: RelationState,
    action: RelationAction,
) -> bool {
    match (state, event) {
        (RelationState::CheckingDefault, RelationEvent::Count(c)) => if c == 0 {
            next == RelationState::Finished && action == RelationAction::Done(None)
        } else {
            counting_ahead(next, "Default"@, "default@"@, LOCAL_BEHIND_REVSET@) && counts(action, LOCAL_AHEAD_REVSET@)
        },
        (RelationState::CheckingBookmark(i), RelationEvent::Count(c)) => {
            &&& next == after_bookmark_count(bookmarks.len(), i, c)
            &&& match next {
                RelationState::ReadingDetail(_) => action matches RelationAction::ReadRemoteBookmarks(r) && r@
                    == remote_bookmark_revset_text(bookmarks[i as int]),
                RelationState::CheckingBookmark(j) => counts(action, remote_bookmark_revset_text(bookmarks[j as int])),
                _ => counts(action, TRUNK_PRESENT_REVSET@),
            }
        },
        (RelationState::ReadingDetail(i), RelationEvent::Output(o)) => {
            let revset = remote_bookmark_revset_text(bookmarks[i as int]);
            let detail = match remote_detail(o@, bookmarks[i as int]) {
                Some(d) => d,
                None => revset,
            };
            counting_ahead(next, "Remote"@, detail, behind_revset_text(revset)) && counts(
                action,
                ahead_revset_text(revset),
            )
        },
        (RelationState::CheckingTrunk, RelationEvent::Count(c)) => if c == 1 {
            counting_ahead(next, "Remote"@, "trunk()"@, TRUNK_BEHIND_REVSET@) && counts(action, TRUNK_AHEAD_REVSET@)
        } else {
            next == RelationState::Finished && action == RelationAction::Done(None)
        },
        (RelationState::CountingAhead { target_name, detail_name, behind_revset }, RelationEvent::Count(a)) => {
            &&& next == (RelationState::CountingBehind { target_name, detail_name, ahead_count: a })
            &&& action == RelationAction::Count(behind_revset)
        },
        (RelationState::CountingBehind { target_name, detail_name, ahead_count }, RelationEvent::Count(b)) => {
            &&& next == RelationState::Finished
            &&& action == RelationAction::Done(
                Some(BaselineRelation { target_name, detail_name, ahead_count, behind_count: b }),
            )
        },
        _ => false,
    }
}

/// One step of the search: the answer `event` to the query of `state`
/// gives the next state and query.
pub fn relation_step(bookmarks: &Vec<String>, state: RelationState, event: RelationEvent) -> (r: (
    RelationState,
    RelationAction,
))
    requires
        expects(state, event, bookmarks@.len()),
    ensures
        relation_step_holds(string_views(bookmarks@), state, event, r.0, r.1),
        waits_for(r.0, r.1, bookmarks@.len()),
{
    let ghost names = string_views(bookmarks@);
    match (state, event) {
        (RelationState::CheckingDefault, RelationEvent::Count(c)) => if c == 0 {
            (RelationState::Finished, RelationAction::Done(None))
        } else {
            (
                RelationState::CountingAhead {
                    target_name: "Default".to_owned(),
                    detail_name: Some("default@".to_owned()),
                    behind_revset: LOCAL_BEHIND_REVSET.to_owned(),
                },
                RelationAction::Count(LOCAL_AHEAD_REVSET.to_owned()),
            )
        },
        (RelationState::CheckingBookmark(i), RelationEvent::Count(c)) => {
            assert(names[i as int] == bookmarks@[i as int]@);
            if c == 1 {
                (
                    RelationState::ReadingDetail(i),
                    RelationAction::ReadRemoteBookmarks(remote_bookmark_revset(bookmarks[i].as_str())),
                )
            } else if bookmarks.len() - i > 1 {
                assert(names[i + 1] == bookmarks@[i + 1]@);
                (
                    RelationState::CheckingBookmark(i + 1),
                    RelationAction::Count(remote_bookmark_revset(bookmarks[i + 1].as_str())),
                )
            } else {
                (RelationState::CheckingTrunk, RelationAction::Count(TRUNK_PRESENT_REVSET.to_owned()))
            }
        },
        (RelationState::ReadingDetail(i), RelationEvent::Output(o)) => {
            assert(names[i as int] == bookmarks@[i as int]@);
            let bookmark = bookmarks[i].as_str();
            let revset = remote_bookmark_revset(bookmark);
            let detail = match remote_bookmark_detail_from_output(o.as_str(), bookmark) {
                Some(d) => d,
                None => revset.clone(),
            };
            let ahead = ahead_revset(revset.as_str());
            let behind = behind_revset(revset.as_str());
            (
                RelationState::CountingAhead {
                    target_name: "Remote".to_owned(),
                    detail_name: Some(detail),
                    behind_revset: behind,
                },
                RelationAction::Count(ahead),
            )
        },
        (RelationState::CheckingTrunk, RelationEvent::Count(c)) => if c == 1 {
            (
                RelationState::CountingAhead {
                    target_name: "Remote".to_owned(),
                    detail_name: Some("trunk()".to_owned()),
                    behind_revset: TRUNK_BEHIND_REVSET.to_owned(),
                },
                RelationAction::Count(TRUNK_AHEAD_REVSET.to_owned()),
            )
        } else {
            (RelationState::Finished, RelationAction::Done(None))
        },
        (RelationState::CountingAhead { target_name, detail_name, behind_revset }, RelationEvent::Count(a)) => {
            (
                RelationState::CountingBehind { target_name, detail_name, ahead_count: a },
                RelationAction::Count(behind_revset),
            )
        },
        (RelationState::CountingBehind { target_name, detail_name, ahead_count }, RelationEvent::Count(b)) => {
            (
                RelationState::Finished,
                RelationAction::Done(Some(BaselineRelation { target_name, detail_name, ahead_count, behind_count: b })),
            )
        },
        _ => {
            proof {
                assert(false);
            }
            (RelationState::Finished, RelationAction::Done(None))
        },
    }
}

/// Where the bookmark checks lead when bookmark `k` has the remote count
/// `counts[k]`, from the check of bookmark `i` on.
pub open spec fn bookmark_scan(counts: Seq<i64>, i: usize) -> RelationState
    decreases counts.len() - i,
{
    if i >= counts.len() {
        RelationState::CheckingTrunk
    } else {
        match after_bookmark_count(counts.len(), i, counts[i as int]) {
            RelationState::CheckingBookmark(j) => if j > i {
                bookmark_scan(counts, j)
            } else {
                RelationState::CheckingTrunk
            },
            other => other,
        }
    }
}

/// The remote baseline is the tracked remote bookmark of the first
/// bookmark whose remote count is one; where there is none, the checks go
/// on to `trunk()`.
pub proof fn lemma_first_tracked_bookmark_wins(counts: Seq<i64>, k: usize)
    requires
        counts.len() <= usize::MAX,
    ensures
        bookmark_scan(counts, 0) == RelationState::ReadingDetail(k) <==> (k < counts.len() && counts[k as int] == 1
            && forall|j: int| 0 <= j < k ==> counts[j] != 1),
        bookmark_scan(counts, 0) == RelationState::CheckingTrunk <==> forall|j: int| 0 <= j < counts.len() ==> counts[j]
            != 1,
{
    lemma_scan_from(counts, 0, k);
}

proof fn lemma_scan_from(counts: Seq<i64>, i: usize, k: usize)
    requires
        counts.len() <= usize::MAX,
    ensures
        bookmark_scan(counts, i) == RelationState::ReadingDetail(k) <==> (i <= k < counts.len() && counts[k as int] == 1
            && forall|j: int| i <= j < k ==> counts[j] != 1),
        bookmark_scan(counts, i) == RelationState::CheckingTrunk <==> forall|j: int| i <= j < counts.len() ==> counts[j]
            != 1,
    decreases counts.len() - i,
{
    if i >= counts.len() {
        assert(bookmark_scan(counts, i) == RelationState::CheckingTrunk);
    } else if counts[i as int] == 1 {
        assert(bookmark_scan(counts, i) == RelationState::ReadingDetail(i));
        if i < k && k < counts.len() && (forall|j: int| i <= j < k ==> counts[j] != 1) {
            assert(counts[i as int] != 1);
        }
        assert(!(forall|j: int| i <= j < counts.len() ==> counts[j] != 1)) by {
            assert(counts[i as int] == 1);
        }
    } else if i + 1 < counts.len() {
        let next = (i + 1) as usize;
        lemma_scan_from(counts, next, k);
        assert(bookmark_scan(counts, i) == bookmark_scan(counts, next));
        if i <= k && k < counts.len() && counts[k as int] == 1 && (forall|j: int| i <= j < k ==> counts[j] != 1) {
            assert(k != i);
        }
        if forall|j: int| next <= j < counts.len() ==> counts[j] != 1 {
            assert forall|j: int| i <= j < counts.len() implies counts[j] != 1 by {
                if j != i {
                    assert(next <= j);
                }
            }
        }
    } else {
        assert(bookmark_scan(counts, i) == RelationState::CheckingTrunk);
        assert forall|j: int| i <= j < counts.len() implies counts[j] != 1 by {
            assert(j == i);
        }
    }
}

} // verus!
