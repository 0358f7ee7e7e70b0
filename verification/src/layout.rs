//! The panes of a workspace and where they stand: the state of each pane,
//! columns of panes, the order of the center columns, the columns pinned
//! left and right, and the active pane.
//!
//! Pixel widths and height fractions are kept by the window beside this
//! layout; here a column is its id and its panes, top to bottom.

use vstd::prelude::*;
use crate::clock::now_ms;
use crate::types::{
    LayoutError, exit_status_label, terminal_exit_status_label, PaneType, TerminalKind, TerminalPanePayload,
    NotePanePayload, DiffPanePayload, SessionState, TerminalExitBehavior, terminal_title, terminal_title_text,
    terminal_command, terminal_command_text, default_shell_type_name, plain_name, DEFAULT_TERMINAL_WIDTH_CHARS,
};
use crate::text::{owned, str_chars, push_all, string_from_chars, concat3};

verus! {

/// The version of the layout format.
pub const LAYOUT_VERSION: u32 = 2;

/// A column: its id and its panes, top to bottom.
#[derive(Clone, Debug, PartialEq, Eq)]
pub struct LayoutColumn {
    pub id: String,
    pub pane_ids: Vec<String>,
}

/// A browser pane's page, as far as the layout keeps it (its zoom factor is
/// kept by the window).
#[derive(Clone, Debug, PartialEq, Eq)]
pub struct BrowserPanePayload {
    pub url: String,
    pub title: String,
    pub pending_popup_id: Option<String>,
}

/// What a pane shows.
#[derive(Clone, Debug, PartialEq, Eq)]
pub enum PanePayload {
    Terminal(TerminalPanePayload),
    Note(NotePanePayload),
    Browser(BrowserPanePayload),
    Diff(DiffPanePayload),
}

/// A pane: its id, its type, its title and what it shows.
#[derive(Clone, Debug, PartialEq, Eq)]
pub struct PaneState {
    pub id: String,
    pub pane_type: PaneType,
    pub title: String,
    pub payload: PanePayload,
}

/// The layout of a workspace's panes. `panes` holds the state of each pane,
/// one entry per id (see `panes_unique`), in the order the panes were added.
#[derive(Clone, Debug, PartialEq, Eq)]
pub struct WorkspaceLayout {
    pub layout_version: u32,
    pub workspace_id: String,
    pub active_pane_id: Option<String>,
    pub panes: Vec<PaneState>,
    pub columns: Vec<LayoutColumn>,
    pub center_column_ids: Vec<String>,
    pub pinned_left_column_id: Option<String>,
    pub pinned_right_column_id: Option<String>,
    pub updated_at: i64,
}

pub type ColumnView = (Seq<char>, Seq<Seq<char>>);

pub open spec fn ids(v: Seq<String>) -> Seq<Seq<char>> {
    v.map_values(|s: String| s@)
}

pub open spec fn column_view(c: LayoutColumn) -> ColumnView {
    (c.id@, ids(c.pane_ids@))
}

pub open spec fn columns_view(cols: Seq<LayoutColumn>) -> Seq<ColumnView> {
    cols.map_values(|c: LayoutColumn| column_view(c))
}

/// The ids of the panes, in order.
pub open spec fn pane_ids_of(panes: Seq<PaneState>) -> Seq<Seq<char>> {
    panes.map_values(|p: PaneState| p.id@)
}

/// No two panes share an id: the panes are a map from id to pane state.
pub open spec fn panes_unique(panes: Seq<PaneState>) -> bool {
    pane_ids_of(panes).no_duplicates()
}

/// The state of the pane with id `id`.
pub open spec fn pane_state(panes: Seq<PaneState>, id: Seq<char>) -> Option<PaneState> {
    match first_index(pane_ids_of(panes), id) {
        Some(k) => Some(panes[k]),
        None => None,
    }
}

pub open spec fn opt_id(o: Option<String>) -> Option<Seq<char>> {
    match o {
        Some(s) => Some(s@),
        None => None,
    }
}

/// A layout with no panes, dated `now`.
/// `r` is the empty layout of workspace `workspace_id`, dated `now`.
pub open spec fn is_empty_layout(r: WorkspaceLayout, workspace_id: Seq<char>, now: i64) -> bool {
    &&& r.layout_version == LAYOUT_VERSION
    &&& r.workspace_id@ == workspace_id
    &&& r.active_pane_id is None
    &&& r.panes@.len() == 0
    &&& r.columns@.len() == 0
    &&& r.center_column_ids@.len() == 0
    &&& r.pinned_left_column_id is None
    &&& r.pinned_right_column_id is None
    &&& r.updated_at == now
}

pub fn create_default_snapshot_at(workspace_id: &str, now: i64) -> (r: WorkspaceLayout)
    ensures
        is_empty_layout(r, workspace_id@, now),
{
    WorkspaceLayout {
        layout_version: LAYOUT_VERSION,
        workspace_id: workspace_id.to_owned(),
        active_pane_id: None,
        panes: Vec::new(),
        columns: Vec::new(),
        center_column_ids: Vec::new(),
        pinned_left_column_id: None,
        pinned_right_column_id: None,
        updated_at: now,
    }
}

/// A layout with no panes, dated by the clock.
pub fn create_default_snapshot(workspace_id: &str) -> (r: WorkspaceLayout)
    ensures
        r.layout_version == LAYOUT_VERSION,
        r.workspace_id@ == workspace_id@,
        r.active_pane_id is None,
        r.panes@.len() == 0,
        r.columns@.len() == 0,
        r.center_column_ids@.len() == 0,
        r.pinned_left_column_id is None,
        r.pinned_right_column_id is None,
{
    create_default_snapshot_at(workspace_id, now_ms())
}

// ---------------------------------------------------------------------------
// Adding a pane
// ---------------------------------------------------------------------------

/// The panes once `pane` is added: it takes the place of the pane with its
/// id, or comes last.
pub open spec fn with_pane_state(panes: Seq<PaneState>, pane: PaneState) -> Seq<PaneState> {
    match first_index(pane_ids_of(panes), pane.id@) {
        Some(k) => panes.update(k, pane),
        None => panes.push(pane),
    }
}

/// The position of the first column with id `id`.
pub open spec fn index_of_column(cols: Seq<ColumnView>, id: Seq<char>) -> Option<int>
    decreases cols.len(),
{
    if cols.len() == 0 {
        None
    } else if cols[0].0 == id {
        Some(0)
    } else {
        match index_of_column(cols.drop_first(), id) {
            Some(k) => Some(k + 1),
            None => None,
        }
    }
}

proof fn lemma_index_of_column(cols: Seq<ColumnView>, id: Seq<char>)
    ensures
        match index_of_column(cols, id) {
            Some(k) => 0 <= k < cols.len() && cols[k].0 == id && forall|j: int| 0 <= j < k ==> cols[j].0 != id,
            None => forall|j: int| 0 <= j < cols.len() ==> cols[j].0 != id,
        },
    decreases cols.len(),
{
    if cols.len() > 0 {
        lemma_index_of_column(cols.drop_first(), id);
        if cols[0].0 != id {
            assert forall|j: int| 1 <= j < cols.len() implies cols[j] == cols.drop_first()[j - 1] by {}
        }
    }
}

fn find_column(cols: &Vec<LayoutColumn>, id: &String) -> (r: Option<usize>)
    ensures
        match r {
            Some(k) => k < cols.len() && index_of_column(columns_view(cols@), id@) == Some(k as int),
            None => index_of_column(columns_view(cols@), id@) is None,
        },
{
    let mut k: usize = 0;
    while k < cols.len()
        invariant
            k <= cols.len(),
            forall|j: int| 0 <= j < k ==> (#[trigger] cols@[j]).id@ != id@,
        decreases cols.len() - k,
    {
        if cols[k].id.eq(id) {
            proof {
                let cv = columns_view(cols@);
                lemma_index_of_column(cv, id@);
                assert(cv[k as int].0 == id@);
                match index_of_column(cv, id@) {
                    Some(q) => {
                        if q < k {
                            assert(cv[q].0 == cols@[q].id@);
                            assert(cols@[q].id@ != id@);
                        }
                    },
                    None => {},
                }
            }
            return Some(k);
        }
        k = k + 1;
    }
    proof {
        let cv = columns_view(cols@);
        lemma_index_of_column(cv, id@);
        match index_of_column(cv, id@) {
            Some(q) => {
                assert(cv[q].0 == cols@[q].id@);
                assert(cols@[q].id@ != id@);
            },
            None => {},
        }
    }
    None
}

/// The position of the pane with id `id`.
pub fn find_pane_index(panes: &Vec<PaneState>, id: &String) -> (r: Option<usize>)
    ensures
        match r {
            Some(k) => k < panes.len() && first_index(pane_ids_of(panes@), id@) == Some(k as int),
            None => first_index(pane_ids_of(panes@), id@) is None,
        },
{
    let mut k: usize = 0;
    while k < panes.len()
        invariant
            k <= panes.len(),
            forall|j: int| 0 <= j < k ==> (#[trigger] panes@[j]).id@ != id@,
        decreases panes.len() - k,
    {
        if panes[k].id.eq(id) {
            proof {
                let s = pane_ids_of(panes@);
                lemma_first_index(s, id@);
                assert(s[k as int] == id@);
                match first_index(s, id@) {
                    Some(q) => {
                        if q < k {
                            assert(panes@[q].id@ != id@);
                        }
                    },
                    None => {},
                }
            }
            return Some(k);
        }
        k = k + 1;
    }
    proof {
        let s = pane_ids_of(panes@);
        lemma_first_index(s, id@);
        match first_index(s, id@) {
            Some(q) => {
                assert(panes@[q].id@ != id@);
            },
            None => {},
        }
    }
    None
}

fn has_pane(panes: &Vec<PaneState>, id: &String) -> (r: bool)
    ensures
        r == pane_ids_of(panes@).contains(id@),
{
    let found = find_pane_index(panes, id);
    proof {
        lemma_first_index(pane_ids_of(panes@), id@);
    }
    found.is_some()
}

proof fn lemma_first_index_absent(s: Seq<Seq<char>>, x: Seq<char>)
    requires
        !s.contains(x),
    ensures
        first_index(s, x) is None,
        first_index(s.push(x), x) == Some(s.len() as int),
{
    lemma_first_index(s, x);
    lemma_first_index(s.push(x), x);
    match first_index(s, x) {
        Some(k) => {
            assert(s.contains(x));
        },
        None => {},
    }
    match first_index(s.push(x), x) {
        Some(k) => {
            if k < s.len() {
                assert(s[k] == s.push(x)[k]);
                assert(s.contains(x));
            }
        },
        None => {
            assert(s.push(x)[s.len() as int] == x);
        },
    }
}

/// Adding `pane` gives it its place among the panes: afterwards the state
/// of its id is `pane`, and ids stay one per pane.
proof fn lemma_with_pane_state(panes: Seq<PaneState>, pane: PaneState)
    ensures
        pane_state(with_pane_state(panes, pane), pane.id@) == Some(pane),
        panes_unique(panes) ==> panes_unique(with_pane_state(panes, pane)),
{
    let s = pane_ids_of(panes);
    let after = with_pane_state(panes, pane);
    lemma_first_index(s, pane.id@);
    match first_index(s, pane.id@) {
        Some(k) => {
            assert(pane_ids_of(after) =~= s);
            assert(after[k] == pane);
        },
        None => {
            assert(!s.contains(pane.id@)) by {
                if s.contains(pane.id@) {
                    let j = choose|j: int| 0 <= j < s.len() && s[j] == pane.id@;
                    assert(s[j] != pane.id@);
                }
            }
            assert(pane_ids_of(after) =~= s.push(pane.id@));
            lemma_first_index_absent(s, pane.id@);
            assert(after[s.len() as int] == pane);
            if panes_unique(panes) {
                assert forall|i: int, j: int|
                    0 <= i < pane_ids_of(after).len() && 0 <= j < pane_ids_of(after).len() && i != j implies
                    pane_ids_of(after)[i] != pane_ids_of(after)[j] by {
                    if i < s.len() && j < s.len() {
                        assert(s[i] != s[j]);
                    } else if i < s.len() {
                        assert(s[i] != pane.id@);
                    } else if j < s.len() {
                        assert(s[j] != pane.id@);
                    }
                }
            }
        },
    }
}

proof fn lemma_first_index_is(s: Seq<Seq<char>>, x: Seq<char>, k: Option<int>)
    requires
        match k {
            Some(k) => 0 <= k < s.len() && s[k] == x && forall|j: int| 0 <= j < k ==> s[j] != x,
            None => forall|j: int| 0 <= j < s.len() ==> s[j] != x,
        },
    ensures
        first_index(s, x) == k,
{
    lemma_first_index(s, x);
    match (first_index(s, x), k) {
        (Some(a), Some(b)) => {
            if a < b {
                assert(s[a] != x);
            } else if b < a {
                assert(s[b] != x);
            }
        },
        (Some(a), None) => {
            assert(s[a] != x);
        },
        (None, Some(b)) => {
            assert(s[b] != x);
        },
        (None, None) => {},
    }
}

/// Adding a pane leaves the state of every other id as it was.
proof fn lemma_with_pane_state_others(panes: Seq<PaneState>, pane: PaneState, other: Seq<char>)
    requires
        other != pane.id@,
    ensures
        pane_state(with_pane_state(panes, pane), other) == pane_state(panes, other),
{
    let s = pane_ids_of(panes);
    let after = with_pane_state(panes, pane);
    lemma_first_index(s, pane.id@);
    lemma_first_index(s, other);
    match first_index(s, pane.id@) {
        Some(k) => {
            assert(pane_ids_of(after) =~= s);
            match first_index(s, other) {
                Some(q) => {
                    assert(q != k);
                    assert(after[q] == panes[q]);
                },
                None => {},
            }
        },
        None => {
            let t = pane_ids_of(after);
            assert(t =~= s.push(pane.id@));
            match first_index(s, other) {
                Some(q) => {
                    assert forall|j: int| 0 <= j < q implies t[j] != other by {
                        assert(t[j] == s[j]);
                    }
                    lemma_first_index_is(t, other, Some(q));
                    assert(after[q] == panes[q]);
                },
                None => {
                    assert forall|j: int| 0 <= j < t.len() implies t[j] != other by {
                        if j < s.len() {
                            assert(t[j] == s[j]);
                        }
                    }
                    lemma_first_index_is(t, other, None);
                },
            }
        },
    }
}

/// Removing a pane leaves the state of every other id as it was.
proof fn lemma_without_pane_state_others(panes: Seq<PaneState>, pane: Seq<char>, other: Seq<char>)
    requires
        other != pane,
    ensures
        pane_state(without_pane_state(panes, pane), other) == pane_state(panes, other),
{
    let s = pane_ids_of(panes);
    let after = without_pane_state(panes, pane);
    lemma_first_index(s, pane);
    lemma_first_index(s, other);
    match first_index(s, pane) {
        Some(k) => {
            let t = pane_ids_of(after);
            assert(t =~= s.remove(k));
            match first_index(s, other) {
                Some(q) => {
                    assert(q != k);
                    if q < k {
                        assert forall|j: int| 0 <= j < q implies t[j] != other by {
                            assert(t[j] == s[j]);
                        }
                        lemma_first_index_is(t, other, Some(q));
                        assert(after[q] == panes[q]);
                    } else {
                        assert(t[q - 1] == s[q]);
                        assert forall|j: int| 0 <= j < q - 1 implies t[j] != other by {
                            if j < k {
                                assert(t[j] == s[j]);
                            } else {
                                assert(t[j] == s[j + 1]);
                            }
                        }
                        lemma_first_index_is(t, other, Some(q - 1));
                        assert(after[q - 1] == panes[q]);
                    }
                },
                None => {
                    assert forall|j: int| 0 <= j < t.len() implies t[j] != other by {
                        if j < k {
                            assert(t[j] == s[j]);
                        } else {
                            assert(t[j] == s[j + 1]);
                        }
                    }
                    lemma_first_index_is(t, other, None);
                },
            }
        },
        None => {},
    }
}

/// Adds the pane `pane` in a new center column `column_id` and makes it
/// the active pane. `column_id` is not the id of a column yet.
pub fn add_pane_at(snapshot: WorkspaceLayout, pane: PaneState, column_id: String, now: i64) -> (r: WorkspaceLayout)
    requires
        index_of_column(columns_view(snapshot.columns@), column_id@) is None,
    ensures
        r.layout_version == snapshot.layout_version,
        r.workspace_id == snapshot.workspace_id,
        r.panes@ == with_pane_state(snapshot.panes@, pane),
        pane_state(r.panes@, pane.id@) == Some(pane),
        forall|other: Seq<char>| other != pane.id@ ==> #[trigger] pane_state(r.panes@, other) == pane_state(
            snapshot.panes@,
            other,
        ),
        panes_unique(snapshot.panes@) ==> panes_unique(r.panes@),
        columns_view(r.columns@) == columns_view(snapshot.columns@).push((column_id@, seq![pane.id@])),
        ids(r.center_column_ids@) == ids(snapshot.center_column_ids@).push(column_id@),
        r.pinned_left_column_id == snapshot.pinned_left_column_id,
        r.pinned_right_column_id == snapshot.pinned_right_column_id,
        opt_id(r.active_pane_id) == Some(pane.id@),
        r.updated_at == now,
{
    let mut snapshot = snapshot;
    let ghost before = snapshot;
    let ghost added = pane;
    let pane_id = pane.id.clone();
    match find_pane_index(&snapshot.panes, &pane_id) {
        Some(k) => {
            snapshot.panes.set(k, pane);
        },
        None => {
            snapshot.panes.push(pane);
        },
    }
    proof {
        lemma_with_pane_state(before.panes@, added);
        assert forall|other: Seq<char>| other != added.id@ implies #[trigger] pane_state(snapshot.panes@, other)
            == pane_state(before.panes@, other) by {
            lemma_with_pane_state_others(before.panes@, added, other);
        }
    }
    let mut column_panes: Vec<String> = Vec::new();
    column_panes.push(pane_id.clone());
    let column = LayoutColumn { id: column_id.clone(), pane_ids: column_panes };
    proof {
        assert(ids(column.pane_ids@) =~= seq![pane_id@]);
    }
    snapshot.columns.push(column);
    proof {
        assert(columns_view(snapshot.columns@) =~= columns_view(before.columns@).push((column_id@, seq![pane_id@])));
    }
    snapshot.center_column_ids.push(column_id);
    proof {
        assert(ids(snapshot.center_column_ids@) =~= ids(before.center_column_ids@).push(column_id@));
    }
    snapshot.active_pane_id = Some(pane_id);
    snapshot.updated_at = now;
    snapshot
}

/// Adds a pane in a new center column, dated by the clock.
pub fn add_pane(snapshot: WorkspaceLayout, pane: PaneState, column_id: String) -> (r: WorkspaceLayout)
    requires
        index_of_column(columns_view(snapshot.columns@), column_id@) is None,
    ensures
        r.layout_version == snapshot.layout_version,
        r.workspace_id == snapshot.workspace_id,
        r.panes@ == with_pane_state(snapshot.panes@, pane),
        pane_state(r.panes@, pane.id@) == Some(pane),
        forall|other: Seq<char>| other != pane.id@ ==> #[trigger] pane_state(r.panes@, other) == pane_state(
            snapshot.panes@,
            other,
        ),
        panes_unique(snapshot.panes@) ==> panes_unique(r.panes@),
        columns_view(r.columns@) == columns_view(snapshot.columns@).push((column_id@, seq![pane.id@])),
        ids(r.center_column_ids@) == ids(snapshot.center_column_ids@).push(column_id@),
        r.pinned_left_column_id == snapshot.pinned_left_column_id,
        r.pinned_right_column_id == snapshot.pinned_right_column_id,
        opt_id(r.active_pane_id) == Some(pane.id@),
{
    add_pane_at(snapshot, pane, column_id, now_ms())
}

// ---------------------------------------------------------------------------
// Removing a pane
// ---------------------------------------------------------------------------

/// The panes once `pane` is removed: the entry with its id goes.
pub open spec fn without_pane_state(panes: Seq<PaneState>, pane: Seq<char>) -> Seq<PaneState> {
    match first_index(pane_ids_of(panes), pane) {
        Some(k) => panes.remove(k),
        None => panes,
    }
}

/// The first position of `x` in `s`.
pub open spec fn first_index(s: Seq<Seq<char>>, x: Seq<char>) -> Option<int>
    decreases s.len(),
{
    if s.len() == 0 {
        None
    } else if s[0] == x {
        Some(0)
    } else {
        match first_index(s.drop_first(), x) {
            Some(k) => Some(k + 1),
            None => None,
        }
    }
}

/// A column's panes once `pane` has left it: its first occurrence goes.
pub open spec fn remove_first(s: Seq<Seq<char>>, x: Seq<char>) -> Seq<Seq<char>> {
    match first_index(s, x) {
        Some(k) => s.remove(k),
        None => s,
    }
}

/// The columns that still hold panes once `pane` has left them, in order.
pub open spec fn remaining_columns(cols: Seq<ColumnView>, pane: Seq<char>) -> Seq<ColumnView>
    decreases cols.len(),
{
    if cols.len() == 0 {
        cols
    } else {
        let rest = remaining_columns(cols.drop_last(), pane);
        let c = cols.last();
        let panes = remove_first(c.1, pane);
        if panes.len() == 0 {
            rest
        } else {
            rest.push((c.0, panes))
        }
    }
}

/// The ids of the columns that hold no pane once `pane` has left them.
pub open spec fn emptied_columns(cols: Seq<ColumnView>, pane: Seq<char>) -> Seq<Seq<char>>
    decreases cols.len(),
{
    if cols.len() == 0 {
        seq![]
    } else {
        let rest = emptied_columns(cols.drop_last(), pane);
        let c = cols.last();
        if remove_first(c.1, pane).len() == 0 {
            rest.push(c.0)
        } else {
            rest
        }
    }
}

/// The ids without those of `gone`.
pub open spec fn without_ids(s: Seq<Seq<char>>, gone: Seq<Seq<char>>) -> Seq<Seq<char>>
    decreases s.len(),
{
    if s.len() == 0 {
        s
    } else {
        let rest = without_ids(s.drop_last(), gone);
        if gone.contains(s.last()) {
            rest
        } else {
            rest.push(s.last())
        }
    }
}

/// A pinned column stays pinned unless it is gone.
pub open spec fn pin_after(pin: Option<Seq<char>>, gone: Seq<Seq<char>>) -> Option<Seq<char>> {
    match pin {
        Some(id) => if gone.contains(id) {
            None
        } else {
            Some(id)
        },
        None => None,
    }
}

/// The top pane of the first center column that has a pane.
pub open spec fn first_center_pane(center: Seq<Seq<char>>, cols: Seq<ColumnView>) -> Option<Seq<char>>
    decreases center.len(),
{
    if center.len() == 0 {
        None
    } else {
        match index_of_column(cols, center[0]) {
            Some(k) => if cols[k].1.len() > 0 {
                Some(cols[k].1[0])
            } else {
                first_center_pane(center.drop_first(), cols)
            },
            None => first_center_pane(center.drop_first(), cols),
        }
    }
}

/// The layout once `pane` is removed from `before`: the pane leaves every
/// column, columns left without panes go (from the center order and from
/// the pins too), and where the pane was active the top pane of the first
/// center column that has one becomes active.
pub open spec fn removed_layout(before: WorkspaceLayout, pane: Seq<char>, after: WorkspaceLayout, now: i64) -> bool {
    let gone = emptied_columns(columns_view(before.columns@), pane);
    &&& after.layout_version == before.layout_version
    &&& after.workspace_id == before.workspace_id
    &&& after.panes@ == without_pane_state(before.panes@, pane)
    &&& columns_view(after.columns@) == remaining_columns(columns_view(before.columns@), pane)
    &&& ids(after.center_column_ids@) == without_ids(ids(before.center_column_ids@), gone)
    &&& opt_id(after.pinned_left_column_id) == pin_after(opt_id(before.pinned_left_column_id), gone)
    &&& opt_id(after.pinned_right_column_id) == pin_after(opt_id(before.pinned_right_column_id), gone)
    &&& opt_id(after.active_pane_id) == if opt_id(before.active_pane_id) == Some(pane) {
        first_center_pane(ids(after.center_column_ids@), columns_view(after.columns@))
    } else {
        opt_id(before.active_pane_id)
    }
    &&& after.updated_at == now
}

fn copy_ids(v: &Vec<String>) -> (r: Vec<String>)
    ensures
        r@ == v@,
{
    let mut out: Vec<String> = Vec::new();
    let mut k: usize = 0;
    while k < v.len()
        invariant
            k <= v.len(),
            out@ == v@.take(k as int),
        decreases v.len() - k,
    {
        out.push(v[k].clone());
        proof {
            assert(out@ =~= v@.take(k + 1));
        }
        k = k + 1;
    }
    proof {
        assert(v@.take(v@.len() as int) =~= v@);
    }
    out
}

proof fn lemma_first_index(s: Seq<Seq<char>>, x: Seq<char>)
    ensures
        match first_index(s, x) {
            Some(k) => 0 <= k < s.len() && s[k] == x && forall|j: int| 0 <= j < k ==> s[j] != x,
            None => forall|j: int| 0 <= j < s.len() ==> s[j] != x,
        },
    decreases s.len(),
{
    if s.len() > 0 {
        lemma_first_index(s.drop_first(), x);
        if s[0] != x {
            assert forall|j: int| 1 <= j < s.len() implies s[j] == s.drop_first()[j - 1] by {}
        }
    }
}

fn find_pane(v: &Vec<String>, pane: &String) -> (r: Option<usize>)
    ensures
        match r {
            Some(k) => k < v.len() && first_index(ids(v@), pane@) == Some(k as int),
            None => first_index(ids(v@), pane@) is None,
        },
{
    let mut k: usize = 0;
    while k < v.len()
        invariant
            k <= v.len(),
            forall|j: int| 0 <= j < k ==> (#[trigger] v@[j])@ != pane@,
        decreases v.len() - k,
    {
        if v[k].eq(pane) {
            proof {
                let s = ids(v@);
                lemma_first_index(s, pane@);
                assert(s[k as int] == pane@);
                match first_index(s, pane@) {
                    Some(q) => {
                        if q < k {
                            assert(v@[q]@ != pane@);
                        }
                    },
                    None => {},
                }
            }
            return Some(k);
        }
        k = k + 1;
    }
    proof {
        let s = ids(v@);
        lemma_first_index(s, pane@);
        match first_index(s, pane@) {
            Some(q) => {
                assert(v@[q]@ != pane@);
            },
            None => {},
        }
    }
    None
}

fn contains_str(v: &Vec<String>, id: &String) -> (r: bool)
    ensures
        r == ids(v@).contains(id@),
{
    let mut k: usize = 0;
    while k < v.len()
        invariant
            k <= v.len(),
            forall|j: int| 0 <= j < k ==> (#[trigger] v@[j])@ != id@,
        decreases v.len() - k,
    {
        if v[k].eq(id) {
            assert(ids(v@)[k as int] == id@);
            return true;
        }
        k = k + 1;
    }
    proof {
        if ids(v@).contains(id@) {
            let j = choose|j: int| 0 <= j < ids(v@).len() && ids(v@)[j] == id@;
            assert(v@[j]@ != id@);
        }
    }
    false
}

fn pin_kept(pin: Option<String>, gone: &Vec<String>) -> (r: Option<String>)
    ensures
        opt_id(r) == pin_after(opt_id(pin), ids(gone@)),
{
    match pin {
        Some(id) => if contains_str(gone, &id) {
            None
        } else {
            Some(id)
        },
        None => None,
    }
}

fn first_center_pane_exec(center: &Vec<String>, cols: &Vec<LayoutColumn>) -> (r: Option<String>)
    ensures
        opt_id(r) == first_center_pane(ids(center@), columns_view(cols@)),
{
    let ghost cs = ids(center@);
    let ghost cv = columns_view(cols@);
    let mut i: usize = 0;
    proof {
        assert(cs.skip(0) =~= cs);
    }
    while i < center.len()
        invariant
            i <= center.len(),
            cs == ids(center@),
            cv == columns_view(cols@),
            first_center_pane(cs, cv) == first_center_pane(cs.skip(i as int), cv),
        decreases center.len() - i,
    {
        proof {
            assert(cs.skip(i as int)[0] == center@[i as int]@);
            assert(cs.skip(i as int).drop_first() =~= cs.skip(i + 1));
        }
        match find_column(cols, &center[i]) {
            Some(k) => {
                if cols[k].pane_ids.len() > 0 {
                    assert(cv[k as int].1[0] == cols@[k as int].pane_ids@[0]@);
                    return Some(cols[k].pane_ids[0].clone());
                }
            },
            None => {},
        }
        i = i + 1;
    }
    None
}

/// Removing a pane takes its entry away: afterwards no pane has its id, and
/// ids stay one per pane.
proof fn lemma_without_pane_state(panes: Seq<PaneState>, pane: Seq<char>)
    requires
        panes_unique(panes),
    ensures
        pane_state(without_pane_state(panes, pane), pane) is None,
        !pane_ids_of(without_pane_state(panes, pane)).contains(pane),
        panes_unique(without_pane_state(panes, pane)),
{
    let s = pane_ids_of(panes);
    let after = without_pane_state(panes, pane);
    lemma_first_index(s, pane);
    match first_index(s, pane) {
        Some(k) => {
            let t = pane_ids_of(after);
            assert(t =~= s.remove(k));
            assert(!t.contains(pane)) by {
                if t.contains(pane) {
                    let j = choose|j: int| 0 <= j < t.len() && t[j] == pane;
                    if j < k {
                        assert(s[j] == pane);
                    } else {
                        assert(s[j + 1] == pane);
                    }
                }
            }
            assert forall|i: int, j: int| 0 <= i < t.len() && 0 <= j < t.len() && i != j implies t[i] != t[j] by {
                let i2 = if i < k { i } else { i + 1 };
                let j2 = if j < k { j } else { j + 1 };
                assert(t[i] == s[i2]);
                assert(t[j] == s[j2]);
            }
            lemma_first_index(t, pane);
            match first_index(t, pane) {
                Some(q) => {
                    assert(t[q] == pane);
                },
                None => {},
            }
        },
        None => {
            assert(!s.contains(pane)) by {
                if s.contains(pane) {
                    let j = choose|j: int| 0 <= j < s.len() && s[j] == pane;
                    assert(s[j] != pane);
                }
            }
        },
    }
}

/// Removes the pane `pane_id`; refused when the layout has no such pane.
pub fn remove_pane_at(snapshot: WorkspaceLayout, pane_id: &str, now: i64) -> (r: Result<WorkspaceLayout, LayoutError>)
    ensures
        match r {
            Ok(after) => pane_ids_of(snapshot.panes@).contains(pane_id@) && removed_layout(snapshot, pane_id@, after, now)
                && (forall|other: Seq<char>| other != pane_id@ ==> #[trigger] pane_state(after.panes@, other)
                == pane_state(snapshot.panes@, other)) && (panes_unique(snapshot.panes@) ==> pane_state(
                after.panes@,
                pane_id@,
            ) is None && panes_unique(after.panes@)),
            Err(e) => !pane_ids_of(snapshot.panes@).contains(pane_id@)
                && (e matches LayoutError::MissingPane(p) && p@ == pane_id@),
        },
{
    let pane = owned(pane_id);
    proof {
        lemma_first_index(pane_ids_of(snapshot.panes@), pane_id@);
        if panes_unique(snapshot.panes@) {
            lemma_without_pane_state(snapshot.panes@, pane_id@);
        }
    }
    let index = match find_pane_index(&snapshot.panes, &pane) {
        Some(k) => k,
        None => {
            return Err(LayoutError::MissingPane(pane));
        },
    };
    let ghost cv = columns_view(snapshot.columns@);
    let ghost center_before = ids(snapshot.center_column_ids@);
    let mut panes = snapshot.panes;
    panes.remove(index);
    proof {
        assert forall|other: Seq<char>| other != pane_id@ implies #[trigger] pane_state(panes@, other) == pane_state(
            snapshot.panes@,
            other,
        ) by {
            lemma_without_pane_state_others(snapshot.panes@, pane_id@, other);
        }
    }

    let mut kept: Vec<LayoutColumn> = Vec::new();
    let mut gone: Vec<String> = Vec::new();
    let mut k: usize = 0;
    while k < snapshot.columns.len()
        invariant
            k <= snapshot.columns.len(),
            cv == columns_view(snapshot.columns@),
            columns_view(kept@) == remaining_columns(cv.take(k as int), pane_id@),
            ids(gone@) == emptied_columns(cv.take(k as int), pane_id@),
            pane@ == pane_id@,
        decreases snapshot.columns.len() - k,
    {
        let column = &snapshot.columns[k];
        proof {
            assert(cv.take(k + 1).drop_last() =~= cv.take(k as int));
            assert(cv.take(k + 1).last() == cv[k as int]);
            assert(cv[k as int] == column_view(*column));
        }
        let mut column_panes = copy_ids(&column.pane_ids);
        match find_pane(&column.pane_ids, &pane) {
            Some(index) => {
                column_panes.remove(index);
                proof {
                    assert(ids(column_panes@) =~= ids(column.pane_ids@).remove(index as int));
                }
            },
            None => {},
        }
        assert(ids(column_panes@) == remove_first(ids(column.pane_ids@), pane_id@));
        if column_panes.len() == 0 {
            let ghost before = gone@;
            gone.push(column.id.clone());
            proof {
                assert(ids(gone@) =~= ids(before).push(column.id@));
            }
        } else {
            let ghost before = kept@;
            kept.push(LayoutColumn { id: column.id.clone(), pane_ids: column_panes });
            proof {
                assert(columns_view(kept@) =~= columns_view(before).push(
                    (column.id@, remove_first(ids(column.pane_ids@), pane_id@)),
                ));
            }
        }
        k = k + 1;
    }
    proof {
        assert(cv.take(cv.len() as int) =~= cv);
    }

    let mut center: Vec<String> = Vec::new();
    let mut c: usize = 0;
    while c < snapshot.center_column_ids.len()
        invariant
            c <= snapshot.center_column_ids.len(),
            center_before == ids(snapshot.center_column_ids@),
            ids(center@) == without_ids(center_before.take(c as int), ids(gone@)),
        decreases snapshot.center_column_ids.len() - c,
    {
        proof {
            assert(center_before.take(c + 1).drop_last() =~= center_before.take(c as int));
            assert(center_before.take(c + 1).last() == snapshot.center_column_ids@[c as int]@);
        }
        if !contains_str(&gone, &snapshot.center_column_ids[c]) {
            let ghost before = center@;
            center.push(snapshot.center_column_ids[c].clone());
            proof {
                assert(ids(center@) =~= ids(before).push(snapshot.center_column_ids@[c as int]@));
            }
        }
        c = c + 1;
    }
    proof {
        assert(center_before.take(center_before.len() as int) =~= center_before);
    }

    let pinned_left = pin_kept(snapshot.pinned_left_column_id, &gone);
    let pinned_right = pin_kept(snapshot.pinned_right_column_id, &gone);
    let was_active = match &snapshot.active_pane_id {
        Some(active) => active.eq(&pane),
        None => false,
    };
    let active = if was_active {
        first_center_pane_exec(&center, &kept)
    } else {
        snapshot.active_pane_id
    };
    Ok(WorkspaceLayout {
        layout_version: snapshot.layout_version,
        workspace_id: snapshot.workspace_id,
        active_pane_id: active,
        panes: panes,
        columns: kept,
        center_column_ids: center,
        pinned_left_column_id: pinned_left,
        pinned_right_column_id: pinned_right,
        updated_at: now,
    })
}

/// Removes a pane, dated by the clock.
pub fn remove_pane(snapshot: WorkspaceLayout, pane_id: &str) -> (r: Result<WorkspaceLayout, LayoutError>)
    ensures
        match r {
            Ok(after) => pane_ids_of(snapshot.panes@).contains(pane_id@)
                && (exists|now: i64| removed_layout(snapshot, pane_id@, after, now))
                && (forall|other: Seq<char>| other != pane_id@ ==> #[trigger] pane_state(after.panes@, other)
                == pane_state(snapshot.panes@, other))
                && (panes_unique(snapshot.panes@) ==> pane_state(after.panes@, pane_id@) is None && panes_unique(
                after.panes@)),
            Err(e) => !pane_ids_of(snapshot.panes@).contains(pane_id@)
                && (e matches LayoutError::MissingPane(p) && p@ == pane_id@),
        },
{
    remove_pane_at(snapshot, pane_id, now_ms())
}

// ---------------------------------------------------------------------------
// Removing what was added
// ---------------------------------------------------------------------------

/// Every column holds a pane.
pub open spec fn columns_hold_panes(cols: Seq<ColumnView>) -> bool {
    forall|k: int| 0 <= k < cols.len() ==> (#[trigger] cols[k]).1.len() > 0
}

/// No column holds `pane`.
pub open spec fn pane_in_no_column(cols: Seq<ColumnView>, pane: Seq<char>) -> bool {
    forall|k: int| 0 <= k < cols.len() ==> !(#[trigger] cols[k]).1.contains(pane)
}

proof fn lemma_remove_first_absent(s: Seq<Seq<char>>, x: Seq<char>)
    requires
        !s.contains(x),
    ensures
        remove_first(s, x) == s,
{
    lemma_first_index(s, x);
    match first_index(s, x) {
        Some(k) => {
            assert(s.contains(x));
        },
        None => {},
    }
}

proof fn lemma_untouched_columns(cols: Seq<ColumnView>, pane: Seq<char>)
    requires
        columns_hold_panes(cols),
        pane_in_no_column(cols, pane),
    ensures
        remaining_columns(cols, pane) == cols,
        emptied_columns(cols, pane) == Seq::<Seq<char>>::empty(),
    decreases cols.len(),
{
    if cols.len() > 0 {
        let rest = cols.drop_last();
        assert forall|k: int| 0 <= k < rest.len() implies (#[trigger] rest[k]).1.len() > 0 by {
            assert(rest[k] == cols[k]);
        }
        assert forall|k: int| 0 <= k < rest.len() implies !(#[trigger] rest[k]).1.contains(pane) by {
            assert(rest[k] == cols[k]);
        }
        lemma_untouched_columns(rest, pane);
        let c = cols.last();
        assert(c == cols[cols.len() - 1]);
        lemma_remove_first_absent(c.1, pane);
        assert(rest.push((c.0, c.1)) =~= cols);
    }
}

proof fn lemma_without_absent_ids(s: Seq<Seq<char>>, id: Seq<char>)
    requires
        !s.contains(id),
    ensures
        without_ids(s, seq![id]) == s,
    decreases s.len(),
{
    if s.len() > 0 {
        assert(!s.drop_last().contains(id)) by {
            if s.drop_last().contains(id) {
                let j = choose|j: int| 0 <= j < s.drop_last().len() && s.drop_last()[j] == id;
                assert(s[j] == id);
            }
        }
        lemma_without_absent_ids(s.drop_last(), id);
        assert(s.last() != id);
        assert(!seq![id].contains(s.last())) by {
            if seq![id].contains(s.last()) {
                let j = choose|j: int| 0 <= j < seq![id].len() && seq![id][j] == s.last();
                assert(seq![id][j] == id);
            }
        }
        assert(s.drop_last().push(s.last()) =~= s);
    }
}

/// Removing a pane that was just added in a new column of its own gives
/// back the panes, columns, center order and pins from before the add,
/// when the layout's columns all hold panes, none holds the new pane, and
/// the pane and the column are new.
pub proof fn lemma_remove_undoes_add(
    before: WorkspaceLayout,
    added: WorkspaceLayout,
    removed: WorkspaceLayout,
    state: PaneState,
    column: Seq<char>,
    now: i64,
)
    requires
        columns_hold_panes(columns_view(before.columns@)),
        pane_in_no_column(columns_view(before.columns@), state.id@),
        !pane_ids_of(before.panes@).contains(state.id@),
        index_of_column(columns_view(before.columns@), column) is None,
        !ids(before.center_column_ids@).contains(column),
        opt_id(before.pinned_left_column_id) != Some(column),
        opt_id(before.pinned_right_column_id) != Some(column),
        added.panes@ == with_pane_state(before.panes@, state),
        columns_view(added.columns@) == columns_view(before.columns@).push((column, seq![state.id@])),
        ids(added.center_column_ids@) == ids(before.center_column_ids@).push(column),
        added.pinned_left_column_id == before.pinned_left_column_id,
        added.pinned_right_column_id == before.pinned_right_column_id,
        removed_layout(added, state.id@, removed, now),
    ensures
        removed.panes@ == before.panes@,
        columns_view(removed.columns@) == columns_view(before.columns@),
        ids(removed.center_column_ids@) == ids(before.center_column_ids@),
        opt_id(removed.pinned_left_column_id) == opt_id(before.pinned_left_column_id),
        opt_id(removed.pinned_right_column_id) == opt_id(before.pinned_right_column_id),
{
    let pane = state.id@;
    let panes_ids = pane_ids_of(before.panes@);
    lemma_first_index_absent(panes_ids, pane);
    assert(added.panes@ == before.panes@.push(state));
    assert(pane_ids_of(added.panes@) =~= panes_ids.push(pane));
    assert(without_pane_state(added.panes@, pane) =~= before.panes@);
    let cols = columns_view(before.columns@);
    let center = ids(before.center_column_ids@);
    let added_cols = cols.push((column, seq![pane]));
    assert(added_cols.drop_last() =~= cols);
    lemma_untouched_columns(cols, pane);
    assert(first_index(seq![pane], pane) == Some(0int));
    assert(remove_first(seq![pane], pane) =~= Seq::<Seq<char>>::empty());
    let gone = emptied_columns(added_cols, pane);
    assert(gone =~= seq![column]);
    assert(remaining_columns(added_cols, pane) == cols);
    assert(center.push(column).drop_last() =~= center);
    assert(seq![column].contains(column)) by {
        assert(seq![column][0] == column);
    }
    lemma_without_absent_ids(center, column);
    assert(without_ids(center.push(column), gone) == center);
    match opt_id(before.pinned_left_column_id) {
        Some(id) => {
            assert(!gone.contains(id)) by {
                if gone.contains(id) {
                    let j = choose|j: int| 0 <= j < gone.len() && gone[j] == id;
                    assert(gone[j] == column);
                }
            }
        },
        None => {},
    }
    match opt_id(before.pinned_right_column_id) {
        Some(id) => {
            assert(!gone.contains(id)) by {
                if gone.contains(id) {
                    let j = choose|j: int| 0 <= j < gone.len() && gone[j] == id;
                    assert(gone[j] == column);
                }
            }
        },
        None => {},
    }
}

// ---------------------------------------------------------------------------
// Moving between panes
// ---------------------------------------------------------------------------

#[derive(Clone, Copy, Debug, PartialEq, Eq, Structural)]
pub enum PaneNavigationDirection {
    Left,
    Right,
}

/// The pane that counts as active: the active pane, else the top pane of
/// the first center column that has one.
pub open spec fn effective_active_pane(layout: WorkspaceLayout) -> Option<Seq<char>> {
    match opt_id(layout.active_pane_id) {
        Some(a) => Some(a),
        None => first_center_pane(ids(layout.center_column_ids@), columns_view(layout.columns@)),
    }
}

/// Where `pane` stands, from the `i`-th center column on: the center
/// column's position and the pane's position in it. The search stops at a
/// center column that is not among the columns.
pub open spec fn position_from(center: Seq<Seq<char>>, cols: Seq<ColumnView>, pane: Seq<char>, i: int) -> Option<
    (int, int),
>
    decreases center.len() - i,
{
    if i < 0 || i >= center.len() {
        None
    } else {
        match index_of_column(cols, center[i]) {
            None => None,
            Some(k) => match first_index(cols[k].1, pane) {
                Some(p) => Some((i, p)),
                None => position_from(center, cols, pane, i + 1),
            },
        }
    }
}

/// The pane beside: in the center column at `ci`, the pane at the same
/// height `pi`, or its bottom pane where it has fewer.
pub open spec fn neighbor_pane(center: Seq<Seq<char>>, cols: Seq<ColumnView>, ci: int, pi: int) -> Option<Seq<char>> {
    if 0 <= ci < center.len() {
        match index_of_column(cols, center[ci]) {
            Some(k) => {
                let panes = cols[k].1;
                if panes.len() == 0 {
                    None
                } else if pi < panes.len() - 1 {
                    Some(panes[pi])
                } else {
                    Some(panes[panes.len() - 1])
                }
            },
            None => None,
        }
    } else {
        None
    }
}

/// The pane that moving left or right from the active pane reaches.
pub open spec fn navigation_target(layout: WorkspaceLayout, direction: PaneNavigationDirection) -> Option<Seq<char>> {
    let center = ids(layout.center_column_ids@);
    let cols = columns_view(layout.columns@);
    match effective_active_pane(layout) {
        None => None,
        Some(active) => match position_from(center, cols, active, 0) {
            None => None,
            Some((ci, pi)) => match direction {
                PaneNavigationDirection::Left => if ci > 0 {
                    neighbor_pane(center, cols, ci - 1, pi)
                } else {
                    None
                },
                PaneNavigationDirection::Right => neighbor_pane(center, cols, ci + 1, pi),
            },
        },
    }
}

proof fn lemma_position_bounds(center: Seq<Seq<char>>, cols: Seq<ColumnView>, pane: Seq<char>, i: int)
    ensures
        match position_from(center, cols, pane, i) {
            Some((ci, pi)) => i <= ci < center.len() && 0 <= pi,
            None => true,
        },
    decreases center.len() - i,
{
    if 0 <= i < center.len() {
        match index_of_column(cols, center[i]) {
            Some(k) => {
                lemma_first_index(cols[k].1, pane);
                lemma_position_bounds(center, cols, pane, i + 1);
            },
            None => {},
        }
    }
}

/// Moving left or right keeps the height: where the active pane is at
/// height `pi` of center column `ci` and the center column beside it in
/// that direction holds panes, the target is that column's pane at height
/// `pi`, or its bottom pane where it holds no more than `pi` panes.
pub proof fn lemma_navigation_keeps_height(
    layout: WorkspaceLayout,
    direction: PaneNavigationDirection,
    active: Seq<char>,
    ci: int,
    pi: int,
    k: int,
)
    requires
        effective_active_pane(layout) == Some(active),
        position_from(ids(layout.center_column_ids@), columns_view(layout.columns@), active, 0) == Some((ci, pi)),
        ({
            let next = match direction {
                PaneNavigationDirection::Left => ci - 1,
                PaneNavigationDirection::Right => ci + 1,
            };
            &&& 0 <= next < layout.center_column_ids@.len()
            &&& index_of_column(columns_view(layout.columns@), layout.center_column_ids@[next]@) == Some(k)
        }),
        layout.columns@[k].pane_ids@.len() > 0,
    ensures
        ({
            let panes = layout.columns@[k].pane_ids@;
            navigation_target(layout, direction) == Some(
                if pi < panes.len() {
                    panes[pi]@
                } else {
                    panes[panes.len() - 1]@
                },
            )
        }),
{
    let center = ids(layout.center_column_ids@);
    let cols = columns_view(layout.columns@);
    lemma_position_bounds(center, cols, active, 0);
    lemma_index_of_column(cols, center[ci]);
    let next = match direction {
        PaneNavigationDirection::Left => ci - 1,
        PaneNavigationDirection::Right => ci + 1,
    };
    assert(center[next] == layout.center_column_ids@[next]@);
    lemma_index_of_column(cols, center[next]);
    assert(cols[k] == column_view(layout.columns@[k]));
    let panes = layout.columns@[k].pane_ids@;
    if pi < panes.len() {
        assert(cols[k].1[pi] == panes[pi]@);
    }
    assert(cols[k].1[cols[k].1.len() - 1] == panes[panes.len() - 1]@);
}

fn effective_active_pane_exec(layout: &WorkspaceLayout) -> (r: Option<String>)
    ensures
        opt_id(r) == effective_active_pane(*layout),
{
    match &layout.active_pane_id {
        Some(a) => Some(a.clone()),
        None => first_center_pane_exec(&layout.center_column_ids, &layout.columns),
    }
}

fn pane_layout_position(layout: &WorkspaceLayout, pane: &String) -> (r: Option<(usize, usize)>)
    ensures
        match r {
            Some((ci, pi)) => position_from(ids(layout.center_column_ids@), columns_view(layout.columns@), pane@, 0)
                == Some((ci as int, pi as int)),
            None => position_from(ids(layout.center_column_ids@), columns_view(layout.columns@), pane@, 0) is None,
        },
{
    let ghost center = ids(layout.center_column_ids@);
    let ghost cols = columns_view(layout.columns@);
    let mut i: usize = 0;
    while i < layout.center_column_ids.len()
        invariant
            i <= layout.center_column_ids.len(),
            center == ids(layout.center_column_ids@),
            cols == columns_view(layout.columns@),
            position_from(center, cols, pane@, 0) == position_from(center, cols, pane@, i as int),
        decreases layout.center_column_ids.len() - i,
    {
        let k = match find_column(&layout.columns, &layout.center_column_ids[i]) {
            Some(k) => k,
            None => {
                return None;
            },
        };
        match find_pane(&layout.columns[k].pane_ids, pane) {
            Some(p) => {
                return Some((i, p));
            },
            None => {},
        }
        i = i + 1;
    }
    None
}

fn neighbor_pane_exec(layout: &WorkspaceLayout, ci: usize, pi: usize) -> (r: Option<String>)
    ensures
        opt_id(r) == neighbor_pane(ids(layout.center_column_ids@), columns_view(layout.columns@), ci as int, pi as int),
{
    if ci >= layout.center_column_ids.len() {
        return None;
    }
    let k = match find_column(&layout.columns, &layout.center_column_ids[ci]) {
        Some(k) => k,
        None => {
            return None;
        },
    };
    let panes = &layout.columns[k].pane_ids;
    if panes.len() == 0 {
        return None;
    }
    let target = if pi < panes.len() - 1 {
        pi
    } else {
        panes.len() - 1
    };
    Some(panes[target].clone())
}

/// The pane that moving left or right from the active pane reaches; none
/// at the edge, or where the active pane is in no center column.
pub fn pane_navigation_target(snapshot: &WorkspaceLayout, direction: PaneNavigationDirection) -> (r: Option<String>)
    ensures
        opt_id(r) == navigation_target(*snapshot, direction),
{
    let active = match effective_active_pane_exec(snapshot) {
        Some(a) => a,
        None => {
            return None;
        },
    };
    let (ci, pi) = match pane_layout_position(snapshot, &active) {
        Some(position) => position,
        None => {
            return None;
        },
    };
    match direction {
        PaneNavigationDirection::Left => if ci > 0 {
            neighbor_pane_exec(snapshot, ci - 1, pi)
        } else {
            None
        },
        PaneNavigationDirection::Right => {
            let _count = snapshot.center_column_ids.len();
            proof {
                lemma_position_bounds(ids(snapshot.center_column_ids@), columns_view(snapshot.columns@), active@, 0);
                assert(ids(snapshot.center_column_ids@).len() == snapshot.center_column_ids@.len());
            }
            neighbor_pane_exec(snapshot, ci + 1, pi)
        },
    }
}

/// The first center column, from the `i`-th on, that holds `pane`.
pub open spec fn column_holding_from(center: Seq<Seq<char>>, cols: Seq<ColumnView>, pane: Seq<char>, i: int) -> Option<
    Seq<char>,
>
    decreases center.len() - i,
{
    if i < 0 || i >= center.len() {
        None
    } else {
        match index_of_column(cols, center[i]) {
            Some(k) => if cols[k].1.contains(pane) {
                Some(center[i])
            } else {
                column_holding_from(center, cols, pane, i + 1)
            },
            None => column_holding_from(center, cols, pane, i + 1),
        }
    }
}

/// The center column that holds the active pane.
pub fn active_column_id(snapshot: &WorkspaceLayout) -> (r: Option<String>)
    ensures
        opt_id(r) == match effective_active_pane(*snapshot) {
            Some(a) => column_holding_from(ids(snapshot.center_column_ids@), columns_view(snapshot.columns@), a, 0),
            None => None,
        },
{
    let active = match effective_active_pane_exec(snapshot) {
        Some(a) => a,
        None => {
            return None;
        },
    };
    let ghost center = ids(snapshot.center_column_ids@);
    let ghost cols = columns_view(snapshot.columns@);
    let mut i: usize = 0;
    while i < snapshot.center_column_ids.len()
        invariant
            i <= snapshot.center_column_ids.len(),
            center == ids(snapshot.center_column_ids@),
            cols == columns_view(snapshot.columns@),
            column_holding_from(center, cols, active@, 0) == column_holding_from(center, cols, active@, i as int),
            Some(active@) == effective_active_pane(*snapshot),
        decreases snapshot.center_column_ids.len() - i,
    {
        assert(center[i as int] == snapshot.center_column_ids@[i as int]@);
        match find_column(&snapshot.columns, &snapshot.center_column_ids[i]) {
            Some(k) => {
                assert(cols[k as int].1 == ids(snapshot.columns@[k as int].pane_ids@));
                if contains_str(&snapshot.columns[k].pane_ids, &active) {
                    let id = snapshot.center_column_ids[i].clone();
                    assert(id@ == center[i as int]);
                    assert(cols[k as int].1.contains(active@));
                    assert(index_of_column(cols, center[i as int]) == Some(k as int));
                    assert(column_holding_from(center, cols, active@, i as int) == Some(center[i as int]));
                    return Some(id);
                }
            },
            None => {},
        }
        i = i + 1;
    }
    None
}

/// The first terminal pane, in the order of the panes.
pub open spec fn first_terminal_pane(panes: Seq<PaneState>) -> Option<Seq<char>>
    decreases panes.len(),
{
    if panes.len() == 0 {
        None
    } else if panes[0].payload is Terminal {
        Some(panes[0].id@)
    } else {
        first_terminal_pane(panes.drop_first())
    }
}

/// The terminal pane that keyboard input goes to: the active pane where it
/// shows a terminal, else the first terminal pane.
pub open spec fn active_terminal_pane(panes: Seq<PaneState>, active: Option<Seq<char>>) -> Option<Seq<char>> {
    let from_active = match active {
        Some(a) => match pane_state(panes, a) {
            Some(p) => if p.payload is Terminal {
                Some(a)
            } else {
                None
            },
            None => None,
        },
        None => None,
    };
    match from_active {
        Some(a) => Some(a),
        None => first_terminal_pane(panes),
    }
}

/// The terminal pane that keyboard input goes to.
pub fn active_terminal_pane_id(snapshot: &WorkspaceLayout) -> (r: Option<String>)
    ensures
        opt_id(r) == active_terminal_pane(snapshot.panes@, opt_id(snapshot.active_pane_id)),
{
    let panes = &snapshot.panes;
    match &snapshot.active_pane_id {
        Some(active) => match find_pane_index(panes, active) {
            Some(k) => match &panes[k].payload {
                PanePayload::Terminal(_) => {
                    return Some(active.clone());
                },
                _ => {},
            },
            None => {},
        },
        None => {},
    }
    let ghost all = panes@;
    proof {
        assert(all.skip(0) =~= all);
    }
    let mut k: usize = 0;
    while k < panes.len()
        invariant
            k <= panes.len(),
            all == panes@,
            all == snapshot.panes@,
            active_terminal_pane(all, opt_id(snapshot.active_pane_id)) == first_terminal_pane(all),
            first_terminal_pane(all) == first_terminal_pane(all.skip(k as int)),
        decreases panes.len() - k,
    {
        proof {
            assert(all.skip(k as int)[0] == all[k as int]);
            assert(all.skip(k as int).drop_first() =~= all.skip(k + 1));
        }
        match &panes[k].payload {
            PanePayload::Terminal(_) => {
                assert(all.skip(k as int)[0].payload is Terminal);
                return Some(panes[k].id.clone());
            },
            _ => {},
        }
        k = k + 1;
    }
    proof {
        assert(all.skip(k as int).len() == 0);
    }
    None
}

// ---------------------------------------------------------------------------
// Closing panes
// ---------------------------------------------------------------------------

/// What closing the active pane leads to.
#[derive(Clone, Debug, PartialEq, Eq)]
pub enum CloseActivePaneStep {
    NoActivePane,
    Closed { layout: WorkspaceLayout, pane_id: String, status: String },
    Failed(String),
}

/// Closing the active pane at `now`: nothing without an active pane; else
/// the layout without it and the status that says so, or the error shown
/// when the layout does not hold it.
pub fn close_active_pane_at(snapshot: WorkspaceLayout, now: i64) -> (r: CloseActivePaneStep)
    ensures
        match snapshot.active_pane_id {
            None => r == CloseActivePaneStep::NoActivePane,
            Some(active) => if pane_ids_of(snapshot.panes@).contains(active@) {
                r matches CloseActivePaneStep::Closed { layout, pane_id, status } && pane_id@ == active@
                    && removed_layout(snapshot, active@, layout, now) && status@ == "Closed pane "@ + active@
                    + "."@
            } else {
                r matches CloseActivePaneStep::Failed(message) && message@ == "Failed to close pane: "@ + "pane `"@
                    + active@ + "` does not exist"@
            },
        },
{
    let pane_id = match &snapshot.active_pane_id {
        Some(active) => active.clone(),
        None => {
            return CloseActivePaneStep::NoActivePane;
        },
    };
    match remove_pane_at(snapshot, pane_id.as_str(), now) {
        Ok(layout) => {
            let status = concat3("Closed pane ", pane_id.as_str(), ".");
            CloseActivePaneStep::Closed { layout, pane_id, status }
        },
        Err(error) => {
            let detail = error.message();
            let mut out = str_chars("Failed to close pane: ");
            push_all(&mut out, str_chars(detail.as_str()).as_slice());
            assert(out@ =~= "Failed to close pane: "@ + "pane `"@ + pane_id@ + "` does not exist"@);
            CloseActivePaneStep::Failed(string_from_chars(out.as_slice()))
        },
    }
}

/// What a terminal's exit does to the open workspace's layout.
#[derive(Clone, Debug, PartialEq, Eq)]
pub enum ExitedPaneStep {
    NotInLayout(WorkspaceLayout),
    Closed { layout: WorkspaceLayout, status: String },
}

/// The terminal of pane `pane_id` in workspace `workspace_id` exited with
/// `exit_code`: where the open layout is that workspace's and holds the
/// pane, the pane is closed at `now` and the status tells how the terminal
/// ended; else the layout stays as it was (the stored layout is then the
/// one to change).
pub fn close_exited_terminal_pane_at(
    snapshot: WorkspaceLayout,
    workspace_id: &str,
    pane_id: &str,
    exit_code: Option<i64>,
    now: i64,
) -> (r: ExitedPaneStep)
    ensures
        if snapshot.workspace_id@ == workspace_id@ && pane_ids_of(snapshot.panes@).contains(pane_id@) {
            r matches ExitedPaneStep::Closed { layout, status } && removed_layout(snapshot, pane_id@, layout, now)
                && status@ == "Closed pane "@ + pane_id@ + " after terminal "@ + exit_status_label(exit_code) + "."@
        } else {
            r == ExitedPaneStep::NotInLayout(snapshot)
        },
{
    let wanted = owned(workspace_id);
    let pane = owned(pane_id);
    if !snapshot.workspace_id.eq(&wanted) || !has_pane(&snapshot.panes, &pane) {
        return ExitedPaneStep::NotInLayout(snapshot);
    }
    match remove_pane_at(snapshot, pane_id, now) {
        Ok(layout) => {
            let label = terminal_exit_status_label(exit_code);
            let mut out = str_chars("Closed pane ");
            push_all(&mut out, str_chars(pane_id).as_slice());
            push_all(&mut out, str_chars(" after terminal ").as_slice());
            push_all(&mut out, str_chars(label.as_str()).as_slice());
            push_all(&mut out, str_chars(".").as_slice());
            ExitedPaneStep::Closed { layout, status: string_from_chars(out.as_slice()) }
        },
        Err(_) => vstd::pervasive::unreached(),
    }
}

// ---------------------------------------------------------------------------
// New panes
// ---------------------------------------------------------------------------

/// A terminal that has not started yet: of `kind`, in `cwd`, running the
/// kind's command with the default shell type's settings.
pub open spec fn is_new_terminal(p: TerminalPanePayload, kind: TerminalKind, cwd: Seq<char>) -> bool {
    &&& p.kind == kind
    &&& p.shell_type@ == plain_name()
    &&& p.session_id is None
    &&& p.session_state == SessionState::Stopped
    &&& p.cwd@ == cwd
    &&& p.command@ == terminal_command_text(kind)
    &&& p.command_parameters@.len() == 0
    &&& p.on_exit == TerminalExitBehavior::Close
    &&& p.default_width_chars == DEFAULT_TERMINAL_WIDTH_CHARS
    &&& p.exit_code is None
    &&& p.auto_start
    &&& p.restored_buffer@.len() == 0
    &&& p.embedded_session is None
    &&& p.embedded_session_correlation_id is None
    &&& p.agent_attention_state is None
}

/// The kind of terminal a new pane of `pane_type` runs: the one asked for,
/// else a shell for a shell pane and Codex for an agent pane.
pub open spec fn new_terminal_kind(pane_type: PaneType, terminal_kind: Option<TerminalKind>) -> TerminalKind {
    match terminal_kind {
        Some(k) => k,
        None => if pane_type == PaneType::AgentShell {
            TerminalKind::Codex
        } else {
            TerminalKind::Shell
        },
    }
}

fn new_terminal_payload(kind: TerminalKind, cwd: String) -> (r: TerminalPanePayload)
    ensures
        is_new_terminal(r, kind, cwd@),
{
    TerminalPanePayload {
        kind,
        shell_type: default_shell_type_name(),
        session_id: None,
        session_state: SessionState::Stopped,
        cwd,
        command: terminal_command(&kind).to_owned(),
        command_parameters: Vec::new(),
        on_exit: TerminalExitBehavior::Close,
        default_width_chars: DEFAULT_TERMINAL_WIDTH_CHARS,
        exit_code: None,
        auto_start: true,
        restored_buffer: String::new(),
        embedded_session: None,
        embedded_session_correlation_id: None,
        agent_attention_state: None,
    }
}

/// A new pane with id `id` (the caller makes ids unique): a terminal in the
/// workspace directory titled by its kind for shell and agent panes, an
/// empty note, a blank browser page, or a diff that follows the working
/// copy.
pub fn create_pane_state(pane_type: PaneType, workspace_path: String, terminal_kind: Option<TerminalKind>, id: String) -> (r:
    PaneState)
    ensures
        r.id == id,
        r.pane_type == pane_type,
        match pane_type {
            PaneType::Shell | PaneType::AgentShell => {
                let kind = new_terminal_kind(pane_type, terminal_kind);
                &&& r.title@ == terminal_title_text(kind)
                &&& (r.payload matches PanePayload::Terminal(p) && is_new_terminal(p, kind, workspace_path@))
            },
            PaneType::Note => r.title@ == "Note"@ && r.payload == PanePayload::Note(NotePanePayload { note_path: None }),
            PaneType::Browser => r.title@ == "Browser"@ && (r.payload matches PanePayload::Browser(b) && b.url@
                == "about:blank"@ && b.title@ == "Browser"@ && b.pending_popup_id is None),
            PaneType::Diff => r.title@ == "Diff"@ && r.payload == PanePayload::Diff(DiffPanePayload { pinned: false }),
        },
{
    let (title, payload) = match pane_type {
        PaneType::Shell | PaneType::AgentShell => {
            let kind = match terminal_kind {
                Some(k) => k,
                None => match pane_type {
                    PaneType::AgentShell => TerminalKind::Codex,
                    _ => TerminalKind::Shell,
                },
            };
            (terminal_title(&kind).to_owned(), PanePayload::Terminal(new_terminal_payload(kind, workspace_path)))
        },
        PaneType::Note => ("Note".to_owned(), PanePayload::Note(NotePanePayload { note_path: None })),
        PaneType::Browser => (
            "Browser".to_owned(),
            PanePayload::Browser(
                BrowserPanePayload { url: "about:blank".to_owned(), title: "Browser".to_owned(), pending_popup_id: None },
            ),
        ),
        PaneType::Diff => ("Diff".to_owned(), PanePayload::Diff(DiffPanePayload { pinned: false })),
    };
    PaneState { id, pane_type, title, payload }
}

// ---------------------------------------------------------------------------
// Opening a workspace's layout
// ---------------------------------------------------------------------------

/// The layout a workspace opens with: the stored one where it is of the
/// current version, unchanged; else an empty one dated `now`, which is then
/// to be saved (the second part of the result says so).
pub fn restore_layout_at(stored: Option<WorkspaceLayout>, workspace_id: &str, now: i64) -> (r: (WorkspaceLayout, bool))
    ensures
        match stored {
            Some(s) => if s.layout_version == LAYOUT_VERSION {
                r == (s, false)
            } else {
                r.1 && is_empty_layout(r.0, workspace_id@, now)
            },
            None => r.1 && is_empty_layout(r.0, workspace_id@, now),
        },
{
    match stored {
        Some(s) => if s.layout_version == LAYOUT_VERSION {
            (s, false)
        } else {
            (create_default_snapshot_at(workspace_id, now), true)
        },
        None => (create_default_snapshot_at(workspace_id, now), true),
    }
}

} // verus!
