//! Terminal screen snapshots, the damage they carry, and when to present them.
//!
//! A live terminal produces snapshots of its grid faster than a window needs
//! them. Snapshots that queue up are coalesced into the newest one without
//! losing any row that an earlier one marked dirty, and a background terminal
//! is presented at most once per background frame interval.
//!
//! Times are microseconds on one monotonic clock; durations are microseconds.

use vstd::prelude::*;

verus! {

#[derive(Clone, Copy, Debug, PartialEq, Eq, Structural)]
pub struct TerminalRgb {
    pub r: u8,
    pub g: u8,
    pub b: u8,
}

#[derive(Clone, Debug, PartialEq, Eq)]
pub struct TerminalCellSnapshot {
    pub text: String,
    pub width: u8,
    pub fg: Option<TerminalRgb>,
    pub bg: Option<TerminalRgb>,
    pub bold: bool,
    pub italic: bool,
    pub faint: bool,
    pub blink: bool,
    pub underline: bool,
    pub inverse: bool,
    pub invisible: bool,
    pub strikethrough: bool,
    pub overline: bool,
}

#[derive(Clone, Debug, PartialEq, Eq)]
pub struct TerminalRowSnapshot {
    pub cells: Vec<TerminalCellSnapshot>,
}

#[derive(Clone, Copy, Debug, PartialEq, Eq, Structural)]
pub struct TerminalScrollSnapshot {
    pub total: u64,
    pub offset: u64,
    pub len: u64,
}

#[derive(Clone, Copy, Debug, PartialEq, Eq, Structural)]
pub struct TerminalCursorSnapshot {
    pub row: u16,
    pub col: u16,
    pub visible: bool,
}

/// The rows that changed since the previous snapshot; `full` when every row
/// must be repainted; `cells` is the number of cells in those rows.
#[derive(Clone, Debug, PartialEq, Eq)]
pub struct TerminalDamageSnapshot {
    pub full: bool,
    pub rows: Vec<u16>,
    pub cells: u32,
}

#[derive(Clone, Copy, Debug, Default, PartialEq, Eq, Structural)]
pub struct TerminalSnapshotTiming {
    pub pty_to_snapshot_micros: Option<u64>,
    pub pty_output_bytes: u64,
    pub vt_write_micros: u64,
    pub snapshot_update_micros: u64,
    pub snapshot_extract_micros: u64,
    pub snapshot_build_micros: u64,
    pub dirty_rows: u32,
    pub dirty_cells: u32,
}

#[derive(Clone, Debug, PartialEq, Eq)]
pub struct TerminalGridSnapshot {
    pub session_id: String,
    pub cols: u16,
    pub rows: u16,
    pub scroll: TerminalScrollSnapshot,
    pub default_fg: TerminalRgb,
    pub default_bg: TerminalRgb,
    pub cursor: Option<TerminalCursorSnapshot>,
    pub damage: TerminalDamageSnapshot,
    pub rows_data: Vec<TerminalRowSnapshot>,
    pub plain_text: String,
    pub timing: TerminalSnapshotTiming,
}

/// Every row of a grid with `rows` rows, in order.
pub open spec fn all_rows(rows: u16) -> Seq<u16> {
    Seq::new(rows as nat, |i: int| i as u16)
}

pub open spec fn strictly_increasing(v: Seq<u16>) -> bool {
    forall|i: int, j: int| 0 <= i < j < v.len() ==> v[i] < v[j]
}

/// `snapshot` with `rows` as its damage: `cells` and the timing's dirty
/// counts follow from the rows; every other field is kept.
pub open spec fn with_damage(snapshot: TerminalGridSnapshot, out: TerminalGridSnapshot, rows: Seq<u16>, full: bool) -> bool {
    &&& out.damage.rows@ == rows
    &&& out.damage.full == full
    &&& out.damage.cells == rows.len() * snapshot.cols
    &&& out.timing.dirty_rows == rows.len()
    &&& out.timing.dirty_cells == out.damage.cells
    &&& out.timing.pty_to_snapshot_micros == snapshot.timing.pty_to_snapshot_micros
    &&& out.timing.pty_output_bytes == snapshot.timing.pty_output_bytes
    &&& out.timing.vt_write_micros == snapshot.timing.vt_write_micros
    &&& out.timing.snapshot_update_micros == snapshot.timing.snapshot_update_micros
    &&& out.timing.snapshot_extract_micros == snapshot.timing.snapshot_extract_micros
    &&& out.timing.snapshot_build_micros == snapshot.timing.snapshot_build_micros
    &&& out.session_id == snapshot.session_id
    &&& out.cols == snapshot.cols
    &&& out.rows == snapshot.rows
    &&& out.scroll == snapshot.scroll
    &&& out.default_fg == snapshot.default_fg
    &&& out.default_bg == snapshot.default_bg
    &&& out.cursor == snapshot.cursor
    &&& out.rows_data == snapshot.rows_data
    &&& out.plain_text == snapshot.plain_text
}

proof fn lemma_cells_fit(len: nat, cols: u16)
    requires
        len <= u16::MAX,
    ensures
        len * cols <= u32::MAX,
{
    assert(len * cols <= 65535 * 65535) by (nonlinear_arith)
        requires
            len <= 65535,
            cols <= 65535,
    ;
}

fn damage_cells(len: usize, cols: u16) -> (cells: u32)
    requires
        len <= u16::MAX,
    ensures
        cells == len * cols,
{
    proof {
        lemma_cells_fit(len as nat, cols);
    }
    ((len as u64) * (cols as u64)) as u32
}

fn every_row(rows: u16) -> (out: Vec<u16>)
    ensures
        out@ == all_rows(rows),
{
    let mut out: Vec<u16> = Vec::new();
    let mut r: u16 = 0;
    while r < rows
        invariant
            r <= rows,
            out@ == all_rows(r),
        decreases rows - r,
    {
        out.push(r);
        r = r + 1;
        proof {
            assert(out@ =~= all_rows(r));
        }
    }
    out
}

/// Marks every row of `snapshot` dirty, as after a resize or a reattach.
pub fn mark_terminal_snapshot_full_damage(snapshot: &mut TerminalGridSnapshot)
    ensures
        with_damage(*old(snapshot), *final(snapshot), all_rows(old(snapshot).rows), true),
{
    let rows = every_row(snapshot.rows);
    let cells = damage_cells(rows.len(), snapshot.cols);
    snapshot.damage.rows = rows;
    snapshot.damage.full = true;
    snapshot.damage.cells = cells;
    snapshot.timing.dirty_rows = snapshot.rows as u32;
    snapshot.timing.dirty_cells = cells;
}

// ---------------------------------------------------------------------------
// Coalescing
// ---------------------------------------------------------------------------

/// Snapshot `i` cannot be merged row by row into the one before it: it asks
/// for full damage, or it belongs to another session, or the size changed.
pub open spec fn breaks_continuity(s: Seq<TerminalGridSnapshot>, i: int) -> bool {
    ||| s[i].damage.full
    ||| s[i].session_id@ != s[i - 1].session_id@
    ||| s[i].cols != s[i - 1].cols
    ||| s[i].rows != s[i - 1].rows
}

/// The first `k` snapshots force full damage.
pub open spec fn forces_full_upto(s: Seq<TerminalGridSnapshot>, k: int) -> bool {
    s[0].damage.full || exists|i: int| 1 <= i < k && breaks_continuity(s, i)
}

pub open spec fn forces_full(s: Seq<TerminalGridSnapshot>) -> bool {
    forces_full_upto(s, s.len() as int)
}

/// Some of the first `k` snapshots marks `row` dirty.
pub open spec fn dirty_upto(s: Seq<TerminalGridSnapshot>, k: int, row: u16) -> bool {
    exists|i: int, j: int|
        0 <= i < k && 0 <= j < s[i].damage.rows@.len() && #[trigger] s[i].damage.rows@[j] == row
}

pub open spec fn dirty_in_any(s: Seq<TerminalGridSnapshot>, row: u16) -> bool {
    dirty_upto(s, s.len() as int, row)
}

/// The damage rows of the coalesced snapshot: every row when full damage is
/// forced; otherwise each row that any snapshot marked dirty and that the
/// newest snapshot still has, once each, in increasing order.
pub open spec fn coalesced_rows(s: Seq<TerminalGridSnapshot>, rows: Seq<u16>) -> bool {
    let last = s.last();
    if forces_full(s) {
        rows == all_rows(last.rows)
    } else {
        &&& strictly_increasing(rows)
        &&& forall|r: u16| #[trigger] rows.contains(r) <==> (r < last.rows && dirty_in_any(s, r))
    }
}

fn forces_full_exec(s: &Vec<TerminalGridSnapshot>) -> (r: bool)
    requires
        s@.len() > 0,
    ensures
        r == forces_full(s@),
{
    let mut force = s[0].damage.full;
    let mut i: usize = 1;
    while i < s.len()
        invariant
            1 <= i <= s@.len(),
            force == forces_full_upto(s@, i as int),
        decreases s.len() - i,
    {
        let cur = &s[i];
        let prev = &s[i - 1];
        if cur.damage.full || !cur.session_id.eq(&prev.session_id) || cur.cols != prev.cols
            || cur.rows != prev.rows {
            force = true;
            proof {
                assert(breaks_continuity(s@, i as int));
            }
        }
        proof {
            if !force {
                assert(!breaks_continuity(s@, i as int));
                assert forall|k: int| 1 <= k < i + 1 implies !breaks_continuity(s@, k) by {
                    if k < i {
                        assert(!forces_full_upto(s@, i as int));
                    }
                }
            }
        }
        i = i + 1;
    }
    force
}

fn false_mask(n: u16) -> (mask: Vec<bool>)
    ensures
        mask@.len() == n,
        forall|r: int| 0 <= r < n ==> !mask@[r],
{
    let mut mask: Vec<bool> = Vec::new();
    let mut k: u16 = 0;
    while k < n
        invariant
            k <= n,
            mask@.len() == k,
            forall|r: int| 0 <= r < k ==> !mask@[r],
        decreases n - k,
    {
        mask.push(false);
        k = k + 1;
    }
    mask
}

/// `mask[r]` is whether some snapshot marks row `r` dirty, for `r < rows`.
fn dirty_mask(s: &Vec<TerminalGridSnapshot>, rows: u16) -> (mask: Vec<bool>)
    ensures
        mask@.len() == rows,
        forall|r: u16| r < rows ==> (mask@[r as int] <==> dirty_in_any(s@, r)),
{
    let mut mask = false_mask(rows);
    let mut i: usize = 0;
    while i < s.len()
        invariant
            i <= s@.len(),
            mask@.len() == rows,
            forall|r: u16| r < rows ==> (mask@[r as int] <==> dirty_upto(s@, i as int, r)),
        decreases s.len() - i,
    {
        let damage_rows = &s[i].damage.rows;
        let mut j: usize = 0;
        while j < damage_rows.len()
            invariant
                i < s@.len(),
                damage_rows@ == s@[i as int].damage.rows@,
                j <= damage_rows@.len(),
                mask@.len() == rows,
                forall|r: u16|
                    r < rows ==> (mask@[r as int] <==> (dirty_upto(s@, i as int, r) || exists|b: int|
                        0 <= b < j && #[trigger] damage_rows@[b] == r)),
            decreases damage_rows.len() - j,
        {
            let row = damage_rows[j];
            if row < rows {
                mask.set(row as usize, true);
            }
            proof {
                assert forall|r: u16| r < rows implies (mask@[r as int] <==> (dirty_upto(
                    s@,
                    i as int,
                    r,
                ) || exists|b: int| 0 <= b < j + 1 && #[trigger] damage_rows@[b] == r)) by {
                    if r == row {
                        assert(damage_rows@[j as int] == r);
                    }
                    if exists|b: int| 0 <= b < j + 1 && #[trigger] damage_rows@[b] == r {
                        let b = choose|b: int| 0 <= b < j + 1 && #[trigger] damage_rows@[b] == r;
                        if b == j {
                            assert(r == row);
                        }
                    }
                }
            }
            j = j + 1;
        }
        proof {
            assert forall|r: u16| r < rows implies (mask@[r as int] <==> dirty_upto(
                s@,
                i + 1,
                r,
            )) by {
                if exists|b: int| 0 <= b < j && #[trigger] damage_rows@[b] == r {
                    let b = choose|b: int| 0 <= b < j && #[trigger] damage_rows@[b] == r;
                    assert(s@[i as int].damage.rows@[b] == r);
                }
                if dirty_upto(s@, i + 1, r) {
                    let (a, b) = choose|a: int, b: int|
                        0 <= a < i + 1 && 0 <= b < s@[a].damage.rows@.len() && #[trigger] s@[a].damage.rows@[b]
                            == r;
                    if a == i {
                        assert(damage_rows@[b] == r);
                    } else {
                        assert(dirty_upto(s@, i as int, r));
                    }
                }
                if dirty_upto(s@, i as int, r) {
                    let (a, b) = choose|a: int, b: int|
                        0 <= a < i && 0 <= b < s@[a].damage.rows@.len() && #[trigger] s@[a].damage.rows@[b]
                            == r;
                    assert(s@[a].damage.rows@[b] == r);
                }
            }
        }
        i = i + 1;
    }
    mask
}

/// The rows whose mask is set, in increasing order.
fn set_rows(mask: &Vec<bool>, rows: u16) -> (out: Vec<u16>)
    requires
        mask@.len() == rows,
    ensures
        strictly_increasing(out@),
        out@.len() <= rows,
        forall|r: u16| #[trigger] out@.contains(r) <==> (r < rows && mask@[r as int]),
{
    let mut out: Vec<u16> = Vec::new();
    let mut r: u16 = 0;
    while r < rows
        invariant
            r <= rows,
            mask@.len() == rows,
            out@.len() <= r,
            strictly_increasing(out@),
            forall|k: int| 0 <= k < out@.len() ==> out@[k] < r,
            forall|x: u16| #[trigger] out@.contains(x) <==> (x < r && mask@[x as int]),
        decreases rows - r,
    {
        if mask[r as usize] {
            let ghost before = out@;
            out.push(r);
            proof {
                assert forall|x: u16| #[trigger] out@.contains(x) <==> (x < r + 1 && mask@[x as int]) by {
                    if x == r {
                        assert(out@[out@.len() - 1] == r);
                    }
                    if out@.contains(x) && x != r {
                        let k = choose|k: int| 0 <= k < out@.len() && out@[k] == x;
                        assert(before[k] == x);
                        assert(before.contains(x));
                    }
                    if x < r && mask@[x as int] {
                        assert(before.contains(x));
                        let k = choose|k: int| 0 <= k < before.len() && before[k] == x;
                        assert(out@[k] == x);
                    }
                }
            }
        } else {
            proof {
                assert forall|x: u16| #[trigger] out@.contains(x) <==> (x < r + 1 && mask@[x as int]) by {
                    if out@.contains(x) {
                        let k = choose|k: int| 0 <= k < out@.len() && out@[k] == x;
                        assert(x < r);
                    }
                }
            }
        }
        r = r + 1;
    }
    out
}

/// Merges queued snapshots of one terminal into the newest, so that one
/// repaint covers every row that any of them changed. Full damage is forced
/// when a snapshot asks for it or when the session or the size changes
/// between two of them.
pub fn coalesce_terminal_snapshots(snapshots: Vec<TerminalGridSnapshot>) -> (r: Option<
    TerminalGridSnapshot,
>)
    ensures
        r is None <==> snapshots@.len() == 0,
        r matches Some(out) ==> {
            let last = snapshots@.last();
            let full = forces_full(snapshots@) || out.damage.rows@.len() == last.rows;
            &&& coalesced_rows(snapshots@, out.damage.rows@)
            &&& with_damage(last, out, out.damage.rows@, full)
        },
        r matches Some(out) ==> (out.damage.full <==> out.damage.rows@.len() == out.rows),
        r matches Some(out) ==> forall|i: int|
            0 <= i < out.damage.rows@.len() ==> out.damage.rows@[i] < out.rows,
{
    if snapshots.len() == 0 {
        return None;
    }
    let force_full = forces_full_exec(&snapshots);
    let rows = snapshots[snapshots.len() - 1].rows;
    let dirty_rows = if force_full {
        every_row(rows)
    } else {
        let mask = dirty_mask(&snapshots, rows);
        set_rows(&mask, rows)
    };
    let ghost s = snapshots@;
    let mut snapshots = snapshots;
    let mut latest = match snapshots.pop() {
        Some(latest) => latest,
        None => {
            return None;
        },
    };
    assert(latest == s.last());
    let full = force_full || dirty_rows.len() == rows as usize;
    let len = dirty_rows.len();
    let cells = damage_cells(len, latest.cols);
    latest.damage.rows = dirty_rows;
    latest.damage.full = full;
    latest.damage.cells = cells;
    latest.timing.dirty_rows = len as u32;
    latest.timing.dirty_cells = cells;
    proof {
        if !force_full {
            assert forall|i: int| 0 <= i < latest.damage.rows@.len() implies latest.damage.rows@[i]
                < latest.rows by {
                assert(latest.damage.rows@.contains(latest.damage.rows@[i]));
            }
        }
    }
    Some(latest)
}

// ---------------------------------------------------------------------------
// When to present
// ---------------------------------------------------------------------------

/// A focused terminal may be presented this often.
pub const TERMINAL_FOCUSED_FRAME_INTERVAL_MICROS: u64 = 8_000;

/// A terminal in the background is presented at most this often.
pub const TERMINAL_BACKGROUND_FRAME_INTERVAL_MICROS: u64 = 100_000;

pub open spec fn elapsed(since: u64, now: u64) -> int {
    if now >= since {
        now - since
    } else {
        0
    }
}

/// How long a pending snapshot must wait before it is presented: not at all
/// when it is focused or nothing was presented yet; otherwise until a
/// background frame interval has passed since the last presentation.
pub open spec fn presentation_delay(has_pending_snapshot: bool, last_presented_at: Option<u64>, focused: bool, now: u64) -> Option<int> {
    if !has_pending_snapshot || focused {
        None
    } else {
        match last_presented_at {
            None => None,
            Some(at) => if elapsed(at, now) >= TERMINAL_BACKGROUND_FRAME_INTERVAL_MICROS {
                None
            } else {
                Some(TERMINAL_BACKGROUND_FRAME_INTERVAL_MICROS - elapsed(at, now))
            },
        }
    }
}

pub fn terminal_snapshot_presentation_delay_for_state(
    has_pending_snapshot: bool,
    last_presented_at: Option<u64>,
    focused: bool,
    now: u64,
) -> (r: Option<u64>)
    ensures
        match r {
            Some(d) => presentation_delay(has_pending_snapshot, last_presented_at, focused, now)
                == Some(d as int),
            None => presentation_delay(has_pending_snapshot, last_presented_at, focused, now) is None,
        },
{
    if !has_pending_snapshot || focused {
        return None;
    }
    let at = match last_presented_at {
        Some(at) => at,
        None => {
            return None;
        },
    };
    let elapsed = now.saturating_sub(at);
    if elapsed >= TERMINAL_BACKGROUND_FRAME_INTERVAL_MICROS {
        None
    } else {
        Some(TERMINAL_BACKGROUND_FRAME_INTERVAL_MICROS - elapsed)
    }
}

/// What remains of a focused frame interval since the last notification;
/// nothing when there was none.
/// The pending snapshot of a terminal, taken for presenting where no delay
/// holds it back; otherwise it stays pending.
pub fn take_presentable_terminal_snapshot(
    pending: &mut Option<TerminalGridSnapshot>,
    last_presented_at: Option<u64>,
    focused: bool,
    now: u64,
) -> (r: Option<TerminalGridSnapshot>)
    ensures
        if presentation_delay((*old(pending)) is Some, last_presented_at, focused, now) is Some {
            r is None && *final(pending) == *old(pending)
        } else {
            r == *old(pending) && (*final(pending)) is None
        },
{
    if terminal_snapshot_presentation_delay_for_state(pending.is_some(), last_presented_at, focused, now).is_some() {
        return None;
    }
    pending.take()
}

pub open spec fn remaining_frame_delay(last_snapshot_notify_at: Option<u64>, now: u64) -> int {
    match last_snapshot_notify_at {
        None => 0,
        Some(at) => if elapsed(at, now) >= TERMINAL_FOCUSED_FRAME_INTERVAL_MICROS {
            0
        } else {
            TERMINAL_FOCUSED_FRAME_INTERVAL_MICROS - elapsed(at, now)
        },
    }
}

pub fn remaining_terminal_frame_delay(last_snapshot_notify_at: Option<u64>, now: u64) -> (r: u64)
    ensures
        r == remaining_frame_delay(last_snapshot_notify_at, now),
{
    match last_snapshot_notify_at {
        None => 0,
        Some(at) => TERMINAL_FOCUSED_FRAME_INTERVAL_MICROS.saturating_sub(now.saturating_sub(at)),
    }
}

/// How long to gather terminal snapshots before repainting: the rest of the
/// focused frame right after typing into an active window, a focused frame
/// in an active window, a background frame otherwise.
pub open spec fn coalesce_interval(window_active: bool, has_recent_input: bool, last_snapshot_notify_at: Option<u64>, now: u64) -> int {
    if window_active && has_recent_input {
        remaining_frame_delay(last_snapshot_notify_at, now)
    } else if window_active {
        TERMINAL_FOCUSED_FRAME_INTERVAL_MICROS as int
    } else {
        TERMINAL_BACKGROUND_FRAME_INTERVAL_MICROS as int
    }
}

pub fn terminal_snapshot_coalesce_interval(
    window_active: bool,
    has_recent_input: bool,
    last_snapshot_notify_at: Option<u64>,
    now: u64,
) -> (r: u64)
    ensures
        r == coalesce_interval(window_active, has_recent_input, last_snapshot_notify_at, now),
{
    if window_active && has_recent_input {
        remaining_terminal_frame_delay(last_snapshot_notify_at, now)
    } else if window_active {
        TERMINAL_FOCUSED_FRAME_INTERVAL_MICROS
    } else {
        TERMINAL_BACKGROUND_FRAME_INTERVAL_MICROS
    }
}

/// What one pass over the live terminals found: whether anything changed,
/// and the shortest delay after which a deferred snapshot is due.
#[derive(Clone, Copy, Debug, Default, PartialEq, Eq, Structural)]
pub struct TerminalSnapshotDrainResult {
    pub changed: bool,
    pub deferred_delay: Option<u64>,
}

impl TerminalSnapshotDrainResult {
    /// Asks for another pass after `delay`, keeping the sooner of two asks.
    pub fn defer_for(&mut self, delay: u64)
        ensures
            final(self).changed == old(self).changed,
            final(self).deferred_delay == Some(
                match old(self).deferred_delay {
                    Some(current) => if current <= delay {
                        current
                    } else {
                        delay
                    },
                    None => delay,
                },
            ),
    {
        self.deferred_delay = Some(
            match self.deferred_delay {
                Some(current) => if current <= delay {
                    current
                } else {
                    delay
                },
                None => delay,
            },
        );
    }
}

// ---------------------------------------------------------------------------
// Background runs of a row
// ---------------------------------------------------------------------------

/// The background a cell is painted with: its own background, or its
/// foreground when it is drawn inverse, each falling back to the grid's
/// default colour.
pub open spec fn effective_bg(cell: TerminalCellSnapshot, default_fg: TerminalRgb, default_bg: TerminalRgb) -> TerminalRgb {
    if cell.inverse {
        match cell.fg {
            Some(c) => c,
            None => default_fg,
        }
    } else {
        match cell.bg {
            Some(c) => c,
            None => default_bg,
        }
    }
}

/// The background a cell needs painted, `None` where it is the surface's
/// own background `surface_bg`.
pub open spec fn painted_bg(cell: TerminalCellSnapshot, snapshot: TerminalGridSnapshot, surface_bg: TerminalRgb) -> Option<TerminalRgb> {
    let bg = effective_bg(cell, snapshot.default_fg, snapshot.default_bg);
    if bg == surface_bg {
        None
    } else {
        Some(bg)
    }
}

/// A span of `cell_count` cells from `start_col` that share one painted
/// background colour.
#[derive(Clone, Copy, Debug, PartialEq, Eq, Structural)]
pub struct TerminalBackgroundRun {
    pub start_col: usize,
    pub cell_count: usize,
    pub color: TerminalRgb,
}

pub open spec fn run_end(run: TerminalBackgroundRun) -> int {
    run.start_col + run.cell_count
}

pub open spec fn run_covers(run: TerminalBackgroundRun, col: int) -> bool {
    run.start_col <= col < run_end(run)
}

/// `runs` are the maximal spans of equal painted background in `painted`,
/// left to right: every painted cell lies in one run, every cell of a run
/// has the run's colour, and two runs that touch differ in colour.
pub open spec fn background_runs_of(painted: Seq<Option<TerminalRgb>>, runs: Seq<TerminalBackgroundRun>) -> bool {
    &&& forall|k: int| 0 <= k < runs.len() ==> #[trigger] runs[k].cell_count > 0 && run_end(runs[k]) <= painted.len()
    &&& forall|k: int, c: int| 0 <= k < runs.len() && #[trigger] run_covers(runs[k], c) ==> painted[c] == Some(runs[k].color)
    &&& forall|k: int, l: int| 0 <= k < l < runs.len() ==> run_end(#[trigger] runs[k]) <= (#[trigger] runs[l]).start_col
    &&& forall|k: int, l: int| 0 <= k < l < runs.len() && run_end(#[trigger] runs[k]) == (#[trigger] runs[l]).start_col
        ==> runs[k].color != runs[l].color
    &&& forall|c: int| 0 <= c < painted.len() && (#[trigger] painted[c]) is Some
        ==> exists|k: int| 0 <= k < runs.len() && #[trigger] run_covers(runs[k], c)
}

pub open spec fn painted_row(row: TerminalRowSnapshot, snapshot: TerminalGridSnapshot, surface_bg: TerminalRgb) -> Seq<Option<TerminalRgb>> {
    row.cells@.map_values(|cell: TerminalCellSnapshot| painted_bg(cell, snapshot, surface_bg))
}

fn cell_painted_bg(cell: &TerminalCellSnapshot, snapshot: &TerminalGridSnapshot, surface_bg: TerminalRgb) -> (r: Option<TerminalRgb>)
    ensures
        r == painted_bg(*cell, *snapshot, surface_bg),
{
    let bg = if cell.inverse {
        match cell.fg {
            Some(c) => c,
            None => snapshot.default_fg,
        }
    } else {
        match cell.bg {
            Some(c) => c,
            None => snapshot.default_bg,
        }
    };
    if bg.r == surface_bg.r && bg.g == surface_bg.g && bg.b == surface_bg.b {
        None
    } else {
        Some(bg)
    }
}

/// The spans of a row whose background must be painted over a surface of
/// colour `surface_bg`, each as long as its colour lasts.
pub fn terminal_background_runs(
    row_index: u16,
    row: &TerminalRowSnapshot,
    snapshot: &TerminalGridSnapshot,
    surface_bg: TerminalRgb,
) -> (runs: Vec<TerminalBackgroundRun>)
    ensures
        background_runs_of(painted_row(*row, *snapshot, surface_bg), runs@),
{
    let ghost painted = painted_row(*row, *snapshot, surface_bg);
    let mut runs: Vec<TerminalBackgroundRun> = Vec::new();
    let mut open = false;
    let mut col: usize = 0;
    while col < row.cells.len()
        invariant
            col <= row.cells.len(),
            painted == painted_row(*row, *snapshot, surface_bg),
            painted.len() == row.cells.len(),
            background_runs_of(painted.take(col as int), runs@),
            open ==> runs.len() > 0 && run_end(runs@.last()) == col,
            !open ==> col == 0 || painted[col - 1] is None,
        decreases row.cells.len() - col,
    {
        let ghost before = runs@;
        let ghost prefix = painted.take(col as int);
        let ghost next = painted.take(col + 1);
        assert(next =~= prefix.push(painted[col as int]));
        let bg = cell_painted_bg(&row.cells[col], snapshot, surface_bg);
        assert(bg == painted[col as int]);
        match bg {
            Some(color) => {
                let n = runs.len();
                if open && runs[n - 1].color == color {
                    let last = runs[n - 1];
                    proof {
                        assert(last.cell_count > 0);
                    }
                    runs.set(n - 1, TerminalBackgroundRun {
                        start_col: last.start_col,
                        cell_count: last.cell_count + 1,
                        color,
                    });
                    proof {
                        let after = runs@;
                        assert forall|k: int, c: int| 0 <= k < after.len() && #[trigger] run_covers(after[k], c)
                            implies next[c] == Some(after[k].color) by {
                            if k < n - 1 {
                                assert(after[k] == before[k]);
                                assert(run_covers(before[k], c));
                                assert(run_end(before[k]) <= before[n - 1].start_col);
                            } else if c < col {
                                assert(run_covers(before[k], c));
                            }
                        }
                        assert forall|k: int, l: int| 0 <= k < l < after.len() implies run_end(#[trigger] after[k]) <= (#[trigger] after[l]).start_col by {
                            assert(after[k] == before[k]);
                            assert(run_end(before[k]) <= before[l].start_col);
                        }
                        assert forall|k: int, l: int| 0 <= k < l < after.len() && run_end(#[trigger] after[k]) == (#[trigger] after[l]).start_col
                            implies after[k].color != after[l].color by {
                            assert(after[k] == before[k]);
                            assert(run_end(before[k]) <= before[l].start_col);
                        }
                        assert forall|c: int| 0 <= c < next.len() && (#[trigger] next[c]) is Some
                            implies exists|k: int| 0 <= k < after.len() && #[trigger] run_covers(after[k], c) by {
                            if c == col {
                                assert(run_covers(after[n - 1], c));
                            } else {
                                assert(prefix[c] is Some);
                                let k = choose|k: int| 0 <= k < before.len() && #[trigger] run_covers(before[k], c);
                                assert(run_covers(after[k], c));
                            }
                        }
                        assert forall|k: int| 0 <= k < after.len() implies #[trigger] after[k].cell_count > 0 && run_end(after[k]) <= next.len() by {
                            if k < n - 1 {
                                assert(after[k] == before[k]);
                            }
                        }
                    }
                } else {
                    runs.push(TerminalBackgroundRun { start_col: col, cell_count: 1, color });
                    proof {
                        let after = runs@;
                        let m = before.len() as int;
                        assert(after[m] == (TerminalBackgroundRun { start_col: col, cell_count: 1, color }));
                        if m > 0 {
                            assert(before[m - 1].cell_count > 0 && run_end(before[m - 1]) <= col);
                            if run_end(before[m - 1]) == col && !open {
                                assert(run_covers(before[m - 1], col - 1));
                            }
                        }
                        assert forall|k: int, c: int| 0 <= k < after.len() && #[trigger] run_covers(after[k], c)
                            implies next[c] == Some(after[k].color) by {
                            if k < m {
                                assert(after[k] == before[k]);
                                assert(run_covers(before[k], c));
                            }
                        }
                        assert forall|k: int, l: int| 0 <= k < l < after.len() implies run_end(#[trigger] after[k]) <= (#[trigger] after[l]).start_col by {
                            assert(after[k] == before[k]);
                            if l < m {
                                assert(after[l] == before[l]);
                            } else if k < m - 1 {
                                assert(run_end(before[k]) <= before[m - 1].start_col);
                            }
                        }
                        assert forall|k: int, l: int| 0 <= k < l < after.len() && run_end(#[trigger] after[k]) == (#[trigger] after[l]).start_col
                            implies after[k].color != after[l].color by {
                            assert(after[k] == before[k]);
                            if l < m {
                                assert(after[l] == before[l]);
                            } else if k < m - 1 {
                                assert(run_end(before[k]) <= before[m - 1].start_col);
                                assert(before[m - 1].cell_count > 0);
                            }
                        }
                        assert forall|c: int| 0 <= c < next.len() && (#[trigger] next[c]) is Some
                            implies exists|k: int| 0 <= k < after.len() && #[trigger] run_covers(after[k], c) by {
                            if c == col {
                                assert(run_covers(after[m], c));
                            } else {
                                assert(prefix[c] is Some);
                                let k = choose|k: int| 0 <= k < before.len() && #[trigger] run_covers(before[k], c);
                                assert(after[k] == before[k]);
                                assert(run_covers(after[k], c));
                            }
                        }
                        assert forall|k: int| 0 <= k < after.len() implies #[trigger] after[k].cell_count > 0 && run_end(after[k]) <= next.len() by {
                            if k < m {
                                assert(after[k] == before[k]);
                            }
                        }
                    }
                }
                open = true;
            },
            None => {
                proof {
                    let after = runs@;
                    assert forall|k: int, c: int| 0 <= k < after.len() && #[trigger] run_covers(after[k], c)
                        implies next[c] == Some(after[k].color) by {
                        assert(run_covers(before[k], c));
                    }
                    assert forall|c: int| 0 <= c < next.len() && (#[trigger] next[c]) is Some
                        implies exists|k: int| 0 <= k < after.len() && #[trigger] run_covers(after[k], c) by {
                        assert(prefix[c] is Some);
                    }
                }
                open = false;
            },
        }
        col = col + 1;
    }
    proof {
        assert(painted.take(col as int) =~= painted);
    }
    runs
}

// ---------------------------------------------------------------------------
// The cursor
// ---------------------------------------------------------------------------

/// The glyph drawn on top of the cursor block, in the surface's background
/// colour.
#[derive(Clone, Debug, PartialEq, Eq)]
pub struct TerminalCursorGlyph {
    pub row_index: usize,
    pub col_index: usize,
    pub text: String,
    pub cell_width: u8,
    pub color: TerminalRgb,
    pub bold: bool,
    pub italic: bool,
    pub underline: bool,
    pub strikethrough: bool,
    pub overline: bool,
}

/// The cursor block: its cell, its width in cells, its colour and the glyph
/// over it.
#[derive(Clone, Debug, PartialEq, Eq)]
pub struct TerminalPaintCursor {
    pub row_index: usize,
    pub col_index: usize,
    pub cell_width: u8,
    pub background: TerminalRgb,
    pub glyph_cell: Option<TerminalCursorGlyph>,
}

/// The cursor and the cell under it, where the cursor shows and lies in
/// the grid.
pub open spec fn cursor_cell(snapshot: TerminalGridSnapshot) -> Option<(TerminalCursorSnapshot, TerminalCellSnapshot)> {
    match snapshot.cursor {
        Some(c) => if c.visible && c.row < snapshot.rows && c.col < snapshot.cols && c.row
            < snapshot.rows_data@.len() && c.col < snapshot.rows_data@[c.row as int].cells@.len() {
            Some((c, snapshot.rows_data@[c.row as int].cells@[c.col as int]))
        } else {
            None
        },
        None => None,
    }
}

/// A cell whose text is drawn: it has width, is not invisible, and holds
/// something other than nothing or a space.
pub open spec fn draws_glyph(cell: TerminalCellSnapshot) -> bool {
    cell.width > 0 && !cell.invisible && cell.text@.len() > 0 && cell.text@ != seq![' ']
}

/// What the cursor paints: a block in `default_fg` over its cell, and the
/// cell's glyph in `default_bg` where the cell draws one.
pub fn terminal_paint_cursor(snapshot: &TerminalGridSnapshot, default_fg: TerminalRgb, default_bg: TerminalRgb) -> (r: Option<
    TerminalPaintCursor,
>)
    ensures
        match r {
            None => cursor_cell(*snapshot) is None,
            Some(p) => cursor_cell(*snapshot) matches Some((c, cell)) && {
                &&& p.row_index == c.row
                &&& p.col_index == c.col
                &&& p.cell_width == (if cell.width > 0 { cell.width } else { 1 })
                &&& p.background == default_fg
                &&& match p.glyph_cell {
                    Some(g) => draws_glyph(cell) && g.row_index == c.row && g.col_index == c.col
                        && g.text@ == cell.text@ && g.cell_width == cell.width && g.color == default_bg
                        && g.bold == cell.bold && g.italic == cell.italic && g.underline == cell.underline
                        && g.strikethrough == cell.strikethrough && g.overline == cell.overline,
                    None => !draws_glyph(cell),
                }
            },
        },
{
    let cursor = match snapshot.cursor {
        Some(c) => c,
        None => {
            return None;
        },
    };
    if !(cursor.visible && cursor.row < snapshot.rows && cursor.col < snapshot.cols) {
        return None;
    }
    let row_index = cursor.row as usize;
    let col_index = cursor.col as usize;
    if row_index >= snapshot.rows_data.len() {
        return None;
    }
    let row = &snapshot.rows_data[row_index];
    if col_index >= row.cells.len() {
        return None;
    }
    let cell = &row.cells[col_index];
    let text_chars = crate::text::str_chars(cell.text.as_str());
    let is_space = text_chars.len() == 1 && text_chars[0] == ' ';
    proof {
        if text_chars@.len() == 1 && text_chars@[0] != ' ' {
            assert(cell.text@ != seq![' ']) by {
                assert(cell.text@[0] != seq![' '][0]);
            }
        }
        if is_space {
            assert(cell.text@ =~= seq![' ']);
        }
    }
    let glyph_cell = if cell.width > 0 && !cell.invisible && text_chars.len() > 0 && !is_space {
        Some(TerminalCursorGlyph {
            row_index,
            col_index,
            text: cell.text.clone(),
            cell_width: cell.width,
            color: default_bg,
            bold: cell.bold,
            italic: cell.italic,
            underline: cell.underline,
            strikethrough: cell.strikethrough,
            overline: cell.overline,
        })
    } else {
        None
    };
    Some(TerminalPaintCursor {
        row_index,
        col_index,
        cell_width: if cell.width > 0 { cell.width } else { 1 },
        background: default_fg,
        glyph_cell,
    })
}

// ---------------------------------------------------------------------------
// Rows a paint pass rebuilds
// ---------------------------------------------------------------------------

/// A row is rebuilt when the cache no longer fits the grid, the damage is
/// full, the row is damaged, or the cache lacks it; other rows are reused.
pub open spec fn rebuilds_row(cache_invalid: bool, damage: TerminalDamageSnapshot, cached: Seq<bool>, row: int) -> bool {
    cache_invalid || damage.full || damage.rows@.contains(row as u16) || !cached[row]
}

fn contains_row(rows: &Vec<u16>, row: u16) -> (r: bool)
    ensures
        r == rows@.contains(row),
{
    let mut k: usize = 0;
    while k < rows.len()
        invariant
            k <= rows.len(),
            forall|j: int| 0 <= j < k ==> rows@[j] != row,
        decreases rows.len() - k,
    {
        if rows[k] == row {
            return true;
        }
        k = k + 1;
    }
    false
}

/// For each row of the grid, whether this paint pass rebuilds it.
/// `cached` tells which rows the cache holds; a grid has at most
/// `u16::MAX + 1` rows.
pub fn terminal_rebuild_row_flags(cache_invalid: bool, damage: &TerminalDamageSnapshot, cached: &[bool]) -> (r: Vec<bool>)
    requires
        cached@.len() <= u16::MAX + 1,
    ensures
        r@.len() == cached@.len(),
        forall|i: int| 0 <= i < cached@.len() ==> r@[i] == rebuilds_row(cache_invalid, *damage, cached@, i),
{
    let mut flags: Vec<bool> = Vec::new();
    let mut i: usize = 0;
    while i < cached.len()
        invariant
            i <= cached@.len(),
            cached@.len() <= u16::MAX + 1,
            flags@.len() == i,
            forall|k: int| 0 <= k < i ==> flags@[k] == rebuilds_row(cache_invalid, *damage, cached@, k),
        decreases cached.len() - i,
    {
        let row = i as u16;
        let rebuild = cache_invalid || damage.full || contains_row(&damage.rows, row) || !cached[i];
        flags.push(rebuild);
        i = i + 1;
    }
    flags
}

} // verus!
