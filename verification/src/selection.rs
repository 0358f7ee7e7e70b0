//! Text selection in a terminal grid, and the text that a selection copies.
//!
//! A selection runs from an anchor cell to an active cell. In the linear
//! mode it covers the cells between the two in reading order; in the
//! rectangular mode it covers the box that they span. Either way it becomes
//! one run of columns per row.

use vstd::prelude::*;
use crate::grid::{TerminalCellSnapshot, TerminalRowSnapshot, TerminalGridSnapshot};
use crate::shell::KeystrokeModifiers;
use crate::text::{trim, trim_end, str_chars, push_all, trim_end_len, trim_bounds, slice_range, string_from_chars};
use crate::split::{join, join_exec, split_char, split_exec};

verus! {

#[derive(Clone, Copy, Debug, PartialEq, Eq, Structural)]
pub struct TerminalGridPoint {
    pub row: u16,
    pub col: u16,
}

/// `rectangular`: select a box of columns; `filter_indent`: drop the
/// indentation that all copied lines share.
#[derive(Clone, Copy, Debug, Default, PartialEq, Eq, Structural)]
pub struct TerminalSelectionMode {
    pub rectangular: bool,
    pub filter_indent: bool,
}

#[derive(Clone, Copy, Debug, PartialEq, Eq, Structural)]
pub struct TerminalSelection {
    pub anchor: TerminalGridPoint,
    pub active: TerminalGridPoint,
    pub mode: TerminalSelectionMode,
}

#[derive(Clone, Copy, Debug, PartialEq, Eq, Structural)]
pub struct TerminalSelectionDrag {
    pub anchor: TerminalGridPoint,
}

/// Columns `start_col..end_col` of one row.
#[derive(Clone, Copy, Debug, PartialEq, Eq, Structural)]
pub struct TerminalSelectionRun {
    pub row: u16,
    pub start_col: u16,
    pub end_col: u16,
}

/// The mode of a drag: control selects a box, shift drops the shared
/// indentation.
pub fn terminal_selection_mode_from_modifiers(modifiers: KeystrokeModifiers) -> (r: TerminalSelectionMode)
    ensures
        r.rectangular == modifiers.control,
        r.filter_indent == modifiers.shift,
{
    TerminalSelectionMode { rectangular: modifiers.control, filter_indent: modifiers.shift }
}

pub open spec fn min16(a: u16, b: u16) -> u16 {
    if a <= b {
        a
    } else {
        b
    }
}

pub open spec fn max16(a: u16, b: u16) -> u16 {
    if a >= b {
        a
    } else {
        b
    }
}

/// `a + 1`, saturating.
pub open spec fn inc16(a: u16) -> u16 {
    if a == u16::MAX {
        a
    } else {
        (a + 1) as u16
    }
}

/// `a - 1`, saturating.
pub open spec fn dec16(a: u16) -> u16 {
    if a == 0 {
        0
    } else {
        (a - 1) as u16
    }
}

/// `a` comes no later than `b` in reading order.
pub open spec fn point_le(a: TerminalGridPoint, b: TerminalGridPoint) -> bool {
    a.row < b.row || (a.row == b.row && a.col <= b.col)
}

pub open spec fn ordered_points(selection: TerminalSelection) -> (TerminalGridPoint, TerminalGridPoint) {
    if point_le(selection.anchor, selection.active) {
        (selection.anchor, selection.active)
    } else {
        (selection.active, selection.anchor)
    }
}

/// The selection with its two ends exchanged.
pub open spec fn swapped(selection: TerminalSelection) -> TerminalSelection {
    TerminalSelection { anchor: selection.active, active: selection.anchor, mode: selection.mode }
}

/// The run of a linear selection from `start` to `end` on `row`, where the
/// selection's rows are `first..=last`; none when it would be empty.
pub open spec fn linear_run(
    row: u16,
    first: u16,
    last: u16,
    start: TerminalGridPoint,
    end: TerminalGridPoint,
    cols: u16,
) -> Option<TerminalSelectionRun> {
    let start_col = min16(
        if row == first {
            start.col
        } else {
            0
        },
        cols,
    );
    let end_col = min16(
        if row == last {
            inc16(end.col)
        } else {
            cols
        },
        cols,
    );
    if end_col > start_col {
        Some(TerminalSelectionRun { row, start_col, end_col })
    } else {
        None
    }
}

/// The runs of rows `row..=last` of a linear selection.
pub open spec fn linear_runs_from(
    row: int,
    first: u16,
    last: u16,
    start: TerminalGridPoint,
    end: TerminalGridPoint,
    cols: u16,
) -> Seq<TerminalSelectionRun>
    decreases last + 1 - row,
{
    if row > last || row < 0 {
        seq![]
    } else {
        let rest = linear_runs_from(row + 1, first, last, start, end, cols);
        match linear_run(row as u16, first, last, start, end, cols) {
            Some(run) => seq![run] + rest,
            None => rest,
        }
    }
}

/// The runs of a rectangular selection: the same columns on every row.
pub open spec fn rectangular_runs(selection: TerminalSelection, cols: u16, rows: u16) -> Seq<
    TerminalSelectionRun,
> {
    let a = selection.anchor;
    let b = selection.active;
    let start_col = min16(min16(a.col, b.col), cols);
    let end_col = min16(inc16(max16(a.col, b.col)), cols);
    let low = min16(min16(a.row, b.row), dec16(rows));
    let high = min16(max16(a.row, b.row), dec16(rows));
    if end_col <= start_col {
        seq![]
    } else {
        Seq::new(
            (high - low + 1) as nat,
            |i: int| TerminalSelectionRun { row: (low + i) as u16, start_col, end_col },
        )
    }
}

/// The runs that a selection covers in a `cols` by `rows` grid, top to bottom.
pub open spec fn selection_runs(selection: TerminalSelection, cols: u16, rows: u16) -> Seq<
    TerminalSelectionRun,
> {
    if cols == 0 || rows == 0 || selection.anchor == selection.active {
        seq![]
    } else if selection.mode.rectangular {
        rectangular_runs(selection, cols, rows)
    } else {
        let (start, end) = ordered_points(selection);
        let first = min16(start.row, (rows - 1) as u16);
        let last = min16(end.row, (rows - 1) as u16);
        linear_runs_from(first as int, first, last, start, end, cols)
    }
}

/// Runs lie inside the grid, hold at least one column, and go down the rows.
pub open spec fn runs_in_grid(runs: Seq<TerminalSelectionRun>, cols: u16, rows: u16) -> bool {
    &&& forall|i: int|
        0 <= i < runs.len() ==> #[trigger] runs[i].row < rows && runs[i].start_col < runs[i].end_col
            && runs[i].end_col <= cols
    &&& forall|i: int, j: int| 0 <= i < j < runs.len() ==> runs[i].row < runs[j].row
}

fn min_u16(a: u16, b: u16) -> (r: u16)
    ensures
        r == min16(a, b),
{
    if a <= b {
        a
    } else {
        b
    }
}

fn max_u16(a: u16, b: u16) -> (r: u16)
    ensures
        r == max16(a, b),
{
    if a >= b {
        a
    } else {
        b
    }
}

pub fn terminal_selection_ordered_points(selection: &TerminalSelection) -> (r: (
    TerminalGridPoint,
    TerminalGridPoint,
))
    ensures
        r == ordered_points(*selection),
{
    let a = selection.anchor;
    let b = selection.active;
    if a.row < b.row || (a.row == b.row && a.col <= b.col) {
        (a, b)
    } else {
        (b, a)
    }
}

proof fn lemma_linear_runs_in_grid(
    row: int,
    first: u16,
    last: u16,
    start: TerminalGridPoint,
    end: TerminalGridPoint,
    cols: u16,
    rows: u16,
)
    requires
        last < rows,
    ensures
        runs_in_grid(linear_runs_from(row, first, last, start, end, cols), cols, rows),
        forall|i: int|
            0 <= i < linear_runs_from(row, first, last, start, end, cols).len() ==> row
                <= #[trigger] linear_runs_from(row, first, last, start, end, cols)[i].row,
    decreases last + 1 - row,
{
    if row > last || row < 0 {
    } else {
        lemma_linear_runs_in_grid(row + 1, first, last, start, end, cols, rows);
    }
}

pub fn terminal_rectangular_selection_runs(selection: &TerminalSelection, cols: u16, rows: u16) -> (out:
    Vec<TerminalSelectionRun>)
    ensures
        out@ == rectangular_runs(*selection, cols, rows),
{
    let a = selection.anchor;
    let b = selection.active;
    let start_row = min_u16(a.row, b.row);
    let end_row = max_u16(a.row, b.row);
    let start_col = min_u16(min_u16(a.col, b.col), cols);
    let high_col = max_u16(a.col, b.col);
    let end_col = min_u16(high_col.saturating_add(1), cols);
    let mut out: Vec<TerminalSelectionRun> = Vec::new();
    if end_col <= start_col {
        return out;
    }
    let last_row = rows.saturating_sub(1);
    let low = min_u16(start_row, last_row);
    let high = min_u16(end_row, last_row);
    let ghost spec_runs = rectangular_runs(*selection, cols, rows);
    let mut row = low;
    loop
        invariant
            low <= row <= high,
            spec_runs == rectangular_runs(*selection, cols, rows),
            spec_runs == Seq::new(
                (high - low + 1) as nat,
                |i: int| TerminalSelectionRun { row: (low + i) as u16, start_col, end_col },
            ),
            out@ == spec_runs.take(row - low),
        decreases high - row,
    {
        out.push(TerminalSelectionRun { row, start_col, end_col });
        proof {
            assert(spec_runs.take(row - low + 1) =~= spec_runs.take(row - low).push(
                spec_runs[row - low],
            ));
        }
        if row == high {
            proof {
                assert(spec_runs.take(row - low + 1) =~= spec_runs);
            }
            return out;
        }
        row = row + 1;
    }
}

/// The runs of a selection, row by row.
pub fn terminal_selection_runs(selection: &TerminalSelection, cols: u16, rows: u16) -> (out: Vec<
    TerminalSelectionRun,
>)
    ensures
        out@ == selection_runs(*selection, cols, rows),
        runs_in_grid(out@, cols, rows),
{
    if cols == 0 || rows == 0 || selection.anchor == selection.active {
        return Vec::new();
    }
    if selection.mode.rectangular {
        return terminal_rectangular_selection_runs(selection, cols, rows);
    }
    let (start, end) = terminal_selection_ordered_points(selection);
    let first = min_u16(start.row, rows - 1);
    let last = min_u16(end.row, rows - 1);
    let ghost total = linear_runs_from(first as int, first, last, start, end, cols);
    proof {
        lemma_linear_runs_in_grid(first as int, first, last, start, end, cols, rows);
    }
    let mut out: Vec<TerminalSelectionRun> = Vec::new();
    let mut row = first;
    while row <= last
        invariant
            first <= row,
            last < rows,
            row <= last + 1,
            total == linear_runs_from(first as int, first, last, start, end, cols),
            out@ + linear_runs_from(row as int, first, last, start, end, cols) == total,
        decreases last + 1 - row,
    {
        let start_col = min_u16(
            if row == first {
                start.col
            } else {
                0
            },
            cols,
        );
        let end_col = min_u16(
            if row == last {
                end.col.saturating_add(1)
            } else {
                cols
            },
            cols,
        );
        let ghost rest = linear_runs_from(row + 1, first, last, start, end, cols);
        if end_col > start_col {
            let run = TerminalSelectionRun { row, start_col, end_col };
            proof {
                assert(linear_run(row, first, last, start, end, cols) == Some(run));
                assert((out@.push(run)) + rest =~= out@ + (seq![run] + rest));
            }
            out.push(run);
        }
        row = row + 1;
    }
    proof {
        assert(out@ + linear_runs_from(row as int, first, last, start, end, cols) =~= out@);
    }
    out
}

/// Exchanging the ends of a selection selects the same runs.
pub proof fn lemma_selection_runs_symmetric(selection: TerminalSelection, cols: u16, rows: u16)
    ensures
        selection_runs(swapped(selection), cols, rows) == selection_runs(selection, cols, rows),
{
    let s = swapped(selection);
    if selection.anchor != selection.active {
        assert(ordered_points(s) == ordered_points(selection));
        assert(rectangular_runs(s, cols, rows) =~= rectangular_runs(selection, cols, rows));
    }
}

// ---------------------------------------------------------------------------
// Selected text
// ---------------------------------------------------------------------------

/// What one cell contributes to copied text: nothing for a cell covered by
/// a wide neighbour or an invisible cell, a space for an empty cell.
pub open spec fn cell_piece(cell: TerminalCellSnapshot) -> Seq<char> {
    if cell.width == 0 || cell.invisible {
        seq![]
    } else if cell.text@.len() == 0 {
        seq![' ']
    } else {
        cell.text@
    }
}

/// The text of columns `start..end` of a row; columns past the row's end
/// contribute nothing.
pub open spec fn row_text(cells: Seq<TerminalCellSnapshot>, start: int, end: int) -> Seq<char>
    decreases end - start,
{
    if end <= start {
        seq![]
    } else {
        row_text(cells, start, end - 1) + (if end - 1 < cells.len() {
            cell_piece(cells[end - 1])
        } else {
            seq![]
        })
    }
}

/// The copied lines: one per run whose row exists; linear selections drop
/// each line's trailing whitespace, the padding of the row.
pub open spec fn selection_lines(
    rows_data: Seq<TerminalRowSnapshot>,
    runs: Seq<TerminalSelectionRun>,
    rectangular: bool,
) -> Seq<Seq<char>>
    decreases runs.len(),
{
    if runs.len() == 0 {
        seq![]
    } else {
        let previous = selection_lines(rows_data, runs.drop_last(), rectangular);
        let run = runs.last();
        if run.row < rows_data.len() {
            let line = row_text(rows_data[run.row as int].cells@, run.start_col as int, run.end_col as int);
            previous.push(
                if rectangular {
                    line
                } else {
                    trim_end(line)
                },
            )
        } else {
            previous
        }
    }
}

pub open spec fn selection_text_unfiltered(snapshot: TerminalGridSnapshot, selection: TerminalSelection) -> Seq<char> {
    join(
        selection_lines(
            snapshot.rows_data@,
            selection_runs(selection, snapshot.cols, snapshot.rows),
            selection.mode.rectangular,
        ),
        seq!['\n'],
    )
}

fn cell_piece_into(out: &mut Vec<char>, cell: &TerminalCellSnapshot)
    ensures
        final(out)@ == old(out)@ + cell_piece(*cell),
{
    if cell.width == 0 || cell.invisible {
        proof {
            assert(old(out)@ + seq![] =~= old(out)@);
        }
        return;
    }
    let text = str_chars(cell.text.as_str());
    if text.len() == 0 {
        out.push(' ');
        proof {
            assert(old(out)@ + seq![' '] =~= old(out)@.push(' '));
        }
    } else {
        push_all(out, text.as_slice());
    }
}

fn row_text_exec(cells: &Vec<TerminalCellSnapshot>, start: u16, end: u16) -> (out: Vec<char>)
    ensures
        out@ == row_text(cells@, start as int, end as int),
{
    let mut out: Vec<char> = Vec::new();
    if end <= start {
        return out;
    }
    let mut col = start;
    while col < end
        invariant
            start <= col <= end,
            out@ == row_text(cells@, start as int, col as int),
        decreases end - col,
    {
        if (col as usize) < cells.len() {
            cell_piece_into(&mut out, &cells[col as usize]);
        } else {
            proof {
                assert(out@ + seq![] =~= out@);
            }
        }
        col = col + 1;
    }
    out
}

pub fn terminal_selection_text_unfiltered(snapshot: &TerminalGridSnapshot, selection: &TerminalSelection) -> (r: String)
    ensures
        r@ == selection_text_unfiltered(*snapshot, *selection),
{
    let runs = terminal_selection_runs(selection, snapshot.cols, snapshot.rows);
    let ghost all_lines = selection_lines(snapshot.rows_data@, runs@, selection.mode.rectangular);
    let mut lines: Vec<Vec<char>> = Vec::new();
    let mut i: usize = 0;
    while i < runs.len()
        invariant
            i <= runs@.len(),
            lines@.map_values(|p: Vec<char>| p@) == selection_lines(
                snapshot.rows_data@,
                runs@.take(i as int),
                selection.mode.rectangular,
            ),
        decreases runs.len() - i,
    {
        let run = runs[i];
        proof {
            assert(runs@.take(i + 1).drop_last() =~= runs@.take(i as int));
        }
        if (run.row as usize) < snapshot.rows_data.len() {
            let line = row_text_exec(&snapshot.rows_data[run.row as usize].cells, run.start_col, run.end_col);
            if selection.mode.rectangular {
                lines.push(line);
            } else {
                let j = trim_end_len(line.as_slice());
                lines.push(slice_range(line.as_slice(), 0, j));
            }
            proof {
                assert(lines@.map_values(|p: Vec<char>| p@) =~= selection_lines(
                    snapshot.rows_data@,
                    runs@.take(i as int),
                    selection.mode.rectangular,
                ).push(lines@.last()@));
            }
        }
        i = i + 1;
    }
    proof {
        assert(runs@.take(runs@.len() as int) =~= runs@);
    }
    let sep = ['\n'];
    assert(sep@ =~= seq!['\n']);
    let text = join_exec(&lines, &sep);
    string_from_chars(text.as_slice())
}

// ---------------------------------------------------------------------------
// Removing shared indentation
// ---------------------------------------------------------------------------

pub open spec fn is_indent_char(c: char) -> bool {
    c == ' ' || c == '\t'
}

/// The number of spaces and tabs that `line` starts with.
pub open spec fn indent_len(line: Seq<char>) -> nat
    decreases line.len(),
{
    if line.len() > 0 && is_indent_char(line[0]) {
        1 + indent_len(line.drop_first())
    } else {
        0
    }
}

/// The least indentation of the lines that hold more than whitespace.
pub open spec fn min_indent(lines: Seq<Seq<char>>) -> Option<nat>
    decreases lines.len(),
{
    if lines.len() == 0 {
        None
    } else {
        let previous = min_indent(lines.drop_last());
        let line = lines.last();
        if trim(line).len() == 0 {
            previous
        } else {
            match previous {
                None => Some(indent_len(line)),
                Some(m) => Some(
                    if indent_len(line) < m {
                        indent_len(line)
                    } else {
                        m
                    },
                ),
            }
        }
    }
}

pub open spec fn common_indent(lines: Seq<Seq<char>>) -> nat {
    match min_indent(lines) {
        Some(m) => m,
        None => 0,
    }
}

proof fn lemma_min_indent(lines: Seq<Seq<char>>)
    ensures
        match min_indent(lines) {
            Some(m) => (forall|j: int| 0 <= j < lines.len() && trim(lines[j]).len() > 0 ==> m <= indent_len(
                #[trigger] lines[j],
            )) && (exists|j: int| 0 <= j < lines.len() && trim(lines[j]).len() > 0 && m == indent_len(lines[j])),
            None => forall|j: int| 0 <= j < lines.len() ==> trim(#[trigger] lines[j]).len() == 0,
        },
    decreases lines.len(),
{
    if lines.len() > 0 {
        let rest = lines.drop_last();
        let line = lines.last();
        let last = lines.len() - 1;
        lemma_min_indent(rest);
        assert(lines[last] == line);
        assert forall|j: int| 0 <= j < rest.len() implies lines[j] == #[trigger] rest[j] by {}
        match min_indent(rest) {
            Some(m) => {
                let w = choose|j: int| 0 <= j < rest.len() && trim(rest[j]).len() > 0 && m == indent_len(rest[j]);
                assert(lines[w] == rest[w]);
                assert forall|j: int| 0 <= j < lines.len() && trim(lines[j]).len() > 0 implies min_indent(lines)->0
                    <= indent_len(#[trigger] lines[j]) by {
                    if j < rest.len() {
                        assert(lines[j] == rest[j]);
                    }
                }
            },
            None => {
                assert forall|j: int| 0 <= j < lines.len() && trim(lines[j]).len() > 0 implies j == last by {
                    if j < rest.len() {
                        assert(lines[j] == rest[j]);
                    }
                }
            },
        }
    }
}

/// The indentation taken away is the least indentation of the non-blank
/// lines: no non-blank line has less, one has exactly that much, and none
/// is taken where every line is blank.
pub proof fn lemma_common_indent_is_least(lines: Seq<Seq<char>>)
    ensures
        forall|j: int| 0 <= j < lines.len() && trim(lines[j]).len() > 0 ==> common_indent(lines) <= indent_len(
            #[trigger] lines[j],
        ),
        (exists|j: int| 0 <= j < lines.len() && trim(lines[j]).len() > 0) ==> exists|j: int|
            0 <= j < lines.len() && trim(lines[j]).len() > 0 && common_indent(lines) == indent_len(lines[j]),
        (forall|j: int| 0 <= j < lines.len() ==> trim(#[trigger] lines[j]).len() == 0) ==> common_indent(lines) == 0,
{
    lemma_min_indent(lines);
    match min_indent(lines) {
        Some(m) => {},
        None => {
            if exists|j: int| 0 <= j < lines.len() && trim(lines[j]).len() > 0 {
                let j = choose|j: int| 0 <= j < lines.len() && trim(lines[j]).len() > 0;
                assert(trim(lines[j]).len() == 0);
            }
        },
    }
}

/// `line` without its first `n` indentation characters.
pub open spec fn strip_indent(line: Seq<char>, n: nat) -> Seq<char> {
    line.skip(
        if n < indent_len(line) {
            n as int
        } else {
            indent_len(line) as int
        },
    )
}

/// The lines of `text` without the indentation that all of its non-blank
/// lines share.
pub open spec fn remove_common_indent(text: Seq<char>) -> Seq<char> {
    let lines = split_char(text, '\n');
    let n = common_indent(lines);
    if n == 0 {
        text
    } else {
        join(lines.map_values(|line: Seq<char>| strip_indent(line, n)), seq!['\n'])
    }
}

proof fn lemma_indent_at(s: Seq<char>, i: int)
    requires
        0 <= i <= s.len(),
        forall|k: int| 0 <= k < i ==> is_indent_char(s[k]),
        i == s.len() || !is_indent_char(s[i]),
    ensures
        indent_len(s) == i,
    decreases i,
{
    if i > 0 {
        let r = s.drop_first();
        assert forall|k: int| 0 <= k < i - 1 implies is_indent_char(r[k]) by {
            assert(r[k] == s[k + 1]);
        }
        if i - 1 < r.len() {
            assert(r[i - 1] == s[i]);
        }
        lemma_indent_at(r, i - 1);
    }
}

fn indent_len_exec(s: &[char]) -> (n: usize)
    ensures
        n == indent_len(s@),
        n <= s.len(),
{
    let mut i: usize = 0;
    while i < s.len() && (s[i] == ' ' || s[i] == '\t')
        invariant
            i <= s.len(),
            forall|k: int| 0 <= k < i ==> is_indent_char(s@[k]),
        decreases s.len() - i,
    {
        i = i + 1;
    }
    proof {
        lemma_indent_at(s@, i as int);
    }
    i
}

pub fn terminal_selection_text_remove_common_indent(text: &str) -> (r: String)
    ensures
        r@ == remove_common_indent(text@),
{
    let chars = str_chars(text);
    let lines = split_exec(chars.as_slice(), '\n', '\n', false);
    let ghost views = lines@.map_values(|p: Vec<char>| p@);
    assert(views == split_char(text@, '\n'));
    let mut least: Option<usize> = None;
    let mut i: usize = 0;
    while i < lines.len()
        invariant
            i <= lines@.len(),
            views == lines@.map_values(|p: Vec<char>| p@),
            match least {
                Some(m) => min_indent(views.take(i as int)) == Some(m as nat),
                None => min_indent(views.take(i as int)) is None,
            },
        decreases lines.len() - i,
    {
        proof {
            assert(views.take(i + 1).drop_last() =~= views.take(i as int));
        }
        let (a, b) = trim_bounds(lines[i].as_slice());
        if a < b {
            let n = indent_len_exec(lines[i].as_slice());
            least = match least {
                None => Some(n),
                Some(m) => Some(
                    if n < m {
                        n
                    } else {
                        m
                    },
                ),
            };
        }
        i = i + 1;
    }
    proof {
        assert(views.take(lines@.len() as int) =~= views);
    }
    let common = match least {
        Some(m) => m,
        None => 0,
    };
    if common == 0 {
        return text.to_owned();
    }
    let mut stripped: Vec<Vec<char>> = Vec::new();
    let mut k: usize = 0;
    while k < lines.len()
        invariant
            k <= lines@.len(),
            common > 0,
            common == common_indent(views),
            views == lines@.map_values(|p: Vec<char>| p@),
            stripped@.map_values(|p: Vec<char>| p@) == views.take(k as int).map_values(
                |line: Seq<char>| strip_indent(line, common as nat),
            ),
        decreases lines.len() - k,
    {
        let line = lines[k].as_slice();
        let n = indent_len_exec(line);
        let cut = if common < n {
            common
        } else {
            n
        };
        stripped.push(slice_range(line, cut, line.len()));
        proof {
            assert(views.take(k + 1).map_values(|line: Seq<char>| strip_indent(line, common as nat))
                =~= views.take(k as int).map_values(|line: Seq<char>| strip_indent(line, common as nat)).push(
                strip_indent(views[k as int], common as nat),
            ));
            assert(stripped@.map_values(|p: Vec<char>| p@) =~= views.take(k as int).map_values(
                |line: Seq<char>| strip_indent(line, common as nat),
            ).push(strip_indent(views[k as int], common as nat)));
        }
        k = k + 1;
    }
    proof {
        assert(views.take(lines@.len() as int) =~= views);
    }
    let sep = ['\n'];
    assert(sep@ =~= seq!['\n']);
    let joined = join_exec(&stripped, &sep);
    string_from_chars(joined.as_slice())
}

/// The text a selection copies: the selected cells, with shared
/// indentation removed when the selection asks for it.
pub fn terminal_selection_text(snapshot: &TerminalGridSnapshot, selection: &TerminalSelection) -> (r: String)
    ensures
        r@ == (if selection.mode.filter_indent {
            remove_common_indent(selection_text_unfiltered(*snapshot, *selection))
        } else {
            selection_text_unfiltered(*snapshot, *selection)
        }),
{
    let text = terminal_selection_text_unfiltered(snapshot, selection);
    if selection.mode.filter_indent {
        terminal_selection_text_remove_common_indent(text.as_str())
    } else {
        text
    }
}

} // verus!
