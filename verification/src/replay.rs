//! Recorded terminal sessions: the event trace that says how to replay a
//! recording, and the text summary of a replayed screen.

use vstd::prelude::*;
use crate::grid::{TerminalGridSnapshot, TerminalRgb, TerminalRowSnapshot};
use crate::num::{parse_unsigned, parse_u16_chars, parse_usize_chars, hex_fixed, u64_hex16, dec, u64_dec};
use crate::text::{starts_with, str_chars, string_from_chars, slice_range, push_all, starts_with_exec, trim_end, trim_end_len, opt_view};
use crate::split::{lines, words, lines_exec, words_exec, join, join_exec};

verus! {

/// How to replay a recording: the file of its output, the grid size it
/// started with, and the resizes and output chunks in order.
#[derive(Clone, Debug, PartialEq, Eq)]
pub struct TerminalReplayEventsPlan {
    pub output_path: String,
    pub initial_cols: u16,
    pub initial_rows: u16,
    pub steps: Vec<TerminalReplayEventsStep>,
}

#[derive(Clone, Copy, Debug, PartialEq, Eq, Structural)]
pub enum TerminalReplayEventsStep {
    Output { offset: usize, len: usize },
    Resize { cols: u16, rows: u16 },
}

/// Why an event trace cannot be replayed.
#[derive(Clone, Copy, Debug, PartialEq, Eq, Structural)]
pub enum ReplayError {
    StartMissingOutput,
    StartMissingCols,
    StartMissingRows,
    ResizeMissingCols,
    ResizeMissingRows,
    OutputMissingOffset,
    OutputMissingLen,
    MissingStart,
}

impl ReplayError {
    pub open spec fn message_text(&self) -> Seq<char> {
        match *self {
            ReplayError::StartMissingOutput => "trace start is missing output path"@,
            ReplayError::StartMissingCols => "trace start is missing cols"@,
            ReplayError::StartMissingRows => "trace start is missing rows"@,
            ReplayError::ResizeMissingCols => "trace resize is missing cols"@,
            ReplayError::ResizeMissingRows => "trace resize is missing rows"@,
            ReplayError::OutputMissingOffset => "trace output is missing offset"@,
            ReplayError::OutputMissingLen => "trace output is missing len"@,
            ReplayError::MissingStart => "trace is missing start event"@,
        }
    }

    pub fn message(&self) -> (r: &'static str)
        ensures
            r@ == self.message_text(),
    {
        match self {
            ReplayError::StartMissingOutput => "trace start is missing output path",
            ReplayError::StartMissingCols => "trace start is missing cols",
            ReplayError::StartMissingRows => "trace start is missing rows",
            ReplayError::ResizeMissingCols => "trace resize is missing cols",
            ReplayError::ResizeMissingRows => "trace resize is missing rows",
            ReplayError::OutputMissingOffset => "trace output is missing offset",
            ReplayError::OutputMissingLen => "trace output is missing len",
            ReplayError::MissingStart => "trace is missing start event",
        }
    }
}

/// The value of `key=value` in a whitespace-separated trace line: the first
/// word that starts with `key=`, without that prefix.
pub open spec fn first_value(parts: Seq<Seq<char>>, prefix: Seq<char>) -> Option<Seq<char>>
    decreases parts.len(),
{
    if parts.len() == 0 {
        None
    } else if starts_with(parts[0], prefix) {
        Some(parts[0].skip(prefix.len() as int))
    } else {
        first_value(parts.drop_first(), prefix)
    }
}

pub open spec fn trace_value(line: Seq<char>, key: Seq<char>) -> Option<Seq<char>> {
    first_value(words(line), key + "="@)
}

pub fn terminal_trace_value(line: &str, key: &str) -> (r: Option<String>)
    ensures
        opt_view(r) == trace_value(line@, key@),
{
    let mut prefix = str_chars(key);
    prefix.push('=');
    proof {
        reveal_strlit("=");
        assert(prefix@ =~= key@ + "="@);
    }
    let parts = words_exec(str_chars(line).as_slice());
    let ghost ps = parts@.map_values(|p: Vec<char>| p@);
    let mut i: usize = 0;
    proof {
        assert(ps.skip(0) =~= ps);
    }
    while i < parts.len()
        invariant
            i <= parts@.len(),
            ps == parts@.map_values(|p: Vec<char>| p@),
            ps == words(line@),
            prefix@ == key@ + "="@,
            first_value(ps, prefix@) == first_value(ps.skip(i as int), prefix@),
        decreases parts.len() - i,
    {
        proof {
            assert(ps.skip(i as int)[0] == parts@[i as int]@);
            assert(ps.skip(i as int).drop_first() =~= ps.skip(i + 1));
        }
        if starts_with_exec(parts[i].as_slice(), prefix.as_slice()) {
            let rest = slice_range(parts[i].as_slice(), prefix.len(), parts[i].len());
            proof {
                assert(rest@ =~= parts@[i as int]@.skip(prefix@.len() as int));
            }
            return Some(string_from_chars(rest.as_slice()));
        }
        i = i + 1;
    }
    None
}

pub fn parse_u16(value: &str) -> (r: Option<u16>)
    ensures
        match r {
            Some(v) => parse_unsigned(value@, u16::MAX as int) == Some(v as int),
            None => parse_unsigned(value@, u16::MAX as int) is None,
        },
{
    parse_u16_chars(str_chars(value).as_slice())
}

pub fn parse_usize(value: &str) -> (r: Option<usize>)
    ensures
        match r {
            Some(v) => parse_unsigned(value@, usize::MAX as int) == Some(v as int),
            None => parse_unsigned(value@, usize::MAX as int) is None,
        },
{
    parse_usize_chars(str_chars(value).as_slice())
}

/// `value` parsed, when it is present.
pub open spec fn number_of(value: Option<Seq<char>>, max: int) -> Option<int> {
    match value {
        Some(v) => parse_unsigned(v, max),
        None => None,
    }
}

/// What has been read of a trace so far: the output path, the starting
/// size and the steps.
pub type ReplayState = (Option<Seq<char>>, Option<u16>, Option<u16>, Seq<TerminalReplayEventsStep>);

/// The effect of one trace line: a `start` line sets the output path and
/// size, a `resize` or `output` line adds a step, other lines are skipped.
pub open spec fn replay_line(state: ReplayState, line: Seq<char>) -> Result<ReplayState, ReplayError> {
    let kind = trace_value(line, "kind"@);
    if kind == Some("start"@) {
        match trace_value(line, "output"@) {
            None => Err(ReplayError::StartMissingOutput),
            Some(path) => match number_of(trace_value(line, "cols"@), u16::MAX as int) {
                None => Err(ReplayError::StartMissingCols),
                Some(cols) => match number_of(trace_value(line, "rows"@), u16::MAX as int) {
                    None => Err(ReplayError::StartMissingRows),
                    Some(rows) => Ok((Some(path), Some(cols as u16), Some(rows as u16), state.3)),
                },
            },
        }
    } else if kind == Some("resize"@) {
        match number_of(trace_value(line, "cols"@), u16::MAX as int) {
            None => Err(ReplayError::ResizeMissingCols),
            Some(cols) => match number_of(trace_value(line, "rows"@), u16::MAX as int) {
                None => Err(ReplayError::ResizeMissingRows),
                Some(rows) => Ok(
                    (
                        state.0,
                        state.1,
                        state.2,
                        state.3.push(
                            TerminalReplayEventsStep::Resize { cols: cols as u16, rows: rows as u16 },
                        ),
                    ),
                ),
            },
        }
    } else if kind == Some("output"@) {
        match number_of(trace_value(line, "offset"@), usize::MAX as int) {
            None => Err(ReplayError::OutputMissingOffset),
            Some(offset) => match number_of(trace_value(line, "len"@), usize::MAX as int) {
                None => Err(ReplayError::OutputMissingLen),
                Some(len) => Ok(
                    (
                        state.0,
                        state.1,
                        state.2,
                        state.3.push(
                            TerminalReplayEventsStep::Output {
                                offset: offset as usize,
                                len: len as usize,
                            },
                        ),
                    ),
                ),
            },
        }
    } else {
        Ok(state)
    }
}

/// The lines read in order, stopping at the first error.
pub open spec fn replay_lines(lines: Seq<Seq<char>>) -> Result<ReplayState, ReplayError>
    decreases lines.len(),
{
    if lines.len() == 0 {
        Ok((None, None, None, seq![]))
    } else {
        match replay_lines(lines.drop_last()) {
            Err(e) => Err(e),
            Ok(state) => replay_line(state, lines.last()),
        }
    }
}

/// The plan of a trace, or the first error; a trace needs a start line.
pub open spec fn replay_plan(events: Seq<char>) -> Result<(Seq<char>, u16, u16, Seq<TerminalReplayEventsStep>), ReplayError> {
    match replay_lines(lines(events)) {
        Err(e) => Err(e),
        Ok((path, cols, rows, steps)) => match (path, cols, rows) {
            (Some(p), Some(c), Some(r)) => Ok((p, c, r, steps)),
            _ => Err(ReplayError::MissingStart),
        },
    }
}

fn value_is(line: &str, key: &str, word: &str) -> (r: bool)
    ensures
        r == (trace_value(line@, key@) == Some(word@)),
{
    match terminal_trace_value(line, key) {
        Some(v) => crate::text::chars_eq(str_chars(v.as_str()).as_slice(), str_chars(word).as_slice()),
        None => false,
    }
}

fn number_value_u16(line: &str, key: &str) -> (r: Option<u16>)
    ensures
        match r {
            Some(v) => number_of(trace_value(line@, key@), u16::MAX as int) == Some(v as int),
            None => number_of(trace_value(line@, key@), u16::MAX as int) is None,
        },
{
    match terminal_trace_value(line, key) {
        Some(v) => parse_u16(v.as_str()),
        None => None,
    }
}

fn number_value_usize(line: &str, key: &str) -> (r: Option<usize>)
    ensures
        match r {
            Some(v) => number_of(trace_value(line@, key@), usize::MAX as int) == Some(v as int),
            None => number_of(trace_value(line@, key@), usize::MAX as int) is None,
        },
{
    match terminal_trace_value(line, key) {
        Some(v) => parse_usize(v.as_str()),
        None => None,
    }
}

pub fn parse_terminal_replay_events(events: &str) -> (r: Result<TerminalReplayEventsPlan, ReplayError>)
    ensures
        match r {
            Ok(plan) => replay_plan(events@) == Ok::<(Seq<char>, u16, u16, Seq<TerminalReplayEventsStep>), ReplayError>(
                (plan.output_path@, plan.initial_cols, plan.initial_rows, plan.steps@),
            ),
            Err(e) => replay_plan(events@) == Err::<(Seq<char>, u16, u16, Seq<TerminalReplayEventsStep>), ReplayError>(e),
        },
{
    let all = lines_exec(str_chars(events).as_slice());
    let ghost ls = all@.map_values(|p: Vec<char>| p@);
    let mut output_path: Option<String> = None;
    let mut initial_cols: Option<u16> = None;
    let mut initial_rows: Option<u16> = None;
    let mut steps: Vec<TerminalReplayEventsStep> = Vec::new();
    let mut i: usize = 0;
    while i < all.len()
        invariant
            i <= all@.len(),
            ls == all@.map_values(|p: Vec<char>| p@),
            ls == lines(events@),
            replay_lines(ls.take(i as int)) == Ok::<ReplayState, ReplayError>(
                (opt_view(output_path), initial_cols, initial_rows, steps@),
            ),
        decreases all.len() - i,
    {
        proof {
            assert(ls.take(i + 1).drop_last() =~= ls.take(i as int));
            assert(ls.take(i + 1).last() == all@[i as int]@);
        }
        let line_string = string_from_chars(all[i].as_slice());
        let line = line_string.as_str();
        if value_is(line, "kind", "start") {
            let path = match terminal_trace_value(line, "output") {
                Some(p) => p,
                None => {
                    proof { lemma_replay_error_sticks(ls, i as int + 1); }
                    return Err(ReplayError::StartMissingOutput);
                },
            };
            let cols = match number_value_u16(line, "cols") {
                Some(c) => c,
                None => {
                    proof { lemma_replay_error_sticks(ls, i as int + 1); }
                    return Err(ReplayError::StartMissingCols);
                },
            };
            let rows = match number_value_u16(line, "rows") {
                Some(r) => r,
                None => {
                    proof { lemma_replay_error_sticks(ls, i as int + 1); }
                    return Err(ReplayError::StartMissingRows);
                },
            };
            output_path = Some(path);
            initial_cols = Some(cols);
            initial_rows = Some(rows);
        } else if value_is(line, "kind", "resize") {
            let cols = match number_value_u16(line, "cols") {
                Some(c) => c,
                None => {
                    proof { lemma_replay_error_sticks(ls, i as int + 1); }
                    return Err(ReplayError::ResizeMissingCols);
                },
            };
            let rows = match number_value_u16(line, "rows") {
                Some(r) => r,
                None => {
                    proof { lemma_replay_error_sticks(ls, i as int + 1); }
                    return Err(ReplayError::ResizeMissingRows);
                },
            };
            steps.push(TerminalReplayEventsStep::Resize { cols, rows });
        } else if value_is(line, "kind", "output") {
            let offset = match number_value_usize(line, "offset") {
                Some(o) => o,
                None => {
                    proof { lemma_replay_error_sticks(ls, i as int + 1); }
                    return Err(ReplayError::OutputMissingOffset);
                },
            };
            let len = match number_value_usize(line, "len") {
                Some(l) => l,
                None => {
                    proof { lemma_replay_error_sticks(ls, i as int + 1); }
                    return Err(ReplayError::OutputMissingLen);
                },
            };
            steps.push(TerminalReplayEventsStep::Output { offset, len });
        }
        i = i + 1;
    }
    proof {
        assert(ls.take(all@.len() as int) =~= ls);
    }
    match (output_path, initial_cols, initial_rows) {
        (Some(output_path), Some(initial_cols), Some(initial_rows)) => Ok(
            TerminalReplayEventsPlan { output_path, initial_cols, initial_rows, steps },
        ),
        _ => Err(ReplayError::MissingStart),
    }
}

/// Once reading the first `k` lines fails, reading all of them fails the
/// same way.
proof fn lemma_replay_error_sticks(lines: Seq<Seq<char>>, k: int)
    requires
        0 <= k <= lines.len(),
        replay_lines(lines.take(k)) is Err,
    ensures
        replay_lines(lines) == replay_lines(lines.take(k)),
    decreases lines.len() - k,
{
    if k < lines.len() {
        assert(lines.take(k + 1).drop_last() =~= lines.take(k));
        lemma_replay_error_sticks(lines, k + 1);
    } else {
        assert(lines.take(k) =~= lines);
    }
}

// ---------------------------------------------------------------------------
// Summaries of a replayed screen
// ---------------------------------------------------------------------------

/// A run of neighbouring cells of one row with the same background.
#[derive(Clone, Copy, Debug, PartialEq, Eq, Structural)]
pub struct TerminalReplayBgRun {
    pub color: TerminalRgb,
    pub start_col: usize,
    pub end_col: usize,
}

pub open spec fn cell_bg(cells: Seq<crate::grid::TerminalCellSnapshot>, i: int, default_bg: TerminalRgb) -> TerminalRgb {
    match cells[i].bg {
        Some(c) => c,
        None => default_bg,
    }
}

/// The background runs of the first `n` cells, left to right.
pub open spec fn bg_runs(cells: Seq<crate::grid::TerminalCellSnapshot>, n: int, default_bg: TerminalRgb) -> Seq<TerminalReplayBgRun>
    decreases n,
{
    if n <= 0 {
        seq![]
    } else {
        let previous = bg_runs(cells, n - 1, default_bg);
        let color = cell_bg(cells, n - 1, default_bg);
        if previous.len() > 0 && previous.last().color == color {
            previous.update(
                previous.len() - 1,
                TerminalReplayBgRun { end_col: n as usize, ..previous.last() },
            )
        } else {
            previous.push(TerminalReplayBgRun { color, start_col: (n - 1) as usize, end_col: n as usize })
        }
    }
}

pub fn terminal_replay_bg_runs(row: &TerminalRowSnapshot, default_bg: TerminalRgb) -> (r: Vec<TerminalReplayBgRun>)
    ensures
        r@ == bg_runs(row.cells@, row.cells@.len() as int, default_bg),
{
    let mut runs: Vec<TerminalReplayBgRun> = Vec::new();
    let mut col: usize = 0;
    while col < row.cells.len()
        invariant
            col <= row.cells@.len(),
            runs@ == bg_runs(row.cells@, col as int, default_bg),
        decreases row.cells.len() - col,
    {
        let color = match row.cells[col].bg {
            Some(c) => c,
            None => default_bg,
        };
        let n = runs.len();
        if n > 0 && runs[n - 1].color == color {
            let last = runs[n - 1];
            runs.set(n - 1, TerminalReplayBgRun { end_col: col + 1, ..last });
        } else {
            runs.push(TerminalReplayBgRun { color, start_col: col, end_col: col + 1 });
        }
        col = col + 1;
    }
    runs
}

/// `#rrggbb` in lowercase hexadecimal.
pub open spec fn rgb_hex(color: TerminalRgb) -> Seq<char> {
    seq!['#'] + hex_fixed(color.r as nat, 2) + hex_fixed(color.g as nat, 2) + hex_fixed(color.b as nat, 2)
}

proof fn lemma_hex_fixed_len(n: nat, k: nat)
    ensures
        hex_fixed(n, k).len() == k,
    decreases k,
{
    if k > 0 {
        lemma_hex_fixed_len(n / 16, (k - 1) as nat);
    }
}

/// The last two digits of a fixed-width hexadecimal text are the two-digit
/// text of the same number.
proof fn lemma_hex_fixed_last_two(n: nat, k: nat)
    requires
        k >= 2,
    ensures
        hex_fixed(n, k).skip(k - 2) == hex_fixed(n, 2),
{
    let rest = hex_fixed((n / 16) / 16, (k - 2) as nat);
    lemma_hex_fixed_len((n / 16) / 16, (k - 2) as nat);
    assert(hex_fixed(n / 16, (k - 1) as nat) == rest.push(crate::num::hex_digit_char((n / 16) % 16)));
    assert(hex_fixed(n, k) == rest.push(crate::num::hex_digit_char((n / 16) % 16)).push(
        crate::num::hex_digit_char(n % 16),
    ));
    assert(hex_fixed(n / 16, 1) == hex_fixed((n / 16) / 16, 0).push(crate::num::hex_digit_char((n / 16) % 16)));
    assert(hex_fixed(n, k).skip(k - 2) =~= hex_fixed(n, 2));
}

fn byte_hex(b: u8) -> (r: Vec<char>)
    ensures
        r@ == hex_fixed(b as nat, 2),
{
    let all = u64_hex16(b as u64);
    proof {
        lemma_hex_fixed_last_two(b as nat, 16);
        lemma_hex_fixed_len(b as nat, 16);
    }
    slice_range(all.as_slice(), 14, 16)
}

pub fn terminal_rgb_hex(color: TerminalRgb) -> (r: String)
    ensures
        r@ == rgb_hex(color),
{
    let mut out: Vec<char> = Vec::new();
    out.push('#');
    push_all(&mut out, byte_hex(color.r).as_slice());
    push_all(&mut out, byte_hex(color.g).as_slice());
    push_all(&mut out, byte_hex(color.b).as_slice());
    proof {
        assert(out@ =~= rgb_hex(color));
    }
    string_from_chars(out.as_slice())
}

fn push_str(out: &mut Vec<char>, s: &str)
    ensures
        final(out)@ == old(out)@ + s@,
{
    push_all(out, str_chars(s).as_slice());
}

fn push_dec(out: &mut Vec<char>, n: u64)
    ensures
        final(out)@ == old(out)@ + dec(n as nat),
{
    push_all(out, u64_dec(n).as_slice());
}

/// `hex:start-end` for one background run.
pub open spec fn bg_run_text(run: TerminalReplayBgRun) -> Seq<char> {
    rgb_hex(run.color) + ":"@ + dec(run.start_col as nat) + "-"@ + dec(run.end_col as nat)
}

/// A row's text for the style summary: each cell's text, a space for an
/// empty cell, without trailing whitespace.
pub open spec fn plain_row_text(cells: Seq<crate::grid::TerminalCellSnapshot>, n: int) -> Seq<char>
    decreases n,
{
    if n <= 0 {
        seq![]
    } else {
        plain_row_text(cells, n - 1) + (if cells[n - 1].text@.len() == 0 {
            seq![' ']
        } else {
            cells[n - 1].text@
        })
    }
}

/// A row index with at least two digits (`{:02}`).
pub open spec fn two_digits(n: nat) -> Seq<char> {
    if n < 10 {
        seq!['0'] + dec(n)
    } else {
        dec(n)
    }
}

/// The summary line of a row whose background is not plain: its runs and
/// its text. None for a row with one run of the default background (or
/// none at all).
pub open spec fn style_line(row: TerminalRowSnapshot, index: nat, default_bg: TerminalRgb) -> Option<Seq<char>> {
    let cells = row.cells@;
    let runs = bg_runs(cells, cells.len() as int, default_bg);
    if runs.len() <= 1 && (runs.len() == 0 || runs[0].color == default_bg) {
        None
    } else {
        Some(
            "style row "@ + two_digits(index) + ": bg="@ + join(runs.map_values(|r: TerminalReplayBgRun| bg_run_text(r)), ","@)
                + " text="@ + trim_end(plain_row_text(cells, cells.len() as int)),
        )
    }
}

pub open spec fn style_lines(rows: Seq<TerminalRowSnapshot>, n: int, default_bg: TerminalRgb) -> Seq<Seq<char>>
    decreases n,
{
    if n <= 0 {
        seq![]
    } else {
        let previous = style_lines(rows, n - 1, default_bg);
        match style_line(rows[n - 1], (n - 1) as nat, default_bg) {
            Some(line) => previous.push(line),
            None => previous,
        }
    }
}

/// The rows of a replayed screen whose backgrounds are not plain.
pub open spec fn style_summary(snapshot: TerminalGridSnapshot) -> Seq<char> {
    let lines = style_lines(snapshot.rows_data@, snapshot.rows_data@.len() as int, snapshot.default_bg);
    if lines.len() == 0 {
        "style rows: none"@
    } else {
        "style rows:\n"@ + join(lines, "\n"@)
    }
}

fn plain_row_text_exec(cells: &Vec<crate::grid::TerminalCellSnapshot>) -> (r: Vec<char>)
    ensures
        r@ == plain_row_text(cells@, cells@.len() as int),
{
    let mut out: Vec<char> = Vec::new();
    let mut i: usize = 0;
    while i < cells.len()
        invariant
            i <= cells@.len(),
            out@ == plain_row_text(cells@, i as int),
        decreases cells.len() - i,
    {
        let text = str_chars(cells[i].text.as_str());
        if text.len() == 0 {
            out.push(' ');
        } else {
            push_all(&mut out, text.as_slice());
        }
        proof {
            assert(out@ =~= plain_row_text(cells@, i + 1));
        }
        i = i + 1;
    }
    out
}

fn style_line_exec(row: &TerminalRowSnapshot, index: usize, default_bg: TerminalRgb) -> (r: Option<Vec<char>>)
    ensures
        match r {
            Some(line) => style_line(*row, index as nat, default_bg) == Some(line@),
            None => style_line(*row, index as nat, default_bg) is None,
        },
{
    let runs = terminal_replay_bg_runs(row, default_bg);
    if runs.len() <= 1 && (runs.len() == 0 || runs[0].color == default_bg) {
        return None;
    }
    let mut pieces: Vec<Vec<char>> = Vec::new();
    let mut k: usize = 0;
    while k < runs.len()
        invariant
            k <= runs@.len(),
            pieces@.map_values(|p: Vec<char>| p@) == runs@.take(k as int).map_values(
                |r: TerminalReplayBgRun| bg_run_text(r),
            ),
        decreases runs.len() - k,
    {
        let run = runs[k];
        let mut piece = str_chars(terminal_rgb_hex(run.color).as_str());
        push_str(&mut piece, ":");
        push_dec(&mut piece, run.start_col as u64);
        push_str(&mut piece, "-");
        push_dec(&mut piece, run.end_col as u64);
        let ghost before = pieces@.map_values(|p: Vec<char>| p@);
        let ghost pv = piece@;
        pieces.push(piece);
        proof {
            assert(pv == bg_run_text(run));
            assert(pieces@.map_values(|p: Vec<char>| p@) =~= before.push(pv));
            assert(runs@.take(k + 1).map_values(|r: TerminalReplayBgRun| bg_run_text(r)) =~= runs@.take(k as int).map_values(|r: TerminalReplayBgRun| bg_run_text(r)).push(bg_run_text(run)));
        }
        k = k + 1;
    }
    proof {
        assert(runs@.take(runs@.len() as int) =~= runs@);
    }
    let mut line = str_chars("style row ");
    if index < 10 {
        line.push('0');
    }
    push_dec(&mut line, index as u64);
    push_str(&mut line, ": bg=");
    push_all(&mut line, join_exec(&pieces, str_chars(",").as_slice()).as_slice());
    push_str(&mut line, " text=");
    let text = plain_row_text_exec(&row.cells);
    let j = trim_end_len(text.as_slice());
    push_all(&mut line, slice_range(text.as_slice(), 0, j).as_slice());
    proof {
        assert(line@ =~= style_line(*row, index as nat, default_bg)->0);
    }
    Some(line)
}

pub fn terminal_replay_style_summary(snapshot: &TerminalGridSnapshot) -> (r: String)
    ensures
        r@ == style_summary(*snapshot),
{
    let mut lines: Vec<Vec<char>> = Vec::new();
    let mut i: usize = 0;
    while i < snapshot.rows_data.len()
        invariant
            i <= snapshot.rows_data@.len(),
            lines@.map_values(|p: Vec<char>| p@) == style_lines(snapshot.rows_data@, i as int, snapshot.default_bg),
        decreases snapshot.rows_data.len() - i,
    {
        match style_line_exec(&snapshot.rows_data[i], i, snapshot.default_bg) {
            Some(line) => {
                let ghost before = lines@.map_values(|p: Vec<char>| p@);
                let ghost lv = line@;
                lines.push(line);
                proof {
                    assert(lines@.map_values(|p: Vec<char>| p@) =~= before.push(lv));
                }
            },
            None => {},
        }
        i = i + 1;
    }
    if lines.len() == 0 {
        return "style rows: none".to_owned();
    }
    let mut out = str_chars("style rows:\n");
    push_all(&mut out, join_exec(&lines, str_chars("\n").as_slice()).as_slice());
    string_from_chars(out.as_slice())
}

/// `col,row` of the cursor, or `none`.
pub open spec fn cursor_text(snapshot: TerminalGridSnapshot) -> Seq<char> {
    match snapshot.cursor {
        Some(c) => dec(c.col as nat) + ","@ + dec(c.row as nat),
        None => "none"@,
    }
}

/// The report of a replay: where it came from, the grid, cursor and
/// damage, the screen's text and its style rows.
pub open spec fn replay_summary(label: Seq<char>, path: Seq<char>, bytes_len: nat, snapshot: TerminalGridSnapshot) -> Seq<char> {
    label + ": path="@ + path + " bytes="@ + dec(bytes_len) + " grid="@ + dec(snapshot.cols as nat)
        + "x"@ + dec(snapshot.rows as nat) + " cursor="@ + cursor_text(snapshot) + " dirty_rows="@
        + dec(snapshot.damage.rows@.len()) + " dirty_cells="@ + dec(snapshot.damage.cells as nat)
        + "\n"@ + snapshot.plain_text@ + "\n"@ + style_summary(snapshot)
}

pub fn terminal_replay_summary(label: &str, path: &str, bytes_len: usize, snapshot: &TerminalGridSnapshot) -> (r: String)
    ensures
        r@ == replay_summary(label@, path@, bytes_len as nat, *snapshot),
{
    let mut out = str_chars(label);
    push_str(&mut out, ": path=");
    push_str(&mut out, path);
    push_str(&mut out, " bytes=");
    push_dec(&mut out, bytes_len as u64);
    push_str(&mut out, " grid=");
    push_dec(&mut out, snapshot.cols as u64);
    push_str(&mut out, "x");
    push_dec(&mut out, snapshot.rows as u64);
    push_str(&mut out, " cursor=");
    match snapshot.cursor {
        Some(c) => {
            push_dec(&mut out, c.col as u64);
            push_str(&mut out, ",");
            push_dec(&mut out, c.row as u64);
        },
        None => {
            push_str(&mut out, "none");
        },
    }
    push_str(&mut out, " dirty_rows=");
    push_dec(&mut out, snapshot.damage.rows.len() as u64);
    push_str(&mut out, " dirty_cells=");
    push_dec(&mut out, snapshot.damage.cells as u64);
    push_str(&mut out, "\n");
    push_str(&mut out, snapshot.plain_text.as_str());
    push_str(&mut out, "\n");
    push_str(&mut out, terminal_replay_style_summary(snapshot).as_str());
    proof {
        assert(out@ =~= replay_summary(label@, path@, bytes_len as nat, *snapshot));
    }
    string_from_chars(out.as_slice())
}

// ---------------------------------------------------------------------------
// Command line
// ---------------------------------------------------------------------------

/// `args[i]` is the first occurrence of `flag`.
pub open spec fn is_first_flag(args: Seq<String>, flag: Seq<char>, i: int) -> bool {
    &&& 0 <= i < args.len()
    &&& args[i]@ == flag
    &&& forall|j: int| 0 <= j < i ==> (#[trigger] args[j])@ != flag
}

/// The argument after position `i`, read as a `u16`, else `default`.
pub open spec fn u16_arg_or(args: Seq<String>, i: int, default: u16) -> u16 {
    if 0 <= i < args.len() {
        match parse_unsigned(args[i]@, u16::MAX as int) {
            Some(v) => v as u16,
            None => default,
        }
    } else {
        default
    }
}

/// What a replay of a raw recording was asked for: the recording and the
/// grid size.
#[derive(Clone, Debug, PartialEq, Eq)]
pub struct TerminalReplayRecordArgs {
    pub path: String,
    pub cols: u16,
    pub rows: u16,
}

/// What a replay of an event trace was asked for: the trace and where the
/// replayed screen goes, if anywhere.
#[derive(Clone, Debug, PartialEq, Eq)]
pub struct TerminalReplayEventsArgs {
    pub events_path: String,
    pub output_path: Option<String>,
}

/// A replay flag given without the file it needs.
#[derive(Clone, Copy, Debug, PartialEq, Eq, Structural)]
pub enum ReplayArgsError {
    MissingRecordPath,
    MissingEventsPath,
}

impl ReplayArgsError {
    pub open spec fn message_text(&self) -> Seq<char> {
        match *self {
            ReplayArgsError::MissingRecordPath => "--terminal-replay-record requires a .pty path"@,
            ReplayArgsError::MissingEventsPath => "--terminal-replay-events requires a .events path"@,
        }
    }

    pub fn message(&self) -> (r: &'static str)
        ensures
            r@ == self.message_text(),
    {
        match self {
            ReplayArgsError::MissingRecordPath => "--terminal-replay-record requires a .pty path",
            ReplayArgsError::MissingEventsPath => "--terminal-replay-events requires a .events path",
        }
    }
}

fn find_flag(args: &[String], flag: &str) -> (r: Option<usize>)
    ensures
        match r {
            Some(i) => is_first_flag(args@, flag@, i as int),
            None => forall|j: int| 0 <= j < args@.len() ==> (#[trigger] args@[j])@ != flag@,
        },
{
    let wanted = flag.to_owned();
    let mut i: usize = 0;
    while i < args.len()
        invariant
            i <= args@.len(),
            wanted@ == flag@,
            forall|j: int| 0 <= j < i ==> (#[trigger] args@[j])@ != flag@,
        decreases args.len() - i,
    {
        if args[i].eq(&wanted) {
            return Some(i);
        }
        i = i + 1;
    }
    None
}

fn u16_arg_or_exec(args: &[String], i: usize, default: u16) -> (r: u16)
    ensures
        r == u16_arg_or(args@, i as int, default),
{
    if i < args.len() {
        match parse_u16(args[i].as_str()) {
            Some(v) => v,
            None => default,
        }
    } else {
        default
    }
}

/// The replay of a raw recording that the arguments after the program name
/// ask for: none without `--terminal-replay-record`; else the path after
/// its first occurrence (refused when there is none), then the columns and
/// rows, 120 and 40 where missing or not a `u16`.
pub fn terminal_replay_record_args(args: &[String]) -> (r: Option<Result<TerminalReplayRecordArgs, ReplayArgsError>>)
    ensures
        match r {
            None => forall|j: int| 0 <= j < args@.len() ==> (#[trigger] args@[j])@ != "--terminal-replay-record"@,
            Some(Err(e)) => e == ReplayArgsError::MissingRecordPath && is_first_flag(
                args@,
                "--terminal-replay-record"@,
                args@.len() - 1,
            ),
            Some(Ok(a)) => exists|i: int|
                is_first_flag(args@, "--terminal-replay-record"@, i) && i + 1 < args@.len() && a.path@ == args@[i
                    + 1]@ && a.cols == u16_arg_or(args@, i + 2, 120) && a.rows == u16_arg_or(args@, i + 3, 40),
        },
{
    let i = match find_flag(args, "--terminal-replay-record") {
        Some(i) => i,
        None => {
            return None;
        },
    };
    let rest = args.len() - i;
    if rest < 2 {
        return Some(Err(ReplayArgsError::MissingRecordPath));
    }
    let path = args[i + 1].clone();
    let cols = if rest > 2 {
        u16_arg_or_exec(args, i + 2, 120)
    } else {
        120
    };
    let rows = if rest > 3 {
        u16_arg_or_exec(args, i + 3, 40)
    } else {
        40
    };
    Some(Ok(TerminalReplayRecordArgs { path, cols, rows }))
}

/// The replay of an event trace that the arguments after the program name
/// ask for: none without `--terminal-replay-events`; else the trace after
/// its first occurrence (refused when there is none) and the output path
/// after that, if any.
pub fn terminal_replay_events_args(args: &[String]) -> (r: Option<Result<TerminalReplayEventsArgs, ReplayArgsError>>)
    ensures
        match r {
            None => forall|j: int| 0 <= j < args@.len() ==> (#[trigger] args@[j])@ != "--terminal-replay-events"@,
            Some(Err(e)) => e == ReplayArgsError::MissingEventsPath && is_first_flag(
                args@,
                "--terminal-replay-events"@,
                args@.len() - 1,
            ),
            Some(Ok(a)) => exists|i: int|
                is_first_flag(args@, "--terminal-replay-events"@, i) && i + 1 < args@.len() && a.events_path@
                    == args@[i + 1]@ && opt_view(a.output_path) == if i + 2 < args@.len() {
                    Some(args@[i + 2]@)
                } else {
                    None
                },
        },
{
    let i = match find_flag(args, "--terminal-replay-events") {
        Some(i) => i,
        None => {
            return None;
        },
    };
    let rest = args.len() - i;
    if rest < 2 {
        return Some(Err(ReplayArgsError::MissingEventsPath));
    }
    let events_path = args[i + 1].clone();
    let output_path = if rest > 2 {
        Some(args[i + 2].clone())
    } else {
        None
    };
    Some(Ok(TerminalReplayEventsArgs { events_path, output_path }))
}

} // verus!
