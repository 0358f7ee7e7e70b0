//! Rolling samples of how long terminal rendering takes and how much work
//! each frame does, kept while render profiling is switched on.

use vstd::prelude::*;
use std::collections::VecDeque;
use crate::metrics::{push_latency_sample, TERMINAL_LATENCY_SAMPLE_LIMIT};

verus! {

/// What one build, shape or paint pass of a terminal frame measured.
#[derive(Clone, Copy, Debug, Default, PartialEq, Eq, Structural)]
pub struct TerminalRenderProfileSample {
    pub build_micros: u64,
    pub shape_micros: u64,
    pub paint_micros: u64,
    pub rows: u16,
    pub cols: u16,
    pub glyph_cells: usize,
    pub glyph_cache_hits: usize,
    pub glyph_cache_misses: usize,
    pub background_runs: usize,
    pub text_bytes: usize,
    pub dirty_rows: usize,
    pub dirty_cells: usize,
    pub rebuilt_rows: usize,
    pub reused_rows: usize,
    pub repaint_backgrounds: usize,
    pub painted_rows: usize,
    pub submitted_glyphs: usize,
    pub submitted_backgrounds: usize,
}

/// The recent samples of each measure, and when a report was last printed
/// (microseconds on a monotonic clock).
#[derive(Default)]
pub struct TerminalRenderProfiler {
    pub build_micros: VecDeque<u64>,
    pub shape_micros: VecDeque<u64>,
    pub paint_micros: VecDeque<u64>,
    pub glyph_cells: VecDeque<u64>,
    pub glyph_cache_hits: VecDeque<u64>,
    pub glyph_cache_misses: VecDeque<u64>,
    pub background_runs: VecDeque<u64>,
    pub text_bytes: VecDeque<u64>,
    pub dirty_rows: VecDeque<u64>,
    pub dirty_cells: VecDeque<u64>,
    pub rebuilt_rows: VecDeque<u64>,
    pub reused_rows: VecDeque<u64>,
    pub repaint_backgrounds: VecDeque<u64>,
    pub painted_rows: VecDeque<u64>,
    pub submitted_glyphs: VecDeque<u64>,
    pub submitted_backgrounds: VecDeque<u64>,
    pub last_report_at: Option<u64>,
}

/// A series after a sample was pushed: the oldest dropped when full.
pub open spec fn pushed(series: Seq<u64>, value: u64) -> Seq<u64> {
    (if series.len() == TERMINAL_LATENCY_SAMPLE_LIMIT {
        series.drop_first()
    } else {
        series
    }).push(value)
}

/// A series after a sample that may be pushed.
pub open spec fn maybe_pushed(series: Seq<u64>, push: bool, value: u64) -> Seq<u64> {
    if push {
        pushed(series, value)
    } else {
        series
    }
}

/// The sample carries build counts: a build time or any count of a build.
pub open spec fn has_build_counts(s: TerminalRenderProfileSample) -> bool {
    s.build_micros > 0 || s.dirty_rows > 0 || s.dirty_cells > 0 || s.rebuilt_rows > 0
        || s.reused_rows > 0 || s.repaint_backgrounds > 0 || s.glyph_cells > 0
        || s.background_runs > 0 || s.text_bytes > 0
}

pub open spec fn has_shape_counts(s: TerminalRenderProfileSample) -> bool {
    s.shape_micros > 0 || s.glyph_cache_hits > 0 || s.glyph_cache_misses > 0
}

pub open spec fn has_paint_counts(s: TerminalRenderProfileSample) -> bool {
    s.paint_micros > 0 || s.painted_rows > 0 || s.submitted_glyphs > 0 || s.submitted_backgrounds > 0
}

fn push_if(series: &mut VecDeque<u64>, push: bool, value: u64)
    ensures
        final(series)@ == maybe_pushed(old(series)@, push, value),
{
    if push {
        push_latency_sample(series, value);
    }
}

impl TerminalRenderProfiler {
    /// No series holds more than the sample limit.
    pub open spec fn wf(&self) -> bool {
        &&& self.build_micros@.len() <= TERMINAL_LATENCY_SAMPLE_LIMIT
        &&& self.shape_micros@.len() <= TERMINAL_LATENCY_SAMPLE_LIMIT
        &&& self.paint_micros@.len() <= TERMINAL_LATENCY_SAMPLE_LIMIT
        &&& self.glyph_cells@.len() <= TERMINAL_LATENCY_SAMPLE_LIMIT
        &&& self.glyph_cache_hits@.len() <= TERMINAL_LATENCY_SAMPLE_LIMIT
        &&& self.glyph_cache_misses@.len() <= TERMINAL_LATENCY_SAMPLE_LIMIT
        &&& self.background_runs@.len() <= TERMINAL_LATENCY_SAMPLE_LIMIT
        &&& self.text_bytes@.len() <= TERMINAL_LATENCY_SAMPLE_LIMIT
        &&& self.dirty_rows@.len() <= TERMINAL_LATENCY_SAMPLE_LIMIT
        &&& self.dirty_cells@.len() <= TERMINAL_LATENCY_SAMPLE_LIMIT
        &&& self.rebuilt_rows@.len() <= TERMINAL_LATENCY_SAMPLE_LIMIT
        &&& self.reused_rows@.len() <= TERMINAL_LATENCY_SAMPLE_LIMIT
        &&& self.repaint_backgrounds@.len() <= TERMINAL_LATENCY_SAMPLE_LIMIT
        &&& self.painted_rows@.len() <= TERMINAL_LATENCY_SAMPLE_LIMIT
        &&& self.submitted_glyphs@.len() <= TERMINAL_LATENCY_SAMPLE_LIMIT
        &&& self.submitted_backgrounds@.len() <= TERMINAL_LATENCY_SAMPLE_LIMIT
    }

    /// An empty profiler.
    pub fn new() -> (r: Self)
        ensures
            r.wf(),
            r.build_micros@.len() == 0,
            r.shape_micros@.len() == 0,
            r.paint_micros@.len() == 0,
            r.glyph_cells@.len() == 0,
            r.glyph_cache_hits@.len() == 0,
            r.glyph_cache_misses@.len() == 0,
            r.background_runs@.len() == 0,
            r.text_bytes@.len() == 0,
            r.dirty_rows@.len() == 0,
            r.dirty_cells@.len() == 0,
            r.rebuilt_rows@.len() == 0,
            r.reused_rows@.len() == 0,
            r.repaint_backgrounds@.len() == 0,
            r.painted_rows@.len() == 0,
            r.submitted_glyphs@.len() == 0,
            r.submitted_backgrounds@.len() == 0,
            r.last_report_at is None,
    {
        TerminalRenderProfiler {
            build_micros: VecDeque::new(),
            shape_micros: VecDeque::new(),
            paint_micros: VecDeque::new(),
            glyph_cells: VecDeque::new(),
            glyph_cache_hits: VecDeque::new(),
            glyph_cache_misses: VecDeque::new(),
            background_runs: VecDeque::new(),
            text_bytes: VecDeque::new(),
            dirty_rows: VecDeque::new(),
            dirty_cells: VecDeque::new(),
            rebuilt_rows: VecDeque::new(),
            reused_rows: VecDeque::new(),
            repaint_backgrounds: VecDeque::new(),
            painted_rows: VecDeque::new(),
            submitted_glyphs: VecDeque::new(),
            submitted_backgrounds: VecDeque::new(),
            last_report_at: None,
        }
    }

    /// Adds a sample: times only when they are positive; the counts of a
    /// pass whenever the sample holds anything of that pass, zeros included.
    pub fn record(&mut self, sample: TerminalRenderProfileSample)
        ensures
            old(self).wf() ==> final(self).wf(),
            final(self).build_micros@ == maybe_pushed(
                old(self).build_micros@,
                sample.build_micros > 0,
                sample.build_micros,
            ),
            final(self).shape_micros@ == maybe_pushed(
                old(self).shape_micros@,
                sample.shape_micros > 0,
                sample.shape_micros,
            ),
            final(self).glyph_cells@ == maybe_pushed(
                old(self).glyph_cells@,
                has_build_counts(sample),
                sample.glyph_cells as u64,
            ),
            final(self).background_runs@ == maybe_pushed(
                old(self).background_runs@,
                has_build_counts(sample),
                sample.background_runs as u64,
            ),
            final(self).text_bytes@ == maybe_pushed(
                old(self).text_bytes@,
                has_build_counts(sample),
                sample.text_bytes as u64,
            ),
            final(self).dirty_rows@ == maybe_pushed(
                old(self).dirty_rows@,
                has_build_counts(sample),
                sample.dirty_rows as u64,
            ),
            final(self).dirty_cells@ == maybe_pushed(
                old(self).dirty_cells@,
                has_build_counts(sample),
                sample.dirty_cells as u64,
            ),
            final(self).rebuilt_rows@ == maybe_pushed(
                old(self).rebuilt_rows@,
                has_build_counts(sample),
                sample.rebuilt_rows as u64,
            ),
            final(self).reused_rows@ == maybe_pushed(
                old(self).reused_rows@,
                has_build_counts(sample),
                sample.reused_rows as u64,
            ),
            final(self).repaint_backgrounds@ == maybe_pushed(
                old(self).repaint_backgrounds@,
                has_build_counts(sample),
                sample.repaint_backgrounds as u64,
            ),
            final(self).glyph_cache_hits@ == maybe_pushed(
                old(self).glyph_cache_hits@,
                has_shape_counts(sample),
                sample.glyph_cache_hits as u64,
            ),
            final(self).glyph_cache_misses@ == maybe_pushed(
                old(self).glyph_cache_misses@,
                has_shape_counts(sample),
                sample.glyph_cache_misses as u64,
            ),
            final(self).paint_micros@ == maybe_pushed(
                old(self).paint_micros@,
                has_paint_counts(sample),
                sample.paint_micros,
            ),
            final(self).painted_rows@ == maybe_pushed(
                old(self).painted_rows@,
                has_paint_counts(sample),
                sample.painted_rows as u64,
            ),
            final(self).submitted_glyphs@ == maybe_pushed(
                old(self).submitted_glyphs@,
                has_paint_counts(sample),
                sample.submitted_glyphs as u64,
            ),
            final(self).submitted_backgrounds@ == maybe_pushed(
                old(self).submitted_backgrounds@,
                has_paint_counts(sample),
                sample.submitted_backgrounds as u64,
            ),
            final(self).last_report_at == old(self).last_report_at,
    {
        push_if(&mut self.build_micros, sample.build_micros > 0, sample.build_micros);
        push_if(&mut self.shape_micros, sample.shape_micros > 0, sample.shape_micros);
        let build = sample.build_micros > 0 || sample.dirty_rows > 0 || sample.dirty_cells > 0
            || sample.rebuilt_rows > 0 || sample.reused_rows > 0 || sample.repaint_backgrounds > 0
            || sample.glyph_cells > 0 || sample.background_runs > 0 || sample.text_bytes > 0;
        push_if(&mut self.glyph_cells, build, sample.glyph_cells as u64);
        push_if(&mut self.background_runs, build, sample.background_runs as u64);
        push_if(&mut self.text_bytes, build, sample.text_bytes as u64);
        push_if(&mut self.dirty_rows, build, sample.dirty_rows as u64);
        push_if(&mut self.dirty_cells, build, sample.dirty_cells as u64);
        push_if(&mut self.rebuilt_rows, build, sample.rebuilt_rows as u64);
        push_if(&mut self.reused_rows, build, sample.reused_rows as u64);
        push_if(&mut self.repaint_backgrounds, build, sample.repaint_backgrounds as u64);
        let shape = sample.shape_micros > 0 || sample.glyph_cache_hits > 0
            || sample.glyph_cache_misses > 0;
        push_if(&mut self.glyph_cache_hits, shape, sample.glyph_cache_hits as u64);
        push_if(&mut self.glyph_cache_misses, shape, sample.glyph_cache_misses as u64);
        let paint = sample.paint_micros > 0 || sample.painted_rows > 0 || sample.submitted_glyphs > 0
            || sample.submitted_backgrounds > 0;
        push_if(&mut self.paint_micros, paint, sample.paint_micros);
        push_if(&mut self.painted_rows, paint, sample.painted_rows as u64);
        push_if(&mut self.submitted_glyphs, paint, sample.submitted_glyphs as u64);
        push_if(&mut self.submitted_backgrounds, paint, sample.submitted_backgrounds as u64);
    }

    /// Whether a report is due at `now` (at most one a second): when it is,
    /// the time is recorded as the last report's.
    pub fn begin_report(&mut self, now: u64) -> (due: bool)
        ensures
            due == match old(self).last_report_at {
                Some(at) => now >= at && now - at >= 1_000_000,
                None => true,
            },
            final(self).last_report_at == if due {
                Some(now)
            } else {
                old(self).last_report_at
            },
            final(self).build_micros == old(self).build_micros,
            final(self).paint_micros == old(self).paint_micros,
    {
        if let Some(at) = self.last_report_at {
            if now.saturating_sub(at) < 1_000_000 {
                return false;
            }
        }
        self.last_report_at = Some(now);
        true
    }
}

} // verus!
