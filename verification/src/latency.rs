//! The latency figures a live terminal keeps: one rolling series per stage
//! from a keystroke to a presented snapshot.

use vstd::prelude::*;
use std::collections::VecDeque;
use crate::metrics::{push_latency_sample, TERMINAL_LATENCY_SAMPLE_LIMIT};
use crate::profile::pushed;

verus! {

/// The recent samples of each stage.
#[derive(Default)]
pub struct TerminalLatencyStats {
    pub key_to_snapshot_micros: VecDeque<u64>,
    pub pty_to_snapshot_micros: VecDeque<u64>,
    pub pty_output_bytes: VecDeque<u64>,
    pub vt_write_micros: VecDeque<u64>,
    pub snapshot_update_micros: VecDeque<u64>,
    pub snapshot_extract_micros: VecDeque<u64>,
    pub snapshot_build_micros: VecDeque<u64>,
    pub dirty_rows: VecDeque<u64>,
    pub dirty_cells: VecDeque<u64>,
}

/// `micros` capped at the largest `u64`.
pub open spec fn capped_micros(micros: u128) -> u64 {
    if micros > u64::MAX as u128 {
        u64::MAX
    } else {
        micros as u64
    }
}

impl TerminalLatencyStats {
    /// No series holds more than the sample limit.
    pub open spec fn wf(&self) -> bool {
        &&& self.key_to_snapshot_micros@.len() <= TERMINAL_LATENCY_SAMPLE_LIMIT
        &&& self.pty_to_snapshot_micros@.len() <= TERMINAL_LATENCY_SAMPLE_LIMIT
        &&& self.pty_output_bytes@.len() <= TERMINAL_LATENCY_SAMPLE_LIMIT
        &&& self.vt_write_micros@.len() <= TERMINAL_LATENCY_SAMPLE_LIMIT
        &&& self.snapshot_update_micros@.len() <= TERMINAL_LATENCY_SAMPLE_LIMIT
        &&& self.snapshot_extract_micros@.len() <= TERMINAL_LATENCY_SAMPLE_LIMIT
        &&& self.snapshot_build_micros@.len() <= TERMINAL_LATENCY_SAMPLE_LIMIT
        &&& self.dirty_rows@.len() <= TERMINAL_LATENCY_SAMPLE_LIMIT
        &&& self.dirty_cells@.len() <= TERMINAL_LATENCY_SAMPLE_LIMIT
    }

    /// The time from a keystroke to the snapshot that shows it, in
    /// microseconds, capped at the largest `u64`.
    pub fn record_key_to_snapshot(&mut self, micros: u128)
        ensures
            old(self).wf() ==> final(self).wf(),
            final(self).key_to_snapshot_micros@ == pushed(old(self).key_to_snapshot_micros@, capped_micros(micros)),
            final(self).pty_to_snapshot_micros@ == old(self).pty_to_snapshot_micros@,
            final(self).pty_output_bytes@ == old(self).pty_output_bytes@,
            final(self).vt_write_micros@ == old(self).vt_write_micros@,
            final(self).snapshot_update_micros@ == old(self).snapshot_update_micros@,
            final(self).snapshot_extract_micros@ == old(self).snapshot_extract_micros@,
            final(self).snapshot_build_micros@ == old(self).snapshot_build_micros@,
            final(self).dirty_rows@ == old(self).dirty_rows@,
            final(self).dirty_cells@ == old(self).dirty_cells@,
    {
        let value: u64 = if micros > u64::MAX as u128 {
            u64::MAX
        } else {
            micros as u64
        };
        push_latency_sample(&mut self.key_to_snapshot_micros, value);
    }

    /// The time from terminal output to its snapshot, where it was measured.
    pub fn record_pty_to_snapshot(&mut self, micros: Option<u64>)
        ensures
            old(self).wf() ==> final(self).wf(),
            final(self).pty_to_snapshot_micros@ == match micros {
                Some(m) => pushed(old(self).pty_to_snapshot_micros@, m),
                None => old(self).pty_to_snapshot_micros@,
            },
            final(self).key_to_snapshot_micros@ == old(self).key_to_snapshot_micros@,
            final(self).pty_output_bytes@ == old(self).pty_output_bytes@,
            final(self).vt_write_micros@ == old(self).vt_write_micros@,
            final(self).snapshot_update_micros@ == old(self).snapshot_update_micros@,
            final(self).snapshot_extract_micros@ == old(self).snapshot_extract_micros@,
            final(self).snapshot_build_micros@ == old(self).snapshot_build_micros@,
            final(self).dirty_rows@ == old(self).dirty_rows@,
            final(self).dirty_cells@ == old(self).dirty_cells@,
    {
        if let Some(m) = micros {
            push_latency_sample(&mut self.pty_to_snapshot_micros, m);
        }
    }

    pub fn record_pty_output_bytes(&mut self, bytes: u64)
        ensures
            old(self).wf() ==> final(self).wf(),
            final(self).pty_output_bytes@ == pushed(old(self).pty_output_bytes@, bytes),
            final(self).key_to_snapshot_micros@ == old(self).key_to_snapshot_micros@,
            final(self).pty_to_snapshot_micros@ == old(self).pty_to_snapshot_micros@,
            final(self).vt_write_micros@ == old(self).vt_write_micros@,
            final(self).snapshot_update_micros@ == old(self).snapshot_update_micros@,
            final(self).snapshot_extract_micros@ == old(self).snapshot_extract_micros@,
            final(self).snapshot_build_micros@ == old(self).snapshot_build_micros@,
            final(self).dirty_rows@ == old(self).dirty_rows@,
            final(self).dirty_cells@ == old(self).dirty_cells@,
    {
        push_latency_sample(&mut self.pty_output_bytes, bytes);
    }

    pub fn record_vt_write(&mut self, micros: u64)
        ensures
            old(self).wf() ==> final(self).wf(),
            final(self).vt_write_micros@ == pushed(old(self).vt_write_micros@, micros),
            final(self).key_to_snapshot_micros@ == old(self).key_to_snapshot_micros@,
            final(self).pty_to_snapshot_micros@ == old(self).pty_to_snapshot_micros@,
            final(self).pty_output_bytes@ == old(self).pty_output_bytes@,
            final(self).snapshot_update_micros@ == old(self).snapshot_update_micros@,
            final(self).snapshot_extract_micros@ == old(self).snapshot_extract_micros@,
            final(self).snapshot_build_micros@ == old(self).snapshot_build_micros@,
            final(self).dirty_rows@ == old(self).dirty_rows@,
            final(self).dirty_cells@ == old(self).dirty_cells@,
    {
        push_latency_sample(&mut self.vt_write_micros, micros);
    }

    pub fn record_snapshot_update(&mut self, micros: u64)
        ensures
            old(self).wf() ==> final(self).wf(),
            final(self).snapshot_update_micros@ == pushed(old(self).snapshot_update_micros@, micros),
            final(self).key_to_snapshot_micros@ == old(self).key_to_snapshot_micros@,
            final(self).pty_to_snapshot_micros@ == old(self).pty_to_snapshot_micros@,
            final(self).pty_output_bytes@ == old(self).pty_output_bytes@,
            final(self).vt_write_micros@ == old(self).vt_write_micros@,
            final(self).snapshot_extract_micros@ == old(self).snapshot_extract_micros@,
            final(self).snapshot_build_micros@ == old(self).snapshot_build_micros@,
            final(self).dirty_rows@ == old(self).dirty_rows@,
            final(self).dirty_cells@ == old(self).dirty_cells@,
    {
        push_latency_sample(&mut self.snapshot_update_micros, micros);
    }

    pub fn record_snapshot_extract(&mut self, micros: u64)
        ensures
            old(self).wf() ==> final(self).wf(),
            final(self).snapshot_extract_micros@ == pushed(old(self).snapshot_extract_micros@, micros),
            final(self).key_to_snapshot_micros@ == old(self).key_to_snapshot_micros@,
            final(self).pty_to_snapshot_micros@ == old(self).pty_to_snapshot_micros@,
            final(self).pty_output_bytes@ == old(self).pty_output_bytes@,
            final(self).vt_write_micros@ == old(self).vt_write_micros@,
            final(self).snapshot_update_micros@ == old(self).snapshot_update_micros@,
            final(self).snapshot_build_micros@ == old(self).snapshot_build_micros@,
            final(self).dirty_rows@ == old(self).dirty_rows@,
            final(self).dirty_cells@ == old(self).dirty_cells@,
    {
        push_latency_sample(&mut self.snapshot_extract_micros, micros);
    }

    pub fn record_snapshot_build(&mut self, micros: u64)
        ensures
            old(self).wf() ==> final(self).wf(),
            final(self).snapshot_build_micros@ == pushed(old(self).snapshot_build_micros@, micros),
            final(self).key_to_snapshot_micros@ == old(self).key_to_snapshot_micros@,
            final(self).pty_to_snapshot_micros@ == old(self).pty_to_snapshot_micros@,
            final(self).pty_output_bytes@ == old(self).pty_output_bytes@,
            final(self).vt_write_micros@ == old(self).vt_write_micros@,
            final(self).snapshot_update_micros@ == old(self).snapshot_update_micros@,
            final(self).snapshot_extract_micros@ == old(self).snapshot_extract_micros@,
            final(self).dirty_rows@ == old(self).dirty_rows@,
            final(self).dirty_cells@ == old(self).dirty_cells@,
    {
        push_latency_sample(&mut self.snapshot_build_micros, micros);
    }

    pub fn record_dirty_rows(&mut self, rows: u32)
        ensures
            old(self).wf() ==> final(self).wf(),
            final(self).dirty_rows@ == pushed(old(self).dirty_rows@, rows as u64),
            final(self).key_to_snapshot_micros@ == old(self).key_to_snapshot_micros@,
            final(self).pty_to_snapshot_micros@ == old(self).pty_to_snapshot_micros@,
            final(self).pty_output_bytes@ == old(self).pty_output_bytes@,
            final(self).vt_write_micros@ == old(self).vt_write_micros@,
            final(self).snapshot_update_micros@ == old(self).snapshot_update_micros@,
            final(self).snapshot_extract_micros@ == old(self).snapshot_extract_micros@,
            final(self).snapshot_build_micros@ == old(self).snapshot_build_micros@,
            final(self).dirty_cells@ == old(self).dirty_cells@,
    {
        push_latency_sample(&mut self.dirty_rows, rows as u64);
    }

    pub fn record_dirty_cells(&mut self, cells: u32)
        ensures
            old(self).wf() ==> final(self).wf(),
            final(self).dirty_cells@ == pushed(old(self).dirty_cells@, cells as u64),
            final(self).key_to_snapshot_micros@ == old(self).key_to_snapshot_micros@,
            final(self).pty_to_snapshot_micros@ == old(self).pty_to_snapshot_micros@,
            final(self).pty_output_bytes@ == old(self).pty_output_bytes@,
            final(self).vt_write_micros@ == old(self).vt_write_micros@,
            final(self).snapshot_update_micros@ == old(self).snapshot_update_micros@,
            final(self).snapshot_extract_micros@ == old(self).snapshot_extract_micros@,
            final(self).snapshot_build_micros@ == old(self).snapshot_build_micros@,
            final(self).dirty_rows@ == old(self).dirty_rows@,
    {
        push_latency_sample(&mut self.dirty_cells, cells as u64);
    }
}

} // verus!
