//! Pane activity: when a pane last produced output, when the user last looked
//! at it, and whether it is waiting for the user's attention.

use vstd::prelude::*;
use crate::types::ActivityState;
use crate::num::{hex_fixed, u64_hex16};
use crate::text::{string_from_chars, opt_view, opt_string_eq, opt_string_clone};

verus! {

#[derive(Clone, Debug, PartialEq, Eq)]
pub struct PaneActivity {
    pub workspace_id: String,
    pub pane_id: String,
    pub last_activity_at_ms: i64,
    pub last_seen_at_ms: i64,
    pub last_seen_activity_at_ms: i64,
    pub last_tmux_activity_at_s: Option<i64>,
    pub last_seen_tmux_activity_at_s: Option<i64>,
    pub last_screen_fingerprint: Option<String>,
    pub last_seen_screen_fingerprint: Option<String>,
    pub needs_attention: bool,
    pub needs_attention_at_ms: i64,
    pub needs_attention_cleared_at_ms: i64,
    pub updated_at_ms: i64,
}

pub open spec fn max_i64(a: i64, b: i64) -> i64 {
    if a >= b {
        a
    } else {
        b
    }
}

/// `a - b`, saturated to the range of `i64` (`i64::saturating_sub`).
pub open spec fn sat_sub(a: i64, b: i64) -> int {
    let d = a - b;
    if d > i64::MAX {
        i64::MAX as int
    } else if d < i64::MIN {
        i64::MIN as int
    } else {
        d
    }
}

pub fn saturating_sub_i64(a: i64, b: i64) -> (r: i64)
    ensures
        r == sat_sub(a, b),
{
    let d: i128 = (a as i128) - (b as i128);
    if d > i64::MAX as i128 {
        i64::MAX
    } else if d < i64::MIN as i128 {
        i64::MIN
    } else {
        d as i64
    }
}

fn max_exec(a: i64, b: i64) -> (r: i64)
    ensures
        r == max_i64(a, b),
{
    if a >= b {
        a
    } else {
        b
    }
}

/// The record that a tmux poll at `observed_at_ms` leaves: a tmux activity
/// time newer than the last one moves the activity time to the poll; a
/// screen fingerprint replaces the last.
pub open spec fn tmux_observed(
    a: PaneActivity,
    observed_at_ms: i64,
    tmux_activity_at_s: Option<i64>,
    screen_fingerprint: Option<String>,
) -> PaneActivity {
    let newer = match tmux_activity_at_s {
        Some(t) => match a.last_tmux_activity_at_s {
            Some(c) => t > c,
            None => true,
        },
        None => false,
    };
    PaneActivity {
        last_tmux_activity_at_s: if newer {
            tmux_activity_at_s
        } else {
            a.last_tmux_activity_at_s
        },
        last_activity_at_ms: if newer {
            max_i64(a.last_activity_at_ms, observed_at_ms)
        } else {
            a.last_activity_at_ms
        },
        last_screen_fingerprint: match screen_fingerprint {
            Some(f) => Some(f),
            None => a.last_screen_fingerprint,
        },
        updated_at_ms: max_i64(a.updated_at_ms, observed_at_ms),
        ..a
    }
}

/// The record that the user's look at the pane at `seen_at_ms` leaves:
/// everything recorded so far counts as seen, and a pending attention
/// request is cleared then.
pub open spec fn seen_recorded(a: PaneActivity, seen_at_ms: i64) -> PaneActivity {
    PaneActivity {
        last_seen_at_ms: seen_at_ms,
        last_seen_activity_at_ms: a.last_activity_at_ms,
        last_seen_tmux_activity_at_s: a.last_tmux_activity_at_s,
        last_seen_screen_fingerprint: a.last_screen_fingerprint,
        updated_at_ms: max_i64(a.updated_at_ms, seen_at_ms),
        needs_attention: false,
        needs_attention_cleared_at_ms: if a.needs_attention {
            seen_at_ms
        } else {
            a.needs_attention_cleared_at_ms
        },
        ..a
    }
}

/// A record with nothing recorded yet, dated `now_ms`.
pub open spec fn fresh_activity(workspace_id: String, pane_id: String, now_ms: i64) -> PaneActivity {
    PaneActivity {
        workspace_id,
        pane_id,
        last_activity_at_ms: 0,
        last_seen_at_ms: 0,
        last_seen_activity_at_ms: 0,
        last_tmux_activity_at_s: None,
        last_seen_tmux_activity_at_s: None,
        last_screen_fingerprint: None,
        last_seen_screen_fingerprint: None,
        needs_attention: false,
        needs_attention_at_ms: 0,
        needs_attention_cleared_at_ms: 0,
        updated_at_ms: now_ms,
    }
}

impl PaneActivity {
    /// Something happened in the pane after the user last saw it.
    pub open spec fn spec_has_unseen_activity(&self) -> bool {
        ||| self.last_activity_at_ms > self.last_seen_activity_at_ms
        ||| (match (self.last_tmux_activity_at_s, self.last_seen_tmux_activity_at_s) {
            (Some(a), Some(s)) => a > s,
            _ => false,
        })
        ||| (self.last_tmux_activity_at_s is Some && self.last_seen_tmux_activity_at_s is None)
        ||| (self.last_screen_fingerprint is Some && opt_view(self.last_screen_fingerprint)
            != opt_view(self.last_seen_screen_fingerprint))
    }

    /// Active while unseen output is recent and no attention is pending; then
    /// idle-unseen until seen; then idle-seen.
    pub open spec fn spec_state_at(&self, now_ms: i64, active_window_ms: i64) -> ActivityState {
        if !self.needs_attention && self.last_activity_at_ms > 0 && self.last_activity_at_ms
            > self.last_seen_activity_at_ms && sat_sub(now_ms, self.last_activity_at_ms)
            <= active_window_ms {
            ActivityState::Active
        } else if self.spec_has_unseen_activity() {
            ActivityState::IdleUnseen
        } else {
            ActivityState::IdleSeen
        }
    }

    /// A pane with nothing recorded yet.
    pub fn new(workspace_id: &str, pane_id: &str, now_ms: i64) -> (r: Self)
        ensures
            r.workspace_id@ == workspace_id@,
            r.pane_id@ == pane_id@,
            r.last_activity_at_ms == 0,
            r.last_seen_at_ms == 0,
            r.last_seen_activity_at_ms == 0,
            r.last_tmux_activity_at_s is None,
            r.last_seen_tmux_activity_at_s is None,
            r.last_screen_fingerprint is None,
            r.last_seen_screen_fingerprint is None,
            !r.needs_attention,
            r.needs_attention_at_ms == 0,
            r.needs_attention_cleared_at_ms == 0,
            r.updated_at_ms == now_ms,
    {
        PaneActivity {
            workspace_id: workspace_id.to_owned(),
            pane_id: pane_id.to_owned(),
            last_activity_at_ms: 0,
            last_seen_at_ms: 0,
            last_seen_activity_at_ms: 0,
            last_tmux_activity_at_s: None,
            last_seen_tmux_activity_at_s: None,
            last_screen_fingerprint: None,
            last_seen_screen_fingerprint: None,
            needs_attention: false,
            needs_attention_at_ms: 0,
            needs_attention_cleared_at_ms: 0,
            updated_at_ms: now_ms,
        }
    }

    /// Output seen at `at_ms`: the activity time moves forward, a tmux
    /// activity time moves forward, a screen fingerprint replaces the last.
    pub fn record_activity(
        &mut self,
        at_ms: i64,
        tmux_activity_at_s: Option<i64>,
        screen_fingerprint: Option<String>,
    )
        ensures
            final(self).last_activity_at_ms == max_i64(old(self).last_activity_at_ms, at_ms),
            final(self).last_tmux_activity_at_s == (match tmux_activity_at_s {
                Some(t) => Some(
                    max_i64(
                        match old(self).last_tmux_activity_at_s {
                            Some(c) => c,
                            None => 0,
                        },
                        t,
                    ),
                ),
                None => old(self).last_tmux_activity_at_s,
            }),
            final(self).last_screen_fingerprint == (match screen_fingerprint {
                Some(f) => Some(f),
                None => old(self).last_screen_fingerprint,
            }),
            final(self).updated_at_ms == max_i64(old(self).updated_at_ms, at_ms),
            final(self).workspace_id == old(self).workspace_id,
            final(self).pane_id == old(self).pane_id,
            final(self).last_seen_at_ms == old(self).last_seen_at_ms,
            final(self).last_seen_activity_at_ms == old(self).last_seen_activity_at_ms,
            final(self).last_seen_tmux_activity_at_s == old(self).last_seen_tmux_activity_at_s,
            final(self).last_seen_screen_fingerprint == old(self).last_seen_screen_fingerprint,
            final(self).needs_attention == old(self).needs_attention,
            final(self).needs_attention_at_ms == old(self).needs_attention_at_ms,
            final(self).needs_attention_cleared_at_ms == old(self).needs_attention_cleared_at_ms,
    {
        self.last_activity_at_ms = max_exec(self.last_activity_at_ms, at_ms);
        if let Some(t) = tmux_activity_at_s {
            let current = match self.last_tmux_activity_at_s {
                Some(c) => c,
                None => 0,
            };
            self.last_tmux_activity_at_s = Some(max_exec(current, t));
        }
        if let Some(f) = screen_fingerprint {
            self.last_screen_fingerprint = Some(f);
        }
        self.updated_at_ms = max_exec(self.updated_at_ms, at_ms);
    }

    /// A tmux poll at `observed_at_ms`: only a tmux activity time newer than
    /// the last one counts as activity (at the time of the poll).
    pub fn record_tmux_observation(
        &mut self,
        observed_at_ms: i64,
        tmux_activity_at_s: Option<i64>,
        screen_fingerprint: Option<String>,
    )
        ensures
            *final(self) == tmux_observed(*old(self), observed_at_ms, tmux_activity_at_s, screen_fingerprint),
    {
        if let Some(t) = tmux_activity_at_s {
            let newer = match self.last_tmux_activity_at_s {
                Some(c) => t > c,
                None => true,
            };
            if newer {
                self.last_tmux_activity_at_s = Some(t);
                self.last_activity_at_ms = max_exec(self.last_activity_at_ms, observed_at_ms);
            }
        }
        if let Some(f) = screen_fingerprint {
            self.last_screen_fingerprint = Some(f);
        }
        self.updated_at_ms = max_exec(self.updated_at_ms, observed_at_ms);
    }

    /// The user saw the pane at `seen_at_ms`: everything recorded so far
    /// counts as seen, and a pending attention request is cleared then.
    pub fn record_seen(&mut self, seen_at_ms: i64)
        ensures
            *final(self) == seen_recorded(*old(self), seen_at_ms),
    {
        self.last_seen_at_ms = seen_at_ms;
        self.last_seen_activity_at_ms = self.last_activity_at_ms;
        self.last_seen_tmux_activity_at_s = self.last_tmux_activity_at_s;
        self.last_seen_screen_fingerprint = opt_string_clone(&self.last_screen_fingerprint);
        if self.needs_attention {
            self.needs_attention = false;
            self.needs_attention_cleared_at_ms = seen_at_ms;
        }
        self.updated_at_ms = max_exec(self.updated_at_ms, seen_at_ms);
    }

    /// The pane asked for the user's attention at `at_ms`.
    pub fn record_attention(&mut self, at_ms: i64)
        ensures
            final(self).needs_attention,
            final(self).needs_attention_at_ms == at_ms,
            final(self).updated_at_ms == max_i64(old(self).updated_at_ms, at_ms),
            final(self).needs_attention_cleared_at_ms == old(self).needs_attention_cleared_at_ms,
            final(self).workspace_id == old(self).workspace_id,
            final(self).pane_id == old(self).pane_id,
            final(self).last_activity_at_ms == old(self).last_activity_at_ms,
            final(self).last_seen_at_ms == old(self).last_seen_at_ms,
            final(self).last_seen_activity_at_ms == old(self).last_seen_activity_at_ms,
            final(self).last_tmux_activity_at_s == old(self).last_tmux_activity_at_s,
            final(self).last_seen_tmux_activity_at_s == old(self).last_seen_tmux_activity_at_s,
            final(self).last_screen_fingerprint == old(self).last_screen_fingerprint,
            final(self).last_seen_screen_fingerprint == old(self).last_seen_screen_fingerprint,
    {
        self.needs_attention = true;
        self.needs_attention_at_ms = at_ms;
        self.updated_at_ms = max_exec(self.updated_at_ms, at_ms);
    }

    pub fn state_at(&self, now_ms: i64, active_window_ms: i64) -> (r: ActivityState)
        ensures
            r == self.spec_state_at(now_ms, active_window_ms),
    {
        if !self.needs_attention && self.last_activity_at_ms > 0 && self.last_activity_at_ms
            > self.last_seen_activity_at_ms && saturating_sub_i64(now_ms, self.last_activity_at_ms)
            <= active_window_ms {
            ActivityState::Active
        } else if self.has_unseen_activity() {
            ActivityState::IdleUnseen
        } else {
            ActivityState::IdleSeen
        }
    }

    pub fn has_unseen_activity(&self) -> (r: bool)
        ensures
            r == self.spec_has_unseen_activity(),
    {
        let tmux_newer = match (self.last_tmux_activity_at_s, self.last_seen_tmux_activity_at_s) {
            (Some(a), Some(s)) => a > s,
            _ => false,
        };
        self.last_activity_at_ms > self.last_seen_activity_at_ms || tmux_newer || (
        self.last_tmux_activity_at_s.is_some() && self.last_seen_tmux_activity_at_s.is_none())
            || (self.last_screen_fingerprint.is_some() && !opt_string_eq(
            &self.last_screen_fingerprint,
            &self.last_seen_screen_fingerprint,
        ))
    }
}

/// Once the user has seen a pane, nothing in it is unseen and it is idle,
/// until something new is recorded.
pub proof fn lemma_seen_pane_is_idle_seen(a: PaneActivity, seen_at_ms: i64, now_ms: i64, active_window_ms: i64)
    ensures
        !seen_recorded(a, seen_at_ms).spec_has_unseen_activity(),
        seen_recorded(a, seen_at_ms).spec_state_at(now_ms, active_window_ms) == ActivityState::IdleSeen,
{
}

/// The workspace is active when any pane is; otherwise idle-unseen when any
/// pane is; otherwise idle-seen.
pub open spec fn workspace_activity(states: Seq<ActivityState>) -> ActivityState {
    if exists|i: int| 0 <= i < states.len() && states[i] == ActivityState::Active {
        ActivityState::Active
    } else if exists|i: int| 0 <= i < states.len() && states[i] == ActivityState::IdleUnseen {
        ActivityState::IdleUnseen
    } else {
        ActivityState::IdleSeen
    }
}

pub fn derive_workspace_activity(states: &[ActivityState]) -> (r: ActivityState)
    ensures
        r == workspace_activity(states@),
{
    let mut has_unseen = false;
    let mut i: usize = 0;
    while i < states.len()
        invariant
            i <= states.len(),
            forall|k: int| 0 <= k < i ==> states@[k] != ActivityState::Active,
            has_unseen == exists|k: int| 0 <= k < i && states@[k] == ActivityState::IdleUnseen,
        decreases states.len() - i,
    {
        match states[i] {
            ActivityState::Active => {
                return ActivityState::Active;
            },
            ActivityState::IdleUnseen => {
                has_unseen = true;
            },
            ActivityState::IdleSeen => {},
        }
        i = i + 1;
    }
    if has_unseen {
        ActivityState::IdleUnseen
    } else {
        ActivityState::IdleSeen
    }
}

/// FNV-1a offset basis and prime.
pub const FNV_OFFSET: u64 = 0xcbf29ce484222325;

pub const FNV_PRIME: u64 = 0x100000001b3;

/// One FNV-1a step: xor the byte in, multiply modulo 2^64.
pub open spec fn fnv_step(hash: u64, byte: u8) -> u64 {
    (((hash ^ (byte as u64)) as nat * FNV_PRIME as nat) % 0x1_0000_0000_0000_0000nat) as u64
}

/// FNV-1a of `bytes`, starting from `hash`.
pub open spec fn fnv(bytes: Seq<u8>, hash: u64) -> u64
    decreases bytes.len(),
{
    if bytes.len() == 0 {
        hash
    } else {
        fnv(bytes.drop_first(), fnv_step(hash, bytes[0]))
    }
}

proof fn lemma_fnv_push(bytes: Seq<u8>, hash: u64, b: u8)
    ensures
        fnv(bytes.push(b), hash) == fnv_step(fnv(bytes, hash), b),
    decreases bytes.len(),
{
    let pushed = bytes.push(b);
    if bytes.len() == 0 {
        assert(pushed.drop_first() =~= Seq::<u8>::empty());
        assert(fnv(pushed, hash) == fnv(pushed.drop_first(), fnv_step(hash, pushed[0])));
        assert(fnv(Seq::<u8>::empty(), fnv_step(hash, b)) == fnv_step(hash, b));
    } else {
        assert(pushed.drop_first() =~= bytes.drop_first().push(b));
        assert(pushed[0] == bytes[0]);
        lemma_fnv_push(bytes.drop_first(), fnv_step(hash, bytes[0]), b);
        assert(fnv(pushed, hash) == fnv(pushed.drop_first(), fnv_step(hash, pushed[0])));
        assert(fnv(bytes, hash) == fnv(bytes.drop_first(), fnv_step(hash, bytes[0])));
    }
}

/// FNV-1a (64 bit) of the UTF-8 bytes of `screen`.
pub fn fnv1a_bytes(bytes: &[u8]) -> (h: u64)
    ensures
        h == fnv(bytes@, FNV_OFFSET),
{
    let mut hash: u64 = FNV_OFFSET;
    let mut i: usize = 0;
    while i < bytes.len()
        invariant
            i <= bytes.len(),
            hash == fnv(bytes@.take(i as int), FNV_OFFSET),
        decreases bytes.len() - i,
    {
        proof {
            assert(bytes@.take(i + 1) =~= bytes@.take(i as int).push(bytes@[i as int]));
            lemma_fnv_push(bytes@.take(i as int), FNV_OFFSET, bytes@[i as int]);
        }
        hash = (hash ^ (bytes[i] as u64)).wrapping_mul(FNV_PRIME);
        i = i + 1;
    }
    proof {
        assert(bytes@.take(i as int) =~= bytes@);
    }
    hash
}

/// A short digest of a terminal screen: sixteen lowercase hexadecimal
/// digits of the FNV-1a hash of its UTF-8 bytes.
pub fn screen_fingerprint(screen: &str) -> (r: String)
    ensures
        r@ == hex_fixed(fnv(vstd::utf8::encode_utf8(screen@), FNV_OFFSET) as nat, 16),
{
    let h = fnv1a_bytes(screen.as_bytes());
    let v = u64_hex16(h);
    string_from_chars(v.as_slice())
}

} // verus!
