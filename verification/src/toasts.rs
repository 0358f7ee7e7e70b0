//! The error toasts: the last few errors, each with an id by which its
//! timer dismisses it.

use vstd::prelude::*;
use std::collections::VecDeque;

verus! {

/// The most toasts shown at once; older ones give way.
pub const MAX_TOASTS: usize = 4;

#[derive(Clone, Debug, PartialEq, Eq)]
pub struct AppToast {
    pub id: u64,
    pub message: String,
}

/// The toasts shown, oldest first, and the id the next one gets.
#[derive(Clone, Debug)]
pub struct ToastQueue {
    pub toasts: VecDeque<AppToast>,
    pub next_toast_id: u64,
}

/// The id after `id`: one more, wrapping past the largest back to one (no
/// toast has id zero).
pub open spec fn following_id(id: u64) -> u64 {
    if id == u64::MAX {
        1
    } else {
        (id + 1) as u64
    }
}

/// The last `n` items of `s` (all of them where there are fewer).
pub open spec fn keep_last<T>(s: Seq<T>, n: nat) -> Seq<T> {
    if s.len() <= n {
        s
    } else {
        s.subrange(s.len() - n, s.len() as int)
    }
}

/// The toasts without the one with id `id`.
pub open spec fn without_id(s: Seq<AppToast>, id: u64) -> Seq<AppToast>
    decreases s.len(),
{
    if s.len() == 0 {
        s
    } else if s.last().id == id {
        without_id(s.drop_last(), id)
    } else {
        without_id(s.drop_last(), id).push(s.last())
    }
}

impl ToastQueue {
    /// At most four toasts, and the next id is not zero.
    pub open spec fn wf(&self) -> bool {
        &&& self.toasts@.len() <= MAX_TOASTS
        &&& self.next_toast_id >= 1
    }

    /// No toasts; the first gets id one.
    pub fn new() -> (r: Self)
        ensures
            r.wf(),
            r.toasts@.len() == 0,
            r.next_toast_id == 1,
    {
        ToastQueue { toasts: VecDeque::new(), next_toast_id: 1 }
    }

    /// Shows `message` as the newest toast under the next id, which is
    /// returned for the timer that dismisses it; the oldest toasts give way
    /// beyond four.
    pub fn show(&mut self, message: String) -> (id: u64)
        requires
            old(self).wf(),
        ensures
            final(self).wf(),
            id == old(self).next_toast_id,
            final(self).next_toast_id == following_id(old(self).next_toast_id),
            final(self).toasts@ == keep_last(
                old(self).toasts@.push(AppToast { id, message }),
                MAX_TOASTS as nat,
            ),
    {
        let id = self.next_toast_id;
        self.next_toast_id = if id == u64::MAX {
            1
        } else {
            id + 1
        };
        let ghost all = self.toasts@.push(AppToast { id, message });
        self.toasts.push_back(AppToast { id, message });
        assert(self.toasts@ == all);
        if self.toasts.len() > MAX_TOASTS {
            let _ = self.toasts.pop_front();
            assert(self.toasts@ =~= all.subrange(all.len() - MAX_TOASTS, all.len() as int));
        }
        id
    }

    /// Dismisses the toast with id `id`; says whether one was there.
    pub fn dismiss(&mut self, id: u64) -> (changed: bool)
        requires
            old(self).wf(),
        ensures
            final(self).wf(),
            final(self).next_toast_id == old(self).next_toast_id,
            final(self).toasts@ == without_id(old(self).toasts@, id),
            changed == (final(self).toasts@.len() != old(self).toasts@.len()),
    {
        let ghost original = self.toasts@;
        let ghost next = self.next_toast_id;
        let mut kept: VecDeque<AppToast> = VecDeque::new();
        let mut k: usize = 0;
        let count = self.toasts.len();
        while k < count
            invariant
                count == original.len(),
                count <= MAX_TOASTS,
                self.next_toast_id == next,
                k <= count,
                self.toasts@ == original.subrange(k as int, count as int),
                kept@ == without_id(original.take(k as int), id),
                kept@.len() <= k,
            decreases count - k,
        {
            let toast = self.toasts.pop_front().unwrap();
            proof {
                assert(toast == original[k as int]);
                assert(original.take(k as int + 1).drop_last() =~= original.take(k as int));
                assert(original.take(k as int + 1).last() == original[k as int]);
                assert(self.toasts@ =~= original.subrange(k as int + 1, count as int));
            }
            if toast.id != id {
                kept.push_back(toast);
            }
            k = k + 1;
        }
        proof {
            assert(original.take(count as int) =~= original);
        }
        self.toasts = kept;
        self.toasts.len() != count
    }
}

} // verus!
