//! Rolling samples of terminal latencies and counts, and their summaries.

use vstd::prelude::*;
use vstd::relations::{sorted_by, total_ordering};
use std::collections::VecDeque;
use crate::num::{dec, u64_dec};
use crate::text::{opt_view, str_chars, push_all, string_from_chars, lower, chars_to_lower, is_word, trim, chars_trim, slice_range};
use crate::split::{split_char, split_exec};

verus! {

/// The most samples that one series keeps; older ones are dropped first.
pub const TERMINAL_LATENCY_SAMPLE_LIMIT: usize = 256;

/// Appends a sample, first dropping the oldest when the series is full.
pub fn push_latency_sample(samples: &mut VecDeque<u64>, micros: u64)
    ensures
        final(samples)@ == (if old(samples)@.len() == TERMINAL_LATENCY_SAMPLE_LIMIT {
            old(samples)@.drop_first()
        } else {
            old(samples)@
        }).push(micros),
{
    if samples.len() == TERMINAL_LATENCY_SAMPLE_LIMIT {
        samples.pop_front();
    }
    samples.push_back(micros);
}

/// A series that holds at most the limit keeps doing so, and the newest
/// sample is always the last one.
pub proof fn lemma_push_latency_sample_bounded(before: Seq<u64>, micros: u64)
    requires
        before.len() <= TERMINAL_LATENCY_SAMPLE_LIMIT,
    ensures
        ({
            let after = (if before.len() == TERMINAL_LATENCY_SAMPLE_LIMIT {
                before.drop_first()
            } else {
                before
            }).push(micros);
            &&& after.len() <= TERMINAL_LATENCY_SAMPLE_LIMIT
            &&& after.last() == micros
            &&& after.len() == if before.len() == TERMINAL_LATENCY_SAMPLE_LIMIT {
                before.len() as int
            } else {
                before.len() + 1int
            }
        }),
{
}

pub open spec fn u64_le(a: u64, b: u64) -> bool {
    a <= b
}

/// The samples in increasing order.
pub open spec fn sorted_samples(samples: Seq<u64>) -> Seq<u64> {
    samples.sort_by(|a: u64, b: u64| u64_le(a, b))
}

proof fn lemma_u64_le_total()
    ensures
        total_ordering(|a: u64, b: u64| u64_le(a, b)),
{
}

/// Sorts `values` in increasing order (`slice::sort_unstable`): the result
/// is sorted and holds the same values, each as often as before.
#[verifier::external_body]
fn sort_values(values: &mut Vec<u64>)
    ensures
        sorted_by(final(values)@, |a: u64, b: u64| u64_le(a, b)),
        final(values)@.to_multiset() == old(values)@.to_multiset(),
{
    values.sort_unstable();
}

/// The element at `percentile` percent of the way through a sorted series,
/// rounding down.
pub open spec fn percentile_index(len: nat, percentile: nat) -> int {
    let last = len - 1;
    let i = (last * percentile) / 100;
    if i < last {
        i
    } else {
        last
    }
}

pub fn latency_percentile(sorted_micros: &[u64], percentile: usize) -> (r: u64)
    requires
        sorted_micros@.len() > 0,
        (sorted_micros@.len() - 1) * percentile <= usize::MAX,
    ensures
        r == sorted_micros@[percentile_index(sorted_micros@.len(), percentile as nat)],
{
    let last = sorted_micros.len() - 1;
    let scaled = last * percentile;
    let index = scaled / 100;
    let index = if index < last {
        index
    } else {
        last
    };
    sorted_micros[index]
}

/// The median, the 95th percentile and the largest of a series.
pub open spec fn summary_points(samples: Seq<u64>) -> (u64, u64, u64) {
    let s = sorted_samples(samples);
    (s[percentile_index(s.len(), 50)], s[percentile_index(s.len(), 95)], s.last())
}

/// The median, 95th percentile and maximum of the samples; none for an
/// empty series.
pub fn summary_percentiles(samples: &VecDeque<u64>) -> (r: Option<(u64, u64, u64)>)
    requires
        (samples@.len() - 1) * 95 <= usize::MAX,
    ensures
        match r {
            Some(points) => samples@.len() > 0 && points == summary_points(samples@),
            None => samples@.len() == 0,
        },
{
    if samples.len() == 0 {
        return None;
    }
    let mut sorted: Vec<u64> = Vec::new();
    let mut i: usize = 0;
    while i < samples.len()
        invariant
            i <= samples@.len(),
            sorted@ == samples@.take(i as int),
        decreases samples@.len() - i,
    {
        sorted.push(samples[i]);
        proof {
            assert(samples@.take(i + 1) =~= samples@.take(i as int).push(samples@[i as int]));
        }
        i = i + 1;
    }
    proof {
        assert(samples@.take(samples@.len() as int) =~= samples@);
    }
    sort_values(&mut sorted);
    proof {
        broadcast use vstd::seq_lib::group_to_multiset_ensures;
        assert(sorted@.len() == sorted@.to_multiset().len());
        assert(samples@.len() == samples@.to_multiset().len());
        lemma_u64_le_total();
        samples@.lemma_sort_by_ensures(|a: u64, b: u64| u64_le(a, b));
        vstd::seq_lib::lemma_sorted_unique(
            sorted@,
            sorted_samples(samples@),
            |a: u64, b: u64| u64_le(a, b),
        );
    }
    let p50 = latency_percentile(sorted.as_slice(), 50);
    let p95 = latency_percentile(sorted.as_slice(), 95);
    let max = sorted[sorted.len() - 1];
    Some((p50, p95, max))
}

/// `p50 <median> p95 <95th percentile> max <maximum>`.
pub open spec fn count_summary_text(points: (u64, u64, u64)) -> Seq<char> {
    "p50 "@ + dec(points.0 as nat) + " p95 "@ + dec(points.1 as nat) + " max "@ + dec(
        points.2 as nat,
    )
}

/// The summary of a series of counts; none when it is empty.
pub fn count_summary(samples: &VecDeque<u64>) -> (r: Option<String>)
    requires
        (samples@.len() - 1) * 95 <= usize::MAX,
    ensures
        match r {
            Some(text) => samples@.len() > 0 && text@ == count_summary_text(summary_points(samples@)),
            None => samples@.len() == 0,
        },
{
    let (p50, p95, max) = match summary_percentiles(samples) {
        Some(points) => points,
        None => {
            return None;
        },
    };
    let mut out = str_chars("p50 ");
    push_all(&mut out, u64_dec(p50).as_slice());
    push_all(&mut out, str_chars(" p95 ").as_slice());
    push_all(&mut out, u64_dec(p95).as_slice());
    push_all(&mut out, str_chars(" max ").as_slice());
    push_all(&mut out, u64_dec(max).as_slice());
    Some(string_from_chars(out.as_slice()))
}

/// An environment flag is on unless it is `0` or, in any case, `false`.
pub open spec fn env_value_enabled(value: Seq<char>) -> bool {
    value != "0"@ && lower(value) != "false"@
}

pub fn terminal_env_value_enabled(value: &str) -> (r: bool)
    ensures
        r == env_value_enabled(value@),
{
    let chars = str_chars(value);
    let lowered = chars_to_lower(chars.as_slice());
    !is_word(chars.as_slice(), "0") && !is_word(lowered.as_slice(), "false")
}

// ---------------------------------------------------------------------------
// Font families
// ---------------------------------------------------------------------------

/// `s` without the copies of `c` that it starts with.
pub open spec fn strip_leading(s: Seq<char>, c: char) -> Seq<char>
    decreases s.len(),
{
    if s.len() > 0 && s[0] == c {
        strip_leading(s.drop_first(), c)
    } else {
        s
    }
}

/// `s` without the copies of `c` that it ends with.
pub open spec fn strip_trailing(s: Seq<char>, c: char) -> Seq<char>
    decreases s.len(),
{
    if s.len() > 0 && s.last() == c {
        strip_trailing(s.drop_last(), c)
    } else {
        s
    }
}

/// `str::trim_matches` with one character.
pub open spec fn trim_matches(s: Seq<char>, c: char) -> Seq<char> {
    strip_trailing(strip_leading(s, c), c)
}

proof fn lemma_strip_leading_at(s: Seq<char>, c: char, i: int)
    requires
        0 <= i <= s.len(),
        forall|k: int| 0 <= k < i ==> s[k] == c,
        i == s.len() || s[i] != c,
    ensures
        strip_leading(s, c) == s.subrange(i, s.len() as int),
    decreases i,
{
    if i == 0 {
        assert(s.subrange(0, s.len() as int) =~= s);
    } else {
        let r = s.drop_first();
        assert forall|k: int| 0 <= k < i - 1 implies r[k] == c by {
            assert(r[k] == s[k + 1]);
        }
        if i - 1 < r.len() {
            assert(r[i - 1] == s[i]);
        }
        lemma_strip_leading_at(r, c, i - 1);
        assert(r.subrange(i - 1, r.len() as int) =~= s.subrange(i, s.len() as int));
    }
}

proof fn lemma_strip_trailing_at(s: Seq<char>, c: char, j: int)
    requires
        0 <= j <= s.len(),
        forall|k: int| j <= k < s.len() ==> s[k] == c,
        j == 0 || s[j - 1] != c,
    ensures
        strip_trailing(s, c) == s.subrange(0, j),
    decreases s.len() - j,
{
    if j == s.len() {
        assert(s.subrange(0, j) =~= s);
    } else {
        let r = s.drop_last();
        assert forall|k: int| j <= k < r.len() implies r[k] == c by {
            assert(r[k] == s[k]);
        }
        if j > 0 {
            assert(r[j - 1] == s[j - 1]);
        }
        lemma_strip_trailing_at(r, c, j);
        assert(r.subrange(0, j) =~= s.subrange(0, j));
    }
}

fn trim_matches_exec(s: &[char], c: char) -> (out: Vec<char>)
    ensures
        out@ == trim_matches(s@, c),
{
    let mut i: usize = 0;
    while i < s.len() && s[i] == c
        invariant
            i <= s.len(),
            forall|k: int| 0 <= k < i ==> s@[k] == c,
        decreases s.len() - i,
    {
        i = i + 1;
    }
    proof {
        lemma_strip_leading_at(s@, c, i as int);
    }
    let mut j: usize = s.len();
    while j > i && s[j - 1] == c
        invariant
            i <= j <= s.len(),
            forall|k: int| j <= k < s.len() ==> s@[k] == c,
        decreases j,
    {
        j = j - 1;
    }
    proof {
        let t = s@.subrange(i as int, s.len() as int);
        assert forall|k: int| j - i <= k < t.len() implies t[k] == c by {
            assert(t[k] == s@[k + i]);
        }
        if j > i {
            assert(t[j - i - 1] == s@[j - 1]);
        }
        lemma_strip_trailing_at(t, c, j - i);
        assert(t.subrange(0, j - i) =~= s@.subrange(i as int, j as int));
    }
    slice_range(s, i, j)
}

/// One entry of a CSS font stack as a family name: trimmed, with its quotes
/// taken off.
pub open spec fn font_family_name(entry: Seq<char>) -> Seq<char> {
    trim(trim_matches(trim_matches(trim(entry), '"'), '\''))
}

/// The first entry that names a real family (not empty, not the generic
/// `monospace` in any case).
pub open spec fn first_family(entries: Seq<Seq<char>>) -> Option<Seq<char>>
    decreases entries.len(),
{
    if entries.len() == 0 {
        None
    } else {
        let name = font_family_name(entries[0]);
        if name.len() > 0 && lower(name) != "monospace"@ {
            Some(name)
        } else {
            first_family(entries.drop_first())
        }
    }
}

/// The first real family of a comma-separated font stack.
pub fn first_font_family(input: &str) -> (r: Option<String>)
    ensures
        opt_view(r) == first_family(split_char(input@, ',')),
{
    let chars = str_chars(input);
    let entries = split_exec(chars.as_slice(), ',', ',', false);
    let ghost all = entries@.map_values(|p: Vec<char>| p@);
    assert(all == split_char(input@, ','));
    let mut i: usize = 0;
    proof {
        assert(all.skip(0) =~= all);
    }
    while i < entries.len()
        invariant
            i <= entries@.len(),
            all == entries@.map_values(|p: Vec<char>| p@),
            all == split_char(input@, ','),
            first_family(all) == first_family(all.skip(i as int)),
        decreases entries.len() - i,
    {
        proof {
            assert(all.skip(i as int).drop_first() =~= all.skip(i + 1));
            assert(all.skip(i as int)[0] == entries@[i as int]@);
        }
        let trimmed = chars_trim(entries[i].as_slice());
        let unquoted = trim_matches_exec(trim_matches_exec(trimmed.as_slice(), '"').as_slice(), '\'');
        let name = chars_trim(unquoted.as_slice());
        let lowered = chars_to_lower(name.as_slice());
        assert(name@ == font_family_name(all.skip(i as int)[0]));
        if name.len() > 0 && !is_word(lowered.as_slice(), "monospace") {
            return Some(string_from_chars(name.as_slice()));
        }
        i = i + 1;
    }
    None
}

} // verus!
