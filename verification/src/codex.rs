//! Codex sessions that a pane can resume: read from Codex's prompt history
//! (one JSON object per line), matched to the threads Codex keeps per
//! working directory.
//!
//! The history file and the thread table are read by the caller; here they
//! arrive as lines and as rows.

use vstd::prelude::*;
use crate::num::{dec_int, i64_dec};
use crate::calendar::{chrono_accepts_timestamp, minute_text};
use crate::split::{lemma_split_nonempty, split_char, split_exec};
use crate::text::{
    chars_eq, chars_trim, contains, contains_exec, opt_string_clone, opt_view, slice_range, starts_with,
    starts_with_exec, str_chars, string_from_chars, trim,
};

verus! {

// ---------------------------------------------------------------------------
// JSON fields and local times, from the outside crates
// ---------------------------------------------------------------------------

/// The string at `key` in the JSON object written in `text`.
pub uninterp spec fn json_text_field_of(text: Seq<char>, key: Seq<char>) -> Option<Seq<char>>;

/// The integer (one that fits in `i64`) at `key` in the JSON object
/// written in `text`.
pub uninterp spec fn json_integer_field_of(text: Seq<char>, key: Seq<char>) -> Option<i64>;

/// The string at `key` of the JSON value in `text`: `serde_json::from_str`
/// into a `serde_json::Value`, then `Value::get` and `Value::as_str`. The
/// result is `None` where `text` is no JSON, is no object, has no such key
/// or holds something other than a string there.
#[verifier::external_body]
fn json_text_field(text: &str, key: &str) -> (r: Option<String>)
    ensures
        opt_view(r) == json_text_field_of(text@, key@),
{
    match serde_json::from_str::<serde_json::Value>(text) {
        Ok(value) => value.get(key).and_then(serde_json::Value::as_str).map(str::to_owned),
        Err(_) => None,
    }
}

/// The integer at `key` of the JSON value in `text`: `serde_json::from_str`
/// into a `serde_json::Value`, then `Value::get` and `Value::as_i64`;
/// `None` where there is no such integer that fits in `i64`.
#[verifier::external_body]
fn json_integer_field(text: &str, key: &str) -> (r: Option<i64>)
    ensures
        r == json_integer_field_of(text@, key@),
{
    match serde_json::from_str::<serde_json::Value>(text) {
        Ok(value) => value.get(key).and_then(serde_json::Value::as_i64),
        Err(_) => None,
    }
}

/// The instant `ts` seconds after the Unix epoch at the fixed offset
/// `offset_secs` east of UTC, written with the chrono format `format`,
/// which is `%Y-%m-%d %H:%M` (`DateTime::from_timestamp`,
/// `FixedOffset::east_opt`, `with_timezone`, `format`, `to_string`):
/// `None` exactly where `DateTime::from_timestamp` refuses `ts`, else the
/// local date and time `YYYY-MM-DD HH:MM` of `ts + offset_secs`. With this
/// format every item writes (no formatting error, so `to_string` does not
/// panic), and the offset is one `east_opt` accepts.
#[verifier::external_body]
fn offset_minute_text(ts: i64, offset_secs: i32, format: &str) -> (r: Option<String>)
    requires
        -86400 < offset_secs < 86400,
        format@ == "%Y-%m-%d %H:%M"@,
    ensures
        match r {
            Some(text) => chrono_accepts_timestamp(ts) && text@ == minute_text(ts + offset_secs),
            None => !chrono_accepts_timestamp(ts),
        },
{
    match (chrono::DateTime::from_timestamp(ts, 0), chrono::FixedOffset::east_opt(offset_secs)) {
        (Some(utc), Some(zone)) => Some(utc.with_timezone(&zone).format(format).to_string()),
        _ => None,
    }
}

// ---------------------------------------------------------------------------
// Timestamps
// ---------------------------------------------------------------------------

/// How a history timestamp is shown: its local time where there is one,
/// else the raw number of seconds.
pub fn codex_history_timestamp_text(local: Option<String>, ts: i64) -> (r: String)
    ensures
        r@ == match local {
            Some(text) => text@,
            None => dec_int(ts as int),
        },
{
    match local {
        Some(text) => text,
        None => {
            let digits = i64_dec(ts);
            string_from_chars(digits.as_slice())
        },
    }
}

/// How a history timestamp is shown, given the offset of local time from
/// UTC at that instant: local `YYYY-MM-DD HH:MM` where chrono represents
/// the instant, else the raw number of seconds.
pub open spec fn history_timestamp_text(ts: i64, offset_secs: int) -> Seq<char> {
    if chrono_accepts_timestamp(ts) {
        minute_text(ts + offset_secs)
    } else {
        dec_int(ts as int)
    }
}

/// A local offset from UTC, in seconds, that chrono accepts.
pub open spec fn valid_offset(offset_secs: i32) -> bool {
    -86400 < offset_secs < 86400
}

/// `ts` as local `YYYY-MM-DD HH:MM`, where `local_offset_secs` is the
/// offset of the machine's local time from UTC at `ts` (read from its time
/// zone by the caller), or as the raw number of seconds where chrono cannot
/// represent `ts`.
pub fn format_codex_history_timestamp(ts: i64, local_offset_secs: i32) -> (r: String)
    requires
        valid_offset(local_offset_secs),
    ensures
        r@ == history_timestamp_text(ts, local_offset_secs as int),
{
    let local = offset_minute_text(ts, local_offset_secs, "%Y-%m-%d %H:%M");
    codex_history_timestamp_text(local, ts)
}

/// The local offset that `local_offset_at` gives for `ts`, if it is a
/// valid one, else none.
fn checked_offset<F: Fn(i64) -> i32>(local_offset_at: &F, ts: i64) -> (r: i32)
    requires
        call_requires(*local_offset_at, (ts,)),
        forall|t: i64, o: i32| call_ensures(*local_offset_at, (t,), o) ==> valid_offset(o),
    ensures
        call_ensures(*local_offset_at, (ts,), r),
        valid_offset(r),
{
    local_offset_at(ts)
}

// ---------------------------------------------------------------------------
// Which prompts describe a session
// ---------------------------------------------------------------------------

/// A prompt can describe its session unless it is blank or one of the
/// instructions that Codex or Octty send on their own.
pub open spec fn is_description_candidate(text: Seq<char>) -> bool {
    let t = trim(text);
    &&& t.len() > 0
    &&& !starts_with(t, "<permissions instructions>"@)
    &&& !starts_with(t, "<collaboration_mode>"@)
    &&& !starts_with(t, "<apps_instructions>"@)
    &&& !starts_with(t, "<skills_instructions>"@)
    &&& !starts_with(t, "<environment_context>"@)
    &&& !starts_with(t, "# AGENTS.md instructions"@)
    &&& !starts_with(t, "You are running inside Octty pane "@)
    &&& !starts_with(t, "FYI: You are running inside Octty pane "@)
}

fn starts_with_str(t: &[char], prefix: &str) -> (r: bool)
    ensures
        r == starts_with(t@, prefix@),
{
    let p = str_chars(prefix);
    starts_with_exec(t, p.as_slice())
}

pub fn is_codex_session_description_candidate(text: &str) -> (r: bool)
    ensures
        r == is_description_candidate(text@),
{
    let chars = str_chars(text);
    let t = chars_trim(chars.as_slice());
    let t = t.as_slice();
    t.len() > 0
        && !starts_with_str(t, "<permissions instructions>")
        && !starts_with_str(t, "<collaboration_mode>")
        && !starts_with_str(t, "<apps_instructions>")
        && !starts_with_str(t, "<skills_instructions>")
        && !starts_with_str(t, "<environment_context>")
        && !starts_with_str(t, "# AGENTS.md instructions")
        && !starts_with_str(t, "You are running inside Octty pane ")
        && !starts_with_str(t, "FYI: You are running inside Octty pane ")
}

// ---------------------------------------------------------------------------
// Sessions in the history
// ---------------------------------------------------------------------------

/// The session a history line belongs to.
pub open spec fn line_session_id(line: Seq<char>) -> Option<Seq<char>> {
    json_text_field_of(line, "session_id"@)
}

/// A history line's timestamp in seconds, zero where it has none.
pub open spec fn line_ts(line: Seq<char>) -> i64 {
    match json_integer_field_of(line, "ts"@) {
        Some(t) => t,
        None => 0,
    }
}

/// The prompt a history line records.
pub open spec fn line_text(line: Seq<char>) -> Option<Seq<char>> {
    json_text_field_of(line, "text"@)
}

/// A history line's prompt can describe its session.
pub open spec fn line_describes(line: Seq<char>) -> bool {
    match line_text(line) {
        Some(text) => is_description_candidate(text),
        None => false,
    }
}

/// Line `j`, one of the first `n` lines, belongs to session `id`.
pub open spec fn in_session(ls: Seq<Seq<char>>, n: int, j: int, id: Seq<char>) -> bool {
    0 <= j < n && line_session_id(ls[j]) == Some(id)
}

/// `t` is the latest timestamp of session `id` in the first `n` lines.
pub open spec fn is_latest_ts(ls: Seq<Seq<char>>, n: int, id: Seq<char>, t: i64) -> bool {
    &&& exists|j: int| #[trigger] in_session(ls, n, j, id) && line_ts(ls[j]) == t
    &&& forall|j: int| #[trigger] in_session(ls, n, j, id) ==> line_ts(ls[j]) <= t
}

/// Line `j` describes session `id` in the first `n` lines: of the
/// session's lines whose prompt can describe it, it has the latest
/// timestamp, and it is the last of those that share that timestamp.
pub open spec fn is_describing_line(ls: Seq<Seq<char>>, n: int, id: Seq<char>, j: int) -> bool {
    &&& in_session(ls, n, j, id)
    &&& line_describes(ls[j])
    &&& forall|k: int| #[trigger] in_session(ls, n, k, id) && line_describes(ls[k])
        ==> line_ts(ls[k]) < line_ts(ls[j]) || (line_ts(ls[k]) == line_ts(ls[j]) && k <= j)
}

/// What the history tells of one session: its id, its latest timestamp and
/// the prompt that describes it, with that prompt's timestamp.
#[derive(Clone, Debug)]
pub struct CodexHistorySession {
    pub inner_session_id: String,
    pub latest_ts: i64,
    pub description_ts: i64,
    pub description: Option<String>,
}

/// `s` sums up its session over the first `n` lines.
pub open spec fn summarizes(ls: Seq<Seq<char>>, n: int, s: CodexHistorySession) -> bool {
    let id = s.inner_session_id@;
    &&& is_latest_ts(ls, n, id, s.latest_ts)
    &&& match s.description {
        Some(d) => exists|j: int| #[trigger] is_describing_line(ls, n, id, j)
            && line_text(ls[j]) == Some(d@) && line_ts(ls[j]) == s.description_ts,
        None => s.description_ts == i64::MIN
            && forall|j: int| #[trigger] in_session(ls, n, j, id) ==> !line_describes(ls[j]),
    }
}

/// `sessions` are the sessions of the first `n` lines, one each.
pub open spec fn history_sessions_upto(ls: Seq<Seq<char>>, n: int, sessions: Seq<CodexHistorySession>) -> bool {
    &&& forall|a: int, b: int| 0 <= a < b < sessions.len()
        ==> (#[trigger] sessions[a]).inner_session_id@ != (#[trigger] sessions[b]).inner_session_id@
    &&& forall|k: int| 0 <= k < sessions.len() ==> #[trigger] summarizes(ls, n, sessions[k])
    &&& forall|j: int| 0 <= j < n && (#[trigger] line_session_id(ls[j])) is Some
        ==> exists|k: int| 0 <= k < sessions.len() && line_session_id(ls[j]) == Some((#[trigger] sessions[k]).inner_session_id@)
}

/// A line of another session, or of none, leaves a session's summary as
/// it is.
proof fn lemma_summary_skips_line(ls: Seq<Seq<char>>, n: int, s: CodexHistorySession)
    requires
        0 <= n < ls.len(),
        summarizes(ls, n, s),
        line_session_id(ls[n]) != Some(s.inner_session_id@),
    ensures
        summarizes(ls, n + 1, s),
{
    let id = s.inner_session_id@;
    let w = choose|j: int| #[trigger] in_session(ls, n, j, id) && line_ts(ls[j]) == s.latest_ts;
    assert(in_session(ls, n + 1, w, id));
    assert forall|j: int| #[trigger] in_session(ls, n + 1, j, id) implies line_ts(ls[j]) <= s.latest_ts by {
        assert(in_session(ls, n, j, id));
    }
    match s.description {
        Some(d) => {
            let dj = choose|j: int| #[trigger] is_describing_line(ls, n, id, j)
                && line_text(ls[j]) == Some(d@) && line_ts(ls[j]) == s.description_ts;
            assert forall|q: int| #[trigger] in_session(ls, n + 1, q, id) && line_describes(ls[q])
                implies line_ts(ls[q]) < line_ts(ls[dj]) || (line_ts(ls[q]) == line_ts(ls[dj]) && q <= dj) by {
                assert(in_session(ls, n, q, id));
            }
            assert(is_describing_line(ls, n + 1, id, dj));
        },
        None => {
            assert forall|j: int| #[trigger] in_session(ls, n + 1, j, id) implies !line_describes(ls[j]) by {
                assert(in_session(ls, n, j, id));
            }
        },
    }
}

proof fn lemma_skip_line(ls: Seq<Seq<char>>, n: int, sessions: Seq<CodexHistorySession>)
    requires
        0 <= n < ls.len(),
        history_sessions_upto(ls, n, sessions),
        line_session_id(ls[n]) is None,
    ensures
        history_sessions_upto(ls, n + 1, sessions),
{
    assert forall|k: int| 0 <= k < sessions.len() implies #[trigger] summarizes(ls, n + 1, sessions[k]) by {
        lemma_summary_skips_line(ls, n, sessions[k]);
    }
    assert forall|j: int| 0 <= j < n + 1 && (#[trigger] line_session_id(ls[j])) is Some
        implies exists|k: int| 0 <= k < sessions.len() && line_session_id(ls[j]) == Some((#[trigger] sessions[k]).inner_session_id@) by {
        assert(j < n);
    }
}

/// Line `n` of session `id` updates that session's summary.
proof fn lemma_summary_takes_line(ls: Seq<Seq<char>>, n: int, s: CodexHistorySession, t: CodexHistorySession)
    requires
        0 <= n < ls.len(),
        summarizes(ls, n, s),
        line_session_id(ls[n]) == Some(s.inner_session_id@),
        t.inner_session_id@ == s.inner_session_id@,
        t.latest_ts == if s.latest_ts < line_ts(ls[n]) { line_ts(ls[n]) } else { s.latest_ts },
        if line_describes(ls[n]) && line_ts(ls[n]) >= s.description_ts {
            t.description_ts == line_ts(ls[n]) && opt_view(t.description) == line_text(ls[n])
        } else {
            t.description_ts == s.description_ts && opt_view(t.description) == opt_view(s.description)
        },
    ensures
        summarizes(ls, n + 1, t),
{
    let id = s.inner_session_id@;
    let w = choose|j: int| #[trigger] in_session(ls, n, j, id) && line_ts(ls[j]) == s.latest_ts;
    assert(in_session(ls, n + 1, w, id));
    assert(in_session(ls, n + 1, n, id));
    assert forall|j: int| #[trigger] in_session(ls, n + 1, j, id) implies line_ts(ls[j]) <= t.latest_ts by {
        if j < n {
            assert(in_session(ls, n, j, id));
        }
    }
    if line_describes(ls[n]) && line_ts(ls[n]) >= s.description_ts {
        assert forall|q: int| #[trigger] in_session(ls, n + 1, q, id) && line_describes(ls[q])
            implies line_ts(ls[q]) < line_ts(ls[n]) || (line_ts(ls[q]) == line_ts(ls[n]) && q <= n) by {
            if q < n {
                assert(in_session(ls, n, q, id));
                match s.description {
                    Some(d) => {
                        let dj = choose|j: int| #[trigger] is_describing_line(ls, n, id, j)
                            && line_text(ls[j]) == Some(d@) && line_ts(ls[j]) == s.description_ts;
                        assert(in_session(ls, n, q, id) && line_describes(ls[q]));
                    },
                    None => {},
                }
            }
        }
        assert(is_describing_line(ls, n + 1, id, n));
        match t.description {
            Some(d) => {
                assert(line_text(ls[n]) == Some(d@));
            },
            None => {},
        }
    } else {
        match s.description {
            Some(d) => {
                let dj = choose|j: int| #[trigger] is_describing_line(ls, n, id, j)
                    && line_text(ls[j]) == Some(d@) && line_ts(ls[j]) == s.description_ts;
                assert forall|q: int| #[trigger] in_session(ls, n + 1, q, id) && line_describes(ls[q])
                    implies line_ts(ls[q]) < line_ts(ls[dj]) || (line_ts(ls[q]) == line_ts(ls[dj]) && q <= dj) by {
                    if q < n {
                        assert(in_session(ls, n, q, id));
                    }
                }
                assert(is_describing_line(ls, n + 1, id, dj));
                match t.description {
                    Some(e) => {
                        assert(e@ == d@);
                    },
                    None => {},
                }
            },
            None => {
                assert(!line_describes(ls[n]));
                assert forall|j: int| #[trigger] in_session(ls, n + 1, j, id) implies !line_describes(ls[j]) by {
                    if j < n {
                        assert(in_session(ls, n, j, id));
                    }
                }
            },
        }
    }
}

proof fn lemma_update_session(
    ls: Seq<Seq<char>>,
    n: int,
    before: Seq<CodexHistorySession>,
    k: int,
    after: Seq<CodexHistorySession>,
)
    requires
        0 <= n < ls.len(),
        history_sessions_upto(ls, n, before),
        0 <= k < before.len(),
        line_session_id(ls[n]) == Some(before[k].inner_session_id@),
        after.len() == before.len(),
        forall|q: int| 0 <= q < before.len() && q != k ==> after[q] == before[q],
        after[k].inner_session_id@ == before[k].inner_session_id@,
        after[k].latest_ts == if before[k].latest_ts < line_ts(ls[n]) { line_ts(ls[n]) } else { before[k].latest_ts },
        if line_describes(ls[n]) && line_ts(ls[n]) >= before[k].description_ts {
            after[k].description_ts == line_ts(ls[n]) && opt_view(after[k].description) == line_text(ls[n])
        } else {
            after[k].description_ts == before[k].description_ts
                && opt_view(after[k].description) == opt_view(before[k].description)
        },
    ensures
        history_sessions_upto(ls, n + 1, after),
{
    assert(summarizes(ls, n, before[k]));
    lemma_summary_takes_line(ls, n, before[k], after[k]);
    assert forall|q: int| 0 <= q < after.len() implies #[trigger] summarizes(ls, n + 1, after[q]) by {
        if q != k {
            assert(after[q] == before[q]);
            assert(summarizes(ls, n, before[q]));
            assert(before[q].inner_session_id@ != before[k].inner_session_id@);
            lemma_summary_skips_line(ls, n, before[q]);
        }
    }
    assert forall|a: int, b: int| 0 <= a < b < after.len()
        implies (#[trigger] after[a]).inner_session_id@ != (#[trigger] after[b]).inner_session_id@ by {
        assert(before[a].inner_session_id@ != before[b].inner_session_id@);
    }
    assert forall|j: int| 0 <= j < n + 1 && (#[trigger] line_session_id(ls[j])) is Some
        implies exists|q: int| 0 <= q < after.len() && line_session_id(ls[j]) == Some((#[trigger] after[q]).inner_session_id@) by {
        if j == n {
            assert(line_session_id(ls[j]) == Some(after[k].inner_session_id@));
        } else {
            let q = choose|q: int| 0 <= q < before.len() && line_session_id(ls[j]) == Some((#[trigger] before[q]).inner_session_id@);
            if q == k {
                assert(line_session_id(ls[j]) == Some(after[k].inner_session_id@));
            } else {
                assert(after[q] == before[q]);
            }
        }
    }
}

proof fn lemma_add_session(
    ls: Seq<Seq<char>>,
    n: int,
    before: Seq<CodexHistorySession>,
    after: Seq<CodexHistorySession>,
)
    requires
        0 <= n < ls.len(),
        history_sessions_upto(ls, n, before),
        after.len() == before.len() + 1,
        forall|q: int| 0 <= q < before.len() ==> after[q] == before[q],
        line_session_id(ls[n]) == Some(after.last().inner_session_id@),
        forall|q: int| 0 <= q < before.len() ==> (#[trigger] before[q]).inner_session_id@ != after.last().inner_session_id@,
        after.last().latest_ts == line_ts(ls[n]),
        if line_describes(ls[n]) {
            after.last().description_ts == line_ts(ls[n]) && opt_view(after.last().description) == line_text(ls[n])
        } else {
            after.last().description_ts == i64::MIN && after.last().description is None
        },
    ensures
        history_sessions_upto(ls, n + 1, after),
{
    let x = after.last();
    let id = x.inner_session_id@;
    let m = before.len() as int;
    assert(after[m] == x);
    assert forall|j: int| #[trigger] in_session(ls, n, j, id) implies false by {
        let q = choose|q: int| 0 <= q < before.len() && line_session_id(ls[j]) == Some((#[trigger] before[q]).inner_session_id@);
        assert(before[q].inner_session_id@ != id);
    }
    assert(in_session(ls, n + 1, n, id));
    assert forall|j: int| #[trigger] in_session(ls, n + 1, j, id) implies j == n by {
        if j < n {
            assert(in_session(ls, n, j, id));
        }
    }
    if line_describes(ls[n]) {
        assert(is_describing_line(ls, n + 1, id, n));
        match x.description {
            Some(d) => {
                assert(line_text(ls[n]) == Some(d@));
            },
            None => {},
        }
    }
    assert(summarizes(ls, n + 1, x));
    assert forall|q: int| 0 <= q < after.len() implies #[trigger] summarizes(ls, n + 1, after[q]) by {
        if q < m {
            assert(after[q] == before[q]);
            assert(summarizes(ls, n, before[q]));
            lemma_summary_skips_line(ls, n, before[q]);
        }
    }
    assert forall|a: int, b: int| 0 <= a < b < after.len()
        implies (#[trigger] after[a]).inner_session_id@ != (#[trigger] after[b]).inner_session_id@ by {
        assert(after[a] == before[a]);
        if b < m {
            assert(after[b] == before[b]);
        }
    }
    assert forall|j: int| 0 <= j < n + 1 && (#[trigger] line_session_id(ls[j])) is Some
        implies exists|q: int| 0 <= q < after.len() && line_session_id(ls[j]) == Some((#[trigger] after[q]).inner_session_id@) by {
        if j == n {
            assert(line_session_id(ls[j]) == Some(after[m].inner_session_id@));
        } else {
            let q = choose|q: int| 0 <= q < before.len() && line_session_id(ls[j]) == Some((#[trigger] before[q]).inner_session_id@);
            assert(after[q] == before[q]);
        }
    }
}

pub open spec fn lines_view(lines: Seq<String>) -> Seq<Seq<char>> {
    lines.map_values(|l: String| l@)
}

fn line_fields(line: &str) -> (r: (i64, Option<String>, bool))
    ensures
        r.0 == line_ts(line@),
        opt_view(r.1) == line_text(line@),
        r.2 == line_describes(line@),
{
    let ts = match json_integer_field(line, "ts") {
        Some(t) => t,
        None => 0,
    };
    let text = json_text_field(line, "text");
    let describes = match &text {
        Some(t) => is_codex_session_description_candidate(t.as_str()),
        None => false,
    };
    (ts, text, describes)
}

fn find_session(sessions: &Vec<CodexHistorySession>, id: &String) -> (r: Option<usize>)
    ensures
        match r {
            Some(k) => k < sessions.len() && sessions@[k as int].inner_session_id@ == id@,
            None => forall|k: int| 0 <= k < sessions.len() ==> (#[trigger] sessions@[k]).inner_session_id@ != id@,
        },
{
    let mut k: usize = 0;
    while k < sessions.len()
        invariant
            k <= sessions.len(),
            forall|q: int| 0 <= q < k ==> (#[trigger] sessions@[q]).inner_session_id@ != id@,
        decreases sessions.len() - k,
    {
        if sessions[k].inner_session_id.eq(id) {
            return Some(k);
        }
        k = k + 1;
    }
    None
}

/// The sessions recorded in Codex's prompt history, one per session id,
/// each with its latest timestamp and its description. Lines that are no
/// JSON object with a string `session_id` are skipped; a line without an
/// integer `ts` counts as time zero.
pub fn codex_history_sessions(lines: &[String]) -> (sessions: Vec<CodexHistorySession>)
    ensures
        history_sessions_upto(lines_view(lines@), lines@.len() as int, sessions@),
{
    let ghost ls = lines_view(lines@);
    let mut sessions: Vec<CodexHistorySession> = Vec::new();
    let mut i: usize = 0;
    while i < lines.len()
        invariant
            i <= lines.len(),
            ls == lines_view(lines@),
            ls.len() == lines@.len(),
            history_sessions_upto(ls, i as int, sessions@),
        decreases lines.len() - i,
    {
        let line = lines[i].as_str();
        assert(line@ == ls[i as int]);
        let ghost before = sessions@;
        let ghost n = i as int;
        match json_text_field(line, "session_id") {
            None => {
                proof {
                    lemma_skip_line(ls, n, before);
                }
            },
            Some(sid) => {
                let (ts, text, describes) = line_fields(line);
                match find_session(&sessions, &sid) {
                    Some(k) => {
                        let old_latest = sessions[k].latest_ts;
                        let old_description_ts = sessions[k].description_ts;
                        let latest = if old_latest < ts { ts } else { old_latest };
                        let (description_ts, description) = if describes && ts >= old_description_ts {
                            (ts, text)
                        } else {
                            (old_description_ts, opt_string_clone(&sessions[k].description))
                        };
                        let updated = CodexHistorySession {
                            inner_session_id: sid,
                            latest_ts: latest,
                            description_ts,
                            description,
                        };
                        sessions.set(k, updated);
                        proof {
                            lemma_update_session(ls, n, before, k as int, sessions@);
                        }
                    },
                    None => {
                        let fresh = CodexHistorySession {
                            inner_session_id: sid,
                            latest_ts: ts,
                            description_ts: if describes { ts } else { i64::MIN },
                            description: if describes { text } else { None },
                        };
                        sessions.push(fresh);
                        proof {
                            lemma_add_session(ls, n, before, sessions@);
                        }
                    },
                }
            },
        }
        i = i + 1;
    }
    sessions
}

// ---------------------------------------------------------------------------
// Resumable sessions, latest first
// ---------------------------------------------------------------------------

/// Sessions in order of their latest timestamp, latest first.
pub open spec fn latest_first(s: Seq<CodexHistorySession>) -> bool {
    forall|a: int, b: int| 0 <= a < b < s.len() ==> (#[trigger] s[a]).latest_ts >= (#[trigger] s[b]).latest_ts
}

fn copy_session(s: &CodexHistorySession) -> (r: CodexHistorySession)
    ensures
        r == *s,
{
    CodexHistorySession {
        inner_session_id: s.inner_session_id.clone(),
        latest_ts: s.latest_ts,
        description_ts: s.description_ts,
        description: match &s.description {
            Some(d) => Some(d.clone()),
            None => None,
        },
    }
}

/// The same sessions, latest first.
pub fn sort_sessions_latest_first(sessions: &[CodexHistorySession]) -> (r: Vec<CodexHistorySession>)
    ensures
        r@.to_multiset() == sessions@.to_multiset(),
        latest_first(r@),
{
    let mut out: Vec<CodexHistorySession> = Vec::new();
    let mut i: usize = 0;
    assert(sessions@.take(0) =~= out@);
    while i < sessions.len()
        invariant
            i <= sessions.len(),
            out@.to_multiset() == sessions@.take(i as int).to_multiset(),
            latest_first(out@),
        decreases sessions.len() - i,
    {
        let x = copy_session(&sessions[i]);
        let mut p: usize = 0;
        while p < out.len() && out[p].latest_ts >= x.latest_ts
            invariant
                p <= out.len(),
                forall|q: int| 0 <= q < p ==> (#[trigger] out@[q]).latest_ts >= x.latest_ts,
            decreases out.len() - p,
        {
            p = p + 1;
        }
        let ghost before = out@;
        out.insert(p, x);
        proof {
            vstd::seq_lib::to_multiset_insert(before, p as int, x);
            assert(sessions@.take(i + 1) =~= sessions@.take(i as int).push(sessions@[i as int]));
            vstd::seq_lib::to_multiset_build(sessions@.take(i as int), sessions@[i as int]);
            let after = out@;
            assert forall|a: int, b: int| 0 <= a < b < after.len()
                implies (#[trigger] after[a]).latest_ts >= (#[trigger] after[b]).latest_ts by {
                if b < p {
                    assert(after[a] == before[a] && after[b] == before[b]);
                } else if b == p {
                    assert(after[a] == before[a]);
                } else if a < p {
                    assert(after[a] == before[a] && after[b] == before[b - 1]);
                    assert(before[a].latest_ts >= x.latest_ts);
                    if p < before.len() {
                        assert(before[p as int].latest_ts < x.latest_ts);
                        if b - 1 > p {
                            assert(before[p as int].latest_ts >= before[b - 1].latest_ts);
                        }
                    }
                } else if a == p {
                    assert(after[b] == before[b - 1]);
                    assert(before[p as int].latest_ts < x.latest_ts);
                    if b - 1 > p {
                        assert(before[p as int].latest_ts >= before[b - 1].latest_ts);
                    }
                } else {
                    assert(after[a] == before[a - 1] && after[b] == before[b - 1]);
                }
            }
        }
        i = i + 1;
    }
    proof {
        assert(sessions@.take(sessions@.len() as int) =~= sessions@);
    }
    out
}

/// A resumable Codex session as the picker lists it.
#[derive(Clone, Debug, PartialEq, Eq)]
pub struct CodexSessionInfo {
    pub inner_session_id: String,
    pub timestamp: String,
    pub description: String,
}

/// The text that describes a session: its description, or a placeholder
/// where none of its prompts could describe it.
pub open spec fn shown_description(description: Option<String>) -> Seq<char> {
    match description {
        Some(d) => d@,
        None => "Untitled Codex session"@,
    }
}

/// The picker's entry for a session, with the text of its latest
/// timestamp.
pub fn codex_session_info(session: &CodexHistorySession, timestamp: String) -> (r: CodexSessionInfo)
    ensures
        r.inner_session_id@ == session.inner_session_id@,
        r.timestamp == timestamp,
        r.description@ == shown_description(session.description),
{
    CodexSessionInfo {
        inner_session_id: session.inner_session_id.clone(),
        timestamp,
        description: match &session.description {
            Some(d) => d.clone(),
            None => "Untitled Codex session".to_owned(),
        },
    }
}

/// The entry `info` stamps `ts` with the local time at `ts`, for an offset
/// that `local_offset_at` gave for it.
pub open spec fn stamped<F: Fn(i64) -> i32>(info: CodexSessionInfo, ts: i64, local_offset_at: F) -> bool {
    exists|o: i32| #[trigger] call_ensures(local_offset_at, (ts,), o) && info.timestamp@ == history_timestamp_text(ts, o as int)
}

/// `infos` list `order`, one entry per session, in the same order.
pub open spec fn lists_sessions<F: Fn(i64) -> i32>(
    order: Seq<CodexHistorySession>,
    infos: Seq<CodexSessionInfo>,
    local_offset_at: F,
) -> bool {
    &&& infos.len() == order.len()
    &&& forall|k: int| 0 <= k < infos.len() ==> {
        &&& (#[trigger] infos[k]).inner_session_id@ == order[k].inner_session_id@
        &&& infos[k].description@ == shown_description(order[k].description)
        &&& stamped(infos[k], order[k].latest_ts, local_offset_at)
    }
}

/// The resumable sessions of Codex's prompt history, latest first, each
/// with its description and the local time of its latest prompt;
/// `local_offset_at` gives the offset of local time from UTC at an instant
/// (the machine's time zone, read by the caller).
pub fn list_resumable_codex_sessions_in_history<F: Fn(i64) -> i32>(lines: &[String], local_offset_at: F) -> (r: Vec<
    CodexSessionInfo,
>)
    requires
        forall|t: i64| call_requires(local_offset_at, (t,)),
        forall|t: i64, o: i32| call_ensures(local_offset_at, (t,), o) ==> valid_offset(o),
    ensures
        exists|order: Seq<CodexHistorySession>| {
            &&& history_sessions_upto(lines_view(lines@), lines@.len() as int, order)
            &&& latest_first(order)
            &&& #[trigger] lists_sessions(order, r@, local_offset_at)
        },
{
    let sessions = codex_history_sessions(lines);
    let sorted = sort_sessions_latest_first(sessions.as_slice());
    proof {
        lemma_reorder_sessions(lines_view(lines@), lines@.len() as int, sessions@, sorted@);
    }
    let mut out: Vec<CodexSessionInfo> = Vec::new();
    let mut k: usize = 0;
    while k < sorted.len()
        invariant
            k <= sorted.len(),
            out.len() == k,
            forall|t: i64| call_requires(local_offset_at, (t,)),
            forall|t: i64, o: i32| call_ensures(local_offset_at, (t,), o) ==> valid_offset(o),
            forall|q: int| 0 <= q < k ==> {
                &&& (#[trigger] out@[q]).inner_session_id@ == sorted@[q].inner_session_id@
                &&& out@[q].description@ == shown_description(sorted@[q].description)
                &&& stamped(out@[q], sorted@[q].latest_ts, local_offset_at)
            },
        decreases sorted.len() - k,
    {
        let ts = sorted[k].latest_ts;
        let offset = checked_offset(&local_offset_at, ts);
        let stamp = format_codex_history_timestamp(ts, offset);
        let info = codex_session_info(&sorted[k], stamp);
        assert(stamped(info, ts, local_offset_at));
        out.push(info);
        k = k + 1;
    }
    assert(lists_sessions(sorted@, out@, local_offset_at));
    out
}

/// Two entries of a reordering of sessions with distinct ids have
/// distinct ids.
proof fn lemma_distinct_ids_unique(
    sessions: Seq<CodexHistorySession>,
    reordered: Seq<CodexHistorySession>,
    a: int,
    b: int,
)
    requires
        forall|x: int, y: int| 0 <= x < y < sessions.len()
            ==> (#[trigger] sessions[x]).inner_session_id@ != (#[trigger] sessions[y]).inner_session_id@,
        reordered.to_multiset() == sessions.to_multiset(),
        0 <= a < b < reordered.len(),
    ensures
        reordered[a].inner_session_id@ != reordered[b].inner_session_id@,
{
    broadcast use vstd::seq_lib::group_to_multiset_ensures;
    assert(sessions.no_duplicates()) by {
        assert forall|x: int, y: int| 0 <= x < sessions.len() && 0 <= y < sessions.len() && x != y
            implies sessions[x] != sessions[y] by {
            if x < y {
                assert(sessions[x].inner_session_id@ != sessions[y].inner_session_id@);
            } else {
                assert(sessions[y].inner_session_id@ != sessions[x].inner_session_id@);
            }
        }
    }
    sessions.lemma_multiset_has_no_duplicates();
    reordered.lemma_multiset_has_no_duplicates_conv();
    assert(reordered[a] != reordered[b]);
    assert(reordered.to_multiset().count(reordered[a]) > 0);
    assert(reordered.to_multiset().count(reordered[b]) > 0);
    assert(sessions.contains(reordered[a]));
    assert(sessions.contains(reordered[b]));
    let i = choose|i: int| 0 <= i < sessions.len() && sessions[i] == reordered[a];
    let j = choose|j: int| 0 <= j < sessions.len() && sessions[j] == reordered[b];
    if i < j {
        assert(sessions[i].inner_session_id@ != sessions[j].inner_session_id@);
    } else if j < i {
        assert(sessions[j].inner_session_id@ != sessions[i].inner_session_id@);
    }
}

/// Reordering the sessions of a history keeps them its sessions.
proof fn lemma_reorder_sessions(
    ls: Seq<Seq<char>>,
    n: int,
    sessions: Seq<CodexHistorySession>,
    reordered: Seq<CodexHistorySession>,
)
    requires
        history_sessions_upto(ls, n, sessions),
        reordered.to_multiset() == sessions.to_multiset(),
    ensures
        history_sessions_upto(ls, n, reordered),
{
    broadcast use vstd::seq_lib::group_to_multiset_ensures;
    assert forall|k: int| 0 <= k < reordered.len() implies #[trigger] summarizes(ls, n, reordered[k]) by {
        assert(reordered.to_multiset().count(reordered[k]) > 0);
        assert(sessions.contains(reordered[k]));
    }
    assert forall|j: int| 0 <= j < n && (#[trigger] line_session_id(ls[j])) is Some
        implies exists|k: int| 0 <= k < reordered.len() && line_session_id(ls[j]) == Some((#[trigger] reordered[k]).inner_session_id@) by {
        let q = choose|q: int| 0 <= q < sessions.len() && line_session_id(ls[j]) == Some((#[trigger] sessions[q]).inner_session_id@);
        assert(sessions.to_multiset().count(sessions[q]) > 0);
        assert(reordered.contains(sessions[q]));
    }
    assert forall|a: int, b: int| 0 <= a < b < reordered.len()
        implies (#[trigger] reordered[a]).inner_session_id@ != (#[trigger] reordered[b]).inner_session_id@ by {
        lemma_distinct_ids_unique(sessions, reordered, a, b);
    }
}

// ---------------------------------------------------------------------------
// The session a pane started
// ---------------------------------------------------------------------------

/// A history line mentions the pane, its prompt holds the pane's marker,
/// and it names its session.
pub open spec fn marks_pane(line: Seq<char>, pane_id: Seq<char>, marker: Seq<char>) -> bool {
    &&& contains(line, pane_id)
    &&& match line_text(line) {
        Some(text) => contains(text, marker),
        None => false,
    }
    &&& line_session_id(line) is Some
}

/// Line `j` is, of the first `n` lines that mark the pane, the one with the
/// latest timestamp, and the last of those that share it.
pub open spec fn is_latest_marking_line(ls: Seq<Seq<char>>, n: int, pane_id: Seq<char>, marker: Seq<char>, j: int) -> bool {
    &&& 0 <= j < n
    &&& marks_pane(ls[j], pane_id, marker)
    &&& forall|k: int| 0 <= k < n && #[trigger] marks_pane(ls[k], pane_id, marker)
        ==> line_ts(ls[k]) < line_ts(ls[j]) || (line_ts(ls[k]) == line_ts(ls[j]) && k <= j)
}

/// The Codex session that the pane `pane_id` started: the session of the
/// latest history line that mentions the pane and whose prompt holds
/// `marker`; `None` where there is none.
pub fn find_codex_inner_session_id_in_history(lines: &[String], pane_id: &str, marker: &str) -> (r: Option<String>)
    ensures
        match r {
            Some(id) => exists|j: int| #[trigger] is_latest_marking_line(lines_view(lines@), lines@.len() as int, pane_id@, marker@, j)
                && line_session_id(lines_view(lines@)[j]) == Some(id@),
            None => forall|j: int| 0 <= j < lines@.len() ==> !#[trigger] marks_pane(lines_view(lines@)[j], pane_id@, marker@),
        },
{
    let ghost ls = lines_view(lines@);
    let pane_chars = str_chars(pane_id);
    let marker_chars = str_chars(marker);
    let mut latest: Option<(i64, String)> = None;
    let mut i: usize = 0;
    while i < lines.len()
        invariant
            i <= lines.len(),
            ls == lines_view(lines@),
            ls.len() == lines@.len(),
            pane_chars@ == pane_id@,
            marker_chars@ == marker@,
            match latest {
                Some((lt, lid)) => exists|j: int| #[trigger] is_latest_marking_line(ls, i as int, pane_id@, marker@, j)
                    && line_session_id(ls[j]) == Some(lid@) && line_ts(ls[j]) == lt,
                None => forall|j: int| 0 <= j < i ==> !#[trigger] marks_pane(ls[j], pane_id@, marker@),
            },
        decreases lines.len() - i,
    {
        let line = lines[i].as_str();
        let ghost n = i as int;
        assert(line@ == ls[n]);
        let line_chars = str_chars(line);
        let mut found: Option<(i64, String)> = None;
        if contains_exec(line_chars.as_slice(), pane_chars.as_slice()) {
            let text = json_text_field(line, "text");
            let has_marker = match &text {
                Some(t) => {
                    let t_chars = str_chars(t.as_str());
                    contains_exec(t_chars.as_slice(), marker_chars.as_slice())
                },
                None => false,
            };
            if has_marker {
                match json_text_field(line, "session_id") {
                    Some(sid) => {
                        let ts = match json_integer_field(line, "ts") {
                            Some(t) => t,
                            None => 0,
                        };
                        found = Some((ts, sid));
                    },
                    None => {},
                }
            }
        }
        let ghost prev = latest;
        let ghost found_g = found;
        assert(found is Some <==> marks_pane(ls[n], pane_id@, marker@));
        latest = match (latest, found) {
            (Some((lt, lid)), Some((ts, sid))) => if lt > ts {
                Some((lt, lid))
            } else {
                Some((ts, sid))
            },
            (Some(kept), None) => Some(kept),
            (None, f) => f,
        };
        proof {
            match found_g {
                Some((ts, sid)) => {
                    assert(line_ts(ls[n]) == ts && line_session_id(ls[n]) == Some(sid@));
                    match prev {
                        Some((lt, lid)) => {
                            let j = choose|j: int| #[trigger] is_latest_marking_line(ls, n, pane_id@, marker@, j)
                                && line_session_id(ls[j]) == Some(lid@) && line_ts(ls[j]) == lt;
                            if lt > ts {
                                assert forall|k: int| 0 <= k < n + 1 && #[trigger] marks_pane(ls[k], pane_id@, marker@)
                                    implies line_ts(ls[k]) < line_ts(ls[j]) || (line_ts(ls[k]) == line_ts(ls[j]) && k <= j) by {
                                }
                                assert(is_latest_marking_line(ls, n + 1, pane_id@, marker@, j));
                            } else {
                                assert forall|k: int| 0 <= k < n + 1 && #[trigger] marks_pane(ls[k], pane_id@, marker@)
                                    implies line_ts(ls[k]) < line_ts(ls[n]) || (line_ts(ls[k]) == line_ts(ls[n]) && k <= n) by {
                                }
                                assert(is_latest_marking_line(ls, n + 1, pane_id@, marker@, n));
                            }
                        },
                        None => {
                            assert forall|k: int| 0 <= k < n + 1 && #[trigger] marks_pane(ls[k], pane_id@, marker@)
                                implies line_ts(ls[k]) < line_ts(ls[n]) || (line_ts(ls[k]) == line_ts(ls[n]) && k <= n) by {
                            }
                            assert(is_latest_marking_line(ls, n + 1, pane_id@, marker@, n));
                        },
                    }
                },
                None => {
                    match prev {
                        Some((lt, lid)) => {
                            let j = choose|j: int| #[trigger] is_latest_marking_line(ls, n, pane_id@, marker@, j)
                                && line_session_id(ls[j]) == Some(lid@) && line_ts(ls[j]) == lt;
                            assert(is_latest_marking_line(ls, n + 1, pane_id@, marker@, j));
                        },
                        None => {},
                    }
                },
            }
        }
        i = i + 1;
    }
    match latest {
        Some((_, id)) => Some(id),
        None => None,
    }
}

// ---------------------------------------------------------------------------
// Sessions of a workspace
// ---------------------------------------------------------------------------

/// A component that names something: neither empty nor `.`.
pub open spec fn is_named_component(c: Seq<char>) -> bool {
    c.len() > 0 && c != seq!['.']
}

/// The parts that name something, in order.
pub open spec fn named_components(parts: Seq<Seq<char>>) -> Seq<Seq<char>> {
    parts.filter(|c: Seq<char>| is_named_component(c))
}

/// The components of a Unix path (`Path::components`): a root `/` where the
/// path starts with one, or a `.` where a relative path starts with one,
/// then the names between separators; empty names and other `.` are left
/// out.
pub open spec fn path_components(p: Seq<char>) -> Seq<Seq<char>> {
    let parts = split_char(p, '/');
    let rest = named_components(parts.drop_first());
    if p.len() > 0 && p[0] == '/' {
        seq![seq!['/']] + rest
    } else if parts[0] == seq!['.'] {
        seq![seq!['.']] + rest
    } else {
        named_components(parts)
    }
}

/// `path` is the workspace directory or lies under it, component by
/// component (`Path::starts_with`).
pub open spec fn path_in_workspace(path: Seq<char>, workspace: Seq<char>) -> bool {
    let p = path_components(path);
    let w = path_components(workspace);
    w.len() <= p.len() && p.subrange(0, w.len() as int) == w
}

pub open spec fn chars_views(v: Seq<Vec<char>>) -> Seq<Seq<char>> {
    v.map_values(|c: Vec<char>| c@)
}

fn path_components_exec(p: &[char]) -> (out: Vec<Vec<char>>)
    ensures
        chars_views(out@) == path_components(p@),
{
    let parts = split_exec(p, '/', '/', false);
    let ghost ps = chars_views(parts@);
    proof {
        lemma_split_nonempty(p@, '/');
        assert(ps == split_char(p@, '/'));
    }
    let mut out: Vec<Vec<char>> = Vec::new();
    let mut start: usize = 1;
    if p.len() > 0 && p[0] == '/' {
        let mut root: Vec<char> = Vec::new();
        root.push('/');
        out.push(root);
    } else if parts[0].len() == 1 && parts[0][0] == '.' {
        proof {
            assert(ps[0] =~= seq!['.']);
        }
        let mut cur: Vec<char> = Vec::new();
        cur.push('.');
        out.push(cur);
    } else {
        proof {
            if ps[0].len() == 1 {
                assert(ps[0] != seq!['.']) by {
                    assert(ps[0][0] != '.');
                }
            }
        }
        start = 0;
    }
    let ghost head = chars_views(out@);
    proof {
        assert(ps.subrange(start as int, start as int) =~= Seq::<Seq<char>>::empty());
        reveal(Seq::filter);
        assert(chars_views(out@) =~= head + named_components(ps.subrange(start as int, start as int)));
    }
    let mut i: usize = start;
    while i < parts.len()
        invariant
            start <= i <= parts.len(),
            ps == chars_views(parts@),
            ps.len() == parts@.len(),
            chars_views(out@) == head + named_components(ps.subrange(start as int, i as int)),
        decreases parts.len() - i,
    {
        let c = &parts[i];
        assert(c@ == ps[i as int]);
        let named = c.len() > 0 && !(c.len() == 1 && c[0] == '.');
        proof {
            if c.len() == 1 && c@[0] != '.' {
                assert(c@ != seq!['.']) by {
                    assert(c@[0] != seq!['.'][0]);
                }
            }
            if c.len() == 1 && c@[0] == '.' {
                assert(c@ =~= seq!['.']);
            }
            assert(named == is_named_component(ps[i as int]));
        }
        let ghost before = chars_views(out@);
        if named {
            let copy = slice_range(c.as_slice(), 0, c.len());
            assert(copy@ =~= ps[i as int]);
            out.push(copy);
            assert(chars_views(out@) =~= before.push(ps[i as int]));
        } else {
            assert(chars_views(out@) =~= before);
        }
        proof {
            let sub = ps.subrange(start as int, i + 1);
            assert(sub.drop_last() =~= ps.subrange(start as int, i as int));
            assert(sub.last() == ps[i as int]);
            reveal(Seq::filter);
            assert(named_components(sub) == if is_named_component(ps[i as int]) {
                named_components(sub.drop_last()).push(ps[i as int])
            } else {
                named_components(sub.drop_last())
            });
            assert(chars_views(out@) =~= head + named_components(sub));
        }
        i = i + 1;
    }
    proof {
        if start == 1 {
            assert(ps.subrange(1, ps.len() as int) =~= ps.drop_first());
        } else {
            assert(ps.subrange(0, ps.len() as int) =~= ps);
            assert(head =~= Seq::<Seq<char>>::empty());
            assert(head + named_components(ps) =~= named_components(ps));
        }
    }
    out
}

/// Whether `path` is the workspace directory or lies under it.
pub fn path_is_in_workspace(path: &str, workspace_path: &str) -> (r: bool)
    ensures
        r == path_in_workspace(path@, workspace_path@),
{
    let p_chars = str_chars(path);
    let w_chars = str_chars(workspace_path);
    let p = path_components_exec(p_chars.as_slice());
    let w = path_components_exec(w_chars.as_slice());
    let ghost pv = chars_views(p@);
    let ghost wv = chars_views(w@);
    if w.len() > p.len() {
        return false;
    }
    let mut k: usize = 0;
    while k < w.len()
        invariant
            w.len() <= p.len(),
            k <= w.len(),
            pv == chars_views(p@),
            wv == chars_views(w@),
            pv == path_components(path@),
            wv == path_components(workspace_path@),
            forall|q: int| 0 <= q < k ==> pv[q] == wv[q],
        decreases w.len() - k,
    {
        if !chars_eq(p[k].as_slice(), w[k].as_slice()) {
            proof {
                assert(pv.subrange(0, wv.len() as int)[k as int] != wv[k as int]);
            }
            return false;
        }
        k = k + 1;
    }
    proof {
        assert(pv.subrange(0, wv.len() as int) =~= wv);
    }
    true
}

/// What Codex's thread table records of a thread: its working directory and
/// when it was last updated, in seconds since the Unix epoch.
#[derive(Clone, Debug, PartialEq, Eq)]
pub struct CodexThreadMetadata {
    pub cwd: String,
    pub updated_at: i64,
}

/// The metadata of thread `id` among the rows read, the last row with that
/// id counting.
pub open spec fn thread_metadata_for(rows: Seq<(String, CodexThreadMetadata)>, id: Seq<char>) -> Option<CodexThreadMetadata>
    decreases rows.len(),
{
    if rows.len() == 0 {
        None
    } else if rows.last().0@ == id {
        Some(rows.last().1)
    } else {
        thread_metadata_for(rows.drop_last(), id)
    }
}

fn find_thread_metadata(rows: &[(String, CodexThreadMetadata)], id: &String) -> (r: Option<usize>)
    ensures
        match thread_metadata_for(rows@, id@) {
            Some(m) => r is Some && r->0 < rows@.len() && rows@[r->0 as int].1 == m,
            None => r is None,
        },
{
    let mut found: Option<usize> = None;
    let mut i: usize = 0;
    while i < rows.len()
        invariant
            i <= rows.len(),
            match thread_metadata_for(rows@.take(i as int), id@) {
                Some(m) => found is Some && found->0 < i && rows@[found->0 as int].1 == m,
                None => found is None,
            },
        decreases rows.len() - i,
    {
        proof {
            assert(rows@.take(i + 1).drop_last() =~= rows@.take(i as int));
            assert(rows@.take(i + 1).last() == rows@[i as int]);
        }
        if rows[i].0.eq(id) {
            found = Some(i);
        }
        i = i + 1;
    }
    proof {
        assert(rows@.take(rows@.len() as int) =~= rows@);
    }
    found
}

fn contains_string(items: &[String], s: &String) -> (r: bool)
    ensures
        r == items@.map_values(|x: String| x@).contains(s@),
{
    let ghost views = items@.map_values(|x: String| x@);
    let mut i: usize = 0;
    while i < items.len()
        invariant
            i <= items.len(),
            views == items@.map_values(|x: String| x@),
            forall|q: int| 0 <= q < i ==> views[q] != s@,
        decreases items.len() - i,
    {
        if items[i].eq(s) {
            assert(views[i as int] == s@);
            return true;
        }
        i = i + 1;
    }
    false
}

/// A listed session belongs to the workspace and is free to resume: Codex
/// knows its thread, the thread ran in the workspace or under it, and no
/// pane is connected to it.
pub open spec fn kept_for_workspace(
    rows: Seq<(String, CodexThreadMetadata)>,
    workspace: Seq<char>,
    connected: Seq<Seq<char>>,
    session: CodexSessionInfo,
) -> bool {
    match thread_metadata_for(rows, session.inner_session_id@) {
        Some(m) => path_in_workspace(m.cwd@, workspace) && !connected.contains(session.inner_session_id@),
        None => false,
    }
}

/// The sessions of `sessions` kept for the workspace, in order.
pub open spec fn kept_sessions(
    rows: Seq<(String, CodexThreadMetadata)>,
    workspace: Seq<char>,
    connected: Seq<Seq<char>>,
    sessions: Seq<CodexSessionInfo>,
) -> Seq<CodexSessionInfo> {
    sessions.filter(|s: CodexSessionInfo| kept_for_workspace(rows, workspace, connected, s))
}

pub open spec fn session_keys(sessions: Seq<CodexSessionInfo>) -> Seq<(Seq<char>, Seq<char>)> {
    sessions.map_values(|s: CodexSessionInfo| session_key(s))
}

pub open spec fn session_key(s: CodexSessionInfo) -> (Seq<char>, Seq<char>) {
    (s.inner_session_id@, s.description@)
}

/// The sessions that a pane of the workspace at `workspace_path` can
/// resume, in the order given, each stamped with the local time its thread
/// was last updated; `local_offset_at` gives the offset of local time from
/// UTC at an instant.
pub fn filter_codex_sessions_for_workspace<F: Fn(i64) -> i32>(
    sessions: Vec<CodexSessionInfo>,
    thread_metadata: &[(String, CodexThreadMetadata)],
    workspace_path: &str,
    connected_inner_session_ids: &[String],
    local_offset_at: F,
) -> (r: Vec<CodexSessionInfo>)
    requires
        forall|t: i64| call_requires(local_offset_at, (t,)),
        forall|t: i64, o: i32| call_ensures(local_offset_at, (t,), o) ==> valid_offset(o),
    ensures
        session_keys(r@) == session_keys(kept_sessions(
            thread_metadata@,
            workspace_path@,
            connected_inner_session_ids@.map_values(|x: String| x@),
            sessions@,
        )),
        forall|k: int| 0 <= k < r@.len() ==> {
            let m = thread_metadata_for(thread_metadata@, (#[trigger] r@[k]).inner_session_id@)->0;
            stamped(r@[k], m.updated_at, local_offset_at)
        },
{
    let ghost rows = thread_metadata@;
    let ghost connected = connected_inner_session_ids@.map_values(|x: String| x@);
    let mut kept: Vec<CodexSessionInfo> = Vec::new();
    let mut i: usize = 0;
    proof {
        reveal(Seq::filter);
        assert(sessions@.take(0) =~= Seq::<CodexSessionInfo>::empty());
        assert(session_keys(kept@) =~= session_keys(kept_sessions(rows, workspace_path@, connected, sessions@.take(0))));
    }
    while i < sessions.len()
        invariant
            i <= sessions.len(),
            rows == thread_metadata@,
            connected == connected_inner_session_ids@.map_values(|x: String| x@),
            session_keys(kept@) == session_keys(kept_sessions(rows, workspace_path@, connected, sessions@.take(i as int))),
            forall|t: i64| call_requires(local_offset_at, (t,)),
            forall|t: i64, o: i32| call_ensures(local_offset_at, (t,), o) ==> valid_offset(o),
            forall|k: int| 0 <= k < kept@.len() ==> {
                let m = thread_metadata_for(rows, (#[trigger] kept@[k]).inner_session_id@)->0;
                stamped(kept@[k], m.updated_at, local_offset_at)
            },
        decreases sessions.len() - i,
    {
        let session = &sessions[i];
        let ghost before = kept@;
        let keep_it = match find_thread_metadata(thread_metadata, &session.inner_session_id) {
            Some(row) => {
                let metadata = &thread_metadata[row].1;
                if path_is_in_workspace(metadata.cwd.as_str(), workspace_path)
                    && !contains_string(connected_inner_session_ids, &session.inner_session_id) {
                    let offset = checked_offset(&local_offset_at, metadata.updated_at);
                    let stamp = format_codex_history_timestamp(metadata.updated_at, offset);
                    kept.push(CodexSessionInfo {
                        inner_session_id: session.inner_session_id.clone(),
                        timestamp: stamp,
                        description: session.description.clone(),
                    });
                    true
                } else {
                    false
                }
            },
            None => false,
        };
        proof {
            assert(keep_it == kept_for_workspace(rows, workspace_path@, connected, sessions@[i as int]));
            let sub = sessions@.take(i + 1);
            assert(sub.drop_last() =~= sessions@.take(i as int));
            assert(sub.last() == sessions@[i as int]);
            reveal(Seq::filter);
            let prev_kept = kept_sessions(rows, workspace_path@, connected, sessions@.take(i as int));
            if keep_it {
                assert(kept_sessions(rows, workspace_path@, connected, sub) == prev_kept.push(sessions@[i as int]));
                assert(kept@ =~= before.push(kept@.last()));
                assert(session_key(kept@.last()) == session_key(sessions@[i as int]));
                assert(session_keys(kept@) =~= session_keys(before).push(session_key(kept@.last())));
                assert(session_keys(prev_kept.push(sessions@[i as int])) =~= session_keys(prev_kept).push(session_key(sessions@[i as int])));
            } else {
                assert(kept_sessions(rows, workspace_path@, connected, sub) == prev_kept);
                assert(kept@ =~= before);
            }
        }
        i = i + 1;
    }
    proof {
        assert(sessions@.take(sessions@.len() as int) =~= sessions@);
    }
    kept
}

} // verus!
