//! Which file changes in a workspace are worth refreshing its status for:
//! changes under generated or tool directories are ignored.

use vstd::prelude::*;
use crate::text::{
    contains, ends_with, trim, str_chars, chars_trim, string_from_chars, contains_exec,
    replace_char, replace_char_exec, has_char, opt_view,
};
use crate::split::{split_chars2, split_exec};

verus! {

/// Path fragments that are always ignored.
pub open spec fn default_fragments() -> Seq<Seq<char>> {
    seq![
        "/node_modules/"@,
        "/.git/"@,
        "/dist/"@,
        "/artifacts/"@,
        "/.cache/"@,
        "/target/"@,
        "/build/"@,
        "/out/"@,
        "/.idea/"@,
    ]
}

/// A configured fragment: trimmed, with backslashes as slashes; a bare
/// directory name matches that directory anywhere; nothing when empty.
pub open spec fn normalized_fragment(fragment: Seq<char>) -> Option<Seq<char>> {
    let n = replace_char(trim(fragment), '\\', '/');
    if n.len() == 0 {
        None
    } else if n.contains('/') {
        Some(n)
    } else {
        Some(seq!['/'] + n + seq!['/'])
    }
}

pub fn normalize_workspace_watch_fragment(fragment: &str) -> (r: Option<String>)
    ensures
        opt_view(r) == normalized_fragment(fragment@),
{
    let trimmed = chars_trim(str_chars(fragment).as_slice());
    let n = replace_char_exec(trimmed.as_slice(), '\\', '/');
    if n.len() == 0 {
        None
    } else if has_char(n.as_slice(), '/') {
        Some(string_from_chars(n.as_slice()))
    } else {
        let mut out: Vec<char> = Vec::new();
        out.push('/');
        crate::text::push_all(&mut out, n.as_slice());
        out.push('/');
        proof {
            assert(out@ =~= seq!['/'] + n@ + seq!['/']);
        }
        Some(string_from_chars(out.as_slice()))
    }
}

/// The normalized fragments of the parts of `value`, which separates them
/// with commas or line breaks.
pub open spec fn fragments_of_parts(parts: Seq<Seq<char>>) -> Seq<Seq<char>>
    decreases parts.len(),
{
    if parts.len() == 0 {
        seq![]
    } else {
        let previous = fragments_of_parts(parts.drop_last());
        match normalized_fragment(parts.last()) {
            Some(f) => previous.push(f),
            None => previous,
        }
    }
}

pub open spec fn fragments_of_values(values: Seq<Seq<char>>) -> Seq<Seq<char>>
    decreases values.len(),
{
    if values.len() == 0 {
        seq![]
    } else {
        fragments_of_values(values.drop_last()) + fragments_of_parts(
            split_chars2(values.last(), ',', '\n'),
        )
    }
}

pub open spec fn string_seq_view(v: Seq<String>) -> Seq<Seq<char>> {
    v.map_values(|s: String| s@)
}

fn default_fragment_strings() -> (r: Vec<String>)
    ensures
        string_seq_view(r@) == default_fragments(),
{
    let mut out: Vec<String> = Vec::new();
    out.push("/node_modules/".to_owned());
    out.push("/.git/".to_owned());
    out.push("/dist/".to_owned());
    out.push("/artifacts/".to_owned());
    out.push("/.cache/".to_owned());
    out.push("/target/".to_owned());
    out.push("/build/".to_owned());
    out.push("/out/".to_owned());
    out.push("/.idea/".to_owned());
    proof {
        assert(string_seq_view(out@) =~= default_fragments());
    }
    out
}

/// The default fragments, then those configured in `values`, in order.
pub fn parse_workspace_watch_ignore_fragments_from_values(values: Vec<String>) -> (r: Vec<String>)
    ensures
        string_seq_view(r@) == default_fragments() + fragments_of_values(string_seq_view(values@)),
{
    let mut fragments = default_fragment_strings();
    let ghost vs = string_seq_view(values@);
    let mut i: usize = 0;
    while i < values.len()
        invariant
            i <= values@.len(),
            vs == string_seq_view(values@),
            string_seq_view(fragments@) == default_fragments() + fragments_of_values(vs.take(i as int)),
        decreases values.len() - i,
    {
        proof {
            assert(vs.take(i + 1).drop_last() =~= vs.take(i as int));
        }
        let chars = str_chars(values[i].as_str());
        let parts = split_exec(chars.as_slice(), ',', '\n', true);
        let ghost ps = parts@.map_values(|p: Vec<char>| p@);
        let ghost start = string_seq_view(fragments@);
        let mut k: usize = 0;
        while k < parts.len()
            invariant
                k <= parts@.len(),
                ps == parts@.map_values(|p: Vec<char>| p@),
                string_seq_view(fragments@) == start + fragments_of_parts(ps.take(k as int)),
            decreases parts.len() - k,
        {
            proof {
                assert(ps.take(k + 1).drop_last() =~= ps.take(k as int));
            }
            let part = string_from_chars(parts[k].as_slice());
            match normalize_workspace_watch_fragment(part.as_str()) {
                Some(f) => {
                    let ghost before = string_seq_view(fragments@);
                    fragments.push(f);
                    proof {
                        assert(string_seq_view(fragments@) =~= before.push(f@));
                    }
                },
                None => {},
            }
            k = k + 1;
        }
        proof {
            assert(ps.take(parts@.len() as int) =~= ps);
            assert(ps == split_chars2(vs[i as int], ',', '\n'));
            assert(string_seq_view(fragments@) =~= default_fragments() + fragments_of_values(vs.take(i + 1)));
        }
        i = i + 1;
    }
    proof {
        assert(vs.take(values@.len() as int) =~= vs);
    }
    fragments
}

/// A changed path is ignored when, with slashes for backslashes, it holds a
/// fragment, alone or with a slash after it (so that a fragment naming a
/// directory matches the directory itself).
pub open spec fn ignored_path(path: Seq<char>, fragments: Seq<Seq<char>>) -> bool {
    let normalized = replace_char(path, '\\', '/');
    let with_slash = if ends_with(normalized, "/"@) {
        normalized
    } else {
        normalized + "/"@
    };
    exists|i: int|
        0 <= i < fragments.len() && (contains(normalized, #[trigger] fragments[i]) || contains(
            with_slash,
            fragments[i],
        ))
}

pub fn should_ignore_workspace_watch_path(path_value: &str, fragments: &[String]) -> (r: bool)
    ensures
        r == ignored_path(path_value@, string_seq_view(fragments@)),
{
    let normalized = replace_char_exec(str_chars(path_value).as_slice(), '\\', '/');
    let with_slash = if normalized.len() > 0 && normalized[normalized.len() - 1] == '/' {
        proof {
            reveal_strlit("/");
            assert(normalized@.subrange(normalized@.len() - 1, normalized@.len() as int) =~= "/"@);
        }
        crate::text::slice_range(normalized.as_slice(), 0, normalized.len())
    } else {
        proof {
            reveal_strlit("/");
            if ends_with(normalized@, "/"@) {
                assert(normalized@.subrange(normalized@.len() - 1, normalized@.len() as int)[0] == '/');
            }
        }
        let mut v = crate::text::slice_range(normalized.as_slice(), 0, normalized.len());
        v.push('/');
        proof {
            assert(v@ =~= normalized@ + "/"@);
        }
        v
    };
    let ghost fs = string_seq_view(fragments@);
    let mut i: usize = 0;
    while i < fragments.len()
        invariant
            i <= fragments@.len(),
            fs == string_seq_view(fragments@),
            normalized@ == replace_char(path_value@, '\\', '/'),
            with_slash@ == (if ends_with(normalized@, "/"@) {
                normalized@
            } else {
                normalized@ + "/"@
            }),
            forall|k: int|
                0 <= k < i ==> !(contains(normalized@, #[trigger] fs[k]) || contains(
                    with_slash@,
                    fs[k],
                )),
        decreases fragments.len() - i,
    {
        let f = str_chars(fragments[i].as_str());
        if contains_exec(normalized.as_slice(), f.as_slice()) || contains_exec(
            with_slash.as_slice(),
            f.as_slice(),
        ) {
            proof {
                assert(fs[i as int] == f@);
            }
            return true;
        }
        i = i + 1;
    }
    false
}

} // verus!
