//! Splitting text into pieces: by a separator character, into lines, and
//! at whitespace.

use vstd::prelude::*;
use crate::text::{char_is_ws, is_ws, push_all};

verus! {

/// One character is a separator: `sep_a` or, where `two` holds, `sep_b`.
pub open spec fn is_sep(c: char, sep_a: char, sep_b: char, two: bool) -> bool {
    c == sep_a || (two && c == sep_b)
}

/// The pieces of `s` between separators, `cur` already read into the first
/// piece (`str::split` with a character or a pair of characters).
pub open spec fn split_acc(s: Seq<char>, sep_a: char, sep_b: char, two: bool, cur: Seq<char>) -> Seq<
    Seq<char>,
>
    decreases s.len(),
{
    if s.len() == 0 {
        seq![cur]
    } else if is_sep(s[0], sep_a, sep_b, two) {
        seq![cur] + split_acc(s.drop_first(), sep_a, sep_b, two, seq![])
    } else {
        split_acc(s.drop_first(), sep_a, sep_b, two, cur.push(s[0]))
    }
}

/// `s.split(sep)`.
pub open spec fn split_char(s: Seq<char>, sep: char) -> Seq<Seq<char>> {
    split_acc(s, sep, sep, false, seq![])
}

/// `s.split([sep_a, sep_b])`.
pub open spec fn split_chars2(s: Seq<char>, sep_a: char, sep_b: char) -> Seq<Seq<char>> {
    split_acc(s, sep_a, sep_b, true, seq![])
}

proof fn lemma_split_acc_nonempty(s: Seq<char>, sep_a: char, sep_b: char, two: bool, cur: Seq<char>)
    ensures
        split_acc(s, sep_a, sep_b, two, cur).len() >= 1,
    decreases s.len(),
{
    if s.len() > 0 {
        if is_sep(s[0], sep_a, sep_b, two) {
            lemma_split_acc_nonempty(s.drop_first(), sep_a, sep_b, two, seq![]);
        } else {
            lemma_split_acc_nonempty(s.drop_first(), sep_a, sep_b, two, cur.push(s[0]));
        }
    }
}

/// Splitting always gives at least one piece.
pub proof fn lemma_split_nonempty(s: Seq<char>, sep: char)
    ensures
        split_char(s, sep).len() >= 1,
{
    lemma_split_acc_nonempty(s, sep, sep, false, seq![]);
}

pub fn split_exec(s: &[char], sep_a: char, sep_b: char, two: bool) -> (out: Vec<Vec<char>>)
    ensures
        out@.map_values(|p: Vec<char>| p@) == split_acc(s@, sep_a, sep_b, two, seq![]),
{
    let mut out: Vec<Vec<char>> = Vec::new();
    let mut cur: Vec<char> = Vec::new();
    let mut i: usize = 0;
    proof {
        assert(s@.skip(0) =~= s@);
        assert(out@.map_values(|p: Vec<char>| p@) + split_acc(s@, sep_a, sep_b, two, cur@) =~= split_acc(s@, sep_a, sep_b, two, cur@));
    }
    while i < s.len()
        invariant
            i <= s.len(),
            split_acc(s@, sep_a, sep_b, two, seq![]) == out@.map_values(|p: Vec<char>| p@)
                + split_acc(s@.skip(i as int), sep_a, sep_b, two, cur@),
        decreases s.len() - i,
    {
        let c = s[i];
        proof {
            assert(s@.skip(i as int)[0] == c);
            assert(s@.skip(i as int).drop_first() =~= s@.skip(i + 1));
        }
        if c == sep_a || (two && c == sep_b) {
            let piece = cur;
            cur = Vec::new();
            proof {
                let old_out = out@.map_values(|p: Vec<char>| p@);
                assert(old_out.push(piece@) =~= old_out + seq![piece@]);
            }
            out.push(piece);
            proof {
                let ghost prev = out@.drop_last();
                assert(out@.map_values(|p: Vec<char>| p@) =~= prev.map_values(|p: Vec<char>| p@).push(piece@));
                assert(seq![piece@] + split_acc(s@.skip(i + 1), sep_a, sep_b, two, seq![]) == split_acc(s@.skip(i as int), sep_a, sep_b, two, piece@));
                assert(split_acc(s@, sep_a, sep_b, two, seq![]) =~= out@.map_values(|p: Vec<char>| p@) + split_acc(s@.skip(i + 1), sep_a, sep_b, two, cur@));
            }
        } else {
            cur.push(c);
        }
        i = i + 1;
    }
    proof {
        assert(s@.skip(i as int).len() == 0);
    }
    let last = cur;
    let ghost before = out@.map_values(|p: Vec<char>| p@);
    out.push(last);
    proof {
        assert(out@.map_values(|p: Vec<char>| p@) =~= before.push(last@));
        assert(before + seq![last@] =~= before.push(last@));
    }
    out
}

/// The lines of `s`, `cur` already read into the first line (`str::lines`:
/// lines end at `\n`, a `\r` right before the `\n` is dropped, and a final
/// line ending adds no empty line).
pub open spec fn lines_acc(s: Seq<char>, cur: Seq<char>) -> Seq<Seq<char>>
    decreases s.len(),
{
    if s.len() == 0 {
        if cur.len() == 0 {
            seq![]
        } else {
            seq![cur]
        }
    } else if s[0] == '\n' {
        seq![strip_cr(cur)] + lines_acc(s.drop_first(), seq![])
    } else {
        lines_acc(s.drop_first(), cur.push(s[0]))
    }
}

/// `line` without one trailing `\r`.
pub open spec fn strip_cr(line: Seq<char>) -> Seq<char> {
    if line.len() > 0 && line.last() == '\r' {
        line.drop_last()
    } else {
        line
    }
}

/// `s.lines()`.
pub open spec fn lines(s: Seq<char>) -> Seq<Seq<char>> {
    lines_acc(s, seq![])
}

pub fn lines_exec(s: &[char]) -> (out: Vec<Vec<char>>)
    ensures
        out@.map_values(|p: Vec<char>| p@) == lines(s@),
{
    let mut out: Vec<Vec<char>> = Vec::new();
    let mut cur: Vec<char> = Vec::new();
    let mut i: usize = 0;
    proof {
        assert(s@.skip(0) =~= s@);
        assert(out@.map_values(|p: Vec<char>| p@) + lines_acc(s@, cur@) =~= lines_acc(s@, cur@));
    }
    while i < s.len()
        invariant
            i <= s.len(),
            lines(s@) == out@.map_values(|p: Vec<char>| p@) + lines_acc(s@.skip(i as int), cur@),
        decreases s.len() - i,
    {
        let c = s[i];
        proof {
            assert(s@.skip(i as int)[0] == c);
            assert(s@.skip(i as int).drop_first() =~= s@.skip(i + 1));
        }
        if c == '\n' {
            let mut piece = cur;
            if piece.len() > 0 && piece[piece.len() - 1] == '\r' {
                piece.pop();
            }
            cur = Vec::new();
            let ghost before = out@.map_values(|p: Vec<char>| p@);
            out.push(piece);
            proof {
                assert(out@.map_values(|p: Vec<char>| p@) =~= before.push(piece@));
                assert(before.push(piece@) + lines_acc(s@.skip(i + 1), seq![]) =~= before + (seq![piece@] + lines_acc(s@.skip(i + 1), seq![])));
            }
        } else {
            cur.push(c);
        }
        i = i + 1;
    }
    if cur.len() > 0 {
        let ghost before = out@.map_values(|p: Vec<char>| p@);
        let last = cur;
        out.push(last);
        proof {
            assert(out@.map_values(|p: Vec<char>| p@) =~= before.push(last@));
            assert(before + seq![last@] =~= before.push(last@));
        }
    } else {
        proof {
            assert(out@.map_values(|p: Vec<char>| p@) + seq![] =~= out@.map_values(|p: Vec<char>| p@));
        }
    }
    out
}

/// The words of `s` separated by whitespace, `cur` already read into the
/// first word (`str::split_whitespace`: no empty words).
pub open spec fn words_acc(s: Seq<char>, cur: Seq<char>) -> Seq<Seq<char>>
    decreases s.len(),
{
    if s.len() == 0 {
        if cur.len() == 0 {
            seq![]
        } else {
            seq![cur]
        }
    } else if is_ws(s[0]) {
        (if cur.len() == 0 {
            seq![]
        } else {
            seq![cur]
        }) + words_acc(s.drop_first(), seq![])
    } else {
        words_acc(s.drop_first(), cur.push(s[0]))
    }
}

/// `s.split_whitespace()`.
pub open spec fn words(s: Seq<char>) -> Seq<Seq<char>> {
    words_acc(s, seq![])
}

pub fn words_exec(s: &[char]) -> (out: Vec<Vec<char>>)
    ensures
        out@.map_values(|p: Vec<char>| p@) == words(s@),
{
    let mut out: Vec<Vec<char>> = Vec::new();
    let mut cur: Vec<char> = Vec::new();
    let mut i: usize = 0;
    proof {
        assert(s@.skip(0) =~= s@);
        assert(out@.map_values(|p: Vec<char>| p@) + words_acc(s@, cur@) =~= words_acc(s@, cur@));
    }
    while i < s.len()
        invariant
            i <= s.len(),
            words(s@) == out@.map_values(|p: Vec<char>| p@) + words_acc(s@.skip(i as int), cur@),
        decreases s.len() - i,
    {
        let c = s[i];
        proof {
            assert(s@.skip(i as int)[0] == c);
            assert(s@.skip(i as int).drop_first() =~= s@.skip(i + 1));
        }
        if char_is_ws(c) {
            let ghost before = out@.map_values(|p: Vec<char>| p@);
            if cur.len() > 0 {
                let piece = cur;
                cur = Vec::new();
                out.push(piece);
                proof {
                    assert(out@.map_values(|p: Vec<char>| p@) =~= before.push(piece@));
                    assert(before.push(piece@) + words_acc(s@.skip(i + 1), seq![]) =~= before + (seq![piece@] + words_acc(s@.skip(i + 1), seq![])));
                }
            } else {
                proof {
                    let empty: Seq<Seq<char>> = seq![];
                    assert(empty + words_acc(s@.skip(i + 1), seq![]) =~= words_acc(s@.skip(i + 1), seq![]));
                    assert(cur@ =~= seq![]);
                }
            }
        } else {
            cur.push(c);
        }
        i = i + 1;
    }
    if cur.len() > 0 {
        let ghost before = out@.map_values(|p: Vec<char>| p@);
        let last = cur;
        out.push(last);
        proof {
            assert(out@.map_values(|p: Vec<char>| p@) =~= before.push(last@));
            assert(before + seq![last@] =~= before.push(last@));
        }
    } else {
        proof {
            assert(out@.map_values(|p: Vec<char>| p@) + seq![] =~= out@.map_values(|p: Vec<char>| p@));
        }
    }
    out
}

/// The pieces joined with `sep` between them (`[T]::join`).
pub open spec fn join(pieces: Seq<Seq<char>>, sep: Seq<char>) -> Seq<char>
    decreases pieces.len(),
{
    if pieces.len() == 0 {
        seq![]
    } else if pieces.len() == 1 {
        pieces[0]
    } else {
        join(pieces.drop_last(), sep) + sep + pieces.last()
    }
}

pub fn join_exec(pieces: &Vec<Vec<char>>, sep: &[char]) -> (out: Vec<char>)
    ensures
        out@ == join(pieces@.map_values(|p: Vec<char>| p@), sep@),
{
    let ghost all = pieces@.map_values(|p: Vec<char>| p@);
    let mut out: Vec<char> = Vec::new();
    let mut i: usize = 0;
    while i < pieces.len()
        invariant
            i <= pieces.len(),
            all == pieces@.map_values(|p: Vec<char>| p@),
            out@ == join(all.take(i as int), sep@),
        decreases pieces.len() - i,
    {
        if i > 0 {
            push_all(&mut out, sep);
        }
        push_all(&mut out, pieces[i].as_slice());
        proof {
            assert(all.take(i + 1).drop_last() =~= all.take(i as int));
            if i == 0 {
                assert(out@ =~= all.take(1)[0]);
            }
        }
        i = i + 1;
    }
    proof {
        assert(all.take(pieces.len() as int) =~= all);
    }
    out
}

} // verus!
