//! What a pane shows while its terminal is not live: the tail of the last
//! captured screen, and the typed input it previews until the terminal
//! catches up.

use vstd::prelude::*;
use crate::split::{join, join_exec, lines, lines_exec};
use crate::text::{slice_range, string_from_chars, str_chars, trim_end, trim_end_len, push_all};
use crate::input::{LiveTerminalKey, LiveTerminalKeyInput};
use crate::types::TerminalPanePayload;

verus! {

/// The number of screen lines an excerpt keeps.
pub const SCREEN_EXCERPT_LINES: usize = 8;

/// The lines without trailing whitespace, blank ones left out.
pub open spec fn nonblank_trimmed(ls: Seq<Seq<char>>) -> Seq<Seq<char>>
    decreases ls.len(),
{
    if ls.len() == 0 {
        ls
    } else {
        let rest = nonblank_trimmed(ls.drop_last());
        let t = trim_end(ls.last());
        if t.len() == 0 {
            rest
        } else {
            rest.push(t)
        }
    }
}

/// The last lines of a screen that are not blank, without trailing
/// whitespace, at most `SCREEN_EXCERPT_LINES` of them, joined by newlines.
pub open spec fn screen_excerpt(screen: Seq<char>) -> Seq<char> {
    let ls = nonblank_trimmed(lines(screen));
    let start = if ls.len() > SCREEN_EXCERPT_LINES {
        ls.len() - SCREEN_EXCERPT_LINES
    } else {
        0
    };
    join(ls.subrange(start as int, ls.len() as int), seq!['\n'])
}

pub fn terminal_screen_excerpt(screen: &str) -> (r: String)
    ensures
        r@ == screen_excerpt(screen@),
{
    let chars = str_chars(screen);
    let all = lines_exec(chars.as_slice());
    let ghost views = all@.map_values(|p: Vec<char>| p@);
    let mut kept: Vec<Vec<char>> = Vec::new();
    let mut i: usize = 0;
    while i < all.len()
        invariant
            i <= all.len(),
            views == all@.map_values(|p: Vec<char>| p@),
            kept@.map_values(|p: Vec<char>| p@) == nonblank_trimmed(views.take(i as int)),
        decreases all.len() - i,
    {
        proof {
            assert(views.take(i + 1).drop_last() =~= views.take(i as int));
            assert(views.take(i + 1).last() == all@[i as int]@);
        }
        let line = &all[i];
        let end = trim_end_len(line.as_slice());
        if end > 0 {
            let t = slice_range(line.as_slice(), 0, end);
            let ghost before = kept@.map_values(|p: Vec<char>| p@);
            kept.push(t);
            proof {
                assert(kept@.map_values(|p: Vec<char>| p@) =~= before.push(trim_end(all@[i as int]@)));
            }
        }
        i = i + 1;
    }
    proof {
        assert(views.take(views.len() as int) =~= views);
    }
    let ghost ks = kept@.map_values(|p: Vec<char>| p@);
    let start = if kept.len() > SCREEN_EXCERPT_LINES {
        kept.len() - SCREEN_EXCERPT_LINES
    } else {
        0
    };
    let mut tail: Vec<Vec<char>> = Vec::new();
    let mut k: usize = start;
    while k < kept.len()
        invariant
            start <= k <= kept.len(),
            ks == kept@.map_values(|p: Vec<char>| p@),
            tail@.map_values(|p: Vec<char>| p@) == ks.subrange(start as int, k as int),
        decreases kept.len() - k,
    {
        let piece = slice_range(kept[k].as_slice(), 0, kept[k].len());
        assert(piece@ =~= ks[k as int]);
        let ghost before = tail@.map_values(|p: Vec<char>| p@);
        tail.push(piece);
        proof {
            assert(tail@.map_values(|p: Vec<char>| p@) =~= before.push(piece@));
            assert(ks.subrange(start as int, k + 1) =~= ks.subrange(start as int, k as int).push(ks[k as int]));
        }
        k = k + 1;
    }
    let sep = str_chars("\n");
    proof {
        assert(sep@ =~= seq!['\n']) by {
            reveal_strlit("\n");
        }
    }
    let joined = join_exec(&tail, sep.as_slice());
    string_from_chars(joined.as_slice())
}

/// The buffer after previewing a keystroke: typed text is appended, Enter
/// and Tab add a line break and a tab, Backspace removes the last
/// character; other keys change nothing.
pub open spec fn previewed(buffer: Seq<char>, input: LiveTerminalKeyInput) -> Seq<char> {
    match input.text {
        Some(t) => buffer + t@,
        None => match input.key {
            LiveTerminalKey::Enter => buffer.push('\n'),
            LiveTerminalKey::Backspace => if buffer.len() > 0 {
                buffer.drop_last()
            } else {
                buffer
            },
            LiveTerminalKey::Tab => buffer.push('\t'),
            _ => buffer,
        },
    }
}

/// Shows a keystroke sent to a terminal that is not live yet in the pane's
/// restored buffer; nothing else of the pane changes.
pub fn preview_terminal_input(payload: &mut TerminalPanePayload, input: &LiveTerminalKeyInput)
    ensures
        final(payload).restored_buffer@ == previewed(old(payload).restored_buffer@, *input),
        *final(payload) == (TerminalPanePayload { restored_buffer: final(payload).restored_buffer, ..*old(payload) }),
{
    let mut buffer = str_chars(payload.restored_buffer.as_str());
    match &input.text {
        Some(t) => {
            push_all(&mut buffer, str_chars(t.as_str()).as_slice());
        },
        None => match input.key {
            LiveTerminalKey::Enter => {
                buffer.push('\n');
            },
            LiveTerminalKey::Backspace => {
                if buffer.len() > 0 {
                    let _ = buffer.pop();
                }
            },
            LiveTerminalKey::Tab => {
                buffer.push('\t');
            },
            _ => {},
        },
    }
    payload.restored_buffer = string_from_chars(buffer.as_slice());
}

} // verus!
