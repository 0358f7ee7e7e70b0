//! Text for desktop notifications that terminals ask for.

use vstd::prelude::*;
use crate::text::{
    is_control, trim, str_chars, chars_trim, string_from_chars, char_is_control, escape_quotes,
    escape_quotes_exec,
};

verus! {

/// The most characters of a notification's title that are shown.
pub const NOTIFICATION_TITLE_LIMIT: usize = 120;

/// The most characters of a notification's body that are shown.
pub const NOTIFICATION_BODY_LIMIT: usize = 600;

/// Control characters are dropped, except line breaks and tabs.
pub open spec fn kept_for_notification(c: char) -> bool {
    !is_control(c) || c == '\n' || c == '\t'
}

pub open spec fn notification_chars(text: Seq<char>) -> Seq<char>
    decreases text.len(),
{
    if text.len() == 0 {
        seq![]
    } else {
        let previous = notification_chars(text.drop_last());
        if kept_for_notification(text.last()) {
            previous.push(text.last())
        } else {
            previous
        }
    }
}

/// The kept characters, cut to `limit` with `...` after them when there
/// are more, then trimmed.
pub open spec fn notification_text(text: Seq<char>, limit: nat) -> Seq<char> {
    let kept = notification_chars(text);
    trim(
        if kept.len() > limit {
            kept.take(limit as int) + "..."@
        } else {
            kept
        },
    )
}

pub fn notification_text_for_desktop(text: &str, limit: usize) -> (r: String)
    ensures
        r@ == notification_text(text@, limit as nat),
{
    let chars = str_chars(text);
    let mut kept: Vec<char> = Vec::new();
    let mut i: usize = 0;
    while i < chars.len()
        invariant
            i <= chars@.len(),
            chars@ == text@,
            kept@ == notification_chars(text@.take(i as int)),
        decreases chars.len() - i,
    {
        let c = chars[i];
        proof {
            assert(text@.take(i + 1).drop_last() =~= text@.take(i as int));
        }
        if !char_is_control(c) || c == '\n' || c == '\t' {
            kept.push(c);
        }
        i = i + 1;
    }
    proof {
        assert(text@.take(chars@.len() as int) =~= text@);
    }
    let cut = if kept.len() > limit {
        let mut out = crate::text::slice_range(kept.as_slice(), 0, limit);
        crate::text::push_all(&mut out, str_chars("...").as_slice());
        out
    } else {
        kept
    };
    let trimmed = chars_trim(cut.as_slice());
    string_from_chars(trimmed.as_slice())
}

/// Text for an AppleScript string literal: backslashes and double quotes
/// escaped.
pub fn applescript_escape(text: &str) -> (r: String)
    ensures
        r@ == escape_quotes(text@),
{
    let out = escape_quotes_exec(str_chars(text).as_slice());
    string_from_chars(out.as_slice())
}

} // verus!
