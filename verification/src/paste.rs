//! Pasting into a terminal: line endings become carriage returns, as a
//! typed Enter would send, and a pasted file path is quoted for the shell
//! when it needs to be.

use vstd::prelude::*;
use vstd::utf8::{encode_utf8, encode_scalar};
use crate::text::{str_chars, string_from_chars, is_ascii_alphanumeric, char_is_ascii_alphanumeric};

verus! {

/// `text` with each CRLF pair and each lone LF turned into a CR.
pub open spec fn paste_chars(text: Seq<char>) -> Seq<char>
    decreases text.len(),
{
    if text.len() == 0 {
        seq![]
    } else if text.len() > 1 && text[0] == '\r' && text[1] == '\n' {
        seq!['\r'] + paste_chars(text.skip(2))
    } else if text[0] == '\n' {
        seq!['\r'] + paste_chars(text.drop_first())
    } else {
        seq![text[0]] + paste_chars(text.drop_first())
    }
}

fn paste_char_vec(text: &[char]) -> (out: Vec<char>)
    ensures
        out@ == paste_chars(text@),
{
    let mut out: Vec<char> = Vec::new();
    let mut i: usize = 0;
    proof {
        assert(text@.skip(0) =~= text@);
    }
    while i < text.len()
        invariant
            i <= text.len(),
            out@ + paste_chars(text@.skip(i as int)) == paste_chars(text@),
        decreases text.len() - i,
    {
        let ghost rest = text@.skip(i as int);
        if i + 1 < text.len() && text[i] == '\r' && text[i + 1] == '\n' {
            proof {
                assert(rest[0] == '\r' && rest[1] == '\n');
                assert(rest.skip(2) =~= text@.skip(i + 2));
                assert(out@.push('\r') + paste_chars(text@.skip(i + 2)) =~= out@ + (seq!['\r'] + paste_chars(rest.skip(2))));
            }
            out.push('\r');
            i = i + 2;
        } else {
            let c = text[i];
            let mapped = if c == '\n' {
                '\r'
            } else {
                c
            };
            proof {
                assert(rest[0] == c);
                assert(rest.drop_first() =~= text@.skip(i + 1));
                assert(out@.push(mapped) + paste_chars(text@.skip(i + 1)) =~= out@ + (seq![mapped] + paste_chars(rest.drop_first())));
            }
            out.push(mapped);
            i = i + 1;
        }
    }
    proof {
        assert(out@ + paste_chars(text@.skip(i as int)) =~= out@);
    }
    out
}

/// The bytes to write to a terminal for pasted `text`: its UTF-8 encoding
/// after line endings become carriage returns.
pub fn terminal_paste_bytes(text: &str) -> (r: Vec<u8>)
    ensures
        r@ == encode_utf8(paste_chars(text@)),
{
    let chars = paste_char_vec(str_chars(text).as_slice());
    let s = string_from_chars(chars.as_slice());
    vstd::slice::slice_to_vec(s.as_str().as_bytes())
}

proof fn lemma_paste_chars_no_newline(text: Seq<char>)
    ensures
        !paste_chars(text).contains('\n'),
    decreases text.len(),
{
    if text.len() == 0 {
    } else if text.len() > 1 && text[0] == '\r' && text[1] == '\n' {
        lemma_paste_chars_no_newline(text.skip(2));
        assert(!(seq!['\r'] + paste_chars(text.skip(2))).contains('\n')) by {
            let s = seq!['\r'] + paste_chars(text.skip(2));
            if s.contains('\n') {
                let k = choose|k: int| 0 <= k < s.len() && s[k] == '\n';
                assert(paste_chars(text.skip(2))[k - 1] == '\n');
            }
        }
    } else {
        lemma_paste_chars_no_newline(text.drop_first());
        let head = if text[0] == '\n' {
            '\r'
        } else {
            text[0]
        };
        let s = seq![head] + paste_chars(text.drop_first());
        assert(paste_chars(text) == s);
        if s.contains('\n') {
            let k = choose|k: int| 0 <= k < s.len() && s[k] == '\n';
            if k > 0 {
                assert(paste_chars(text.drop_first())[k - 1] == '\n');
            }
        }
    }
}

proof fn lemma_scalar_has_no_newline_byte(v: u32)
    requires
        v != 10,
    ensures
        !encode_scalar(v).contains(10u8),
{
    let e = encode_scalar(v);
    assert(v <= 0x7F ==> (v & 0x7F) as u8 != 10u8) by (bit_vector)
        requires
            v != 10,
    ;
    assert(forall|x: u32| #[trigger] ((0xC0u8 | ((x >> 6) & 0x1F) as u8)) != 10u8) by (bit_vector);
    assert(forall|x: u32| #[trigger] ((0xE0u8 | ((x >> 12) & 0x0F) as u8)) != 10u8) by (bit_vector);
    assert(forall|x: u32| #[trigger] ((0xF0u8 | ((x >> 18) & 0x7) as u8)) != 10u8) by (bit_vector);
    assert(forall|x: u32| #[trigger] ((0x80u8 | (x & 0x3F) as u8)) != 10u8) by (bit_vector);
    assert(forall|x: u32| #[trigger] ((0x80u8 | ((x >> 6) & 0x3F) as u8)) != 10u8) by (bit_vector);
    assert(forall|x: u32| #[trigger] ((0x80u8 | ((x >> 12) & 0x3F) as u8)) != 10u8) by (bit_vector);
    assert forall|k: int| 0 <= k < e.len() implies e[k] != 10u8 by {}
}

/// Pasted text never sends a line feed: every line ending arrives as a
/// carriage return, and no byte of the encoding of another character is a
/// line feed.
pub proof fn lemma_paste_bytes_have_no_line_feed(text: Seq<char>)
    ensures
        !paste_chars(text).contains('\n'),
        !encode_utf8(paste_chars(text)).contains(10u8),
{
    lemma_paste_chars_no_newline(text);
    lemma_encoding_without_newline(paste_chars(text));
}

proof fn lemma_encoding_without_newline(chars: Seq<char>)
    requires
        !chars.contains('\n'),
    ensures
        !encode_utf8(chars).contains(10u8),
    decreases chars.len(),
{
    if chars.len() > 0 {
        let rest = chars.drop_first();
        assert(!rest.contains('\n')) by {
            if rest.contains('\n') {
                let k = choose|k: int| 0 <= k < rest.len() && rest[k] == '\n';
                assert(chars[k + 1] == '\n');
            }
        }
        lemma_encoding_without_newline(rest);
        assert(chars[0] != '\n') by {
            if chars[0] == '\n' {
                assert(chars.contains('\n'));
            }
        }
        assert(chars[0] as u32 != 10) by {
            if chars[0] as u32 == 10 {
                vstd::utf8::char_u32_cast(chars[0], 10);
                vstd::utf8::char_u32_cast('\n', 10);
            }
        }
        lemma_scalar_has_no_newline_byte(chars[0] as u32);
        let head = encode_scalar(chars[0] as u32);
        let tail = encode_utf8(rest);
        let all = head + tail;
        assert(encode_utf8(chars) == all);
        if all.contains(10u8) {
            let k = choose|k: int| 0 <= k < all.len() && all[k] == 10u8;
            if k < head.len() {
                assert(head.contains(10u8));
            } else {
                assert(tail[k - head.len()] == 10u8);
                assert(tail.contains(10u8));
            }
        }
    }
}

// ---------------------------------------------------------------------------
// File paths
// ---------------------------------------------------------------------------

/// Characters that a shell reads as part of a word without quoting.
pub open spec fn is_safe_shell_path(c: char) -> bool {
    is_ascii_alphanumeric(c) || c == '_' || c == '.' || c == '/' || c == ':' || c == '@' || c == '%'
        || c == '+' || c == '=' || c == ',' || c == '-'
}

pub fn is_safe_shell_path_char(ch: char) -> (r: bool)
    ensures
        r == is_safe_shell_path(ch),
{
    char_is_ascii_alphanumeric(ch) || ch == '_' || ch == '.' || ch == '/' || ch == ':' || ch == '@'
        || ch == '%' || ch == '+' || ch == '=' || ch == ',' || ch == '-'
}

/// Each single quote written as `'\''`: close the quote, an escaped quote,
/// reopen.
pub open spec fn escape_single_quotes(s: Seq<char>) -> Seq<char>
    decreases s.len(),
{
    if s.len() == 0 {
        seq![]
    } else {
        escape_single_quotes(s.drop_last()) + (if s.last() == '\'' {
            seq!['\'', '\\', '\'', '\'']
        } else {
            seq![s.last()]
        })
    }
}

/// A path as the shell should receive it: as it is when every character is
/// safe, otherwise in single quotes.
pub open spec fn quoted_path(path: Seq<char>) -> Seq<char> {
    if forall|i: int| 0 <= i < path.len() ==> is_safe_shell_path(#[trigger] path[i]) {
        path
    } else {
        seq!['\''] + escape_single_quotes(path) + seq!['\'']
    }
}

pub fn quote_terminal_path_for_paste(path: &str) -> (r: String)
    ensures
        r@ == quoted_path(path@),
{
    let chars = str_chars(path);
    let mut all_safe = true;
    let mut i: usize = 0;
    while i < chars.len()
        invariant
            i <= chars@.len(),
            all_safe == forall|k: int| 0 <= k < i ==> is_safe_shell_path(#[trigger] chars@[k]),
        decreases chars.len() - i,
    {
        if !is_safe_shell_path_char(chars[i]) {
            all_safe = false;
        }
        i = i + 1;
    }
    if all_safe {
        return path.to_owned();
    }
    let mut out: Vec<char> = Vec::new();
    out.push('\'');
    let mut k: usize = 0;
    while k < chars.len()
        invariant
            k <= chars@.len(),
            out@ == seq!['\''] + escape_single_quotes(chars@.take(k as int)),
        decreases chars.len() - k,
    {
        let c = chars[k];
        proof {
            assert(chars@.take(k + 1).drop_last() =~= chars@.take(k as int));
        }
        if c == '\'' {
            out.push('\'');
            out.push('\\');
            out.push('\'');
            out.push('\'');
        } else {
            out.push(c);
        }
        proof {
            assert(out@ =~= seq!['\''] + escape_single_quotes(chars@.take(k + 1)));
        }
        k = k + 1;
    }
    out.push('\'');
    proof {
        assert(chars@.take(chars@.len() as int) =~= chars@);
    }
    string_from_chars(out.as_slice())
}

/// Image formats that a clipboard can hold.
#[derive(Clone, Copy, Debug, PartialEq, Eq, Structural)]
pub enum ImageFormat {
    Png,
    Jpeg,
    Webp,
    Gif,
    Svg,
    Bmp,
    Tiff,
}

/// The file name extension for an image format.
pub open spec fn image_extension(format: ImageFormat) -> Seq<char> {
    match format {
        ImageFormat::Png => "png"@,
        ImageFormat::Jpeg => "jpg"@,
        ImageFormat::Webp => "webp"@,
        ImageFormat::Gif => "gif"@,
        ImageFormat::Svg => "svg"@,
        ImageFormat::Bmp => "bmp"@,
        ImageFormat::Tiff => "tiff"@,
    }
}

pub fn image_format_extension(format: ImageFormat) -> (r: &'static str)
    ensures
        r@ == image_extension(format),
{
    match format {
        ImageFormat::Png => "png",
        ImageFormat::Jpeg => "jpg",
        ImageFormat::Webp => "webp",
        ImageFormat::Gif => "gif",
        ImageFormat::Svg => "svg",
        ImageFormat::Bmp => "bmp",
        ImageFormat::Tiff => "tiff",
    }
}

} // verus!
