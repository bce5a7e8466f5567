//! The export for print: a slide as a piece of a typesetting document.
//!
//! A slide is exported in three steps. Each fence marker gets a directive
//! beside it that opens or closes a literal block: the first marker of the
//! slide opens, the second closes, and so on. Then the fenced code is encoded
//! as it is for the screen. Last, the escapes of the markup that the
//! typesetter has a directive for are replaced by it.

use vstd::prelude::*;
use crate::extract::{
    after_marker, before_marker, extract, extract_chars, has_marker, lemma_find_marker,
    lemma_find_marker_shift, scan_marker,
};
use crate::text::{append_range, to_chars, to_string};

verus! {

/// What stands for a marker that opens a region: the marker, and the
/// directive that opens a literal block on the next line.
pub open spec fn block_open() -> Seq<char> {
    seq!['.', 'r', 's', '\n', '.', '(', 'l', ' ', 'L']
}

/// What stands for a marker that closes a region: the directive that closes
/// the literal block, and the marker on the next line.
pub open spec fn block_close() -> Seq<char> {
    seq!['.', ')', 'l', '\n', '.', 'r', 's']
}

/// The slide with every fence marker replaced in turn by what opens and what
/// closes a literal block.
pub open spec fn wrap_fences(s: Seq<char>) -> Seq<char>
    decreases s.len(),
{
    if !has_marker(s) {
        s
    } else {
        let body = after_marker(s);
        if !has_marker(body) {
            before_marker(s) + block_open() + body
        } else {
            proof {
                lemma_find_marker(s, 0);
                lemma_find_marker(body, 0);
            }
            before_marker(s) + block_open() + before_marker(body) + block_close() + wrap_fences(
                after_marker(body),
            )
        }
    }
}

/// The directive for roman type.
pub open spec fn roman() -> Seq<char> {
    seq!['\\', 'f', 'R']
}

/// The directive for italic type.
pub open spec fn italic() -> Seq<char> {
    seq!['\\', 'f', 'I']
}

/// The directive for bold type.
pub open spec fn bold() -> Seq<char> {
    seq!['\\', 'f', 'B']
}

/// The directive for a bullet, on a line of its own.
pub open spec fn bullet_line() -> Seq<char> {
    seq!['.', 'b', 'u', '\n']
}

/// How many characters the escape that begins at `pos` has, where it is one
/// that the typesetter has a directive for; zero otherwise. Those are `\*` and
/// `\-`, `\fU`, and `\c` with one of the letters `W`, `B`, `r`, `g`, `m`, `c`
/// and `y`.
pub open spec fn escape_len(s: Seq<char>, pos: int) -> int {
    if 0 <= pos && pos + 1 < s.len() && s[pos] == '\\' {
        let d = s[pos + 1];
        if d == '*' || d == '-' {
            2
        } else if pos + 2 < s.len() {
            let e = s[pos + 2];
            if d == 'f' && e == 'U' {
                3
            } else if d == 'c' && (e == 'W' || e == 'B' || e == 'r' || e == 'g' || e == 'm' || e
                == 'c' || e == 'y') {
                3
            } else {
                0
            }
        } else {
            0
        }
    } else {
        0
    }
}

/// The directive of the typesetter for the escape that begins at `pos`: a
/// bullet for `\*` and `\-`; roman type for the neutral colour `\cW`; italic
/// type for underline, `\fU`, and for black, `\cB`; bold type for red, green,
/// magenta, cyan and yellow.
pub open spec fn directive(s: Seq<char>, pos: int) -> Seq<char>
    recommends
        escape_len(s, pos) > 0,
{
    let d = s[pos + 1];
    if d == '*' || d == '-' {
        bullet_line()
    } else if d == 'f' {
        italic()
    } else if s[pos + 2] == 'W' {
        roman()
    } else if s[pos + 2] == 'B' {
        italic()
    } else {
        bold()
    }
}

/// The text `s[pos..]` with each escape that the typesetter has a directive
/// for replaced by it, and everything else as it is.
pub open spec fn typeset_from(s: Seq<char>, pos: int) -> Seq<char>
    decreases s.len() - pos,
{
    if pos < 0 || pos >= s.len() {
        Seq::empty()
    } else if escape_len(s, pos) > 0 {
        directive(s, pos) + typeset_from(s, pos + escape_len(s, pos))
    } else {
        seq![s[pos]] + typeset_from(s, pos + 1)
    }
}

/// The text `s` with each escape that the typesetter has a directive for
/// replaced by it.
pub open spec fn typeset(s: Seq<char>) -> Seq<char> {
    typeset_from(s, 0)
}

/// A slide, exported.
pub open spec fn exported(s: Seq<char>) -> Seq<char> {
    typeset(extract(wrap_fences(s)))
}

/// Appends what opens a literal block to `out`.
fn push_block_open(out: &mut Vec<char>)
    ensures
        final(out)@ == old(out)@ + block_open(),
{
    out.push('.');
    out.push('r');
    out.push('s');
    out.push('\n');
    out.push('.');
    out.push('(');
    out.push('l');
    out.push(' ');
    out.push('L');
}

/// Appends what closes a literal block to `out`.
fn push_block_close(out: &mut Vec<char>)
    ensures
        final(out)@ == old(out)@ + block_close(),
{
    out.push('.');
    out.push(')');
    out.push('l');
    out.push('\n');
    out.push('.');
    out.push('r');
    out.push('s');
    assert(out@ =~= old(out)@ + block_close());
}

/// The slide `chars` with a literal block around each fenced region.
pub fn wrap_fences_chars(chars: &[char]) -> (out: Vec<char>)
    ensures
        out@ == wrap_fences(chars@),
{
    let ghost s = chars@;
    let ghost end = s.len() as int;
    let mut out: Vec<char> = Vec::new();
    let mut pos: usize = 0;
    assert(s.subrange(0, end) =~= s);
    loop
        invariant_except_break
            out@ + wrap_fences(s.subrange(pos as int, end)) == wrap_fences(s),
        invariant
            s == chars@,
            end == s.len(),
            pos <= chars@.len(),
        ensures
            out@ == wrap_fences(s),
        decreases chars@.len() - pos,
    {
        let ghost rest = s.subrange(pos as int, end);
        let ghost done = out@;
        let open = scan_marker(chars, pos);
        proof {
            lemma_find_marker_shift(s, pos as int, pos as int);
        }
        append_range(&mut out, chars, pos, open);
        if open >= chars.len() {
            break ;
        }
        push_block_open(&mut out);
        let ghost body = s.subrange(open + 3, end);
        let close = scan_marker(chars, open + 3);
        proof {
            assert(after_marker(rest) =~= body);
            lemma_find_marker_shift(s, open + 3, open + 3);
        }
        append_range(&mut out, chars, open + 3, close);
        if close >= chars.len() {
            assert(out@ =~= done + (before_marker(rest) + block_open() + body));
            break ;
        }
        push_block_close(&mut out);
        proof {
            assert(after_marker(body) =~= s.subrange(close + 3, end));
            assert(out@ + wrap_fences(s.subrange(close + 3, end)) =~= done + (before_marker(rest)
                + block_open() + before_marker(body) + block_close() + wrap_fences(
                after_marker(body),
            )));
        }
        pos = close + 3;
    }
    out
}

/// How many characters the escape that begins at `pos` has, or zero.
fn escape_len_at(chars: &[char], pos: usize) -> (n: usize)
    requires
        pos < chars@.len(),
    ensures
        n == escape_len(chars@, pos as int),
        pos + n <= chars@.len(),
{
    let left = chars.len() - pos;
    if left < 2 || chars[pos] != '\\' {
        return 0;
    }
    let d = chars[pos + 1];
    if d == '*' || d == '-' {
        2
    } else if left < 3 {
        0
    } else {
        let e = chars[pos + 2];
        if d == 'f' && e == 'U' {
            3
        } else if d == 'c' && (e == 'W' || e == 'B' || e == 'r' || e == 'g' || e == 'm' || e == 'c'
            || e == 'y') {
            3
        } else {
            0
        }
    }
}

/// Appends the directive for the escape that begins at `pos` to `out`.
fn push_directive(out: &mut Vec<char>, chars: &[char], pos: usize)
    requires
        pos < chars@.len(),
        escape_len(chars@, pos as int) > 0,
    ensures
        final(out)@ == old(out)@ + directive(chars@, pos as int),
{
    assert(pos + 1 < chars.len());
    let d = chars[pos + 1];
    if d == '*' || d == '-' {
        out.push('.');
        out.push('b');
        out.push('u');
        out.push('\n');
    } else {
        let face = if d == 'f' {
            'I'
        } else if chars[pos + 2] == 'W' {
            'R'
        } else if chars[pos + 2] == 'B' {
            'I'
        } else {
            'B'
        };
        out.push('\\');
        out.push('f');
        out.push(face);
    }
}

/// The text `chars` with its escapes replaced by the typesetter's directives.
pub fn typeset_chars(chars: &[char]) -> (out: Vec<char>)
    ensures
        out@ == typeset(chars@),
{
    let mut out: Vec<char> = Vec::new();
    let mut pos: usize = 0;
    while pos < chars.len()
        invariant
            pos <= chars@.len(),
            out@ + typeset_from(chars@, pos as int) == typeset(chars@),
        decreases chars@.len() - pos,
    {
        let n = escape_len_at(chars, pos);
        if n > 0 {
            push_directive(&mut out, chars, pos);
            pos = pos + n;
        } else {
            out.push(chars[pos]);
            pos = pos + 1;
        }
    }
    out
}

/// The slide `text` as a piece of the typesetting document: a literal block
/// around each fenced region, the fenced code encoded, and the escapes that the
/// typesetter has a directive for replaced by it.
pub fn export(text: &str) -> (out: String)
    ensures
        out@ == exported(text@),
{
    let chars = to_chars(text);
    let wrapped = wrap_fences_chars(chars.as_slice());
    let encoded = extract_chars(wrapped.as_slice());
    let out = typeset_chars(encoded.as_slice());
    to_string(out.as_slice())
}

} // verus!
