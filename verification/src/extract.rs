//! The extractor: finds the fenced code of a slide and puts its encoding in
//! its place.
//!
//! The fence is the marker `.rs`. The first marker opens a region of embedded
//! source code and the next one closes it; the one after that opens the next
//! region, and so on. The markers themselves are dropped, the text between an
//! opening and a closing marker is encoded, and the text outside is kept as it
//! is. A region that is never closed runs to the end of the slide.

use vstd::prelude::*;
use crate::encode::{encode, encode_chars};
use crate::text::{append, append_range, copy_range, to_chars, to_string};

verus! {

/// The fence marker.
pub open spec fn marker() -> Seq<char> {
    seq!['.', 'r', 's']
}

/// Whether a marker begins at `k`.
pub open spec fn marker_at(s: Seq<char>, k: int) -> bool {
    0 <= k && k + 2 < s.len() && s[k] == '.' && s[k + 1] == 'r' && s[k + 2] == 's'
}

/// The index of the first marker in `s` at or after `from`, or the length of
/// `s` where there is none.
pub open spec fn find_marker(s: Seq<char>, from: int) -> int
    decreases s.len() - from,
{
    if from >= s.len() {
        s.len() as int
    } else if marker_at(s, from) {
        from
    } else {
        find_marker(s, from + 1)
    }
}

/// Whether `s` holds a marker.
pub open spec fn has_marker(s: Seq<char>) -> bool {
    find_marker(s, 0) < s.len()
}

/// The text of `s` before its first marker; all of `s` where it has none.
pub open spec fn before_marker(s: Seq<char>) -> Seq<char> {
    s.subrange(0, find_marker(s, 0))
}

/// The text of `s` after its first marker.
pub open spec fn after_marker(s: Seq<char>) -> Seq<char>
    recommends
        has_marker(s),
{
    s.subrange(find_marker(s, 0) + 3, s.len() as int)
}

/// `find_marker` stays within `s`, stops at a marker and passes none.
pub proof fn lemma_find_marker(s: Seq<char>, from: int)
    requires
        0 <= from <= s.len(),
    ensures
        from <= find_marker(s, from) <= s.len(),
        find_marker(s, from) < s.len() ==> marker_at(s, find_marker(s, from)),
        forall|k: int| from <= k < find_marker(s, from) ==> !marker_at(s, k),
    decreases s.len() - from,
{
    if from < s.len() && !marker_at(s, from) {
        lemma_find_marker(s, from + 1);
    }
}

/// A slide with its fenced code encoded.
pub open spec fn extract(s: Seq<char>) -> Seq<char>
    decreases s.len(),
{
    if !has_marker(s) {
        s
    } else {
        let body = after_marker(s);
        if !has_marker(body) {
            before_marker(s) + encode(body)
        } else {
            proof {
                lemma_find_marker(s, 0);
                lemma_find_marker(body, 0);
            }
            before_marker(s) + encode(before_marker(body)) + extract(after_marker(body))
        }
    }
}

/// Looking for a marker in the rest of `s` from `base` is looking for it in
/// `s` itself.
pub proof fn lemma_find_marker_shift(s: Seq<char>, base: int, from: int)
    requires
        0 <= base <= from <= s.len(),
    ensures
        find_marker(s.subrange(base, s.len() as int), from - base) + base == find_marker(s, from),
    decreases s.len() - from,
{
    let rest = s.subrange(base, s.len() as int);
    if from < s.len() {
        if !marker_at(s, from) {
            lemma_find_marker_shift(s, base, from + 1);
        }
    }
}

/// Looks for the first marker at or after `from`.
pub(crate) fn scan_marker(chars: &[char], from: usize) -> (k: usize)
    requires
        from <= chars@.len(),
    ensures
        k == find_marker(chars@, from as int),
        from <= k <= chars@.len(),
        k < chars@.len() ==> k + 3 <= chars@.len(),
{
    let mut k: usize = from;
    while k < chars.len()
        invariant
            from <= k <= chars@.len(),
            find_marker(chars@, k as int) == find_marker(chars@, from as int),
        decreases chars@.len() - k,
    {
        if chars.len() - k >= 3 && chars[k] == '.' && chars[k + 1] == 'r' && chars[k + 2] == 's' {
            return k;
        }
        k += 1;
    }
    k
}

/// The slide `chars` with its fenced code encoded.
pub fn extract_chars(chars: &[char]) -> (out: Vec<char>)
    ensures
        out@ == extract(chars@),
{
    let ghost s = chars@;
    let ghost end = s.len() as int;
    let mut out: Vec<char> = Vec::new();
    let mut pos: usize = 0;
    assert(s.subrange(0, end) =~= s);
    loop
        invariant_except_break
            out@ + extract(s.subrange(pos as int, end)) == extract(s),
        invariant
            s == chars@,
            end == s.len(),
            pos <= chars@.len(),
        ensures
            out@ == extract(s),
        decreases chars@.len() - pos,
    {
        let ghost rest = s.subrange(pos as int, end);
        let open = scan_marker(chars, pos);
        proof {
            lemma_find_marker_shift(s, pos as int, pos as int);
        }
        append_range(&mut out, chars, pos, open);
        if open >= chars.len() {
            assert(before_marker(rest) =~= rest);
            break;
        }
        let ghost body = s.subrange(open + 3, end);
        let close = scan_marker(chars, open + 3);
        proof {
            assert(after_marker(rest) =~= body);
            lemma_find_marker_shift(s, open + 3, open + 3);
            assert(before_marker(body) =~= s.subrange(open + 3, close as int));
        }
        let code = copy_range(chars, open + 3, close);
        let encoded = encode_chars(code.as_slice());
        append(&mut out, encoded.as_slice());
        if close >= chars.len() {
            assert(before_marker(body) =~= body);
            break;
        }
        proof {
            assert(after_marker(body) =~= s.subrange(close + 3, end));
        }
        pos = close + 3;
    }
    out
}

/// The slide `text` with its fenced code encoded: the text outside the fences
/// as it is, the text of each fenced region encoded, the markers dropped.
pub fn compile_rust(text: &str) -> (out: String)
    ensures
        out@ == extract(text@),
{
    let chars = to_chars(text);
    let out = extract_chars(chars.as_slice());
    to_string(out.as_slice())
}

/// Whether `s` holds no marker.
pub open spec fn plain(s: Seq<char>) -> bool {
    forall|k: int| !marker_at(s, k)
}

/// The parts with a marker between each two neighbours.
pub open spec fn fenced(parts: Seq<Seq<char>>) -> Seq<char>
    decreases parts.len(),
{
    if parts.len() == 0 {
        Seq::empty()
    } else if parts.len() == 1 {
        parts[0]
    } else {
        parts[0] + marker() + fenced(parts.drop_first())
    }
}

/// The parts without the markers, every second one encoded: the first part as
/// it is, the second encoded, the third as it is, and so on.
pub open spec fn spliced(parts: Seq<Seq<char>>) -> Seq<char>
    decreases parts.len(),
{
    if parts.len() == 0 {
        Seq::empty()
    } else if parts.len() == 1 {
        parts[0]
    } else if parts.len() == 2 {
        parts[0] + encode(parts[1])
    } else {
        parts[0] + encode(parts[1]) + spliced(parts.skip(2))
    }
}

/// A slide without a marker is left as it is.
pub proof fn lemma_extract_plain(s: Seq<char>)
    requires
        plain(s),
    ensures
        !has_marker(s),
        extract(s) == s,
{
    lemma_find_marker(s, 0);
}

/// In a text that begins with a part without a marker and a marker after it,
/// that marker is the first, and what follows it is the rest of the text.
pub proof fn lemma_first_marker(a: Seq<char>, rest: Seq<char>)
    requires
        plain(a),
    ensures
        has_marker(a + marker() + rest),
        before_marker(a + marker() + rest) == a,
        after_marker(a + marker() + rest) == rest,
{
    let s = a + marker() + rest;
    let n = a.len() as int;
    assert(marker_at(s, n));
    assert forall|k: int| 0 <= k < n implies !marker_at(s, k) by {
        if k + 2 < n {
            assert(!marker_at(a, k));
        }
    }
    lemma_find_marker(s, 0);
}

/// Fences come in pairs. In a text made of parts without a marker, with one
/// marker between each two neighbours, the parts between the first and the
/// second marker, the third and the fourth, and so on, are encoded; the parts
/// outside are left as they are; the markers are dropped. With an odd number
/// of markers the last part is encoded to its end.
pub proof fn lemma_extract_pairs(parts: Seq<Seq<char>>)
    requires
        forall|i: int| 0 <= i < parts.len() ==> plain(#[trigger] parts[i]),
    ensures
        extract(fenced(parts)) == spliced(parts),
    decreases parts.len(),
{
    if parts.len() == 0 {
        lemma_extract_plain(fenced(parts));
    } else if parts.len() == 1 {
        lemma_extract_plain(parts[0]);
    } else {
        let inner = parts.drop_first();
        lemma_first_marker(parts[0], fenced(inner));
        if parts.len() == 2 {
            lemma_extract_plain(parts[1]);
        } else {
            let outer = inner.drop_first();
            assert(outer =~= parts.skip(2));
            lemma_first_marker(parts[1], fenced(outer));
            lemma_extract_pairs(outer);
        }
    }
}

} // verus!
