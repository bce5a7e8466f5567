//! The lexer: splits source code into lexemes without losing a character.
//!
//! Ordinary characters gather into a word. A whitespace character, a
//! punctuation mark, a quoted literal, a comment or a lone `/` ends the word
//! that was being gathered and forms a token of its own. A `:` that is followed
//! by another `:` ends the word too and begins the next one, so that in `a::b`
//! the path marker stays with `b`.

use vstd::prelude::*;
use vstd::seq_lib::lemma_flatten_concat;
use crate::text::{copy_range, is_whitespace, to_chars, to_string, white_space};

verus! {

/// The punctuation marks that are tokens by themselves.
pub open spec fn punctuation(c: char) -> bool {
    ||| c == '{'
    ||| c == '}'
    ||| c == '('
    ||| c == ')'
    ||| c == ';'
    ||| c == '<'
    ||| c == '>'
    ||| c == '['
    ||| c == ']'
    ||| c == '&'
    ||| c == '@'
    ||| c == ','
    ||| c == '='
    ||| c == '+'
    ||| c == '-'
    ||| c == '*'
    ||| c == '|'
}

/// The index of the first `c` in `s` at or after `from`, or the length of `s`
/// where there is none.
pub open spec fn find(s: Seq<char>, c: char, from: int) -> int
    decreases s.len() - from,
{
    if from >= s.len() {
        s.len() as int
    } else if s[from] == c {
        from
    } else {
        find(s, c, from + 1)
    }
}

/// Whether `/*` begins at `k`.
pub open spec fn opens_at(s: Seq<char>, k: int) -> bool {
    k + 1 < s.len() && s[k] == '/' && s[k + 1] == '*'
}

/// Whether `*/` begins at `k`.
pub open spec fn closes_at(s: Seq<char>, k: int) -> bool {
    k + 1 < s.len() && s[k] == '*' && s[k + 1] == '/'
}

/// Where the block comment ends (exclusive) that is read at `k` at the nesting
/// depth `depth`: just past the `*/` that closes the outermost comment, or at
/// the end of `s` where that never comes. An opening `/*` and a closing `*/`
/// are looked for at every character, also where they share one with their
/// neighbour.
pub open spec fn block_end(s: Seq<char>, k: int, depth: nat) -> int
    decreases s.len() - k,
{
    if k >= s.len() {
        s.len() as int
    } else if opens_at(s, k) {
        block_end(s, k + 1, depth + 1)
    } else if closes_at(s, k) {
        if depth <= 1 {
            k + 2
        } else {
            block_end(s, k + 1, (depth - 1) as nat)
        }
    } else {
        block_end(s, k + 1, depth)
    }
}

/// Where the token that begins at `pos` ends (exclusive), for a character that
/// begins a token of its own; `pos` itself for an ordinary character.
///
/// - A whitespace character or a punctuation mark is a token of one character.
/// - A quote begins a literal that runs up to and including the next quote of
///   the same kind, or to the end of `s`.
/// - `//` begins a comment that runs up to the next line feed, which is not
///   part of it, or to the end of `s`.
/// - `/*` begins a comment that nests. It ends with the `*/` that closes the
///   outermost comment, or at the end of `s`.
/// - Any other `/` is a token of one character.
pub open spec fn token_end(s: Seq<char>, pos: int) -> int {
    let c = s[pos];
    if white_space(c) || punctuation(c) {
        pos + 1
    } else if c == '"' || c == '\'' {
        if find(s, c, pos + 1) < s.len() {
            find(s, c, pos + 1) + 1
        } else {
            s.len() as int
        }
    } else if c == '/' {
        if pos + 1 < s.len() && s[pos + 1] == '/' {
            find(s, '\n', pos + 2)
        } else if pos + 1 < s.len() && s[pos + 1] == '*' {
            block_end(s, pos + 1, 1)
        } else {
            pos + 1
        }
    } else {
        pos
    }
}

/// Whether a path marker `::` begins at `pos`.
pub open spec fn path_marker(s: Seq<char>, pos: int) -> bool {
    pos + 1 < s.len() && s[pos] == ':' && s[pos + 1] == ':'
}

/// The word gathered in `s[start..pos]` as a list of tokens: one token, or
/// none where the range is empty.
pub open spec fn word(s: Seq<char>, start: int, pos: int) -> Seq<Seq<char>> {
    if start < pos {
        seq![s.subrange(start, pos)]
    } else {
        seq![]
    }
}

/// The tokens of `s[start..]`, where `s[start..pos]` is the word gathered so
/// far and `pos` is the next character to read.
pub open spec fn lex_from(s: Seq<char>, start: int, pos: int) -> Seq<Seq<char>>
    decreases s.len() - pos,
{
    if pos >= s.len() {
        word(s, start, s.len() as int)
    } else if pos < token_end(s, pos) <= s.len() {
        word(s, start, pos).push(s.subrange(pos, token_end(s, pos))) + lex_from(
            s,
            token_end(s, pos),
            token_end(s, pos),
        )
    } else if path_marker(s, pos) {
        word(s, start, pos) + lex_from(s, pos, pos + 1)
    } else {
        lex_from(s, start, pos + 1)
    }
}

/// The tokens of `s`, in order.
pub open spec fn lex(s: Seq<char>) -> Seq<Seq<char>> {
    lex_from(s, 0, 0)
}

/// `find` stays within `s` and stops at the first `c`.
pub proof fn lemma_find(s: Seq<char>, c: char, from: int)
    requires
        0 <= from <= s.len(),
    ensures
        from <= find(s, c, from) <= s.len(),
        find(s, c, from) < s.len() ==> s[find(s, c, from)] == c,
        forall|k: int| from <= k < find(s, c, from) ==> s[k] != c,
    decreases s.len() - from,
{
    if from < s.len() && s[from] != c {
        lemma_find(s, c, from + 1);
    }
}

/// `block_end` lies after `k` and within `s`.
pub proof fn lemma_block_end(s: Seq<char>, k: int, depth: nat)
    requires
        0 <= k <= s.len(),
    ensures
        k <= block_end(s, k, depth) <= s.len(),
        k < s.len() ==> k < block_end(s, k, depth),
    decreases s.len() - k,
{
    if k < s.len() {
        if opens_at(s, k) {
            lemma_block_end(s, k + 1, depth + 1);
        } else if closes_at(s, k) {
            if depth > 1 {
                lemma_block_end(s, k + 1, (depth - 1) as nat);
            }
        } else {
            lemma_block_end(s, k + 1, depth);
        }
    }
}

/// A token that begins at `pos` ends within `s`.
pub proof fn lemma_token_end(s: Seq<char>, pos: int)
    requires
        0 <= pos < s.len(),
    ensures
        pos <= token_end(s, pos) <= s.len(),
{
    lemma_find(s, s[pos], pos + 1);
    if pos + 1 < s.len() {
        lemma_find(s, '\n', pos + 2);
    }
    lemma_block_end(s, pos + 1, 1);
}

/// The gathered word, put back together, is the range it was gathered from.
pub proof fn lemma_word(s: Seq<char>, start: int, pos: int)
    requires
        0 <= start <= pos <= s.len(),
    ensures
        word(s, start, pos).flatten() == s.subrange(start, pos),
        forall|i: int| 0 <= i < word(s, start, pos).len() ==> word(s, start, pos)[i].len() > 0,
{
    if start < pos {
        word(s, start, pos).lemma_flatten_one_element();
    }
}

/// The tokens from any state of the lexer, put back together, are the rest of
/// the input from the start of the gathered word, and none of them is empty.
pub proof fn lemma_lex_from(s: Seq<char>, start: int, pos: int)
    requires
        0 <= start <= pos <= s.len(),
    ensures
        lex_from(s, start, pos).flatten() == s.subrange(start, s.len() as int),
        forall|i: int|
            0 <= i < lex_from(s, start, pos).len() ==> (#[trigger] lex_from(s, start, pos)[i]).len()
                > 0,
    decreases s.len() - pos,
{
    let end = s.len() as int;
    if pos >= s.len() {
        lemma_word(s, start, end);
    } else if pos < token_end(s, pos) <= s.len() {
        let e = token_end(s, pos);
        let head = word(s, start, pos).push(s.subrange(pos, e));
        let rest = lex_from(s, e, e);
        lemma_word(s, start, pos);
        lemma_lex_from(s, e, e);
        word(s, start, pos).lemma_flatten_push(s.subrange(pos, e));
        lemma_flatten_concat(head, rest);
    } else if path_marker(s, pos) {
        lemma_word(s, start, pos);
        lemma_lex_from(s, pos, pos + 1);
        lemma_flatten_concat(word(s, start, pos), lex_from(s, pos, pos + 1));
    } else {
        lemma_lex_from(s, start, pos + 1);
    }
}

/// The lexer loses nothing: the tokens of `s`, concatenated in order, are `s`,
/// and no token is empty.
pub proof fn lemma_lex_round_trip(s: Seq<char>)
    ensures
        lex(s).flatten() == s,
        forall|i: int| 0 <= i < lex(s).len() ==> (#[trigger] lex(s)[i]).len() > 0,
{
    lemma_lex_from(s, 0, 0);
}

/// The lexemes that a vector of tokens holds.
pub open spec fn lexemes(tokens: Seq<Vec<char>>) -> Seq<Seq<char>> {
    tokens.map_values(|t: Vec<char>| t@)
}

/// Whether `c` is a punctuation mark that is a token by itself.
pub fn is_punctuation(c: char) -> (b: bool)
    ensures
        b == punctuation(c),
{
    c == '{' || c == '}' || c == '(' || c == ')' || c == ';' || c == '<' || c == '>' || c == '['
        || c == ']' || c == '&' || c == '@' || c == ',' || c == '=' || c == '+' || c == '-' || c
        == '*' || c == '|'
}

/// Looks for the first `c` at or after `from`.
fn scan_for(chars: &[char], c: char, from: usize) -> (k: usize)
    requires
        from <= chars@.len(),
    ensures
        k == find(chars@, c, from as int),
        from <= k <= chars@.len(),
{
    let mut k: usize = from;
    while k < chars.len() && chars[k] != c
        invariant
            from <= k <= chars@.len(),
            find(chars@, c, k as int) == find(chars@, c, from as int),
        decreases chars@.len() - k,
    {
        k += 1;
    }
    k
}

/// Reads a block comment from its `*` at `from` to the end of the `*/` that
/// closes it.
fn scan_block(chars: &[char], from: usize) -> (k: usize)
    requires
        from <= chars@.len(),
    ensures
        k == block_end(chars@, from as int, 1),
        from <= k <= chars@.len(),
{
    let mut k: usize = from;
    let mut depth: usize = 1;
    while k < chars.len()
        invariant
            from <= k <= chars@.len(),
            1 <= depth <= k - from + 1,
            block_end(chars@, k as int, depth as nat) == block_end(chars@, from as int, 1),
        decreases chars@.len() - k,
    {
        if k + 1 < chars.len() && chars[k] == '/' && chars[k + 1] == '*' {
            depth += 1;
        } else if k + 1 < chars.len() && chars[k] == '*' && chars[k + 1] == '/' {
            if depth <= 1 {
                return k + 2;
            }
            depth -= 1;
        }
        k += 1;
    }
    k
}

/// Where the token that begins at `pos` ends.
fn scan_token(chars: &[char], pos: usize) -> (end: usize)
    requires
        pos < chars@.len(),
    ensures
        end == token_end(chars@, pos as int),
        pos <= end <= chars@.len(),
{
    let c = chars[pos];
    if is_whitespace(c) || is_punctuation(c) {
        pos + 1
    } else if c == '"' || c == '\'' {
        let k = scan_for(chars, c, pos + 1);
        if k < chars.len() {
            k + 1
        } else {
            k
        }
    } else if c == '/' {
        if pos + 1 < chars.len() && chars[pos + 1] == '/' {
            scan_for(chars, '\n', pos + 2)
        } else if pos + 1 < chars.len() && chars[pos + 1] == '*' {
            scan_block(chars, pos + 1)
        } else {
            pos + 1
        }
    } else {
        pos
    }
}

/// Splits `chars` into its tokens.
pub fn lex_chars(chars: &[char]) -> (tokens: Vec<Vec<char>>)
    ensures
        lexemes(tokens@) == lex(chars@),
{
    let mut tokens: Vec<Vec<char>> = Vec::new();
    let mut start: usize = 0;
    let mut pos: usize = 0;
    while pos < chars.len()
        invariant
            start <= pos <= chars@.len(),
            lexemes(tokens@) + lex_from(chars@, start as int, pos as int) == lex(chars@),
        decreases chars@.len() - pos,
    {
        let end = scan_token(chars, pos);
        if end > pos {
            if start < pos {
                tokens.push(copy_range(chars, start, pos));
            }
            tokens.push(copy_range(chars, pos, end));
            start = end;
            pos = end;
        } else if chars[pos] == ':' && pos + 1 < chars.len() && chars[pos + 1] == ':' {
            if start < pos {
                tokens.push(copy_range(chars, start, pos));
            }
            start = pos;
            pos = pos + 1;
        } else {
            pos = pos + 1;
        }
    }
    if start < pos {
        tokens.push(copy_range(chars, start, pos));
    }
    tokens
}

/// Splits `source` into its tokens. Every input has a tokenization: a literal
/// or a comment that is not closed runs to the end of the input. The tokens,
/// concatenated in order, are `source`, and none of them is empty.
pub fn tokenize(source: &str) -> (tokens: Vec<String>)
    ensures
        tokens.deep_view() == lex(source@),
        tokens.deep_view().flatten() == source@,
        forall|i: int| 0 <= i < tokens.len() ==> (#[trigger] tokens[i])@.len() > 0,
{
    let chars = to_chars(source);
    let parts = lex_chars(chars.as_slice());
    let mut tokens: Vec<String> = Vec::new();
    let mut i: usize = 0;
    while i < parts.len()
        invariant
            i <= parts.len(),
            tokens.len() == i,
            forall|j: int| 0 <= j < i ==> (#[trigger] tokens[j])@ == parts[j]@,
        decreases parts.len() - i,
    {
        tokens.push(to_string(parts[i].as_slice()));
        i += 1;
    }
    proof {
        assert(tokens.deep_view() =~= lexemes(parts@));
        lemma_lex_round_trip(source@);
        assert forall|i: int| 0 <= i < tokens.len() implies (#[trigger] tokens[i])@.len() > 0 by {
            assert(tokens[i]@ == lex(source@)[i]);
        }
    }
    tokens
}

} // verus!
