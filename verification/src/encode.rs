//! The encoder: wraps each token that has a category in a colour escape.
//!
//! A colour escape is a backslash, the letter `c` and the letter of a colour.
//! A wrapped token is closed with the escape of the neutral colour, `\cW`,
//! whatever colour was in force before: the encoding is flat and does not nest.

use vstd::prelude::*;
use crate::classify::{category, classify_chars, Category};
use crate::lexer::{lemma_lex_round_trip, lex, lex_chars, lexemes};
use crate::text::{append, to_chars, to_string};

verus! {

/// The letter that selects the colour of a category in a colour escape; that
/// of the neutral colour where the token has no category.
pub open spec fn color_letter(c: Category) -> char {
    match c {
        Category::ControlKeyword => 'r',
        Category::Modifier => 'g',
        Category::TypeOrStructure => 'm',
        Category::FunctionOrTrait => 'c',
        Category::Comment => 'b',
        Category::LiteralOrPath => 'y',
        Category::Uncategorized => 'W',
    }
}

/// The colour escape with the letter `letter`.
pub open spec fn color_escape(letter: char) -> Seq<char> {
    seq!['\\', 'c', letter]
}

/// One token, encoded: between the escape of its colour and the escape of the
/// neutral colour where it has a category, unchanged where it has none.
pub open spec fn encode_token(t: Seq<char>) -> Seq<char> {
    if category(t) == Category::Uncategorized {
        t
    } else {
        color_escape(color_letter(category(t))) + t + color_escape('W')
    }
}

/// The tokens, each encoded, concatenated in order.
pub open spec fn encode_all(tokens: Seq<Seq<char>>) -> Seq<char> {
    tokens.map_values(|t: Seq<char>| encode_token(t)).flatten()
}

/// Source code, encoded: its tokens, each encoded, in order.
pub open spec fn encode(s: Seq<char>) -> Seq<char> {
    encode_all(lex(s))
}

/// Encoding one more token appends its encoding.
pub proof fn lemma_encode_all_push(tokens: Seq<Seq<char>>, t: Seq<char>)
    ensures
        encode_all(tokens.push(t)) == encode_all(tokens) + encode_token(t),
{
    let f = |t: Seq<char>| encode_token(t);
    assert(tokens.push(t).map_values(f) =~= tokens.map_values(f).push(f(t)));
    tokens.map_values(f).lemma_flatten_push(f(t));
}

/// Tokens without a category pass through the encoder unchanged.
pub proof fn lemma_encode_all_plain(tokens: Seq<Seq<char>>)
    requires
        forall|i: int|
            0 <= i < tokens.len() ==> category(#[trigger] tokens[i]) == Category::Uncategorized,
    ensures
        encode_all(tokens) == tokens.flatten(),
{
    let f = |t: Seq<char>| encode_token(t);
    assert(tokens.map_values(f) =~= tokens);
}

/// Source code in which no token has a category is its own encoding.
pub proof fn lemma_encode_plain(s: Seq<char>)
    requires
        forall|i: int|
            0 <= i < lex(s).len() ==> category(#[trigger] lex(s)[i]) == Category::Uncategorized,
    ensures
        encode(s) == s,
{
    lemma_encode_all_plain(lex(s));
    lemma_lex_round_trip(s);
}

/// Appends the colour escape with the letter `letter` to `out`.
fn push_escape(out: &mut Vec<char>, letter: char)
    ensures
        final(out)@ == old(out)@ + color_escape(letter),
{
    out.push('\\');
    out.push('c');
    out.push(letter);
}

/// The letter of the colour of `c`.
fn letter_of(c: Category) -> (letter: char)
    ensures
        letter == color_letter(c),
{
    match c {
        Category::ControlKeyword => 'r',
        Category::Modifier => 'g',
        Category::TypeOrStructure => 'm',
        Category::FunctionOrTrait => 'c',
        Category::Comment => 'b',
        Category::LiteralOrPath => 'y',
        Category::Uncategorized => 'W',
    }
}

/// Appends the encoding of the token `t` to `out`.
pub fn encode_token_into(out: &mut Vec<char>, t: &[char])
    ensures
        final(out)@ == old(out)@ + encode_token(t@),
{
    let c = classify_chars(t);
    match c {
        Category::Uncategorized => {
            append(out, t);
        },
        _ => {
            push_escape(out, letter_of(c));
            append(out, t);
            push_escape(out, 'W');
        },
    }
}

/// The encoding of the source code `chars`.
pub fn encode_chars(chars: &[char]) -> (out: Vec<char>)
    ensures
        out@ == encode(chars@),
{
    let tokens = lex_chars(chars);
    let mut out: Vec<char> = Vec::new();
    let mut i: usize = 0;
    while i < tokens.len()
        invariant
            i <= tokens.len(),
            out@ == encode_all(lexemes(tokens@).take(i as int)),
        decreases tokens.len() - i,
    {
        encode_token_into(&mut out, tokens[i].as_slice());
        proof {
            let all = lexemes(tokens@);
            assert(all.take(i + 1) =~= all.take(i as int).push(tokens[i as int]@));
            lemma_encode_all_push(all.take(i as int), tokens[i as int]@);
        }
        i += 1;
    }
    assert(lexemes(tokens@).take(i as int) =~= lexemes(tokens@));
    out
}

/// The encoding of the single token `token`: wrapped in the escape of its
/// colour and the escape of the neutral colour, or unchanged where it has no
/// category.
pub fn encode_token_str(token: &str) -> (out: String)
    ensures
        out@ == encode_token(token@),
        category(token@) == Category::Uncategorized ==> out@ == token@,
{
    let t = to_chars(token);
    let mut out: Vec<char> = Vec::new();
    encode_token_into(&mut out, t.as_slice());
    to_string(out.as_slice())
}

/// Source code with each of its tokens in its colour: the tokens of `source`,
/// each encoded, in the order of the document.
pub fn color(source: &str) -> (out: String)
    ensures
        out@ == encode(source@),
{
    let chars = to_chars(source);
    let out = encode_chars(chars.as_slice());
    to_string(out.as_slice())
}

} // verus!
