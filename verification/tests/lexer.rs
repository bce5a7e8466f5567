use ratpoint::lexer::tokenize;
use ratpoint::text::is_whitespace;

fn strings(words: &[&str]) -> Vec<String> {
    words.iter().map(|w| w.to_string()).collect()
}

fn round_trip(source: &str) {
    let tokens = tokenize(source);
    assert_eq!(tokens.concat(), source);
    assert!(tokens.iter().all(|t| !t.is_empty()));
}

#[test]
fn empty_input_has_no_tokens() {
    assert_eq!(tokenize(""), Vec::<String>::new());
}

#[test]
fn words_and_spaces_are_tokens() {
    assert_eq!(tokenize("let x = 1;"), strings(&["let", " ", "x", " ", "=", " ", "1", ";"]));
}

#[test]
fn last_word_is_kept() {
    assert_eq!(tokenize("abc"), strings(&["abc"]));
    assert_eq!(tokenize("a b"), strings(&["a", " ", "b"]));
}

#[test]
fn every_punctuation_mark_is_a_token() {
    let marks = "{}();<>[]&@,=+-*|";
    let expected: Vec<String> = marks.chars().map(|c| c.to_string()).collect();
    assert_eq!(tokenize(marks), expected);
    assert_eq!(tokenize("a{b}c"), strings(&["a", "{", "b", "}", "c"]));
}

#[test]
fn whitespace_characters_are_single_tokens() {
    assert_eq!(tokenize("a \t\nb"), strings(&["a", " ", "\t", "\n", "b"]));
    assert_eq!(tokenize("a\u{a0}b\u{3000}"), strings(&["a", "\u{a0}", "b", "\u{3000}"]));
}

#[test]
fn whitespace_is_what_the_standard_library_says() {
    let mut code: u32 = 0;
    while code <= 0x10ffff {
        if let Some(c) = char::from_u32(code) {
            assert_eq!(is_whitespace(c), c.is_whitespace(), "U+{:04X}", code);
        }
        code += 1;
    }
}

#[test]
fn string_literal_is_one_token() {
    assert_eq!(
        tokenize("x = \"a b; c\";"),
        strings(&["x", " ", "=", " ", "\"a b; c\"", ";"])
    );
}

#[test]
fn char_literal_is_one_token() {
    assert_eq!(tokenize("c='{';"), strings(&["c", "=", "'{'", ";"]));
}

#[test]
fn a_quote_ends_the_word_before_it() {
    assert_eq!(tokenize("b\"x\"y"), strings(&["b", "\"x\"", "y"]));
    assert_eq!(tokenize("b'x'y"), strings(&["b", "'x'", "y"]));
}

#[test]
fn a_quote_of_the_other_kind_does_not_close() {
    assert_eq!(tokenize("\"it's\" x"), strings(&["\"it's\"", " ", "x"]));
    assert_eq!(tokenize("'\"' x"), strings(&["'\"'", " ", "x"]));
}

#[test]
fn unterminated_string_runs_to_the_end() {
    assert_eq!(tokenize("a \"b c"), strings(&["a", " ", "\"b c"]));
    assert_eq!(tokenize("\""), strings(&["\""]));
}

#[test]
fn unterminated_char_literal_runs_to_the_end() {
    assert_eq!(tokenize("a 'b c"), strings(&["a", " ", "'b c"]));
}

#[test]
fn line_comment_stops_before_the_line_feed() {
    assert_eq!(
        tokenize("a // c d\nb"),
        strings(&["a", " ", "// c d", "\n", "b"])
    );
    assert_eq!(tokenize("//\nb"), strings(&["//", "\n", "b"]));
}

#[test]
fn line_comment_runs_to_the_end_of_input() {
    assert_eq!(tokenize("x//y z"), strings(&["x", "//y z"]));
    assert_eq!(tokenize("//"), strings(&["//"]));
}

#[test]
fn block_comment_is_one_token() {
    assert_eq!(tokenize("/* a */ b"), strings(&["/* a */", " ", "b"]));
    assert_eq!(tokenize("x/**/y"), strings(&["x", "/**/", "y"]));
    assert_eq!(tokenize("/* a; \"b\" */"), strings(&["/* a; \"b\" */"]));
}

#[test]
fn block_comment_nests() {
    assert_eq!(
        tokenize("/* a /* b */ c */ d"),
        strings(&["/* a /* b */ c */", " ", "d"])
    );
    assert_eq!(
        tokenize("/* /* /* */ */ */ d */"),
        strings(&["/* /* /* */ */ */", " ", "d", " ", "*", "/"])
    );
}

#[test]
fn block_comment_marks_may_share_a_character() {
    assert_eq!(tokenize("/*/ x"), strings(&["/*/", " ", "x"]));
    assert_eq!(
        tokenize("/* /* a */* b */ c */ d"),
        strings(&["/* /* a */* b */ c */", " ", "d"])
    );
}

#[test]
fn unterminated_block_comment_runs_to_the_end() {
    assert_eq!(tokenize("a /* b c"), strings(&["a", " ", "/* b c"]));
    assert_eq!(tokenize("/* a /* b */ c"), strings(&["/* a /* b */ c"]));
}

#[test]
fn bare_slash_is_a_token() {
    assert_eq!(tokenize("a/b"), strings(&["a", "/", "b"]));
    assert_eq!(tokenize("a/"), strings(&["a", "/"]));
}

#[test]
fn path_marker_stays_with_the_next_segment() {
    assert_eq!(tokenize("a::b"), strings(&["a", "::b"]));
    assert_eq!(
        tokenize("std::vec::Vec"),
        strings(&["std", "::vec", "::Vec"])
    );
    assert_eq!(tokenize("::a"), strings(&["::a"]));
}

#[test]
fn single_colon_is_part_of_the_word() {
    assert_eq!(tokenize("x: u8"), strings(&["x:", " ", "u8"]));
    assert_eq!(tokenize("a:"), strings(&["a:"]));
}

#[test]
fn three_colons_split_after_the_first() {
    assert_eq!(tokenize("a:::b"), strings(&["a", ":", "::b"]));
}

#[test]
fn tokens_put_together_are_the_input() {
    round_trip("");
    round_trip("fn main() { println!(\"hi\"); }");
    round_trip("use std::io::Read; // comment\nlet x: u8 = b'a';");
    round_trip("/* open /* nested */ never closed");
    round_trip("\"never closed");
    round_trip("'");
    round_trip("a:::b::c:");
    round_trip("tab\there\r\nnext \u{2003}wide");
    round_trip("é ü • ‣ 日本語");
    round_trip("x / y // z");
}

#[test]
fn tokenizing_never_fails() {
    for source in ["\"", "'", "/*", "/", "//", ":", "::", "\\", "/*/", "/**", "*/"] {
        round_trip(source);
    }
}
