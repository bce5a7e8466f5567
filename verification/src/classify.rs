//! The classifier: the syntax category of a token.
//!
//! Six predicates are tried in a fixed order and the first that holds decides.
//! The order matters where predicates overlap: `println!` ends with `!` and is
//! a modifier whatever else it looks like.

use vstd::prelude::*;
use crate::text::to_chars;

verus! {

/// The syntax category of a token, named with the colour it is shown in.
#[derive(Clone, Copy, Debug, PartialEq, Eq, Structural)]
pub enum Category {
    /// Red: a keyword of the module system.
    ControlKeyword,
    /// Green: a modifier, a binding keyword or a macro invocation.
    Modifier,
    /// Magenta: a keyword of control flow or of a type definition, or the name
    /// of a primitive number type.
    TypeOrStructure,
    /// Cyan: a keyword of functions and implementations, `bool` or `str`.
    FunctionOrTrait,
    /// Blue: a comment.
    Comment,
    /// Yellow: a quoted literal, a path segment or the marker word `Typ`.
    LiteralOrPath,
    /// None of the above.
    Uncategorized,
}

/// Red: one of the keywords of the module system.
pub open spec fn red(t: Seq<char>) -> bool {
    ||| t == "mod"@
    ||| t == "use"@
    ||| t == "extern"@
    ||| t == "crate"@
    ||| t == "self"@
}

/// Green: `mut`, `pub`, `as`, `let`, or a token that ends with `!`.
pub open spec fn green(t: Seq<char>) -> bool {
    ||| t == "mut"@
    ||| t == "pub"@
    ||| t == "as"@
    ||| t == "let"@
    ||| (t.len() > 0 && t.last() == '!')
}

/// Magenta: a keyword of control flow or of a type definition, or the name of
/// a primitive number type.
pub open spec fn magenta(t: Seq<char>) -> bool {
    ||| t == "match"@
    ||| t == "if"@
    ||| t == "else"@
    ||| t == "trait"@
    ||| t == "struct"@
    ||| t == "enum"@
    ||| t == "i8"@
    ||| t == "i16"@
    ||| t == "i32"@
    ||| t == "i64"@
    ||| t == "i128"@
    ||| t == "u8"@
    ||| t == "u16"@
    ||| t == "u32"@
    ||| t == "u64"@
    ||| t == "u128"@
    ||| t == "f32"@
    ||| t == "f64"@
    ||| t == "f128"@
    ||| t == "usize"@
    ||| t == "isize"@
}

/// Cyan: `fn`, `impl`, `bool` or `str`.
pub open spec fn cyan(t: Seq<char>) -> bool {
    ||| t == "fn"@
    ||| t == "impl"@
    ||| t == "bool"@
    ||| t == "str"@
}

/// Blue: a token that begins with `//` or with `/*`.
pub open spec fn blue(t: Seq<char>) -> bool {
    t.len() >= 2 && t[0] == '/' && (t[1] == '/' || t[1] == '*')
}

/// Yellow: the word `Typ`, a token that begins and ends with `"`, one that
/// begins and ends with `'`, or one that begins with `::`.
pub open spec fn yellow(t: Seq<char>) -> bool {
    ||| t == "Typ"@
    ||| (t.len() > 0 && t[0] == '"' && t.last() == '"')
    ||| (t.len() > 0 && t[0] == '\'' && t.last() == '\'')
    ||| (t.len() >= 2 && t[0] == ':' && t[1] == ':')
}

/// The category of `t`: that of the first predicate that holds, in the order
/// red, green, magenta, cyan, blue, yellow.
pub open spec fn category(t: Seq<char>) -> Category {
    if red(t) {
        Category::ControlKeyword
    } else if green(t) {
        Category::Modifier
    } else if magenta(t) {
        Category::TypeOrStructure
    } else if cyan(t) {
        Category::FunctionOrTrait
    } else if blue(t) {
        Category::Comment
    } else if yellow(t) {
        Category::LiteralOrPath
    } else {
        Category::Uncategorized
    }
}

/// Whether `t` spells `word`.
fn spells(t: &[char], word: &str) -> (b: bool)
    ensures
        b == (t@ == word@),
{
    let n = word.unicode_len();
    if t.len() != n {
        return false;
    }
    let mut i: usize = 0;
    while i < n
        invariant
            i <= n,
            n == t@.len(),
            n == word@.len(),
            forall|j: int| 0 <= j < i ==> t@[j] == word@[j],
        decreases n - i,
    {
        if t[i] != word.get_char(i) {
            return false;
        }
        i += 1;
    }
    assert(t@ =~= word@);
    true
}

pub(crate) fn red_chars(t: &[char]) -> (b: bool)
    ensures
        b == red(t@),
{
    spells(t, "mod") || spells(t, "use") || spells(t, "extern") || spells(t, "crate") || spells(
        t,
        "self",
    )
}

pub(crate) fn green_chars(t: &[char]) -> (b: bool)
    ensures
        b == green(t@),
{
    spells(t, "mut") || spells(t, "pub") || spells(t, "as") || spells(t, "let") || (t.len() > 0
        && t[t.len() - 1] == '!')
}

pub(crate) fn magenta_chars(t: &[char]) -> (b: bool)
    ensures
        b == magenta(t@),
{
    spells(t, "match") || spells(t, "if") || spells(t, "else") || spells(t, "trait") || spells(
        t,
        "struct",
    ) || spells(t, "enum") || spells(t, "i8") || spells(t, "i16") || spells(t, "i32") || spells(
        t,
        "i64",
    ) || spells(t, "i128") || spells(t, "u8") || spells(t, "u16") || spells(t, "u32") || spells(
        t,
        "u64",
    ) || spells(t, "u128") || spells(t, "f32") || spells(t, "f64") || spells(t, "f128") || spells(
        t,
        "usize",
    ) || spells(t, "isize")
}

pub(crate) fn cyan_chars(t: &[char]) -> (b: bool)
    ensures
        b == cyan(t@),
{
    spells(t, "fn") || spells(t, "impl") || spells(t, "bool") || spells(t, "str")
}

pub(crate) fn blue_chars(t: &[char]) -> (b: bool)
    ensures
        b == blue(t@),
{
    t.len() >= 2 && t[0] == '/' && (t[1] == '/' || t[1] == '*')
}

pub(crate) fn yellow_chars(t: &[char]) -> (b: bool)
    ensures
        b == yellow(t@),
{
    spells(t, "Typ") || (t.len() > 0 && t[0] == '"' && t[t.len() - 1] == '"') || (t.len() > 0
        && t[0] == '\'' && t[t.len() - 1] == '\'') || (t.len() >= 2 && t[0] == ':' && t[1]
        == ':')
}

/// The category of the token `t`.
pub fn classify_chars(t: &[char]) -> (c: Category)
    ensures
        c == category(t@),
{
    if red_chars(t) {
        Category::ControlKeyword
    } else if green_chars(t) {
        Category::Modifier
    } else if magenta_chars(t) {
        Category::TypeOrStructure
    } else if cyan_chars(t) {
        Category::FunctionOrTrait
    } else if blue_chars(t) {
        Category::Comment
    } else if yellow_chars(t) {
        Category::LiteralOrPath
    } else {
        Category::Uncategorized
    }
}

/// Whether `token` is shown in red.
pub fn is_red(token: &str) -> (b: bool)
    ensures
        b == red(token@),
{
    let t = to_chars(token);
    red_chars(t.as_slice())
}

/// Whether `token` meets the green predicate, whatever its category is.
pub fn is_green(token: &str) -> (b: bool)
    ensures
        b == green(token@),
{
    let t = to_chars(token);
    green_chars(t.as_slice())
}

/// Whether `token` meets the magenta predicate, whatever its category is.
pub fn is_magenta(token: &str) -> (b: bool)
    ensures
        b == magenta(token@),
{
    let t = to_chars(token);
    magenta_chars(t.as_slice())
}

/// Whether `token` meets the cyan predicate, whatever its category is.
pub fn is_cyan(token: &str) -> (b: bool)
    ensures
        b == cyan(token@),
{
    let t = to_chars(token);
    cyan_chars(t.as_slice())
}

/// Whether `token` meets the blue predicate, whatever its category is.
pub fn is_blue(token: &str) -> (b: bool)
    ensures
        b == blue(token@),
{
    let t = to_chars(token);
    blue_chars(t.as_slice())
}

/// Whether `token` meets the yellow predicate, whatever its category is.
pub fn is_yellow(token: &str) -> (b: bool)
    ensures
        b == yellow(token@),
{
    let t = to_chars(token);
    yellow_chars(t.as_slice())
}

/// The category of `token`. Every token has exactly one: the first of red,
/// green, magenta, cyan, blue and yellow whose predicate it meets, and
/// `Uncategorized` where it meets none.
pub fn classify(token: &str) -> (c: Category)
    ensures
        c == category(token@),
        (c == Category::ControlKeyword) == red(token@),
        (c == Category::Modifier) == (!red(token@) && green(token@)),
        (c == Category::TypeOrStructure) == (!red(token@) && !green(token@) && magenta(token@)),
        (c == Category::FunctionOrTrait) == (!red(token@) && !green(token@) && !magenta(token@)
            && cyan(token@)),
        (c == Category::Comment) == (!red(token@) && !green(token@) && !magenta(token@) && !cyan(
            token@,
        ) && blue(token@)),
        (c == Category::LiteralOrPath) == (!red(token@) && !green(token@) && !magenta(token@)
            && !cyan(token@) && !blue(token@) && yellow(token@)),
        (c == Category::Uncategorized) == (!red(token@) && !green(token@) && !magenta(token@)
            && !cyan(token@) && !blue(token@) && !yellow(token@)),
{
    let t = to_chars(token);
    classify_chars(t.as_slice())
}

} // verus!
