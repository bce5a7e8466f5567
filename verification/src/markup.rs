//! The markup of a slide, and what it means.
//!
//! A slide is read once, from left to right. A backslash, a line feed or a
//! full stop may begin a directive; every other character is text. The meaning
//! of a slide is the list of operations that draw it, and the state in which
//! the pass over it ends.
//!
//! - `\\` prints a backslash.
//! - `\f` and a letter set the style, `\c` and a letter the colour.
//! - `\*` goes in by a step and prints a bullet, `\<` goes out by a step
//!   and prints one, `\-` prints the bullet of the line again.
//! - Two line feeds end the paragraph and the indentation; one line feed
//!   begins a line that is indented.
//! - `.HD` begins a heading, which runs to the end of the line.

use vstd::prelude::*;
use crate::display::{Color, OpModel};
use crate::lexer::{find, lemma_find};
use crate::text::white_space;

verus! {

/// The width of one step of indentation, in columns.
pub const INDENT_STEP: usize = 5;

/// The number of columns that are erased when a bullet is moved out by a step.
pub const ERASE_WIDTH: usize = 10;

/// The state of the interpreter between two directives.
#[derive(Clone, Copy, Debug, PartialEq, Eq)]
pub struct RenderState {
    /// The indentation, in steps of `INDENT_STEP` columns.
    pub level: usize,
    /// Whether bold is on.
    pub bold: bool,
    /// Whether underline is on.
    pub underline: bool,
    /// The foreground colour.
    pub color: Color,
}

/// What a `RenderState` stands for.
pub struct StateModel {
    pub level: nat,
    pub bold: bool,
    pub underline: bool,
    pub color: Color,
}

impl View for RenderState {
    type V = StateModel;

    open spec fn view(&self) -> StateModel {
        StateModel {
            level: self.level as nat,
            bold: self.bold,
            underline: self.underline,
            color: self.color,
        }
    }
}

impl RenderState {
    /// The indentation in columns, where that number can be held.
    pub fn indent(&self) -> (columns: Option<usize>)
        ensures
            match columns {
                Some(n) => n == indent(self.level as nat),
                None => indent(self.level as nat) > usize::MAX,
            },
    {
        if self.level <= usize::MAX / INDENT_STEP {
            Some(INDENT_STEP * self.level)
        } else {
            None
        }
    }
}

/// The state in which every pass begins: no indentation, plain style, white.
pub open spec fn initial() -> StateModel {
    StateModel { level: 0, bold: false, underline: false, color: Color::White }
}

/// What one step of the interpreter, or a whole pass, does: the operations it
/// gives out, in order, and the state it ends in.
pub struct Effect {
    pub ops: Seq<OpModel>,
    pub state: StateModel,
}

/// The indentation of `level` steps, in columns.
pub open spec fn indent(level: nat) -> nat {
    (INDENT_STEP * level) as nat
}

/// `n` spaces.
pub open spec fn spaces(n: nat) -> Seq<char> {
    Seq::new(n, |i: int| ' ')
}

/// The glyph of a bullet at the indentation `level`: one each for the first
/// three levels, and one for every other level.
pub open spec fn glyph(level: nat) -> char {
    if level == 1 {
        'o'
    } else if level == 2 {
        '•'
    } else if level == 3 {
        '>'
    } else {
        '‣'
    }
}

/// The bullet at the indentation `level`: its glyph in the middle of a cell of
/// `INDENT_STEP` columns.
pub open spec fn bullet(level: nat) -> Seq<char> {
    seq![' ', ' ', glyph(level), ' ', ' ']
}

/// The colour that a letter selects after `\c`.
pub open spec fn color_of(letter: char) -> Option<Color> {
    if letter == 'W' {
        Some(Color::White)
    } else if letter == 'B' {
        Some(Color::Black)
    } else if letter == 'b' {
        Some(Color::Blue)
    } else if letter == 'y' {
        Some(Color::Yellow)
    } else if letter == 'g' {
        Some(Color::Green)
    } else if letter == 'm' {
        Some(Color::Magenta)
    } else if letter == 'c' {
        Some(Color::Cyan)
    } else if letter == 'r' {
        Some(Color::Red)
    } else {
        None
    }
}

/// The effect of `\f` and the letter after it: `U` or `I` switches underline
/// on, `u` or `i` off; `B` switches bold on, `b` off; `R` switches both off.
/// Any other letter does nothing.
pub open spec fn style_effect(letter: char, st: StateModel) -> Effect {
    if letter == 'U' || letter == 'I' {
        Effect { ops: seq![OpModel::SetUnderline(true)], state: StateModel { underline: true, ..st } }
    } else if letter == 'u' || letter == 'i' {
        Effect {
            ops: seq![OpModel::SetUnderline(false)],
            state: StateModel { underline: false, ..st },
        }
    } else if letter == 'B' {
        Effect { ops: seq![OpModel::SetBold(true)], state: StateModel { bold: true, ..st } }
    } else if letter == 'b' {
        Effect { ops: seq![OpModel::SetBold(false)], state: StateModel { bold: false, ..st } }
    } else if letter == 'R' {
        Effect {
            ops: seq![OpModel::SetBold(false), OpModel::SetUnderline(false)],
            state: StateModel { bold: false, underline: false, ..st },
        }
    } else {
        Effect { ops: seq![], state: st }
    }
}

/// The effect of `\c` and the letter after it: sets the colour that the
/// letter selects. A letter that selects none does nothing.
pub open spec fn color_effect(letter: char, st: StateModel) -> Effect {
    match color_of(letter) {
        Some(color) => Effect {
            ops: seq![OpModel::SetForeground(color)],
            state: StateModel { color: color, ..st },
        },
        None => Effect { ops: seq![], state: st },
    }
}

/// The effect of the backslash at `pos` and of what it introduces.
///
/// - `\\` prints a backslash.
/// - `\f` and `\c` change style and colour by the letter that follows; at the
///   end of the slide they do nothing.
/// - `\*` indents by one step and prints the bullet of the new level.
/// - `\-` goes back to the first column and prints the bullet of the current
///   level at its place in the line.
/// - `\<` goes out by one step, unless there is no indentation, and erases
///   `ERASE_WIDTH` columns if it does; then it prints the bullet of the level
///   it is at.
/// - Before any other character, and at the end of the slide, the backslash is
///   printed as it is, and the character after it too.
pub open spec fn escape_effect(s: Seq<char>, pos: int, st: StateModel) -> Effect {
    if pos + 1 >= s.len() {
        Effect { ops: seq![OpModel::Print(seq!['\\'])], state: st }
    } else {
        let d = s[pos + 1];
        if d == '\\' {
            Effect { ops: seq![OpModel::Print(seq!['\\'])], state: st }
        } else if d == 'f' {
            if pos + 2 < s.len() {
                style_effect(s[pos + 2], st)
            } else {
                Effect { ops: seq![], state: st }
            }
        } else if d == 'c' {
            if pos + 2 < s.len() {
                color_effect(s[pos + 2], st)
            } else {
                Effect { ops: seq![], state: st }
            }
        } else if d == '*' {
            Effect {
                ops: seq![OpModel::Print(bullet(st.level + 1))],
                state: StateModel { level: st.level + 1, ..st },
            }
        } else if d == '-' {
            let before = if st.level == 0 {
                0nat
            } else {
                indent((st.level - 1) as nat)
            };
            Effect {
                ops: seq![OpModel::Print(seq!['\r'] + spaces(before) + bullet(st.level))],
                state: st,
            }
        } else if d == '<' {
            if st.level == 0 {
                Effect { ops: seq![OpModel::Print(bullet(0))], state: st }
            } else {
                let level = (st.level - 1) as nat;
                Effect {
                    ops: seq![
                        OpModel::MoveCursorBack(ERASE_WIDTH as nat),
                        OpModel::Print(bullet(level)),
                    ],
                    state: StateModel { level: level, ..st },
                }
            }
        } else {
            Effect { ops: seq![OpModel::Print(seq!['\\', d])], state: st }
        }
    }
}

/// The effect of the line feed at `pos`. Two line feeds in a row end the
/// paragraph: they are printed, and the indentation is given up. A single line
/// feed is printed and followed by as many spaces as the indentation has
/// columns, unless the slide ends with it; the character after it is read
/// next, as any other.
pub open spec fn newline_effect(s: Seq<char>, pos: int, st: StateModel) -> Effect {
    if pos + 1 < s.len() && s[pos + 1] == '\n' {
        Effect { ops: seq![OpModel::Print(seq!['\n', '\n'])], state: StateModel { level: 0, ..st } }
    } else if pos + 1 < s.len() {
        Effect {
            ops: seq![OpModel::Print(seq!['\n'] + spaces(indent(st.level)))],
            state: st,
        }
    } else {
        Effect { ops: seq![OpModel::Print(seq!['\n'])], state: st }
    }
}

/// Whether the heading directive `.HD` begins at `pos`.
pub open spec fn heading_at(s: Seq<char>, pos: int) -> bool {
    0 <= pos && pos + 2 < s.len() && s[pos] == '.' && s[pos + 1] == 'H' && s[pos + 2] == 'D'
}

/// The index of the first character in `s[from..to]` that is not whitespace,
/// or `to` where there is none.
pub open spec fn skip_space(s: Seq<char>, from: int, to: int) -> int
    decreases to - from,
{
    if from >= to {
        to
    } else if white_space(s[from]) {
        skip_space(s, from + 1, to)
    } else {
        from
    }
}

/// What stands before the text of a heading in the slide that draws it: a line
/// feed, two spaces, and the directives for bold and underline.
pub open spec fn heading_open() -> Seq<char> {
    seq!['\n', ' ', ' ', '\\', 'f', 'B', '\\', 'f', 'U']
}

/// What stands after the text of a heading in the slide that draws it: the
/// directive that ends bold and underline, and a line feed.
pub open spec fn heading_close() -> Seq<char> {
    seq!['\\', 'f', 'R', '\n']
}

/// Where the heading that begins at `pos` ends: at the next line feed, or at
/// the end of the slide.
pub open spec fn heading_end(s: Seq<char>, pos: int) -> int {
    find(s, '\n', pos + 3)
}

/// The slide that draws the heading that begins at `pos`: the text of the
/// heading, which runs from the directive to the end of the line, without the
/// whitespace that it begins with, on a line of its own, in bold and
/// underlined.
pub open spec fn heading_slide(s: Seq<char>, pos: int) -> Seq<char> {
    let end = heading_end(s, pos);
    heading_open() + s.subrange(skip_space(s, pos + 3, end), end) + heading_close()
}

/// Where the interpreter reads on after the step at `pos`.
pub open spec fn advance(s: Seq<char>, pos: int) -> int {
    let c = s[pos];
    if c == '\\' {
        if pos + 1 < s.len() && (s[pos + 1] == 'f' || s[pos + 1] == 'c') {
            if pos + 2 < s.len() {
                pos + 3
            } else {
                pos + 2
            }
        } else if pos + 1 < s.len() {
            pos + 2
        } else {
            pos + 1
        }
    } else if c == '\n' {
        if pos + 1 < s.len() && s[pos + 1] == '\n' {
            pos + 2
        } else {
            pos + 1
        }
    } else if c == '.' {
        if heading_at(s, pos) {
            heading_end(s, pos)
        } else if pos + 1 < s.len() {
            pos + 2
        } else {
            pos + 1
        }
    } else {
        pos + 1
    }
}

/// The effect of the step at `pos`, where no heading begins there. A full stop
/// is printed together with the character after it. A character that begins
/// no directive is printed.
pub open spec fn plain_effect(s: Seq<char>, pos: int, st: StateModel) -> Effect {
    let c = s[pos];
    if c == '\\' {
        escape_effect(s, pos, st)
    } else if c == '\n' {
        newline_effect(s, pos, st)
    } else if c == '.' && pos + 1 < s.len() {
        Effect { ops: seq![OpModel::Print(seq!['.', s[pos + 1]])], state: st }
    } else {
        Effect { ops: seq![OpModel::Print(seq![c])], state: st }
    }
}

/// The number of full stops in `s`.
pub open spec fn dots(s: Seq<char>) -> nat
    decreases s.len(),
{
    if s.len() == 0 {
        0
    } else {
        dots(s.drop_last()) + if s.last() == '.' {
            1nat
        } else {
            0nat
        }
    }
}

/// The full stops of two texts add up.
pub proof fn lemma_dots_concat(a: Seq<char>, b: Seq<char>)
    ensures
        dots(a + b) == dots(a) + dots(b),
    decreases b.len(),
{
    if b.len() > 0 {
        assert((a + b).drop_last() =~= a + b.drop_last());
        lemma_dots_concat(a, b.drop_last());
    }
}

/// A text without a full stop counts none.
pub proof fn lemma_dots_none(s: Seq<char>)
    requires
        forall|i: int| 0 <= i < s.len() ==> s[i] != '.',
    ensures
        dots(s) == 0,
    decreases s.len(),
{
    if s.len() > 0 {
        lemma_dots_none(s.drop_last());
    }
}

/// `skip_space` stays within its range.
pub proof fn lemma_skip_space(s: Seq<char>, from: int, to: int)
    requires
        from <= to,
    ensures
        from <= skip_space(s, from, to) <= to,
    decreases to - from,
{
    if from < to && white_space(s[from]) {
        lemma_skip_space(s, from + 1, to);
    }
}

/// The slide that draws a heading has fewer full stops than the slide that
/// holds the heading: the one of the directive is gone.
pub proof fn lemma_heading_dots(s: Seq<char>, pos: int)
    requires
        heading_at(s, pos),
    ensures
        dots(heading_slide(s, pos)) < dots(s),
{
    let end = heading_end(s, pos);
    lemma_find(s, '\n', pos + 3);
    let from = skip_space(s, pos + 3, end);
    lemma_skip_space(s, pos + 3, end);
    let text = s.subrange(from, end);
    lemma_dots_none(heading_open());
    lemma_dots_none(heading_close());
    lemma_dots_concat(heading_open(), text);
    lemma_dots_concat(heading_open() + text, heading_close());
    let head = s.subrange(0, pos + 1);
    let mid = s.subrange(pos + 1, from);
    let tail = s.subrange(end, s.len() as int);
    assert(s =~= head + mid + text + tail);
    lemma_dots_concat(head, mid);
    lemma_dots_concat(head + mid, text);
    lemma_dots_concat(head + mid + text, tail);
}

/// The interpreter always moves on, and never past the end.
pub proof fn lemma_advance(s: Seq<char>, pos: int)
    requires
        0 <= pos < s.len(),
    ensures
        pos < advance(s, pos) <= s.len(),
{
    if heading_at(s, pos) {
        lemma_find(s, '\n', pos + 3);
    }
}

/// The operations with which a pass begins: the screen is cleared where
/// `clear` asks for it, and style and colour are set to plain and white.
pub open spec fn entry_ops(clear: bool) -> Seq<OpModel> {
    let reset = seq![
        OpModel::SetBold(false),
        OpModel::SetUnderline(false),
        OpModel::SetForeground(Color::White),
    ];
    if clear {
        seq![OpModel::Clear] + reset
    } else {
        reset
    }
}

/// The effect of interpreting `s` from `pos` on, in the state `st`.
///
/// A heading is drawn by a pass of its own over the slide that draws it. That
/// pass does not clear the screen. It sets style and colour as every pass does
/// and leaves them as it ends; the indentation of the slide that holds the
/// heading is not touched by it.
pub open spec fn run(s: Seq<char>, pos: int, st: StateModel) -> Effect
    decreases dots(s), s.len() - pos,
{
    if pos < 0 || pos >= s.len() {
        Effect { ops: seq![], state: st }
    } else {
        proof {
            lemma_advance(s, pos);
            if heading_at(s, pos) {
                lemma_heading_dots(s, pos);
            }
        }
        let here = if heading_at(s, pos) {
            let drawn = pass(heading_slide(s, pos), false);
            Effect { ops: drawn.ops, state: StateModel { level: st.level, ..drawn.state } }
        } else {
            plain_effect(s, pos, st)
        };
        let rest = run(s, advance(s, pos), here.state);
        Effect { ops: here.ops + rest.ops, state: rest.state }
    }
}

/// The effect of one pass over the slide `s`.
pub open spec fn pass(s: Seq<char>, clear: bool) -> Effect
    decreases dots(s), s.len() + 1,
{
    let body = run(s, 0, initial());
    Effect { ops: entry_ops(clear) + body.ops, state: body.state }
}

/// Two line feeds in a row end the paragraph, whatever the indentation was:
/// they are printed, and the rest of the slide is interpreted without
/// indentation.
pub proof fn lemma_paragraph_break(s: Seq<char>, pos: int, st: StateModel)
    requires
        0 <= pos,
        pos + 1 < s.len(),
        s[pos] == '\n',
        s[pos + 1] == '\n',
    ensures
        run(s, pos, st).ops == seq![OpModel::Print(seq!['\n', '\n'])] + run(
            s,
            pos + 2,
            StateModel { level: 0, ..st },
        ).ops,
        run(s, pos, st).state == run(s, pos + 2, StateModel { level: 0, ..st }).state,
{
}

/// `\*` goes in by one step, whatever the indentation was, and prints the
/// bullet of the level it comes to.
pub proof fn lemma_indent(s: Seq<char>, pos: int, st: StateModel)
    requires
        0 <= pos,
        pos + 1 < s.len(),
        s[pos] == '\\',
        s[pos + 1] == '*',
    ensures
        run(s, pos, st).ops == seq![OpModel::Print(bullet(st.level + 1))] + run(
            s,
            pos + 2,
            StateModel { level: st.level + 1, ..st },
        ).ops,
        run(s, pos, st).state == run(s, pos + 2, StateModel { level: st.level + 1, ..st }).state,
        indent(st.level + 1) == indent(st.level) + INDENT_STEP,
{
}

/// `\<` goes out by one step where there is indentation: it erases
/// `ERASE_WIDTH` columns and prints the bullet of the level it comes to.
pub proof fn lemma_outdent(s: Seq<char>, pos: int, st: StateModel)
    requires
        0 <= pos,
        pos + 1 < s.len(),
        s[pos] == '\\',
        s[pos + 1] == '<',
        st.level > 0,
    ensures
        run(s, pos, st).ops == seq![
            OpModel::MoveCursorBack(ERASE_WIDTH as nat),
            OpModel::Print(bullet((st.level - 1) as nat)),
        ] + run(s, pos + 2, StateModel { level: (st.level - 1) as nat, ..st }).ops,
        run(s, pos, st).state == run(
            s,
            pos + 2,
            StateModel { level: (st.level - 1) as nat, ..st },
        ).state,
{
}

} // verus!
