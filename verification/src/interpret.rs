//! The markup interpreter: turns a slide into the operations that draw it.

use vstd::prelude::*;
use crate::display::{
    absorb, coalesce, emit_op, emit_text, joined, lemma_absorb_concat, lemma_absorb_joined,
    ops_model, Color, OpModel, RenderOp,
};
use crate::lexer::find;
use crate::markup::{
    advance, bullet, color_effect, color_of, dots, entry_ops, escape_effect, heading_at,
    heading_close, heading_end, heading_open, heading_slide, indent, initial, lemma_advance,
    lemma_heading_dots, newline_effect, pass, plain_effect, run, skip_space, spaces,
    style_effect, Effect, RenderState, StateModel, ERASE_WIDTH,
};
use crate::text::{append, append_range, is_whitespace, to_chars};

verus! {

/// The bullet at the indentation `level`.
fn bullet_text(level: usize) -> (out: Vec<char>)
    ensures
        out@ == bullet(level as nat),
{
    let g = if level == 1 {
        'o'
    } else if level == 2 {
        '•'
    } else if level == 3 {
        '>'
    } else {
        '‣'
    };
    let mut out: Vec<char> = Vec::new();
    out.push(' ');
    out.push(' ');
    out.push(g);
    out.push(' ');
    out.push(' ');
    out
}

/// Appends the spaces of `level` steps of indentation to `out`.
fn push_indent(out: &mut Vec<char>, level: usize)
    ensures
        final(out)@ == old(out)@ + spaces(indent(level as nat)),
{
    let mut i: usize = 0;
    while i < level
        invariant
            i <= level,
            out@ == old(out)@ + spaces(indent(i as nat)),
        decreases level - i,
    {
        out.push(' ');
        out.push(' ');
        out.push(' ');
        out.push(' ');
        out.push(' ');
        i += 1;
    }
}

/// The colour that `letter` selects after `\c`.
fn color_for(letter: char) -> (color: Option<Color>)
    ensures
        color == color_of(letter),
{
    if letter == 'W' {
        Some(Color::White)
    } else if letter == 'B' {
        Some(Color::Black)
    } else if letter == 'b' {
        Some(Color::Blue)
    } else if letter == 'y' {
        Some(Color::Yellow)
    } else if letter == 'g' {
        Some(Color::Green)
    } else if letter == 'm' {
        Some(Color::Magenta)
    } else if letter == 'c' {
        Some(Color::Cyan)
    } else if letter == 'r' {
        Some(Color::Red)
    } else {
        None
    }
}

/// Carries out `\f` with the letter `letter`.
fn style_step(letter: char, state: RenderState, ops: &mut Vec<RenderOp>) -> (after: RenderState)
    ensures
        after@ == style_effect(letter, state@).state,
        ops_model(final(ops)@) == absorb(ops_model(old(ops)@), style_effect(letter, state@).ops),
{
    reveal_with_fuel(absorb, 3);
    let mut after = state;
    if letter == 'U' || letter == 'I' {
        emit_op(ops, RenderOp::SetUnderline(true));
        after.underline = true;
    } else if letter == 'u' || letter == 'i' {
        emit_op(ops, RenderOp::SetUnderline(false));
        after.underline = false;
    } else if letter == 'B' {
        emit_op(ops, RenderOp::SetBold(true));
        after.bold = true;
    } else if letter == 'b' {
        emit_op(ops, RenderOp::SetBold(false));
        after.bold = false;
    } else if letter == 'R' {
        emit_op(ops, RenderOp::SetBold(false));
        emit_op(ops, RenderOp::SetUnderline(false));
        after.bold = false;
        after.underline = false;
    }
    after
}

/// Carries out `\c` with the letter `letter`.
fn color_step(letter: char, state: RenderState, ops: &mut Vec<RenderOp>) -> (after: RenderState)
    ensures
        after@ == color_effect(letter, state@).state,
        ops_model(final(ops)@) == absorb(ops_model(old(ops)@), color_effect(letter, state@).ops),
{
    reveal_with_fuel(absorb, 2);
    let mut after = state;
    match color_for(letter) {
        Some(color) => {
            emit_op(ops, RenderOp::SetForeground(color));
            after.color = color;
        },
        None => {},
    }
    after
}

/// Carries out the backslash at `pos` and what it introduces.
fn escape_step(chars: &[char], pos: usize, state: RenderState, ops: &mut Vec<RenderOp>) -> (after:
    RenderState)
    requires
        pos < chars@.len(),
        chars@[pos as int] == '\\',
        state.level <= pos,
    ensures
        after@ == escape_effect(chars@, pos as int, state@).state,
        ops_model(final(ops)@) == absorb(
            ops_model(old(ops)@),
            escape_effect(chars@, pos as int, state@).ops,
        ),
        after.level <= advance(chars@, pos as int),
{
    reveal_with_fuel(absorb, 3);
    let mut after = state;
    let mut text: Vec<char> = Vec::new();
    if chars.len() - pos <= 1 {
        text.push('\\');
        emit_text(ops, text.as_slice());
        return after;
    }
    let d = chars[pos + 1];
    if d == '\\' {
        text.push('\\');
        emit_text(ops, text.as_slice());
    } else if d == 'f' {
        if pos + 2 < chars.len() {
            after = style_step(chars[pos + 2], state, ops);
        }
    } else if d == 'c' {
        if pos + 2 < chars.len() {
            after = color_step(chars[pos + 2], state, ops);
        }
    } else if d == '*' {
        after.level = state.level + 1;
        let cell = bullet_text(after.level);
        emit_text(ops, cell.as_slice());
    } else if d == '-' {
        text.push('\r');
        if state.level > 0 {
            push_indent(&mut text, state.level - 1);
        }
        let cell = bullet_text(state.level);
        append(&mut text, cell.as_slice());
        emit_text(ops, text.as_slice());
    } else if d == '<' {
        if state.level > 0 {
            after.level = state.level - 1;
            emit_op(ops, RenderOp::MoveCursorBack(ERASE_WIDTH));
        }
        let cell = bullet_text(after.level);
        emit_text(ops, cell.as_slice());
    } else {
        text.push('\\');
        text.push(d);
        assert(text@ =~= seq!['\\', d]);
        emit_text(ops, text.as_slice());
    }
    after
}

/// Carries out the line feed at `pos`.
fn newline_step(chars: &[char], pos: usize, state: RenderState, ops: &mut Vec<RenderOp>) -> (after:
    RenderState)
    requires
        pos < chars@.len(),
        chars@[pos as int] == '\n',
    ensures
        after@ == newline_effect(chars@, pos as int, state@).state,
        ops_model(final(ops)@) == absorb(
            ops_model(old(ops)@),
            newline_effect(chars@, pos as int, state@).ops,
        ),
        after.level <= state.level,
{
    reveal_with_fuel(absorb, 2);
    let mut after = state;
    let mut text: Vec<char> = Vec::new();
    text.push('\n');
    let more = chars.len() - pos > 1;
    if more && chars[pos + 1] == '\n' {
        text.push('\n');
        after.level = 0;
        assert(text@ =~= seq!['\n', '\n']);
    } else if more {
        push_indent(&mut text, state.level);
    }
    emit_text(ops, text.as_slice());
    after
}

/// Carries out the step at `pos`, where no heading begins there.
fn plain_step(chars: &[char], pos: usize, state: RenderState, ops: &mut Vec<RenderOp>) -> (after:
    RenderState)
    requires
        pos < chars@.len(),
        !heading_at(chars@, pos as int),
        state.level <= pos,
    ensures
        after@ == plain_effect(chars@, pos as int, state@).state,
        ops_model(final(ops)@) == absorb(
            ops_model(old(ops)@),
            plain_effect(chars@, pos as int, state@).ops,
        ),
        after.level <= advance(chars@, pos as int),
{
    reveal_with_fuel(absorb, 2);
    let c = chars[pos];
    if c == '\\' {
        escape_step(chars, pos, state, ops)
    } else if c == '\n' {
        newline_step(chars, pos, state, ops)
    } else {
        let mut text: Vec<char> = Vec::new();
        text.push(c);
        if c == '.' && pos + 1 < chars.len() {
            text.push(chars[pos + 1]);
            assert(text@ =~= seq!['.', chars@[pos + 1]]);
        }
        emit_text(ops, text.as_slice());
        state
    }
}

/// Where the interpreter reads on after the step at `pos`.
fn next_position(chars: &[char], pos: usize) -> (next: usize)
    requires
        pos < chars@.len(),
    ensures
        next == advance(chars@, pos as int),
        pos < next <= chars@.len(),
        heading_at(chars@, pos as int) ==> pos + 3 <= next,
{
    proof {
        lemma_advance(chars@, pos as int);
    }
    let c = chars[pos];
    let more = chars.len() - pos > 1;
    if c == '\\' {
        if more && (chars[pos + 1] == 'f' || chars[pos + 1] == 'c') {
            if pos + 2 < chars.len() {
                pos + 3
            } else {
                pos + 2
            }
        } else if more {
            pos + 2
        } else {
            pos + 1
        }
    } else if c == '\n' {
        if more && chars[pos + 1] == '\n' {
            pos + 2
        } else {
            pos + 1
        }
    } else if c == '.' {
        if chars.len() - pos > 2 && chars[pos + 1] == 'H' && chars[pos + 2] == 'D' {
            let mut end: usize = pos + 3;
            while end < chars.len() && chars[end] != '\n'
                invariant
                    pos + 3 <= end <= chars@.len(),
                    find(chars@, '\n', end as int) == find(chars@, '\n', pos + 3),
                decreases chars@.len() - end,
            {
                end += 1;
            }
            end
        } else if more {
            pos + 2
        } else {
            pos + 1
        }
    } else {
        pos + 1
    }
}

/// The slide that draws the heading that begins at `pos` and ends at `end`.
fn heading_chars(chars: &[char], pos: usize, end: usize) -> (slide: Vec<char>)
    requires
        heading_at(chars@, pos as int),
        end == heading_end(chars@, pos as int),
        pos + 3 <= end <= chars@.len(),
    ensures
        slide@ == heading_slide(chars@, pos as int),
{
    let mut from: usize = pos + 3;
    while from < end && is_whitespace(chars[from])
        invariant
            pos + 3 <= from <= end <= chars@.len(),
            skip_space(chars@, from as int, end as int) == skip_space(
                chars@,
                pos + 3,
                end as int,
            ),
        decreases end - from,
    {
        from += 1;
    }
    let mut slide: Vec<char> = Vec::new();
    slide.push('\n');
    slide.push(' ');
    slide.push(' ');
    slide.push('\\');
    slide.push('f');
    slide.push('B');
    slide.push('\\');
    slide.push('f');
    slide.push('U');
    append_range(&mut slide, chars, from, end);
    slide.push('\\');
    slide.push('f');
    slide.push('R');
    slide.push('\n');
    slide
}

/// Interprets the slide `chars` in one pass and adds its operations to `ops`,
/// joining text to text. Gives back the state in which the pass ends.
pub fn interpret_chars(chars: &[char], clear: bool, ops: &mut Vec<RenderOp>) -> (state: RenderState)
    ensures
        ops_model(final(ops)@) == absorb(ops_model(old(ops)@), pass(chars@, clear).ops),
        state@ == pass(chars@, clear).state,
    decreases dots(chars@),
{
    let ghost s = chars@;
    let ghost start = ops_model(ops@);
    if clear {
        emit_op(ops, RenderOp::Clear);
    }
    emit_op(ops, RenderOp::SetBold(false));
    emit_op(ops, RenderOp::SetUnderline(false));
    emit_op(ops, RenderOp::SetForeground(Color::White));
    proof {
        reveal_with_fuel(absorb, 5);
        lemma_absorb_concat(start, entry_ops(clear), run(s, 0, initial()).ops);
    }
    let mut state = RenderState { level: 0, bold: false, underline: false, color: Color::White };
    let mut pos: usize = 0;
    while pos < chars.len()
        invariant
            s == chars@,
            pos <= chars@.len(),
            state.level <= pos,
            absorb(ops_model(ops@), run(s, pos as int, state@).ops) == absorb(
                start,
                pass(s, clear).ops,
            ),
            run(s, pos as int, state@).state == pass(s, clear).state,
        decreases chars@.len() - pos,
    {
        let ghost before = ops_model(ops@);
        let ghost entered = state@;
        let next = next_position(chars, pos);
        if chars[pos] == '.' && chars.len() - pos > 2 && chars[pos + 1] == 'H' && chars[pos + 2]
            == 'D' {
            let slide = heading_chars(chars, pos, next);
            proof {
                lemma_heading_dots(s, pos as int);
            }
            let drawn = interpret_chars(slide.as_slice(), false, ops);
            state =
            RenderState {
                level: state.level,
                bold: drawn.bold,
                underline: drawn.underline,
                color: drawn.color,
            };
        } else {
            state = plain_step(chars, pos, state, ops);
        }
        proof {
            let here = if heading_at(s, pos as int) {
                let drawn = pass(heading_slide(s, pos as int), false);
                Effect { ops: drawn.ops, state: StateModel { level: entered.level, ..drawn.state } }
            } else {
                plain_effect(s, pos as int, entered)
            };
            let rest = run(s, next as int, here.state);
            lemma_absorb_concat(before, here.ops, rest.ops);
        }
        pos = next;
    }
    state
}

/// What the interpreter gives back: the operations that draw the slide, and
/// the state in which the pass ended.
#[derive(Clone, Debug, PartialEq, Eq)]
pub struct Rendering {
    pub ops: Vec<RenderOp>,
    pub state: RenderState,
}

/// Interprets the slide `text` in one pass and gives back the operations that
/// draw it, in order, with neighbouring pieces of text joined into one.
///
/// The pass begins without indentation. It clears the screen first where
/// `clear` asks for it, and then sets style and colour to plain and white. No
/// slide is refused: what is no directive is text.
pub fn interpret(text: &str, clear: bool) -> (out: Rendering)
    ensures
        ops_model(out.ops@) == coalesce(pass(text@, clear).ops),
        joined(ops_model(out.ops@)),
        out.state@ == pass(text@, clear).state,
{
    let chars = to_chars(text);
    let mut ops: Vec<RenderOp> = Vec::new();
    assert(ops_model(ops@) =~= Seq::<OpModel>::empty());
    let state = interpret_chars(chars.as_slice(), clear, &mut ops);
    proof {
        lemma_absorb_joined(Seq::empty(), pass(text@, clear).ops);
    }
    Rendering { ops, state }
}

} // verus!
