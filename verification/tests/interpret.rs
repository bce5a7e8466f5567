use ratpoint::display::{Color, RenderOp};
use ratpoint::interpret::{interpret, Rendering};
use ratpoint::markup::RenderState;

fn print(text: &str) -> RenderOp {
    RenderOp::Print(text.to_string())
}

fn reset() -> Vec<RenderOp> {
    vec![
        RenderOp::SetBold(false),
        RenderOp::SetUnderline(false),
        RenderOp::SetForeground(Color::White),
    ]
}

/// The operations of `text` after those with which every pass begins.
fn body(text: &str) -> Vec<RenderOp> {
    let Rendering { ops, .. } = interpret(text, false);
    assert_eq!(ops[..3], reset()[..]);
    ops[3..].to_vec()
}

fn level(text: &str) -> usize {
    interpret(text, false).state.level
}

#[test]
fn pass_begins_with_a_reset() {
    assert_eq!(interpret("", false).ops, reset());
    let mut cleared = vec![RenderOp::Clear];
    cleared.extend(reset());
    assert_eq!(interpret("", true).ops, cleared);
    assert_eq!(
        interpret("", true).state,
        RenderState { level: 0, bold: false, underline: false, color: Color::White }
    );
}

#[test]
fn plain_text_is_printed_in_one_piece() {
    assert_eq!(body("Hello, world"), vec![print("Hello, world")]);
}

#[test]
fn double_backslash_prints_one() {
    assert_eq!(body("a\\\\b"), vec![print("a\\b")]);
}

#[test]
fn style_directives() {
    assert_eq!(body("\\fU"), vec![RenderOp::SetUnderline(true)]);
    assert_eq!(body("\\fI"), vec![RenderOp::SetUnderline(true)]);
    assert_eq!(body("\\fu"), vec![RenderOp::SetUnderline(false)]);
    assert_eq!(body("\\fi"), vec![RenderOp::SetUnderline(false)]);
    assert_eq!(body("\\fB"), vec![RenderOp::SetBold(true)]);
    assert_eq!(body("\\fb"), vec![RenderOp::SetBold(false)]);
    assert_eq!(
        body("\\fR"),
        vec![RenderOp::SetBold(false), RenderOp::SetUnderline(false)]
    );
}

#[test]
fn unknown_style_letter_is_dropped() {
    assert_eq!(body("a\\fXb"), vec![print("ab")]);
    assert_eq!(body("a\\f"), vec![print("a")]);
}

#[test]
fn colour_directives() {
    let table = [
        ('W', Color::White),
        ('B', Color::Black),
        ('b', Color::Blue),
        ('y', Color::Yellow),
        ('g', Color::Green),
        ('m', Color::Magenta),
        ('c', Color::Cyan),
        ('r', Color::Red),
    ];
    for (letter, color) in table {
        let text = format!("\\c{}", letter);
        assert_eq!(body(&text), vec![RenderOp::SetForeground(color)]);
        assert_eq!(interpret(&text, false).state.color, color);
    }
}

#[test]
fn unknown_colour_letter_is_dropped() {
    assert_eq!(body("a\\cXb"), vec![print("ab")]);
    assert_eq!(body("a\\c"), vec![print("a")]);
}

#[test]
fn unknown_directive_is_printed_as_it_is() {
    assert_eq!(body("a\\qb"), vec![print("a\\qb")]);
    assert_eq!(body("a\\"), vec![print("a\\")]);
    assert_eq!(body("\\n"), vec![print("\\n")]);
}

#[test]
fn bullets_go_in_by_steps() {
    assert_eq!(body("\\*"), vec![print("  o  ")]);
    assert_eq!(level("\\*"), 1);
    assert_eq!(body("\\*\\*"), vec![print("  o    •  ")]);
    assert_eq!(level("\\*\\*"), 2);
    assert_eq!(body("\\*\\*\\*"), vec![print("  o    •    >  ")]);
    assert_eq!(level("\\*\\*\\*"), 3);
    assert_eq!(body("\\*\\*\\*\\*"), vec![print("  o    •    >    ‣  ")]);
    assert_eq!(level("\\*\\*\\*\\*"), 4);
}

#[test]
fn bullet_cycle() {
    assert_eq!(interpret("", false).state.indent(), Some(0));
    assert_eq!(interpret("\\*", false).state.indent(), Some(5));
    assert_eq!(interpret("\\*\\*", false).state.indent(), Some(10));
    assert_eq!(interpret("\\*\\*\\*", false).state.indent(), Some(15));
    assert_eq!(body("\\*\\*\\*x\ny"), vec![print("  o    •    >  x\n               y")]);
    assert_eq!(level("\\*\\*\\*\\<"), 2);
    assert_eq!(level("\\*\\*\\*\\<\\<"), 1);
    assert_eq!(level("\\*\\*\\*\\<\\<\\<"), 0);
    assert_eq!(interpret("\\*\\*\\*\\<\\<\\<", false).state.indent(), Some(0));
    assert_eq!(
        body("\\*\\*\\*\\<\\<\\<"),
        vec![
            print("  o    •    >  "),
            RenderOp::MoveCursorBack(10),
            print("  •  "),
            RenderOp::MoveCursorBack(10),
            print("  o  "),
            RenderOp::MoveCursorBack(10),
            print("  ‣  "),
        ]
    );
}

#[test]
fn going_out_without_indentation_only_prints_the_bullet() {
    assert_eq!(body("\\<"), vec![print("  ‣  ")]);
    assert_eq!(level("\\<"), 0);
}

#[test]
fn bullet_is_printed_again_at_the_start_of_the_line() {
    assert_eq!(body("\\*\\-"), vec![print("  o  \r  o  ")]);
    assert_eq!(body("\\*\\*\\-"), vec![print("  o    •  \r       •  ")]);
    assert_eq!(
        body("\\*\\*\\*\\-"),
        vec![print("  o    •    >  \r            >  ")]
    );
    assert_eq!(
        body("\\*\\*\\*\\*\\-"),
        vec![print("  o    •    >    ‣  \r                 ‣  ")]
    );
    assert_eq!(level("\\*\\*\\-"), 2);
}

#[test]
fn bullet_at_the_start_of_the_line_without_indentation() {
    assert_eq!(body("\\-"), vec![print("\r  ‣  ")]);
}

#[test]
fn paragraph_break_gives_up_the_indentation() {
    assert_eq!(body("line one\n\nline two"), vec![print("line one\n\nline two")]);
    assert_eq!(level("line one\n\nline two"), 0);
    assert_eq!(level("\\*\\*one"), 2);
    assert_eq!(level("\\*\\*one\n\ntwo"), 0);
    assert_eq!(
        body("\\*\\*one\n\ntwo\nthree"),
        vec![print("  o    •  one\n\ntwo\nthree")]
    );
}

#[test]
fn single_line_feed_indents_the_next_line() {
    assert_eq!(body("\\*a\nb"), vec![print("  o  a\n     b")]);
    assert_eq!(body("a\nb"), vec![print("a\nb")]);
    assert_eq!(level("\\*a\nb"), 1);
}

#[test]
fn character_after_a_line_feed_is_kept() {
    // The character that follows a single line feed is not lost: it is read
    // next, after the padding, and may begin a directive.
    assert_eq!(body("\\*a\nBody"), vec![print("  o  a\n     Body")]);
    assert_eq!(
        body("\\*a\n\\fBb"),
        vec![print("  o  a\n     "), RenderOp::SetBold(true), print("b")]
    );
}

#[test]
fn line_feed_at_the_end_is_not_padded() {
    assert_eq!(body("\\*a\n"), vec![print("  o  a\n")]);
}

#[test]
fn three_line_feeds() {
    assert_eq!(body("\\*a\n\n\nb"), vec![print("  o  a\n\n\nb")]);
    assert_eq!(level("\\*a\n\n\nb"), 0);
}

#[test]
fn full_stop_is_printed_with_what_follows() {
    assert_eq!(body("a.b"), vec![print("a.b")]);
    assert_eq!(body("end."), vec![print("end.")]);
    assert_eq!(body(".H"), vec![print(".H")]);
    assert_eq!(body(".Hx"), vec![print(".Hx")]);
    assert_eq!(body(".hd x"), vec![print(".hd x")]);
}

#[test]
fn character_after_a_full_stop_begins_no_directive() {
    assert_eq!(body(".\\fB"), vec![print(".\\fB")]);
    assert_eq!(body("\\*.\n\nx"), vec![print("  o  .\n\n     x")]);
    assert_eq!(level("\\*.\n\nx"), 1);
}

#[test]
fn styled_text() {
    let out = interpret("\\fB\\cyHello\\cW\\fb", true);
    assert_eq!(
        out.ops,
        vec![
            RenderOp::Clear,
            RenderOp::SetBold(false),
            RenderOp::SetUnderline(false),
            RenderOp::SetForeground(Color::White),
            RenderOp::SetBold(true),
            RenderOp::SetForeground(Color::Yellow),
            print("Hello"),
            RenderOp::SetForeground(Color::White),
            RenderOp::SetBold(false),
        ]
    );
    assert_eq!(
        body("\\fB\\cyHello\\cW\\fb"),
        vec![
            RenderOp::SetBold(true),
            RenderOp::SetForeground(Color::Yellow),
            print("Hello"),
            RenderOp::SetForeground(Color::White),
            RenderOp::SetBold(false),
        ]
    );
    assert_eq!(
        out.state,
        RenderState { level: 0, bold: false, underline: false, color: Color::White }
    );
}

#[test]
fn heading() {
    let out = interpret(".HD My Title\nBody", true);
    assert_eq!(
        out.ops,
        vec![
            RenderOp::Clear,
            RenderOp::SetBold(false),
            RenderOp::SetUnderline(false),
            RenderOp::SetForeground(Color::White),
            // The pass that draws the heading: no clear, but a reset.
            RenderOp::SetBold(false),
            RenderOp::SetUnderline(false),
            RenderOp::SetForeground(Color::White),
            print("\n  "),
            RenderOp::SetBold(true),
            RenderOp::SetUnderline(true),
            print("My Title"),
            RenderOp::SetBold(false),
            RenderOp::SetUnderline(false),
            print("\n\nBody"),
        ]
    );
    assert_eq!(out.state.level, 0);
    assert!(!out.ops[1..].contains(&RenderOp::Clear));
}

#[test]
fn heading_keeps_the_indentation_of_its_slide() {
    assert_eq!(level("\\*\\*.HD T"), 2);
    let ops = body("\\*.HD T\nx");
    assert_eq!(ops.last(), Some(&print("\n\n     x")));
}

#[test]
fn heading_resets_style_and_colour() {
    let out = interpret("\\fB\\cr.HD T", false);
    assert_eq!(
        out.state,
        RenderState { level: 0, bold: false, underline: false, color: Color::White }
    );
}

#[test]
fn heading_at_the_end_of_the_slide() {
    assert_eq!(
        body(".HD"),
        vec![
            RenderOp::SetBold(false),
            RenderOp::SetUnderline(false),
            RenderOp::SetForeground(Color::White),
            print("\n  "),
            RenderOp::SetBold(true),
            RenderOp::SetUnderline(true),
            RenderOp::SetBold(false),
            RenderOp::SetUnderline(false),
            print("\n"),
        ]
    );
}

#[test]
fn heading_text_may_hold_directives() {
    let ops = body(".HD \\cyGold");
    assert_eq!(
        ops[3..],
        [
            print("\n  "),
            RenderOp::SetBold(true),
            RenderOp::SetUnderline(true),
            RenderOp::SetForeground(Color::Yellow),
            print("Gold"),
            RenderOp::SetBold(false),
            RenderOp::SetUnderline(false),
            print("\n"),
        ]
    );
}

#[test]
fn heading_within_a_heading() {
    let out = interpret(".HD .HD x", false);
    let clears = out.ops.iter().filter(|op| **op == RenderOp::Clear).count();
    assert_eq!(clears, 0);
    assert!(out.ops.contains(&print("x")));
}

#[test]
fn heading_text_with_letters_beyond_ascii() {
    let ops = body(".HD Übersicht\nnächste");
    assert!(ops.contains(&print("Übersicht")));
    assert_eq!(ops.last(), Some(&print("\n\nnächste")));
}

#[test]
fn indentation_that_cannot_be_held() {
    let state = RenderState {
        level: usize::MAX,
        bold: false,
        underline: false,
        color: Color::White,
    };
    assert_eq!(state.indent(), None);
    let state = RenderState { level: usize::MAX / 5, ..state };
    assert_eq!(state.indent(), Some(usize::MAX / 5 * 5));
}

#[test]
fn every_slide_is_interpreted() {
    for text in ["\\", "\\f", "\\c", ".", ".H", ".HD", "\n", "\n\n", "\\<", "\\-", "\\*", "\\\\"] {
        let out = interpret(text, true);
        assert_eq!(out.ops[0], RenderOp::Clear);
    }
}
