use ratpoint::encode::color;
use ratpoint::export::export;

#[test]
fn plain_slide_is_exported_as_it_is() {
    assert_eq!(export(""), "");
    assert_eq!(export("Some text.\nMore text."), "Some text.\nMore text.");
}

#[test]
fn escapes_become_directives() {
    assert_eq!(export("\\cWx"), "\\fRx");
    assert_eq!(export("\\fUx"), "\\fIx");
    assert_eq!(export("\\*x"), ".bu\nx");
    assert_eq!(export("\\-x"), ".bu\nx");
    assert_eq!(export("\\crx"), "\\fBx");
    assert_eq!(export("\\cgx"), "\\fBx");
    assert_eq!(export("\\cmx"), "\\fBx");
    assert_eq!(export("\\ccx"), "\\fBx");
    assert_eq!(export("\\cyx"), "\\fBx");
    assert_eq!(export("\\cBx"), "\\fIx");
}

#[test]
fn other_escapes_are_kept() {
    assert_eq!(export("\\cbx"), "\\cbx");
    assert_eq!(export("\\fBx\\fb"), "\\fBx\\fb");
    assert_eq!(export("\\fux"), "\\fux");
    assert_eq!(export("\\<x"), "\\<x");
    assert_eq!(export("\\\\"), "\\\\");
    assert_eq!(export("\\c"), "\\c");
    assert_eq!(export("\\"), "\\");
}

#[test]
fn escapes_are_found_one_after_the_other() {
    assert_eq!(export("\\\\*"), "\\.bu\n");
    assert_eq!(export("\\cW\\cW"), "\\fR\\fR");
    assert_eq!(export("a\\cyb\\cWc\\*d"), "a\\fBb\\fRc.bu\nd");
}

#[test]
fn fenced_code_gets_a_literal_block() {
    assert_eq!(
        export("a\n.rs\nfn x\n.rs\nb"),
        "a\n\n.(l L\n\\fBfn\\fR x\n.)l\n\nb"
    );
}

#[test]
fn blocks_open_and_close_in_turn() {
    assert_eq!(
        export(".rsA.rs-.rsB.rs"),
        "\n.(l LA.)l\n-\n.(l LB.)l\n"
    );
}

#[test]
fn unterminated_region_is_opened_only() {
    assert_eq!(export("a.rsb"), "a\n.(l Lb");
}

#[test]
fn exported_code_is_the_encoded_code_with_directives() {
    let code = "\nlet x = 1; // one\n";
    let encoded = color(&format!("\n.(l L{}.)l\n", code));
    let expected = encoded
        .replace("\\cW", "\\fR")
        .replace("\\cg", "\\fB")
        .replace("\\cm", "\\fB");
    assert_eq!(export(&format!(".rs{}.rs", code)), expected);
}

/// The substitutions, made one after the other over the whole text.
fn substituted(text: &str) -> String {
    text.replace("\\cW", "\\fR")
        .replace("\\fU", "\\fI")
        .replace("\\*", ".bu\n")
        .replace("\\-", ".bu\n")
        .replace("\\cr", "\\fB")
        .replace("\\cg", "\\fB")
        .replace("\\cm", "\\fB")
        .replace("\\cc", "\\fB")
        .replace("\\cy", "\\fB")
        .replace("\\cB", "\\fI")
}

#[test]
fn one_pass_is_as_good_as_one_substitution_after_the_other() {
    let texts = [
        "\\cW\\fU\\*\\-\\cr\\cg\\cm\\cc\\cy\\cB",
        "\\\\cW \\\\* \\c\\cW \\f\\fU \\cfU",
        "x\\cyy\\cWz \\*item \\-item \\cBblack\\cW",
        "\\c\\*W \\f\\-U \\\\\\cr",
    ];
    for text in texts {
        assert_eq!(export(text), substituted(text), "{:?}", text);
    }
}
