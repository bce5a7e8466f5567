use ratpoint::encode::color;
use ratpoint::extract::compile_rust;

#[test]
fn slide_without_marker_is_unchanged() {
    for text in ["", "plain text", "fn main() {}", ".r s", "a.r", ".", ".rS", "rs."] {
        assert_eq!(compile_rust(text), text);
    }
}

#[test]
fn fenced_code_is_encoded() {
    assert_eq!(compile_rust("a.rsfn x.rsb"), "a\\ccfn\\cW xb");
    assert_eq!(compile_rust(".rslet.rs"), "\\cglet\\cW");
}

#[test]
fn text_outside_fences_is_untouched() {
    assert_eq!(compile_rust("fn .rsfn.rs fn"), "fn \\ccfn\\cW fn");
}

#[test]
fn markers_come_in_pairs() {
    let text = "one .rsuse a;.rs two .rspub fn b().rs three";
    let expected = format!("one {} two {} three", color("use a;"), color("pub fn b()"));
    assert_eq!(compile_rust(text), expected);
}

#[test]
fn everything_between_the_markers_is_code() {
    let text = "Title\n.rs\nfn main() {\n    let x = 1;\n}\n.rs\nend";
    let expected = format!("Title\n{}\nend", color("\nfn main() {\n    let x = 1;\n}\n"));
    assert_eq!(compile_rust(text), expected);
}

#[test]
fn empty_region_leaves_nothing() {
    assert_eq!(compile_rust("a.rs.rsb"), "ab");
}

#[test]
fn unterminated_region_runs_to_the_end() {
    assert_eq!(compile_rust("a.rsfn x"), "a\\ccfn\\cW x");
    assert_eq!(compile_rust("a.rs"), "a");
    assert_eq!(
        compile_rust("a.rsuse.rsb.rslet"),
        "a\\cruse\\cWb\\cglet\\cW"
    );
}

#[test]
fn nothing_is_added_at_the_end() {
    assert_eq!(compile_rust("ab"), "ab");
    assert_eq!(compile_rust("ab "), "ab ");
}
