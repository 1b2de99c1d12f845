//! Whole-input tests: the full pipeline from source text to target text,
//! prelude included.
use astra::engine::{prelude_lines, transpile_source};

/// The constant prelude as one string, joined as the pipeline joins lines.
fn prelude_string() -> String {
    let lines = prelude_lines();
    lines
        .iter()
        .map(|l| l.iter().collect::<String>())
        .collect::<Vec<String>>()
        .join("\n")
}

/// The translated body: the output lines after the constant prelude.
fn body_of(input: &str) -> Vec<String> {
    let out = transpile_source(input);
    let prelude_count = prelude_lines().len();
    out.split('\n').skip(prelude_count).map(|s| s.to_string()).collect()
}

#[test]
fn output_begins_with_prelude() {
    let out = transpile_source("x = 1");
    assert!(out.starts_with(&prelude_string()));
    assert!(out.starts_with("#include <iostream>\n"));
    assert!(out.contains("using namespace std;"));
}

#[test]
fn empty_input_yields_one_blank_body_line() {
    assert_eq!(body_of(""), vec!["".to_string()]);
}

#[test]
fn empty_input_full_output_is_prelude_and_one_blank() {
    assert_eq!(transpile_source(""), format!("{}\n", prelude_string()));
}

#[test]
fn blank_lines_are_kept_one_for_one() {
    assert_eq!(body_of("\n"), vec!["".to_string(), "".to_string()]);
}

#[test]
fn comment_lines_vanish() {
    assert_eq!(
        body_of("// a comment\n## another\nx = 1"),
        vec!["any x = 1;".to_string()]
    );
}

#[test]
fn whole_function_translates() {
    let body = body_of("fn add(a: int, b: int) -> int {\nreturn a + b\n}");
    assert_eq!(
        body,
        vec![
            "int add(int a, int b) {".to_string(),
            "return a + b;".to_string(),
            "}".to_string(),
        ]
    );
}

#[test]
fn raw_region_is_reproduced_verbatim() {
    let body = body_of("::++ {\nstd::cout << 1;\ntemplate <typename T> T id(T x) { return x; }\n}");
    assert_eq!(
        body,
        vec![
            "std::cout << 1;".to_string(),
            "template <typename T> T id(T x) { return x; }".to_string(),
        ]
    );
}

#[test]
fn raw_region_applies_no_translation() {
    // Inside the region this line would otherwise become an assignment.
    let body = body_of("::++ {\nx = 5\n}");
    assert_eq!(body, vec!["x = 5".to_string()]);
}

#[test]
fn mixed_program_translates_in_order() {
    let source = "use iostream\n\nfn main() {\nfor i in range(0, 3) {\nprintln(i)\n}\nreturn 0\n}";
    let body = body_of(source);
    assert_eq!(
        body,
        vec![
            "#include <iostream>".to_string(),
            "".to_string(),
            "void main() {".to_string(),
            "for (int i = 0; i < 3; i++) {".to_string(),
            "println(i);".to_string(),
            "}".to_string(),
            "return 0;".to_string(),
            "}".to_string(),
        ]
    );
}

#[test]
fn translation_never_aborts_on_bad_lines() {
    let body = body_of("fn broken(a: int {\nwhile ok {\n}");
    assert_eq!(
        body,
        vec![
            "// [astra] untranslated: fn broken(a: int {".to_string(),
            "while ok {".to_string(),
            "}".to_string(),
        ]
    );
}

#[test]
fn windows_line_endings_are_trimmed() {
    let body = body_of("x = 1\r\ny = 2\r\n");
    assert_eq!(
        body,
        vec![
            "any x = 1;".to_string(),
            "any y = 2;".to_string(),
            "".to_string(),
        ]
    );
}
