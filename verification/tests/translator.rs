//! Line-level tests of the translation step: one `Translator` is driven a
//! line at a time and its output and state are checked exactly.
use astra::state::Translator;

fn cv(s: &str) -> Vec<char> {
    s.chars().collect()
}

fn sv(v: &Vec<char>) -> String {
    v.iter().collect()
}

/// Run one line through a fresh translator; return the output lines.
fn step_one(line: &str) -> (Vec<String>, Translator) {
    let mut t = Translator::new();
    let mut out: Vec<Vec<char>> = Vec::new();
    t.step(&cv(line), &mut out);
    (out.iter().map(sv).collect(), t)
}

#[test]
fn signature_round_trip() {
    let (out, t) = step_one("fn add(a: int, b: int) -> int {");
    assert_eq!(out, vec!["int add(int a, int b) {".to_string()]);
    assert_eq!(t.depth, 1);
    assert_eq!(t.functions.len(), 1);
    assert_eq!(sv(&t.functions[0].name), "add");
    assert_eq!(sv(&t.functions[0].ret), "int");
    assert_eq!(t.functions[0].params.len(), 2);
    assert_eq!(sv(&t.functions[0].params[0].name), "a");
    assert_eq!(sv(&t.functions[0].params[0].ty), "int");
    assert_eq!(sv(&t.functions[0].params[1].name), "b");
    assert_eq!(sv(&t.functions[0].params[1].ty), "int");
}

#[test]
fn untyped_parameter_defaults() {
    let (out, t) = step_one("fn f(x) {");
    assert_eq!(out, vec!["void f(any x) {".to_string()]);
    assert_eq!(t.depth, 1);
    assert_eq!(sv(&t.functions[0].params[0].ty), "any");
}

#[test]
fn missing_return_type_is_void() {
    let (out, _) = step_one("fn go(n: int) {");
    assert_eq!(out, vec!["void go(int n) {".to_string()]);
}

#[test]
fn empty_parameter_list() {
    let (out, _) = step_one("fn main() {");
    assert_eq!(out, vec!["void main() {".to_string()]);
}

#[test]
fn public_modifier_labels_access() {
    let (out, _) = step_one("pub fn get() -> int {");
    assert_eq!(out, vec!["pub: int get() {".to_string()]);
}

#[test]
fn private_modifier_labels_access() {
    let (out, _) = step_one("priv fn hide() {");
    assert_eq!(out, vec!["priv: void hide() {".to_string()]);
}

#[test]
fn protected_modifier_labels_access() {
    let (out, _) = step_one("prot fn guard() {");
    assert_eq!(out, vec!["prot: void guard() {".to_string()]);
}

#[test]
fn virtual_modifier_prefixes() {
    let (out, _) = step_one("virt fn draw() {");
    assert_eq!(out, vec!["virtual void draw() {".to_string()]);
}

#[test]
fn static_modifier_prefixes() {
    let (out, _) = step_one("stat fn count() -> int {");
    assert_eq!(out, vec!["static int count() {".to_string()]);
}

#[test]
fn malformed_fn_line_yields_diagnostic() {
    let (out, t) = step_one("fn add(a: int {");
    assert_eq!(
        out,
        vec!["// [astra] untranslated: fn add(a: int {".to_string()]
    );
    assert_eq!(t.depth, 0);
}

#[test]
fn malformed_line_does_not_abort_pass() {
    let mut t = Translator::new();
    let mut out: Vec<Vec<char>> = Vec::new();
    t.step(&cv("fn add(a: int {"), &mut out);
    t.step(&cv("x = 5"), &mut out);
    let lines: Vec<String> = out.iter().map(sv).collect();
    assert_eq!(
        lines,
        vec![
            "// [astra] untranslated: fn add(a: int {".to_string(),
            "any x = 5;".to_string(),
        ]
    );
}

#[test]
fn range_loop_header() {
    let (out, t) = step_one("for i in range(0, 10) {");
    assert_eq!(out, vec!["for (int i = 0; i < 10; i++) {".to_string()]);
    assert_eq!(t.depth, 1);
}

#[test]
fn range_loop_space_after_comma_optional() {
    let (out, _) = step_one("for k in range(3,7) {");
    assert_eq!(out, vec!["for (int k = 3; k < 7; k++) {".to_string()]);
}

#[test]
fn foreach_loop_header() {
    let (out, t) = step_one("for x in items {");
    assert_eq!(out, vec!["for (any&& x : items) {".to_string()]);
    assert_eq!(t.depth, 1);
}

#[test]
fn range_tried_before_foreach() {
    // A range header with a non-numeric bound falls back to iteration over
    // the identifier `range` itself.
    let (out, _) = step_one("for i in range(x, 10) {");
    assert_eq!(out, vec!["for (any&& i : range) {".to_string()]);
}

#[test]
fn malformed_for_line_yields_diagnostic() {
    let (out, t) = step_one("for i in {");
    assert_eq!(out, vec!["// [astra] untranslated: for i in {".to_string()]);
    assert_eq!(t.depth, 0);
}

#[test]
fn if_line_forwards_condition() {
    let (out, t) = step_one("if x > 5 {");
    assert_eq!(out, vec!["if x > 5 {".to_string()]);
    assert_eq!(t.depth, 1);
}

#[test]
fn elif_line_keeps_depth() {
    let (out, t) = step_one("} else if x < 2 {");
    assert_eq!(out, vec!["} else if x < 2 {".to_string()]);
    assert_eq!(t.depth, 0);
}

#[test]
fn else_line_keeps_depth() {
    let (out, t) = step_one("} else {");
    assert_eq!(out, vec!["} else {".to_string()]);
    assert_eq!(t.depth, 0);
}

#[test]
fn while_line_opens_block() {
    let (out, t) = step_one("while x < 10 {");
    assert_eq!(out, vec!["while x < 10 {".to_string()]);
    assert_eq!(t.depth, 1);
}

#[test]
fn return_statement_terminated_once() {
    let (out, _) = step_one("return x");
    assert_eq!(out, vec!["return x;".to_string()]);
    let (out2, _) = step_one("return x;");
    assert_eq!(out2, vec!["return x;".to_string()]);
}

#[test]
fn assignment_records_inferred_type() {
    let (out, t) = step_one("x = 5");
    assert_eq!(out, vec!["any x = 5;".to_string()]);
    assert_eq!(t.variables.len(), 1);
    assert_eq!(sv(&t.variables[0].name), "x");
    assert_eq!(sv(&t.variables[0].ty), "any");
}

#[test]
fn assignment_records_declared_type() {
    let (out, t) = step_one("x: float = 5");
    assert_eq!(out, vec!["float x = 5;".to_string()]);
    assert_eq!(t.variables.len(), 1);
    assert_eq!(sv(&t.variables[0].name), "x");
    assert_eq!(sv(&t.variables[0].ty), "float");
}

#[test]
fn assignment_strips_trailing_terminators() {
    let (out, _) = step_one("x = 5;;;");
    assert_eq!(out, vec!["any x = 5;".to_string()]);
}

#[test]
fn compound_assignment_is_expression_statement() {
    let (out, t) = step_one("x += 1");
    assert_eq!(out, vec!["x += 1;".to_string()]);
    assert_eq!(t.variables.len(), 0);
}

#[test]
fn comparison_is_not_assignment() {
    let (out, t) = step_one("x == 5");
    assert_eq!(out, vec!["x == 5;".to_string()]);
    assert_eq!(t.variables.len(), 0);
}

#[test]
fn bare_close_brace_emits_close_and_clamps() {
    let (out, t) = step_one("}");
    assert_eq!(out, vec!["}".to_string()]);
    assert_eq!(t.depth, 0);
}

#[test]
fn depth_balances_over_well_formed_input() {
    let mut t = Translator::new();
    let mut out: Vec<Vec<char>> = Vec::new();
    for line in ["fn main() {", "if x {", "while y {", "}", "}", "}"] {
        t.step(&cv(line), &mut out);
    }
    assert_eq!(t.depth, 0);
}

#[test]
fn blank_line_emits_one_blank_even_in_raw_region() {
    let mut t = Translator::new();
    let mut out: Vec<Vec<char>> = Vec::new();
    t.step(&cv("::++ {"), &mut out);
    t.step(&cv(""), &mut out);
    let lines: Vec<String> = out.iter().map(sv).collect();
    assert_eq!(lines, vec!["".to_string()]);
    assert!(t.capturing);
}

#[test]
fn raw_region_captures_until_close() {
    let mut t = Translator::new();
    let mut out: Vec<Vec<char>> = Vec::new();
    t.step(&cv("::++ {"), &mut out);
    t.step(&cv("int x = 5;"), &mut out);
    t.step(&cv("// kept verbatim"), &mut out);
    assert_eq!(out.len(), 0);
    t.step(&cv("}"), &mut out);
    let lines: Vec<String> = out.iter().map(sv).collect();
    assert_eq!(
        lines,
        vec!["int x = 5;".to_string(), "// kept verbatim".to_string()]
    );
    assert!(!t.capturing);
    assert_eq!(t.raw_buffer.len(), 0);
}

#[test]
fn use_directive_becomes_include() {
    let (out, _) = step_one("use iostream");
    assert_eq!(out, vec!["#include <iostream>".to_string()]);
}

#[test]
fn def_directive_becomes_define() {
    let (out, _) = step_one("def MAX 100");
    assert_eq!(out, vec!["#define MAX 100".to_string()]);
}

#[test]
fn conditional_directives() {
    let (a, _) = step_one("ifdef DEBUG");
    assert_eq!(a, vec!["#ifdef DEBUG".to_string()]);
    let (b, _) = step_one("ifndef DEBUG");
    assert_eq!(b, vec!["#ifndef DEBUG".to_string()]);
    let (c, _) = step_one("endif");
    assert_eq!(c, vec!["#endif".to_string()]);
}

#[test]
fn type_directive_becomes_enum() {
    let (open, _) = step_one("type Color {");
    assert_eq!(open, vec!["enum Color {".to_string()]);
    let (closed, _) = step_one("type Day");
    assert_eq!(closed, vec!["enum Day;".to_string()]);
}

#[test]
fn expression_statement_terminated() {
    let (out, _) = step_one("foo()");
    assert_eq!(out, vec!["foo();".to_string()]);
    let (done, _) = step_one("bar();");
    assert_eq!(done, vec!["bar();".to_string()]);
}

#[test]
fn structural_line_passes_through() {
    let (out, _) = step_one("class Point {");
    assert_eq!(out, vec!["class Point {".to_string()]);
}

#[test]
fn surrounding_whitespace_is_trimmed() {
    let (out, _) = step_one("   x = 5   ");
    assert_eq!(out, vec!["any x = 5;".to_string()]);
}

#[test]
fn later_record_shadows_earlier() {
    let mut t = Translator::new();
    let mut out: Vec<Vec<char>> = Vec::new();
    t.step(&cv("x = 5"), &mut out);
    t.step(&cv("x: float = 6"), &mut out);
    assert_eq!(t.variables.len(), 2);
    assert_eq!(sv(&t.variables[1].ty), "float");
    assert_eq!(t.recorded_type(&cv("x")).map(|ty| sv(&ty)), Some("float".to_string()));
    assert_eq!(t.recorded_type(&cv("y")), None);
}

#[test]
fn function_table_latest_record_wins() {
    let mut t = Translator::new();
    let mut out: Vec<Vec<char>> = Vec::new();
    t.step(&cv("fn f() -> int {"), &mut out);
    t.step(&cv("fn g() {"), &mut out);
    t.step(&cv("fn f(a: int) {"), &mut out);
    assert_eq!(t.recorded_fn(&cv("f")), Some(2));
    assert_eq!(t.recorded_fn(&cv("g")), Some(1));
    assert_eq!(t.recorded_fn(&cv("h")), None);
}

#[test]
fn use_directive_trims_its_argument() {
    let (out, _) = step_one("use   iostream");
    assert_eq!(out, vec!["#include <iostream>".to_string()]);
}

#[test]
fn parameter_list_skips_empty_pieces() {
    let (out, _) = step_one("fn f(a: int, , b) {");
    assert_eq!(out, vec!["void f(int a, any b) {".to_string()]);
}

#[test]
fn return_strips_only_one_terminator() {
    let (out, _) = step_one("return x;;");
    assert_eq!(out, vec!["return x;;".to_string()]);
}
