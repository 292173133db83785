use comrade::compiler::_match::compile;
use comrade::{Expression, Match, MatchCase, Node};

fn raw(words: &[&str]) -> Vec<Node> {
    vec![Node::new(
        None,
        None,
        None,
        None,
        Some(Expression { expr: words.iter().map(|w| w.to_string()).collect() }),
        None,
        None,
        None,
        None,
        None,
    )]
}

fn case(expr: &[&str], body: &[&str]) -> MatchCase {
    MatchCase { case: expr.iter().map(|w| w.to_string()).collect(), block: raw(body) }
}

#[test]
fn match_with_default_renders_if_else() {
    let mut m = Match { condition: raw(&["x"]), block: vec![case(&["1"], &["a"]), case(&["default"], &["b"])] };
    assert_eq!(compile(&mut m), "if(x == 1) {a}else {b}");
}

#[test]
fn later_cases_render_else_if() {
    let mut m = Match {
        condition: raw(&["x"]),
        block: vec![case(&["1"], &["a"]), case(&["2"], &["b"]), case(&["default"], &["c"])],
    };
    assert_eq!(compile(&mut m), "if(x == 1) {a}else if(x == 2) {b}else {c}");
}

#[test]
fn default_first_is_rendered_as_a_test() {
    let mut m = Match { condition: raw(&["x"]), block: vec![case(&["default"], &["a"]), case(&["1"], &["b"])] };
    assert_eq!(compile(&mut m), "if(x == default) {a}else if(x == 1) {b}");
}

#[test]
fn default_in_the_middle_keeps_source_order() {
    let mut m = Match {
        condition: raw(&["x"]),
        block: vec![case(&["1"], &["a"]), case(&["default"], &["b"]), case(&["2"], &["c"])],
    };
    assert_eq!(compile(&mut m), "if(x == 1) {a}else {b}else if(x == 2) {c}");
}

#[test]
fn match_without_cases_renders_nothing() {
    let mut m = Match { condition: raw(&["x"]), block: vec![] };
    assert_eq!(compile(&mut m), "");
}

#[test]
fn compile_leaves_the_match_unchanged_and_repeats() {
    let mut m = Match { condition: raw(&["x", "y"]), block: vec![case(&["1"], &["a"]), case(&["default"], &["b"])] };
    let before = Match { condition: raw(&["x", "y"]), block: vec![case(&["1"], &["a"]), case(&["default"], &["b"])] };
    let first = compile(&mut m);
    assert_eq!(m, before);
    let second = compile(&mut m);
    assert_eq!(first, second);
    assert_eq!(first, "if(x y == 1) {a}else {b}");
}

#[test]
fn two_token_default_is_not_the_catch_all() {
    let mut m = Match { condition: raw(&["x"]), block: vec![case(&["1"], &["a"]), case(&["default", "z"], &["b"])] };
    assert_eq!(compile(&mut m), "if(x == 1) {a}else if(x == default z) {b}");
}
