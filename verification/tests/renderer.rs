use comrade::compiler::{compiler, render};
use comrade::lexer::load;
use comrade::{Expression, Function, Math, Node, Operations, Statement, Struct, StructMember, Types};

fn source(text: &str) -> Vec<String> {
    text.split_whitespace().map(|w| w.to_string()).collect()
}

fn lowered(text: &str) -> String {
    compiler(&load(&source(text)))
}

#[test]
fn statement_ends_with_a_semicolon() {
    assert_eq!(lowered("return EOL"), "return;");
    assert_eq!(lowered("include io net EOL"), "include io net;");
}

#[test]
fn declarations_name_their_kind() {
    assert_eq!(lowered("let a = 5 EOL"), "let a = 5;");
    assert_eq!(lowered("const a b = \"x\" EOL"), "const a.b = \"x\";");
}

#[test]
fn while_is_written_like_if() {
    assert_eq!(lowered("while x { y }"), "while(x) {y}");
    assert_eq!(lowered("else { y }"), "else {y}");
}

#[test]
fn struct_lists_member_names() {
    assert_eq!(lowered("struct P { x : i32 , y : str }"), "struct P {x, y}");
    let empty = Node::structure(Struct { identifier: source("a b"), members: vec![] });
    assert_eq!(render(&empty), "struct a.b {}");
    let dotted = Node::structure(Struct {
        identifier: source("S"),
        members: vec![StructMember { identifier: source("p q"), t_mem: Types::Void }],
    });
    assert_eq!(render(&dotted), "struct S {p.q}");
}

#[test]
fn function_without_body_or_arguments() {
    let f = Node::function(Function {
        identifier: source("m f"),
        return_type: Types::Void,
        arguments: vec![],
        nodes: vec![],
    });
    assert_eq!(render(&f), "function m.f() {}");
}

#[test]
fn math_with_missing_operand_and_operator() {
    let m = Node::math(Math {
        lhs: Expression { expr: source("a") },
        rhs: Expression { expr: vec![] },
        operation: Operations::NULL,
    });
    assert_eq!(render(&m), "a  ");
    let eq = Node::math(Math {
        lhs: Expression { expr: source("a b") },
        rhs: Expression { expr: source("c") },
        operation: Operations::EQ,
    });
    assert_eq!(render(&eq), "a b == c");
}

#[test]
fn the_first_filled_construct_is_rendered() {
    let node = Node::new(
        Some(Statement { action: "return".to_string(), parameters: vec![] }),
        None,
        None,
        None,
        Some(Expression { expr: source("x") }),
        None,
        None,
        None,
        None,
        None,
    );
    assert_eq!(render(&node), "return;");
}

#[test]
fn nodes_are_concatenated_without_separator() {
    assert_eq!(lowered("1 EOL 2 EOL \"a\" EOL true"), "12\"a\"true");
}

#[test]
fn node_reads_through_to_its_payload() {
    let node = Node::statement(Statement { action: "return".to_string(), parameters: vec![] });
    assert_eq!(node.statement, node.data.statement);
    assert!(node.expression.is_none());
}
