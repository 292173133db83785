use comrade::compiler::compiler;
use comrade::lexer::classify::{classify, has, Construct, Mode};
use comrade::lexer::dispatch::load_fragment;
use comrade::lexer::load;
use comrade::{
    Argument, ConditionBlock, Expression, Function, FunctionCall, Immutablity, Lexer, Literal, Match,
    MatchCase, Math, Node, Operations, Statement, Struct, StructMember, Types, VariableAssignment,
};

fn words(text: &str) -> Vec<String> {
    text.split_whitespace().map(|w| w.to_string()).collect()
}

fn raw_node(text: &str) -> Node {
    Node::expression(Expression { expr: words(text) })
}

fn literal_node(text: &str, l_type: Types) -> Node {
    Node::literal(Literal { literal: text.to_string(), l_type })
}

#[test]
fn empty_input_gives_empty_program() {
    assert_eq!(load(&vec![]), vec![]);
}

#[test]
fn separators_and_unknown_tokens_build_nothing() {
    assert_eq!(load(&words("EOL a EOL EOL b EOL")), vec![]);
}

#[test]
fn comment_is_skipped_to_the_end_of_its_line() {
    assert_eq!(load(&words("# let a = 5 EOL 7 EOL")), vec![literal_node("7", Types::I32)]);
}

#[test]
fn comment_rule_goes_on_after_the_token_that_stopped_its_scan() {
    assert_eq!(
        load(&words("# a { b } 7 EOL 8")),
        vec![literal_node("7", Types::I32), literal_node("8", Types::I32)]
    );
}

#[test]
fn comment_inside_a_line_keeps_its_line_end_in_the_line() {
    assert_eq!(
        load(&words("return a # why EOL b EOL 7")),
        vec![
            Node::statement(Statement { action: "return".to_string(), parameters: words("a EOL b") }),
            literal_node("7", Types::I32),
        ]
    );
}

#[test]
fn const_is_immutable() {
    assert_eq!(
        load(&words("const a = \"x\" EOL")),
        vec![Node::variable_assignment(VariableAssignment {
            identifier: words("a"),
            immutability: Immutablity::True,
            value: Box::new(vec![literal_node("\"x\"", Types::Str)]),
        })]
    );
}

#[test]
fn let_without_value_has_no_value_nodes() {
    assert_eq!(
        load(&words("let a b")),
        vec![Node::variable_assignment(VariableAssignment {
            identifier: words("a b"),
            immutability: Immutablity::False,
            value: Box::new(vec![]),
        })]
    );
}

#[test]
fn let_with_a_name_as_value_keeps_it_raw() {
    assert_eq!(
        load(&words("let a = b EOL")),
        vec![Node::variable_assignment(VariableAssignment {
            identifier: words("a"),
            immutability: Immutablity::False,
            value: Box::new(vec![raw_node("b")]),
        })]
    );
}

#[test]
fn include_and_return_take_the_rest_of_the_line() {
    assert_eq!(
        load(&words("include io EOL return x y EOL")),
        vec![
            Node::statement(Statement { action: "include".to_string(), parameters: words("io") }),
            Node::statement(Statement { action: "return".to_string(), parameters: words("x y") }),
        ]
    );
}

#[test]
fn booleans_are_literals() {
    assert_eq!(
        load(&words("true EOL false EOL")),
        vec![literal_node("true", Types::Bool), literal_node("false", Types::Bool)]
    );
}

#[test]
fn string_and_number_literals() {
    assert_eq!(
        load(&words("\"hi\" 12 EOL")),
        vec![literal_node("\"hi\"", Types::Str), literal_node("12", Types::I32)]
    );
}

#[test]
fn match_with_two_cases() {
    let program = load(&words("match x { case 1 : { a } default : { b } }"));
    assert_eq!(
        program,
        vec![Node::matching(Match {
            condition: vec![raw_node("x")],
            block: vec![
                MatchCase { case: words("1"), block: vec![raw_node("a")] },
                MatchCase { case: words("default"), block: vec![raw_node("b")] },
            ],
        })]
    );
    assert_eq!(program[0].data._match.as_ref().unwrap().block[1].case, vec!["default".to_string()]);
    assert_eq!(compiler(&program), "if(x == 1) {a}else {b}");
}

#[test]
fn match_with_colons_glued_to_the_cases() {
    let program = load(&words("match x { case 1: { a } default: { b } }"));
    assert_eq!(
        program,
        vec![Node::matching(Match {
            condition: vec![raw_node("x")],
            block: vec![
                MatchCase { case: words("1"), block: vec![raw_node("a")] },
                MatchCase { case: words("default"), block: vec![raw_node("b")] },
            ],
        })]
    );
    assert_eq!(compiler(&program), "if(x == 1) {a}else {b}");
}

#[test]
fn colons_glued_to_names_are_dropped() {
    assert_eq!(
        load(&words("fun f ( a: i32 , b , c: ) { } EOL struct S { x: str , y , p q : bool }")),
        vec![
            Node::function(Function {
                identifier: words("f"),
                return_type: Types::Void,
                arguments: vec![
                    Argument { identifier: "a".to_string(), a_type: Types::I32 },
                    Argument { identifier: "b".to_string(), a_type: Types::Void },
                    Argument { identifier: "c".to_string(), a_type: Types::Void },
                ],
                nodes: vec![],
            }),
            Node::structure(Struct {
                identifier: words("S"),
                members: vec![
                    StructMember { identifier: words("x"), t_mem: Types::Str },
                    StructMember { identifier: words("y"), t_mem: Types::Void },
                    StructMember { identifier: words("p q"), t_mem: Types::Bool },
                ],
            }),
        ]
    );
}

#[test]
fn match_over_several_lines() {
    let program = load(&words(
        "match x { EOL case 1 : { EOL let y = 2 EOL } EOL 2 : { b } EOL default : { c } EOL } EOL 3",
    ));
    assert_eq!(
        program,
        vec![
            Node::matching(Match {
                condition: vec![raw_node("x")],
                block: vec![
                    MatchCase {
                        case: words("1"),
                        block: vec![Node::variable_assignment(VariableAssignment {
                            identifier: words("y"),
                            immutability: Immutablity::False,
                            value: Box::new(vec![literal_node("2", Types::I32)]),
                        })],
                    },
                    MatchCase { case: words("2"), block: vec![raw_node("b")] },
                    MatchCase { case: words("default"), block: vec![raw_node("c")] },
                ],
            }),
            literal_node("3", Types::I32),
        ]
    );
    assert_eq!(compiler(&program), "if(x == 1) {let y = 2;}else if(x == 2) {b}else {c}3");
}

#[test]
fn while_takes_condition_and_body() {
    assert_eq!(
        load(&words("while x < 3 { f ( x ) EOL } EOL")),
        vec![Node::condition_block(ConditionBlock {
            keyword: "while".to_string(),
            parameters: vec![Node::math(Math {
                lhs: Expression { expr: words("x") },
                rhs: Expression { expr: words("3") },
                operation: Operations::LT,
            })],
            nodes: vec![Node::function_call(FunctionCall {
                identifier: words("f"),
                arguments: vec![vec![raw_node("x")]],
            })],
        })]
    );
}

#[test]
fn if_else_if_else_chain() {
    let program = load(&words("if a { 1 } else if b { 2 } else { 3 } EOL"));
    assert_eq!(
        program,
        vec![
            Node::condition_block(ConditionBlock {
                keyword: "if".to_string(),
                parameters: vec![raw_node("a")],
                nodes: vec![literal_node("1", Types::I32)],
            }),
            Node::condition_block(ConditionBlock {
                keyword: "else if".to_string(),
                parameters: vec![raw_node("b")],
                nodes: vec![literal_node("2", Types::I32)],
            }),
            Node::condition_block(ConditionBlock {
                keyword: "else".to_string(),
                parameters: vec![],
                nodes: vec![literal_node("3", Types::I32)],
            }),
        ]
    );
    assert_eq!(compiler(&program), "if(a) {1}else if(b) {2}else {3}");
}

#[test]
fn struct_with_members() {
    assert_eq!(
        load(&words("struct P { EOL x : i32 , EOL name : str , EOL ok : bool , z : other EOL }")),
        vec![Node::structure(Struct {
            identifier: words("P"),
            members: vec![
                StructMember { identifier: words("x"), t_mem: Types::I32 },
                StructMember { identifier: words("name"), t_mem: Types::Str },
                StructMember { identifier: words("ok"), t_mem: Types::Bool },
                StructMember { identifier: words("z"), t_mem: Types::Void },
            ],
        })]
    );
}

#[test]
fn function_with_arguments_and_return_type() {
    let program = load(&words("fun add ( a : i32 , b : i32 ) : i32 { return a + b EOL } EOL"));
    assert_eq!(
        program,
        vec![Node::function(Function {
            identifier: words("add"),
            return_type: Types::I32,
            arguments: vec![
                Argument { identifier: "a".to_string(), a_type: Types::I32 },
                Argument { identifier: "b".to_string(), a_type: Types::I32 },
            ],
            nodes: vec![Node::statement(Statement {
                action: "return".to_string(),
                parameters: words("a + b"),
            })],
        })]
    );
    assert_eq!(compiler(&program), "function add(a, b) {return a + b;}");
}

#[test]
fn function_without_arguments_or_type() {
    assert_eq!(
        load(&words("fun main ( ) { }")),
        vec![Node::function(Function {
            identifier: words("main"),
            return_type: Types::Void,
            arguments: vec![],
            nodes: vec![],
        })]
    );
}

#[test]
fn call_with_nested_call_and_operator_is_a_call() {
    let program = load(&words("f ( g ( x , y ) , 1 + 2 ) EOL"));
    assert_eq!(
        program,
        vec![Node::function_call(FunctionCall {
            identifier: words("f"),
            arguments: vec![
                vec![Node::function_call(FunctionCall {
                    identifier: words("g"),
                    arguments: vec![vec![raw_node("x")], vec![raw_node("y")]],
                })],
                vec![Node::math(Math {
                    lhs: Expression { expr: words("1") },
                    rhs: Expression { expr: words("2") },
                    operation: Operations::ADD,
                })],
            ],
        })]
    );
    assert_eq!(compiler(&program), "f(g(x, y), 1 + 2)");
}

#[test]
fn call_without_arguments() {
    assert_eq!(
        load(&words("a . b ( ) EOL")),
        vec![Node::function_call(FunctionCall { identifier: words("a . b"), arguments: vec![] })]
    );
}

#[test]
fn arithmetic_splits_at_the_first_operator() {
    assert_eq!(
        load(&words("a b >= c - d EOL")),
        vec![Node::math(Math {
            lhs: Expression { expr: words("a b") },
            rhs: Expression { expr: words("c - d") },
            operation: Operations::EQGR,
        })]
    );
}

#[test]
fn every_operator_has_its_operation() {
    for (sign, operation, text) in [
        ("+", Operations::ADD, "a + b"),
        ("-", Operations::SUB, "a - b"),
        ("*", Operations::MUL, "a * b"),
        ("/", Operations::DIV, "a / b"),
        (">", Operations::GR, "a > b"),
        ("<", Operations::LT, "a < b"),
        ("<=", Operations::EQLT, "a <= b"),
        (">=", Operations::EQGR, "a >= b"),
    ] {
        let program = load(&vec!["a".to_string(), sign.to_string(), "b".to_string()]);
        assert_eq!(
            program,
            vec![Node::math(Math {
                lhs: Expression { expr: words("a") },
                rhs: Expression { expr: words("b") },
                operation,
            })]
        );
        assert_eq!(compiler(&program), text);
    }
}

#[test]
fn classify_follows_the_rule_order() {
    let none: Vec<String> = vec![];
    let call = words("( a + b )");
    let sum = words("+ b");
    assert_eq!(classify(&"#".to_string(), &call), Construct::Comment);
    assert_eq!(classify(&"EOL".to_string(), &call), Construct::Separator);
    assert_eq!(classify(&"include".to_string(), &call), Construct::Statement);
    assert_eq!(classify(&"return".to_string(), &call), Construct::Statement);
    assert_eq!(classify(&"true".to_string(), &call), Construct::Boolean);
    assert_eq!(classify(&"false".to_string(), &call), Construct::Boolean);
    assert_eq!(classify(&"let".to_string(), &call), Construct::Let);
    assert_eq!(classify(&"const".to_string(), &call), Construct::Const);
    assert_eq!(classify(&"if".to_string(), &call), Construct::Conditional);
    assert_eq!(classify(&"else".to_string(), &call), Construct::Conditional);
    assert_eq!(classify(&"while".to_string(), &call), Construct::While);
    assert_eq!(classify(&"match".to_string(), &call), Construct::Match);
    assert_eq!(classify(&"struct".to_string(), &call), Construct::Struct);
    assert_eq!(classify(&"fun".to_string(), &call), Construct::Function);
    assert_eq!(classify(&"f".to_string(), &call), Construct::Call);
    assert_eq!(classify(&"7".to_string(), &call), Construct::Call);
    assert_eq!(classify(&"a".to_string(), &sum), Construct::Arithmetic);
    assert_eq!(classify(&"\"a\"".to_string(), &sum), Construct::Arithmetic);
    assert_eq!(classify(&"a".to_string(), &words("( b")), Construct::Nothing);
    assert_eq!(classify(&"\"a".to_string(), &none), Construct::Text);
    assert_eq!(classify(&"9a".to_string(), &none), Construct::Number);
    assert_eq!(classify(&"a9".to_string(), &none), Construct::Nothing);
    assert_eq!(classify(&"".to_string(), &none), Construct::Nothing);
}

#[test]
fn has_asks_for_all_or_for_one() {
    let data = words("a ( b");
    assert!(has(&data, vec!["(", "a"], Mode::AND));
    assert!(!has(&data, vec!["(", ")"], Mode::AND));
    assert!(has(&data, vec![")", "b"], Mode::OR));
    assert!(!has(&data, vec![")", "c"], Mode::OR));
    assert!(has(&data, vec![], Mode::AND));
    assert!(!has(&data, vec![], Mode::OR));
}

#[test]
fn fragment_falls_back_to_a_raw_expression() {
    assert_eq!(load_fragment(&words("EOL a EOL b")), vec![raw_node("a b")]);
    assert_eq!(load_fragment(&words("EOL EOL")), vec![]);
    assert_eq!(load_fragment(&words("a 1")), vec![literal_node("1", Types::I32)]);
}

#[test]
fn unterminated_constructs_run_to_the_end() {
    assert_eq!(
        load(&words("while x { let a = 1")),
        vec![Node::condition_block(ConditionBlock {
            keyword: "while".to_string(),
            parameters: vec![raw_node("x")],
            nodes: vec![Node::variable_assignment(VariableAssignment {
                identifier: words("a"),
                immutability: Immutablity::False,
                value: Box::new(vec![literal_node("1", Types::I32)]),
            })],
        })]
    );
}

#[test]
fn lexer_starts_with_the_keyword_table() {
    let lexer = Lexer::new(words("let a = 5"));
    assert_eq!(lexer.splitted_text, words("let a = 5"));
    assert!(lexer.program.is_empty());
    assert_eq!(lexer.keywords, words("include fun return"));
}

#[test]
fn blank_node_holds_nothing_and_renders_nothing() {
    let node = Node::blank();
    assert_eq!(node, Node::new(None, None, None, None, None, None, None, None, None, None));
    assert!(node.data.statement.is_none() && node.data._struct.is_none());
    assert_eq!(compiler(&vec![node]), "");
}
