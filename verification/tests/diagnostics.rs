use comrade::diagnostics::{
    diagnose, misplaced_defaults, report_misplaced_defaults, report_nodes, report_open_blocks,
    unterminated_blocks, Diagnostic,
};
use comrade::lexer::load;
use comrade::{
    ConditionBlock, FunctionCall, Immutablity, Match, MatchCase, Node, VariableAssignment,
};

fn line(text: &str) -> Vec<String> {
    text.split_whitespace().map(|w| w.to_string()).collect()
}

fn cases(expressions: &[&str]) -> Match {
    Match {
        condition: vec![],
        block: expressions.iter().map(|e| MatchCase { case: line(e), block: vec![] }).collect(),
    }
}

#[test]
fn balanced_input_has_no_open_block() {
    assert_eq!(unterminated_blocks(&line("fun f { a { b } c } EOL { }")), Vec::<usize>::new());
    assert_eq!(unterminated_blocks(&vec![]), Vec::<usize>::new());
}

#[test]
fn open_block_is_reported_at_its_brace() {
    assert_eq!(unterminated_blocks(&line("fun f { a { b } c")), vec![2]);
    assert_eq!(unterminated_blocks(&line("{ } {")), vec![2]);
}

#[test]
fn nested_open_blocks_are_reported_in_order() {
    assert_eq!(unterminated_blocks(&line("a { b { c { } d")), vec![1, 3]);
}

#[test]
fn stray_closing_brace_closes_nothing() {
    assert_eq!(unterminated_blocks(&line("} {")), vec![1]);
    assert_eq!(unterminated_blocks(&line("{ } } { }")), Vec::<usize>::new());
    assert_eq!(unterminated_blocks(&line("} } { { }")), vec![2]);
}

#[test]
fn braces_in_comments_are_not_blocks() {
    assert_eq!(unterminated_blocks(&line("# { EOL a")), Vec::<usize>::new());
    assert_eq!(unterminated_blocks(&line("{ # } EOL a")), vec![0]);
    assert_eq!(unterminated_blocks(&line("{ # x EOL }")), Vec::<usize>::new());
}

#[test]
fn default_before_other_cases_is_reported() {
    assert_eq!(misplaced_defaults(&cases(&["1", "default"])), Vec::<usize>::new());
    assert_eq!(misplaced_defaults(&cases(&["default"])), Vec::<usize>::new());
    assert_eq!(misplaced_defaults(&cases(&[])), Vec::<usize>::new());
    assert_eq!(misplaced_defaults(&cases(&["default", "1"])), vec![0]);
    assert_eq!(misplaced_defaults(&cases(&["1", "default", "2", "default", "default"])), vec![1, 3]);
    assert_eq!(misplaced_defaults(&cases(&["1", "default x", "2"])), Vec::<usize>::new());
}

#[test]
fn reports_append_to_the_list() {
    let mut list = vec![];
    report_open_blocks(&line("a { b { c"), &mut list);
    report_misplaced_defaults(&cases(&["default", "1", "default"]), &mut list);
    report_open_blocks(&line("a { }"), &mut list);
    assert_eq!(
        list,
        vec![
            Diagnostic::UnterminatedBlock { at: 1 },
            Diagnostic::UnterminatedBlock { at: 3 },
            Diagnostic::DefaultNotLast { case: 0 },
        ]
    );
}

#[test]
fn diagnose_finds_open_blocks_and_nested_matches() {
    let input = line(
        "match x { default : { a } 1 : { match y { 2 : { } default : { } 3 : { } } } } EOL fun f {",
    );
    assert_eq!(
        diagnose(&input),
        vec![
            Diagnostic::UnterminatedBlock { at: 32 },
            Diagnostic::DefaultNotLast { case: 0 },
            Diagnostic::DefaultNotLast { case: 1 },
        ]
    );
}

#[test]
fn diagnose_is_silent_on_a_sound_program() {
    assert_eq!(diagnose(&line("let a = 5 EOL match a { 5 : { b } default : { c } } EOL")), vec![]);
    assert_eq!(diagnose(&vec![]), vec![]);
}

#[test]
fn matches_are_found_in_every_body() {
    let inner = "match y { default : { } 1 : { } }";
    for text in [
        format!("fun f ( ) {{ {inner} }}"),
        format!("while a {{ {inner} }}"),
        format!("if a {{ }} else {{ {inner} }}"),
        format!("match a {{ 1 : {{ {inner} }} }}"),
    ] {
        let mut list = vec![Diagnostic::UnterminatedBlock { at: 7 }];
        report_nodes(&load(&line(&text)), &mut list);
        assert_eq!(
            list,
            vec![Diagnostic::UnterminatedBlock { at: 7 }, Diagnostic::DefaultNotLast { case: 0 }],
            "{}",
            text
        );
    }
}

#[test]
fn matches_are_found_in_values_arguments_and_conditions() {
    let inner = || vec![Node::matching(cases(&["default", "1"]))];
    let holders = vec![
        Node::variable_assignment(VariableAssignment {
            identifier: line("v"),
            value: Box::new(inner()),
            immutability: Immutablity::False,
        }),
        Node::function_call(FunctionCall { identifier: line("g"), arguments: vec![vec![], inner()] }),
        Node::condition_block(ConditionBlock {
            keyword: "if".to_string(),
            parameters: inner(),
            nodes: vec![],
        }),
        Node::matching(Match { condition: inner(), block: vec![] }),
    ];
    let mut list = vec![];
    report_nodes(&holders, &mut list);
    assert_eq!(list, vec![Diagnostic::DefaultNotLast { case: 0 }; 4]);
}
