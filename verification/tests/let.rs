use comrade::lexer::load;
use comrade::{Immutablity, Literal, Node, Types, VariableAssignment};

#[test]
fn test() {
    let tokens: Vec<String> = ["let", "a", "=", "5", "EOL"].iter().map(|w| w.to_string()).collect();
    let program = load(&tokens);
    assert_eq!(
        program,
        vec![Node::new(
            None,
            None,
            None,
            Some(VariableAssignment {
                identifier: vec!["a".to_string()],
                immutability: Immutablity::False,
                value: Box::new(vec![Node::new(
                    None,
                    None,
                    None,
                    None,
                    None,
                    None,
                    None,
                    Some(Literal { literal: "5".to_string(), l_type: Types::I32 }),
                    None,
                    None,
                )]),
            }),
            None,
            None,
            None,
            None,
            None,
            None,
        )]
    )
}
