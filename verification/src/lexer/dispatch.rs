//! The dispatch loop.

use vstd::prelude::*;
use crate::lexer::builders::build_assignment;
use crate::lexer::builders::build_call;
use crate::lexer::builders::build_condition;
use crate::lexer::builders::build_function;
use crate::lexer::builders::build_literal;
use crate::lexer::builders::build_match;
use crate::lexer::builders::build_math;
use crate::lexer::builders::build_statement;
use crate::lexer::builders::build_struct;
use crate::lexer::builders::emit;
use crate::lexer::classify::classify;
use crate::lexer::classify::Construct;
use crate::lexer::grammar::fragment;
use crate::lexer::grammar::parse;
use crate::lexer::grammar::parse_from;
use crate::lexer::node::all_well_formed;
use crate::lexer::node::nodes_view;
use crate::lexer::node::Expression;
use crate::lexer::node::Immutablity;
use crate::lexer::node::Node;
use crate::lexer::pieces::strip_line_ends;
use crate::lexer::scan::scan_from;
use crate::lexer::scan_laws::lemma_scan_lengths;
use crate::lexer::scan_laws::lemma_scan_terminates;
use crate::token::token_is;
use crate::token::tokens_view;
use crate::types::Types;

verus! {

/// Builds the nodes of a token list that stands for a value or a body. Where
/// the dispatch loop builds nothing from it, the tokens are kept as one raw
/// expression, line ends left out.
pub fn load_fragment(tokens: &Vec<String>) -> (nodes: Vec<Node>)
    ensures
        nodes_view(nodes@) == fragment(tokens_view(tokens@)),
        all_well_formed(nodes@),
    decreases tokens.len(), 1nat, 0nat,
{
    let mut nodes = load(tokens);
    if nodes.len() == 0 {
        let raw = strip_line_ends(tokens);
        if raw.len() > 0 {
            emit(&mut nodes, Node::expression(Expression { expr: raw }));
        }
    }
    nodes
}

/// Builds the program of a token list: walks it from the left, decides at
/// each position which construct begins there, has that construct built and
/// goes on behind it. A token that begins no construct is dropped.
pub fn load(input: &Vec<String>) -> (program: Vec<Node>)
    ensures
        nodes_view(program@) == parse(tokens_view(input@)),
        all_well_formed(program@),
    decreases input.len(), 0nat, 0nat,
{
    let ghost tokens = tokens_view(input@);
    let mut program: Vec<Node> = Vec::new();
    let mut previous_text = String::new();
    let mut i: usize = 0;
    while i < input.len()
        invariant
            i <= input.len(),
            tokens == tokens_view(input@),
            nodes_view(program@) + parse_from(tokens, i as int, previous_text@) == parse(tokens),
            all_well_formed(program@),
        decreases input.len() - i,
    {
        let (after, flat, block, _) = scan_from("EOL", input, i + 1);
        let text = &input[i];
        let kind = classify(text, &flat);
        let ghost earlier = nodes_view(program@);
        proof {
            lemma_scan_terminates(tokens, "EOL"@, i as int);
            lemma_scan_lengths(tokens, "EOL"@, i as int);
        }
        let advance = match kind {
            Construct::Comment => after,
            Construct::Separator => i + 1,
            Construct::Statement => {
                build_statement(&mut program, text, flat);
                after
            },
            Construct::Boolean => {
                build_literal(&mut program, text, Types::Bool);
                after
            },
            Construct::Let => {
                build_assignment(&mut program, &flat, Immutablity::False);
                after
            },
            Construct::Const => {
                build_assignment(&mut program, &flat, Immutablity::True);
                after
            },
            Construct::Conditional => {
                if token_is(text, "else") && flat.len() > 0 && token_is(&flat[0], "if") {
                    i + 1
                } else {
                    let keyword = if token_is(text, "if") && token_is(&previous_text, "else") {
                        String::from_str("else if")
                    } else {
                        text.clone()
                    };
                    build_condition(&mut program, keyword, &flat, &block);
                    after
                }
            },
            Construct::While => {
                build_condition(&mut program, text.clone(), &flat, &block);
                after
            },
            Construct::Match => {
                build_match(&mut program, &flat, &block);
                after
            },
            Construct::Struct => {
                build_struct(&mut program, flat, &block);
                after
            },
            Construct::Function => {
                build_function(&mut program, &flat, &block);
                after
            },
            Construct::Call => {
                build_call(&mut program, text, &flat);
                after
            },
            Construct::Arithmetic => {
                build_math(&mut program, text, &flat);
                after
            },
            Construct::Text => {
                build_literal(&mut program, text, Types::Str);
                i + 1
            },
            Construct::Number => {
                build_literal(&mut program, text, Types::I32);
                i + 1
            },
            Construct::Nothing => i + 1,
        };
        proof {
            let built = nodes_view(program@).subrange(
                earlier.len() as int,
                nodes_view(program@).len() as int,
            );
            let rest = parse_from(tokens, advance as int, text@);
            assert(nodes_view(program@) =~= earlier + built);
            assert(parse_from(tokens, i as int, previous_text@) =~= built + rest);
            assert(earlier + (built + rest) =~= (earlier + built) + rest);
        }
        previous_text = text.clone();
        i = advance;
    }
    program
}

} // verus!
