//! The construct builders. Each takes what the scan of its line found and
//! appends the nodes of its construct to the program.

use vstd::prelude::*;
use crate::lexer::dispatch::load_fragment;
use crate::lexer::grammar::argument_of;
use crate::lexer::grammar::argument_region;
use crate::lexer::grammar::arguments_from;
use crate::lexer::grammar::assignment_nodes;
use crate::lexer::grammar::call_nodes;
use crate::lexer::grammar::cases_from;
use crate::lexer::grammar::condition_nodes;
use crate::lexer::grammar::function_nodes;
use crate::lexer::grammar::list_items;
use crate::lexer::grammar::literal_nodes;
use crate::lexer::grammar::match_nodes;
use crate::lexer::grammar::math_nodes;
use crate::lexer::grammar::member_of;
use crate::lexer::grammar::statement_nodes;
use crate::lexer::grammar::struct_nodes;
use crate::lexer::node::all_well_formed;
use crate::lexer::node::arguments_view;
use crate::lexer::node::case_view;
use crate::lexer::node::cases_view;
use crate::lexer::node::lemma_nodes_view_push;
use crate::lexer::node::members_view;
use crate::lexer::node::node_lists_view;
use crate::lexer::node::nodes_view;
use crate::lexer::node::Argument;
use crate::lexer::node::ConditionBlock;
use crate::lexer::node::Expression;
use crate::lexer::node::Function;
use crate::lexer::node::FunctionCall;
use crate::lexer::node::Immutablity;
use crate::lexer::node::Literal;
use crate::lexer::node::Match;
use crate::lexer::node::MatchCase;
use crate::lexer::node::Math;
use crate::lexer::node::Node;
use crate::lexer::node::Operations;
use crate::lexer::node::Statement;
use crate::lexer::node::Struct;
use crate::lexer::node::StructMember;
use crate::lexer::node::VariableAssignment;
use crate::lexer::pieces::find_operator;
use crate::lexer::pieces::operation_from;
use crate::lexer::pieces::split_list;
use crate::lexer::pieces::strip_line_ends;
use crate::lexer::pieces::token_lists_view;
use crate::lexer::pieces::without_final_colon;
use crate::lexer::pieces::without_glued_colon;
use crate::lexer::scan::scan_from;
use crate::lexer::scan_laws::lemma_scan_lengths;
use crate::lexer::scan_laws::lemma_scan_terminates;
use crate::token::append_range;
use crate::token::copy_range;
use crate::token::find_token;
use crate::token::token_is;
use crate::token::tokens_view;
use crate::types::type_from_name;
use crate::types::Types;

verus! {

/// Appends one node to the program.
pub fn emit(program: &mut Vec<Node>, node: Node)
    ensures
        final(program)@ == old(program)@.push(node),
        nodes_view(final(program)@) == nodes_view(old(program)@) + seq![node@],
        all_well_formed(old(program)@) && node.well_formed() ==> all_well_formed(
            final(program)@,
        ),
{
    proof {
        lemma_nodes_view_push(program@, node);
    }
    program.push(node);
}

/// Builds an `include` or a `return`.
pub fn build_statement(program: &mut Vec<Node>, text: &String, flat: Vec<String>)
    ensures
        nodes_view(final(program)@) == nodes_view(old(program)@) + statement_nodes(
            text@,
            tokens_view(flat@),
        ),
        all_well_formed(old(program)@) ==> all_well_formed(final(program)@),
{
    emit(program, Node::statement(Statement { action: text.clone(), parameters: flat }));
}

/// Builds a literal of the given type from one token.
pub fn build_literal(program: &mut Vec<Node>, text: &String, l_type: Types)
    ensures
        nodes_view(final(program)@) == nodes_view(old(program)@) + literal_nodes(text@, l_type),
        all_well_formed(old(program)@) ==> all_well_formed(final(program)@),
{
    emit(program, Node::literal(Literal { literal: text.clone(), l_type }));
}

/// Builds arithmetic or a comparison from the token at the position and the
/// rest of its line.
pub fn build_math(program: &mut Vec<Node>, text: &String, flat: &Vec<String>)
    ensures
        nodes_view(final(program)@) == nodes_view(old(program)@) + math_nodes(
            text@,
            tokens_view(flat@),
        ),
        all_well_formed(old(program)@) ==> all_well_formed(final(program)@),
{
    let at = find_operator(flat, 0);
    let mut lhs: Vec<String> = Vec::new();
    lhs.push(text.clone());
    assert(tokens_view(lhs@) =~= seq![text@]);
    append_range(&mut lhs, flat, 0, at);
    let rhs = if at < flat.len() {
        copy_range(flat, at + 1, flat.len())
    } else {
        let none: Vec<String> = Vec::new();
        assert(tokens_view(none@) =~= Seq::<Seq<char>>::empty());
        none
    };
    let operation = if at < flat.len() {
        operation_from(&flat[at])
    } else {
        Operations::NULL
    };
    emit(
        program,
        Node::math(Math { lhs: Expression { expr: lhs }, rhs: Expression { expr: rhs }, operation }),
    );
}

/// Builds a `let` or a `const` from the rest of its line.
pub fn build_assignment(program: &mut Vec<Node>, flat: &Vec<String>, immutability: Immutablity)
    ensures
        nodes_view(final(program)@) == nodes_view(old(program)@) + assignment_nodes(
            tokens_view(flat@),
            immutability,
        ),
        all_well_formed(old(program)@) ==> all_well_formed(final(program)@),
    decreases flat.len(), 2nat, 0nat,
{
    let at = find_token(flat, "=", 0);
    let identifier = copy_range(flat, 0, at);
    let rest = if at < flat.len() {
        copy_range(flat, at + 1, flat.len())
    } else {
        let none: Vec<String> = Vec::new();
        none
    };
    let value = load_fragment(&rest);
    emit(
        program,
        Node::variable_assignment(
            VariableAssignment { identifier, value: Box::new(value), immutability },
        ),
    );
}

/// Builds an `if`, an `else` or a `while` from its keyword, the rest of its
/// line and its block.
pub fn build_condition(
    program: &mut Vec<Node>,
    keyword: String,
    flat: &Vec<String>,
    block: &Vec<String>,
)
    ensures
        nodes_view(final(program)@) == nodes_view(old(program)@) + condition_nodes(
            keyword@,
            tokens_view(flat@),
            tokens_view(block@),
        ),
        all_well_formed(old(program)@) ==> all_well_formed(final(program)@),
    decreases flat.len() + block.len(), 2nat, 0nat,
{
    let parameters = load_fragment(flat);
    let nodes = load_fragment(block);
    emit(program, Node::condition_block(ConditionBlock { keyword, parameters, nodes }));
}

/// Reads the cases of a match from its block.
pub fn load_cases(block: &Vec<String>) -> (cases: Vec<MatchCase>)
    ensures
        cases_view(cases@) == cases_from(tokens_view(block@), 0),
        forall|k: int| 0 <= k < cases.len() ==> all_well_formed((#[trigger] cases[k]).block@),
    decreases block.len(), 1nat, 0nat,
{
    let ghost view = tokens_view(block@);
    let mut cases: Vec<MatchCase> = Vec::new();
    let mut c: usize = 0;
    while c < block.len()
        invariant
            c <= block.len(),
            view == tokens_view(block@),
            cases_view(cases@) + cases_from(view, c as int) == cases_from(view, 0),
            forall|k: int| 0 <= k < cases.len() ==> all_well_formed((#[trigger] cases[k]).block@),
        decreases block.len() - c,
    {
        let text = &block[c];
        if token_is(text, "EOL") {
            c += 1;
        } else {
            let found = scan_from("EOL", block, c + 1);
            proof {
                lemma_scan_terminates(view, "EOL"@, c as int);
                lemma_scan_lengths(view, "EOL"@, c as int);
            }
            let mut expression: Vec<String> = Vec::new();
            if !token_is(text, "case") {
                expression.push(text.clone());
                assert(tokens_view(expression@) =~= seq![text@]);
            }
            append_range(&mut expression, &found.1, 0, found.1.len());
            assert(tokens_view(found.1@).subrange(0, found.1.len() as int) =~= tokens_view(
                found.1@,
            ));
            let case = MatchCase {
                case: without_final_colon(expression),
                block: load_fragment(&found.2),
            };
            let ghost earlier = cases@;
            let ghost rest = cases_from(view, found.0 as int);
            cases.push(case);
            proof {
                assert(cases_view(cases@) + rest =~= cases_view(earlier) + (seq![case_view(case)]
                    + rest));
            }
            c = found.0;
        }
    }
    cases
}

/// Builds a `match` from the rest of its line and its block.
pub fn build_match(program: &mut Vec<Node>, flat: &Vec<String>, block: &Vec<String>)
    ensures
        nodes_view(final(program)@) == nodes_view(old(program)@) + match_nodes(
            tokens_view(flat@),
            tokens_view(block@),
        ),
        all_well_formed(old(program)@) ==> all_well_formed(final(program)@),
    decreases flat.len() + block.len(), 2nat, 0nat,
{
    let condition = load_fragment(flat);
    let cases = load_cases(block);
    emit(program, Node::matching(Match { condition, block: cases }));
}

/// Builds a `struct` from the rest of its line and its block.
pub fn build_struct(program: &mut Vec<Node>, flat: Vec<String>, block: &Vec<String>)
    ensures
        nodes_view(final(program)@) == nodes_view(old(program)@) + struct_nodes(
            tokens_view(flat@),
            tokens_view(block@),
        ),
        all_well_formed(old(program)@) ==> all_well_formed(final(program)@),
{
    let items = split_list(block, ",", 0);
    let ghost lists = list_items(tokens_view(block@), ","@, 0);
    let ghost wanted = Seq::new(lists.len(), |k: int| member_of(lists[k]));
    let mut members: Vec<StructMember> = Vec::new();
    let mut k: usize = 0;
    while k < items.len()
        invariant
            k <= items.len(),
            lists == token_lists_view(items@),
            wanted == Seq::new(lists.len(), |k: int| member_of(lists[k])),
            members_view(members@) == wanted.take(k as int),
            members.len() == k,
            lists.len() == items.len(),
        decreases items.len() - k,
    {
        let item = &items[k];
        let n = item.len();
        let member = if n >= 2 {
            StructMember {
                identifier: without_final_colon(copy_range(item, 0, n - 1)),
                t_mem: type_from_name(&item[n - 1]),
            }
        } else {
            assert(tokens_view(item@).subrange(0, n as int) =~= tokens_view(item@));
            StructMember {
                identifier: without_final_colon(copy_range(item, 0, n)),
                t_mem: Types::Void,
            }
        };
        let ghost earlier = members@;
        members.push(member);
        k += 1;
        proof {
            assert forall|m: int| 0 <= m < k - 1 implies members_view(members@)[m] == wanted[m] by {
                assert(members_view(earlier)[m] == wanted.take(k - 1)[m]);
            }
        }
    }
    assert(wanted.take(k as int) =~= wanted);
    emit(program, Node::structure(Struct { identifier: flat, members }));
}

/// Builds a `fun` from the rest of its line and its block.
pub fn build_function(program: &mut Vec<Node>, flat: &Vec<String>, block: &Vec<String>)
    ensures
        nodes_view(final(program)@) == nodes_view(old(program)@) + function_nodes(
            tokens_view(flat@),
            tokens_view(block@),
        ),
        all_well_formed(old(program)@) ==> all_well_formed(final(program)@),
    decreases flat.len() + block.len(), 2nat, 0nat,
{
    let open = find_token(flat, "(", 0);
    let close = find_token(flat, ")", open);
    let region = copy_range(flat, open, close);
    let items = split_list(&region, ",", 1);
    let ghost lists = list_items(argument_region(tokens_view(flat@)), ","@, 1);
    let ghost wanted = Seq::new(lists.len(), |k: int| argument_of(lists[k]));
    let mut arguments: Vec<Argument> = Vec::new();
    let mut k: usize = 0;
    while k < items.len()
        invariant
            k <= items.len(),
            lists == token_lists_view(items@),
            wanted == Seq::new(lists.len(), |k: int| argument_of(lists[k])),
            arguments_view(arguments@) == wanted.take(k as int),
            arguments.len() == k,
            lists.len() == items.len(),
        decreases items.len() - k,
    {
        let item = &items[k];
        let identifier = if item.len() > 0 {
            without_glued_colon(&item[0])
        } else {
            String::new()
        };
        let a_type = if item.len() >= 2 {
            type_from_name(&item[item.len() - 1])
        } else {
            Types::Void
        };
        let ghost earlier = arguments@;
        let argument = Argument { identifier, a_type };
        assert(item.len() > 0 ==> item@[0]@ == tokens_view(item@)[0] && item@[item.len() - 1]@
            == tokens_view(item@).last());
        arguments.push(argument);
        k += 1;
        proof {
            assert forall|m: int| 0 <= m < k - 1 implies arguments_view(arguments@)[m]
                == wanted[m] by {
                assert(arguments_view(earlier)[m] == wanted.take(k - 1)[m]);
            }
        }
    }
    assert(wanted.take(k as int) =~= wanted);
    let return_type = if close < flat.len() && close + 1 < flat.len() {
        type_from_name(&flat[flat.len() - 1])
    } else {
        Types::Void
    };
    let nodes = load_fragment(block);
    emit(
        program,
        Node::function(
            Function { identifier: copy_range(flat, 0, open), return_type, arguments, nodes },
        ),
    );
}

/// Reads the arguments of a call from its region.
pub fn load_arguments(region: &Vec<String>) -> (arguments: Vec<Vec<Node>>)
    ensures
        node_lists_view(arguments@) == arguments_from(tokens_view(region@), 1),
        forall|k: int| 0 <= k < arguments.len() ==> all_well_formed(#[trigger] arguments[k]@),
    decreases region.len(), 1nat, 0nat,
{
    let ghost view = tokens_view(region@);
    let mut arguments: Vec<Vec<Node>> = Vec::new();
    let mut pos: usize = 1;
    while pos < region.len()
        invariant
            1 <= pos,
            view == tokens_view(region@),
            node_lists_view(arguments@) + arguments_from(view, pos as int) == arguments_from(
                view,
                1,
            ),
            forall|k: int| 0 <= k < arguments.len() ==> all_well_formed(#[trigger] arguments[k]@),
        decreases region.len() - pos,
    {
        let found = scan_from(",", region, pos);
        let item = strip_line_ends(&found.1);
        proof {
            lemma_scan_terminates(view, ","@, pos - 1);
            lemma_scan_lengths(view, ","@, pos - 1);
        }
        let ghost rest = arguments_from(view, found.0 as int);
        let ghost earlier = arguments@;
        if item.len() > 0 {
            let argument = load_fragment(&item);
            arguments.push(argument);
            proof {
                assert(node_lists_view(arguments@) =~= node_lists_view(earlier).push(
                    nodes_view(argument@),
                ));
                assert(node_lists_view(arguments@) + rest =~= node_lists_view(earlier) + (seq![
                    nodes_view(argument@),
                ] + rest));
            }
        }
        pos = found.0;
    }
    arguments
}

/// Builds a call from the token at the position and the rest of its line.
pub fn build_call(program: &mut Vec<Node>, text: &String, flat: &Vec<String>)
    ensures
        nodes_view(final(program)@) == nodes_view(old(program)@) + call_nodes(
            text@,
            tokens_view(flat@),
        ),
        all_well_formed(old(program)@) ==> all_well_formed(final(program)@),
    decreases flat.len(), 2nat, 0nat,
{
    let open = find_token(flat, "(", 0);
    let mut identifier: Vec<String> = Vec::new();
    identifier.push(text.clone());
    assert(tokens_view(identifier@) =~= seq![text@]);
    append_range(&mut identifier, flat, 0, open);
    let n = flat.len();
    let end = if open < n && open + 1 < n && token_is(&flat[n - 1], ")") {
        n - 1
    } else {
        n
    };
    let region = copy_range(flat, open, end);
    let arguments = load_arguments(&region);
    emit(program, Node::function_call(FunctionCall { identifier, arguments }));
}

} // verus!
