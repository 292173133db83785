//! The match compiler: lowers a multi-way match to a chain of conditional
//! branches that compare one value for equality.

use vstd::prelude::*;
use crate::compiler::append_raw;
use crate::compiler::compiler;
use crate::compiler::render_raw;
use crate::compiler::render_nodes;
use crate::lexer::node::cases_view;
use crate::lexer::node::nodes_view;
use crate::lexer::node::CaseView;
use crate::lexer::node::Match;
use crate::lexer::node::MatchView;
use crate::token::token_is;
use crate::token::tokens_view;

verus! {

/// Whether a case expression is the catch-all: the single token `default`.
pub open spec fn is_default(case: Seq<Seq<char>>) -> bool {
    case.len() == 1 && case[0] == "default"@
}

/// The text of one case of a match on `condition`. The first case opens the
/// chain; a later one continues it, without a test when it is the catch-all.
/// The case expression is lowered as the raw expression that it is, the body
/// as any list of nodes.
pub open spec fn render_case(condition: Seq<char>, case: CaseView, first: bool) -> Seq<char>
    decreases case, 0nat,
{
    if first {
        "if("@ + condition + " == "@ + render_raw(case.case) + ") {"@ + render_nodes(case.block)
            + "}"@
    } else if is_default(case.case) {
        "else {"@ + render_nodes(case.block) + "}"@
    } else {
        "else if("@ + condition + " == "@ + render_raw(case.case) + ") {"@ + render_nodes(
            case.block,
        ) + "}"@
    }
}

/// The texts of the first `n` cases of a match on `condition`.
pub open spec fn render_cases(condition: Seq<char>, cases: Seq<CaseView>, n: nat) -> Seq<char>
    decreases cases, n,
{
    if n == 0 || n > cases.len() {
        Seq::empty()
    } else {
        render_cases(condition, cases, (n - 1) as nat) + render_case(
            condition,
            cases[n - 1],
            n == 1,
        )
    }
}

/// The text of a match: its condition rendered once, then its cases in
/// source order as a chain of conditional branches.
pub open spec fn render_match(m: MatchView) -> Seq<char>
    decreases m, 0nat,
{
    render_cases(render_nodes(m.condition), m.block, m.block.len())
}

/// Whether a case expression is the catch-all.
pub fn is_default_case(case: &Vec<String>) -> (default: bool)
    ensures
        default == is_default(tokens_view(case@)),
{
    case.len() == 1 && token_is(&case[0], "default")
}

/// Lowers a match to a chain of conditional branches. The condition is
/// lowered once and its text is used in every test.
pub fn lower_match(m: &Match) -> (text: String)
    ensures
        text@ == render_match(m@),
    decreases m,
{
    let ghost cases = cases_view(m.block@);
    let to_eval = compiler(&m.condition);
    let mut output = String::new();
    let mut i: usize = 0;
    while i < m.block.len()
        invariant
            i <= m.block.len(),
            cases == cases_view(m.block@),
            to_eval@ == render_nodes(nodes_view(m.condition@)),
            output@ == render_cases(to_eval@, cases, i as nat),
        decreases m.block.len() - i,
    {
        let case = &m.block[i];
        let ghost earlier = output@;
        let body = compiler(&case.block);
        if i > 0 && is_default_case(&case.case) {
            output.append("else {");
        } else {
            if i == 0 {
                output.append("if(");
            } else {
                output.append("else if(");
            }
            output.append(to_eval.as_str());
            output.append(" == ");
            append_raw(&mut output, &case.case);
            output.append(") {");
        }
        output.append(body.as_str());
        output.append("}");
        i += 1;
        assert(output@ =~= earlier + render_case(to_eval@, cases[i - 1], i == 1));
    }
    output
}

/// Lowering reads nothing but the match: two matches with the same
/// condition and the same cases are lowered to the same text, character for
/// character.
pub proof fn lemma_lowering_repeats(first: Match, second: Match)
    requires
        first@ == second@,
    ensures
        render_match(first@) == render_match(second@),
{
}

/// Lowers a match to target text and leaves the match as it was.
///
/// The first case becomes `if(condition == case) {body}`. Each later case
/// becomes `else if(condition == case) {body}`, or `else {body}` when its
/// expression is the single token `default`. Cases are written in source
/// order, wherever the catch-all stands.
pub fn compile(input: &mut Match) -> (output: String)
    ensures
        output@ == render_match(old(input)@),
        *final(input) == *old(input),
{
    lower_match(input)
}

} // verus!
