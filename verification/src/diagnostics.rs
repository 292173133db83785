//! Diagnostics. The scanner and the dispatch loop never give up on an input;
//! what they pass over in silence can be asked for here, as a list.

use vstd::prelude::*;
use crate::compiler::_match::is_default;
use crate::compiler::_match::is_default_case;
use crate::lexer::dispatch::load;
use crate::lexer::grammar::parse;
use crate::lexer::node::cases_view;
use crate::lexer::node::node_lists_view;
use crate::lexer::node::nodes_view;
use crate::lexer::node::CaseView;
use crate::lexer::node::FunctionCall;
use crate::lexer::node::Match;
use crate::lexer::node::MatchView;
use crate::lexer::node::Node;
use crate::lexer::node::NodeView;
use crate::lexer::scan::advance;
use crate::lexer::scan::inert;
use crate::lexer::scan::state_at;
use crate::token::lemma_structural_tokens_differ;
use crate::token::token_is;
use crate::token::tokens_view;

verus! {

/// Something in the input that is accepted but is likely a mistake.
#[derive(Debug, Clone, Copy, PartialEq, Eq, Structural)]
pub enum Diagnostic {
    /// The block opened by the brace at this position is never closed.
    UnterminatedBlock { at: usize },
    /// The case at this position of a match is the catch-all, and cases
    /// follow it.
    DefaultNotLast { case: usize },
}

/// Opening braces minus closing braces among the tokens before position
/// `j`, comments left out.
pub open spec fn balance(tokens: Seq<Seq<char>>, j: int) -> int {
    state_at(tokens, "EOL"@, -1, j).depth
}

/// The token at `p` is an opening brace outside comments.
pub open spec fn opens_block(tokens: Seq<Seq<char>>, p: int) -> bool {
    &&& 0 <= p < tokens.len()
    &&& tokens[p] == "{"@
    &&& !inert(state_at(tokens, "EOL"@, -1, p), tokens[p])
}

/// The block opened at `p` is still open at position `j`: the balance has
/// stayed above what it was before the brace.
pub open spec fn open_until(tokens: Seq<Seq<char>>, p: int, j: int) -> bool {
    &&& opens_block(tokens, p)
    &&& p < j
    &&& forall|q: int| p < q <= j ==> #[trigger] balance(tokens, q) > balance(tokens, p)
}

/// The block opened at `p` is never closed.
pub open spec fn unterminated(tokens: Seq<Seq<char>>, p: int) -> bool {
    open_until(tokens, p, tokens.len() as int)
}

/// The positions before `n` of the braces whose block is never closed, in
/// rising order.
pub open spec fn open_blocks_before(tokens: Seq<Seq<char>>, n: nat) -> Seq<usize>
    decreases n,
{
    if n == 0 {
        Seq::empty()
    } else {
        let earlier = open_blocks_before(tokens, (n - 1) as nat);
        if unterminated(tokens, n - 1) {
            earlier.push((n - 1) as usize)
        } else {
            earlier
        }
    }
}

/// The positions of the braces whose block is never closed, in rising order.
pub open spec fn open_blocks(tokens: Seq<Seq<char>>) -> Seq<usize> {
    open_blocks_before(tokens, tokens.len())
}

/// A rising list that holds exactly the unterminated positions before `n`
/// is the list of them.
proof fn lemma_rising_list_is_open_blocks(tokens: Seq<Seq<char>>, list: Seq<usize>, n: nat)
    requires
        n <= tokens.len(),
        forall|a: int, b: int| 0 <= a < b < list.len() ==> list[a] < list[b],
        forall|a: int| 0 <= a < list.len() ==> list[a] < n && unterminated(tokens, list[a] as int),
        forall|p: int| 0 <= p < n && unterminated(tokens, p) ==> exists|a: int|
            0 <= a < list.len() && list[a] == p,
    ensures
        list == open_blocks_before(tokens, n),
    decreases n,
{
    if n == 0 {
        if list.len() > 0 {
            assert(list[0] < n);
        }
    } else if unterminated(tokens, n - 1) {
        let at = choose|a: int| 0 <= a < list.len() && list[a] == n - 1;
        assert(at == list.len() - 1) by {
            if at < list.len() - 1 {
                assert(list[at] < list[list.len() - 1]);
            }
        }
        let shorter = list.drop_last();
        assert forall|p: int| 0 <= p < n - 1 && unterminated(tokens, p) implies exists|a: int|
            0 <= a < shorter.len() && shorter[a] == p by {
            let a = choose|a: int| 0 <= a < list.len() && list[a] == p;
            assert(shorter[a] == p);
        }
        assert forall|a: int| 0 <= a < shorter.len() implies shorter[a] < n - 1 && unterminated(
            tokens,
            shorter[a] as int,
        ) by {}
        lemma_rising_list_is_open_blocks(tokens, shorter, (n - 1) as nat);
    } else {
        assert forall|a: int| 0 <= a < list.len() implies list[a] < n - 1 && unterminated(
            tokens,
            list[a] as int,
        ) by {}
        lemma_rising_list_is_open_blocks(tokens, list, (n - 1) as nat);
    }
}

/// The positions of the opening braces whose block is never closed, in
/// rising order. Braces in comments do not count, and a closing brace that
/// closes nothing is passed over.
pub fn unterminated_blocks(input: &Vec<String>) -> (open: Vec<usize>)
    ensures
        open@ == open_blocks(tokens_view(input@)),
{
    let ghost tokens = tokens_view(input@);
    let mut open: Vec<usize> = Vec::new();
    let mut depth: i128 = 0;
    let mut in_comment = false;
    let mut j: usize = 0;
    proof {
        lemma_structural_tokens_differ();
    }
    while j < input.len()
        invariant
            j <= input.len(),
            tokens == tokens_view(input@),
            balance(tokens, j as int) == depth,
            state_at(tokens, "EOL"@, -1, j as int).in_comment == in_comment,
            -j <= depth <= j,
            forall|a: int, b: int| 0 <= a < b < open.len() ==> open[a] < open[b],
            forall|a: int| 0 <= a < open.len() ==> open_until(tokens, open[a] as int, j as int),
            open.len() > 0 ==> balance(tokens, open[open.len() - 1] as int) == depth - 1,
            forall|a: int|
                0 < a < open.len() ==> balance(tokens, #[trigger] open[a] as int) == balance(
                    tokens,
                    open[a - 1] as int,
                ) + 1,
            forall|p: int|
                open_until(tokens, p, j as int) ==> exists|a: int|
                    0 <= a < open.len() && open[a] == p,
        decreases input.len() - j,
    {
        let text = &input[j];
        let ghost before = state_at(tokens, "EOL"@, -1, j as int);
        let ghost earlier = open@;
        proof {
            lemma_structural_tokens_differ();
            assert(tokens[j as int] == text@);
            assert(state_at(tokens, "EOL"@, -1, j + 1) == advance(before, text@, "EOL"@));
        }
        if token_is(text, "#") {
            in_comment = true;
        }
        if in_comment {
            if token_is(text, "EOL") {
                in_comment = false;
            }
        } else if token_is(text, "{") {
            open.push(j);
            depth += 1;
        } else if token_is(text, "}") {
            if open.len() > 0 {
                open.pop();
            }
            depth -= 1;
        }
        proof {
            let next: int = j + 1;
            // every position that stays on the list is still open
            assert forall|a: int| 0 <= a < open.len() implies open_until(
                tokens,
                open[a] as int,
                next,
            ) by {
                let p = open[a] as int;
                if p < j {
                    assert(earlier[a] == p);
                    assert(open_until(tokens, p, j as int));
                    if a < earlier.len() - 1 {
                        assert(earlier[a] < earlier[earlier.len() - 1]);
                        assert(balance(tokens, earlier[earlier.len() - 1] as int) > balance(
                            tokens,
                            p,
                        ));
                    }
                    assert(balance(tokens, next) > balance(tokens, p));
                }
                assert forall|q: int| p < q <= next implies #[trigger] balance(tokens, q)
                    > balance(tokens, p) by {}
            }
            // every position that is still open is on the list
            assert forall|p: int| open_until(tokens, p, next) implies exists|a: int|
                0 <= a < open.len() && open[a] == p by {
                if p < j {
                    assert(open_until(tokens, p, j as int)) by {
                        assert forall|q: int| p < q <= j implies #[trigger] balance(tokens, q)
                            > balance(tokens, p) by {}
                    }
                    let a = choose|a: int| 0 <= a < earlier.len() && earlier[a] == p;
                    assert(balance(tokens, next) > balance(tokens, p));
                    if a >= open.len() {
                        assert(a == earlier.len() - 1);
                    }
                    assert(open[a] == p);
                } else {
                    assert(open[open.len() - 1] == p);
                }
            }
        }
        j += 1;
    }
    proof {
        assert forall|p: int| 0 <= p < tokens.len() && unterminated(tokens, p) implies exists|
            a: int,
        | 0 <= a < open@.len() && open@[a] == p by {
            let a = choose|a: int| 0 <= a < open.len() && open[a] == p;
            assert(open@[a] == p);
        }
        lemma_rising_list_is_open_blocks(tokens, open@, tokens.len());
    }
    open
}

/// The positions among the first `n` cases of the catch-all cases that
/// other cases follow, in rising order.
pub open spec fn misplaced_before(cases: Seq<CaseView>, n: nat) -> Seq<usize>
    decreases n,
{
    if n == 0 || n > cases.len() {
        Seq::empty()
    } else {
        let earlier = misplaced_before(cases, (n - 1) as nat);
        if is_default(cases[n - 1].case) && n < cases.len() {
            earlier.push((n - 1) as usize)
        } else {
            earlier
        }
    }
}

/// The positions of the catch-all cases that other cases follow.
pub open spec fn misplaced(cases: Seq<CaseView>) -> Seq<usize> {
    misplaced_before(cases, cases.len())
}

/// The positions of the catch-all cases of a match that are not its last
/// case, in rising order. The generator writes every case where it stands;
/// cases after a catch-all are never reached.
pub fn misplaced_defaults(m: &Match) -> (found: Vec<usize>)
    ensures
        found@ == misplaced(m@.block),
{
    let ghost cases = cases_view(m.block@);
    let mut found: Vec<usize> = Vec::new();
    let mut k: usize = 0;
    while k < m.block.len()
        invariant
            k <= m.block.len(),
            cases == cases_view(m.block@),
            found@ == misplaced_before(cases, k as nat),
        decreases m.block.len() - k,
    {
        if is_default_case(&m.block[k].case) && k + 1 < m.block.len() {
            found.push(k);
        }
        k += 1;
    }
    found
}

/// The diagnostics for a list of unterminated blocks.
pub open spec fn block_diagnostics(open: Seq<usize>) -> Seq<Diagnostic> {
    Seq::new(open.len(), |k: int| Diagnostic::UnterminatedBlock { at: open[k] })
}

/// The diagnostics for a list of misplaced catch-all cases.
pub open spec fn default_diagnostics(found: Seq<usize>) -> Seq<Diagnostic> {
    Seq::new(found.len(), |k: int| Diagnostic::DefaultNotLast { case: found[k] })
}

/// Appends to the list one diagnostic for each block of the input that is
/// never closed.
pub fn report_open_blocks(input: &Vec<String>, diagnostics: &mut Vec<Diagnostic>)
    ensures
        final(diagnostics)@ == old(diagnostics)@ + block_diagnostics(
            open_blocks(tokens_view(input@)),
        ),
{
    let ghost before = diagnostics@;
    let open = unterminated_blocks(input);
    let mut k: usize = 0;
    while k < open.len()
        invariant
            k <= open.len(),
            diagnostics@ == before + block_diagnostics(open@).take(k as int),
        decreases open.len() - k,
    {
        diagnostics.push(Diagnostic::UnterminatedBlock { at: open[k] });
        k += 1;
    }
}

/// Appends to the list one diagnostic for each catch-all case of the match
/// that is not its last case.
pub fn report_misplaced_defaults(m: &Match, diagnostics: &mut Vec<Diagnostic>)
    ensures
        final(diagnostics)@ == old(diagnostics)@ + default_diagnostics(misplaced(m@.block)),
{
    let ghost before = diagnostics@;
    let found = misplaced_defaults(m);
    let mut k: usize = 0;
    while k < found.len()
        invariant
            k <= found.len(),
            diagnostics@ == before + default_diagnostics(found@).take(k as int),
        decreases found.len() - k,
    {
        diagnostics.push(Diagnostic::DefaultNotLast { case: found[k] });
        k += 1;
    }
}

/// The diagnostics for one node: those of every match in it or below it.
pub open spec fn node_diagnostics(node: NodeView) -> Seq<Diagnostic>
    decreases node, 0nat,
{
    match node {
        NodeView::Function { identifier, return_type, arguments, nodes } => list_diagnostics(
            nodes,
        ),
        NodeView::FunctionCall { identifier, arguments } => lists_diagnostics_first(
            arguments,
            arguments.len(),
        ),
        NodeView::VariableAssignment { identifier, value, immutability } => list_diagnostics(
            value,
        ),
        NodeView::ConditionBlock { keyword, parameters, nodes } => list_diagnostics(parameters)
            + list_diagnostics(nodes),
        NodeView::Match(m) => match_diagnostics(m),
        _ => Seq::empty(),
    }
}

/// The diagnostics for the first `n` nodes of a list, in order.
pub open spec fn list_diagnostics_first(nodes: Seq<NodeView>, n: nat) -> Seq<Diagnostic>
    decreases nodes, n,
{
    if n == 0 || n > nodes.len() {
        Seq::empty()
    } else {
        list_diagnostics_first(nodes, (n - 1) as nat) + node_diagnostics(nodes[n - 1])
    }
}

/// The diagnostics for the nodes of a list, in order.
pub open spec fn list_diagnostics(nodes: Seq<NodeView>) -> Seq<Diagnostic>
    decreases nodes, nodes.len() + 1,
{
    list_diagnostics_first(nodes, nodes.len())
}

/// The diagnostics for the first `n` of a list of node lists, in order.
pub open spec fn lists_diagnostics_first(lists: Seq<Seq<NodeView>>, n: nat) -> Seq<Diagnostic>
    decreases lists, n,
{
    if n == 0 || n > lists.len() {
        Seq::empty()
    } else {
        lists_diagnostics_first(lists, (n - 1) as nat) + list_diagnostics(lists[n - 1])
    }
}

/// The diagnostics for the bodies of the first `n` cases, in order.
pub open spec fn bodies_diagnostics_first(cases: Seq<CaseView>, n: nat) -> Seq<Diagnostic>
    decreases cases, n,
{
    if n == 0 || n > cases.len() {
        Seq::empty()
    } else {
        bodies_diagnostics_first(cases, (n - 1) as nat) + list_diagnostics(cases[n - 1].block)
    }
}

/// The diagnostics for a match: its misplaced catch-all cases, then what its
/// condition holds, then what the bodies of its cases hold.
pub open spec fn match_diagnostics(m: MatchView) -> Seq<Diagnostic>
    decreases m, 0nat,
{
    default_diagnostics(misplaced(m.block)) + list_diagnostics(m.condition)
        + bodies_diagnostics_first(m.block, m.block.len())
}

/// Appends to the list the diagnostics for a match and for every match
/// below it.
pub fn report_match(m: &Match, diagnostics: &mut Vec<Diagnostic>)
    ensures
        final(diagnostics)@ == old(diagnostics)@ + match_diagnostics(m@),
    decreases m,
{
    let ghost before = diagnostics@;
    let ghost cases = cases_view(m.block@);
    report_misplaced_defaults(m, diagnostics);
    report_nodes(&m.condition, diagnostics);
    let ghost head = diagnostics@;
    let mut k: usize = 0;
    assert(diagnostics@ =~= head + bodies_diagnostics_first(cases, 0));
    while k < m.block.len()
        invariant
            k <= m.block.len(),
            cases == cases_view(m.block@),
            diagnostics@ == head + bodies_diagnostics_first(cases, k as nat),
        decreases m.block.len() - k,
    {
        report_nodes(&m.block[k].block, diagnostics);
        k += 1;
        assert(diagnostics@ =~= head + bodies_diagnostics_first(cases, k as nat));
    }
    assert(diagnostics@ =~= before + match_diagnostics(m@));
}

/// Appends to the list the diagnostics for the arguments of a call.
pub fn report_call(c: &FunctionCall, diagnostics: &mut Vec<Diagnostic>)
    ensures
        final(diagnostics)@ == old(diagnostics)@ + lists_diagnostics_first(
            node_lists_view(c.arguments@),
            c.arguments.len() as nat,
        ),
    decreases c,
{
    let ghost before = diagnostics@;
    let ghost lists = node_lists_view(c.arguments@);
    let mut k: usize = 0;
    assert(diagnostics@ =~= before + lists_diagnostics_first(lists, 0));
    while k < c.arguments.len()
        invariant
            k <= c.arguments.len(),
            lists == node_lists_view(c.arguments@),
            diagnostics@ == before + lists_diagnostics_first(lists, k as nat),
        decreases c.arguments.len() - k,
    {
        report_nodes(&c.arguments[k], diagnostics);
        k += 1;
        assert(diagnostics@ =~= before + lists_diagnostics_first(lists, k as nat));
    }
}

/// Appends to the list the diagnostics for one node.
pub fn report_node(node: &Node, diagnostics: &mut Vec<Diagnostic>)
    ensures
        final(diagnostics)@ == old(diagnostics)@ + node_diagnostics(node@),
    decreases node,
{
    let ghost before = diagnostics@;
    if node.data.statement.is_some() {
        // a statement holds no nodes
    } else if let Some(f) = &node.data.function {
        report_nodes(&f.nodes, diagnostics);
    } else if let Some(c) = &node.data.function_call {
        report_call(c, diagnostics);
    } else if let Some(v) = &node.data.variable_assignment {
        report_nodes(&v.value, diagnostics);
    } else if node.data.expression.is_some() {
        // nor does a raw expression
    } else if let Some(c) = &node.data.condition_block {
        report_nodes(&c.parameters, diagnostics);
        report_nodes(&c.nodes, diagnostics);
    } else if let Some(m) = &node.data._match {
        report_match(m, diagnostics);
    }
    assert(diagnostics@ =~= before + node_diagnostics(node@));
}

/// Appends to the list the diagnostics for every node of a program, in
/// order.
pub fn report_nodes(nodes: &Vec<Node>, diagnostics: &mut Vec<Diagnostic>)
    ensures
        final(diagnostics)@ == old(diagnostics)@ + list_diagnostics(nodes_view(nodes@)),
    decreases nodes,
{
    let ghost before = diagnostics@;
    let ghost views = nodes_view(nodes@);
    let mut k: usize = 0;
    assert(diagnostics@ =~= before + list_diagnostics_first(views, 0));
    while k < nodes.len()
        invariant
            k <= nodes.len(),
            views == nodes_view(nodes@),
            diagnostics@ == before + list_diagnostics_first(views, k as nat),
        decreases nodes.len() - k,
    {
        report_node(&nodes[k], diagnostics);
        k += 1;
        assert(diagnostics@ =~= before + list_diagnostics_first(views, k as nat));
    }
}

/// The diagnostics for a token list: one for each block that is never
/// closed, then one for each misplaced catch-all case of the program that
/// the dispatch loop builds from it.
pub fn diagnose(input: &Vec<String>) -> (diagnostics: Vec<Diagnostic>)
    ensures
        diagnostics@ == block_diagnostics(open_blocks(tokens_view(input@))) + list_diagnostics(
            parse(tokens_view(input@)),
        ),
{
    let mut diagnostics: Vec<Diagnostic> = Vec::new();
    report_open_blocks(input, &mut diagnostics);
    let program = load(input);
    report_nodes(&program, &mut diagnostics);
    assert(diagnostics@ =~= block_diagnostics(open_blocks(tokens_view(input@)))
        + list_diagnostics(parse(tokens_view(input@))));
    diagnostics
}

} // verus!
