//! What a token list means: the nodes that the dispatch loop builds from it.
//!
//! `parse` is the whole of it. It walks the list from the left; at each
//! position it scans to the end of the line, asks the rule table which
//! construct begins there, takes that construct's nodes and moves on. The
//! constructs that have children parse them with `fragment`, on token lists
//! that are shorter than the one they came from.

use vstd::prelude::*;
use crate::lexer::classify::classification;
use crate::lexer::classify::is_operator;
use crate::lexer::classify::Construct;
use crate::lexer::node::ArgumentView;
use crate::lexer::node::CaseView;
use crate::lexer::node::Immutablity;
use crate::lexer::node::MatchView;
use crate::lexer::node::MemberView;
use crate::lexer::node::NodeView;
use crate::lexer::node::Operations;
use crate::lexer::scan::scan;
use crate::lexer::scan_laws::lemma_scan_advances;
use crate::lexer::scan_laws::lemma_scan_lengths;
use crate::lexer::scan_laws::lemma_scan_terminates;
use crate::token::first_index_of;
use crate::token::lemma_first_index_of;
use crate::types::type_named;
use crate::types::Types;

verus! {

/// The first `n` tokens of a list with every `EOL` left out.
pub open spec fn without_eol_first(tokens: Seq<Seq<char>>, n: nat) -> Seq<Seq<char>>
    decreases n,
{
    if n == 0 || n > tokens.len() {
        Seq::empty()
    } else {
        let earlier = without_eol_first(tokens, (n - 1) as nat);
        if tokens[n - 1] == "EOL"@ {
            earlier
        } else {
            earlier.push(tokens[n - 1])
        }
    }
}

/// A token list with every `EOL` left out.
pub open spec fn without_eol(tokens: Seq<Seq<char>>) -> Seq<Seq<char>> {
    without_eol_first(tokens, tokens.len())
}

/// Leaving tokens out does not make a list longer.
pub proof fn lemma_without_eol_len(tokens: Seq<Seq<char>>, n: nat)
    requires
        n <= tokens.len(),
    ensures
        without_eol_first(tokens, n).len() <= n,
    decreases n,
{
    if n > 0 {
        lemma_without_eol_len(tokens, (n - 1) as nat);
    }
}

/// A token without the colon that ends it, if one does.
pub open spec fn unglued(t: Seq<char>) -> Seq<char> {
    if t.len() > 0 && t.last() == ':' {
        t.drop_last()
    } else {
        t
    }
}

/// A token list without the colon that ends it, if one does. The colon may
/// be a token of its own or the last character of the last token.
pub open spec fn strip_colon(tokens: Seq<Seq<char>>) -> Seq<Seq<char>> {
    if tokens.len() == 0 {
        tokens
    } else if tokens.last() == ":"@ {
        tokens.drop_last()
    } else {
        tokens.drop_last().push(unglued(tokens.last()))
    }
}

/// The items of a list written with `separator` between them, read from
/// position `first` on. An item is what one scan for the separator keeps
/// outside blocks, so a separator inside a call does not split. Line ends
/// are left out, and so are items that hold nothing else.
pub open spec fn list_items(
    tokens: Seq<Seq<char>>,
    separator: Seq<char>,
    first: int,
) -> Seq<Seq<Seq<char>>>
    decreases tokens.len() - first,
{
    if first < 0 || first >= tokens.len() {
        Seq::empty()
    } else {
        let found = scan(tokens, separator, first - 1);
        let item = without_eol(found.flat);
        proof {
            lemma_scan_advances(tokens, separator, first - 1);
        }
        let rest = list_items(tokens, separator, found.next_index);
        if item.len() > 0 {
            seq![item] + rest
        } else {
            rest
        }
    }
}

/// The position of the first operator at or after `from`, or the length of
/// the list when there is none.
pub open spec fn first_operator(tokens: Seq<Seq<char>>, from: int) -> int
    decreases tokens.len() - from,
{
    if from >= tokens.len() {
        tokens.len() as int
    } else if from >= 0 && is_operator(tokens[from]) {
        from
    } else {
        first_operator(tokens, from + 1)
    }
}

/// The operation that an operator token denotes.
pub open spec fn operation_of(t: Seq<char>) -> Operations {
    if t == "+"@ {
        Operations::ADD
    } else if t == "-"@ {
        Operations::SUB
    } else if t == "*"@ {
        Operations::MUL
    } else if t == "/"@ {
        Operations::DIV
    } else if t == ">"@ {
        Operations::GR
    } else if t == "<"@ {
        Operations::LT
    } else if t == "<="@ {
        Operations::EQLT
    } else if t == ">="@ {
        Operations::EQGR
    } else {
        Operations::NULL
    }
}

/// `include` and `return`: the keyword with the rest of the line.
pub open spec fn statement_nodes(text: Seq<char>, flat: Seq<Seq<char>>) -> Seq<NodeView> {
    seq![NodeView::Statement { action: text, parameters: flat }]
}

/// A literal: a boolean, a string or a number, kept as written.
pub open spec fn literal_nodes(text: Seq<char>, l_type: Types) -> Seq<NodeView> {
    seq![NodeView::Literal { literal: text, l_type }]
}

/// Arithmetic or a comparison: the first operator of the line splits it
/// into two raw operands, the left one beginning with `text`.
pub open spec fn math_nodes(text: Seq<char>, flat: Seq<Seq<char>>) -> Seq<NodeView> {
    let at = first_operator(flat, 0);
    seq![
        NodeView::Math {
            lhs: seq![text] + flat.subrange(0, at),
            rhs: if at < flat.len() {
                flat.subrange(at + 1, flat.len() as int)
            } else {
                Seq::empty()
            },
            operation: if at < flat.len() {
                operation_of(flat[at])
            } else {
                Operations::NULL
            },
        },
    ]
}

/// The name part of a declaration: what stands before the first `=`.
pub open spec fn declared_name(flat: Seq<Seq<char>>) -> Seq<Seq<char>> {
    flat.subrange(0, first_index_of(flat, "="@, 0))
}

/// The value part of a declaration: what stands after the first `=`.
pub open spec fn declared_value(flat: Seq<Seq<char>>) -> Seq<Seq<char>> {
    let at = first_index_of(flat, "="@, 0);
    if at < flat.len() {
        flat.subrange(at + 1, flat.len() as int)
    } else {
        Seq::empty()
    }
}

/// One argument of a function definition, written `name : type`. The first
/// token names the argument; the last names its type, when it is not the
/// first as well.
pub open spec fn argument_of(item: Seq<Seq<char>>) -> ArgumentView {
    ArgumentView {
        identifier: if item.len() > 0 {
            unglued(item[0])
        } else {
            Seq::empty()
        },
        a_type: if item.len() >= 2 {
            type_named(item.last())
        } else {
            Types::Void
        },
    }
}

/// One member of a struct, written `name : type`. The last token names the
/// type, when it is not the only one; what stands before it, short of the
/// colon, is the name.
pub open spec fn member_of(item: Seq<Seq<char>>) -> MemberView {
    if item.len() >= 2 {
        MemberView { identifier: strip_colon(item.drop_last()), t_mem: type_named(item.last()) }
    } else {
        MemberView { identifier: strip_colon(item), t_mem: Types::Void }
    }
}

/// `struct`: the name is the rest of the line, the members are the items
/// of the block, separated by commas.
pub open spec fn struct_nodes(flat: Seq<Seq<char>>, block: Seq<Seq<char>>) -> Seq<NodeView> {
    let items = list_items(block, ","@, 0);
    seq![
        NodeView::Struct {
            identifier: flat,
            members: Seq::new(items.len(), |k: int| member_of(items[k])),
        },
    ]
}

/// The keyword of a guarded block. An `if` that follows an `else` continues
/// the chain.
pub open spec fn condition_keyword(text: Seq<char>, previous: Seq<char>) -> Seq<char> {
    if text == "if"@ && previous == "else"@ {
        "else if"@
    } else {
        text
    }
}

/// Whether an `else` only announces the `if` that follows it.
pub open spec fn announces_if(text: Seq<char>, flat: Seq<Seq<char>>) -> bool {
    text == "else"@ && flat.len() > 0 && flat[0] == "if"@
}

/// The part of a function's line that holds its arguments: from the first
/// `(` to the first `)` after it, the first included to stand for a
/// separator.
pub open spec fn argument_region(flat: Seq<Seq<char>>) -> Seq<Seq<char>> {
    let open = first_index_of(flat, "("@, 0);
    let close = first_index_of(flat, ")"@, open);
    flat.subrange(open, close)
}

/// The return type of a function: named by the last token of its line, when
/// anything follows the arguments.
pub open spec fn return_type_of(flat: Seq<Seq<char>>) -> Types {
    let open = first_index_of(flat, "("@, 0);
    let close = first_index_of(flat, ")"@, open);
    if close + 1 < flat.len() {
        type_named(flat.last())
    } else {
        Types::Void
    }
}

/// The part of a call's line that holds its arguments: from the first `(`
/// on, without the `)` that ends the line.
pub open spec fn call_region(flat: Seq<Seq<char>>) -> Seq<Seq<char>> {
    let open = first_index_of(flat, "("@, 0);
    if open + 1 < flat.len() && flat.last() == ")"@ {
        flat.subrange(open, flat.len() - 1)
    } else {
        flat.subrange(open, flat.len() as int)
    }
}

/// The nodes of a token list, from position `i` on. `previous` is the token
/// at which the loop stood before.
pub open spec fn parse_from(tokens: Seq<Seq<char>>, i: int, previous: Seq<char>) -> Seq<NodeView>
    decreases tokens.len(), 0nat, tokens.len() - i,
{
    if i < 0 || i >= tokens.len() {
        Seq::empty()
    } else {
        let text = tokens[i];
        let found = scan(tokens, "EOL"@, i);
        let after = found.next_index;
        proof {
            lemma_scan_terminates(tokens, "EOL"@, i);
            lemma_scan_lengths(tokens, "EOL"@, i);
        }
        match classification(text, found.flat) {
            Construct::Comment => parse_from(tokens, after, text),
            Construct::Separator => parse_from(tokens, i + 1, text),
            Construct::Statement => statement_nodes(text, found.flat) + parse_from(
                tokens,
                after,
                text,
            ),
            Construct::Boolean => literal_nodes(text, Types::Bool) + parse_from(tokens, after, text),
            Construct::Let => assignment_nodes(found.flat, Immutablity::False) + parse_from(
                tokens,
                after,
                text,
            ),
            Construct::Const => assignment_nodes(found.flat, Immutablity::True) + parse_from(
                tokens,
                after,
                text,
            ),
            Construct::Conditional => if announces_if(text, found.flat) {
                parse_from(tokens, i + 1, text)
            } else {
                condition_nodes(condition_keyword(text, previous), found.flat, found.block)
                    + parse_from(tokens, after, text)
            },
            Construct::While => condition_nodes(text, found.flat, found.block) + parse_from(
                tokens,
                after,
                text,
            ),
            Construct::Match => match_nodes(found.flat, found.block) + parse_from(
                tokens,
                after,
                text,
            ),
            Construct::Struct => struct_nodes(found.flat, found.block) + parse_from(
                tokens,
                after,
                text,
            ),
            Construct::Function => function_nodes(found.flat, found.block) + parse_from(
                tokens,
                after,
                text,
            ),
            Construct::Call => call_nodes(text, found.flat) + parse_from(tokens, after, text),
            Construct::Arithmetic => math_nodes(text, found.flat) + parse_from(tokens, after, text),
            Construct::Text => literal_nodes(text, Types::Str) + parse_from(tokens, i + 1, text),
            Construct::Number => literal_nodes(text, Types::I32) + parse_from(tokens, i + 1, text),
            Construct::Nothing => parse_from(tokens, i + 1, text),
        }
    }
}

/// The nodes of a token list that stands for a value or a body: what the
/// dispatch loop builds from it or, where the loop builds nothing, the
/// tokens themselves as one raw expression, line ends left out.
pub open spec fn fragment(tokens: Seq<Seq<char>>) -> Seq<NodeView>
    decreases tokens.len(), 1nat, 0nat,
{
    let nodes = parse_from(tokens, 0, Seq::empty());
    let raw = without_eol(tokens);
    if nodes.len() == 0 && raw.len() > 0 {
        seq![NodeView::Expression { expr: raw }]
    } else {
        nodes
    }
}

/// `let` and `const`: the name before the first `=`, the value after it, as
/// far as the line goes. A block that follows is not part of the value.
pub open spec fn assignment_nodes(flat: Seq<Seq<char>>, immutability: Immutablity) -> Seq<
    NodeView,
>
    decreases flat.len(), 2nat, 0nat,
{
    proof {
        lemma_first_index_of(flat, "="@, 0);
    }
    seq![
        NodeView::VariableAssignment {
            identifier: declared_name(flat),
            value: fragment(declared_value(flat)),
            immutability,
        },
    ]
}

/// `if`, `else` and `while`: the rest of the line is the condition, the
/// block is the body.
pub open spec fn condition_nodes(
    keyword: Seq<char>,
    flat: Seq<Seq<char>>,
    block: Seq<Seq<char>>,
) -> Seq<NodeView>
    decreases flat.len() + block.len(), 2nat, 0nat,
{
    seq![
        NodeView::ConditionBlock {
            keyword,
            parameters: fragment(flat),
            nodes: fragment(block),
        },
    ]
}

/// The cases of a match, read from position `c` of its block. A case is an
/// expression, written after an optional `case` and before an optional
/// colon, and the block that follows it.
pub open spec fn cases_from(block: Seq<Seq<char>>, c: int) -> Seq<CaseView>
    decreases block.len(), 1nat, block.len() - c,
{
    if c < 0 || c >= block.len() {
        Seq::empty()
    } else if block[c] == "EOL"@ {
        cases_from(block, c + 1)
    } else {
        let found = scan(block, "EOL"@, c);
        let head = if block[c] == "case"@ {
            Seq::empty()
        } else {
            seq![block[c]]
        };
        proof {
            lemma_scan_terminates(block, "EOL"@, c);
            lemma_scan_lengths(block, "EOL"@, c);
        }
        seq![CaseView { case: strip_colon(head + found.flat), block: fragment(found.block) }]
            + cases_from(block, found.next_index)
    }
}

/// `match`: the rest of the line is the value matched on, the block holds
/// the cases.
pub open spec fn match_nodes(flat: Seq<Seq<char>>, block: Seq<Seq<char>>) -> Seq<NodeView>
    decreases flat.len() + block.len(), 2nat, 0nat,
{
    seq![NodeView::Match(MatchView { condition: fragment(flat), block: cases_from(block, 0) })]
}

/// `fun`: the name before the first `(`, the arguments between the
/// parentheses, the return type after them, and the block as the body.
pub open spec fn function_nodes(flat: Seq<Seq<char>>, block: Seq<Seq<char>>) -> Seq<NodeView>
    decreases flat.len() + block.len(), 2nat, 0nat,
{
    let items = list_items(argument_region(flat), ","@, 1);
    seq![
        NodeView::Function {
            identifier: flat.subrange(0, first_index_of(flat, "("@, 0)),
            return_type: return_type_of(flat),
            arguments: Seq::new(items.len(), |k: int| argument_of(items[k])),
            nodes: fragment(block),
        },
    ]
}

/// The arguments of a call, read from position `first` of its region on:
/// the items between commas, each parsed on its own.
pub open spec fn arguments_from(region: Seq<Seq<char>>, first: int) -> Seq<Seq<NodeView>>
    decreases region.len(), 1nat, region.len() - first,
{
    if first < 1 || first >= region.len() {
        Seq::empty()
    } else {
        let found = scan(region, ","@, first - 1);
        let item = without_eol(found.flat);
        proof {
            lemma_scan_advances(region, ","@, first - 1);
            lemma_scan_lengths(region, ","@, first - 1);
            lemma_without_eol_len(found.flat, found.flat.len());
        }
        let rest = arguments_from(region, found.next_index);
        if item.len() > 0 {
            seq![fragment(item)] + rest
        } else {
            rest
        }
    }
}

/// A call: the name is `text` with what stands before the first `(`, the
/// arguments are what stands between the parentheses.
pub open spec fn call_nodes(text: Seq<char>, flat: Seq<Seq<char>>) -> Seq<NodeView>
    decreases flat.len(), 2nat, 0nat,
{
    proof {
        lemma_first_index_of(flat, "("@, 0);
    }
    seq![
        NodeView::FunctionCall {
            identifier: seq![text] + flat.subrange(0, first_index_of(flat, "("@, 0)),
            arguments: arguments_from(call_region(flat), 1),
        },
    ]
}

/// The nodes of a token list.
pub open spec fn parse(tokens: Seq<Seq<char>>) -> Seq<NodeView> {
    parse_from(tokens, 0, Seq::empty())
}

} // verus!
