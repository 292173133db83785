//! From syntax nodes to target text. Every construct is lowered by plain
//! concatenation: the text of a node depends on the node alone.

pub mod _match;

use vstd::prelude::*;
use crate::compiler::_match::lower_match;
use crate::compiler::_match::render_match;
use crate::lexer::node::arguments_view;
use crate::lexer::node::assignment_view;
use crate::lexer::node::call_view;
use crate::lexer::node::condition_view;
use crate::lexer::node::expression_view;
use crate::lexer::node::function_view;
use crate::lexer::node::literal_view;
use crate::lexer::node::math_view;
use crate::lexer::node::members_view;
use crate::lexer::node::node_lists_view;
use crate::lexer::node::nodes_view;
use crate::lexer::node::statement_view;
use crate::lexer::node::struct_view;
use crate::lexer::node::ArgumentView;
use crate::lexer::node::ConditionBlock;
use crate::lexer::node::Expression;
use crate::lexer::node::Function;
use crate::lexer::node::FunctionCall;
use crate::lexer::node::Immutablity;
use crate::lexer::node::Literal;
use crate::lexer::node::Match;
use crate::lexer::node::Math;
use crate::lexer::node::MemberView;
use crate::lexer::node::Node;
use crate::lexer::node::NodeView;
use crate::lexer::node::Operations;
use crate::lexer::node::Statement;
use crate::lexer::node::Struct;
use crate::lexer::node::VariableAssignment;
use crate::token::lemma_tokens_view_push;
use crate::token::tokens_view;

verus! {

/// The first `n` of `parts` with `separator` between each two.
pub open spec fn join_first(parts: Seq<Seq<char>>, separator: Seq<char>, n: nat) -> Seq<char>
    decreases n,
{
    if n == 0 || n > parts.len() {
        Seq::empty()
    } else if n == 1 {
        parts[0]
    } else {
        join_first(parts, separator, (n - 1) as nat) + separator + parts[n - 1]
    }
}

/// `parts` with `separator` between each two.
pub open spec fn join(parts: Seq<Seq<char>>, separator: Seq<char>) -> Seq<char> {
    join_first(parts, separator, parts.len())
}

/// The text of a raw expression: its tokens, one space apart. A raw
/// expression is lowered the same way wherever it stands.
pub open spec fn render_raw(expr: Seq<Seq<char>>) -> Seq<char> {
    join(expr, " "@)
}

/// The operator as the target language writes it.
pub open spec fn operator_text(operation: Operations) -> Seq<char> {
    match operation {
        Operations::NULL => ""@,
        Operations::ADD => "+"@,
        Operations::SUB => "-"@,
        Operations::MUL => "*"@,
        Operations::DIV => "/"@,
        Operations::EQ => "=="@,
        Operations::EQGR => ">="@,
        Operations::EQLT => "<="@,
        Operations::GR => ">"@,
        Operations::LT => "<"@,
    }
}

/// The names of the arguments of a function definition.
pub open spec fn argument_names(arguments: Seq<ArgumentView>) -> Seq<Seq<char>> {
    Seq::new(arguments.len(), |i: int| arguments[i].identifier)
}

/// The names of the members of a struct, each path joined by dots.
pub open spec fn member_names(members: Seq<MemberView>) -> Seq<Seq<char>> {
    Seq::new(members.len(), |i: int| join(members[i].identifier, "."@))
}

/// The text of one construct.
pub open spec fn render_node(node: NodeView) -> Seq<char>
    decreases node, 0nat,
{
    match node {
        NodeView::Blank => Seq::empty(),
        NodeView::Statement { action, parameters } => if parameters.len() == 0 {
            action + ";"@
        } else {
            action + " "@ + join(parameters, " "@) + ";"@
        },
        NodeView::Function { identifier, return_type, arguments, nodes } => "function "@ + join(
            identifier,
            "."@,
        ) + "("@ + join(argument_names(arguments), ", "@) + ") {"@ + render_nodes(nodes) + "}"@,
        NodeView::FunctionCall { identifier, arguments } => join(identifier, "."@) + "("@ + join(
            render_lists(arguments),
            ", "@,
        ) + ")"@,
        NodeView::VariableAssignment { identifier, value, immutability } => (if immutability
            == Immutablity::True {
            "const "@
        } else {
            "let "@
        }) + join(identifier, "."@) + " = "@ + render_nodes(value) + ";"@,
        NodeView::Expression { expr } => render_raw(expr),
        NodeView::ConditionBlock { keyword, parameters, nodes } => if parameters.len() == 0 {
            keyword + " {"@ + render_nodes(nodes) + "}"@
        } else {
            keyword + "("@ + render_nodes(parameters) + ") {"@ + render_nodes(nodes) + "}"@
        },
        NodeView::Match(m) => render_match(m),
        NodeView::Literal { literal, l_type } => literal,
        NodeView::Math { lhs, rhs, operation } => render_raw(lhs) + " "@ + operator_text(operation)
            + " "@ + render_raw(rhs),
        NodeView::Struct { identifier, members } => "struct "@ + join(identifier, "."@) + " {"@
            + join(member_names(members), ", "@) + "}"@,
    }
}

/// The texts of the first `n` nodes of a list, one after the other.
pub open spec fn render_first(nodes: Seq<NodeView>, n: nat) -> Seq<char>
    decreases nodes, n,
{
    if n == 0 || n > nodes.len() {
        Seq::empty()
    } else {
        render_first(nodes, (n - 1) as nat) + render_node(nodes[n - 1])
    }
}

/// The texts of the nodes of a list, one after the other.
pub open spec fn render_nodes(nodes: Seq<NodeView>) -> Seq<char>
    decreases nodes, nodes.len() + 1,
{
    render_first(nodes, nodes.len())
}

/// The text of each list of nodes.
pub open spec fn render_lists(lists: Seq<Seq<NodeView>>) -> Seq<Seq<char>>
    decreases lists, 0nat,
{
    Seq::new(
        lists.len(),
        |i: int|
            if 0 <= i < lists.len() {
                render_nodes(lists[i])
            } else {
                Seq::empty()
            },
    )
}

/// Appends `parts` to `out`, with `separator` between each two.
pub fn append_joined(out: &mut String, parts: &Vec<String>, separator: &str)
    ensures
        final(out)@ == old(out)@ + join(tokens_view(parts@), separator@),
{
    let ghost before = out@;
    let ghost texts = tokens_view(parts@);
    let mut k: usize = 0;
    while k < parts.len()
        invariant
            k <= parts.len(),
            texts == tokens_view(parts@),
            out@ == before + join_first(texts, separator@, k as nat),
        decreases parts.len() - k,
    {
        if k > 0 {
            out.append(separator);
        }
        out.append(parts[k].as_str());
        k += 1;
    }
}

/// The target text of an operator.
pub fn operator_symbol(operation: &Operations) -> (text: &'static str)
    ensures
        text@ == operator_text(*operation),
{
    match operation {
        Operations::NULL => "",
        Operations::ADD => "+",
        Operations::SUB => "-",
        Operations::MUL => "*",
        Operations::DIV => "/",
        Operations::EQ => "==",
        Operations::EQGR => ">=",
        Operations::EQLT => "<=",
        Operations::GR => ">",
        Operations::LT => "<",
    }
}

/// Lowers a keyword statement.
pub fn render_statement(s: &Statement) -> (text: String)
    ensures
        text@ == render_node(statement_view(*s)),
{
    let mut text = s.action.clone();
    if s.parameters.len() > 0 {
        text.append(" ");
        append_joined(&mut text, &s.parameters, " ");
    }
    text.append(";");
    text
}

/// Appends the text of a raw expression to `out`.
pub fn append_raw(out: &mut String, expr: &Vec<String>)
    ensures
        final(out)@ == old(out)@ + render_raw(tokens_view(expr@)),
{
    append_joined(out, expr, " ");
}

/// Lowers a raw expression: its tokens, one space apart.
pub fn render_expression(e: &Expression) -> (text: String)
    ensures
        text@ == render_node(expression_view(*e)),
{
    let mut text = String::new();
    append_raw(&mut text, &e.expr);
    text
}

/// Lowers a literal: its text as written.
pub fn render_literal(l: &Literal) -> (text: String)
    ensures
        text@ == render_node(literal_view(*l)),
{
    l.literal.clone()
}

/// Lowers a binary expression.
pub fn render_math(m: &Math) -> (text: String)
    ensures
        text@ == render_node(math_view(*m)),
{
    let mut text = String::new();
    append_raw(&mut text, &m.lhs.expr);
    text.append(" ");
    text.append(operator_symbol(&m.operation));
    text.append(" ");
    append_raw(&mut text, &m.rhs.expr);
    text
}

/// Lowers a struct definition.
pub fn render_struct(s: &Struct) -> (text: String)
    ensures
        text@ == render_node(struct_view(*s)),
{
    let ghost members = members_view(s.members@);
    let mut names: Vec<String> = Vec::new();
    let mut k: usize = 0;
    while k < s.members.len()
        invariant
            k <= s.members.len(),
            members == members_view(s.members@),
            tokens_view(names@) == member_names(members).take(k as int),
        decreases s.members.len() - k,
    {
        let mut name = String::new();
        append_joined(&mut name, &s.members[k].identifier, ".");
        let ghost earlier = names@;
        names.push(name);
        proof {
            lemma_tokens_view_push(earlier, names@.last());
        }
        k += 1;
    }
    assert(member_names(members).take(k as int) =~= member_names(members));
    let mut text = String::from_str("struct ");
    append_joined(&mut text, &s.identifier, ".");
    text.append(" {");
    append_joined(&mut text, &names, ", ");
    text.append("}");
    text
}

/// Lowers a function definition.
pub fn render_function(f: &Function) -> (text: String)
    ensures
        text@ == render_node(function_view(*f)),
    decreases f,
{
    let ghost arguments = arguments_view(f.arguments@);
    let mut names: Vec<String> = Vec::new();
    let mut k: usize = 0;
    while k < f.arguments.len()
        invariant
            k <= f.arguments.len(),
            arguments == arguments_view(f.arguments@),
            tokens_view(names@) == argument_names(arguments).take(k as int),
        decreases f.arguments.len() - k,
    {
        let ghost earlier = names@;
        names.push(f.arguments[k].identifier.clone());
        proof {
            lemma_tokens_view_push(earlier, names@.last());
        }
        k += 1;
    }
    assert(argument_names(arguments).take(k as int) =~= argument_names(arguments));
    let body = compiler(&f.nodes);
    let mut text = String::from_str("function ");
    append_joined(&mut text, &f.identifier, ".");
    text.append("(");
    append_joined(&mut text, &names, ", ");
    text.append(") {");
    text.append(body.as_str());
    text.append("}");
    text
}

/// Lowers a call: each argument is lowered on its own.
pub fn render_call(c: &FunctionCall) -> (text: String)
    ensures
        text@ == render_node(call_view(*c)),
    decreases c,
{
    let ghost lists = node_lists_view(c.arguments@);
    let mut pieces: Vec<String> = Vec::new();
    let mut k: usize = 0;
    while k < c.arguments.len()
        invariant
            k <= c.arguments.len(),
            lists == node_lists_view(c.arguments@),
            tokens_view(pieces@) == render_lists(lists).take(k as int),
        decreases c.arguments.len() - k,
    {
        let piece = compiler(&c.arguments[k]);
        let ghost earlier = pieces@;
        pieces.push(piece);
        proof {
            lemma_tokens_view_push(earlier, pieces@.last());
        }
        k += 1;
    }
    assert(render_lists(lists).take(k as int) =~= render_lists(lists));
    let mut text = String::new();
    append_joined(&mut text, &c.identifier, ".");
    text.append("(");
    append_joined(&mut text, &pieces, ", ");
    text.append(")");
    text
}

/// Lowers a variable declaration.
pub fn render_assignment(v: &VariableAssignment) -> (text: String)
    ensures
        text@ == render_node(assignment_view(*v)),
    decreases v,
{
    let value = compiler(&v.value);
    let mut text = match v.immutability {
        Immutablity::True => String::from_str("const "),
        Immutablity::False => String::from_str("let "),
    };
    append_joined(&mut text, &v.identifier, ".");
    text.append(" = ");
    text.append(value.as_str());
    text.append(";");
    text
}

/// Lowers a guarded block. A block without a condition, such as `else`, is
/// written without parentheses.
pub fn render_condition(c: &ConditionBlock) -> (text: String)
    ensures
        text@ == render_node(condition_view(*c)),
    decreases c,
{
    let body = compiler(&c.nodes);
    let mut text = c.keyword.clone();
    if c.parameters.len() == 0 {
        text.append(" {");
    } else {
        let condition = compiler(&c.parameters);
        text.append("(");
        text.append(condition.as_str());
        text.append(") {");
    }
    text.append(body.as_str());
    text.append("}");
    text
}

/// Lowers one construct.
pub fn render(node: &Node) -> (text: String)
    ensures
        text@ == render_node(node@),
    decreases node,
{
    if let Some(s) = &node.data.statement {
        render_statement(s)
    } else if let Some(f) = &node.data.function {
        render_function(f)
    } else if let Some(c) = &node.data.function_call {
        render_call(c)
    } else if let Some(v) = &node.data.variable_assignment {
        render_assignment(v)
    } else if let Some(e) = &node.data.expression {
        render_expression(e)
    } else if let Some(c) = &node.data.condition_block {
        render_condition(c)
    } else if let Some(m) = &node.data._match {
        lower_match(m)
    } else if let Some(l) = &node.data.literal {
        render_literal(l)
    } else if let Some(m) = &node.data.math {
        render_math(m)
    } else if let Some(s) = &node.data._struct {
        render_struct(s)
    } else {
        String::new()
    }
}

/// The generic renderer: lowers each node of a list and concatenates the
/// texts, with nothing between them.
pub fn compiler(nodes: &Vec<Node>) -> (text: String)
    ensures
        text@ == render_nodes(nodes_view(nodes@)),
    decreases nodes,
{
    let ghost views = nodes_view(nodes@);
    let mut text = String::new();
    let mut k: usize = 0;
    while k < nodes.len()
        invariant
            k <= nodes.len(),
            views == nodes_view(nodes@),
            text@ == render_first(views, k as nat),
        decreases nodes.len() - k,
    {
        let piece = render(&nodes[k]);
        text.append(piece.as_str());
        k += 1;
    }
    text
}

} // verus!
