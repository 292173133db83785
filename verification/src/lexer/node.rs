//! The syntax tree. A `Node` holds one construct; the constructs that have
//! children own them, so nodes form a tree.
//!
//! Contracts speak of a node through its view, `NodeView`, which names the
//! construct that the node holds and gives its parts as sequences.

use vstd::prelude::*;
use crate::token::tokens_view;
use crate::types::Types;

verus! {

/// The operator of a binary expression.
#[derive(Debug, Clone, Copy, PartialEq, Eq, Structural)]
pub enum Operations {
    NULL,
    /// Addition.
    ADD,
    /// Subtraction.
    SUB,
    /// Multiplication.
    MUL,
    /// Division.
    DIV,
    /// Equal.
    EQ,
    /// Equal or greater than.
    EQGR,
    /// Equal or less than.
    EQLT,
    /// Greater than.
    GR,
    /// Less than.
    LT,
}

/// Whether a variable can be assigned again.
#[derive(Debug, Clone, Copy, PartialEq, Eq, Structural)]
pub enum Immutablity {
    True,
    False,
}

/// A typed argument of a function definition.
#[derive(Debug, Clone, PartialEq, Eq)]
pub struct Argument {
    pub identifier: String,
    pub a_type: Types,
}

/// A literal: its text as written, and the type inferred for it.
#[derive(Debug, PartialEq, Eq)]
pub struct Literal {
    pub literal: String,
    pub l_type: Types,
}

/// A keyword statement such as `include` or `return`, with what follows it.
#[derive(Debug, PartialEq, Eq)]
pub struct Statement {
    pub action: String,
    pub parameters: Vec<String>,
}

/// A function definition.
#[derive(Debug, PartialEq, Eq)]
pub struct Function {
    pub identifier: Vec<String>,
    pub return_type: Types,
    pub arguments: Vec<Argument>,
    pub nodes: Vec<Node>,
}

/// A call, with one list of nodes for each argument.
#[derive(Debug, PartialEq, Eq)]
pub struct FunctionCall {
    pub identifier: Vec<String>,
    pub arguments: Vec<Vec<Node>>,
}

/// The declaration of a variable with its value.
#[derive(Debug, PartialEq, Eq)]
pub struct VariableAssignment {
    pub identifier: Vec<String>,
    pub value: Box<Vec<Node>>,
    pub immutability: Immutablity,
}

/// Raw tokens that form an expression and have not been given a structure.
#[derive(Debug, PartialEq, Eq)]
pub struct Expression {
    pub expr: Vec<String>,
}

/// A block guarded by a condition: `if`, `else`, `while`.
#[derive(Debug, PartialEq, Eq)]
pub struct ConditionBlock {
    pub keyword: String,
    pub parameters: Vec<Node>,
    pub nodes: Vec<Node>,
}

/// One case of a match. The case whose expression is the single token
/// `default` is the catch-all.
#[derive(Debug, PartialEq, Eq)]
pub struct MatchCase {
    pub case: Vec<String>,
    pub block: Vec<Node>,
}

/// A multi-way match: the value matched on and the cases, in source order.
#[derive(Debug, PartialEq, Eq)]
pub struct Match {
    pub condition: Vec<Node>,
    pub block: Vec<MatchCase>,
}

/// A typed member of a struct.
#[derive(Debug, PartialEq, Eq)]
pub struct StructMember {
    pub identifier: Vec<String>,
    pub t_mem: Types,
}

/// A struct definition.
#[derive(Debug, PartialEq, Eq)]
pub struct Struct {
    pub identifier: Vec<String>,
    pub members: Vec<StructMember>,
}

/// A binary expression over two raw operands.
#[derive(Debug, PartialEq, Eq)]
pub struct Math {
    pub lhs: Expression,
    pub rhs: Expression,
    pub operation: Operations,
}

/// The payload of a node: one field for each construct, of which at most
/// one is meant to be filled.
#[derive(Debug, PartialEq, Eq)]
pub struct NodeData {
    pub statement: Option<Statement>,
    pub function: Option<Function>,
    pub function_call: Option<FunctionCall>,
    pub variable_assignment: Option<VariableAssignment>,
    pub expression: Option<Expression>,
    pub condition_block: Option<ConditionBlock>,
    pub _match: Option<Match>,
    pub literal: Option<Literal>,
    pub math: Option<Math>,
    pub _struct: Option<Struct>,
}

/// One construct of the syntax tree.
#[derive(Debug, PartialEq, Eq)]
pub struct Node {
    pub data: NodeData,
}

/// The scanner's input together with the program built from it and the
/// keywords of the language.
pub struct Lexer {
    pub splitted_text: Vec<String>,
    pub program: Vec<Node>,
    pub keywords: Vec<String>,
}

/// An argument as contracts see it.
pub struct ArgumentView {
    pub identifier: Seq<char>,
    pub a_type: Types,
}

/// A struct member as contracts see it.
pub struct MemberView {
    pub identifier: Seq<Seq<char>>,
    pub t_mem: Types,
}

/// A match case as contracts see it.
pub struct CaseView {
    pub case: Seq<Seq<char>>,
    pub block: Seq<NodeView>,
}

/// A match as contracts see it.
pub struct MatchView {
    pub condition: Seq<NodeView>,
    pub block: Seq<CaseView>,
}

/// A node as contracts see it: the construct it holds, with its parts.
#[allow(inconsistent_fields)]
pub enum NodeView {
    Blank,
    Statement { action: Seq<char>, parameters: Seq<Seq<char>> },
    Function {
        identifier: Seq<Seq<char>>,
        return_type: Types,
        arguments: Seq<ArgumentView>,
        nodes: Seq<NodeView>,
    },
    FunctionCall { identifier: Seq<Seq<char>>, arguments: Seq<Seq<NodeView>> },
    VariableAssignment {
        identifier: Seq<Seq<char>>,
        value: Seq<NodeView>,
        immutability: Immutablity,
    },
    Expression { expr: Seq<Seq<char>> },
    ConditionBlock { keyword: Seq<char>, parameters: Seq<NodeView>, nodes: Seq<NodeView> },
    Match(MatchView),
    Literal { literal: Seq<char>, l_type: Types },
    Math { lhs: Seq<Seq<char>>, rhs: Seq<Seq<char>>, operation: Operations },
    Struct { identifier: Seq<Seq<char>>, members: Seq<MemberView> },
}

/// The views of a list of arguments.
pub open spec fn arguments_view(arguments: Seq<Argument>) -> Seq<ArgumentView> {
    Seq::new(
        arguments.len(),
        |i: int| ArgumentView { identifier: arguments[i].identifier@, a_type: arguments[i].a_type },
    )
}

/// The views of a list of struct members.
pub open spec fn members_view(members: Seq<StructMember>) -> Seq<MemberView> {
    Seq::new(
        members.len(),
        |i: int|
            MemberView {
                identifier: tokens_view(members[i].identifier@),
                t_mem: members[i].t_mem,
            },
    )
}

/// The view of a statement.
pub open spec fn statement_view(s: Statement) -> NodeView {
    NodeView::Statement { action: s.action@, parameters: tokens_view(s.parameters@) }
}

/// The view of a function definition.
pub open spec fn function_view(f: Function) -> NodeView
    decreases f,
{
    NodeView::Function {
        identifier: tokens_view(f.identifier@),
        return_type: f.return_type,
        arguments: arguments_view(f.arguments@),
        nodes: nodes_view(f.nodes@),
    }
}

/// The view of a call.
pub open spec fn call_view(c: FunctionCall) -> NodeView
    decreases c,
{
    NodeView::FunctionCall {
        identifier: tokens_view(c.identifier@),
        arguments: node_lists_view(c.arguments@),
    }
}

/// The view of a variable declaration.
pub open spec fn assignment_view(v: VariableAssignment) -> NodeView
    decreases v,
{
    NodeView::VariableAssignment {
        identifier: tokens_view(v.identifier@),
        value: nodes_view(v.value@),
        immutability: v.immutability,
    }
}

/// The view of a raw expression.
pub open spec fn expression_view(e: Expression) -> NodeView {
    NodeView::Expression { expr: tokens_view(e.expr@) }
}

/// The view of a guarded block.
pub open spec fn condition_view(c: ConditionBlock) -> NodeView
    decreases c,
{
    NodeView::ConditionBlock {
        keyword: c.keyword@,
        parameters: nodes_view(c.parameters@),
        nodes: nodes_view(c.nodes@),
    }
}

/// The view of a literal.
pub open spec fn literal_view(l: Literal) -> NodeView {
    NodeView::Literal { literal: l.literal@, l_type: l.l_type }
}

/// The view of a binary expression.
pub open spec fn math_view(m: Math) -> NodeView {
    NodeView::Math {
        lhs: tokens_view(m.lhs.expr@),
        rhs: tokens_view(m.rhs.expr@),
        operation: m.operation,
    }
}

/// The view of a struct definition.
pub open spec fn struct_view(s: Struct) -> NodeView {
    NodeView::Struct { identifier: tokens_view(s.identifier@), members: members_view(s.members@) }
}

/// The view of a node: the first construct that is filled, in the order of
/// the fields, or `Blank` when none is.
pub open spec fn node_view(node: Node) -> NodeView
    decreases node,
{
    let data = node.data;
    if let Some(s) = data.statement {
        statement_view(s)
    } else if let Some(f) = data.function {
        function_view(f)
    } else if let Some(c) = data.function_call {
        call_view(c)
    } else if let Some(v) = data.variable_assignment {
        assignment_view(v)
    } else if let Some(e) = data.expression {
        expression_view(e)
    } else if let Some(c) = data.condition_block {
        condition_view(c)
    } else if let Some(m) = data._match {
        NodeView::Match(match_view(m))
    } else if let Some(l) = data.literal {
        literal_view(l)
    } else if let Some(m) = data.math {
        math_view(m)
    } else if let Some(s) = data._struct {
        struct_view(s)
    } else {
        NodeView::Blank
    }
}

/// The views of a list of nodes.
pub open spec fn nodes_view(nodes: Seq<Node>) -> Seq<NodeView>
    decreases nodes,
{
    Seq::new(
        nodes.len(),
        |i: int|
            if 0 <= i < nodes.len() {
                node_view(nodes[i])
            } else {
                NodeView::Blank
            },
    )
}

/// The views of a list of node lists.
pub open spec fn node_lists_view(lists: Seq<Vec<Node>>) -> Seq<Seq<NodeView>>
    decreases lists,
{
    Seq::new(
        lists.len(),
        |i: int|
            if 0 <= i < lists.len() {
                nodes_view(lists[i]@)
            } else {
                Seq::empty()
            },
    )
}

/// The view of a match case.
pub open spec fn case_view(case: MatchCase) -> CaseView
    decreases case,
{
    CaseView { case: tokens_view(case.case@), block: nodes_view(case.block@) }
}

/// The views of a list of match cases.
pub open spec fn cases_view(cases: Seq<MatchCase>) -> Seq<CaseView>
    decreases cases,
{
    Seq::new(
        cases.len(),
        |i: int|
            if 0 <= i < cases.len() {
                case_view(cases[i])
            } else {
                CaseView { case: Seq::empty(), block: Seq::empty() }
            },
    )
}

/// The view of a match.
pub open spec fn match_view(m: Match) -> MatchView
    decreases m,
{
    MatchView { condition: nodes_view(m.condition@), block: cases_view(m.block@) }
}

/// Appending a node to a list appends its view.
pub proof fn lemma_nodes_view_push(nodes: Seq<Node>, node: Node)
    ensures
        nodes_view(nodes.push(node)) == nodes_view(nodes).push(node_view(node)),
{
}

impl std::ops::Deref for Node {
    type Target = NodeData;

    fn deref(&self) -> (data: &NodeData)
        ensures
            *data == self.data,
    {
        &self.data
    }
}

impl View for Node {
    type V = NodeView;

    open spec fn view(&self) -> NodeView {
        node_view(*self)
    }
}

impl View for Match {
    type V = MatchView;

    open spec fn view(&self) -> MatchView {
        match_view(*self)
    }
}

/// How many of the ten constructs a payload holds.
pub open spec fn filled(data: NodeData) -> nat {
    let one = |b: bool| if b { 1nat } else { 0nat };
    one(data.statement is Some) + one(data.function is Some) + one(data.function_call is Some)
        + one(data.variable_assignment is Some) + one(data.expression is Some) + one(
        data.condition_block is Some,
    ) + one(data._match is Some) + one(data.literal is Some) + one(data.math is Some) + one(
        data._struct is Some,
    )
}

/// A node is well formed when it holds at most one construct, a raw
/// expression that it holds is not empty, and the nodes below it are well
/// formed.
pub open spec fn well_formed(node: Node) -> bool
    decreases node,
{
    let data = node.data;
    &&& filled(data) <= 1
    &&& data.expression matches Some(e) ==> e.expr.len() > 0
    &&& data.function matches Some(f) ==> all_well_formed(f.nodes@)
    &&& data.function_call matches Some(c) ==> forall|k: int|
        0 <= k < c.arguments.len() ==> all_well_formed(#[trigger] c.arguments[k]@)
    &&& data.variable_assignment matches Some(v) ==> all_well_formed(v.value@)
    &&& data.condition_block matches Some(c) ==> all_well_formed(c.parameters@)
        && all_well_formed(c.nodes@)
    &&& data._match matches Some(m) ==> well_formed_match(m)
}

/// Every node of a list is well formed.
pub open spec fn all_well_formed(nodes: Seq<Node>) -> bool
    decreases nodes,
{
    forall|k: int| 0 <= k < nodes.len() ==> well_formed(#[trigger] nodes[k])
}

/// The condition and the body of every case of a match are well formed.
pub open spec fn well_formed_match(m: Match) -> bool
    decreases m,
{
    &&& all_well_formed(m.condition@)
    &&& forall|k: int| 0 <= k < m.block.len() ==> all_well_formed((#[trigger] m.block[k]).block@)
}

impl Node {
    /// The node holds at most one construct and no empty raw expression,
    /// and so does every node below it.
    pub open spec fn well_formed(&self) -> bool {
        well_formed(*self)
    }

    /// A node with the given payload, field by field.
    pub fn new(
        statement: Option<Statement>,
        function: Option<Function>,
        function_call: Option<FunctionCall>,
        variable_assignment: Option<VariableAssignment>,
        expression: Option<Expression>,
        condition_block: Option<ConditionBlock>,
        _match: Option<Match>,
        literal: Option<Literal>,
        m: Option<Math>,
        s: Option<Struct>,
    ) -> (node: Self)
        ensures
            node.data.statement == statement,
            node.data.function == function,
            node.data.function_call == function_call,
            node.data.variable_assignment == variable_assignment,
            node.data.expression == expression,
            node.data.condition_block == condition_block,
            node.data._match == _match,
            node.data.literal == literal,
            node.data.math == m,
            node.data._struct == s,
    {
        Self {
            data: NodeData {
                statement,
                function,
                function_call,
                variable_assignment,
                expression,
                condition_block,
                _match,
                literal,
                math: m,
                _struct: s,
            },
        }
    }

    /// The node that holds no construct.
    pub fn blank() -> (node: Node)
        ensures
            filled(node.data) == 0,
            node.well_formed(),
            node@ == NodeView::Blank,
    {
        Node::new(None, None, None, None, None, None, None, None, None, None)
    }

    /// The node that holds a keyword statement.
    pub fn statement(s: Statement) -> (node: Node)
        ensures
            node.data.statement == Some(s),
            filled(node.data) == 1,
            node.well_formed(),
            node@ == statement_view(s),
    {
        Node::new(Some(s), None, None, None, None, None, None, None, None, None)
    }

    /// The node that holds a function definition.
    pub fn function(f: Function) -> (node: Node)
        ensures
            node.data.function == Some(f),
            filled(node.data) == 1,
            all_well_formed(f.nodes@) ==> node.well_formed(),
            node@ == function_view(f),
    {
        Node::new(None, Some(f), None, None, None, None, None, None, None, None)
    }

    /// The node that holds a call.
    pub fn function_call(c: FunctionCall) -> (node: Node)
        ensures
            node.data.function_call == Some(c),
            filled(node.data) == 1,
            (forall|k: int|
                0 <= k < c.arguments.len() ==> all_well_formed(#[trigger] c.arguments[k]@))
                ==> node.well_formed(),
            node@ == call_view(c),
    {
        Node::new(None, None, Some(c), None, None, None, None, None, None, None)
    }

    /// The node that holds a variable declaration.
    pub fn variable_assignment(v: VariableAssignment) -> (node: Node)
        ensures
            node.data.variable_assignment == Some(v),
            filled(node.data) == 1,
            all_well_formed(v.value@) ==> node.well_formed(),
            node@ == assignment_view(v),
    {
        Node::new(None, None, None, Some(v), None, None, None, None, None, None)
    }

    /// The node that holds a raw expression.
    pub fn expression(e: Expression) -> (node: Node)
        ensures
            node.data.expression == Some(e),
            filled(node.data) == 1,
            e.expr.len() > 0 ==> node.well_formed(),
            node@ == expression_view(e),
    {
        Node::new(None, None, None, None, Some(e), None, None, None, None, None)
    }

    /// The node that holds a guarded block.
    pub fn condition_block(c: ConditionBlock) -> (node: Node)
        ensures
            node.data.condition_block == Some(c),
            filled(node.data) == 1,
            all_well_formed(c.parameters@) && all_well_formed(c.nodes@) ==> node.well_formed(),
            node@ == condition_view(c),
    {
        Node::new(None, None, None, None, None, Some(c), None, None, None, None)
    }

    /// The node that holds a match.
    pub fn matching(m: Match) -> (node: Node)
        ensures
            node.data._match == Some(m),
            filled(node.data) == 1,
            well_formed_match(m) ==> node.well_formed(),
            node@ == NodeView::Match(m@),
    {
        Node::new(None, None, None, None, None, None, Some(m), None, None, None)
    }

    /// The node that holds a literal.
    pub fn literal(l: Literal) -> (node: Node)
        ensures
            node.data.literal == Some(l),
            filled(node.data) == 1,
            node.well_formed(),
            node@ == literal_view(l),
    {
        Node::new(None, None, None, None, None, None, None, Some(l), None, None)
    }

    /// The node that holds a binary expression.
    pub fn math(m: Math) -> (node: Node)
        ensures
            node.data.math == Some(m),
            filled(node.data) == 1,
            node.well_formed(),
            node@ == math_view(m),
    {
        Node::new(None, None, None, None, None, None, None, None, Some(m), None)
    }

    /// The node that holds a struct definition.
    pub fn structure(s: Struct) -> (node: Node)
        ensures
            node.data._struct == Some(s),
            filled(node.data) == 1,
            node.well_formed(),
            node@ == struct_view(s),
    {
        Node::new(None, None, None, None, None, None, None, None, None, Some(s))
    }
}

/// The keywords that open a statement, in the order of the table.
pub open spec fn keyword_table() -> Seq<Seq<char>> {
    seq!["include"@, "fun"@, "return"@]
}

/// The keywords that open a statement.
pub fn keywords() -> (table: Vec<String>)
    ensures
        tokens_view(table@) == keyword_table(),
{
    let mut table: Vec<String> = Vec::new();
    table.push(String::from_str("include"));
    table.push(String::from_str("fun"));
    table.push(String::from_str("return"));
    table
}

impl Lexer {
    /// A lexer over the given tokens, with an empty program and the keyword
    /// table.
    pub fn new(splitted_text: Vec<String>) -> (lexer: Self)
        ensures
            lexer.splitted_text == splitted_text,
            lexer.program@.len() == 0,
            tokens_view(lexer.keywords@) == keyword_table(),
    {
        Self { splitted_text, program: Vec::new(), keywords: keywords() }
    }
}

} // verus!
