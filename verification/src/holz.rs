//! The tree of a Holz script, built from the pairs of rules and texts that its grammar matched.
use std::rc::Rc;
use vstd::prelude::*;
use vstd::string::*;
use vstd::utf8::*;

pub mod laws;

verus! {

/// The rules of the grammar that mean something to the tree.
#[derive(Clone, Copy, Debug, PartialEq, Eq, Structural)]
pub enum Rule {
    PushIndentation,
    Indentation,
    Expression,
    LhsValue,
    RhsValue,
    Block,
    Boolean,
    Number,
    Str,
    Array,
    Range,
    Index,
    Id,
    Function,
    Call,
    Assignment,
    BinaryOp,
    IfInline,
    IfBlock,
    ForBlock,
    ForInline,
    IfKeyword,
    /// Any other rule: keywords, operators, captures, the end of input.
    Other,
}

/// A rule that the grammar matched, with the text that it matched and the rules within it.
#[derive(Debug)]
pub struct Pair {
    pub rule: Rule,
    pub text: String,
    /// The offset of the first byte of the text in the source.
    pub start: usize,
    /// The offset after the last byte of the text in the source.
    pub end: usize,
    pub inner: Vec<Pair>,
}

/// A stretch of source.
#[derive(Clone, Copy, Debug)]
pub struct Span<'i> {
    pub input: &'i str,
    pub start: usize,
    pub end: usize,
}

#[derive(Debug)]
pub struct AstNode {
    pub node: Node,
    pub start_pos: Position,
    pub end_pos: Position,
}

#[derive(Debug)]
pub enum Node {
    Bool(bool),
    /// A number, as it is written in the source.
    Number(Rc<String>),
    Str(Rc<String>),
    Array(Vec<AstNode>),
    Range { min: Box<AstNode>, max: Box<AstNode>, inclusive: bool },
    Id(Rc<String>),
    Block(Vec<AstNode>),
    Function(Rc<Function>),
    Call { function: Rc<String>, args: Vec<AstNode> },
    Index { id: String, expression: Box<AstNode> },
    Assign { id: Rc<String>, expression: Box<AstNode> },
    BinaryOp { lhs: Box<AstNode>, rhs: Box<AstNode>, op: Op },
    If {
        condition: Box<AstNode>,
        then_node: Box<AstNode>,
        else_node: Option<Box<AstNode>>,
    },
    For(Rc<AstFor>),
}

#[derive(Clone, Debug)]
pub struct Block {}

#[derive(Debug)]
pub struct Function {
    pub args: Vec<Rc<String>>,
    pub body: Vec<AstNode>,
}

#[derive(Debug)]
pub struct AstFor {
    pub arg: Rc<String>,
    pub range: Box<AstNode>,
    pub condition: Option<Box<AstNode>>,
    pub body: Box<AstNode>,
}

#[derive(Clone, Copy, Debug, PartialEq, Eq, Structural)]
pub enum Op {
    Add,
    Subtract,
    Multiply,
    Divide,
    Equal,
    NotEqual,
    LessThan,
    LessThanOrEqual,
    GreaterThan,
    GreaterThanOrEqual,
    And,
    Or,
}

/// A position in the source, both coordinates counted from 1.
#[derive(Clone, Copy, Debug, PartialEq, Eq, Structural)]
pub struct Position {
    pub line: usize,
    pub column: usize,
}

/// What a node holds, with the positions that it reaches from and to.
pub struct Tree {
    pub node: TreeNode,
    pub start: (int, int),
    pub end: (int, int),
}

pub enum TreeNode {
    Bool(bool),
    Number(Seq<char>),
    Str(Seq<char>),
    Array(Seq<Tree>),
    Range { min: Box<Tree>, max: Box<Tree>, inclusive: bool },
    Id(Seq<char>),
    Block(Seq<Tree>),
    Function { args: Seq<Seq<char>>, body: Seq<Tree> },
    Call { function: Seq<char>, args: Seq<Tree> },
    Index { id: Seq<char>, expression: Box<Tree> },
    Assign { id: Seq<char>, expression: Box<Tree> },
    BinaryOp { lhs: Box<Tree>, rhs: Box<Tree>, op: Op },
    If { condition: Box<Tree>, then_node: Box<Tree>, else_node: Option<Box<Tree>> },
    For {
        arg: Seq<char>,
        range: Box<Tree>,
        condition: Option<Box<Tree>>,
        body: Box<Tree>,
    },
}

pub open spec fn texts(texts: Seq<Rc<String>>) -> Seq<Seq<char>> {
    texts.map_values(|text: Rc<String>| text@)
}

/// The tree of a node.
pub open spec fn tree(node: AstNode) -> Tree
    decreases node,
{
    Tree {
        node: tree_node(node.node),
        start: (node.start_pos.line as int, node.start_pos.column as int),
        end: (node.end_pos.line as int, node.end_pos.column as int),
    }
}

pub open spec fn tree_node(node: Node) -> TreeNode
    decreases node,
{
    match node {
        Node::Bool(b) => TreeNode::Bool(b),
        Node::Number(text) => TreeNode::Number(text@),
        Node::Str(text) => TreeNode::Str(text@),
        Node::Array(elements) => TreeNode::Array(trees(elements@)),
        Node::Range { min, max, inclusive } => TreeNode::Range {
            min: Box::new(tree(*min)),
            max: Box::new(tree(*max)),
            inclusive,
        },
        Node::Id(text) => TreeNode::Id(text@),
        Node::Block(body) => TreeNode::Block(trees(body@)),
        Node::Function(function) => TreeNode::Function {
            args: texts(function.args@),
            body: trees(function.body@),
        },
        Node::Call { function, args } => TreeNode::Call {
            function: function@,
            args: trees(args@),
        },
        Node::Index { id, expression } => TreeNode::Index {
            id: id@,
            expression: Box::new(tree(*expression)),
        },
        Node::Assign { id, expression } => TreeNode::Assign {
            id: id@,
            expression: Box::new(tree(*expression)),
        },
        Node::BinaryOp { lhs, rhs, op } => TreeNode::BinaryOp {
            lhs: Box::new(tree(*lhs)),
            rhs: Box::new(tree(*rhs)),
            op,
        },
        Node::If { condition, then_node, else_node } => TreeNode::If {
            condition: Box::new(tree(*condition)),
            then_node: Box::new(tree(*then_node)),
            else_node: match else_node {
                Some(else_node) => Some(Box::new(tree(*else_node))),
                None => None,
            },
        },
        Node::For(ast_for) => TreeNode::For {
            arg: ast_for.arg@,
            range: Box::new(tree(*ast_for.range)),
            condition: match ast_for.condition {
                Some(condition) => Some(Box::new(tree(*condition))),
                None => None,
            },
            body: Box::new(tree(*ast_for.body)),
        },
    }
}

pub open spec fn trees(nodes: Seq<AstNode>) -> Seq<Tree>
    decreases nodes,
{
    if nodes.len() == 0 {
        Seq::empty()
    } else {
        trees(nodes.drop_last()).push(tree(nodes.last()))
    }
}

/// The source up to an offset.
pub open spec fn before(source: Seq<char>, offset: int) -> Seq<char> {
    decode_utf8(encode_utf8(source).take(offset))
}

/// The number of the line that comes after a text.
pub open spec fn line_after(text: Seq<char>) -> int
    decreases text.len(),
{
    if text.len() == 0 {
        1
    } else if text.last() == '\n' {
        line_after(text.drop_last()) + 1
    } else {
        line_after(text.drop_last())
    }
}

/// The column that comes after a text.
pub open spec fn column_after(text: Seq<char>) -> int
    decreases text.len(),
{
    if text.len() == 0 || text.last() == '\n' {
        1
    } else {
        column_after(text.drop_last()) + 1
    }
}

/// The position of an offset in the source.
pub open spec fn position_at(source: Seq<char>, offset: int) -> (int, int) {
    (line_after(before(source, offset)), column_after(before(source, offset)))
}

/// An offset at which a character of the source starts, or at which the source ends.
pub open spec fn is_offset(source: Seq<char>, offset: int) -> bool {
    is_char_boundary(encode_utf8(source), offset)
}

/// The offsets of the pair and of everything within it are offsets of the source.
pub open spec fn is_placed(source: Seq<char>, pair: Pair) -> bool
    decreases pair,
{
    &&& is_offset(source, pair.start as int)
    &&& is_offset(source, pair.end as int)
    &&& forall|i: int|
        0 <= i < pair.inner@.len() ==> is_placed(source, #[trigger] pair.inner@[i])
}

/// The operator that a text stands for.
pub open spec fn op_of(text: Seq<char>) -> Option<Op> {
    if text == "+"@ {
        Some(Op::Add)
    } else if text == "-"@ {
        Some(Op::Subtract)
    } else if text == "*"@ {
        Some(Op::Multiply)
    } else if text == "/"@ {
        Some(Op::Divide)
    } else if text == "=="@ {
        Some(Op::Equal)
    } else if text == "!="@ {
        Some(Op::NotEqual)
    } else if text == "<"@ {
        Some(Op::LessThan)
    } else if text == "<="@ {
        Some(Op::LessThanOrEqual)
    } else if text == ">"@ {
        Some(Op::GreaterThan)
    } else if text == ">="@ {
        Some(Op::GreaterThanOrEqual)
    } else if text == "and"@ {
        Some(Op::And)
    } else if text == "or"@ {
        Some(Op::Or)
    } else {
        None
    }
}

/// Indentation has no node. Neither has an expression that consists of it.
pub open spec fn has_node(pair: Pair) -> bool
    decreases pair,
{
    match pair.rule {
        Rule::PushIndentation | Rule::Indentation => false,
        Rule::Expression | Rule::LhsValue | Rule::RhsValue => pair.inner@.len() > 0 && has_node(
            pair.inner@[0],
        ),
        _ => true,
    }
}

/// The pair at an index within a pair is there, can be built, and has a node.
pub open spec fn has_operand(pair: Pair, index: int) -> bool
    decreases pair, 0int,
{
    0 <= index < pair.inner@.len() && is_buildable(pair.inner@[index]) && has_node(
        pair.inner@[index],
    )
}

/// The pairs within a pair can be built, from an index on.
pub open spec fn has_list(pair: Pair, from: int) -> bool
    decreases pair, 0int,
{
    forall|i: int|
        from <= i < pair.inner@.len() ==> 0 <= i ==> is_buildable(#[trigger] pair.inner@[i])
}

/// The pair has the parts that its rule calls for.
pub open spec fn is_buildable(pair: Pair) -> bool
    decreases pair, 1int,
{
    let count = pair.inner@.len();
    match pair.rule {
        Rule::PushIndentation | Rule::Indentation => true,
        Rule::Expression | Rule::LhsValue | Rule::RhsValue => count > 0 && is_buildable(
            pair.inner@[0],
        ),
        Rule::Block | Rule::Array => has_list(pair, 0),
        Rule::Boolean => pair.text@ == "true"@ || pair.text@ == "false"@,
        Rule::Number => true,
        Rule::Str => count > 0,
        Rule::Range => has_operand(pair, 0) && has_operand(pair, 2),
        Rule::Index => has_operand(pair, 1),
        Rule::Id => true,
        Rule::Function | Rule::Call => count > 0 && has_list(pair, 1),
        Rule::Assignment => has_operand(pair, 1),
        Rule::BinaryOp => has_operand(pair, 0) && has_operand(pair, 2) && op_of(
            pair.inner@[1].text@,
        ) is Some,
        Rule::IfInline | Rule::IfBlock => {
            &&& has_operand(pair, 1)
            &&& has_operand(pair, 3)
            &&& count > 4 ==> has_operand(pair, 5)
        },
        Rule::ForBlock => {
            &&& has_operand(pair, 3)
            &&& count > 4
            &&& if pair.inner@[4].rule == Rule::IfKeyword {
                has_operand(pair, 5) && has_operand(pair, 7)
            } else {
                has_operand(pair, 5)
            }
        },
        Rule::ForInline => {
            &&& has_operand(pair, 0)
            &&& has_operand(pair, 4)
            &&& count > 5 ==> has_operand(pair, 6)
        },
        Rule::IfKeyword | Rule::Other => false,
    }
}

/// The texts of a capture, up to its arrow.
pub open spec fn capture_args(pairs: Seq<Pair>) -> Seq<Seq<char>>
    decreases pairs.len(),
{
    if pairs.len() == 0 || pairs[0].text@ == "->"@ {
        Seq::empty()
    } else {
        seq![pairs[0].text@] + capture_args(pairs.skip(1))
    }
}

/// The tree of a pair, if it has one.
pub open spec fn built(source: Seq<char>, pair: Pair) -> Option<Tree>
    decreases pair, 2int,
{
    if !has_node(pair) {
        None
    } else {
        match pair.rule {
            Rule::Expression | Rule::LhsValue | Rule::RhsValue => built(source, pair.inner@[0]),
            _ => Some(
                Tree {
                    node: built_node(source, pair),
                    start: position_at(source, pair.start as int),
                    end: position_at(source, pair.end as int),
                },
            ),
        }
    }
}

/// The tree of the pair at an index within a pair, which is there and has a tree.
pub open spec fn operand(source: Seq<char>, pair: Pair, index: int) -> Box<Tree>
    recommends
        has_operand(pair, index),
    decreases pair, 0int,
{
    if 0 <= index < pair.inner@.len() {
        Box::new(built(source, pair.inner@[index])->0)
    } else {
        arbitrary()
    }
}

/// The trees of the pairs after the first one within a pair.
pub open spec fn operands(source: Seq<char>, pair: Pair) -> Seq<Tree>
    decreases pair, 0int,
{
    if pair.inner@.len() > 0 {
        built_list(source, pair.inner@.skip(1))
    } else {
        Seq::empty()
    }
}

/// The trees of those pairs that have one.
pub open spec fn built_list(source: Seq<char>, pairs: Seq<Pair>) -> Seq<Tree>
    decreases pairs, 0int,
{
    if pairs.len() == 0 {
        Seq::empty()
    } else {
        let rest = built_list(source, pairs.drop_last());
        match built(source, pairs.last()) {
            Some(tree) => rest.push(tree),
            None => rest,
        }
    }
}

/// What the tree of a pair holds.
pub open spec fn built_node(source: Seq<char>, pair: Pair) -> TreeNode
    decreases pair, 1int,
{
    let inner = pair.inner@;
    match pair.rule {
        Rule::Block => TreeNode::Block(built_list(source, inner)),
        Rule::Boolean => TreeNode::Bool(pair.text@ == "true"@),
        Rule::Number => TreeNode::Number(pair.text@),
        Rule::Str => TreeNode::Str(inner[0].text@),
        Rule::Array => TreeNode::Array(built_list(source, inner)),
        Rule::Range => TreeNode::Range {
            min: operand(source, pair, 0),
            max: operand(source, pair, 2),
            inclusive: inner[1].text@ == "..="@,
        },
        Rule::Index => TreeNode::Index {
            id: inner[0].text@,
            expression: operand(source, pair, 1),
        },
        Rule::Id => TreeNode::Id(pair.text@),
        Rule::Function => TreeNode::Function {
            args: capture_args(inner[0].inner@),
            body: operands(source, pair),
        },
        Rule::Call => TreeNode::Call {
            function: inner[0].text@,
            args: operands(source, pair),
        },
        Rule::Assignment => TreeNode::Assign {
            id: inner[0].text@,
            expression: operand(source, pair, 1),
        },
        Rule::BinaryOp => TreeNode::BinaryOp {
            lhs: operand(source, pair, 0),
            rhs: operand(source, pair, 2),
            op: op_of(inner[1].text@)->0,
        },
        // if, condition, then, branch, else, branch
        Rule::IfInline | Rule::IfBlock => TreeNode::If {
            condition: operand(source, pair, 1),
            then_node: operand(source, pair, 3),
            else_node: if inner.len() > 4 {
                Some(operand(source, pair, 5))
            } else {
                None
            },
        },
        // for, arg, in, range, if, condition, indentation, body
        Rule::ForBlock => if inner[4].rule == Rule::IfKeyword {
            TreeNode::For {
                arg: inner[1].text@,
                range: operand(source, pair, 3),
                condition: Some(operand(source, pair, 5)),
                body: operand(source, pair, 7),
            }
        } else {
            TreeNode::For {
                arg: inner[1].text@,
                range: operand(source, pair, 3),
                condition: None,
                body: operand(source, pair, 5),
            }
        },
        // body, for, arg, in, range, if, condition
        _ => TreeNode::For {
            arg: inner[2].text@,
            range: operand(source, pair, 4),
            condition: if inner.len() > 5 {
                Some(operand(source, pair, 6))
            } else {
                None
            },
            body: operand(source, pair, 0),
        },
    }
}

/// The line and the column of an offset in a text, as `pest::Position::line_col` counts them: the
/// line is one more than the number of line feeds before the offset, and the column one more than
/// the number of characters between the last of them and the offset.
#[verifier::external_body]
fn line_col(input: &str, offset: usize) -> (result: (usize, usize))
    requires
        is_offset(input@, offset as int),
    ensures
        (result.0 as int, result.1 as int) == position_at(input@, offset as int),
{
    pest::Position::new(input, offset).unwrap().line_col()
}

impl AstNode {
    /// Places a node at the positions that a span reaches from and to.
    pub fn new(span: Span, node: Node) -> (result: Self)
        requires
            is_offset(span.input@, span.start as int),
            is_offset(span.input@, span.end as int),
        ensures
            result.node == node,
            tree(result) == (Tree {
                node: tree_node(node),
                start: position_at(span.input@, span.start as int),
                end: position_at(span.input@, span.end as int),
            }),
    {
        let start: (usize, usize) = line_col(span.input, span.start);
        let start_pos = Position { line: start.0, column: start.1 };
        let end: (usize, usize) = line_col(span.input, span.end);
        let end_pos = Position { line: end.0, column: end.1 };
        AstNode { node, start_pos, end_pos }
    }
}

/// The text is the given one.
fn is_text(text: &String, expected: &str) -> (result: bool)
    ensures
        result == (text@ == expected@),
{
    *text == expected.to_owned()
}

fn parse_op(text: &String) -> (op: Option<Op>)
    ensures
        op == op_of(text@),
{
    if is_text(text, "+") {
        Some(Op::Add)
    } else if is_text(text, "-") {
        Some(Op::Subtract)
    } else if is_text(text, "*") {
        Some(Op::Multiply)
    } else if is_text(text, "/") {
        Some(Op::Divide)
    } else if is_text(text, "==") {
        Some(Op::Equal)
    } else if is_text(text, "!=") {
        Some(Op::NotEqual)
    } else if is_text(text, "<") {
        Some(Op::LessThan)
    } else if is_text(text, "<=") {
        Some(Op::LessThanOrEqual)
    } else if is_text(text, ">") {
        Some(Op::GreaterThan)
    } else if is_text(text, ">=") {
        Some(Op::GreaterThanOrEqual)
    } else if is_text(text, "and") {
        Some(Op::And)
    } else if is_text(text, "or") {
        Some(Op::Or)
    } else {
        None
    }
}

proof fn lemma_trees_push(nodes: Seq<AstNode>, node: AstNode)
    ensures
        trees(nodes.push(node)) == trees(nodes).push(tree(node)),
{
    assert(nodes.push(node).drop_last() =~= nodes);
}

/// Builds the node of a pair. Indentation has none.
pub fn build_ast_from_expression(source: &str, pair: &Pair) -> (result: Option<AstNode>)
    requires
        is_placed(source@, *pair),
        is_buildable(*pair),
    ensures
        match result {
            Some(node) => built(source@, *pair) == Some(tree(node)),
            None => built(source@, *pair) is None,
        },
    decreases *pair, 2int,
{
    match pair.rule {
        Rule::PushIndentation | Rule::Indentation => None,
        Rule::Expression | Rule::LhsValue | Rule::RhsValue => build_ast_from_expression(
            source,
            &pair.inner[0],
        ),
        _ => {
            let span = Span { input: source, start: pair.start, end: pair.end };
            let node = build_node(source, pair);
            Some(AstNode::new(span, node))
        },
    }
}

/// Builds what the node of a pair holds.
fn build_node(source: &str, pair: &Pair) -> (node: Node)
    requires
        is_placed(source@, *pair),
        is_buildable(*pair),
        pair.rule != Rule::PushIndentation && pair.rule != Rule::Indentation,
        pair.rule != Rule::Expression && pair.rule != Rule::LhsValue && pair.rule != Rule::RhsValue,
    ensures
        tree_node(node) == built_node(source@, *pair),
    decreases *pair, 1int,
{
    match pair.rule {
        Rule::Block => Node::Block(build_list(source, pair, 0)),
        Rule::Boolean => Node::Bool(is_text(&pair.text, "true")),
        Rule::Number => Node::Number(Rc::new(pair.text.clone())),
        Rule::Str => Node::Str(Rc::new(pair.inner[0].text.clone())),
        Rule::Array => Node::Array(build_list(source, pair, 0)),
        Rule::Range => {
            assert(has_operand(*pair, 2));
            let min = build_operand(source, pair, 0);
            let inclusive = is_text(&pair.inner[1].text, "..=");
            let max = build_operand(source, pair, 2);
            Node::Range { min, inclusive, max }
        },
        Rule::Index => {
            assert(has_operand(*pair, 1));
            let id = pair.inner[0].text.clone();
            let expression = build_operand(source, pair, 1);
            Node::Index { id, expression }
        },
        Rule::Id => Node::Id(Rc::new(pair.text.clone())),
        Rule::Function => {
            let args = build_capture_args(&pair.inner[0].inner);
            let body = build_list(source, pair, 1);
            Node::Function(Rc::new(Function { args, body }))
        },
        Rule::Call => {
            let function = Rc::new(pair.inner[0].text.clone());
            let args = build_list(source, pair, 1);
            Node::Call { function, args }
        },
        Rule::Assignment => {
            assert(has_operand(*pair, 1));
            let id = Rc::new(pair.inner[0].text.clone());
            let expression = build_operand(source, pair, 1);
            Node::Assign { id, expression }
        },
        Rule::BinaryOp => {
            assert(has_operand(*pair, 2));
            let lhs = build_operand(source, pair, 0);
            let op = parse_op(&pair.inner[1].text).unwrap();
            let rhs = build_operand(source, pair, 2);
            Node::BinaryOp { lhs, op, rhs }
        },
        Rule::IfInline | Rule::IfBlock => {
            let condition = build_operand(source, pair, 1);
            let then_node = build_operand(source, pair, 3);
            let else_node = if pair.inner.len() > 4 {
                Some(build_operand(source, pair, 5))
            } else {
                None
            };
            Node::If { condition, then_node, else_node }
        },
        Rule::ForBlock => {
            assert(has_operand(*pair, 3));
            let arg = Rc::new(pair.inner[1].text.clone());
            let range = build_operand(source, pair, 3);
            if pair.inner[4].rule == Rule::IfKeyword {
                let condition = Some(build_operand(source, pair, 5));
                let body = build_operand(source, pair, 7);
                Node::For(Rc::new(AstFor { arg, range, condition, body }))
            } else {
                let body = build_operand(source, pair, 5);
                Node::For(Rc::new(AstFor { arg, range, condition: None, body }))
            }
        },
        _ => {
            assert(has_operand(*pair, 4));
            let body = build_operand(source, pair, 0);
            let arg = Rc::new(pair.inner[2].text.clone());
            let range = build_operand(source, pair, 4);
            let condition = if pair.inner.len() > 5 {
                Some(build_operand(source, pair, 6))
            } else {
                None
            };
            Node::For(Rc::new(AstFor { arg, range, condition, body }))
        },
    }
}

/// Builds the node of the pair at an index within a pair.
fn build_operand(source: &str, pair: &Pair, index: usize) -> (node: Box<AstNode>)
    requires
        is_placed(source@, *pair),
        has_operand(*pair, index as int),
    ensures
        Box::new(tree(*node)) == operand(source@, *pair, index as int),
    decreases *pair, 0int,
{
    proof {
        lemma_built(source@, pair.inner@[index as int]);
    }
    Box::new(build_ast_from_expression(source, &pair.inner[index]).unwrap())
}

/// A pair has a tree if it has a node.
proof fn lemma_built(source: Seq<char>, pair: Pair)
    ensures
        has_node(pair) <==> built(source, pair) is Some,
    decreases pair,
{
    if has_node(pair) {
        match pair.rule {
            Rule::Expression | Rule::LhsValue | Rule::RhsValue => {
                lemma_built(source, pair.inner@[0]);
            },
            _ => {},
        }
    }
}

/// Builds the nodes of the pairs within a pair, from an index on.
fn build_list(source: &str, pair: &Pair, from: usize) -> (nodes: Vec<AstNode>)
    requires
        is_placed(source@, *pair),
        has_list(*pair, from as int),
        from <= pair.inner@.len(),
    ensures
        trees(nodes@) == built_list(source@, pair.inner@.skip(from as int)),
        from == 0 ==> trees(nodes@) == built_list(source@, pair.inner@),
    decreases *pair, 0int,
{
    let mut nodes: Vec<AstNode> = Vec::new();
    let mut i: usize = from;
    assert(pair.inner@.subrange(from as int, i as int) =~= Seq::empty());
    while i < pair.inner.len()
        invariant
            from <= i <= pair.inner@.len(),
            is_placed(source@, *pair),
            has_list(*pair, from as int),
            trees(nodes@) == built_list(source@, pair.inner@.subrange(from as int, i as int)),
        decreases pair.inner@.len() - i,
    {
        let ghost upto = pair.inner@.subrange(from as int, i + 1);
        assert(upto.drop_last() =~= pair.inner@.subrange(from as int, i as int));
        assert(upto.last() == pair.inner@[i as int]);
        if let Some(node) = build_ast_from_expression(source, &pair.inner[i]) {
            proof {
                lemma_trees_push(nodes@, node);
            }
            nodes.push(node);
        }
        i = i + 1;
    }
    assert(pair.inner@.subrange(from as int, i as int) =~= pair.inner@.skip(from as int));
    assert(from == 0 ==> pair.inner@.skip(from as int) =~= pair.inner@);
    nodes
}

/// The args of a capture, up to its arrow.
fn build_capture_args(pairs: &Vec<Pair>) -> (args: Vec<Rc<String>>)
    ensures
        texts(args@) == capture_args(pairs@),
{
    let mut args: Vec<Rc<String>> = Vec::new();
    let mut i: usize = 0;
    assert(pairs@.skip(0) =~= pairs@);
    assert(texts(args@) + capture_args(pairs@) =~= capture_args(pairs@));
    while i < pairs.len() && !is_text(&pairs[i].text, "->")
        invariant
            i <= pairs@.len(),
            texts(args@) + capture_args(pairs@.skip(i as int)) == capture_args(pairs@),
        decreases pairs@.len() - i,
    {
        let ghost before = texts(args@);
        let arg = Rc::new(pairs[i].text.clone());
        args.push(arg);
        assert(texts(args@) =~= before.push(pairs@[i as int].text@));
        assert(pairs@.skip(i as int).skip(1) =~= pairs@.skip(i + 1));
        i = i + 1;
        assert(texts(args@) + capture_args(pairs@.skip(i as int)) =~= before + (seq![
            pairs@[i - 1].text@,
        ] + capture_args(pairs@.skip(i as int))));
    }
    assert(texts(args@) + Seq::empty() =~= texts(args@));
    args
}

/// The pairs of blocks.
pub open spec fn is_block(pair: Pair) -> bool {
    pair.rule == Rule::Block
}

/// The blocks among pairs.
pub open spec fn blocks_of(pairs: Seq<Pair>) -> Seq<Pair> {
    pairs.filter(|pair: Pair| is_block(pair))
}

/// Builds the blocks of a script from the pairs that its grammar matched, or hands on the error
/// that matching ended in.
pub fn parse<E>(source: &str, parsed: Result<Vec<Pair>, E>) -> (result: Result<Vec<AstNode>, E>)
    requires
        parsed matches Ok(pairs) ==> forall|i: int|
            0 <= i < pairs@.len() && is_block(#[trigger] pairs@[i]) ==> is_placed(
                source@,
                pairs@[i],
            ) && is_buildable(pairs@[i]),
    ensures
        match (parsed, result) {
            (Ok(pairs), Ok(ast)) => trees(ast@) == built_list(source@, blocks_of(pairs@)),
            (Err(error), Err(e)) => e == error,
            _ => false,
        },
{
    let pairs = match parsed {
        Ok(pairs) => pairs,
        Err(error) => {
            return Err(error);
        },
    };
    let ghost blocks = |pair: Pair| is_block(pair);
    let mut ast: Vec<AstNode> = Vec::new();
    let mut i: usize = 0;
    assert(pairs@.take(0) =~= Seq::empty());
    proof {
        reveal(Seq::filter);
    }
    while i < pairs.len()
        invariant
            i <= pairs@.len(),
            blocks == (|pair: Pair| is_block(pair)),
            forall|i: int|
                0 <= i < pairs@.len() && is_block(#[trigger] pairs@[i]) ==> is_placed(
                    source@,
                    pairs@[i],
                ) && is_buildable(pairs@[i]),
            trees(ast@) == built_list(source@, pairs@.take(i as int).filter(blocks)),
        decreases pairs@.len() - i,
    {
        proof {
            reveal(Seq::filter);
            assert(pairs@.take(i + 1).drop_last() =~= pairs@.take(i as int));
            assert(pairs@.take(i + 1).last() == pairs@[i as int]);
        }
        if pairs[i].rule == Rule::Block {
            let ghost kept = pairs@.take(i as int).filter(blocks);
            assert(kept.push(pairs@[i as int]).drop_last() =~= kept);
            if let Some(node) = build_ast_from_expression(source, &pairs[i]) {
                proof {
                    lemma_trees_push(ast@, node);
                }
                ast.push(node);
            }
        }
        i = i + 1;
    }
    assert(pairs@.take(i as int) =~= pairs@);
    Ok(ast)
}

/// Tells whether the tree of a pair can be built.
pub fn can_build(source: &str, pair: &Pair) -> (result: bool)
    ensures
        result == (is_placed(source@, *pair) && is_buildable(*pair)),
{
    check_placed(source, pair) && check_buildable(pair)
}

fn check_placed(source: &str, pair: &Pair) -> (result: bool)
    ensures
        result == is_placed(source@, *pair),
    decreases *pair,
{
    if !source.is_char_boundary(pair.start) || !source.is_char_boundary(pair.end) {
        return false;
    }
    let mut i: usize = 0;
    while i < pair.inner.len()
        invariant
            i <= pair.inner@.len(),
            is_offset(source@, pair.start as int),
            is_offset(source@, pair.end as int),
            forall|j: int| 0 <= j < i ==> is_placed(source@, #[trigger] pair.inner@[j]),
        decreases pair.inner@.len() - i,
    {
        if !check_placed(source, &pair.inner[i]) {
            assert(!is_placed(source@, pair.inner@[i as int]));
            return false;
        }
        i = i + 1;
    }
    true
}

fn check_node(pair: &Pair) -> (result: bool)
    ensures
        result == has_node(*pair),
    decreases *pair,
{
    match pair.rule {
        Rule::PushIndentation | Rule::Indentation => false,
        Rule::Expression | Rule::LhsValue | Rule::RhsValue => pair.inner.len() > 0 && check_node(
            &pair.inner[0],
        ),
        _ => true,
    }
}

fn check_operand(pair: &Pair, index: usize) -> (result: bool)
    ensures
        result == has_operand(*pair, index as int),
    decreases *pair, 0int,
{
    index < pair.inner.len() && check_buildable(&pair.inner[index]) && check_node(
        &pair.inner[index],
    )
}

fn check_list(pair: &Pair, from: usize) -> (result: bool)
    ensures
        result == has_list(*pair, from as int),
    decreases *pair, 0int,
{
    let mut i: usize = from;
    while i < pair.inner.len()
        invariant
            from <= i,
            forall|j: int|
                from <= j < i && j < pair.inner@.len() ==> is_buildable(
                    #[trigger] pair.inner@[j],
                ),
        decreases pair.inner@.len() - i,
    {
        if !check_buildable(&pair.inner[i]) {
            assert(!is_buildable(pair.inner@[i as int]));
            return false;
        }
        i = i + 1;
    }
    true
}

fn check_buildable(pair: &Pair) -> (result: bool)
    ensures
        result == is_buildable(*pair),
    decreases *pair, 1int,
{
    let count: usize = pair.inner.len();
    match pair.rule {
        Rule::PushIndentation | Rule::Indentation => true,
        Rule::Expression | Rule::LhsValue | Rule::RhsValue => count > 0 && check_buildable(
            &pair.inner[0],
        ),
        Rule::Block | Rule::Array => check_list(pair, 0),
        Rule::Boolean => is_text(&pair.text, "true") || is_text(&pair.text, "false"),
        Rule::Number => true,
        Rule::Str => count > 0,
        Rule::Range => check_operand(pair, 0) && check_operand(pair, 2),
        Rule::Index => check_operand(pair, 1),
        Rule::Id => true,
        Rule::Function | Rule::Call => count > 0 && check_list(pair, 1),
        Rule::Assignment => check_operand(pair, 1),
        Rule::BinaryOp => check_operand(pair, 0) && check_operand(pair, 2) && parse_op(
            &pair.inner[1].text,
        ).is_some(),
        Rule::IfInline | Rule::IfBlock => check_operand(pair, 1) && check_operand(pair, 3) && (count
            <= 4 || check_operand(pair, 5)),
        Rule::ForBlock => check_operand(pair, 3) && count > 4 && check_operand(pair, 5) && (
        pair.inner[4].rule != Rule::IfKeyword || check_operand(pair, 7)),
        Rule::ForInline => check_operand(pair, 0) && check_operand(pair, 4) && (count <= 5
            || check_operand(pair, 6)),
        Rule::IfKeyword | Rule::Other => false,
    }
}

/// A pair that only wraps another one has its tree.
pub proof fn law_wrappers_are_transparent(source: Seq<char>, pair: Pair)
    requires
        pair.rule == Rule::Expression || pair.rule == Rule::LhsValue || pair.rule == Rule::RhsValue,
        is_buildable(pair),
    ensures
        built(source, pair) == built(source, pair.inner@[0]),
{
    lemma_built(source, pair.inner@[0]);
}

/// A pair has a tree exactly if it isn't indentation.
pub proof fn law_only_indentation_has_no_tree(source: Seq<char>, pair: Pair)
    ensures
        built(source, pair) is Some <==> has_node(pair),
{
    lemma_built(source, pair);
}

/// The trees of pairs that stand side by side stand side by side.
pub proof fn law_lists_join(source: Seq<char>, a: Seq<Pair>, b: Seq<Pair>)
    ensures
        built_list(source, a + b) == built_list(source, a) + built_list(source, b),
    decreases b.len(),
{
    if b.len() == 0 {
        assert(a + b =~= a);
        assert(built_list(source, a) + built_list(source, b) =~= built_list(source, a));
    } else {
        law_lists_join(source, a, b.drop_last());
        assert((a + b).drop_last() =~= a + b.drop_last());
        assert((a + b).last() == b.last());
        assert(built_list(source, a + b) =~= built_list(source, a) + built_list(source, b));
    }
}

/// Indentation doesn't show in a list: the trees are those of the other pairs.
pub proof fn law_indentation_is_dropped(source: Seq<char>, pairs: Seq<Pair>)
    ensures
        built_list(source, pairs.filter(|pair: Pair| has_node(pair))) == built_list(source, pairs),
        built_list(source, pairs).len() == pairs.filter(|pair: Pair| has_node(pair)).len(),
    decreases pairs.len(),
{
    reveal(Seq::filter);
    if pairs.len() > 0 {
        let keeps = |pair: Pair| has_node(pair);
        law_indentation_is_dropped(source, pairs.drop_last());
        lemma_built(source, pairs.last());
        let kept = pairs.drop_last().filter(keeps);
        assert(kept.push(pairs.last()).drop_last() =~= kept);
    }
}

/// Different texts stand for different operators.
pub proof fn law_operators_are_distinct(a: Seq<char>, b: Seq<char>)
    requires
        op_of(a) is Some,
        op_of(a) == op_of(b),
    ensures
        a == b,
{
}

pub open spec fn is_at_or_before(a: (int, int), b: (int, int)) -> bool {
    a.0 < b.0 || (a.0 == b.0 && a.1 <= b.1)
}

/// Positions are counted from 1, and a later offset has a later position.
pub proof fn law_positions_are_ordered(source: Seq<char>, a: int, b: int)
    requires
        is_offset(source, a),
        is_offset(source, b),
        a <= b,
    ensures
        position_at(source, a).0 >= 1,
        position_at(source, a).1 >= 1,
        is_at_or_before(position_at(source, a), position_at(source, b)),
{
    let bytes = encode_utf8(source);
    encode_utf8_valid_utf8(source);
    lemma_offset_in_range(bytes, a);
    lemma_offset_in_range(bytes, b);
    let upto = bytes.subrange(0, b);
    valid_utf8_split(bytes, b);
    assert(is_char_boundary(upto, a)) by {
        if a == b {
            is_char_boundary_start_end_of_seq(upto);
        } else {
            is_char_boundary_iff_not_is_continuation_byte(bytes, a);
            is_char_boundary_iff_not_is_continuation_byte(upto, a);
        }
    }
    decode_utf8_split(upto, a);
    assert(upto.subrange(0, a) =~= bytes.take(a));
    assert(upto =~= bytes.take(b));
    lemma_position_from_one(before(source, a));
    lemma_position_after(before(source, a), decode_utf8(upto.subrange(a, upto.len() as int)));
}

proof fn lemma_offset_in_range(bytes: Seq<u8>, offset: int)
    requires
        valid_utf8(bytes),
        is_char_boundary(bytes, offset),
    ensures
        0 <= offset <= bytes.len(),
{
}

proof fn lemma_position_from_one(text: Seq<char>)
    ensures
        line_after(text) >= 1,
        column_after(text) >= 1,
    decreases text.len(),
{
    if text.len() > 0 {
        lemma_position_from_one(text.drop_last());
    }
}

proof fn lemma_position_after(text: Seq<char>, more: Seq<char>)
    ensures
        is_at_or_before(
            (line_after(text), column_after(text)),
            (line_after(text + more), column_after(text + more)),
        ),
    decreases more.len(),
{
    if more.len() == 0 {
        assert(text + more =~= text);
    } else {
        lemma_position_after(text, more.drop_last());
        assert((text + more).drop_last() =~= text + more.drop_last());
    }
}

} // verus!
