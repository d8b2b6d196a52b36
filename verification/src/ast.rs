//! The abstract syntax tree: nodes that refer to each other by index.
use vstd::multiset::Multiset;
use vstd::prelude::*;

use crate::error::{ErrorType, InternalError, ParserError};
use crate::lexer::Span;

pub mod laws;

verus! {

/// The index of a node in the AST.
pub type AstIndex = u32;

/// The index of a constant in the constant pool.
pub type ConstantIndex = u32;

#[derive(Clone, Copy, Debug, PartialEq, Eq, Structural)]
pub enum AstOp {
    Add,
    Subtract,
    Multiply,
    Divide,
    Modulo,
    Equal,
    NotEqual,
    Less,
    LessOrEqual,
    Greater,
    GreaterOrEqual,
    And,
    Or,
}

#[derive(Clone, Copy, Debug, PartialEq, Eq, Structural)]
pub enum AssignOp {
    Equal,
    Add,
    Subtract,
    Multiply,
    Divide,
    Modulo,
}

#[derive(Clone, Copy, Debug, PartialEq, Eq, Structural)]
pub enum Scope {
    Local,
    Global,
}

#[derive(Clone, Copy, Debug, PartialEq, Eq, Structural)]
pub struct AssignTarget {
    pub target_index: AstIndex,
    pub scope: Scope,
}

#[derive(Clone, Debug)]
pub enum LookupNode {
    Root(AstIndex),
    Id(ConstantIndex),
    Index(AstIndex),
    Call(Vec<AstIndex>),
}

#[derive(Clone, Debug)]
pub struct Function {
    pub args: Vec<ConstantIndex>,
    /// The number of ids that are assigned in the function before any non-local access of them.
    pub local_count: usize,
    /// The ids that the function reads from outside, each of them once, in no particular order.
    pub accessed_non_locals: Vec<ConstantIndex>,
    pub body: AstIndex,
    /// A function that yields is a generator.
    pub is_generator: bool,
}

#[derive(Clone, Debug)]
pub struct AstFor {
    pub args: Vec<ConstantIndex>,
    pub ranges: Vec<AstIndex>,
    pub condition: Option<AstIndex>,
    pub body: AstIndex,
}

#[derive(Clone, Debug)]
pub struct AstIf {
    pub condition: AstIndex,
    pub then_node: AstIndex,
    pub else_if_blocks: Vec<(AstIndex, AstIndex)>,
    pub else_node: Option<AstIndex>,
}

#[derive(Clone, Copy, Debug, PartialEq, Eq, Structural)]
pub struct AstTry {
    pub try_block: AstIndex,
    pub catch_arg: ConstantIndex,
    pub catch_block: AstIndex,
    pub finally_block: Option<AstIndex>,
}

#[derive(Clone, Debug)]
pub struct MatchArm {
    pub patterns: Vec<AstIndex>,
    pub condition: Option<AstIndex>,
    pub expression: AstIndex,
}

#[derive(Clone, Debug)]
pub enum Node {
    Empty,
    Id(ConstantIndex),
    Wildcard,
    Lookup(Vec<LookupNode>),
    BoolTrue,
    BoolFalse,
    Number0,
    Number1,
    Number(ConstantIndex),
    Str(ConstantIndex),
    Num2(Vec<AstIndex>),
    Num4(Vec<AstIndex>),
    List(Vec<AstIndex>),
    Tuple(Vec<AstIndex>),
    Range { start: AstIndex, end: AstIndex, inclusive: bool },
    RangeFrom { start: AstIndex },
    RangeTo { end: AstIndex, inclusive: bool },
    RangeFull,
    MapEntries(Vec<(ConstantIndex, Option<AstIndex>)>),
    MainBlock { body: Vec<AstIndex>, local_count: usize },
    Block(Vec<AstIndex>),
    CopyExpression(AstIndex),
    Function(Function),
    Call { function: AstIndex, args: Vec<AstIndex> },
    Import { from: Vec<ConstantIndex>, items: Vec<Vec<ConstantIndex>> },
    Assign { target: AssignTarget, op: AssignOp, expression: AstIndex },
    MultiAssign { targets: Vec<AssignTarget>, expressions: AstIndex },
    BinaryOp { op: AstOp, lhs: AstIndex, rhs: AstIndex },
    Negate(AstIndex),
    If(AstIf),
    Match { expression: AstIndex, arms: Vec<MatchArm> },
    For(AstFor),
    Loop { body: AstIndex },
    While { condition: AstIndex, body: AstIndex },
    Until { condition: AstIndex, body: AstIndex },
    Break,
    Continue,
    Return,
    ReturnExpression(AstIndex),
    Try(AstTry),
    Yield(AstIndex),
    Type(AstIndex),
    Debug { expression_string: ConstantIndex, expression: AstIndex },
}

#[derive(Clone, Debug)]
pub struct AstNode {
    pub node: Node,
    pub span: Span,
}

/// The nodes of a parsed script, each pushed after the nodes that it refers to.
#[derive(Debug)]
pub struct Ast {
    pub nodes: Vec<AstNode>,
    pub entry_point: AstIndex,
}

/// What a lookup step holds.
pub enum LookupNodeView {
    Root(AstIndex),
    Id(ConstantIndex),
    Index(AstIndex),
    Call(Seq<AstIndex>),
}

/// What a match arm holds.
pub struct MatchArmView {
    pub patterns: Seq<AstIndex>,
    pub condition: Option<AstIndex>,
    pub expression: AstIndex,
}

/// What a node holds. The ids that a function captures have no order.
pub enum NodeView {
    Empty,
    Id(ConstantIndex),
    Wildcard,
    Lookup(Seq<LookupNodeView>),
    BoolTrue,
    BoolFalse,
    Number0,
    Number1,
    Number(ConstantIndex),
    Str(ConstantIndex),
    Num2(Seq<AstIndex>),
    Num4(Seq<AstIndex>),
    List(Seq<AstIndex>),
    Tuple(Seq<AstIndex>),
    Range { start: AstIndex, end: AstIndex, inclusive: bool },
    RangeFrom { start: AstIndex },
    RangeTo { end: AstIndex, inclusive: bool },
    RangeFull,
    MapEntries(Seq<(ConstantIndex, Option<AstIndex>)>),
    MainBlock { body: Seq<AstIndex>, local_count: nat },
    Block(Seq<AstIndex>),
    CopyExpression(AstIndex),
    Function {
        args: Seq<ConstantIndex>,
        local_count: nat,
        accessed_non_locals: Multiset<ConstantIndex>,
        body: AstIndex,
        is_generator: bool,
    },
    Call { function: AstIndex, args: Seq<AstIndex> },
    Import { from: Seq<ConstantIndex>, items: Seq<Seq<ConstantIndex>> },
    Assign { target: AssignTarget, op: AssignOp, expression: AstIndex },
    MultiAssign { targets: Seq<AssignTarget>, expressions: AstIndex },
    BinaryOp { op: AstOp, lhs: AstIndex, rhs: AstIndex },
    Negate(AstIndex),
    If {
        condition: AstIndex,
        then_node: AstIndex,
        else_if_blocks: Seq<(AstIndex, AstIndex)>,
        else_node: Option<AstIndex>,
    },
    Match { expression: AstIndex, arms: Seq<MatchArmView> },
    For {
        args: Seq<ConstantIndex>,
        ranges: Seq<AstIndex>,
        condition: Option<AstIndex>,
        body: AstIndex,
    },
    Loop { body: AstIndex },
    While { condition: AstIndex, body: AstIndex },
    Until { condition: AstIndex, body: AstIndex },
    Break,
    Continue,
    Return,
    ReturnExpression(AstIndex),
    Try(AstTry),
    Yield(AstIndex),
    Type(AstIndex),
    Debug { expression_string: ConstantIndex, expression: AstIndex },
}

pub struct AstNodeView {
    pub node: NodeView,
    pub span: Span,
}

impl View for LookupNode {
    type V = LookupNodeView;

    open spec fn view(&self) -> LookupNodeView {
        match self {
            LookupNode::Root(root) => LookupNodeView::Root(*root),
            LookupNode::Id(id) => LookupNodeView::Id(*id),
            LookupNode::Index(index) => LookupNodeView::Index(*index),
            LookupNode::Call(args) => LookupNodeView::Call(args@),
        }
    }
}

impl View for MatchArm {
    type V = MatchArmView;

    open spec fn view(&self) -> MatchArmView {
        MatchArmView {
            patterns: self.patterns@,
            condition: self.condition,
            expression: self.expression,
        }
    }
}

/// The views of the elements of a sequence.
pub open spec fn views<T: View>(s: Seq<T>) -> Seq<T::V> {
    s.map_values(|t: T| t@)
}

pub proof fn lemma_views_push<T: View>(s: Seq<T>, t: T)
    ensures
        views(s.push(t)) == views(s).push(t@),
{
    assert(views(s.push(t)) =~= views(s).push(t@));
}

impl View for Node {
    type V = NodeView;

    open spec fn view(&self) -> NodeView {
        match self {
            Node::Empty => NodeView::Empty,
            Node::Id(id) => NodeView::Id(*id),
            Node::Wildcard => NodeView::Wildcard,
            Node::Lookup(lookup) => NodeView::Lookup(views(lookup@)),
            Node::BoolTrue => NodeView::BoolTrue,
            Node::BoolFalse => NodeView::BoolFalse,
            Node::Number0 => NodeView::Number0,
            Node::Number1 => NodeView::Number1,
            Node::Number(constant) => NodeView::Number(*constant),
            Node::Str(constant) => NodeView::Str(*constant),
            Node::Num2(args) => NodeView::Num2(args@),
            Node::Num4(args) => NodeView::Num4(args@),
            Node::List(entries) => NodeView::List(entries@),
            Node::Tuple(entries) => NodeView::Tuple(entries@),
            Node::Range { start, end, inclusive } => NodeView::Range {
                start: *start,
                end: *end,
                inclusive: *inclusive,
            },
            Node::RangeFrom { start } => NodeView::RangeFrom { start: *start },
            Node::RangeTo { end, inclusive } => NodeView::RangeTo {
                end: *end,
                inclusive: *inclusive,
            },
            Node::RangeFull => NodeView::RangeFull,
            Node::MapEntries(entries) => NodeView::MapEntries(entries@),
            Node::MainBlock { body, local_count } => NodeView::MainBlock {
                body: body@,
                local_count: *local_count as nat,
            },
            Node::Block(body) => NodeView::Block(body@),
            Node::CopyExpression(index) => NodeView::CopyExpression(*index),
            Node::Function(function) => NodeView::Function {
                args: function.args@,
                local_count: function.local_count as nat,
                accessed_non_locals: function.accessed_non_locals@.to_multiset(),
                body: function.body,
                is_generator: function.is_generator,
            },
            Node::Call { function, args } => NodeView::Call { function: *function, args: args@ },
            Node::Import { from, items } => NodeView::Import { from: from@, items: views(items@) },
            Node::Assign { target, op, expression } => NodeView::Assign {
                target: *target,
                op: *op,
                expression: *expression,
            },
            Node::MultiAssign { targets, expressions } => NodeView::MultiAssign {
                targets: targets@,
                expressions: *expressions,
            },
            Node::BinaryOp { op, lhs, rhs } => NodeView::BinaryOp { op: *op, lhs: *lhs, rhs: *rhs },
            Node::Negate(index) => NodeView::Negate(*index),
            Node::If(ast_if) => NodeView::If {
                condition: ast_if.condition,
                then_node: ast_if.then_node,
                else_if_blocks: ast_if.else_if_blocks@,
                else_node: ast_if.else_node,
            },
            Node::Match { expression, arms } => NodeView::Match {
                expression: *expression,
                arms: views(arms@),
            },
            Node::For(ast_for) => NodeView::For {
                args: ast_for.args@,
                ranges: ast_for.ranges@,
                condition: ast_for.condition,
                body: ast_for.body,
            },
            Node::Loop { body } => NodeView::Loop { body: *body },
            Node::While { condition, body } => NodeView::While {
                condition: *condition,
                body: *body,
            },
            Node::Until { condition, body } => NodeView::Until {
                condition: *condition,
                body: *body,
            },
            Node::Break => NodeView::Break,
            Node::Continue => NodeView::Continue,
            Node::Return => NodeView::Return,
            Node::ReturnExpression(index) => NodeView::ReturnExpression(*index),
            Node::Try(ast_try) => NodeView::Try(*ast_try),
            Node::Yield(index) => NodeView::Yield(*index),
            Node::Type(index) => NodeView::Type(*index),
            Node::Debug { expression_string, expression } => NodeView::Debug {
                expression_string: *expression_string,
                expression: *expression,
            },
        }
    }
}

impl View for AstNode {
    type V = AstNodeView;

    open spec fn view(&self) -> AstNodeView {
        AstNodeView { node: self.node@, span: self.span }
    }
}

impl View for Ast {
    type V = Seq<AstNodeView>;

    open spec fn view(&self) -> Seq<AstNodeView> {
        views(self.nodes@)
    }
}

/// All elements are below `bound`.
pub open spec fn all_below(indices: Seq<u32>, bound: int) -> bool {
    forall|i: int| 0 <= i < indices.len() ==> (#[trigger] indices[i]) < bound
}

pub open spec fn option_below(index: Option<u32>, bound: int) -> bool {
    index matches Some(i) ==> i < bound
}

impl LookupNodeView {
    pub open spec fn refers_below(self, nodes: int, constants: int) -> bool {
        match self {
            LookupNodeView::Root(i) => i < nodes,
            LookupNodeView::Id(c) => c < constants,
            LookupNodeView::Index(i) => i < nodes,
            LookupNodeView::Call(args) => all_below(args, nodes),
        }
    }
}

impl MatchArmView {
    pub open spec fn refers_below(self, nodes: int) -> bool {
        &&& all_below(self.patterns, nodes)
        &&& option_below(self.condition, nodes)
        &&& self.expression < nodes
    }
}

impl NodeView {
    /// The node refers only to AST nodes below `nodes` and constants below `constants`.
    pub open spec fn refers_below(self, nodes: int, constants: int) -> bool {
        match self {
            NodeView::Empty => true,
            NodeView::Id(c) => c < constants,
            NodeView::Wildcard => true,
            NodeView::Lookup(lookup) => forall|i: int|
                0 <= i < lookup.len() ==> (#[trigger] lookup[i]).refers_below(nodes, constants),
            NodeView::BoolTrue => true,
            NodeView::BoolFalse => true,
            NodeView::Number0 => true,
            NodeView::Number1 => true,
            NodeView::Number(c) => c < constants,
            NodeView::Str(c) => c < constants,
            NodeView::Num2(args) => all_below(args, nodes),
            NodeView::Num4(args) => all_below(args, nodes),
            NodeView::List(entries) => all_below(entries, nodes),
            NodeView::Tuple(entries) => all_below(entries, nodes),
            NodeView::Range { start, end, inclusive } => start < nodes && end < nodes,
            NodeView::RangeFrom { start } => start < nodes,
            NodeView::RangeTo { end, inclusive } => end < nodes,
            NodeView::RangeFull => true,
            NodeView::MapEntries(entries) => forall|i: int|
                0 <= i < entries.len() ==> {
                    &&& (#[trigger] entries[i]).0 < constants
                    &&& option_below(entries[i].1, nodes)
                },
            NodeView::MainBlock { body, local_count } => all_below(body, nodes),
            NodeView::Block(body) => all_below(body, nodes),
            NodeView::CopyExpression(i) => i < nodes,
            NodeView::Function { args, local_count, accessed_non_locals, body, is_generator } => {
                &&& all_below(args, constants)
                &&& body < nodes
                &&& forall|id: u32| #[trigger]
                    accessed_non_locals.contains(id) ==> id < constants
            },
            NodeView::Call { function, args } => function < nodes && all_below(args, nodes),
            NodeView::Import { from, items } => {
                &&& all_below(from, constants)
                &&& forall|i: int|
                    0 <= i < items.len() ==> all_below(#[trigger] items[i], constants)
            },
            NodeView::Assign { target, op, expression } => target.target_index < nodes && expression
                < nodes,
            NodeView::MultiAssign { targets, expressions } => {
                &&& forall|i: int|
                    0 <= i < targets.len() ==> (#[trigger] targets[i]).target_index < nodes
                &&& expressions < nodes
            },
            NodeView::BinaryOp { op, lhs, rhs } => lhs < nodes && rhs < nodes,
            NodeView::Negate(i) => i < nodes,
            NodeView::If { condition, then_node, else_if_blocks, else_node } => {
                &&& condition < nodes
                &&& then_node < nodes
                &&& forall|i: int|
                    0 <= i < else_if_blocks.len() ==> {
                        &&& (#[trigger] else_if_blocks[i]).0 < nodes
                        &&& else_if_blocks[i].1 < nodes
                    }
                &&& option_below(else_node, nodes)
            },
            NodeView::Match { expression, arms } => {
                &&& expression < nodes
                &&& forall|i: int|
                    0 <= i < arms.len() ==> (#[trigger] arms[i]).refers_below(nodes)
            },
            NodeView::For { args, ranges, condition, body } => {
                &&& all_below(args, constants)
                &&& all_below(ranges, nodes)
                &&& option_below(condition, nodes)
                &&& body < nodes
            },
            NodeView::Loop { body } => body < nodes,
            NodeView::While { condition, body } => condition < nodes && body < nodes,
            NodeView::Until { condition, body } => condition < nodes && body < nodes,
            NodeView::Break => true,
            NodeView::Continue => true,
            NodeView::Return => true,
            NodeView::ReturnExpression(i) => i < nodes,
            NodeView::Try(ast_try) => {
                &&& ast_try.try_block < nodes
                &&& ast_try.catch_arg < constants
                &&& ast_try.catch_block < nodes
                &&& option_below(ast_try.finally_block, nodes)
            },
            NodeView::Yield(i) => i < nodes,
            NodeView::Type(i) => i < nodes,
            NodeView::Debug { expression_string, expression } => expression_string < constants
                && expression < nodes,
        }
    }
}

/// Every node refers only to nodes that were pushed before it, and to constants of the pool.
#[verifier::opaque]
pub open spec fn nodes_in_order(nodes: Seq<AstNodeView>, constants: int) -> bool {
    forall|i: int| 0 <= i < nodes.len() ==> (#[trigger] nodes[i]).node.refers_below(i, constants)
}

/// The largest number of nodes that indices can tell apart.
pub open spec fn node_capacity() -> int {
    0x1_0000_0000
}

impl Ast {
    pub fn with_capacity(capacity: usize) -> (ast: Self)
        ensures
            ast@ == Seq::<AstNodeView>::empty(),
            ast.entry_point == 0,
    {
        let ast = Ast { nodes: Vec::with_capacity(capacity), entry_point: 0 };
        assert(ast@ =~= Seq::<AstNodeView>::empty());
        ast
    }

    /// Adds a node and returns its index, or an error where the index wouldn't fit.
    pub fn push(&mut self, node: Node, span: Span) -> (result: Result<AstIndex, ParserError>)
        ensures
            final(self).entry_point == old(self).entry_point,
            old(self)@.len() < node_capacity() ==> {
                &&& result == Ok::<AstIndex, ParserError>(old(self)@.len() as u32)
                &&& final(self)@ == old(self)@.push(AstNodeView { node: node@, span })
            },
            old(self)@.len() >= node_capacity() ==> {
                &&& result == Err::<AstIndex, ParserError>(
                    ParserError {
                        error: ErrorType::InternalError(InternalError::AstCapacityOverflow),
                        span,
                    },
                )
                &&& final(self)@ == old(self)@
            },
    {
        let index: usize = self.nodes.len();
        if index > 0xffff_ffff {
            return Err(
                ParserError {
                    error: ErrorType::InternalError(InternalError::AstCapacityOverflow),
                    span,
                },
            );
        }
        let ast_node = AstNode { node, span };
        proof {
            lemma_views_push(self.nodes@, ast_node);
        }
        self.nodes.push(ast_node);
        Ok(index as u32)
    }

    pub fn node(&self, index: AstIndex) -> (node: &AstNode)
        requires
            index < self@.len(),
        ensures
            node@ == self@[index as int],
    {
        &self.nodes[index as usize]
    }

    pub fn set_entry_point(&mut self, index: AstIndex)
        ensures
            final(self)@ == old(self)@,
            final(self).entry_point == index,
    {
        self.entry_point = index;
    }

    /// A point that the AST can later be reset to.
    pub fn reset_point(&self) -> (point: usize)
        ensures
            point == self@.len(),
    {
        self.nodes.len()
    }

    /// Drops the nodes that were pushed since the reset point was taken.
    pub fn reset(&mut self, point: usize)
        ensures
            final(self).entry_point == old(self).entry_point,
            final(self)@ == (if point <= old(self)@.len() {
                old(self)@.take(point as int)
            } else {
                old(self)@
            }),
    {
        self.nodes.truncate(point);
        assert(point <= old(self)@.len() ==> self@ =~= old(self)@.take(point as int));
        assert(point > old(self)@.len() ==> self@ =~= old(self)@);
    }
}

} // verus!
