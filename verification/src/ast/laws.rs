//! What the view of each node holds.
use vstd::prelude::*;

use crate::ast::{
    node_capacity, nodes_in_order, views, Ast, AstNodeView, LookupNode, LookupNodeView,
    MatchArm, Node, NodeView,
};

verus! {

/// The views of elements are the view of each of them, in their order.
pub proof fn law_views<T: View>(s: Seq<T>, i: int)
    requires
        0 <= i < s.len(),
    ensures
        views(s).len() == s.len(),
        views(s)[i] == s[i]@,
{
}

/// The view of an AST has the span and the view of each of its nodes.
pub proof fn law_ast_view(ast: Ast, i: int)
    requires
        0 <= i < ast.nodes@.len(),
    ensures
        ast@.len() == ast.nodes@.len(),
        ast@[i].node == ast.nodes@[i].node@,
        ast@[i].span == ast.nodes@[i].span,
{
}

/// The view of a lookup step is of the same kind, with the same index.
pub proof fn law_lookup_node_view(node: LookupNode)
    ensures
        match (node, node@) {
            (LookupNode::Root(a), LookupNodeView::Root(b)) => a == b,
            (LookupNode::Id(a), LookupNodeView::Id(b)) => a == b,
            (LookupNode::Index(a), LookupNodeView::Index(b)) => a == b,
            (LookupNode::Call(a), LookupNodeView::Call(b)) => a@ == b,
            _ => false,
        },
{
}

/// The view of a match arm has its patterns, its condition and its expression.
pub proof fn law_match_arm_view(arm: MatchArm)
    ensures
        arm@.patterns == arm.patterns@,
        arm@.condition == arm.condition,
        arm@.expression == arm.expression,
{
}

/// The view of a literal, an id, a list or a range is of the same kind, with the same parts.
pub proof fn law_value_views(node: Node)
    ensures
        match node {
            Node::Empty => node@ is Empty,
            Node::Wildcard => node@ is Wildcard,
            Node::BoolTrue => node@ is BoolTrue,
            Node::BoolFalse => node@ is BoolFalse,
            Node::Number0 => node@ is Number0,
            Node::Number1 => node@ is Number1,
            Node::RangeFull => node@ is RangeFull,
            Node::Id(a) => node@ matches NodeView::Id(b) && a == b,
            Node::Number(a) => node@ matches NodeView::Number(b) && a == b,
            Node::Str(a) => node@ matches NodeView::Str(b) && a == b,
            Node::Num2(a) => node@ matches NodeView::Num2(b) && a@ == b,
            Node::Num4(a) => node@ matches NodeView::Num4(b) && a@ == b,
            Node::List(a) => node@ matches NodeView::List(b) && a@ == b,
            Node::Tuple(a) => node@ matches NodeView::Tuple(b) && a@ == b,
            Node::MapEntries(a) => node@ matches NodeView::MapEntries(b) && a@ == b,
            Node::Lookup(a) => node@ matches NodeView::Lookup(b) && b == views(a@),
            Node::Range { start: a, end: b, inclusive: c } => node@ matches NodeView::Range {
                start,
                end,
                inclusive,
            } && start == a && end == b && inclusive == c,
            Node::RangeFrom { start: a } => node@ matches NodeView::RangeFrom { start } && start
                == a,
            Node::RangeTo { end: a, inclusive: b } => node@ matches NodeView::RangeTo {
                end,
                inclusive,
            } && end == a && inclusive == b,
            _ => true,
        },
{
}

/// The view of an operation, an assignment, a call, a block or an import is of the same kind, with
/// the same parts.
pub proof fn law_operation_views(node: Node)
    ensures
        match node {
            Node::MainBlock { body: a, local_count: b } => node@ matches NodeView::MainBlock {
                body,
                local_count,
            } && body == a@ && local_count == b,
            Node::Block(a) => node@ matches NodeView::Block(b) && a@ == b,
            Node::CopyExpression(a) => node@ matches NodeView::CopyExpression(b) && a == b,
            Node::Negate(a) => node@ matches NodeView::Negate(b) && a == b,
            Node::Type(a) => node@ matches NodeView::Type(b) && a == b,
            Node::Yield(a) => node@ matches NodeView::Yield(b) && a == b,
            Node::ReturnExpression(a) => node@ matches NodeView::ReturnExpression(b) && a == b,
            Node::Return => node@ is Return,
            Node::Break => node@ is Break,
            Node::Continue => node@ is Continue,
            Node::Call { function: a, args: b } => node@ matches NodeView::Call { function, args }
                && function == a && args == b@,
            Node::Import { from: a, items: b } => node@ matches NodeView::Import { from, items }
                && from == a@ && items.len() == b@.len() && forall|i: int|
                0 <= i < items.len() ==> #[trigger] items[i] == b@[i]@,
            Node::Assign { target: a, op: b, expression: c } => node@ matches NodeView::Assign {
                target,
                op,
                expression,
            } && target == a && op == b && expression == c,
            Node::MultiAssign { targets: a, expressions: b } => node@ matches NodeView::MultiAssign {
                targets,
                expressions,
            } && targets == a@ && expressions == b,
            Node::BinaryOp { op: a, lhs: b, rhs: c } => node@ matches NodeView::BinaryOp {
                op,
                lhs,
                rhs,
            } && op == a && lhs == b && rhs == c,
            Node::Debug { expression_string: a, expression: b } => node@ matches NodeView::Debug {
                expression_string,
                expression,
            } && expression_string == a && expression == b,
            _ => true,
        },
{
}

/// The view of a function, a conditional or a loop is of the same kind, with the same parts. The
/// ids that a function captures have no order in it.
pub proof fn law_control_views(node: Node)
    ensures
        match node {
            Node::Function(f) => node@ matches NodeView::Function {
                args,
                local_count,
                accessed_non_locals,
                body,
                is_generator,
            } && {
                &&& args == f.args@
                &&& local_count == f.local_count
                &&& accessed_non_locals == f.accessed_non_locals@.to_multiset()
                &&& body == f.body
                &&& is_generator == f.is_generator
            },
            Node::If(f) => node@ matches NodeView::If {
                condition,
                then_node,
                else_if_blocks,
                else_node,
            } && {
                &&& condition == f.condition
                &&& then_node == f.then_node
                &&& else_if_blocks == f.else_if_blocks@
                &&& else_node == f.else_node
            },
            Node::Match { expression: a, arms: b } => node@ matches NodeView::Match {
                expression,
                arms,
            } && expression == a && arms == views(b@),
            Node::For(f) => node@ matches NodeView::For { args, ranges, condition, body } && {
                &&& args == f.args@
                &&& ranges == f.ranges@
                &&& condition == f.condition
                &&& body == f.body
            },
            Node::Loop { body: a } => node@ matches NodeView::Loop { body } && body == a,
            Node::While { condition: a, body: b } => node@ matches NodeView::While {
                condition,
                body,
            } && condition == a && body == b,
            Node::Until { condition: a, body: b } => node@ matches NodeView::Until {
                condition,
                body,
            } && condition == a && body == b,
            Node::Try(a) => node@ matches NodeView::Try(b) && a == b,
            _ => true,
        },
{
}

/// A node that is in order refers to no later node: an operation comes after its operands, a loop
/// after its parts, and an id names a constant of the pool.
pub proof fn law_nodes_in_order(nodes: Seq<AstNodeView>, constants: int, i: int, j: int)
    requires
        nodes_in_order(nodes, constants),
        0 <= i < nodes.len(),
    ensures
        match nodes[i].node {
            NodeView::Id(c) => c < constants,
            NodeView::Number(c) => c < constants,
            NodeView::Str(c) => c < constants,
            NodeView::BinaryOp { lhs, rhs, .. } => lhs < i && rhs < i,
            NodeView::Negate(e) => e < i,
            NodeView::CopyExpression(e) => e < i,
            NodeView::ReturnExpression(e) => e < i,
            NodeView::Yield(e) => e < i,
            NodeView::Type(e) => e < i,
            NodeView::Debug { expression_string, expression } => expression_string < constants
                && expression < i,
            NodeView::Range { start, end, .. } => start < i && end < i,
            NodeView::RangeFrom { start } => start < i,
            NodeView::RangeTo { end, .. } => end < i,
            NodeView::Assign { target, expression, .. } => target.target_index < i && expression
                < i,
            NodeView::Function { body, .. } => body < i,
            NodeView::For { body, condition, .. } => {
                &&& body < i
                &&& condition matches Some(c) ==> c < i
            },
            NodeView::Loop { body } => body < i,
            NodeView::While { condition, body } => condition < i && body < i,
            NodeView::Until { condition, body } => condition < i && body < i,
            NodeView::If { condition, then_node, else_node, .. } => {
                &&& condition < i
                &&& then_node < i
                &&& else_node matches Some(e) ==> e < i
            },
            _ => true,
        },
        match nodes[i].node {
            NodeView::List(e) => 0 <= j < e.len() ==> e[j] < i,
            NodeView::Tuple(e) => 0 <= j < e.len() ==> e[j] < i,
            NodeView::Num2(e) => 0 <= j < e.len() ==> e[j] < i,
            NodeView::Num4(e) => 0 <= j < e.len() ==> e[j] < i,
            NodeView::Block(e) => 0 <= j < e.len() ==> e[j] < i,
            NodeView::MainBlock { body, .. } => 0 <= j < body.len() ==> body[j] < i,
            NodeView::Call { function, args } => function < i && (0 <= j < args.len() ==> args[j]
                < i),
            NodeView::For { args, ranges, .. } => {
                &&& 0 <= j < args.len() ==> args[j] < constants
                &&& 0 <= j < ranges.len() ==> ranges[j] < i
            },
            NodeView::Function { args, .. } => 0 <= j < args.len() ==> args[j] < constants,
            NodeView::If { else_if_blocks, .. } => 0 <= j < else_if_blocks.len()
                ==> else_if_blocks[j].0 < i && else_if_blocks[j].1 < i,
            NodeView::MultiAssign { targets, expressions } => expressions < i && (0 <= j
                < targets.len() ==> targets[j].target_index < i),
            NodeView::Match { expression, arms } => expression < i && (0 <= j < arms.len()
                ==> arms[j].expression < i),
            _ => true,
        },
{
    reveal(nodes_in_order);
    assert(nodes[i].node.refers_below(i, constants));
}

/// Indices can tell as many nodes apart as there are values of their type.
pub proof fn law_node_capacity(count: int)
    ensures
        0 <= count < node_capacity() <==> 0 <= count <= u32::MAX,
{
}

} // verus!
