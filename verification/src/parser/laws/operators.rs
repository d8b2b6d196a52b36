//! What expressions with operators and assignments are parsed to.
use vstd::prelude::*;

use crate::ast::{AssignOp, AstIndex, AstOp, NodeView, Scope};
use crate::error::{InternalError, ParserError, SyntaxError};
use crate::lexer::Token;
use crate::parser::grammar;
use crate::parser::laws::is_comparison;
use crate::parser::laws::outcomes::{
    adds, breaks_off, fails, gives, reads_none, reads_one, reads_to, refuses,
};
use crate::parser::laws::steps::{law_added_node, law_assigned_id};
use crate::parser::state::State;

verus! {

/// Each operator token has the operator of the same name in the AST.
pub proof fn law_operator_names()
    ensures
        grammar::binary_op(Token::Add) == AstOp::Add,
        grammar::binary_op(Token::Subtract) == AstOp::Subtract,
        grammar::binary_op(Token::Multiply) == AstOp::Multiply,
        grammar::binary_op(Token::Divide) == AstOp::Divide,
        grammar::binary_op(Token::Modulo) == AstOp::Modulo,
        grammar::binary_op(Token::Equal) == AstOp::Equal,
        grammar::binary_op(Token::NotEqual) == AstOp::NotEqual,
        grammar::binary_op(Token::Less) == AstOp::Less,
        grammar::binary_op(Token::LessOrEqual) == AstOp::LessOrEqual,
        grammar::binary_op(Token::Greater) == AstOp::Greater,
        grammar::binary_op(Token::GreaterOrEqual) == AstOp::GreaterOrEqual,
        grammar::binary_op(Token::And) == AstOp::And,
        grammar::binary_op(Token::Or) == AstOp::Or,
{
}

/// Whichever sides are compared, the first operator binds looser.
pub open spec fn binds_looser(a: (u8, u8), b: (u8, u8)) -> bool {
    a.0 < b.0 && a.0 < b.1 && a.1 < b.0 && a.1 < b.1
}

/// From the loosest to the tightest: `or`, `and`, equality, comparison, sums, products. Operators
/// of one kind bind equally, and no other token is an operator.
pub proof fn law_precedence_order(token: Token)
    ensures
        ({
            let or = grammar::precedence(Token::Or);
            let and = grammar::precedence(Token::And);
            let equality = grammar::precedence(Token::Equal);
            let comparison = grammar::precedence(Token::Less);
            let sum = grammar::precedence(Token::Add);
            let product = grammar::precedence(Token::Multiply);
            &&& or is Some && and is Some && equality is Some && comparison is Some && sum is Some
                && product is Some
            &&& binds_looser(or->0, and->0)
            &&& binds_looser(and->0, equality->0)
            &&& binds_looser(equality->0, comparison->0)
            &&& binds_looser(comparison->0, sum->0)
            &&& binds_looser(sum->0, product->0)
            &&& grammar::precedence(Token::NotEqual) == equality
            &&& grammar::precedence(Token::LessOrEqual) == comparison
            &&& grammar::precedence(Token::Greater) == comparison
            &&& grammar::precedence(Token::GreaterOrEqual) == comparison
            &&& grammar::precedence(Token::Subtract) == sum
            &&& grammar::precedence(Token::Divide) == product
            &&& grammar::precedence(Token::Modulo) == product
            &&& token != Token::Or && token != Token::And && token != Token::Equal && token
                != Token::NotEqual && token != Token::Less && token != Token::LessOrEqual && token
                != Token::Greater && token != Token::GreaterOrEqual && token != Token::Add && token
                != Token::Subtract && token != Token::Multiply && token != Token::Divide && token
                != Token::Modulo ==> grammar::precedence(token) is None
        }),
{
}

/// How tightly each kind of operator binds on its left and on its right. A level takes two numbers,
/// and the two between `and` and equality are free.
pub proof fn law_precedence_values(token: Token)
    ensures
        grammar::precedence(token) matches Some((left, right)) ==> {
            &&& token == Token::Or <==> left == 1 && right == 2
            &&& token == Token::And <==> left == 3 && right == 4
            &&& token == Token::Equal || token == Token::NotEqual <==> left == 8 && right == 7
            &&& token == Token::Add || token == Token::Subtract <==> left == 11 && right == 12
            &&& is_comparison(token) && left != 8 <==> left == 10 && right == 9
            &&& token == Token::Multiply || token == Token::Divide || token == Token::Modulo
                <==> left == 13 && right == 14
        },
{
}

/// Each assignment token has the operator of the same name, and no other token assigns.
pub proof fn law_assignment_names(token: Token)
    ensures
        grammar::assign_op(Token::Assign) == Some(AssignOp::Equal),
        grammar::assign_op(Token::AssignAdd) == Some(AssignOp::Add),
        grammar::assign_op(Token::AssignSubtract) == Some(AssignOp::Subtract),
        grammar::assign_op(Token::AssignMultiply) == Some(AssignOp::Multiply),
        grammar::assign_op(Token::AssignDivide) == Some(AssignOp::Divide),
        grammar::assign_op(Token::AssignModulo) == Some(AssignOp::Modulo),
        token != Token::Assign && token != Token::AssignAdd && token != Token::AssignSubtract
            && token != Token::AssignMultiply && token != Token::AssignDivide && token
            != Token::AssignModulo ==> grammar::assign_op(token) is None,
        grammar::precedence(token) is Some ==> grammar::assign_op(token) is None,
{
}

/// Whitespace or a line break ends an operator.
pub proof fn law_operator_ends(token: Token)
    ensures
        grammar::ends_operator(Some(Token::Whitespace)),
        grammar::ends_operator(Some(Token::NewLine)),
        grammar::ends_operator(Some(Token::NewLineIndented)),
        !grammar::ends_operator(None),
        token != Token::Whitespace && token != Token::NewLine && token != Token::NewLineIndented
            ==> !grammar::ends_operator(Some(token)),
{
}

/// An expression starts with a negation, an id or a term. If a range follows, it is that range.
/// Otherwise it goes on as long as it stays on its line, and what it starts with joins the
/// expressions before it.
pub proof fn law_expression_start(
    s: State,
    lhs: Seq<AstIndex>,
    min: u8,
    primary: bool,
    s1: State,
    start: AstIndex,
    e: ParserError,
)
    ensures
        ({
            let at = s.skip_blanks();
            let whole = grammar::expression_start(s, lhs, min, primary);
            let first = if at.peek() == Some(Token::Subtract) && at.peek_n(1) != Some(
                Token::Whitespace,
            ) {
                grammar::negated(at)
            } else if at.peek() == Some(Token::Id) {
                grammar::id_expression(at, primary)
            } else if at.peek() == Some(Token::Wildcard) && primary {
                grammar::id_expression(at, primary)
            } else {
                grammar::term(at, primary)
            };
            let range_follows = s1.peek() == Some(Token::Range) || s1.peek() == Some(
                Token::RangeInclusive,
            );
            &&& fails(first, e) ==> fails(whole, e)
            &&& reads_one(first, at, s1, start) ==> {
                &&& range_follows ==> whole == grammar::range(s1, Some(start))
                &&& !range_follows && s1.line_number() == s.line_number() ==> whole
                    == grammar::expression_continued(s1, lhs.push(start), min, primary)
                &&& !range_follows && s1.line_number() != s.line_number() ==> gives(
                    whole,
                    s1,
                    Some(start),
                )
            }
            &&& reads_none(first, at, s1) ==> {
                &&& range_follows ==> whole == grammar::range(s1, None)
                &&& !range_follows ==> gives(whole, s1, None)
            }
        }),
{
}

/// After an expression a primary expression may turn out to be the body of a loop, with the
/// expressions before it. An assignment takes all of them for its targets. An operator may also
/// stand at the start of a later line. Without any of these the expression is complete, and the
/// last one read is its value.
pub proof fn law_expression_continued(s: State, lhs: Seq<AstIndex>, min: u8, primary: bool)
    requires
        lhs.len() > 0,
    ensures
        ({
            let at = s.skip_blanks();
            let whole = grammar::expression_continued(s, lhs, min, primary);
            let below = at.skip_padding();
            let breaks = at.peek() == Some(Token::NewLine) || at.peek() == Some(
                Token::NewLineIndented,
            );
            let is_operator = below.peek() is Some && grammar::precedence(below.peek()->0) is Some;
            let is_loop = at.peek() == Some(Token::For) || at.peek() == Some(Token::While)
                || at.peek() == Some(Token::Until);
            &&& at.peek() is None ==> gives(whole, at, Some(lhs.last()))
            &&& breaks && is_operator ==> whole == grammar::expression_continued(
                below,
                lhs,
                min,
                primary,
            )
            &&& breaks && !is_operator ==> gives(whole, at, Some(lhs.last()))
            &&& primary && at.peek() == Some(Token::For) ==> whole == grammar::for_loop(
                at,
                Some(lhs),
            )
            &&& primary && at.peek() == Some(Token::While) ==> whole == grammar::while_loop(
                at,
                Some(lhs),
            )
            &&& primary && at.peek() == Some(Token::Until) ==> whole == grammar::until_loop(
                at,
                Some(lhs),
            )
            &&& !primary && is_loop ==> gives(whole, at, Some(lhs.last()))
            &&& at.peek() == Some(Token::Assign) ==> whole == grammar::assignment(
                at.advance(),
                lhs,
                AssignOp::Equal,
            )
            &&& at.peek() is Some && grammar::assign_op(at.peek()->0) is Some ==> whole
                == grammar::assignment(at.advance(), lhs, grammar::assign_op(at.peek()->0)->0)
            &&& at.peek() is Some && !breaks && !is_loop && grammar::assign_op(at.peek()->0) is None
                && grammar::precedence(at.peek()->0) is None ==> gives(whole, at, Some(lhs.last()))
        }),
{
}

/// There is nothing to go on from without an expression.
pub proof fn law_continued_needs_an_expression(s: State, min: u8, primary: bool)
    ensures
        breaks_off(
            grammar::expression_continued(s, Seq::empty(), min, primary),
            s,
            InternalError::MissingContinuedExpressionLhs,
        ),
{
}

/// The right-hand side of an operator is a map block, or an expression whose operators bind as
/// tightly as the operator asks for on its right. One of them has to be there.
pub proof fn law_operation(
    s: State,
    op: Token,
    right: u8,
    lhs: AstIndex,
    min: u8,
    primary: bool,
    s1: State,
    s2: State,
    rhs: AstIndex,
    e: ParserError,
)
    requires
        s.peek() is Some,
    ensures
        ({
            let at = s.advance();
            let whole = grammar::operation(s, op, right, lhs, min, primary);
            let map_block = grammar::map_block(at, at.current_indent(), None);
            let value = grammar::expression_start(s1, Seq::empty(), right, primary);
            &&& fails(map_block, e) ==> fails(whole, e)
            &&& reads_one(map_block, at, s1, rhs) ==> whole == grammar::end_of_operation(
                s1,
                op,
                lhs,
                rhs,
                min,
                primary,
            )
            &&& reads_none(map_block, at, s1) ==> {
                &&& reads_one(value, s1, s2, rhs) ==> whole == grammar::end_of_operation(
                    s2,
                    op,
                    lhs,
                    rhs,
                    min,
                    primary,
                )
                &&& reads_none(value, s1, s2) ==> refuses(
                    whole,
                    s2,
                    SyntaxError::ExpectedRhsExpression,
                )
                &&& fails(value, e) ==> fails(whole, e)
            }
        }),
{
}

/// An operation holds its operator and its operands, the left one first. It is the expression that
/// goes on from there, in the context that it was read in.
pub proof fn law_end_of_operation(
    s: State,
    op: Token,
    lhs: AstIndex,
    rhs: AstIndex,
    min: u8,
    primary: bool,
    t: State,
)
    requires
        s.nodes.len() < 0x1_0000_0000,
        t.lexer == s.lexer,
        t.constants == s.constants,
        t.frames == s.frames,
        t.nodes == s.nodes.push(
            crate::ast::AstNodeView {
                node: NodeView::BinaryOp { op: grammar::binary_op(op), lhs, rhs },
                span: s.span(),
            },
        ),
    ensures
        grammar::end_of_operation(s, op, lhs, rhs, min, primary) == grammar::expression_continued(
            t,
            seq![s.nodes.len() as u32],
            min,
            primary,
        ),
{
    law_added_node(s, NodeView::BinaryOp { op: grammar::binary_op(op), lhs, rhs }, s.span());
    assert(t =~= (State { nodes: t.nodes, ..s }));
}

/// An assignment to one target assigns it with its operator, one to several targets assigns all of
/// them. The targets are locals, in the order in which they stand. What they are assigned is parsed
/// before they are declared.
pub proof fn law_assignment(
    s: State,
    lhs: Seq<AstIndex>,
    op: AssignOp,
    s1: State,
    s2: State,
    rhs: AstIndex,
    s3: State,
    e: ParserError,
)
    requires
        lhs.len() > 0,
    ensures
        ({
            let whole = grammar::assignment(s, lhs, op);
            let taken_back = grammar::take_back_targets(s, lhs, 0, op);
            let value = grammar::primary_expressions(s1, true);
            let declared = grammar::declare_targets(s2, lhs, 0, op);
            &&& fails(taken_back, e) ==> fails(whole, e)
            &&& reads_to(taken_back, s, s1, ()) ==> {
                &&& fails(value, e) ==> fails(whole, e)
                &&& reads_to(value, s1, s2, None) ==> refuses(
                    whole,
                    s2,
                    SyntaxError::ExpectedRhsExpression,
                )
                &&& reads_to(value, s1, s2, Some(rhs)) && gives(declared, s3, ()) ==> {
                    &&& lhs.len() == 1 ==> adds(
                        whole,
                        s3,
                        NodeView::Assign {
                            target: crate::ast::AssignTarget {
                                target_index: lhs[0],
                                scope: Scope::Local,
                            },
                            op,
                            expression: rhs,
                        },
                        s3.span(),
                    )
                    &&& lhs.len() > 1 ==> adds(
                        whole,
                        s3,
                        NodeView::MultiAssign {
                            targets: grammar::local_targets(lhs),
                            expressions: rhs,
                        },
                        s3.span(),
                    )
                }
            }
        }),
{
    law_added_node(
        s3,
        NodeView::Assign { target: grammar::local_target(lhs[0]), op, expression: rhs },
        s3.span(),
    );
    law_added_node(
        s3,
        NodeView::MultiAssign { targets: grammar::local_targets(lhs), expressions: rhs },
        s3.span(),
    );
}

/// Every target stands for the expression at its place, in the scope of the function.
pub proof fn law_targets(lhs: Seq<AstIndex>, i: int)
    requires
        0 <= i < lhs.len(),
    ensures
        grammar::local_targets(lhs).len() == lhs.len(),
        grammar::local_targets(lhs)[i].target_index == lhs[i],
        grammar::local_targets(lhs)[i].scope == Scope::Local,
{
}

/// Ids and lookups can be assigned. A plain assignment takes back the read of each id and declares
/// it afterwards, and any other assignment leaves it a read.
pub proof fn law_assigned_targets(s: State, lhs: Seq<AstIndex>, n: int, op: AssignOp, s1: State)
    requires
        0 <= n < lhs.len(),
    ensures
        ({
            let node = s.nodes[lhs[n] as int].node;
            let taken_back = grammar::take_back_targets(s, lhs, n, op);
            let declared = grammar::declare_targets(s, lhs, n, op);
            &&& !(node is Id) && !(node is Lookup) ==> refuses(
                taken_back,
                s,
                SyntaxError::ExpectedAssignmentTarget,
            )
            &&& node is Lookup ==> taken_back == grammar::take_back_targets(s, lhs, n + 1, op)
            &&& !(node is Id) ==> declared == grammar::declare_targets(s, lhs, n + 1, op)
            &&& node is Id && op != AssignOp::Equal ==> {
                &&& taken_back == grammar::take_back_targets(s, lhs, n + 1, op)
                &&& declared == grammar::declare_targets(s, lhs, n + 1, op)
            }
            &&& node is Id && op == AssignOp::Equal ==> {
                &&& gives(s.take_back_id(node->Id_0), s1, ()) ==> taken_back
                    == grammar::take_back_targets(s1, lhs, n + 1, op)
                &&& s.take_back_id(node->Id_0) is Err ==> taken_back is Err
                &&& gives(s.declare_id(node->Id_0), s1, ()) ==> declared
                    == grammar::declare_targets(s1, lhs, n + 1, op)
            }
            &&& gives(grammar::take_back_targets(s, lhs, lhs.len() as int, op), s, ())
            &&& gives(grammar::declare_targets(s, lhs, lhs.len() as int, op), s, ())
        }),
{
    reveal_with_fuel(grammar::take_back_targets, 2);
    reveal_with_fuel(grammar::declare_targets, 2);
}

/// A plain assignment to a single id declares it in the frame that its value has left.
pub proof fn law_assignment_declares_after_its_value(
    s: State,
    target: AstIndex,
    id: u32,
    s1: State,
    s2: State,
    rhs: AstIndex,
)
    requires
        s.nodes[target as int].node == NodeView::Id(id),
        gives(s.take_back_id(id), s1, ()),
        reads_to(grammar::primary_expressions(s1, true), s1, s2, Some(rhs)),
        s2.nodes[target as int].node == NodeView::Id(id),
        s2.frames.len() > 0,
        s2.nodes.len() < 0x1_0000_0000,
    ensures
        grammar::assignment(s, seq![target], AssignOp::Equal) matches Ok((t, Some(i))) && {
            &&& t.frames.last().assigned.contains(id)
            &&& s2.frames.last().access_count(id) > 0 && !s2.frames.last().assigned.contains(id)
                ==> t.frames.last().non_locals.contains(id)
            &&& s2.frames.last().access_count(id) == 0 || s2.frames.last().assigned.contains(id)
                ==> t.frames.last().non_locals == s2.frames.last().non_locals
            &&& t.node(i) == NodeView::Assign {
                target: crate::ast::AssignTarget { target_index: target, scope: Scope::Local },
                op: AssignOp::Equal,
                expression: rhs,
            }
        },
{
    let lhs = seq![target];
    law_assigned_id(s, id);
    law_assigned_id(s2, id);
    let s3 = s2.declare_id(id)->Ok_0.0;
    law_assigned_targets(s, lhs, 0, AssignOp::Equal, s1);
    law_assigned_targets(s1, lhs, 0, AssignOp::Equal, s1);
    law_assigned_targets(s2, lhs, 0, AssignOp::Equal, s3);
    law_assigned_targets(s3, lhs, 0, AssignOp::Equal, s3);
    law_assignment(
        s,
        lhs,
        AssignOp::Equal,
        s1,
        s2,
        rhs,
        s3,
        ParserError {
            error: crate::error::ErrorType::SyntaxError(SyntaxError::ExpectedRhsExpression),
            span: s.span(),
        },
    );
}

} // verus!
