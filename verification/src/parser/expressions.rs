//! Lines, lists of expressions, operators and assignments.
use vstd::prelude::*;

use crate::ast::{all_below, AssignOp, AssignTarget, AstIndex, Node, Scope};
use crate::error::{InternalError, ParserError, SyntaxError};
use crate::lexer::Token;
use crate::parser::grammar;
use crate::parser::state::{no_defect, reaches, reads, yields};
use crate::parser::{operator_precedence, token_is_whitespace, Parser};

verus! {

broadcast use crate::parser::state::group_extends;

/// A copy of the expressions.
pub(super) fn to_vec(expressions: &[AstIndex]) -> (result: Vec<AstIndex>)
    ensures
        result@ == expressions@,
{
    let mut result: Vec<AstIndex> = Vec::new();
    let mut i: usize = 0;
    while i < expressions.len()
        invariant
            i <= expressions.len(),
            result@ == expressions@.take(i as int),
        decreases expressions.len() - i,
    {
        result.push(expressions[i]);
        i = i + 1;
        assert(result@ =~= expressions@.take(i as int));
    }
    assert(expressions@.take(i as int) =~= expressions@);
    result
}

/// The expressions that an inline loop has as its body.
pub open spec fn body_view(inline_body: Option<&[AstIndex]>) -> Option<Seq<AstIndex>> {
    match inline_body {
        Some(expressions) => Some(expressions@),
        None => None,
    }
}

/// An inline body has at least one expression.
pub open spec fn body_is_there(inline_body: Option<&[AstIndex]>) -> bool {
    inline_body matches Some(expressions) ==> expressions@.len() > 0
}

/// The expressions of an inline body are part of the AST.
pub open spec fn body_below(inline_body: Option<&[AstIndex]>, bound: int) -> bool {
    inline_body matches Some(expressions) ==> all_below(expressions@, bound)
}

impl<'source> Parser<'source> {
    pub(super) fn parse_line(&mut self) -> (result: Result<Option<AstIndex>, ParserError>)
        requires
            old(self)@.in_scope(),
        ensures
            yields(result, final(self)@, grammar::line(old(self)@)),
            reads(result, old(self)@, final(self)@),
            no_defect(result),
        decreases old(self)@.remaining(), 12int,
    {
        let parsed = match self.skip_whitespace_and_peek() {
            Some(Token::For) => self.parse_for_loop(None)?,
            Some(Token::Loop) => self.parse_loop_block()?,
            Some(Token::While) => self.parse_while_loop(None)?,
            Some(Token::Until) => self.parse_until_loop(None)?,
            Some(Token::Export) => self.parse_export_id()?,
            Some(Token::Debug) => self.parse_debug_expression()?,
            _ => self.parse_primary_expressions(false)?,
        };
        match parsed {
            None => Ok(None),
            Some(index) => {
                self.finish_expressions()?;
                Ok(Some(index))
            },
        }
    }

    pub(super) fn parse_primary_expressions(&mut self, allow_initial_indentation: bool) -> (result:
        Result<Option<AstIndex>, ParserError>)
        requires
            old(self)@.in_scope(),
        ensures
            yields(
                result,
                final(self)@,
                grammar::primary_expressions(old(self)@, allow_initial_indentation),
            ),
            reads(result, old(self)@, final(self)@),
            no_defect(result),
        decreases old(self)@.remaining(), 10int,
    {
        let current_indent: usize = self.current_indent();
        let mut expected_indent: Option<usize> = None;
        if allow_initial_indentation && self.skip_whitespace_and_peek() == Some(
            Token::NewLineIndented,
        ) {
            self.consume_until_next_token();
            let indent: usize = self.current_indent();
            if indent <= current_indent {
                return Ok(None);
            }
            expected_indent = Some(indent);
            if let Some(map_block) = self.parse_map_block(current_indent, expected_indent)? {
                return Ok(Some(map_block));
            }
        }
        let ghost parsed = grammar::expression_list(self@, current_indent, expected_indent);
        let first = match self.parse_primary_expression()? {
            Some(first) => first,
            None => {
                return Ok(None);
            },
        };
        let mut expressions: Vec<AstIndex> = Vec::new();
        expressions.push(first);
        assert(expressions@ =~= seq![first]);
        loop
            invariant_except_break
                parsed == grammar::more_expressions(
                    self@,
                    expressions@,
                    current_indent,
                    expected_indent,
                ),
            invariant
                old(self)@.in_scope(),
                parsed == grammar::primary_expressions(old(self)@, allow_initial_indentation),
                self@.follows(old(self)@),
                self@.remaining() < old(self)@.remaining(),
                expressions@.len() > 0,
                expressions@[0] == first,
                all_below(expressions@, self@.nodes.len() as int),
            ensures
                parsed == grammar::end_of_expressions(self@, expressions@),
            decreases self@.remaining(),
        {
            if self.skip_whitespace_and_peek() != Some(Token::Separator) {
                break;
            }
            self.consume_token();
            if self.skip_whitespace_and_peek() == Some(Token::NewLineIndented) {
                self.consume_until_next_token();
                let next_indent: usize = self.next_indent();
                if let Some(expected) = expected_indent {
                    if next_indent < expected {
                        break;
                    }
                    if next_indent > expected {
                        return Err(self.syntax_error(SyntaxError::UnexpectedIndentation));
                    }
                } else if next_indent <= current_indent {
                    break;
                } else {
                    expected_indent = Some(next_indent);
                }
            }
            assert(parsed == grammar::next_expression(
                self@,
                expressions@,
                current_indent,
                expected_indent,
            ));
            if let Some(next_expression) = self.parse_primary_expression_with_lhs(
                expressions.as_slice(),
            )? {
                match self.node(next_expression) {
                    Node::Assign { .. }
                    | Node::MultiAssign { .. }
                    | Node::For(_)
                    | Node::While { .. }
                    | Node::Until { .. } => {
                        // These nodes will have consumed the parsed expressions,
                        // so there's no further work to do.
                        // e.g.
                        //   x, y for x, y in a, b
                        //   a, b = c, d
                        //   a, b, c = x
                        return Ok(Some(next_expression));
                    },
                    _ => {},
                }
                expressions.push(next_expression);
            }
        }
        if expressions.len() == 1 {
            Ok(Some(first))
        } else {
            Ok(Some(self.push_node(Node::Tuple(expressions))?))
        }
    }

    pub(super) fn parse_primary_expression_with_lhs(&mut self, lhs: &[AstIndex]) -> (result: Result<
        Option<AstIndex>,
        ParserError,
    >)
        requires
            old(self)@.in_scope(),
            all_below(lhs@, old(self)@.nodes.len() as int),
        ensures
            yields(result, final(self)@, grammar::expression_start(old(self)@, lhs@, 0, true)),
            reads(result, old(self)@, final(self)@),
            no_defect(result),
        decreases old(self)@.remaining(), 9int,
    {
        self.parse_expression_start(Some(lhs), 0, true)
    }

    pub(super) fn parse_primary_expression(&mut self) -> (result: Result<
        Option<AstIndex>,
        ParserError,
    >)
        requires
            old(self)@.in_scope(),
        ensures
            yields(
                result,
                final(self)@,
                grammar::expression_start(old(self)@, Seq::empty(), 0, true),
            ),
            reads(result, old(self)@, final(self)@),
            no_defect(result),
        decreases old(self)@.remaining(), 9int,
    {
        self.parse_expression_start(None, 0, true)
    }

    pub(super) fn parse_non_primary_expression(&mut self) -> (result: Result<
        Option<AstIndex>,
        ParserError,
    >)
        requires
            old(self)@.in_scope(),
        ensures
            yields(
                result,
                final(self)@,
                grammar::expression_start(old(self)@, Seq::empty(), 0, false),
            ),
            reads(result, old(self)@, final(self)@),
            no_defect(result),
        decreases old(self)@.remaining(), 9int,
    {
        self.parse_expression_start(None, 0, false)
    }

    pub(super) fn parse_expression_start(
        &mut self,
        lhs: Option<&[AstIndex]>,
        min_precedence: u8,
        primary_expression: bool,
    ) -> (result: Result<Option<AstIndex>, ParserError>)
        requires
            old(self)@.in_scope(),
            body_below(lhs, old(self)@.nodes.len() as int),
        ensures
            yields(
                result,
                final(self)@,
                grammar::expression_start(
                    old(self)@,
                    (match lhs {
                        Some(lhs) => lhs@,
                        None => Seq::empty(),
                    }),
                    min_precedence,
                    primary_expression,
                ),
            ),
            reads(result, old(self)@, final(self)@),
            no_defect(result),
        decreases old(self)@.remaining(), 8int,
    {
        let start_line: u32 = self.line_number();
        let expression_start = {
            // ID expressions are broken out to allow function calls in first position
            let expression = match self.skip_whitespace_and_peek() {
                Some(Token::Subtract) if self.peek_token_n(1) != Some(
                    Token::Whitespace,
                ) => self.parse_negatable_expression()?,
                Some(Token::Id) => self.parse_id_expression(primary_expression)?,
                Some(Token::Wildcard) if primary_expression => self.parse_id_expression(
                    primary_expression,
                )?,
                _ => self.parse_term(primary_expression)?,
            };
            match self.peek_token() {
                Some(Token::Range) | Some(Token::RangeInclusive) => {
                    return self.parse_range(expression);
                },
                _ => match expression {
                    Some(expression) => expression,
                    None => {
                        return Ok(None);
                    },
                },
            }
        };
        if start_line != self.line_number() {
            return Ok(Some(expression_start));
        }
        if let Some(lhs) = lhs {
            let mut lhs_with_expression_start = to_vec(lhs);
            lhs_with_expression_start.push(expression_start);
            self.parse_expression_continued(
                lhs_with_expression_start.as_slice(),
                min_precedence,
                primary_expression,
            )
        } else {
            let lhs: [AstIndex; 1] = [expression_start];
            assert(lhs@ =~= Seq::empty().push(expression_start));
            self.parse_expression_continued(&lhs, min_precedence, primary_expression)
        }
    }

    pub(super) fn parse_expression_continued(
        &mut self,
        lhs: &[AstIndex],
        min_precedence: u8,
        primary_expression: bool,
    ) -> (result: Result<Option<AstIndex>, ParserError>)
        requires
            old(self)@.in_scope(),
            lhs@.len() > 0,
            all_below(lhs@, old(self)@.nodes.len() as int),
        ensures
            yields(
                result,
                final(self)@,
                grammar::expression_continued(
                    old(self)@,
                    lhs@,
                    min_precedence,
                    primary_expression,
                ),
            ),
            reaches(result, old(self)@, final(self)@),
            result matches Ok(index) ==> index is Some,
            no_defect(result),
        decreases old(self)@.remaining(), 8int,
    {
        if lhs.len() == 0 {
            return Err(self.internal_error(InternalError::MissingContinuedExpressionLhs));
        }
        let last_lhs = lhs[lhs.len() - 1];
        let next = match self.skip_whitespace_and_peek() {
            Some(next) => next,
            None => {
                return Ok(Some(last_lhs));
            },
        };
        match next {
            Token::NewLine | Token::NewLineIndented => {
                if let Some(maybe_operator) = self.peek_until_next_token() {
                    if operator_precedence(maybe_operator).is_some() {
                        self.consume_until_next_token();
                        return self.parse_expression_continued(
                            lhs,
                            min_precedence,
                            primary_expression,
                        );
                    }
                }
                Ok(Some(last_lhs))
            },
            Token::For if primary_expression => self.parse_for_loop(Some(lhs)),
            Token::While if primary_expression => self.parse_while_loop(Some(lhs)),
            Token::Until if primary_expression => self.parse_until_loop(Some(lhs)),
            Token::Assign => self.parse_assign_expression(lhs, AssignOp::Equal),
            Token::AssignAdd => self.parse_assign_expression(lhs, AssignOp::Add),
            Token::AssignSubtract => self.parse_assign_expression(lhs, AssignOp::Subtract),
            Token::AssignMultiply => self.parse_assign_expression(lhs, AssignOp::Multiply),
            Token::AssignDivide => self.parse_assign_expression(lhs, AssignOp::Divide),
            Token::AssignModulo => self.parse_assign_expression(lhs, AssignOp::Modulo),
            _ => {
                if let Some((left_priority, right_priority)) = operator_precedence(next) {
                    if let Some(token_after_op) = self.peek_token_n(1) {
                        if token_is_whitespace(token_after_op) && left_priority >= min_precedence {
                            return self.parse_operation(
                                next,
                                right_priority,
                                last_lhs,
                                min_precedence,
                                primary_expression,
                            );
                        }
                    }
                }
                Ok(Some(last_lhs))
            },
        }
    }

    /// Parses a binary operator that comes next, its right-hand side, and what follows.
    fn parse_operation(
        &mut self,
        op: Token,
        right_precedence: u8,
        lhs: AstIndex,
        min_precedence: u8,
        primary_expression: bool,
    ) -> (result: Result<Option<AstIndex>, ParserError>)
        requires
            old(self)@.in_scope(),
            old(self)@.peek() == Some(op),
            grammar::precedence(op) is Some,
            lhs < old(self)@.nodes.len(),
        ensures
            yields(
                result,
                final(self)@,
                grammar::operation(
                    old(self)@,
                    op,
                    right_precedence,
                    lhs,
                    min_precedence,
                    primary_expression,
                ),
            ),
            reads(result, old(self)@, final(self)@),
            result matches Ok(index) ==> index is Some,
            no_defect(result),
        decreases old(self)@.remaining(), 7int,
    {
        self.consume_token();
        let current_indent: usize = self.current_indent();
        let rhs = if let Some(map_block) = self.parse_map_block(current_indent, None)? {
            map_block
        } else if let Some(rhs_expression) = self.parse_expression_start(
            None,
            right_precedence,
            primary_expression,
        )? {
            rhs_expression
        } else {
            return Err(self.syntax_error(SyntaxError::ExpectedRhsExpression));
        };
        assert(grammar::operation(
            old(self)@,
            op,
            right_precedence,
            lhs,
            min_precedence,
            primary_expression,
        ) == grammar::end_of_operation(self@, op, lhs, rhs, min_precedence, primary_expression));
        let op_node = self.push_ast_op(op, lhs, rhs)?;
        let continued: [AstIndex; 1] = [op_node];
        assert(continued@ =~= seq![op_node]);
        self.parse_expression_continued(&continued, min_precedence, primary_expression)
    }

    fn parse_assign_expression(&mut self, lhs: &[AstIndex], assign_op: AssignOp) -> (result: Result<
        Option<AstIndex>,
        ParserError,
    >)
        requires
            old(self)@.in_scope(),
            old(self)@.peek() is Some,
            lhs@.len() > 0,
            all_below(lhs@, old(self)@.nodes.len() as int),
        ensures
            yields(
                result,
                final(self)@,
                grammar::assignment(old(self)@.advance(), lhs@, assign_op),
            ),
            reads(result, old(self)@, final(self)@),
            result matches Ok(index) ==> index is Some,
            no_defect(result),
        decreases old(self)@.remaining(), 7int,
    {
        self.consume_token();
        let ghost start = self@;
        let mut targets: Vec<AssignTarget> = Vec::new();
        let mut i: usize = 0;
        while i < lhs.len()
            invariant
                old(self)@.in_scope(),
                i <= lhs.len(),
                start == old(self)@.advance(),
                start.remaining() < old(self)@.remaining(),
                start.nodes == old(self)@.nodes,
                self@.differs_in_frames(start),
                all_below(lhs@, self@.nodes.len() as int),
                targets@ == grammar::local_targets(lhs@).take(i as int),
                grammar::take_back_targets(start, lhs@, 0, assign_op) == grammar::take_back_targets(
                    self@,
                    lhs@,
                    i as int,
                    assign_op,
                ),
            decreases lhs.len() - i,
        {
            let lhs_expression = lhs[i];
            match self.node(lhs_expression) {
                Node::Id(id_index) => {
                    if let AssignOp::Equal = assign_op {
                        let id_index = *id_index;
                        proof {
                            super::lemma_node_in_order(self@, lhs_expression);
                        }
                        self.take_back_id(id_index)?;
                    }
                },
                Node::Lookup(_) => {},
                _ => {
                    return Err(self.syntax_error(SyntaxError::ExpectedAssignmentTarget));
                },
            }
            targets.push(AssignTarget { target_index: lhs_expression, scope: Scope::Local });
            i = i + 1;
            assert(targets@ =~= grammar::local_targets(lhs@).take(i as int));
        }
        assert(targets@ =~= grammar::local_targets(lhs@));
        if targets.len() == 0 {
            return Err(self.internal_error(InternalError::MissingAssignmentTarget));
        }
        if let Some(rhs) = self.parse_primary_expressions(true)? {
            self.declare_targets(lhs, assign_op)?;
            let node = if targets.len() == 1 {
                Node::Assign { target: targets[0], op: assign_op, expression: rhs }
            } else {
                Node::MultiAssign { targets, expressions: rhs }
            };
            Ok(Some(self.push_node(node)?))
        } else {
            Err(self.syntax_error(SyntaxError::ExpectedRhsExpression))
        }
    }

    /// Declares the ids among the targets of a plain assignment, once its value has been parsed.
    fn declare_targets(&mut self, lhs: &[AstIndex], assign_op: AssignOp) -> (result: Result<
        (),
        ParserError,
    >)
        requires
            old(self)@.in_scope(),
            all_below(lhs@, old(self)@.nodes.len() as int),
        ensures
            yields(
                result,
                final(self)@,
                grammar::declare_targets(old(self)@, lhs@, 0, assign_op),
            ),
            result is Ok ==> final(self)@.differs_in_frames(old(self)@),
            no_defect(result),
    {
        let mut i: usize = 0;
        while i < lhs.len()
            invariant
                old(self)@.in_scope(),
                i <= lhs.len(),
                self@.differs_in_frames(old(self)@),
                all_below(lhs@, self@.nodes.len() as int),
                grammar::declare_targets(old(self)@, lhs@, 0, assign_op)
                    == grammar::declare_targets(self@, lhs@, i as int, assign_op),
            decreases lhs.len() - i,
        {
            let lhs_expression = lhs[i];
            if let Node::Id(id_index) = self.node(lhs_expression) {
                if let AssignOp::Equal = assign_op {
                    let id_index = *id_index;
                    proof {
                        super::lemma_node_in_order(self@, lhs_expression);
                    }
                    self.declare_id(id_index)?;
                }
            }
            i = i + 1;
        }
        Ok(())
    }

    fn parse_export_id(&mut self) -> (result: Result<Option<AstIndex>, ParserError>)
        requires
            old(self)@.in_scope(),
        ensures
            yields(result, final(self)@, grammar::export_id(old(self)@)),
            reads(result, old(self)@, final(self)@),
            no_defect(result),
        decreases old(self)@.remaining(), 1int,
    {
        if self.skip_whitespace_and_peek() != Some(Token::Export) {
            return Ok(None);
        }
        self.consume_token();
        let constant_index = match self.parse_id(false) {
            Some(constant_index) => constant_index,
            None => {
                return Err(self.syntax_error(SyntaxError::ExpectedExportExpression));
            },
        };
        let export_id = self.push_node(Node::Id(constant_index))?;
        match self.skip_whitespace_and_peek() {
            Some(Token::Assign) => {
                self.consume_token();
                if let Some(rhs) = self.parse_primary_expressions(true)? {
                    let node = Node::Assign {
                        target: AssignTarget { target_index: export_id, scope: Scope::Global },
                        op: AssignOp::Equal,
                        expression: rhs,
                    };
                    Ok(Some(self.push_node(node)?))
                } else {
                    Err(self.syntax_error(SyntaxError::ExpectedRhsExpression))
                }
            },
            Some(Token::NewLine) | Some(Token::NewLineIndented) => Ok(Some(export_id)),
            _ => Err(self.syntax_error(SyntaxError::UnexpectedTokenAfterExportId)),
        }
    }

    fn parse_debug_expression(&mut self) -> (result: Result<Option<AstIndex>, ParserError>)
        requires
            old(self)@.in_scope(),
        ensures
            yields(result, final(self)@, grammar::debug_expression(old(self)@)),
            reads(result, old(self)@, final(self)@),
            no_defect(result),
        decreases old(self)@.remaining(), 1int,
    {
        if self.peek_token() != Some(Token::Debug) {
            return Ok(None);
        }
        self.consume_token();
        let start_span = self.span();
        self.skip_whitespace_and_peek();
        let ghost start = self@;
        let expression_source_start: usize = self.position();
        let expression = match self.parse_primary_expressions(true)? {
            Some(expression) => expression,
            None => {
                return Err(self.syntax_error(SyntaxError::ExpectedExpression));
            },
        };
        proof {
            super::lemma_position_follows(start, self@);
        }
        let expression_source = self.text_since(expression_source_start);
        let expression_string = self.add_string(expression_source.as_str());
        Ok(
            Some(
                self.push_node_with_start_span(
                    Node::Debug { expression_string, expression },
                    start_span,
                )?,
            ),
        )
    }
}

} // verus!
