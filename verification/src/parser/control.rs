//! Loops, conditionals and blocks.
use vstd::prelude::*;

use crate::ast::{
    all_below, lemma_views_push, views, AstFor, AstIf, AstIndex, AstTry,
    ConstantIndex, MatchArm, MatchArmView, Node, NodeView,
};
use crate::error::{InternalError, ParserError, SyntaxError};
use crate::lexer::Token;
use crate::parser::expressions::{body_below, body_is_there, body_view, to_vec};
use crate::parser::grammar;
use crate::parser::state::{
    any, no_defect, reaches, reads, syntax_error, yields, yields_view, Parsed, State,
};
use crate::parser::Parser;

verus! {

broadcast use crate::parser::state::group_extends;

/// The conditions and blocks are nodes of the AST.
spec fn blocks_below(blocks: Seq<(AstIndex, AstIndex)>, s: State) -> bool {
    forall|i: int|
        0 <= i < blocks.len() ==> {
            &&& (#[trigger] blocks[i]).0 < s.nodes.len()
            &&& blocks[i].1 < s.nodes.len()
        }
}

/// What follows the first block of an if: the blocks of its `else if`s and of its `else`.
spec fn else_parts(s: State, current_indent: usize) -> Parsed<
    (Seq<(AstIndex, AstIndex)>, Option<AstIndex>),
> {
    match any(s, grammar::else_if_blocks(s, current_indent, Seq::empty())) {
        Err(e) => Err(e),
        Ok((s1, blocks)) => match grammar::else_block(s1, current_indent) {
            Err(e) => Err(e),
            Ok((s2, else_node)) => Ok((s2, (blocks, else_node))),
        },
    }
}

proof fn lemma_if_block(s: State, current_indent: usize, condition: AstIndex)
    ensures
        grammar::if_block(s, current_indent, condition) == (match any(
            s,
            grammar::indented_map_or_block(s, current_indent),
        ) {
            Err(e) => Err(e),
            Ok((s1, None)) => syntax_error(s1, SyntaxError::ExpectedThenKeywordOrBlock),
            Ok((s1, Some(then_node))) => match else_parts(s1, current_indent) {
                Err(e) => Err(e),
                Ok((s2, (else_if_blocks, else_node))) => s2.push_some(
                    NodeView::If { condition, then_node, else_if_blocks, else_node },
                ),
            },
        }),
{
}

/// The arms refer to nodes of the AST.
spec fn arms_below(arms: Seq<MatchArmView>, s: State) -> bool {
    forall|i: int|
        0 <= i < arms.len() ==> (#[trigger] arms[i]).refers_below(s.nodes.len() as int)
}

impl<'source> Parser<'source> {
    pub(super) fn parse_for_loop(&mut self, inline_body: Option<&[AstIndex]>) -> (result: Result<
        Option<AstIndex>,
        ParserError,
    >)
        requires
            old(self)@.in_scope(),
            body_is_there(inline_body),
            body_below(inline_body, old(self)@.nodes.len() as int),
        ensures
            yields(
                result,
                final(self)@,
                grammar::for_loop(old(self)@, body_view(inline_body)),
            ),
            reads(result, old(self)@, final(self)@),
            old(self)@.skip_blanks().peek() == Some(Token::For) ==> (result matches Ok(index)
                ==> index is Some),
            no_defect(result),
        decreases old(self)@.remaining(), 1int,
    {
        if self.skip_whitespace_and_peek() != Some(Token::For) {
            return Ok(None);
        }
        let current_indent: usize = self.current_indent();
        self.consume_token();
        let args = self.parse_for_args()?;
        if args.len() == 0 {
            return Err(self.syntax_error(SyntaxError::ExpectedForArgs));
        }
        let ranges = self.parse_for_ranges()?;
        if ranges.len() == 0 {
            return Err(self.syntax_error(SyntaxError::ExpectedForRanges));
        }
        let condition = self.parse_condition(SyntaxError::ExpectedForCondition)?;
        let body = self.parse_loop_body(
            inline_body,
            current_indent,
            SyntaxError::ExpectedForBody,
        )?;
        Ok(Some(self.push_node(Node::For(AstFor { args, ranges, condition, body }))?))
    }

    /// Parses the ids of a for loop, up to `in`.
    fn parse_for_args(&mut self) -> (result: Result<Vec<ConstantIndex>, ParserError>)
        requires
            old(self)@.in_scope(),
        ensures
            yields_view(result, final(self)@, grammar::for_args(old(self)@, Seq::empty())),
            result matches Ok(args) ==> {
                &&& final(self)@.follows(old(self)@)
                &&& all_below(args@, final(self)@.constants.len() as int)
            },
            no_defect(result),
    {
        let mut args: Vec<ConstantIndex> = Vec::new();
        loop
            invariant
                old(self)@.in_scope(),
                self@.follows(old(self)@),
                all_below(args@, self@.constants.len() as int),
                grammar::for_args(old(self)@, Seq::empty()) == grammar::for_args(self@, args@),
            decreases self@.remaining(),
        {
            let constant_index = match self.parse_id(true) {
                Some(constant_index) => constant_index,
                None => {
                    return Ok(args);
                },
            };
            args.push(constant_index);
            self.assign_id(constant_index)?;
            match self.skip_whitespace_and_peek() {
                Some(Token::Separator) => {
                    self.consume_token();
                },
                Some(Token::In) => {
                    self.consume_token();
                    return Ok(args);
                },
                _ => {
                    return Err(self.syntax_error(SyntaxError::ExpectedForInKeyword));
                },
            }
        }
    }

    fn parse_for_ranges(&mut self) -> (result: Result<Vec<AstIndex>, ParserError>)
        requires
            old(self)@.in_scope(),
        ensures
            yields_view(result, final(self)@, grammar::for_ranges(old(self)@, Seq::empty())),
            result matches Ok(ranges) ==> {
                &&& final(self)@.follows(old(self)@)
                &&& all_below(ranges@, final(self)@.nodes.len() as int)
            },
            no_defect(result),
        decreases old(self)@.remaining(), 10int,
    {
        let mut ranges: Vec<AstIndex> = Vec::new();
        loop
            invariant
                old(self)@.in_scope(),
                self@.follows(old(self)@),
                all_below(ranges@, self@.nodes.len() as int),
                grammar::for_ranges(old(self)@, Seq::empty()) == grammar::for_ranges(
                    self@,
                    ranges@,
                ),
            decreases self@.remaining(),
        {
            let range = match self.parse_primary_expression()? {
                Some(range) => range,
                None => {
                    return Ok(ranges);
                },
            };
            ranges.push(range);
            if self.skip_whitespace_and_peek() != Some(Token::Separator) {
                return Ok(ranges);
            }
            self.consume_token();
        }
    }

    /// Parses `if` and a condition, where there is one.
    fn parse_condition(&mut self, missing: SyntaxError) -> (result: Result<
        Option<AstIndex>,
        ParserError,
    >)
        requires
            old(self)@.in_scope(),
        ensures
            yields(result, final(self)@, grammar::condition(old(self)@, missing)),
            reads(result, old(self)@, final(self)@),
            no_defect(result),
        decreases old(self)@.remaining(), 1int,
    {
        if self.skip_whitespace_and_peek() != Some(Token::If) {
            return Ok(None);
        }
        self.consume_token();
        if let Some(condition) = self.parse_primary_expression()? {
            Ok(Some(condition))
        } else {
            Err(self.syntax_error(missing))
        }
    }

    /// Parses the body of a loop, unless the expressions before it are its body.
    fn parse_loop_body(
        &mut self,
        inline_body: Option<&[AstIndex]>,
        current_indent: usize,
        missing: SyntaxError,
    ) -> (result: Result<AstIndex, ParserError>)
        requires
            old(self)@.in_scope(),
            body_is_there(inline_body),
            body_below(inline_body, old(self)@.nodes.len() as int),
        ensures
            yields(
                result,
                final(self)@,
                grammar::loop_body(old(self)@, body_view(inline_body), current_indent, missing),
            ),
            result matches Ok(body) ==> {
                &&& final(self)@.follows(old(self)@)
                &&& body < final(self)@.nodes.len()
            },
            no_defect(result),
        decreases old(self)@.remaining(), 17int,
    {
        if let Some(expressions) = inline_body {
            if expressions.len() == 0 {
                Err(self.internal_error(InternalError::ForParseFailure))
            } else if expressions.len() == 1 {
                Ok(expressions[0])
            } else {
                let tuple = to_vec(expressions);
                self.push_node(Node::Tuple(tuple))
            }
        } else if let Some(body) = self.parse_indented_block(current_indent, None)? {
            Ok(body)
        } else {
            Err(self.syntax_error(missing))
        }
    }

    pub(super) fn parse_loop_block(&mut self) -> (result: Result<Option<AstIndex>, ParserError>)
        requires
            old(self)@.in_scope(),
        ensures
            yields(result, final(self)@, grammar::loop_block(old(self)@)),
            reads(result, old(self)@, final(self)@),
            no_defect(result),
        decreases old(self)@.remaining(), 1int,
    {
        if self.skip_whitespace_and_peek() != Some(Token::Loop) {
            return Ok(None);
        }
        let current_indent: usize = self.current_indent();
        self.consume_token();
        let body = self.parse_loop_body(None, current_indent, SyntaxError::ExpectedLoopBody)?;
        Ok(Some(self.push_node(Node::Loop { body })?))
    }

    pub(super) fn parse_while_loop(&mut self, inline_body: Option<&[AstIndex]>) -> (result: Result<
        Option<AstIndex>,
        ParserError,
    >)
        requires
            old(self)@.in_scope(),
            body_is_there(inline_body),
            body_below(inline_body, old(self)@.nodes.len() as int),
        ensures
            yields(
                result,
                final(self)@,
                grammar::while_loop(old(self)@, body_view(inline_body)),
            ),
            reads(result, old(self)@, final(self)@),
            old(self)@.skip_blanks().peek() == Some(Token::While) ==> (result matches Ok(index)
                ==> index is Some),
            no_defect(result),
        decreases old(self)@.remaining(), 1int,
    {
        if self.skip_whitespace_and_peek() != Some(Token::While) {
            return Ok(None);
        }
        let current_indent: usize = self.current_indent();
        self.consume_token();
        let condition = match self.parse_primary_expression()? {
            Some(condition) => condition,
            None => {
                return Err(self.syntax_error(SyntaxError::ExpectedWhileCondition));
            },
        };
        let body = self.parse_loop_body(
            inline_body,
            current_indent,
            SyntaxError::ExpectedWhileBody,
        )?;
        Ok(Some(self.push_node(Node::While { condition, body })?))
    }

    pub(super) fn parse_until_loop(&mut self, inline_body: Option<&[AstIndex]>) -> (result: Result<
        Option<AstIndex>,
        ParserError,
    >)
        requires
            old(self)@.in_scope(),
            body_is_there(inline_body),
            body_below(inline_body, old(self)@.nodes.len() as int),
        ensures
            yields(
                result,
                final(self)@,
                grammar::until_loop(old(self)@, body_view(inline_body)),
            ),
            reads(result, old(self)@, final(self)@),
            old(self)@.skip_blanks().peek() == Some(Token::Until) ==> (result matches Ok(index)
                ==> index is Some),
            no_defect(result),
        decreases old(self)@.remaining(), 1int,
    {
        if self.skip_whitespace_and_peek() != Some(Token::Until) {
            return Ok(None);
        }
        let current_indent: usize = self.current_indent();
        self.consume_token();
        let condition = match self.parse_primary_expression()? {
            Some(condition) => condition,
            None => {
                return Err(self.syntax_error(SyntaxError::ExpectedUntilCondition));
            },
        };
        let body = self.parse_loop_body(
            inline_body,
            current_indent,
            SyntaxError::ExpectedUntilBody,
        )?;
        Ok(Some(self.push_node(Node::Until { condition, body })?))
    }

    pub(super) fn parse_if_expression(&mut self) -> (result: Result<Option<AstIndex>, ParserError>)
        requires
            old(self)@.in_scope(),
        ensures
            yields(result, final(self)@, grammar::if_expression(old(self)@)),
            reads(result, old(self)@, final(self)@),
            no_defect(result),
        decreases old(self)@.remaining(), 1int,
    {
        if self.peek_token() != Some(Token::If) {
            return Ok(None);
        }
        let current_indent: usize = self.current_indent();
        self.consume_token();
        let condition = match self.parse_primary_expression()? {
            Some(condition) => condition,
            None => {
                return Err(self.syntax_error(SyntaxError::ExpectedIfCondition));
            },
        };
        if self.skip_whitespace_and_peek() == Some(Token::Then) {
            self.consume_token();
            self.parse_inline_if(condition)
        } else {
            self.parse_if_blocks(current_indent, condition)
        }
    }

    /// Parses the branches of an inline if, after `then`.
    fn parse_inline_if(&mut self, condition: AstIndex) -> (result: Result<
        Option<AstIndex>,
        ParserError,
    >)
        requires
            old(self)@.in_scope(),
            condition < old(self)@.nodes.len(),
        ensures
            yields(result, final(self)@, grammar::inline_if(old(self)@, condition)),
            reads(result, old(self)@, final(self)@),
            no_defect(result),
        decreases old(self)@.remaining(), 11int,
    {
        let then_node = match self.parse_primary_expressions(false)? {
            Some(then_node) => then_node,
            None => {
                return Err(self.syntax_error(SyntaxError::ExpectedThenExpression));
            },
        };
        let else_node = if self.skip_whitespace_and_peek() == Some(Token::Else) {
            self.consume_token();
            match self.parse_primary_expressions(false)? {
                Some(else_node) => Some(else_node),
                None => {
                    return Err(self.syntax_error(SyntaxError::ExpectedElseExpression));
                },
            }
        } else {
            None
        };
        let else_if_blocks: Vec<(AstIndex, AstIndex)> = Vec::new();
        Ok(
            Some(
                self.push_node(
                    Node::If(AstIf { condition, then_node, else_if_blocks, else_node }),
                )?,
            ),
        )
    }

    /// Parses the blocks of an if, after its condition.
    fn parse_if_blocks(&mut self, current_indent: usize, condition: AstIndex) -> (result: Result<
        Option<AstIndex>,
        ParserError,
    >)
        requires
            old(self)@.in_scope(),
            condition < old(self)@.nodes.len(),
        ensures
            yields(result, final(self)@, grammar::if_block(old(self)@, current_indent, condition)),
            reaches(result, old(self)@, final(self)@),
            no_defect(result),
        decreases old(self)@.remaining(), 17int,
    {
        proof {
            lemma_if_block(old(self)@, current_indent, condition);
        }
        let then_node = match self.parse_indented_map_or_block(current_indent)? {
            Some(then_node) => then_node,
            None => {
                return Err(self.syntax_error(SyntaxError::ExpectedThenKeywordOrBlock));
            },
        };
        let (else_if_blocks, else_node) = self.parse_else_parts(current_indent)?;
        Ok(
            Some(
                self.push_node(
                    Node::If(AstIf { condition, then_node, else_if_blocks, else_node }),
                )?,
            ),
        )
    }

    /// Parses what follows the first block of an if.
    fn parse_else_parts(&mut self, current_indent: usize) -> (result: Result<
        (Vec<(AstIndex, AstIndex)>, Option<AstIndex>),
        ParserError,
    >)
        requires
            old(self)@.in_scope(),
        ensures
            match result {
                Ok((blocks, else_node)) => {
                    &&& else_parts(old(self)@, current_indent) == Ok::<
                        (State, (Seq<(AstIndex, AstIndex)>, Option<AstIndex>)),
                        ParserError,
                    >((final(self)@, (blocks@, else_node)))
                    &&& final(self)@.follows(old(self)@)
                    &&& blocks_below(blocks@, final(self)@)
                    &&& else_node matches Some(i) ==> i < final(self)@.nodes.len()
                },
                Err(e) => else_parts(old(self)@, current_indent) == Err::<
                    (State, (Seq<(AstIndex, AstIndex)>, Option<AstIndex>)),
                    ParserError,
                >(e),
            },
            no_defect(result),
        decreases old(self)@.remaining(), 2int,
    {
        let blocks = self.parse_else_if_blocks(current_indent)?;
        let else_node = self.parse_else_block(current_indent)?;
        Ok((blocks, else_node))
    }

    fn parse_else_if_blocks(&mut self, current_indent: usize) -> (result: Result<
        Vec<(AstIndex, AstIndex)>,
        ParserError,
    >)
        requires
            old(self)@.in_scope(),
        ensures
            yields_view(
                result,
                final(self)@,
                grammar::else_if_blocks(old(self)@, current_indent, Seq::empty()),
            ),
            result matches Ok(blocks) ==> {
                &&& final(self)@.follows(old(self)@)
                &&& blocks_below(blocks@, final(self)@)
            },
            no_defect(result),
        decreases old(self)@.remaining(), 1int,
    {
        let mut blocks: Vec<(AstIndex, AstIndex)> = Vec::new();
        loop
            invariant
                old(self)@.in_scope(),
                self@.follows(old(self)@),
                blocks_below(blocks@, self@),
                grammar::else_if_blocks(old(self)@, current_indent, Seq::empty())
                    == grammar::else_if_blocks(self@, current_indent, blocks@),
            decreases self@.remaining(),
        {
            if self.current_indent() != current_indent {
                return Ok(blocks);
            }
            if self.skip_whitespace_and_peek() != Some(Token::ElseIf) {
                return Ok(blocks);
            }
            self.consume_token();
            if let Some(else_if_condition) = self.parse_primary_expression()? {
                if let Some(else_if_block) = self.parse_indented_map_or_block(current_indent)? {
                    blocks.push((else_if_condition, else_if_block));
                } else {
                    return Err(self.syntax_error(SyntaxError::ExpectedElseIfBlock));
                }
            } else {
                return Err(self.syntax_error(SyntaxError::ExpectedElseIfCondition));
            }
        }
    }

    fn parse_else_block(&mut self, current_indent: usize) -> (result: Result<
        Option<AstIndex>,
        ParserError,
    >)
        requires
            old(self)@.in_scope(),
        ensures
            yields(result, final(self)@, grammar::else_block(old(self)@, current_indent)),
            reads(result, old(self)@, final(self)@),
            no_defect(result),
        decreases old(self)@.remaining(), 1int,
    {
        if self.current_indent() != current_indent {
            return Ok(None);
        }
        if self.skip_whitespace_and_peek() != Some(Token::Else) {
            return Ok(None);
        }
        self.consume_token();
        if let Some(else_block) = self.parse_indented_map_or_block(current_indent)? {
            Ok(Some(else_block))
        } else {
            Err(self.syntax_error(SyntaxError::ExpectedElseBlock))
        }
    }

    pub(super) fn parse_match_expression(&mut self) -> (result: Result<
        Option<AstIndex>,
        ParserError,
    >)
        requires
            old(self)@.in_scope(),
        ensures
            yields(result, final(self)@, grammar::match_expression(old(self)@)),
            reads(result, old(self)@, final(self)@),
            no_defect(result),
        decreases old(self)@.remaining(), 1int,
    {
        if self.peek_token() != Some(Token::Match) {
            return Ok(None);
        }
        let current_indent: usize = self.current_indent();
        let start_span = self.span();
        self.consume_token();
        let expression = match self.parse_primary_expressions(false)? {
            Some(expression) => expression,
            None => {
                return Err(self.syntax_error(SyntaxError::ExpectedMatchExpression));
            },
        };
        self.consume_until_next_token();
        let match_indent: usize = self.current_indent();
        if match_indent <= current_indent {
            return Err(self.syntax_error(SyntaxError::ExpectedMatchArm));
        }
        let arms = self.parse_match_arms(match_indent)?;
        Ok(Some(self.push_node_with_start_span(Node::Match { expression, arms }, start_span)?))
    }

    fn parse_match_arms(&mut self, match_indent: usize) -> (result: Result<
        Vec<MatchArm>,
        ParserError,
    >)
        requires
            old(self)@.in_scope(),
        ensures
            match result {
                Ok(arms) => grammar::match_arms(old(self)@, match_indent, Seq::empty()) == Ok::<
                    (State, Seq<MatchArmView>),
                    ParserError,
                >((final(self)@, views(arms@))),
                Err(e) => grammar::match_arms(old(self)@, match_indent, Seq::empty()) == Err::<
                    (State, Seq<MatchArmView>),
                    ParserError,
                >(e),
            },
            result matches Ok(arms) ==> {
                &&& final(self)@.follows(old(self)@)
                &&& arms_below(views(arms@), final(self)@)
            },
            no_defect(result),
        decreases old(self)@.remaining(), 13int,
    {
        let mut arms: Vec<MatchArm> = Vec::new();
        assert(views(arms@) =~= Seq::<MatchArmView>::empty());
        loop
            invariant
                old(self)@.in_scope(),
                self@.follows(old(self)@),
                arms_below(views(arms@), self@),
                grammar::match_arms(old(self)@, match_indent, Seq::empty())
                    == grammar::match_arms(self@, match_indent, views(arms@)),
            decreases self@.remaining(),
        {
            if self.peek_token().is_none() {
                return Ok(arms);
            }
            let arm = self.parse_match_arm(match_indent)?;
            proof {
                lemma_views_push(arms@, arm);
            }
            arms.push(arm);
            self.consume_until_next_token();
            let next_indent: usize = self.next_indent();
            if next_indent < match_indent {
                return Ok(arms);
            }
            if next_indent > match_indent {
                return Err(self.syntax_error(SyntaxError::UnexpectedIndentation));
            }
        }
    }

    /// Parses one arm: the alternatives, the condition and the value.
    fn parse_match_arm(&mut self, match_indent: usize) -> (result: Result<MatchArm, ParserError>)
        requires
            old(self)@.in_scope(),
        ensures
            yields_view(result, final(self)@, grammar::match_arm(old(self)@, match_indent)),
            result matches Ok(arm) ==> {
                &&& final(self)@.follows(old(self)@)
                &&& final(self)@.remaining() < old(self)@.remaining()
                &&& arm@.refers_below(final(self)@.nodes.len() as int)
            },
            no_defect(result),
        decreases old(self)@.remaining(), 12int,
    {
        let (patterns, expected_count) = self.parse_arm_patterns()?;
        if patterns.len() != expected_count {
            return Err(self.syntax_error(SyntaxError::ExpectedMatchPattern));
        }
        let condition = self.parse_condition(SyntaxError::ExpectedMatchCondition)?;
        let expression = if self.skip_whitespace_and_peek() == Some(Token::Then) {
            self.consume_token();
            match self.parse_primary_expressions(false)? {
                Some(expression) => expression,
                None => {
                    return Err(
                        self.syntax_error(SyntaxError::ExpectedMatchArmExpressionAfterThen),
                    );
                },
            }
        } else if let Some(indented_expression) = self.parse_indented_map_or_block(match_indent)? {
            indented_expression
        } else {
            return Err(self.syntax_error(SyntaxError::ExpectedMatchArmExpression));
        };
        Ok(MatchArm { patterns, condition, expression })
    }

    /// Parses the patterns of an arm, with alternatives separated by `or`, and counts how many
    /// patterns there should be.
    ///
    /// ```koto
    /// match x, y
    ///   0, 1 then ...
    ///   2, 3 or 4, 5 then ...
    ///   other then ...
    /// ```
    fn parse_arm_patterns(&mut self) -> (result: Result<(Vec<AstIndex>, usize), ParserError>)
        requires
            old(self)@.in_scope(),
        ensures
            match result {
                Ok((patterns, count)) => {
                    &&& grammar::arm_patterns(old(self)@, Seq::empty(), 1) == Ok::<
                        (State, (Seq<AstIndex>, int)),
                        ParserError,
                    >((final(self)@, (patterns@, count as int)))
                    &&& final(self)@.follows(old(self)@)
                    &&& count >= 1
                    &&& patterns@.len() > 0 ==> final(self)@.remaining() < old(self)@.remaining()
                    &&& all_below(patterns@, final(self)@.nodes.len() as int)
                },
                Err(e) => grammar::arm_patterns(old(self)@, Seq::empty(), 1) == Err::<
                    (State, (Seq<AstIndex>, int)),
                    ParserError,
                >(e),
            },
            no_defect(result),
        decreases old(self)@.remaining(), 10int,
    {
        let mut arm_patterns: Vec<AstIndex> = Vec::new();
        let mut expected_arm_count: usize = 1;
        let token_count: usize = self.token_count();
        loop
            invariant
                old(self)@.in_scope(),
                self@.follows(old(self)@),
                all_below(arm_patterns@, self@.nodes.len() as int),
                1 <= expected_arm_count <= arm_patterns@.len() + 1,
                arm_patterns@.len() + self@.remaining() <= old(self)@.remaining() <= token_count,
                grammar::arm_patterns(old(self)@, Seq::empty(), 1) == grammar::arm_patterns(
                    self@,
                    arm_patterns@,
                    expected_arm_count as int,
                ),
            decreases self@.remaining(),
        {
            let pattern = match self.parse_arm_pattern()? {
                Some(pattern) => pattern,
                None => {
                    return Ok((arm_patterns, expected_arm_count));
                },
            };
            arm_patterns.push(pattern);
            if self.skip_whitespace_and_peek() == Some(Token::Or) {
                self.consume_token();
                expected_arm_count = expected_arm_count + 1;
            }
        }
    }

    /// Parses one alternative of an arm.
    fn parse_arm_pattern(&mut self) -> (result: Result<Option<AstIndex>, ParserError>)
        requires
            old(self)@.in_scope(),
        ensures
            yields(result, final(self)@, grammar::arm_pattern(old(self)@)),
            reads(result, old(self)@, final(self)@),
            no_defect(result),
        decreases old(self)@.remaining(), 9int,
    {
        let pattern = match self.parse_match_pattern()? {
            Some(pattern) => pattern,
            None => {
                return Ok(None);
            },
        };
        let patterns = self.parse_pattern_list(pattern)?;
        if patterns.len() == 1 {
            Ok(Some(patterns[0]))
        } else {
            Ok(Some(self.push_node(Node::Tuple(patterns))?))
        }
    }

    /// Parses the patterns for a multi-expression, separated by commas.
    fn parse_pattern_list(&mut self, first: AstIndex) -> (result: Result<
        Vec<AstIndex>,
        ParserError,
    >)
        requires
            old(self)@.in_scope(),
            first < old(self)@.nodes.len(),
        ensures
            yields_view(result, final(self)@, grammar::pattern_list(old(self)@, seq![first])),
            result matches Ok(patterns) ==> {
                &&& final(self)@.follows(old(self)@)
                &&& patterns@.len() > 0
                &&& all_below(patterns@, final(self)@.nodes.len() as int)
            },
            no_defect(result),
        decreases old(self)@.remaining(), 9int,
    {
        let mut patterns: Vec<AstIndex> = Vec::new();
        patterns.push(first);
        assert(patterns@ =~= seq![first]);
        loop
            invariant
                old(self)@.in_scope(),
                self@.follows(old(self)@),
                patterns@.len() > 0,
                all_below(patterns@, self@.nodes.len() as int),
                grammar::pattern_list(old(self)@, seq![first]) == grammar::pattern_list(
                    self@,
                    patterns@,
                ),
            decreases self@.remaining(),
        {
            if self.skip_whitespace_and_peek() != Some(Token::Separator) {
                return Ok(patterns);
            }
            self.consume_token();
            match self.parse_match_pattern()? {
                Some(pattern) => patterns.push(pattern),
                None => {
                    return Err(self.syntax_error(SyntaxError::ExpectedMatchPattern));
                },
            }
        }
    }

    fn parse_match_pattern(&mut self) -> (result: Result<Option<AstIndex>, ParserError>)
        requires
            old(self)@.in_scope(),
        ensures
            yields(result, final(self)@, grammar::match_pattern(old(self)@)),
            reads(result, old(self)@, final(self)@),
            no_defect(result),
        decreases old(self)@.remaining(), 8int,
    {
        match self.skip_whitespace_and_peek() {
            Some(Token::True)
            | Some(Token::False)
            | Some(Token::Number)
            | Some(Token::String) => self.parse_term(false),
            Some(Token::Id) => match self.parse_id(false) {
                Some(id) => {
                    self.assign_id(id)?;
                    Ok(Some(self.push_node(Node::Id(id))?))
                },
                None => Err(self.internal_error(InternalError::IdParseFailure)),
            },
            Some(Token::ListStart) => self.parse_list(false),
            Some(Token::Wildcard) => {
                self.consume_token();
                Ok(Some(self.push_node(Node::Wildcard)?))
            },
            Some(Token::ParenOpen) => {
                if self.peek_token_n(1) == Some(Token::ParenClose) {
                    self.consume_token();
                    self.consume_token();
                    Ok(Some(self.push_node(Node::Empty)?))
                } else {
                    Ok(None)
                }
            },
            _ => Ok(None),
        }
    }

    pub(super) fn parse_try_expression(&mut self) -> (result: Result<Option<AstIndex>, ParserError>)
        requires
            old(self)@.in_scope(),
            old(self)@.peek() is Some,
        ensures
            yields(
                result,
                final(self)@,
                grammar::try_expression(old(self)@.advance(), old(self)@.current_indent()),
            ),
            reads(result, old(self)@, final(self)@),
            no_defect(result),
        decreases old(self)@.remaining(), 1int,
    {
        let current_indent: usize = self.current_indent();
        self.consume_token();
        let start_span = self.span();
        let try_block = match self.parse_indented_block(current_indent, None)? {
            Some(try_block) => try_block,
            None => {
                return Err(self.syntax_error(SyntaxError::ExpectedTryBody));
            },
        };
        if self.skip_whitespace_and_next() != Some(Token::Catch) {
            return Err(self.syntax_error(SyntaxError::ExpectedCatchBlock));
        }
        let catch_arg = match self.parse_id(true) {
            Some(catch_arg) => catch_arg,
            None => {
                return Err(self.syntax_error(SyntaxError::ExpectedCatchArgument));
            },
        };
        self.assign_id(catch_arg)?;
        let catch_block = match self.parse_indented_block(current_indent, None)? {
            Some(catch_block) => catch_block,
            None => {
                return Err(self.syntax_error(SyntaxError::ExpectedCatchBody));
            },
        };
        let finally_block = self.parse_finally_block(current_indent)?;
        Ok(
            Some(
                self.push_node_with_start_span(
                    Node::Try(AstTry { try_block, catch_arg, catch_block, finally_block }),
                    start_span,
                )?,
            ),
        )
    }

    fn parse_finally_block(&mut self, current_indent: usize) -> (result: Result<
        Option<AstIndex>,
        ParserError,
    >)
        requires
            old(self)@.in_scope(),
        ensures
            yields(result, final(self)@, grammar::finally_block(old(self)@, current_indent)),
            reads(result, old(self)@, final(self)@),
            no_defect(result),
        decreases old(self)@.remaining(), 1int,
    {
        if self.skip_whitespace_and_peek() != Some(Token::Finally) {
            return Ok(None);
        }
        self.consume_token();
        if let Some(finally_block) = self.parse_indented_block(current_indent, None)? {
            Ok(Some(finally_block))
        } else {
            Err(self.syntax_error(SyntaxError::ExpectedFinallyBody))
        }
    }

    pub(super) fn parse_indented_map_or_block(&mut self, current_indent: usize) -> (result: Result<
        Option<AstIndex>,
        ParserError,
    >)
        requires
            old(self)@.in_scope(),
        ensures
            yields(
                result,
                final(self)@,
                grammar::indented_map_or_block(old(self)@, current_indent),
            ),
            reaches(result, old(self)@, final(self)@),
            no_defect(result),
        decreases old(self)@.remaining(), 16int,
    {
        self.consume_until_next_token();
        let expected_indent: usize = self.next_indent();
        if let Some(map_block) = self.parse_map_block(current_indent, Some(expected_indent))? {
            Ok(Some(map_block))
        } else {
            self.parse_indented_block(current_indent, Some(expected_indent))
        }
    }

    pub(super) fn parse_indented_block(
        &mut self,
        current_indent: usize,
        block_indent: Option<usize>,
    ) -> (result: Result<Option<AstIndex>, ParserError>)
        requires
            old(self)@.in_scope(),
        ensures
            yields(
                result,
                final(self)@,
                grammar::indented_block(old(self)@, current_indent, block_indent),
            ),
            reaches(result, old(self)@, final(self)@),
            no_defect(result),
        decreases old(self)@.remaining(), 15int,
    {
        let ghost parsed = grammar::indented_block(self@, current_indent, block_indent);
        let block_indent: usize = match block_indent {
            Some(indent) => indent,
            None => {
                if self.skip_whitespace_and_peek() != Some(Token::NewLineIndented) {
                    return Ok(None);
                }
                let block_indent: usize = self.next_indent();
                if block_indent <= current_indent {
                    return Ok(None);
                }
                self.consume_token();
                block_indent
            },
        };
        if block_indent <= current_indent {
            return Ok(None);
        }
        assert(parsed == grammar::indented_block_at(self@, block_indent));
        self.consume_until_next_token();
        let start_span = self.span();
        let body = self.parse_indented_lines(block_indent)?;
        // If the body is a single expression then it doesn't need to be wrapped in a block
        if body.len() == 1 {
            Ok(Some(body[0]))
        } else {
            Ok(Some(self.push_node_with_start_span(Node::Block(body), start_span)?))
        }
    }

    fn parse_indented_lines(&mut self, block_indent: usize) -> (result: Result<
        Vec<AstIndex>,
        ParserError,
    >)
        requires
            old(self)@.in_scope(),
        ensures
            yields_view(
                result,
                final(self)@,
                grammar::indented_lines(old(self)@, block_indent, Seq::empty()),
            ),
            result matches Ok(body) ==> {
                &&& final(self)@.follows(old(self)@)
                &&& all_below(body@, final(self)@.nodes.len() as int)
            },
            no_defect(result),
        decreases old(self)@.remaining(), 13int,
    {
        let mut body: Vec<AstIndex> = Vec::new();
        loop
            invariant
                old(self)@.in_scope(),
                self@.follows(old(self)@),
                all_below(body@, self@.nodes.len() as int),
                grammar::indented_lines(old(self)@, block_indent, Seq::empty())
                    == grammar::indented_lines(self@, block_indent, body@),
            decreases self@.remaining(),
        {
            let expression = match self.parse_line()? {
                Some(expression) => expression,
                None => {
                    return Ok(body);
                },
            };
            body.push(expression);
            self.consume_until_next_token();
            let next_indent: usize = self.current_indent();
            if next_indent < block_indent {
                return Ok(body);
            }
            if next_indent > block_indent {
                return Err(self.syntax_error(SyntaxError::UnexpectedIndentation));
            }
        }
    }
}

} // verus!
