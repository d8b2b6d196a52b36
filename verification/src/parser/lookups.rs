//! Ids, calls, lookups and ranges.
use vstd::prelude::*;

use crate::ast::{
    all_below, lemma_views_push, views, AstIndex, ConstantIndex, LookupNode, LookupNodeView, Node,
};
use crate::error::{InternalError, ParserError, SyntaxError};
use crate::lexer::Token;
use crate::parser::grammar;
use crate::parser::state::{no_defect, reads, yields, yields_view, State};
use crate::parser::Parser;

verus! {

broadcast use crate::parser::state::group_extends;

/// The steps refer to nodes of the AST and to constants of the pool.
spec fn steps_below(steps: Seq<LookupNodeView>, s: State) -> bool {
    forall|i: int|
        0 <= i < steps.len() ==> (#[trigger] steps[i]).refers_below(
            s.nodes.len() as int,
            s.constants.len() as int,
        )
}

impl<'source> Parser<'source> {
    pub(super) fn parse_id(&mut self, allow_wildcards: bool) -> (result: Option<ConstantIndex>)
        requires
            old(self)@.well_formed(),
        ensures
            (final(self)@, result) == grammar::id(old(self)@, allow_wildcards),
            final(self)@.follows(old(self)@),
            result matches Some(constant) ==> {
                &&& final(self)@.remaining() < old(self)@.remaining()
                &&& constant < final(self)@.constants.len()
            },
    {
        let found = match self.skip_whitespace_and_peek() {
            Some(Token::Id) => true,
            Some(Token::Wildcard) => allow_wildcards,
            _ => false,
        };
        if !found {
            return None;
        }
        self.consume_token();
        let slice = self.slice();
        Some(self.add_string(slice))
    }

    pub(super) fn parse_id_or_string(&mut self) -> (result: Result<
        Option<ConstantIndex>,
        ParserError,
    >)
        requires
            old(self)@.in_scope(),
        ensures
            yields(result, final(self)@, grammar::id_or_string(old(self)@)),
            result matches Ok(key) ==> {
                &&& final(self)@.follows(old(self)@)
                &&& key matches Some(constant) ==> {
                    &&& final(self)@.remaining() < old(self)@.remaining()
                    &&& constant < final(self)@.constants.len()
                }
            },
            no_defect(result),
    {
        match self.skip_whitespace_and_peek() {
            Some(Token::Id) => {
                self.consume_token();
                let slice = self.slice();
                Ok(Some(self.add_string(slice)))
            },
            Some(Token::String) => {
                proof {
                    super::lemma_string_token(self@);
                }
                self.consume_token();
                let s = self.parse_string(self.slice())?;
                Ok(Some(self.add_string(s.as_str())))
            },
            _ => Ok(None),
        }
    }

    pub(super) fn parse_id_expression(&mut self, primary_expression: bool) -> (result: Result<
        Option<AstIndex>,
        ParserError,
    >)
        requires
            old(self)@.in_scope(),
        ensures
            yields(result, final(self)@, grammar::id_expression(old(self)@, primary_expression)),
            reads(result, old(self)@, final(self)@),
            no_defect(result),
        decreases old(self)@.remaining(), 1int,
    {
        let constant_index = match self.parse_id(primary_expression) {
            Some(constant_index) => constant_index,
            None => {
                return Ok(None);
            },
        };
        self.access_id(constant_index)?;
        let id_index = self.push_node(Node::Id(constant_index))?;
        match self.peek_token() {
            Some(Token::Whitespace) if primary_expression => {
                let start_span = self.span();
                self.consume_token();
                let args = self.parse_call_args()?;
                if args.len() == 0 {
                    Ok(Some(id_index))
                } else {
                    Ok(
                        Some(
                            self.push_node_with_start_span(
                                Node::Call { function: id_index, args },
                                start_span,
                            )?,
                        ),
                    )
                }
            },
            Some(Token::ParenOpen) | Some(Token::ListStart) | Some(Token::Dot) => {
                Ok(Some(self.parse_lookup(id_index, primary_expression)?))
            },
            _ => Ok(Some(id_index)),
        }
    }

    /// Parses the arguments of a call without parentheses.
    fn parse_call_args(&mut self) -> (result: Result<Vec<AstIndex>, ParserError>)
        requires
            old(self)@.in_scope(),
        ensures
            yields_view(
                result,
                final(self)@,
                grammar::call_args(old(self)@, old(self)@.line_number(), Seq::empty()),
            ),
            result matches Ok(args) ==> {
                &&& final(self)@.follows(old(self)@)
                &&& all_below(args@, final(self)@.nodes.len() as int)
            },
            no_defect(result),
        decreases old(self)@.remaining(), 10int,
    {
        let current_line: u32 = self.line_number();
        let mut args: Vec<AstIndex> = Vec::new();
        loop
            invariant
                old(self)@.in_scope(),
                self@.follows(old(self)@),
                all_below(args@, self@.nodes.len() as int),
                grammar::call_args(old(self)@, old(self)@.line_number(), Seq::empty())
                    == grammar::call_args(self@, current_line, args@),
            decreases self@.remaining(),
        {
            if args.len() > 0 && self.line_number() != current_line {
                return Ok(args);
            }
            if let Some(expression) = self.parse_non_primary_expression()? {
                args.push(expression);
            } else {
                return Ok(args);
            }
        }
    }

    /// Parses the lookup that may follow a value.
    pub(super) fn parse_lookup_on(&mut self, root: AstIndex, primary_expression: bool) -> (result:
        Result<Option<AstIndex>, ParserError>)
        requires
            old(self)@.in_scope(),
            root < old(self)@.nodes.len(),
        ensures
            yields(
                result,
                final(self)@,
                grammar::lookup_on(old(self)@, root, primary_expression),
            ),
            result matches Ok(index) ==> {
                &&& final(self)@.follows(old(self)@)
                &&& index matches Some(i) && i < final(self)@.nodes.len()
            },
            no_defect(result),
        decreases old(self)@.remaining(), 11int,
    {
        if self.next_token_is_lookup_start() {
            Ok(Some(self.parse_lookup(root, primary_expression)?))
        } else {
            Ok(Some(root))
        }
    }

    fn parse_lookup(&mut self, root: AstIndex, primary_expression: bool) -> (result: Result<
        AstIndex,
        ParserError,
    >)
        requires
            old(self)@.in_scope(),
            root < old(self)@.nodes.len(),
        ensures
            yields(result, final(self)@, grammar::lookup(old(self)@, root, primary_expression)),
            result matches Ok(index) ==> {
                &&& final(self)@.follows(old(self)@)
                &&& index < final(self)@.nodes.len()
            },
            no_defect(result),
        decreases old(self)@.remaining(), 10int,
    {
        let mut lookup: Vec<LookupNode> = Vec::new();
        let start_span = self.span();
        lookup.push(LookupNode::Root(root));
        assert(views(lookup@) =~= seq![LookupNodeView::Root(root)]);
        let ghost steps = grammar::lookup_steps(self@, views(lookup@), primary_expression);
        loop
            invariant_except_break
                steps == grammar::lookup_steps(self@, views(lookup@), primary_expression),
            invariant
                old(self)@.in_scope(),
                self@.follows(old(self)@),
                steps_below(views(lookup@), self@),
                steps == grammar::lookup_steps(
                    old(self)@,
                    seq![LookupNodeView::Root(root)],
                    primary_expression,
                ),
            ensures
                steps == Ok::<(State, Seq<LookupNodeView>), ParserError>((self@, views(lookup@))),
            decreases self@.remaining(),
        {
            match self.peek_token() {
                Some(Token::ParenOpen) => {
                    let args = self.parse_parenthesized_args()?;
                    proof {
                        lemma_views_push(lookup@, LookupNode::Call(args));
                    }
                    lookup.push(LookupNode::Call(args));
                },
                Some(Token::ListStart) => {
                    self.consume_token();
                    let index_expression = self.parse_index_expression()?;
                    if let Some(Token::ListEnd) = self.skip_whitespace_and_peek() {
                        self.consume_token();
                        proof {
                            lemma_views_push(lookup@, LookupNode::Index(index_expression));
                        }
                        lookup.push(LookupNode::Index(index_expression));
                    } else {
                        return Err(self.syntax_error(SyntaxError::ExpectedIndexEnd));
                    }
                },
                Some(Token::Dot) => {
                    self.consume_token();
                    if let Some(id_index) = self.parse_id_or_string()? {
                        proof {
                            lemma_views_push(lookup@, LookupNode::Id(id_index));
                        }
                        lookup.push(LookupNode::Id(id_index));
                    } else {
                        return Err(self.syntax_error(SyntaxError::ExpectedMapKey));
                    }
                },
                Some(Token::Whitespace) if primary_expression => {
                    self.consume_token();
                    let args = self.parse_call_args()?;
                    if args.len() > 0 {
                        proof {
                            lemma_views_push(lookup@, LookupNode::Call(args));
                        }
                        lookup.push(LookupNode::Call(args));
                    }
                    break;
                },
                _ => {
                    break;
                },
            }
        }
        Ok(self.push_node_with_start_span(Node::Lookup(lookup), start_span)?)
    }

    /// Parses the index within brackets.
    fn parse_index_expression(&mut self) -> (result: Result<AstIndex, ParserError>)
        requires
            old(self)@.in_scope(),
        ensures
            yields(result, final(self)@, grammar::index_expression(old(self)@)),
            result matches Ok(index) ==> {
                &&& final(self)@.follows(old(self)@)
                &&& index < final(self)@.nodes.len()
            },
            no_defect(result),
        decreases old(self)@.remaining(), 10int,
    {
        if let Some(start) = self.parse_non_primary_expression()? {
            let inclusive = match self.peek_token() {
                Some(Token::Range) => false,
                Some(Token::RangeInclusive) => true,
                _ => {
                    return Ok(start);
                },
            };
            self.consume_token();
            if let Some(end) = self.parse_non_primary_expression()? {
                self.push_node(Node::Range { start, end, inclusive })
            } else {
                self.push_node(Node::RangeFrom { start })
            }
        } else {
            let inclusive = match self.skip_whitespace_and_peek() {
                Some(Token::Range) => false,
                Some(Token::RangeInclusive) => true,
                _ => {
                    return Err(self.syntax_error(SyntaxError::ExpectedIndexExpression));
                },
            };
            self.consume_token();
            if let Some(end) = self.parse_non_primary_expression()? {
                self.push_node(Node::RangeTo { end, inclusive })
            } else {
                self.push_node(Node::RangeFull)
            }
        }
    }

    pub(super) fn parse_parenthesized_args(&mut self) -> (result: Result<
        Vec<AstIndex>,
        ParserError,
    >)
        requires
            old(self)@.in_scope(),
            old(self)@.peek() == Some(Token::ParenOpen),
        ensures
            yields_view(result, final(self)@, grammar::parenthesized_args(old(self)@)),
            result matches Ok(args) ==> {
                &&& final(self)@.follows(old(self)@)
                &&& final(self)@.remaining() < old(self)@.remaining()
                &&& all_below(args@, final(self)@.nodes.len() as int)
            },
            no_defect(result),
        decreases old(self)@.remaining(), 1int,
    {
        if self.skip_whitespace_and_peek() != Some(Token::ParenOpen) {
            return Err(self.internal_error(InternalError::ArgumentsParseFailure));
        }
        self.consume_token();
        let ghost start = self@;
        let mut args: Vec<AstIndex> = Vec::new();
        let ghost parsed = grammar::args_until_none(start, Seq::empty());
        loop
            invariant_except_break
                parsed == grammar::args_until_none(self@, args@),
            invariant
                old(self)@.in_scope(),
                self@.follows(start),
                start.follows(old(self)@),
                start.remaining() < old(self)@.remaining(),
                all_below(args@, self@.nodes.len() as int),
                parsed == grammar::args_until_none(start, Seq::empty()),
                start == old(self)@.skip_blanks().advance(),
                old(self)@.skip_blanks().peek() == Some(Token::ParenOpen),
            ensures
                parsed == Ok::<(State, Seq<AstIndex>), ParserError>((self@, args@)),
            decreases self@.remaining(),
        {
            self.consume_until_next_token();
            if let Some(expression) = self.parse_non_primary_expression()? {
                args.push(expression);
            } else {
                break;
            }
        }
        self.consume_until_next_token();
        if self.consume_token() == Some(Token::ParenClose) {
            Ok(args)
        } else {
            Err(self.syntax_error(SyntaxError::ExpectedArgsEnd))
        }
    }

    pub(super) fn parse_negatable_expression(&mut self) -> (result: Result<
        Option<AstIndex>,
        ParserError,
    >)
        requires
            old(self)@.in_scope(),
        ensures
            yields(result, final(self)@, grammar::negated(old(self)@)),
            reads(result, old(self)@, final(self)@),
            no_defect(result),
        decreases old(self)@.remaining(), 1int,
    {
        if self.skip_whitespace_and_peek() != Some(Token::Subtract) {
            return Ok(None);
        }
        if self.peek_token_n(1) == Some(Token::Whitespace) {
            return Ok(None);
        }
        self.consume_token();
        let expression = match self.peek_token() {
            Some(Token::Id) => self.parse_id_expression(false)?,
            Some(Token::ParenOpen) => self.parse_nested_expressions()?,
            _ => None,
        };
        match expression {
            Some(expression) => Ok(Some(self.push_node(Node::Negate(expression))?)),
            None => Err(self.syntax_error(SyntaxError::ExpectedNegatableExpression)),
        }
    }

    pub(super) fn parse_range(&mut self, lhs: Option<AstIndex>) -> (result: Result<
        Option<AstIndex>,
        ParserError,
    >)
        requires
            old(self)@.in_scope(),
            crate::ast::option_below(lhs, old(self)@.nodes.len() as int),
        ensures
            yields(result, final(self)@, grammar::range(old(self)@, lhs)),
            reads(result, old(self)@, final(self)@),
            no_defect(result),
        decreases old(self)@.remaining(), 1int,
    {
        let inclusive = match self.peek_token() {
            Some(Token::Range) => false,
            Some(Token::RangeInclusive) => true,
            _ => {
                return Ok(None);
            },
        };
        self.consume_token();
        let rhs = self.parse_term(false)?;
        let node = match (lhs, rhs) {
            (Some(start), Some(end)) => Node::Range { start, end, inclusive },
            (Some(start), None) => Node::RangeFrom { start },
            (None, Some(end)) => Node::RangeTo { end, inclusive },
            (None, None) => Node::RangeFull,
        };
        Ok(Some(self.push_node(node)?))
    }
}

} // verus!
