//! Literals, lists, maps, and the constructs that start with a keyword.
use vstd::prelude::*;

use crate::ast::{all_below, option_below, AstIndex, ConstantIndex, Node};
use crate::error::{InternalError, ParserError, SyntaxError};
use crate::lexer::{NumberLiteral, Span, Token};
use crate::parser::grammar;
use crate::parser::state::{no_defect, reads, yields, yields_view, State};
use crate::parser::Parser;

verus! {

broadcast use crate::parser::state::group_extends;

/// The entries refer to nodes of the AST and to constants of the pool.
spec fn entries_below(entries: Seq<(ConstantIndex, Option<AstIndex>)>, s: State) -> bool {
    forall|i: int|
        0 <= i < entries.len() ==> {
            &&& (#[trigger] entries[i]).0 < s.constants.len()
            &&& option_below(entries[i].1, s.nodes.len() as int)
        }
}

impl<'source> Parser<'source> {
    pub(super) fn parse_term(&mut self, primary_expression: bool) -> (result: Result<
        Option<AstIndex>,
        ParserError,
    >)
        requires
            old(self)@.in_scope(),
        ensures
            yields(result, final(self)@, grammar::term(old(self)@, primary_expression)),
            reads(result, old(self)@, final(self)@),
            no_defect(result),
        decreases old(self)@.remaining(), 7int,
    {
        let current_indent: usize = self.current_indent();
        let token = match self.skip_whitespace_and_peek() {
            Some(token) => token,
            None => {
                return Ok(None);
            },
        };
        match token {
            Token::True => {
                self.consume_token();
                Ok(Some(self.push_node(Node::BoolTrue)?))
            },
            Token::False => {
                self.consume_token();
                Ok(Some(self.push_node(Node::BoolFalse)?))
            },
            Token::ParenOpen => self.parse_nested_expressions(),
            Token::Number => {
                self.consume_token();
                self.parse_number()
            },
            Token::String => self.parse_string_term(primary_expression),
            Token::Id => self.parse_id_expression(primary_expression),
            Token::ListStart => self.parse_list(primary_expression),
            Token::MapStart => self.parse_map_inline(primary_expression),
            Token::Num2 => {
                self.consume_token();
                let start_span = self.span();
                let args = self.parse_num_terms(2, SyntaxError::TooManyNum2Terms)?;
                Ok(Some(self.push_node_with_start_span(Node::Num2(args), start_span)?))
            },
            Token::Num4 => {
                self.consume_token();
                let start_span = self.span();
                let args = self.parse_num_terms(4, SyntaxError::TooManyNum4Terms)?;
                Ok(Some(self.push_node_with_start_span(Node::Num4(args), start_span)?))
            },
            Token::If if primary_expression => self.parse_if_expression(),
            Token::Match => self.parse_match_expression(),
            Token::Function => self.parse_function(),
            Token::Copy => {
                self.consume_token();
                if let Some(expression) = self.parse_primary_expression()? {
                    Ok(Some(self.push_node(Node::CopyExpression(expression))?))
                } else {
                    Err(self.syntax_error(SyntaxError::ExpectedExpression))
                }
            },
            Token::Not => {
                self.consume_token();
                if let Some(expression) = self.parse_primary_expression()? {
                    Ok(Some(self.push_node(Node::Negate(expression))?))
                } else {
                    Err(self.syntax_error(SyntaxError::ExpectedExpression))
                }
            },
            Token::Type => {
                self.consume_token();
                if let Some(expression) = self.parse_primary_expression()? {
                    Ok(Some(self.push_node(Node::Type(expression))?))
                } else {
                    Err(self.syntax_error(SyntaxError::ExpectedExpression))
                }
            },
            Token::Yield => {
                self.consume_token();
                if let Some(expression) = self.parse_primary_expressions(true)? {
                    let index = self.push_node(Node::Yield(expression))?;
                    self.note_yield()?;
                    Ok(Some(index))
                } else {
                    Err(self.syntax_error(SyntaxError::ExpectedExpression))
                }
            },
            Token::Break => {
                self.consume_token();
                Ok(Some(self.push_node(Node::Break)?))
            },
            Token::Continue => {
                self.consume_token();
                Ok(Some(self.push_node(Node::Continue)?))
            },
            Token::Return => {
                self.consume_token();
                if let Some(expression) = self.parse_primary_expressions(true)? {
                    Ok(Some(self.push_node(Node::ReturnExpression(expression))?))
                } else {
                    Ok(Some(self.push_node(Node::Return)?))
                }
            },
            Token::From | Token::Import => self.parse_import_expression(),
            Token::Try if primary_expression => self.parse_try_expression(),
            Token::NewLineIndented => self.parse_map_block(current_indent, None),
            Token::Error => Err(self.syntax_error(SyntaxError::LexerError)),
            _ => Ok(None),
        }
    }

    /// Pushes the number that was read last.
    fn parse_number(&mut self) -> (result: Result<Option<AstIndex>, ParserError>)
        requires
            old(self)@.in_scope(),
        ensures
            yields(result, final(self)@, grammar::number(old(self)@)),
            result matches Ok(index) ==> {
                &&& final(self)@.follows(old(self)@)
                &&& index matches Some(i) && i < final(self)@.nodes.len()
            },
            no_defect(result),
    {
        match self.number() {
            None => Err(self.internal_error(InternalError::NumberParseFailure)),
            Some(NumberLiteral::Zero) => Ok(Some(self.push_node(Node::Number0)?)),
            Some(NumberLiteral::One) => Ok(Some(self.push_node(Node::Number1)?)),
            Some(NumberLiteral::Bits(bits)) => {
                let constant_index = self.add_number(bits);
                Ok(Some(self.push_node(Node::Number(constant_index))?))
            },
        }
    }

    /// Parses a string that comes next, and a lookup on it.
    fn parse_string_term(&mut self, primary_expression: bool) -> (result: Result<
        Option<AstIndex>,
        ParserError,
    >)
        requires
            old(self)@.in_scope(),
            old(self)@.peek() == Some(Token::String),
        ensures
            yields(
                result,
                final(self)@,
                grammar::string(old(self)@.advance(), primary_expression),
            ),
            reads(result, old(self)@, final(self)@),
            no_defect(result),
        decreases old(self)@.remaining(), 1int,
    {
        proof {
            super::lemma_string_token(self@);
        }
        self.consume_token();
        let s = self.parse_string(self.slice())?;
        let constant_index = self.add_string(s.as_str());
        let string_node = self.push_node(Node::Str(constant_index))?;
        self.parse_lookup_on(string_node, primary_expression)
    }

    /// Parses the terms of a number vector, of which there may be no more than `size`.
    fn parse_num_terms(&mut self, size: usize, too_many: SyntaxError) -> (result: Result<
        Vec<AstIndex>,
        ParserError,
    >)
        requires
            old(self)@.in_scope(),
        ensures
            yields_view(
                result,
                final(self)@,
                grammar::num_terms(old(self)@, size as int, too_many),
            ),
            result matches Ok(args) ==> {
                &&& final(self)@.follows(old(self)@)
                &&& all_below(args@, final(self)@.nodes.len() as int)
            },
            no_defect(result),
        decreases old(self)@.remaining(), 12int,
    {
        let args = if self.peek_token() == Some(Token::ParenOpen) {
            self.parse_parenthesized_args()?
        } else {
            let mut args: Vec<AstIndex> = Vec::new();
            let ghost parsed = grammar::terms(self@, Seq::empty());
            loop
                invariant_except_break
                    parsed == grammar::terms(self@, args@),
                invariant
                    old(self)@.in_scope(),
                    old(self)@.peek() != Some(Token::ParenOpen),
                    self@.follows(old(self)@),
                    all_below(args@, self@.nodes.len() as int),
                    parsed == grammar::terms(old(self)@, Seq::empty()),
                ensures
                    parsed == Ok::<(State, Seq<AstIndex>), ParserError>((self@, args@)),
                decreases self@.remaining(),
            {
                if let Some(arg) = self.parse_term(false)? {
                    args.push(arg);
                } else {
                    break;
                }
            }
            args
        };
        if args.len() == 0 {
            Err(self.syntax_error(SyntaxError::ExpectedExpression))
        } else if args.len() > size {
            Err(self.syntax_error(too_many))
        } else {
            Ok(args)
        }
    }

    pub(super) fn parse_nested_expressions(&mut self) -> (result: Result<
        Option<AstIndex>,
        ParserError,
    >)
        requires
            old(self)@.in_scope(),
        ensures
            yields(result, final(self)@, grammar::nested_expressions(old(self)@)),
            reads(result, old(self)@, final(self)@),
            no_defect(result),
        decreases old(self)@.remaining(), 1int,
    {
        if self.skip_whitespace_and_peek() != Some(Token::ParenOpen) {
            return Ok(None);
        }
        self.consume_token();
        let ghost start = self@;
        let mut expressions: Vec<AstIndex> = Vec::new();
        let ghost parsed = grammar::nested_list(start, Seq::empty());
        loop
            invariant_except_break
                parsed == grammar::nested_list(self@, expressions@),
            invariant
                old(self)@.in_scope(),
                self@.follows(start),
                start.follows(old(self)@),
                start.remaining() < old(self)@.remaining(),
                start == old(self)@.skip_blanks().advance(),
                old(self)@.skip_blanks().peek() == Some(Token::ParenOpen),
                all_below(expressions@, self@.nodes.len() as int),
                parsed == grammar::nested_list(start, Seq::empty()),
            ensures
                parsed == Ok::<(State, Seq<AstIndex>), ParserError>((self@, expressions@)),
            decreases self@.remaining(),
        {
            if let Some(expression) = self.parse_primary_expression()? {
                expressions.push(expression);
                if self.peek_token() == Some(Token::Separator) {
                    self.consume_token();
                } else {
                    break;
                }
            } else {
                break;
            }
        }
        let result = if expressions.len() == 0 {
            self.push_node(Node::Empty)?
        } else if expressions.len() == 1 {
            expressions[0]
        } else {
            self.push_node(Node::Tuple(expressions))?
        };
        if let Some(Token::ParenClose) = self.peek_token() {
            self.consume_token();
            self.parse_lookup_on(result, false)
        } else {
            Err(self.syntax_error(SyntaxError::ExpectedCloseParen))
        }
    }

    pub(super) fn parse_list(&mut self, primary_expression: bool) -> (result: Result<
        Option<AstIndex>,
        ParserError,
    >)
        requires
            old(self)@.in_scope(),
            old(self)@.peek() is Some,
        ensures
            yields(result, final(self)@, grammar::list(old(self)@.advance(), primary_expression)),
            reads(result, old(self)@, final(self)@),
            result matches Ok(index) ==> index is Some,
            no_defect(result),
        decreases old(self)@.remaining(), 1int,
    {
        self.consume_token();
        let ghost start = self@;
        let start_span = self.span();
        let reset_point = self.reset_point();
        // A comprehension has to be parsed differently to a plain list of entries.
        // Any expression can appear at the start as the inline body of a loop, so first look for
        // any kind of expression, and then see if a loop follows.
        let entries = match self.parse_comprehension()? {
            Some(comprehension) => {
                let mut entries: Vec<AstIndex> = Vec::new();
                entries.push(comprehension);
                assert(entries@ =~= seq![comprehension]);
                entries
            },
            None => {
                // No comprehension was found, so reset the lexer and AST to where things were
                // before trying to parse a comprehension, and then parse list entries.
                let ghost tried = self@;
                self.reset(reset_point, Ghost(start));
                proof {
                    super::lemma_rewound(tried, start);
                }
                self.parse_list_entries()?
            },
        };
        self.parse_list_end(entries, start_span, primary_expression)
    }

    /// Parses the end of a list, and a lookup on it.
    fn parse_list_end(
        &mut self,
        entries: Vec<AstIndex>,
        start_span: Span,
        primary_expression: bool,
    ) -> (result: Result<Option<AstIndex>, ParserError>)
        requires
            old(self)@.in_scope(),
            all_below(entries@, old(self)@.nodes.len() as int),
        ensures
            yields(
                result,
                final(self)@,
                grammar::end_of_list(old(self)@, entries@, start_span, primary_expression),
            ),
            reads(result, old(self)@, final(self)@),
            result matches Ok(index) ==> index is Some,
            no_defect(result),
        decreases old(self)@.remaining(), 12int,
    {
        self.consume_until_next_token();
        if self.consume_token() != Some(Token::ListEnd) {
            return Err(self.syntax_error(SyntaxError::ExpectedListEnd));
        }
        let list_node = self.push_node_with_start_span(Node::List(entries), start_span)?;
        self.parse_lookup_on(list_node, primary_expression)
    }

    /// Parses an expression that ends in a loop.
    fn parse_comprehension(&mut self) -> (result: Result<Option<AstIndex>, ParserError>)
        requires
            old(self)@.in_scope(),
        ensures
            yields(result, final(self)@, grammar::comprehension(old(self)@)),
            reads(result, old(self)@, final(self)@),
            no_defect(result),
        decreases old(self)@.remaining(), 10int,
    {
        let expression = match self.parse_primary_expression()? {
            Some(expression) => expression,
            None => {
                return Ok(None);
            },
        };
        match self.node(expression) {
            Node::For(_) | Node::While { .. } | Node::Until { .. } => Ok(Some(expression)),
            _ => {
                let loop_body: [AstIndex; 1] = [expression];
                assert(loop_body@ =~= seq![expression]);
                match self.skip_whitespace_and_peek() {
                    Some(Token::For) => self.parse_for_loop(Some(&loop_body)),
                    Some(Token::While) => self.parse_while_loop(Some(&loop_body)),
                    Some(Token::Until) => self.parse_until_loop(Some(&loop_body)),
                    _ => Ok(None),
                }
            },
        }
    }

    fn parse_list_entries(&mut self) -> (result: Result<Vec<AstIndex>, ParserError>)
        requires
            old(self)@.in_scope(),
        ensures
            yields_view(result, final(self)@, grammar::list_entries(old(self)@, Seq::empty())),
            result matches Ok(entries) ==> {
                &&& final(self)@.follows(old(self)@)
                &&& all_below(entries@, final(self)@.nodes.len() as int)
            },
            no_defect(result),
        decreases old(self)@.remaining(), 10int,
    {
        let mut entries: Vec<AstIndex> = Vec::new();
        loop
            invariant
                old(self)@.in_scope(),
                self@.follows(old(self)@),
                all_below(entries@, self@.nodes.len() as int),
                grammar::list_entries(old(self)@, Seq::empty()) == grammar::list_entries(
                    self@,
                    entries@,
                ),
            decreases self@.remaining(),
        {
            if self.consume_until_next_token() == Some(Token::ListEnd) {
                return Ok(entries);
            }
            if let Some(entry) = self.parse_primary_expression()? {
                entries.push(entry);
            }
            if self.skip_whitespace_and_peek() == Some(Token::Separator) {
                self.consume_token();
            } else {
                return Ok(entries);
            }
        }
    }

    fn parse_map_inline(&mut self, primary_expression: bool) -> (result: Result<
        Option<AstIndex>,
        ParserError,
    >)
        requires
            old(self)@.in_scope(),
            old(self)@.peek() is Some,
        ensures
            yields(
                result,
                final(self)@,
                grammar::map_inline(old(self)@.advance(), primary_expression),
            ),
            reads(result, old(self)@, final(self)@),
            no_defect(result),
        decreases old(self)@.remaining(), 1int,
    {
        self.consume_token();
        let ghost start = self@;
        let start_span = self.span();
        let mut entries: Vec<(ConstantIndex, Option<AstIndex>)> = Vec::new();
        let ghost parsed = grammar::map_entries(start, Seq::empty());
        loop
            invariant_except_break
                parsed == grammar::map_entries(self@, entries@),
            invariant
                old(self)@.in_scope(),
                self@.follows(start),
                start.follows(old(self)@),
                start.remaining() < old(self)@.remaining(),
                start == old(self)@.advance(),
                entries_below(entries@, self@),
                parsed == grammar::map_entries(start, Seq::empty()),
            ensures
                parsed == Ok::<(State, Seq<(ConstantIndex, Option<AstIndex>)>), ParserError>(
                    (self@, entries@),
                ),
            decreases self@.remaining(),
        {
            self.consume_until_next_token();
            if let Some(key) = self.parse_id_or_string()? {
                if self.peek_token() == Some(Token::Colon) {
                    self.consume_token();
                    self.consume_until_next_token();
                    if let Some(value) = self.parse_primary_expression()? {
                        entries.push((key, Some(value)));
                    } else {
                        return Err(self.syntax_error(SyntaxError::ExpectedMapValue));
                    }
                } else {
                    entries.push((key, None));
                }
                assert(parsed == grammar::more_map_entries(self@, entries@));
                if self.skip_whitespace_and_peek() == Some(Token::Separator) {
                    self.consume_token();
                } else {
                    break;
                }
            } else {
                break;
            }
        }
        if self.skip_whitespace_and_next() != Some(Token::MapEnd) {
            return Err(self.syntax_error(SyntaxError::ExpectedMapEnd));
        }
        let map_node = self.push_node_with_start_span(Node::MapEntries(entries), start_span)?;
        self.parse_lookup_on(map_node, primary_expression)
    }

    pub(super) fn parse_map_block(
        &mut self,
        current_indent: usize,
        block_indent: Option<usize>,
    ) -> (result: Result<Option<AstIndex>, ParserError>)
        requires
            old(self)@.in_scope(),
        ensures
            yields(
                result,
                final(self)@,
                grammar::map_block(old(self)@, current_indent, block_indent),
            ),
            reads(result, old(self)@, final(self)@),
            no_defect(result),
        decreases old(self)@.remaining(), 3int,
    {
        let ghost parsed = grammar::map_block(self@, current_indent, block_indent);
        let block_indent: usize = match block_indent {
            Some(indent) => indent,
            None => {
                if self.skip_whitespace_and_peek() != Some(Token::NewLineIndented) {
                    return Ok(None);
                }
                let block_indent: usize = self.next_indent();
                if block_indent <= current_indent {
                    return Ok(None);
                }
                self.consume_token();
                block_indent
            },
        };
        assert(parsed == grammar::map_block_at(self@, block_indent));
        // Look ahead to check there's at least one map entry
        if self.consume_until_next_token() != Some(Token::Id) {
            return Ok(None);
        }
        if self.peek_token_n(1) != Some(Token::Colon) {
            return Ok(None);
        }
        let start_span = self.span();
        let entries = self.parse_map_block_entries(block_indent)?;
        Ok(Some(self.push_node_with_start_span(Node::MapEntries(entries), start_span)?))
    }

    /// Parses entries, each on a line of its own, where at least one is there.
    fn parse_map_block_entries(&mut self, block_indent: usize) -> (result: Result<
        Vec<(ConstantIndex, Option<AstIndex>)>,
        ParserError,
    >)
        requires
            old(self)@.in_scope(),
            old(self)@.peek() == Some(Token::Id),
        ensures
            yields_view(
                result,
                final(self)@,
                grammar::map_block_entries(old(self)@, block_indent, Seq::empty()),
            ),
            result matches Ok(entries) ==> {
                &&& final(self)@.follows(old(self)@)
                &&& final(self)@.remaining() < old(self)@.remaining()
                &&& entries_below(entries@, final(self)@)
            },
            no_defect(result),
        decreases old(self)@.remaining(), 1int,
    {
        let mut entries: Vec<(ConstantIndex, Option<AstIndex>)> = Vec::new();
        loop
            invariant
                old(self)@.in_scope(),
                old(self)@.peek() == Some(Token::Id),
                self@.follows(old(self)@),
                self@ == old(self)@ || self@.remaining() < old(self)@.remaining(),
                entries_below(entries@, self@),
                grammar::map_block_entries(old(self)@, block_indent, Seq::empty())
                    == grammar::map_block_entries(self@, block_indent, entries@),
            decreases self@.remaining(),
        {
            let key = match self.parse_id_or_string()? {
                Some(key) => key,
                None => {
                    return Ok(entries);
                },
            };
            if self.skip_whitespace_and_next() == Some(Token::Colon) {
                if let Some(value) = self.parse_line()? {
                    entries.push((key, Some(value)));
                } else {
                    // If a value wasn't found on the same line as the key, scan ahead to the next
                    // token (skipping newlines) and try again
                    self.consume_until_next_token();
                    if let Some(value) = self.parse_line()? {
                        entries.push((key, Some(value)));
                    } else {
                        return Err(self.syntax_error(SyntaxError::ExpectedMapValue));
                    }
                }
            } else {
                entries.push((key, None));
            }
            assert(grammar::map_block_entries(old(self)@, block_indent, Seq::empty())
                == grammar::more_map_block_entries(self@, block_indent, entries@));
            self.consume_until_next_token();
            let next_indent: usize = self.next_indent();
            if next_indent < block_indent {
                return Ok(entries);
            }
            if next_indent > block_indent {
                return Err(self.syntax_error(SyntaxError::UnexpectedIndentation));
            }
        }
    }
}

} // verus!
