//! The parser: a single pass over the tokens of a script.
use vstd::prelude::*;
use vstd::std_specs::iter::IteratorSpec;
use vstd::string::*;

use crate::ast::{
    all_below, nodes_in_order, views, Ast, AstIndex, AstNodeView, AstOp, ConstantIndex, Node,
    NodeView,
};
use crate::constant_pool::{ConstantPool, ConstantPoolBuilder, ConstantView};
use crate::error::{
    is_defect, is_internal_defect, ErrorType, InternalError, ParserError, SyntaxError,
};
use crate::frame::{Frame, FrameView};
use crate::lexer::{LexedSource, Lexer, LexerView, NumberLiteral, Span, Token};
use crate::parser::state::{
    after_padding, is_blank, is_padding, lemma_after_blanks, lemma_after_padding, missing_scope,
    no_defect, yields, yields_view, State,
};

mod control;
mod expressions;
mod functions;
pub mod grammar;
pub mod laws;
mod lookups;
pub mod state;
mod terms;

verus! {

broadcast use crate::parser::state::group_extends;

/// `String::push` appends the character to the end of the string.
pub assume_specification[ std::string::String::push ](s: &mut std::string::String, ch: char)
    ensures
        final(s)@ == old(s)@.push(ch),
;

/// Parses the tokens of a script in a single pass.
pub struct Parser<'source> {
    ast: Ast,
    constants: ConstantPoolBuilder,
    lexer: Lexer<'source>,
    frame_stack: Vec<Frame>,
}

impl<'source> View for Parser<'source> {
    type V = State;

    closed spec fn view(&self) -> State {
        State {
            lexer: self.lexer@,
            nodes: self.ast@,
            constants: self.constants@,
            frames: views(self.frame_stack@),
        }
    }
}

/// How tightly an operator binds on its left and on its right, `None` for other tokens.
pub fn operator_precedence(op: Token) -> (result: Option<(u8, u8)>)
    ensures
        result == grammar::precedence(op),
{
    match op {
        Token::Or => Some((1, 2)),
        Token::And => Some((3, 4)),
        // Chained comparisons require right-associativity
        Token::Equal | Token::NotEqual => Some((8, 7)),
        Token::Greater | Token::GreaterOrEqual | Token::Less | Token::LessOrEqual => Some((10, 9)),
        Token::Add | Token::Subtract => Some((11, 12)),
        Token::Multiply | Token::Divide | Token::Modulo => Some((13, 14)),
        _ => None,
    }
}

/// The tokens that can stand after an operator.
pub fn token_is_whitespace(op: Token) -> (result: bool)
    ensures
        result == grammar::ends_operator(Some(op)),
{
    match op {
        Token::Whitespace | Token::NewLine | Token::NewLineIndented => true,
        _ => false,
    }
}

impl<'source> Parser<'source> {
    /// Parses a script.
    ///
    /// The nodes of the AST refer only to nodes before them and to constants of the pool, the last
    /// one is the main block, and the pool holds each constant once.
    pub fn parse(source: &'source LexedSource) -> (result: Result<(Ast, ConstantPool), ParserError>)
        requires
            source.well_formed(),
        ensures
            match result {
                Ok((ast, constants)) => {
                    &&& grammar::script(*source) == Ok::<
                        (Seq<AstNodeView>, Seq<ConstantView>, AstIndex),
                        ParserError,
                    >((ast@, constants@, ast.entry_point))
                    &&& nodes_in_order(ast@, constants@.len() as int)
                    &&& constants@.no_duplicates()
                    &&& ast.entry_point == ast@.len() - 1
                    &&& ast@.last().node is MainBlock
                },
                Err(e) => {
                    &&& grammar::script(*source) == Err::<
                        (Seq<AstNodeView>, Seq<ConstantView>, AstIndex),
                        ParserError,
                    >(e)
                    &&& !is_defect(e.error)
                },
            },
    {
        let capacity_guess: usize = source.tokens.len();
        let mut parser = Parser {
            ast: Ast::with_capacity(capacity_guess),
            constants: ConstantPoolBuilder::new(),
            lexer: Lexer::new(source),
            frame_stack: Vec::new(),
        };
        let ghost start = LexerView {
            tokens: source.tokens@,
            end_indent: source.end_indent,
            position: 0,
        };
        proof {
            assert(parser@ =~= State::start(start));
            reveal(State::well_formed);
            reveal(nodes_in_order);
        }
        let main_block = parser.parse_main_block()?;
        proof {
            lemma_main_block(State::start(start));
        }
        parser.ast.set_entry_point(main_block);
        Ok((parser.ast, parser.constants.pool))
    }

    /// The frame of the function that is being parsed.
    fn frame(&self) -> (result: Result<&Frame, ParserError>)
        ensures
            match result {
                Ok(frame) => self@.frames.len() > 0 && frame@ == self@.frames.last(),
                Err(e) => self@.frames.len() == 0 && e == missing_scope(),
            },
    {
        if self.frame_stack.len() == 0 {
            Err(
                ParserError {
                    error: ErrorType::InternalError(InternalError::MissingScope),
                    span: Span::default(),
                },
            )
        } else {
            Ok(&self.frame_stack[self.frame_stack.len() - 1])
        }
    }

    fn frame_mut(&mut self) -> (result: Result<&mut Frame, ParserError>)
        ensures
            match result {
                Ok(frame) => {
                    &&& old(self)@.frames.len() > 0
                    &&& frame@ == old(self)@.frames.last()
                    &&& final(self)@ == old(self)@.with_frame(final(frame)@)
                },
                Err(e) => {
                    &&& old(self)@.frames.len() == 0
                    &&& e == missing_scope()
                    &&& final(self)@ == old(self)@
                },
            },
    {
        let count: usize = self.frame_stack.len();
        if count == 0 {
            Err(
                ParserError {
                    error: ErrorType::InternalError(InternalError::MissingScope),
                    span: Span::default(),
                },
            )
        } else {
            Ok(&mut self.frame_stack[count - 1])
        }
    }

    /// An error of the source at the current token.
    fn syntax_error(&self, error: SyntaxError) -> (result: ParserError)
        requires
            self@.well_formed(),
        ensures
            result == (ParserError { error: ErrorType::SyntaxError(error), span: self@.span() }),
            !is_defect(result.error),
    {
        proof {
            reveal(is_defect);
            reveal(State::well_formed);
        }
        ParserError { error: ErrorType::SyntaxError(error), span: self.lexer.span() }
    }

    /// An error of the parser at the current token.
    fn internal_error(&self, error: InternalError) -> (result: ParserError)
        requires
            self@.well_formed(),
        ensures
            result == (ParserError { error: ErrorType::InternalError(error), span: self@.span() }),
            is_defect(result.error) == is_internal_defect(error),
    {
        proof {
            reveal(is_defect);
            reveal(State::well_formed);
        }
        ParserError { error: ErrorType::InternalError(error), span: self.lexer.span() }
    }

    fn span(&self) -> (span: Span)
        requires
            self@.well_formed(),
        ensures
            span == self@.span(),
    {
        proof {
            reveal(State::well_formed);
        }
        self.lexer.span()
    }

    fn line_number(&self) -> (line: u32)
        requires
            self@.well_formed(),
        ensures
            line == self@.line_number(),
    {
        proof {
            reveal(State::well_formed);
        }
        self.lexer.line_number()
    }

    fn current_indent(&self) -> (indent: usize)
        requires
            self@.well_formed(),
        ensures
            indent == self@.current_indent(),
    {
        proof {
            reveal(State::well_formed);
        }
        self.lexer.current_indent()
    }

    fn next_indent(&self) -> (indent: usize)
        requires
            self@.well_formed(),
        ensures
            indent == self@.next_indent(),
    {
        proof {
            reveal(State::well_formed);
        }
        self.lexer.next_indent()
    }

    fn peek_token(&self) -> (token: Option<Token>)
        requires
            self@.well_formed(),
        ensures
            token == self@.peek(),
    {
        proof {
            reveal(State::well_formed);
        }
        self.lexer.peek()
    }

    fn peek_token_n(&self, n: usize) -> (token: Option<Token>)
        requires
            self@.well_formed(),
        ensures
            token == self@.peek_n(n as int),
    {
        proof {
            reveal(State::well_formed);
        }
        self.lexer.peek_n(n)
    }

    fn next_token_is_lookup_start(&self) -> (result: bool)
        requires
            self@.well_formed(),
        ensures
            result == grammar::starts_lookup(self@.peek()),
    {
        match self.peek_token() {
            Some(Token::Dot) | Some(Token::ListStart) | Some(Token::ParenOpen) => true,
            _ => false,
        }
    }

    fn consume_token(&mut self) -> (token: Option<Token>)
        requires
            old(self)@.well_formed(),
        ensures
            token == old(self)@.peek(),
            final(self)@ == old(self)@.advance(),
            final(self)@.follows(old(self)@),
    {
        proof {
            reveal(State::well_formed);
        }
        let token = self.lexer.next();
        assert(self@ == old(self)@.advance());
        assert(self@.well_formed());
        assert(self@.remaining() <= old(self)@.remaining());
        assert(self@.lexer.tokens == old(self)@.lexer.tokens);
        token
    }

    /// The next token that isn't whitespace, a line break or a comment, without reading it.
    fn peek_until_next_token(&self) -> (token: Option<Token>)
        requires
            self@.well_formed(),
        ensures
            token == self@.skip_padding().peek(),
    {
        proof {
            reveal(State::skip_padding);
            reveal(State::well_formed);
        }
        let mut peek_count: usize = 0;
        loop
            invariant
                self@.lexer == self.lexer@,
                self.lexer@.well_formed(),
                self.lexer@.position + peek_count <= self.lexer@.tokens.len(),
                self@.skip_padding().lexer == after_padding(
                    LexerView { position: self.lexer@.position + peek_count, ..self.lexer@ },
                ),
            decreases self.lexer@.tokens.len() - peek_count,
        {
            let ghost ahead = LexerView {
                position: self.lexer@.position + peek_count,
                ..self.lexer@
            };
            let peeked = self.lexer.peek_n(peek_count);
            assert(peeked == ahead.peek());
            match peeked {
                Some(Token::Whitespace)
                | Some(Token::NewLine)
                | Some(Token::NewLineIndented)
                | Some(Token::NewLineSkipped)
                | Some(Token::CommentMulti)
                | Some(Token::CommentSingle) => {},
                Some(token) => return Some(token),
                None => return None,
            }
            assert(peek_count < self.lexer.source.tokens.len());
            peek_count = peek_count + 1;
        }
    }

    /// Reads up to the next token that isn't whitespace, a line break or a comment.
    fn consume_until_next_token(&mut self) -> (token: Option<Token>)
        requires
            old(self)@.well_formed(),
        ensures
            token == final(self)@.peek(),
            final(self)@ == old(self)@.skip_padding(),
            final(self)@.follows(old(self)@),
            is_padding(old(self)@.peek()) ==> final(self)@.remaining() < old(self)@.remaining(),
    {
        proof {
            reveal(State::skip_padding);
            lemma_skip_padding(self@);
        }
        loop
            invariant
                self@.well_formed(),
                self@.skip_padding() == old(self)@.skip_padding(),
                old(self)@.skip_padding().follows(old(self)@),
                is_padding(old(self)@.peek()) ==> old(self)@.skip_padding().remaining() < old(
                    self,
                )@.remaining(),
            decreases self@.remaining(),
        {
            proof {
                reveal(State::skip_padding);
            }
            match self.peek_token() {
                Some(Token::Whitespace)
                | Some(Token::NewLine)
                | Some(Token::NewLineIndented)
                | Some(Token::NewLineSkipped)
                | Some(Token::CommentMulti)
                | Some(Token::CommentSingle) => {},
                Some(token) => return Some(token),
                None => return None,
            }
            self.consume_token();
        }
    }

    /// Reads up to the next token that isn't whitespace within the line.
    fn skip_whitespace_and_peek(&mut self) -> (token: Option<Token>)
        requires
            old(self)@.well_formed(),
        ensures
            token == final(self)@.peek(),
            final(self)@ == old(self)@.skip_blanks(),
            final(self)@.follows(old(self)@),
            final(self)@.skip_blanks() == final(self)@,
            !is_blank(old(self)@.peek()) ==> final(self)@ == old(self)@,
    {
        proof {
            reveal(State::skip_blanks);
            lemma_skip_blanks(self@);
        }
        loop
            invariant
                self@.well_formed(),
                self@.skip_blanks() == old(self)@.skip_blanks(),
                old(self)@.skip_blanks().follows(old(self)@),
                old(self)@.skip_blanks().skip_blanks() == old(self)@.skip_blanks(),
            decreases self@.remaining(),
        {
            proof {
                reveal(State::skip_blanks);
            }
            match self.peek_token() {
                Some(Token::Whitespace) | Some(Token::NewLineSkipped) => {},
                Some(token) => return Some(token),
                None => return None,
            }
            self.consume_token();
        }
    }

    /// Reads the next token that isn't whitespace within the line.
    fn skip_whitespace_and_next(&mut self) -> (token: Option<Token>)
        requires
            old(self)@.well_formed(),
        ensures
            token == old(self)@.skip_blanks().peek(),
            final(self)@ == old(self)@.skip_blanks().advance(),
            final(self)@.follows(old(self)@),
            token is Some ==> final(self)@.remaining() < old(self)@.remaining(),
    {
        self.skip_whitespace_and_peek();
        self.consume_token()
    }

    /// Adds a string to the constants.
    fn add_string(&mut self, text: &str) -> (constant: ConstantIndex)
        requires
            old(self)@.well_formed(),
        ensures
            (final(self)@, constant) == old(self)@.add_string(text@),
            final(self)@.follows(old(self)@),
            final(self)@.remaining() == old(self)@.remaining(),
            constant < final(self)@.constants.len(),
    {
        proof {
            reveal(State::add_string);
            reveal(State::well_formed);
        }
        let index: usize = self.constants.add_string(text);
        proof {
            lemma_more_constants(old(self)@, self@);
        }
        #[verifier::truncate]
        (index as u32)
    }

    /// Adds a number to the constants.
    fn add_number(&mut self, bits: u64) -> (constant: ConstantIndex)
        requires
            old(self)@.well_formed(),
        ensures
            (final(self)@, constant) == old(self)@.add_number(bits),
            final(self)@.follows(old(self)@),
            final(self)@.remaining() == old(self)@.remaining(),
            constant < final(self)@.constants.len(),
    {
        proof {
            reveal(State::add_number);
            reveal(State::well_formed);
        }
        let index: usize = self.constants.add_number(bits);
        proof {
            lemma_more_constants(old(self)@, self@);
        }
        #[verifier::truncate]
        (index as u32)
    }

    fn push_node_with_span(&mut self, node: Node, span: Span) -> (result: Result<
        AstIndex,
        ParserError,
    >)
        requires
            old(self)@.well_formed(),
            node@.refers_below(
                old(self)@.nodes.len() as int,
                old(self)@.constants.len() as int,
            ),
        ensures
            yields(result, final(self)@, old(self)@.push(node@, span)),
            result matches Ok(index) ==> {
                &&& final(self)@.follows(old(self)@)
                &&& final(self)@.remaining() == old(self)@.remaining()
                &&& index < final(self)@.nodes.len()
            },
            no_defect(result),
    {
        proof {
            reveal(is_defect);
            reveal(State::push);
        }
        let result = self.ast.push(node, span);
        proof {
            if result is Ok {
                reveal(State::well_formed);
                reveal(nodes_in_order);
                reveal(State::extends);
                assert(old(self)@.nodes =~= self@.nodes.subrange(0, old(self)@.nodes.len() as int));
                assert(old(self)@.constants =~= self@.constants.subrange(
                    0,
                    old(self)@.constants.len() as int,
                ));
            }
        }
        result
    }

    fn push_node(&mut self, node: Node) -> (result: Result<AstIndex, ParserError>)
        requires
            old(self)@.well_formed(),
            node@.refers_below(
                old(self)@.nodes.len() as int,
                old(self)@.constants.len() as int,
            ),
        ensures
            yields(result, final(self)@, old(self)@.push_node(node@)),
            result matches Ok(index) ==> {
                &&& final(self)@.follows(old(self)@)
                &&& final(self)@.remaining() == old(self)@.remaining()
                &&& index < final(self)@.nodes.len()
            },
            no_defect(result),
    {
        proof {
            reveal(State::push_node);
        }
        let span = self.span();
        self.push_node_with_span(node, span)
    }

    fn push_node_with_start_span(&mut self, node: Node, start_span: Span) -> (result: Result<
        AstIndex,
        ParserError,
    >)
        requires
            old(self)@.well_formed(),
            node@.refers_below(
                old(self)@.nodes.len() as int,
                old(self)@.constants.len() as int,
            ),
        ensures
            yields(result, final(self)@, old(self)@.push_node_from(node@, start_span)),
            result matches Ok(index) ==> {
                &&& final(self)@.follows(old(self)@)
                &&& final(self)@.remaining() == old(self)@.remaining()
                &&& index < final(self)@.nodes.len()
            },
            no_defect(result),
    {
        proof {
            reveal(State::push_node_from);
        }
        let span = Span { start: start_span.start, end: self.span().end };
        self.push_node_with_span(node, span)
    }

    fn push_ast_op(&mut self, op: Token, lhs: AstIndex, rhs: AstIndex) -> (result: Result<
        AstIndex,
        ParserError,
    >)
        requires
            old(self)@.well_formed(),
            grammar::precedence(op) is Some,
            lhs < old(self)@.nodes.len(),
            rhs < old(self)@.nodes.len(),
        ensures
            yields(
                result,
                final(self)@,
                old(self)@.push_node(
                    (NodeView::BinaryOp { op: grammar::binary_op(op), lhs, rhs }),
                ),
            ),
            result matches Ok(index) ==> {
                &&& final(self)@.follows(old(self)@)
                &&& final(self)@.remaining() == old(self)@.remaining()
                &&& index < final(self)@.nodes.len()
            },
            no_defect(result),
    {
        let ast_op = match op {
            Token::Add => AstOp::Add,
            Token::Subtract => AstOp::Subtract,
            Token::Multiply => AstOp::Multiply,
            Token::Divide => AstOp::Divide,
            Token::Modulo => AstOp::Modulo,
            Token::Equal => AstOp::Equal,
            Token::NotEqual => AstOp::NotEqual,
            Token::Greater => AstOp::Greater,
            Token::GreaterOrEqual => AstOp::GreaterOrEqual,
            Token::Less => AstOp::Less,
            Token::LessOrEqual => AstOp::LessOrEqual,
            Token::And => AstOp::And,
            _ => AstOp::Or,
        };
        self.push_node(Node::BinaryOp { op: ast_op, lhs, rhs })
    }

    /// The text of the current token.
    fn slice(&self) -> (slice: &'source str)
        requires
            self@.well_formed(),
        ensures
            slice@ == self@.slice(),
    {
        proof {
            reveal(State::well_formed);
        }
        self.lexer.slice()
    }

    /// The value of the current token, where it is a number.
    fn number(&self) -> (number: Option<NumberLiteral>)
        requires
            self@.well_formed(),
        ensures
            number == self@.lexer.number(),
    {
        proof {
            reveal(State::well_formed);
        }
        self.lexer.number()
    }

    /// The number of tokens that have been read.
    fn position(&self) -> (position: usize)
        ensures
            position == self@.lexer.position,
    {
        self.lexer.position
    }

    /// The number of tokens in the source.
    fn token_count(&self) -> (count: usize)
        requires
            self@.well_formed(),
        ensures
            self@.remaining() <= count,
    {
        proof {
            reveal(State::well_formed);
        }
        self.lexer.source.tokens.len()
    }

    /// The source text from a position up to the current token.
    fn text_since(&self, position: usize) -> (text: String)
        requires
            self@.well_formed(),
            position <= self@.lexer.position,
        ensures
            text@ == self@.lexer.text_since(position as int),
    {
        proof {
            reveal(State::well_formed);
        }
        self.lexer.text_since(position)
    }

    fn node(&self, index: AstIndex) -> (node: &Node)
        requires
            index < self@.nodes.len(),
        ensures
            node@ == self@.node(index),
    {
        &self.ast.node(index).node
    }

    /// What is needed to return to the current token.
    fn reset_point(&self) -> (point: (Lexer<'source>, usize))
        ensures
            point.0@ == self@.lexer,
            point.1 == self@.nodes.len(),
    {
        (self.lexer, self.ast.reset_point())
    }

    /// Returns to an earlier token, and drops the nodes that were pushed since then.
    fn reset(&mut self, point: (Lexer<'source>, usize), Ghost(earlier): Ghost<State>)
        requires
            old(self)@.well_formed(),
            earlier.well_formed(),
            point.0@ == earlier.lexer,
            point.1 == earlier.nodes.len(),
        ensures
            final(self)@ == old(self)@.rewind(earlier),
            final(self)@.well_formed(),
    {
        proof {
            reveal(State::rewind);
        }
        self.lexer = point.0;
        self.ast.reset(point.1);
        proof {
            reveal(State::well_formed);
            reveal(nodes_in_order);
            assert(self@.nodes =~= old(self)@.rewind(earlier).nodes);
        }
    }

    /// Notes that an id has been read.
    fn access_id(&mut self, id: ConstantIndex) -> (result: Result<(), ParserError>)
        requires
            old(self)@.in_scope(),
            id < old(self)@.constants.len(),
        ensures
            yields(result, final(self)@, old(self)@.access_id(id)),
            result is Ok ==> final(self)@.differs_in_frames(old(self)@),
            no_defect(result),
    {
        proof {
            reveal(State::access_id);
        }
        if self.frame()?.access_count(id) == usize::MAX {
            return Err(self.internal_error(InternalError::AccessCountOverflow));
        }
        self.frame_mut()?.increment_expression_access_for_id(id);
        proof {
            lemma_with_frame(old(self)@, old(self)@.frames.last().access(id));
        }
        Ok(())
    }

    /// Notes that an id which has been read is the target of an assignment.
    fn take_back_id(&mut self, id: ConstantIndex) -> (result: Result<(), ParserError>)
        requires
            old(self)@.in_scope(),
            id < old(self)@.constants.len(),
        ensures
            yields(result, final(self)@, old(self)@.take_back_id(id)),
            result is Ok ==> final(self)@.differs_in_frames(old(self)@),
            no_defect(result),
    {
        proof {
            reveal(State::take_back_id);
        }
        // A count that is at zero can't go down
        if self.frame()?.access_count(id) == 0 {
            return Err(self.internal_error(InternalError::UnexpectedIdInExpression));
        }
        if self.frame_mut()?.decrement_expression_access_for_id(id).is_err() {
            return Err(self.internal_error(InternalError::UnexpectedIdInExpression));
        }
        proof {
            lemma_with_frame(old(self)@, old(self)@.frames.last().take_back_access(id));
        }
        Ok(())
    }

    /// Notes that the assignment to an id is complete.
    fn declare_id(&mut self, id: ConstantIndex) -> (result: Result<(), ParserError>)
        requires
            old(self)@.in_scope(),
            id < old(self)@.constants.len(),
        ensures
            yields(result, final(self)@, old(self)@.declare_id(id)),
            result is Ok ==> final(self)@.differs_in_frames(old(self)@),
            no_defect(result),
    {
        proof {
            reveal(State::declare_id);
        }
        self.frame_mut()?.declare_assigned_id(id);
        proof {
            lemma_with_frame(old(self)@, old(self)@.frames.last().declare(id));
        }
        Ok(())
    }

    /// Notes that an id has been assigned.
    fn assign_id(&mut self, id: ConstantIndex) -> (result: Result<(), ParserError>)
        requires
            old(self)@.in_scope(),
            id < old(self)@.constants.len(),
        ensures
            yields(result, final(self)@, old(self)@.assign_id(id)),
            result is Ok ==> final(self)@.differs_in_frames(old(self)@),
            no_defect(result),
    {
        proof {
            reveal(State::assign_id);
        }
        self.frame_mut()?.ids_assigned_in_scope.insert(id);
        proof {
            lemma_with_frame(old(self)@, old(self)@.frames.last().assign(id));
        }
        Ok(())
    }

    /// Notes that the current function yields.
    fn note_yield(&mut self) -> (result: Result<(), ParserError>)
        requires
            old(self)@.in_scope(),
        ensures
            yields(result, final(self)@, old(self)@.note_yield()),
            result is Ok ==> final(self)@.differs_in_frames(old(self)@),
            no_defect(result),
    {
        proof {
            reveal(State::note_yield);
        }
        self.frame_mut()?.contains_yield = true;
        proof {
            lemma_with_frame(
                old(self)@,
                FrameView { contains_yield: true, ..old(self)@.frames.last() },
            );
        }
        Ok(())
    }

    /// Notes that an expression is complete.
    fn finish_expressions(&mut self) -> (result: Result<(), ParserError>)
        requires
            old(self)@.in_scope(),
        ensures
            yields(result, final(self)@, old(self)@.finish_expressions()),
            result is Ok ==> final(self)@.differs_in_frames(old(self)@),
            no_defect(result),
    {
        proof {
            reveal(State::finish_expressions);
        }
        self.frame_mut()?.finish_expressions();
        proof {
            lemma_with_frame(old(self)@, old(self)@.frames.last().finish());
        }
        Ok(())
    }

    /// Enters a function with the given arguments.
    fn enter_function(&mut self, args: &Vec<ConstantIndex>)
        requires
            old(self)@.well_formed(),
            all_below(args@, old(self)@.constants.len() as int),
        ensures
            final(self)@ == old(self)@.push_frame(FrameView::empty().assign_all(args@)),
            final(self)@.well_formed(),
            final(self)@.extends(old(self)@),
    {
        let mut function_frame = Frame::default();
        function_frame.assign_all(args);
        proof {
            crate::ast::lemma_views_push(self.frame_stack@, function_frame);
            lemma_args_below(args@, old(self)@.constants.len() as int);
            lemma_push_frame(old(self)@, FrameView::empty().assign_all(args@));
        }
        self.frame_stack.push(function_frame);
    }

    /// Leaves the main block.
    fn leave_main_block(&mut self)
        requires
            old(self)@.well_formed(),
            old(self)@.frames.len() > 0,
        ensures
            final(self)@ == old(self)@.pop_frame(),
            final(self)@.well_formed(),
            final(self)@.extends(old(self)@),
    {
        self.frame_stack.pop();
        proof {
            assert(self@.frames =~= old(self)@.frames.drop_last());
            lemma_pop_frame(old(self)@);
        }
    }

    /// Leaves a function, whose frame is returned.
    fn leave_function(&mut self) -> (result: Result<Frame, ParserError>)
        requires
            old(self)@.well_formed(),
            old(self)@.frames.len() > 1,
        ensures
            yields_view(result, final(self)@, old(self)@.leave_function()),
            result matches Ok(frame) ==> {
                &&& final(self)@.well_formed()
                &&& final(self)@.extends(old(self)@)
                &&& frame@.ids_below(final(self)@.constants.len() as int)
                &&& final(self)@.lexer == old(self)@.lexer
                &&& final(self)@.nodes == old(self)@.nodes
                &&& final(self)@.constants == old(self)@.constants
                &&& final(self)@.frames.len() == old(self)@.frames.len() - 1
            },
            no_defect(result),
    {
        proof {
            reveal(State::leave_function);
        }
        let function_frame = match self.frame_stack.pop() {
            Some(frame) => frame,
            None => {
                return Err(self.internal_error(InternalError::MissingScope));
            },
        };
        proof {
            assert(self@.frames =~= old(self)@.frames.drop_last());
            lemma_pop_frame(old(self)@);
        }
        if !self.frame()?.can_access_nested(&function_frame) {
            return Err(self.internal_error(InternalError::AccessCountOverflow));
        }
        let ghost outer = self@;
        self.frame_mut()?.add_nested_accessed_non_locals(&function_frame);
        proof {
            lemma_with_frame(outer, outer.frames.last().access_all(function_frame@.non_locals));
        }
        Ok(function_frame)
    }

    /// Resolves the escapes in a quoted string.
    fn parse_string(&self, s: &str) -> (result: Result<String, ParserError>)
        requires
            self@.well_formed(),
            s@.len() >= 2,
        ensures
            yields_view(result, self@, grammar::string_content(self@, s@)),
            no_defect(result),
    {
        let length: usize = s.unicode_len();
        let without_quotes = s.substring_char(1, length - 1);
        let mut result = String::new();
        let mut chars = without_quotes.chars();
        let ghost text = without_quotes@;
        let ghost mut rest = text;
        loop
            invariant
                self@.well_formed(),
                text == s@.subrange(1, s@.len() - 1),
                chars.remaining() == rest,
                chars.obeys_prophetic_iter_laws(),
                match grammar::unescape(rest) {
                    Some(more) => grammar::unescape(text) == Some(result@ + more),
                    None => grammar::unescape(text) is None,
                },
            decreases rest.len(),
        {
            let ghost before = result@;
            let ghost start = rest;
            match chars.next() {
                None => {
                    return Ok(result);
                },
                Some('\\') => {
                    match chars.next() {
                        Some('\\') => result.push('\\'),
                        Some('\'') => result.push('\''),
                        Some('"') => result.push('"'),
                        Some('n') => result.push('\n'),
                        Some('r') => result.push('\r'),
                        Some('t') => result.push('\t'),
                        _ => {
                            return Err(self.syntax_error(SyntaxError::UnexpectedEscapeInString));
                        },
                    }
                    proof {
                        rest = start.skip(2);
                    }
                },
                Some(c) => {
                    result.push(c);
                    proof {
                        rest = start.skip(1);
                    }
                },
            }
        }
    }
}

/// The main block is the last node.
proof fn lemma_main_block(s: State)
    ensures
        grammar::main_block(s) matches Ok((end, index)) ==> {
            &&& end.nodes.len() > 0
            &&& index == end.nodes.len() - 1
            &&& end.nodes.last().node is MainBlock
        },
{
    reveal(State::push_node_from);
    reveal(State::push);
}

/// Skipping whitespace leads to a later state.
proof fn lemma_skip_blanks(s: State)
    requires
        s.well_formed(),
    ensures
        s.skip_blanks().follows(s),
        s.skip_blanks().skip_blanks() == s.skip_blanks(),
{
    reveal(State::well_formed);
    reveal(State::skip_blanks);
    lemma_after_blanks(s.lexer);
}

/// Skipping to the next token leads to a later state.
proof fn lemma_skip_padding(s: State)
    requires
        s.well_formed(),
    ensures
        s.skip_padding().follows(s),
        is_padding(s.peek()) ==> s.skip_padding().remaining() < s.remaining(),
{
    reveal(State::well_formed);
    reveal(State::skip_padding);
    lemma_after_padding(s.lexer);
}

/// A node refers to nodes of the AST and to constants of the pool.
proof fn lemma_node_in_order(s: State, index: AstIndex)
    requires
        s.well_formed(),
        index < s.nodes.len(),
        s.node(index) is Id,
    ensures
        s.node(index)->Id_0 < s.constants.len(),
{
    reveal(State::well_formed);
    reveal(nodes_in_order);
}

/// Returning to an earlier state's token keeps what only grows.
proof fn lemma_rewound(s: State, earlier: State)
    requires
        s.follows(earlier),
        s.rewind(earlier).well_formed(),
    ensures
        s.rewind(earlier).follows(earlier),
        s.rewind(earlier).remaining() == earlier.remaining(),
        s.rewind(earlier).nodes == earlier.nodes,
{
    reveal(State::rewind);
    reveal(State::extends);
    assert(s.rewind(earlier).nodes =~= earlier.nodes);
    assert(earlier.nodes =~= earlier.nodes.subrange(0, earlier.nodes.len() as int));
}

/// A later state stands at a later position.
proof fn lemma_position_follows(earlier: State, later: State)
    requires
        earlier.well_formed(),
        later.follows(earlier),
    ensures
        earlier.lexer.position <= later.lexer.position,
{
    reveal(State::well_formed);
}

/// A string token is at least two quotes long.
proof fn lemma_string_token(s: State)
    requires
        s.well_formed(),
        s.peek() == Some(Token::String),
    ensures
        s.advance().slice().len() >= 2,
{
    reveal(State::well_formed);
}

/// A frame that knows only ids of the pool can take the place of the innermost one.
proof fn lemma_with_frame(s: State, frame: FrameView)
    requires
        s.well_formed(),
        s.frames.len() > 0,
        s.frames.last().ids_below(s.constants.len() as int) ==> frame.ids_below(
            s.constants.len() as int,
        ),
    ensures
        s.with_frame(frame).well_formed(),
{
    reveal(State::well_formed);
}

proof fn lemma_push_frame(s: State, frame: FrameView)
    requires
        s.well_formed(),
        frame.ids_below(s.constants.len() as int),
    ensures
        s.push_frame(frame).well_formed(),
{
    reveal(State::well_formed);
}

proof fn lemma_pop_frame(s: State)
    requires
        s.well_formed(),
        s.frames.len() > 0,
    ensures
        s.pop_frame().well_formed(),
        s.frames.last().ids_below(s.constants.len() as int),
{
    reveal(State::well_formed);
}

proof fn lemma_args_below(args: Seq<ConstantIndex>, bound: int)
    requires
        all_below(args, bound),
    ensures
        FrameView::empty().assign_all(args).ids_below(bound),
{
    assert forall|id: ConstantIndex|
        #[trigger] FrameView::empty().assign_all(args).assigned.contains(id) implies id < bound by {
        let i = choose|i: int| 0 <= i < args.len() && args[i] == id;
        assert(args[i] < bound);
    }
}

/// More constants don't invalidate what refers to the earlier ones.
proof fn lemma_more_constants(before: State, after: State)
    requires
        before.well_formed(),
        after.lexer == before.lexer,
        after.nodes == before.nodes,
        after.frames == before.frames,
        before.constants.is_prefix_of(after.constants),
        after.constants.no_duplicates(),
    ensures
        after.well_formed(),
        after.extends(before),
{
    reveal(State::well_formed);
    reveal(nodes_in_order);
    reveal(State::extends);
    assert(before.nodes =~= after.nodes.subrange(0, before.nodes.len() as int));
}

} // verus!
