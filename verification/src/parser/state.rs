//! The state of a parse, and the steps that change it.
use vstd::prelude::*;

use crate::ast::{
    node_capacity, nodes_in_order, AstIndex, AstNodeView, ConstantIndex, NodeView,
};
use crate::constant_pool::{constant_position, with_constant, ConstantView};
use crate::error::{is_defect, ErrorType, InternalError, ParserError, SyntaxError};
use crate::frame::FrameView;
use crate::lexer::{LexerView, Span, Token};

verus! {

/// Everything that a parse has read and produced so far.
#[verifier::ext_equal]
pub struct State {
    pub lexer: LexerView,
    pub nodes: Seq<AstNodeView>,
    pub constants: Seq<ConstantView>,
    /// The frames of the functions that are being parsed, the innermost one last.
    pub frames: Seq<FrameView>,
}

/// What a step of a parse ends in: the state that it leaves and the value that it yields, or the
/// error that ends the parse.
pub type Parsed<T> = Result<(State, T), ParserError>;

/// Whitespace within a line.
pub open spec fn is_blank(token: Option<Token>) -> bool {
    ||| token == Some(Token::Whitespace)
    ||| token == Some(Token::NewLineSkipped)
}

/// Whitespace, line breaks and comments.
pub open spec fn is_padding(token: Option<Token>) -> bool {
    ||| token == Some(Token::Whitespace)
    ||| token == Some(Token::NewLine)
    ||| token == Some(Token::NewLineIndented)
    ||| token == Some(Token::NewLineSkipped)
    ||| token == Some(Token::CommentMulti)
    ||| token == Some(Token::CommentSingle)
}

/// The cursor after any whitespace within the line.
pub open spec fn after_blanks(lexer: LexerView) -> LexerView
    decreases lexer.remaining(),
{
    if is_blank(lexer.peek()) {
        after_blanks(lexer.advance())
    } else {
        lexer
    }
}

/// The cursor after any whitespace, line breaks and comments.
pub open spec fn after_padding(lexer: LexerView) -> LexerView
    decreases lexer.remaining(),
{
    if is_padding(lexer.peek()) {
        after_padding(lexer.advance())
    } else {
        lexer
    }
}

pub proof fn lemma_after_blanks(lexer: LexerView)
    requires
        lexer.position >= 0,
    ensures
        after_blanks(lexer).tokens == lexer.tokens,
        after_blanks(lexer).end_indent == lexer.end_indent,
        lexer.position <= after_blanks(lexer).position,
        lexer.position <= lexer.tokens.len() ==> after_blanks(lexer).position
            <= lexer.tokens.len(),
        after_blanks(lexer).remaining() <= lexer.remaining(),
        !is_blank(after_blanks(lexer).peek()),
        after_blanks(after_blanks(lexer)) == after_blanks(lexer),
    decreases lexer.remaining(),
{
    if is_blank(lexer.peek()) {
        lemma_after_blanks(lexer.advance());
    }
}

pub proof fn lemma_after_padding(lexer: LexerView)
    requires
        lexer.position >= 0,
    ensures
        after_padding(lexer).tokens == lexer.tokens,
        after_padding(lexer).end_indent == lexer.end_indent,
        lexer.position <= after_padding(lexer).position,
        lexer.position <= lexer.tokens.len() ==> after_padding(lexer).position
            <= lexer.tokens.len(),
        after_padding(lexer).remaining() <= lexer.remaining(),
        !is_padding(after_padding(lexer).peek()),
        after_padding(after_padding(lexer)) == after_padding(lexer),
        is_padding(lexer.peek()) ==> after_padding(lexer).remaining() < lexer.remaining(),
    decreases lexer.remaining(),
{
    if is_padding(lexer.peek()) {
        lemma_after_padding(lexer.advance());
    }
}

/// A syntax error at the current token.
pub open spec fn syntax_error<T>(s: State, error: SyntaxError) -> Parsed<T> {
    Err(ParserError { error: ErrorType::SyntaxError(error), span: s.span() })
}

/// An internal error at the current token.
pub open spec fn internal_error<T>(s: State, error: InternalError) -> Parsed<T> {
    Err(ParserError { error: ErrorType::InternalError(error), span: s.span() })
}

/// An error that belongs to no place in the source.
pub open spec fn missing_scope() -> ParserError {
    ParserError {
        error: ErrorType::InternalError(InternalError::MissingScope),
        span: crate::lexer::default_span(),
    }
}

impl State {
    /// The state at the start of a parse.
    pub open spec fn start(lexer: LexerView) -> State {
        State { lexer, nodes: Seq::empty(), constants: Seq::empty(), frames: Seq::empty() }
    }

    /// The number of tokens that are still to be read.
    pub open spec fn remaining(self) -> int {
        self.lexer.remaining()
    }

    pub open spec fn peek(self) -> Option<Token> {
        self.lexer.peek()
    }

    pub open spec fn peek_n(self, n: int) -> Option<Token> {
        self.lexer.peek_n(n)
    }

    pub open spec fn span(self) -> Span {
        self.lexer.span()
    }

    pub open spec fn slice(self) -> Seq<char> {
        self.lexer.slice()
    }

    pub open spec fn line_number(self) -> u32 {
        self.lexer.line_number()
    }

    pub open spec fn current_indent(self) -> usize {
        self.lexer.current_indent()
    }

    pub open spec fn next_indent(self) -> usize {
        self.lexer.next_indent()
    }

    pub open spec fn advance(self) -> State {
        State { lexer: self.lexer.advance(), ..self }
    }

    /// Skips whitespace within the line.
    #[verifier::opaque]
    pub open spec fn skip_blanks(self) -> State {
        State { lexer: after_blanks(self.lexer), ..self }
    }

    /// Skips to the next token that isn't whitespace, a line break or a comment.
    #[verifier::opaque]
    pub open spec fn skip_padding(self) -> State {
        State { lexer: after_padding(self.lexer), ..self }
    }

    /// Adds a string to the constants.
    #[verifier::opaque]
    pub open spec fn add_string(self, text: Seq<char>) -> (State, ConstantIndex) {
        let constants = with_constant(self.constants, ConstantView::Str(text));
        (
            State { constants, ..self },
            constant_position(constants, ConstantView::Str(text)) as usize as u32,
        )
    }

    /// Adds a number to the constants.
    #[verifier::opaque]
    pub open spec fn add_number(self, bits: u64) -> (State, ConstantIndex) {
        let constants = with_constant(self.constants, ConstantView::Number(bits));
        (
            State { constants, ..self },
            constant_position(constants, ConstantView::Number(bits)) as usize as u32,
        )
    }

    /// Pushes a node with the given span.
    #[verifier::opaque]
    pub open spec fn push(self, node: NodeView, span: Span) -> Parsed<AstIndex> {
        if self.nodes.len() < node_capacity() {
            Ok(
                (
                    State { nodes: self.nodes.push(AstNodeView { node, span }), ..self },
                    self.nodes.len() as u32,
                ),
            )
        } else {
            Err(
                ParserError {
                    error: ErrorType::InternalError(InternalError::AstCapacityOverflow),
                    span,
                },
            )
        }
    }

    /// Pushes a node with the span of the current token.
    #[verifier::opaque]
    pub open spec fn push_node(self, node: NodeView) -> Parsed<AstIndex> {
        self.push(node, self.span())
    }

    /// Pushes a node that reaches from the start of a span to the end of the current token.
    #[verifier::opaque]
    pub open spec fn push_node_from(self, node: NodeView, start_span: Span) -> Parsed<AstIndex> {
        self.push(node, Span { start: start_span.start, end: self.span().end })
    }

    /// The node as the last step's result.
    pub open spec fn push_some(self, node: NodeView) -> Parsed<Option<AstIndex>> {
        some(self.push_node(node))
    }

    pub open spec fn push_some_from(self, node: NodeView, start_span: Span) -> Parsed<
        Option<AstIndex>,
    > {
        some(self.push_node_from(node, start_span))
    }

    /// The node at an index.
    pub open spec fn node(self, index: AstIndex) -> NodeView {
        self.nodes[index as int].node
    }

    /// Returns to where another state's lexer stood, and drops the nodes pushed since then.
    #[verifier::opaque]
    pub open spec fn rewind(self, to: State) -> State {
        State {
            lexer: to.lexer,
            nodes: if to.nodes.len() <= self.nodes.len() {
                self.nodes.take(to.nodes.len() as int)
            } else {
                self.nodes
            },
            ..self
        }
    }

    pub open spec fn push_frame(self, frame: FrameView) -> State {
        State { frames: self.frames.push(frame), ..self }
    }

    pub open spec fn pop_frame(self) -> State {
        State { frames: self.frames.drop_last(), ..self }
    }

    /// Replaces the innermost frame.
    pub open spec fn with_frame(self, frame: FrameView) -> State {
        State { frames: self.frames.update(self.frames.len() - 1, frame), ..self }
    }

    /// Notes that an id has been read.
    #[verifier::opaque]
    pub open spec fn access_id(self, id: ConstantIndex) -> Parsed<()> {
        if self.frames.len() == 0 {
            Err(missing_scope())
        } else if self.frames.last().access_count(id) >= usize::MAX {
            internal_error(self, InternalError::AccessCountOverflow)
        } else {
            Ok((self.with_frame(self.frames.last().access(id)), ()))
        }
    }

    /// Notes that an id which has been read is the target of an assignment.
    #[verifier::opaque]
    pub open spec fn take_back_id(self, id: ConstantIndex) -> Parsed<()> {
        if self.frames.len() == 0 {
            Err(missing_scope())
        } else if self.frames.last().access_count(id) == 0 {
            internal_error(self, InternalError::UnexpectedIdInExpression)
        } else {
            Ok((self.with_frame(self.frames.last().take_back_access(id)), ()))
        }
    }

    /// Notes that the assignment to an id is complete.
    #[verifier::opaque]
    pub open spec fn declare_id(self, id: ConstantIndex) -> Parsed<()> {
        if self.frames.len() == 0 {
            Err(missing_scope())
        } else {
            Ok((self.with_frame(self.frames.last().declare(id)), ()))
        }
    }

    /// Notes that an id has been assigned.
    #[verifier::opaque]
    pub open spec fn assign_id(self, id: ConstantIndex) -> Parsed<()> {
        if self.frames.len() == 0 {
            Err(missing_scope())
        } else {
            Ok((self.with_frame(self.frames.last().assign(id)), ()))
        }
    }

    /// Notes that the current function yields.
    #[verifier::opaque]
    pub open spec fn note_yield(self) -> Parsed<()> {
        if self.frames.len() == 0 {
            Err(missing_scope())
        } else {
            Ok((self.with_frame(FrameView { contains_yield: true, ..self.frames.last() }), ()))
        }
    }

    /// Notes that an expression is complete.
    #[verifier::opaque]
    pub open spec fn finish_expressions(self) -> Parsed<()> {
        if self.frames.len() == 0 {
            Err(missing_scope())
        } else {
            Ok((self.with_frame(self.frames.last().finish()), ()))
        }
    }

    /// Leaves a function: its frame is popped, and what it has accessed counts as accessed by the
    /// function around it.
    #[verifier::opaque]
    pub open spec fn leave_function(self) -> Parsed<FrameView> {
        if self.frames.len() == 0 {
            internal_error(self, InternalError::MissingScope)
        } else {
            let nested = self.frames.last();
            let outer = self.pop_frame();
            if outer.frames.len() == 0 {
                Err(missing_scope())
            } else if !outer.frames.last().can_access(nested.non_locals) {
                internal_error(outer, InternalError::AccessCountOverflow)
            } else {
                Ok((outer.with_frame(outer.frames.last().access_all(nested.non_locals)), nested))
            }
        }
    }

    /// The lexer stands within its source, every node refers to earlier nodes and to constants of
    /// the pool, the pool holds each constant once, and the frames know only ids of the pool.
    #[verifier::opaque]
    pub open spec fn well_formed(self) -> bool {
        &&& self.lexer.well_formed()
        &&& nodes_in_order(self.nodes, self.constants.len() as int)
        &&& self.constants.no_duplicates()
        &&& forall|i: int|
            0 <= i < self.frames.len() ==> (#[trigger] self.frames[i]).ids_below(
                self.constants.len() as int,
            )
    }

    /// The state is well-formed, and stands within a function or the main block.
    pub open spec fn in_scope(self) -> bool {
        &&& self.well_formed()
        &&& self.frames.len() > 0
    }

    /// The nodes and constants of an earlier state are still there, under the same indices.
    #[verifier::opaque]
    pub open spec fn extends(self, earlier: State) -> bool {
        &&& earlier.nodes.is_prefix_of(self.nodes)
        &&& earlier.constants.is_prefix_of(self.constants)
    }

    /// Only the frames have changed, none was added or removed.
    pub open spec fn differs_in_frames(self, earlier: State) -> bool {
        &&& self.well_formed()
        &&& self.extends(earlier)
        &&& self.lexer == earlier.lexer
        &&& self.nodes == earlier.nodes
        &&& self.constants == earlier.constants
        &&& self.frames.len() == earlier.frames.len()
    }

    /// The state can be reached from `earlier`: nothing has been unread, and no frame, node or
    /// constant was lost.
    pub open spec fn follows(self, earlier: State) -> bool {
        &&& self.well_formed()
        &&& self.extends(earlier)
        &&& self.lexer.tokens == earlier.lexer.tokens
        &&& self.remaining() <= earlier.remaining()
        &&& earlier.nodes.len() <= self.nodes.len()
        &&& earlier.constants.len() <= self.constants.len()
        &&& self.frames.len() == earlier.frames.len()
    }
}

/// No step goes back, and only reading moves the lexer on.
pub broadcast proof fn lemma_skip_blanks_remaining(s: State)
    ensures
        (#[trigger] s.skip_blanks()).remaining() <= s.remaining(),
{
    reveal(State::skip_blanks);
    lemma_after_blanks_remaining(s.lexer);
}

pub broadcast proof fn lemma_skip_padding_remaining(s: State)
    ensures
        (#[trigger] s.skip_padding()).remaining() <= s.remaining(),
        is_padding(s.peek()) ==> s.skip_padding().remaining() < s.remaining(),
{
    reveal(State::skip_padding);
    lemma_after_padding_remaining(s.lexer);
}

proof fn lemma_after_blanks_remaining(lexer: LexerView)
    ensures
        after_blanks(lexer).remaining() <= lexer.remaining(),
    decreases lexer.remaining(),
{
    if is_blank(lexer.peek()) {
        lemma_after_blanks_remaining(lexer.advance());
    }
}

proof fn lemma_after_padding_remaining(lexer: LexerView)
    ensures
        after_padding(lexer).remaining() <= lexer.remaining(),
        is_padding(lexer.peek()) ==> after_padding(lexer).remaining() < lexer.remaining(),
    decreases lexer.remaining(),
{
    if is_padding(lexer.peek()) {
        lemma_after_padding_remaining(lexer.advance());
    }
}

pub broadcast proof fn lemma_add_string_lexer(s: State, text: Seq<char>)
    ensures
        (#[trigger] s.add_string(text)).0.lexer == s.lexer,
{
    reveal(State::add_string);
}

pub broadcast proof fn lemma_add_number_lexer(s: State, bits: u64)
    ensures
        (#[trigger] s.add_number(bits)).0.lexer == s.lexer,
{
    reveal(State::add_number);
}

pub broadcast proof fn lemma_push_node_lexer(s: State, node: NodeView)
    ensures
        (#[trigger] s.push_node(node)) matches Ok((t, _)) ==> t.lexer == s.lexer,
{
    reveal(State::push_node);
    reveal(State::push);
}

pub broadcast proof fn lemma_push_node_from_lexer(s: State, node: NodeView, start_span: Span)
    ensures
        (#[trigger] s.push_node_from(node, start_span)) matches Ok((t, _)) ==> t.lexer == s.lexer,
{
    reveal(State::push_node_from);
    reveal(State::push);
}

pub broadcast proof fn lemma_access_id_lexer(s: State, id: ConstantIndex)
    ensures
        (#[trigger] s.access_id(id)) matches Ok((t, _)) ==> t.lexer == s.lexer,
{
    reveal(State::access_id);
}

pub broadcast proof fn lemma_assign_id_lexer(s: State, id: ConstantIndex)
    ensures
        (#[trigger] s.assign_id(id)) matches Ok((t, _)) ==> t.lexer == s.lexer,
{
    reveal(State::assign_id);
}

pub broadcast proof fn lemma_rewind_lexer(s: State, to: State)
    ensures
        (#[trigger] s.rewind(to)).lexer == to.lexer,
{
    reveal(State::rewind);
}

/// How far each step moves the lexer.
pub broadcast group group_steps {
    lemma_skip_blanks_remaining,
    lemma_skip_padding_remaining,
    lemma_add_string_lexer,
    lemma_add_number_lexer,
    lemma_push_node_lexer,
    lemma_push_node_from_lexer,
    lemma_access_id_lexer,
    lemma_assign_id_lexer,
    lemma_rewind_lexer,
}

/// What is kept from one state to the next is kept over both steps.
pub broadcast proof fn lemma_extends_steps(a: State, b: State, c: State)
    requires
        #[trigger] b.extends(a),
        #[trigger] c.extends(b),
    ensures
        c.extends(a),
{
    reveal(State::extends);
    assert(a.nodes =~= c.nodes.subrange(0, a.nodes.len() as int));
    assert(a.constants =~= c.constants.subrange(0, a.constants.len() as int));
}

/// A state with the same nodes and constants keeps all of them.
pub broadcast proof fn lemma_extends_same(a: State, b: State)
    requires
        a.nodes == b.nodes,
        a.constants == b.constants,
    ensures
        #[trigger] b.extends(a),
{
    reveal(State::extends);
    assert(a.nodes =~= b.nodes.subrange(0, a.nodes.len() as int));
    assert(a.constants =~= b.constants.subrange(0, a.constants.len() as int));
}

/// What is kept from one state to another.
pub broadcast group group_extends {
    lemma_extends_steps,
    lemma_extends_same,
}

/// The yielded value as an option.
pub open spec fn some<T>(parsed: Parsed<T>) -> Parsed<Option<T>> {
    match parsed {
        Err(e) => Err(e),
        Ok((s, v)) => Ok((s, Some(v))),
    }
}

/// The error of a step that has gone back, or hasn't read a token where it has to.
///
/// The grammar's recursion is well-founded because such a step would end the parse. There is none:
/// the error is one of those that no source leads to.
pub open spec fn stuck<T>(s: State) -> Parsed<T> {
    internal_error(s, InternalError::UnexpectedToken)
}

/// A step from `s` that reads at least one token if it yields something.
pub open spec fn optional<T>(s: State, parsed: Parsed<Option<T>>) -> Parsed<Option<T>> {
    match parsed {
        Err(e) => Err(e),
        Ok((t, v)) => if t.remaining() < s.remaining() || (v is None && t.remaining()
            == s.remaining()) {
            Ok((t, v))
        } else {
            stuck(s)
        },
    }
}

/// A step from `s` that reads any number of tokens.
pub open spec fn any<T>(s: State, parsed: Parsed<T>) -> Parsed<T> {
    match parsed {
        Err(e) => Err(e),
        Ok((t, v)) => if t.remaining() <= s.remaining() {
            Ok((t, v))
        } else {
            stuck(s)
        },
    }
}

/// A step from `s` that reads at least one token.
pub open spec fn some_tokens<T>(s: State, parsed: Parsed<T>) -> Parsed<T> {
    match parsed {
        Err(e) => Err(e),
        Ok((t, v)) => if t.remaining() < s.remaining() {
            Ok((t, v))
        } else {
            stuck(s)
        },
    }
}

/// A step's outcome is the expected one.
pub open spec fn yields<T>(
    result: Result<T, ParserError>,
    end: State,
    expected: Parsed<T>,
) -> bool {
    match result {
        Ok(v) => expected == Ok::<(State, T), ParserError>((end, v)),
        Err(e) => expected == Err::<(State, T), ParserError>(e),
    }
}

/// A step's outcome is the expected one, seen through the view of its value.
pub open spec fn yields_view<T: View>(
    result: Result<T, ParserError>,
    end: State,
    expected: Parsed<T::V>,
) -> bool {
    match result {
        Ok(v) => expected == Ok::<(State, T::V), ParserError>((end, v@)),
        Err(e) => expected == Err::<(State, T::V), ParserError>(e),
    }
}

/// The step hasn't run into a defect of the parser.
pub open spec fn no_defect<T>(result: Result<T, ParserError>) -> bool {
    result matches Err(e) ==> !is_defect(e.error)
}

/// The state that a successful step leaves follows the one that it started in, and the node that
/// it yields is part of it.
pub open spec fn reaches(
    result: Result<Option<AstIndex>, ParserError>,
    start: State,
    end: State,
) -> bool {
    result matches Ok(index) ==> {
        &&& end.follows(start)
        &&& index matches Some(i) ==> i < end.nodes.len()
    }
}

/// As `reaches`, and a step that yields a node has read at least one token.
pub open spec fn reads(
    result: Result<Option<AstIndex>, ParserError>,
    start: State,
    end: State,
) -> bool {
    &&& reaches(result, start, end)
    &&& result matches Ok(Some(_)) ==> end.remaining() < start.remaining()
}

} // verus!
