//! What the cursor reads, and what each step changes.
use vstd::prelude::*;

use crate::ast::{AstIndex, NodeView};
use crate::constant_pool::ConstantView;
use crate::error::InternalError;
use crate::lexer::{LexerView, Span, Token};
use crate::parser::laws::outcomes::{
    adds, adds_index, between, breaks_off, gives, misses_scope, sets_frame,
};
use crate::parser::state::{
    after_blanks, internal_error, is_blank, is_padding, lemma_after_blanks, syntax_error, State,
};

verus! {

/// The next token is the one that the cursor stands before, and once it has been read everything
/// that the cursor reports is taken from it.
pub proof fn law_cursor_reads(lexer: LexerView)
    requires
        0 <= lexer.position < lexer.tokens.len(),
    ensures
        ({
            let token = lexer.tokens[lexer.position];
            let after = lexer.advance();
            &&& lexer.peek() == Some(token.token)
            &&& lexer.next_indent() == token.indent
            &&& lexer.remaining() == lexer.tokens.len() - lexer.position
            &&& after.position == lexer.position + 1
            &&& after.tokens == lexer.tokens
            &&& after.end_indent == lexer.end_indent
            &&& after.span() == token.span
            &&& after.slice() == token.text@
            &&& after.line_number() == token.line
            &&& after.current_indent() == token.indent
            &&& after.number() == token.number
        }),
{
}

/// Behind the last token there is nothing to read.
pub proof fn law_cursor_at_end(lexer: LexerView)
    requires
        lexer.position == lexer.tokens.len(),
    ensures
        lexer.peek() is None,
        lexer.advance() == lexer,
        lexer.next_indent() == lexer.end_indent,
        lexer.remaining() == 0,
{
}

/// Before the first token the cursor stands on the first line, without indentation.
pub proof fn law_cursor_at_start(lexer: LexerView)
    requires
        lexer.position == 0,
    ensures
        lexer.span().start.line == 1,
        lexer.span().start.column == 1,
        lexer.span().end == lexer.span().start,
        lexer.slice() == Seq::<char>::empty(),
        lexer.line_number() == 1,
        lexer.current_indent() == 0,
        lexer.number() is None,
{
}

/// Looking ahead finds the token that would be next after that many reads.
pub proof fn law_peek_ahead(lexer: LexerView, n: int)
    requires
        0 <= lexer.position,
        0 <= n,
    ensures
        lexer.position + n < lexer.tokens.len() ==> lexer.peek_n(n) == Some(
            lexer.tokens[lexer.position + n].token,
        ),
        lexer.position + n >= lexer.tokens.len() ==> lexer.peek_n(n) is None,
        lexer.peek_n(0) == lexer.peek(),
        lexer.position < lexer.tokens.len() ==> lexer.advance().peek_n(n) == lexer.peek_n(n + 1),
{
}

/// The source text grows by the text of each token that is read.
pub proof fn law_text_grows(lexer: LexerView, from: int)
    requires
        0 <= from <= lexer.position < lexer.tokens.len(),
    ensures
        lexer.text_since(lexer.position) == Seq::<char>::empty(),
        lexer.advance().text_since(from) == lexer.text_since(from)
            + lexer.tokens[lexer.position].text@,
{
    let after = lexer.advance();
    assert(LexerView { position: after.position - 1, ..after } == lexer);
}

/// What a state reports is what its cursor reports, and reading a token moves the cursor only.
pub proof fn law_state_cursor(s: State, n: int)
    ensures
        s.peek() == s.lexer.peek(),
        s.peek_n(n) == s.lexer.peek_n(n),
        s.span() == s.lexer.span(),
        s.slice() == s.lexer.slice(),
        s.line_number() == s.lexer.line_number(),
        s.current_indent() == s.lexer.current_indent(),
        s.next_indent() == s.lexer.next_indent(),
        s.remaining() == s.lexer.remaining(),
        s.advance().lexer == s.lexer.advance(),
        s.advance().nodes == s.nodes,
        s.advance().constants == s.constants,
        s.advance().frames == s.frames,
{
}

/// A parse starts with nothing but its cursor.
pub proof fn law_start(lexer: LexerView)
    ensures
        State::start(lexer).lexer == lexer,
        State::start(lexer).nodes.len() == 0,
        State::start(lexer).constants.len() == 0,
        State::start(lexer).frames.len() == 0,
{
}

/// Whitespace is blank, and so is a line break that is skipped. Line breaks and comments are
/// padding without being blank. No other token is either.
pub proof fn law_padding_tokens(token: Token)
    ensures
        !is_blank(None),
        !is_padding(None),
        is_blank(Some(token)) ==> is_padding(Some(token)),
        is_blank(Some(Token::Whitespace)),
        is_blank(Some(Token::NewLineSkipped)),
        is_padding(Some(Token::NewLine)) && !is_blank(Some(Token::NewLine)),
        is_padding(Some(Token::NewLineIndented)) && !is_blank(Some(Token::NewLineIndented)),
        is_padding(Some(Token::CommentSingle)) && !is_blank(Some(Token::CommentSingle)),
        is_padding(Some(Token::CommentMulti)) && !is_blank(Some(Token::CommentMulti)),
        token != Token::Whitespace && token != Token::NewLineSkipped && token != Token::NewLine
            && token != Token::NewLineIndented && token != Token::CommentSingle && token
            != Token::CommentMulti ==> !is_padding(Some(token)),
{
}

/// Skipping blanks reads up to the first token that isn't blank, and moves the cursor only.
pub proof fn law_skipped_blanks(s: State)
    requires
        s.lexer.position >= 0,
    ensures
        ({
            let next = s.skip_blanks();
            let distance = next.lexer.position - s.lexer.position;
            &&& distance >= 0
            &&& next.peek() == s.peek_n(distance)
            &&& !is_blank(next.peek())
            &&& forall|n: int| 0 <= n < distance ==> is_blank(#[trigger] s.peek_n(n))
            &&& next.lexer.tokens == s.lexer.tokens
            &&& next.lexer.end_indent == s.lexer.end_indent
            &&& next.nodes == s.nodes
            &&& next.constants == s.constants
            &&& next.frames == s.frames
        }),
{
    reveal(State::skip_blanks);
    lemma_after_blanks(s.lexer);
    lemma_blanks_ahead(s.lexer);
    let distance = s.skip_blanks().lexer.position - s.lexer.position;
    assert forall|n: int| 0 <= n < distance implies is_blank(#[trigger] s.peek_n(n)) by {
        assert(is_blank(s.lexer.peek_n(n)));
    }
}

proof fn lemma_blanks_ahead(lexer: LexerView)
    requires
        lexer.position >= 0,
    ensures
        forall|n: int|
            0 <= n < after_blanks(lexer).position - lexer.position ==> is_blank(
                #[trigger] lexer.peek_n(n),
            ),
    decreases lexer.remaining(),
{
    if is_blank(lexer.peek()) {
        lemma_blanks_ahead(lexer.advance());
        assert forall|n: int|
            0 <= n < after_blanks(lexer).position - lexer.position implies is_blank(
            #[trigger] lexer.peek_n(n),
        ) by {
            if n > 0 {
                assert(lexer.advance().peek_n(n - 1) == lexer.peek_n(n));
            }
        }
    }
}

/// A string that is added is found under the index that it gets. One that is there already is
/// shared, and nothing else changes.
pub proof fn law_added_string(s: State, text: Seq<char>)
    ensures
        ({
            let (t, constant) = s.add_string(text);
            &&& t.lexer == s.lexer
            &&& t.nodes == s.nodes
            &&& t.frames == s.frames
            &&& s.constants.contains(ConstantView::Str(text)) ==> t.constants == s.constants
            &&& !s.constants.contains(ConstantView::Str(text)) ==> t.constants == s.constants.push(
                ConstantView::Str(text),
            )
            &&& t.constants.len() <= 0x1_0000_0000 ==> constant < t.constants.len()
                && t.constants[constant as int] == ConstantView::Str(text)
        }),
{
    reveal(State::add_string);
    let constants = s.add_string(text).0.constants;
    if !s.constants.contains(ConstantView::Str(text)) {
        assert(constants[s.constants.len() as int] == ConstantView::Str(text));
    }
    assert(constants.contains(ConstantView::Str(text)));
}

/// A number that is added is found under the index that it gets. One that is there already is
/// shared, and nothing else changes.
pub proof fn law_added_number(s: State, bits: u64)
    ensures
        ({
            let (t, constant) = s.add_number(bits);
            &&& t.lexer == s.lexer
            &&& t.nodes == s.nodes
            &&& t.frames == s.frames
            &&& s.constants.contains(ConstantView::Number(bits)) ==> t.constants == s.constants
            &&& !s.constants.contains(ConstantView::Number(bits)) ==> t.constants
                == s.constants.push(ConstantView::Number(bits))
            &&& t.constants.len() <= 0x1_0000_0000 ==> constant < t.constants.len()
                && t.constants[constant as int] == ConstantView::Number(bits)
        }),
{
    reveal(State::add_number);
    let constants = s.add_number(bits).0.constants;
    if !s.constants.contains(ConstantView::Number(bits)) {
        assert(constants[s.constants.len() as int] == ConstantView::Number(bits));
    }
    assert(constants.contains(ConstantView::Number(bits)));
}

/// A node is added behind the others, with the span of the token that was read last, or with one
/// that reaches from an earlier token to it.
pub proof fn law_added_node(s: State, node: NodeView, from: Span)
    ensures
        adds_index(s.push_node(node), s, node, s.span()),
        adds_index(s.push_node_from(node, from), s, node, between(from, s.span())),
        adds(s.push_some(node), s, node, s.span()),
        adds(s.push_some_from(node, from), s, node, between(from, s.span())),
        adds_index(s.push(node, from), s, node, from),
{
    reveal(State::push);
    reveal(State::push_node);
    reveal(State::push_node_from);
}

/// The node at an index is the one that was added as that many others were there.
pub proof fn law_node_at(s: State, index: AstIndex)
    ensures
        s.node(index) == s.nodes[index as int].node,
{
}

/// Going back to an earlier state takes back what was read and the nodes that were added. Constants
/// and frames stay as they are.
pub proof fn law_rewind(s: State, earlier: State)
    requires
        s.extends(earlier),
    ensures
        s.rewind(earlier).lexer == earlier.lexer,
        s.rewind(earlier).nodes == earlier.nodes,
        s.rewind(earlier).constants == s.constants,
        s.rewind(earlier).frames == s.frames,
{
    reveal(State::rewind);
    reveal(State::extends);
    assert(s.rewind(earlier).nodes =~= earlier.nodes);
}

/// A state that extends another has its nodes and constants under the same indices.
pub proof fn law_extends(s: State, earlier: State, i: int)
    requires
        s.extends(earlier),
    ensures
        earlier.nodes.len() <= s.nodes.len(),
        earlier.constants.len() <= s.constants.len(),
        0 <= i < earlier.nodes.len() ==> s.nodes[i] == earlier.nodes[i],
        0 <= i < earlier.constants.len() ==> s.constants[i] == earlier.constants[i],
{
    reveal(State::extends);
    if 0 <= i < earlier.nodes.len() {
        assert(s.nodes.subrange(0, earlier.nodes.len() as int)[i] == s.nodes[i]);
    }
    if 0 <= i < earlier.constants.len() {
        assert(s.constants.subrange(0, earlier.constants.len() as int)[i] == s.constants[i]);
    }
}

/// Errors carry the span of the token that was read last.
pub proof fn law_error_spans(
    s: State,
    error: crate::error::SyntaxError,
    internal: InternalError,
)
    ensures
        crate::parser::laws::outcomes::refuses(syntax_error::<()>(s, error), s, error),
        breaks_off(internal_error::<()>(s, internal), s, internal),
{
}

/// Reading an id raises its count in the innermost frame, unless the count is at its limit.
pub proof fn law_accessed_id(s: State, id: u32)
    ensures
        s.frames.len() == 0 ==> misses_scope(s.access_id(id)),
        s.frames.len() > 0 && s.frames.last().access_count(id) < usize::MAX ==> sets_frame(
            s.access_id(id),
            s,
            s.frames.last().access(id),
        ),
        s.frames.len() > 0 && s.frames.last().access_count(id) == usize::MAX ==> breaks_off(
            s.access_id(id),
            s,
            InternalError::AccessCountOverflow,
        ),
{
    reveal(State::access_id);
}

/// An assignment lowers the count of its target in the innermost frame, and declares it there once
/// its value is known.
pub proof fn law_assigned_id(s: State, id: u32)
    ensures
        s.frames.len() == 0 ==> misses_scope(s.take_back_id(id)) && misses_scope(s.declare_id(id))
            && misses_scope(s.assign_id(id)),
        s.frames.len() > 0 && s.frames.last().access_count(id) > 0 ==> sets_frame(
            s.take_back_id(id),
            s,
            s.frames.last().take_back_access(id),
        ),
        s.frames.len() > 0 && s.frames.last().access_count(id) == 0 ==> breaks_off(
            s.take_back_id(id),
            s,
            InternalError::UnexpectedIdInExpression,
        ),
        s.frames.len() > 0 ==> sets_frame(s.declare_id(id), s, s.frames.last().declare(id)),
        s.frames.len() > 0 ==> sets_frame(s.assign_id(id), s, s.frames.last().assign(id)),
{
    reveal(State::take_back_id);
    reveal(State::declare_id);
    reveal(State::assign_id);
}

/// A yield makes the innermost function a generator, and changes nothing else of it.
pub proof fn law_noted_yield(s: State)
    ensures
        s.frames.len() == 0 ==> misses_scope(s.note_yield()),
        s.frames.len() > 0 ==> {
            &&& s.note_yield() matches Ok((t, _)) && t.frames.last().contains_yield
            &&& sets_frame(s.note_yield(), s, s.note_yield()->Ok_0.0.frames.last())
            &&& s.note_yield()->Ok_0.0.frames.last().assigned == s.frames.last().assigned
            &&& s.note_yield()->Ok_0.0.frames.last().non_locals == s.frames.last().non_locals
            &&& s.note_yield()->Ok_0.0.frames.last().accesses == s.frames.last().accesses
        },
{
    reveal(State::note_yield);
}

/// The end of an expression is noted in the innermost frame.
pub proof fn law_finished_expressions(s: State)
    ensures
        s.frames.len() == 0 ==> misses_scope(s.finish_expressions()),
        s.frames.len() > 0 ==> sets_frame(s.finish_expressions(), s, s.frames.last().finish()),
{
    reveal(State::finish_expressions);
}

/// Leaving a function hands out its frame and leaves the frames around it, in the innermost of
/// which each id that the function captures counts as read once more.
pub proof fn law_left_function(s: State)
    requires
        s.frames.len() > 1,
    ensures
        ({
            let inner = s.frames.last();
            let outer = s.frames[s.frames.len() - 2];
            if outer.can_access(inner.non_locals) {
                s.leave_function() matches Ok((t, frame)) && {
                    &&& frame == inner
                    &&& t.lexer == s.lexer
                    &&& t.nodes == s.nodes
                    &&& t.constants == s.constants
                    &&& t.frames.len() == s.frames.len() - 1
                    &&& t.frames.last() == outer.access_all(inner.non_locals)
                    &&& forall|i: int|
                        0 <= i < s.frames.len() - 2 ==> (#[trigger] t.frames[i]) == s.frames[i]
                }
            } else {
                breaks_off(s.leave_function(), s, InternalError::AccessCountOverflow)
            }
        }),
{
    reveal(State::leave_function);
}

/// A new frame is the innermost one, and popping it gives the frames around it back.
pub proof fn law_pushed_frame(s: State, frame: crate::frame::FrameView)
    ensures
        s.push_frame(frame).frames.last() == frame,
        s.push_frame(frame).frames.len() == s.frames.len() + 1,
        s.push_frame(frame).lexer == s.lexer,
        s.push_frame(frame).nodes == s.nodes,
        s.push_frame(frame).constants == s.constants,
        s.push_frame(frame).pop_frame() == s,
{
    assert(s.push_frame(frame).pop_frame().frames =~= s.frames);
}

} // verus!
