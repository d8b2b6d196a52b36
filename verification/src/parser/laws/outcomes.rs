//! The words that the laws of the grammar are stated in.
use vstd::prelude::*;

use crate::ast::{AstIndex, AstNodeView, NodeView};
use crate::error::{ErrorType, InternalError, ParserError, SyntaxError};
use crate::frame::FrameView;
use crate::lexer::Span;
use crate::parser::state::{yields, yields_view, Parsed, State};

verus! {

/// The step ends in the state, and yields the value.
pub open spec fn gives<T>(parsed: Parsed<T>, s: State, value: T) -> bool {
    parsed == Ok::<(State, T), ParserError>((s, value))
}

/// The step ends in the error.
pub open spec fn fails<T>(parsed: Parsed<T>, error: ParserError) -> bool {
    parsed == Err::<(State, T), ParserError>(error)
}

/// The step ends in a syntax error at the token that was read last.
pub open spec fn refuses<T>(parsed: Parsed<T>, at: State, error: SyntaxError) -> bool {
    fails(parsed, ParserError { error: ErrorType::SyntaxError(error), span: at.span() })
}

/// The step ends in an internal error at the token that was read last.
pub open spec fn breaks_off<T>(parsed: Parsed<T>, at: State, error: InternalError) -> bool {
    fails(parsed, ParserError { error: ErrorType::InternalError(error), span: at.span() })
}

/// The step yields the value, and has read at least one token.
pub open spec fn reads_one<T>(
    parsed: Parsed<Option<T>>,
    from: State,
    to: State,
    value: T,
) -> bool {
    gives(parsed, to, Some(value)) && to.remaining() < from.remaining()
}

/// The step yields nothing, and hasn't gone back.
pub open spec fn reads_none<T>(parsed: Parsed<Option<T>>, from: State, to: State) -> bool {
    gives(parsed, to, None) && to.remaining() <= from.remaining()
}

/// The step yields the value, and hasn't gone back.
pub open spec fn reads_to<T>(parsed: Parsed<T>, from: State, to: State, value: T) -> bool {
    gives(parsed, to, value) && to.remaining() <= from.remaining()
}

/// From the start of one span to the end of another.
pub open spec fn between(from: Span, to: Span) -> Span {
    Span { start: from.start, end: to.end }
}

/// The step adds a node to the state and yields its index, as long as an index can be given to it.
pub open spec fn adds_index(
    parsed: Parsed<AstIndex>,
    s: State,
    node: NodeView,
    span: Span,
) -> bool {
    if s.nodes.len() < 0x1_0000_0000 {
        gives(
            parsed,
            State { nodes: s.nodes.push(AstNodeView { node, span }), ..s },
            s.nodes.len() as u32,
        )
    } else {
        fails(
            parsed,
            ParserError {
                error: ErrorType::InternalError(InternalError::AstCapacityOverflow),
                span,
            },
        )
    }
}

/// The step adds a node to the state and yields its index, as long as an index can be given to it.
pub open spec fn adds(
    parsed: Parsed<Option<AstIndex>>,
    s: State,
    node: NodeView,
    span: Span,
) -> bool {
    if s.nodes.len() < 0x1_0000_0000 {
        gives(
            parsed,
            State { nodes: s.nodes.push(AstNodeView { node, span }), ..s },
            Some(s.nodes.len() as u32),
        )
    } else {
        fails(
            parsed,
            ParserError {
                error: ErrorType::InternalError(InternalError::AstCapacityOverflow),
                span,
            },
        )
    }
}

/// The step changes the innermost frame, and nothing else.
pub open spec fn sets_frame(parsed: Parsed<()>, s: State, frame: FrameView) -> bool {
    parsed matches Ok((t, _)) && {
        &&& t.lexer == s.lexer
        &&& t.nodes == s.nodes
        &&& t.constants == s.constants
        &&& t.frames.len() == s.frames.len()
        &&& t.frames.last() == frame
        &&& forall|i: int| 0 <= i < s.frames.len() - 1 ==> (#[trigger] t.frames[i]) == s.frames[i]
    }
}

/// The step can't be taken outside of any function.
pub open spec fn misses_scope<T>(parsed: Parsed<T>) -> bool {
    parsed matches Err(e) && e.error == ErrorType::InternalError(InternalError::MissingScope)
        && e.span.start.line == 1 && e.span.start.column == 1 && e.span.end == e.span.start
}

/// A step's outcome is the expected one exactly if it has yielded the expected value in the
/// expected state, or has ended in the expected error.
pub proof fn law_outcome<T>(value: T, e: ParserError, end: State, expected: Parsed<T>)
    ensures
        yields(Ok(value), end, expected) <==> gives(expected, end, value),
        yields(Err::<T, ParserError>(e), end, expected) <==> fails(expected, e),
{
}

/// The same holds of a value that is seen through its view.
pub proof fn law_viewed_outcome<T: View>(
    value: T,
    e: ParserError,
    end: State,
    expected: Parsed<T::V>,
)
    ensures
        yields_view(Ok(value), end, expected) <==> gives(expected, end, value@),
        yields_view(Err::<T, ParserError>(e), end, expected) <==> fails(expected, e),
{
}

} // verus!
