//! What ids, calls, lookups, ranges and exports are parsed to.
use vstd::prelude::*;

use crate::ast::{AssignOp, AssignTarget, AstIndex, AstNodeView, LookupNodeView, NodeView, Scope};
use crate::error::{InternalError, ParserError, SyntaxError};
use crate::lexer::Token;
use crate::parser::grammar;
use crate::parser::laws::outcomes::{
    adds, adds_index, between, breaks_off, fails, gives, reads_none, reads_one, reads_to, refuses,
};
use crate::parser::laws::steps::law_added_node;
use crate::parser::state::State;

verus! {

/// An id is known by its text, and so is a wildcard where one may stand. Anything else is no id,
/// and isn't read.
pub proof fn law_id(s: State, wildcards: bool)
    ensures
        ({
            let at = s.skip_blanks();
            let found = at.peek() == Some(Token::Id) || at.peek() == Some(Token::Wildcard)
                && wildcards;
            let (t, constant) = at.advance().add_string(at.advance().slice());
            &&& found ==> grammar::id(s, wildcards) == (t, Some(constant))
            &&& !found ==> grammar::id(s, wildcards) == (at, None::<u32>)
        }),
{
}

/// A key is known by its text if it is an id, and by its content if it is a string.
pub proof fn law_id_or_string(s: State, content: Seq<char>, e: ParserError)
    ensures
        ({
            let at = s.skip_blanks();
            let read = at.advance();
            let key = grammar::id_or_string(s);
            let unquoted = read.slice().subrange(1, read.slice().len() - 1);
            &&& at.peek() == Some(Token::Id) ==> {
                let (t, constant) = read.add_string(read.slice());
                gives(key, t, Some(constant))
            }
            &&& at.peek() == Some(Token::String) && grammar::unescape(unquoted) == Some(content)
                ==> {
                let (t, constant) = read.add_string(content);
                gives(key, t, Some(constant))
            }
            &&& at.peek() == Some(Token::String) && grammar::unescape(unquoted) is None ==> refuses(
                key,
                read,
                SyntaxError::UnexpectedEscapeInString,
            )
            &&& at.peek() != Some(Token::Id) && at.peek() != Some(Token::String) ==> gives(
                key,
                at,
                None,
            )
        }),
{
}

/// The escapes of strings.
pub proof fn law_escapes(c: char)
    ensures
        grammar::escaped('\\') == Some('\\'),
        grammar::escaped('\'') == Some('\''),
        grammar::escaped('"') == Some('"'),
        grammar::escaped('n') == Some('\n'),
        grammar::escaped('r') == Some('\r'),
        grammar::escaped('t') == Some('\t'),
        c != '\\' && c != '\'' && c != '"' && c != 'n' && c != 'r' && c != 't' ==> grammar::escaped(
            c,
        ) is None,
{
}

/// An escape stands for one character. An unknown one, or one that is cut off, is none.
pub proof fn law_unescape_escape(c: char, rest: Seq<char>)
    ensures
        ({
            let text = seq!['\\', c] + rest;
            match (grammar::escaped(c), grammar::unescape(rest)) {
                (Some(meant), Some(more)) => grammar::unescape(text) == Some(seq![meant] + more),
                _ => grammar::unescape(text) is None,
            }
        }),
        grammar::unescape(seq!['\\']) is None,
{
    let text = seq!['\\', c] + rest;
    assert(text.skip(2) =~= rest);
}

/// An id that is read is counted, and has a node. What it is followed by says whether it is called,
/// looked up in, or stands on its own. The call reaches from the id to its last argument.
pub proof fn law_id_expression(
    s: State,
    primary: bool,
    s1: State,
    constant: u32,
    s2: State,
    s3: State,
    s4: State,
    args: Seq<AstIndex>,
    root: AstIndex,
    e: ParserError,
)
    requires
        grammar::id(s, primary) == (s1, Some(constant)),
        gives(s1.access_id(constant), s2, ()),
        s2.nodes.len() < 0x1_0000_0000,
        s3.lexer == s2.lexer,
        s3.constants == s2.constants,
        s3.frames == s2.frames,
        s3.nodes == s2.nodes.push(
            AstNodeView { node: NodeView::Id(constant), span: s2.span() },
        ),
    ensures
        ({
            let whole = grammar::id_expression(s, primary);
            let index = s2.nodes.len() as u32;
            let called = primary && s3.peek() == Some(Token::Whitespace);
            let call_args = grammar::call_args(
                s3.advance(),
                s3.advance().line_number(),
                Seq::empty(),
            );
            let looked_up = s3.peek() == Some(Token::Dot) || s3.peek() == Some(Token::ListStart)
                || s3.peek() == Some(Token::ParenOpen);
            &&& called && reads_to(call_args, s3.advance(), s4, args) && args.len() == 0 ==> gives(
                whole,
                s4,
                Some(index),
            )
            &&& called && reads_to(call_args, s3.advance(), s4, args) && args.len() > 0 ==> adds(
                whole,
                s4,
                NodeView::Call { function: index, args },
                between(s3.span(), s4.span()),
            )
            &&& called && fails(call_args, e) ==> fails(whole, e)
            &&& looked_up && gives(grammar::lookup(s3, index, primary), s4, root) ==> gives(
                whole,
                s4,
                Some(root),
            )
            &&& looked_up && fails(grammar::lookup(s3, index, primary), e) ==> fails(whole, e)
            &&& !called && !looked_up ==> gives(whole, s3, Some(index))
        }),
{
    law_added_node(s2, NodeView::Id(constant), s2.span());
    law_added_node(
        s4,
        NodeView::Call { function: s2.nodes.len() as u32, args },
        s3.span(),
    );
    assert(s3 =~= (State { nodes: s3.nodes, ..s2 }));
}

/// Without an id there is no id expression, and an id that can't be counted is an error.
pub proof fn law_id_expression_without_id(
    s: State,
    primary: bool,
    s1: State,
    constant: u32,
    e: ParserError,
)
    ensures
        grammar::id(s, primary) == (s1, None::<u32>) ==> gives(
            grammar::id_expression(s, primary),
            s1,
            None,
        ),
        grammar::id(s, primary) == (s1, Some(constant)) && fails(s1.access_id(constant), e)
            ==> fails(grammar::id_expression(s, primary), e),
{
}

/// The arguments of a call without parentheses stand in their order, and after the first one they
/// have to start on the line of the call.
pub proof fn law_call_args(
    s: State,
    line: u32,
    args: Seq<AstIndex>,
    s1: State,
    arg: AstIndex,
    e: ParserError,
)
    ensures
        ({
            let value = grammar::expression_start(s, Seq::empty(), 0, false);
            let all = grammar::call_args(s, line, args);
            let goes_on = args.len() == 0 || s.line_number() == line;
            &&& !goes_on ==> gives(all, s, args)
            &&& goes_on && reads_one(value, s, s1, arg) ==> all == grammar::call_args(
                s1,
                line,
                args.push(arg),
            )
            &&& goes_on && reads_none(value, s, s1) ==> gives(all, s1, args)
            &&& goes_on && fails(value, e) ==> fails(all, e)
        }),
{
}

/// A lookup starts with its root, and holds its steps in their order. It reaches from its root to
/// its last step.
pub proof fn law_lookup(
    s: State,
    root: AstIndex,
    primary: bool,
    s1: State,
    steps: Seq<LookupNodeView>,
    e: ParserError,
)
    ensures
        ({
            let all = grammar::lookup_steps(s, seq![LookupNodeView::Root(root)], primary);
            &&& reads_to(all, s, s1, steps) ==> adds_index(
                grammar::lookup(s, root, primary),
                s1,
                NodeView::Lookup(steps),
                between(s.span(), s1.span()),
            )
            &&& fails(all, e) ==> fails(grammar::lookup(s, root, primary), e)
        }),
{
    law_added_node(s1, NodeView::Lookup(steps), s.span());
}

/// Parentheses directly behind a value call it, brackets index it, and a dot looks up a key in it.
/// Where arguments may follow without parentheses they end the lookup, and so does any other token.
pub proof fn law_lookup_steps(
    s: State,
    steps: Seq<LookupNodeView>,
    primary: bool,
    s1: State,
    args: Seq<AstIndex>,
    index: AstIndex,
    key: u32,
    e: ParserError,
)
    ensures
        ({
            let all = grammar::lookup_steps(s, steps, primary);
            let in_parens = grammar::parenthesized_args(s);
            let indexed = grammar::index_expression(s.advance());
            let named = grammar::id_or_string(s.advance());
            let without_parens = grammar::call_args(
                s.advance(),
                s.advance().line_number(),
                Seq::empty(),
            );
            let closing = s1.skip_blanks();
            &&& s.peek() == Some(Token::ParenOpen) ==> {
                &&& gives(in_parens, s1, args) && s1.remaining() < s.remaining() ==> all
                    == grammar::lookup_steps(s1, steps.push(LookupNodeView::Call(args)), primary)
                &&& fails(in_parens, e) ==> fails(all, e)
            }
            &&& s.peek() == Some(Token::ListStart) ==> {
                &&& reads_to(indexed, s.advance(), s1, index) && closing.peek() == Some(
                    Token::ListEnd,
                ) ==> all == grammar::lookup_steps(
                    closing.advance(),
                    steps.push(LookupNodeView::Index(index)),
                    primary,
                )
                &&& reads_to(indexed, s.advance(), s1, index) && closing.peek() != Some(
                    Token::ListEnd,
                ) ==> refuses(all, closing, SyntaxError::ExpectedIndexEnd)
                &&& fails(indexed, e) ==> fails(all, e)
            }
            &&& s.peek() == Some(Token::Dot) ==> {
                &&& gives(named, s1, Some(key)) ==> all == grammar::lookup_steps(
                    s1,
                    steps.push(LookupNodeView::Id(key)),
                    primary,
                )
                &&& gives(named, s1, None) ==> refuses(all, s1, SyntaxError::ExpectedMapKey)
                &&& fails(named, e) ==> fails(all, e)
            }
            &&& s.peek() == Some(Token::Whitespace) && primary ==> {
                &&& gives(without_parens, s1, args) && args.len() > 0 ==> gives(
                    all,
                    s1,
                    steps.push(LookupNodeView::Call(args)),
                )
                &&& gives(without_parens, s1, args) && args.len() == 0 ==> gives(all, s1, steps)
                &&& fails(without_parens, e) ==> fails(all, e)
            }
            &&& s.peek() != Some(Token::ParenOpen) && s.peek() != Some(Token::ListStart) && s.peek()
                != Some(Token::Dot) && (s.peek() != Some(Token::Whitespace) || !primary) ==> gives(
                all,
                s,
                steps,
            )
        }),
{
}

/// A value may be followed by a lookup, which starts directly behind it.
pub proof fn law_lookup_on(
    s: State,
    node: AstIndex,
    primary: bool,
    s1: State,
    index: AstIndex,
    e: ParserError,
)
    ensures
        ({
            let starts = s.peek() == Some(Token::Dot) || s.peek() == Some(Token::ListStart)
                || s.peek() == Some(Token::ParenOpen);
            let looked_up = grammar::lookup(s, node, primary);
            &&& starts == grammar::starts_lookup(s.peek())
            &&& starts && gives(looked_up, s1, index) ==> gives(
                grammar::lookup_on(s, node, primary),
                s1,
                Some(index),
            )
            &&& starts && fails(looked_up, e) ==> fails(grammar::lookup_on(s, node, primary), e)
            &&& !starts ==> gives(grammar::lookup_on(s, node, primary), s, Some(node))
        }),
{
}

/// An index is a value, or a range whose ends may be left out.
pub proof fn law_index_expression(
    s: State,
    s1: State,
    start: AstIndex,
    s2: State,
    end: AstIndex,
    e: ParserError,
)
    ensures
        ({
            let whole = grammar::index_expression(s);
            let first = grammar::expression_start(s, Seq::empty(), 0, false);
            let behind = if first matches Ok((_, Some(_))) {
                s1
            } else {
                s1.skip_blanks()
            };
            let range = behind.peek() == Some(Token::Range) || behind.peek() == Some(
                Token::RangeInclusive,
            );
            let inclusive = behind.peek() == Some(Token::RangeInclusive);
            let second = grammar::expression_start(behind.advance(), Seq::empty(), 0, false);
            &&& fails(first, e) ==> fails(whole, e)
            &&& reads_one(first, s, s1, start) ==> {
                &&& !range ==> gives(whole, s1, start)
                &&& range && gives(second, s2, Some(end)) ==> adds_index(
                    whole,
                    s2,
                    NodeView::Range { start, end, inclusive },
                    s2.span(),
                )
                &&& range && gives(second, s2, None) ==> adds_index(
                    whole,
                    s2,
                    NodeView::RangeFrom { start },
                    s2.span(),
                )
                &&& range && fails(second, e) ==> fails(whole, e)
            }
            &&& reads_none(first, s, s1) ==> {
                &&& !range ==> refuses(whole, behind, SyntaxError::ExpectedIndexExpression)
                &&& range && gives(second, s2, Some(end)) ==> adds_index(
                    whole,
                    s2,
                    NodeView::RangeTo { end, inclusive },
                    s2.span(),
                )
                &&& range && gives(second, s2, None) ==> adds_index(
                    whole,
                    s2,
                    NodeView::RangeFull,
                    s2.span(),
                )
                &&& range && fails(second, e) ==> fails(whole, e)
            }
        }),
{
    let inclusive = s1.peek() == Some(Token::RangeInclusive);
    let inclusive_to = s1.skip_blanks().peek() == Some(Token::RangeInclusive);
    law_added_node(s2, NodeView::Range { start, end, inclusive }, s2.span());
    law_added_node(s2, NodeView::RangeFrom { start }, s2.span());
    law_added_node(s2, NodeView::RangeTo { end, inclusive: inclusive_to }, s2.span());
    law_added_node(s2, NodeView::RangeFull, s2.span());
}

/// Arguments in parentheses stand in their order, with any padding between them, up to the closing
/// parenthesis.
pub proof fn law_parenthesized_args(s: State, s1: State, args: Seq<AstIndex>, e: ParserError)
    ensures
        ({
            let at = s.skip_blanks();
            let whole = grammar::parenthesized_args(s);
            let inside = grammar::args_until_none(at.advance(), Seq::empty());
            let closing = s1.skip_padding();
            &&& at.peek() != Some(Token::ParenOpen) ==> breaks_off(
                whole,
                at,
                InternalError::ArgumentsParseFailure,
            )
            &&& at.peek() == Some(Token::ParenOpen) ==> {
                &&& fails(inside, e) ==> fails(whole, e)
                &&& reads_to(inside, at.advance(), s1, args) && closing.peek() == Some(
                    Token::ParenClose,
                ) ==> gives(whole, closing.advance(), args)
                &&& reads_to(inside, at.advance(), s1, args) && closing.peek() != Some(
                    Token::ParenClose,
                ) ==> refuses(whole, closing.advance(), SyntaxError::ExpectedArgsEnd)
            }
        }),
{
}

/// Each expression between parentheses is an argument, until there is none.
pub proof fn law_args_until_none(
    s: State,
    args: Seq<AstIndex>,
    s1: State,
    arg: AstIndex,
    e: ParserError,
)
    ensures
        ({
            let at = s.skip_padding();
            let value = grammar::expression_start(at, Seq::empty(), 0, false);
            &&& reads_one(value, at, s1, arg) ==> grammar::args_until_none(s, args)
                == grammar::args_until_none(s1, args.push(arg))
            &&& reads_none(value, at, s1) ==> gives(grammar::args_until_none(s, args), s1, args)
            &&& fails(value, e) ==> fails(grammar::args_until_none(s, args), e)
        }),
{
}

/// A minus directly before an id or a parenthesis negates it, and stands before nothing else.
pub proof fn law_negated(s: State, s1: State, expression: AstIndex, e: ParserError)
    ensures
        ({
            let at = s.skip_blanks();
            let inner = at.advance();
            let whole = grammar::negated(s);
            let negates = at.peek() == Some(Token::Subtract) && at.peek_n(1) != Some(
                Token::Whitespace,
            );
            &&& !negates ==> gives(whole, at, None)
            &&& negates && inner.peek() == Some(Token::Id) ==> {
                &&& gives(grammar::id_expression(inner, false), s1, Some(expression)) ==> adds(
                    whole,
                    s1,
                    NodeView::Negate(expression),
                    s1.span(),
                )
                &&& fails(grammar::id_expression(inner, false), e) ==> fails(whole, e)
            }
            &&& negates && inner.peek() == Some(Token::ParenOpen) ==> {
                &&& gives(grammar::nested_expressions(inner), s1, Some(expression)) ==> adds(
                    whole,
                    s1,
                    NodeView::Negate(expression),
                    s1.span(),
                )
                &&& fails(grammar::nested_expressions(inner), e) ==> fails(whole, e)
            }
            &&& negates && inner.peek() != Some(Token::Id) && inner.peek() != Some(Token::ParenOpen)
                ==> refuses(whole, inner, SyntaxError::ExpectedNegatableExpression)
        }),
{
    law_added_node(s1, NodeView::Negate(expression), s1.span());
}

/// A range has the ends that are there, and includes its end where it says so.
pub proof fn law_range(
    s: State,
    lhs: Option<AstIndex>,
    s1: State,
    rhs: Option<AstIndex>,
    e: ParserError,
)
    ensures
        ({
            let whole = grammar::range(s, lhs);
            let second = grammar::term(s.advance(), false);
            let inclusive = s.peek() == Some(Token::RangeInclusive);
            let is_range = s.peek() == Some(Token::Range) || inclusive;
            &&& !is_range ==> gives(whole, s, None)
            &&& is_range && fails(second, e) ==> fails(whole, e)
            &&& is_range && gives(second, s1, rhs) ==> {
                &&& lhs is Some && rhs is Some ==> adds(
                    whole,
                    s1,
                    NodeView::Range { start: lhs->0, end: rhs->0, inclusive },
                    s1.span(),
                )
                &&& lhs is Some && rhs is None ==> adds(
                    whole,
                    s1,
                    NodeView::RangeFrom { start: lhs->0 },
                    s1.span(),
                )
                &&& lhs is None && rhs is Some ==> adds(
                    whole,
                    s1,
                    NodeView::RangeTo { end: rhs->0, inclusive },
                    s1.span(),
                )
                &&& lhs is None && rhs is None ==> adds(whole, s1, NodeView::RangeFull, s1.span())
            }
        }),
{
    let inclusive = s.peek() == Some(Token::RangeInclusive);
    law_added_node(s1, NodeView::Range { start: lhs->0, end: rhs->0, inclusive }, s1.span());
    law_added_node(s1, NodeView::RangeFrom { start: lhs->0 }, s1.span());
    law_added_node(s1, NodeView::RangeTo { end: rhs->0, inclusive }, s1.span());
    law_added_node(s1, NodeView::RangeFull, s1.span());
}

/// An export names an id, which isn't counted as read. With a value it assigns it globally, and
/// without one it ends its line.
pub proof fn law_export(
    s: State,
    s1: State,
    constant: u32,
    s2: State,
    s3: State,
    rhs: AstIndex,
    e: ParserError,
)
    requires
        s.skip_blanks().peek() == Some(Token::Export),
    ensures
        ({
            let whole = grammar::export_id(s);
            let name = grammar::id(s.skip_blanks().advance(), false);
            let at = s2.skip_blanks();
            let value = grammar::primary_expressions(at.advance(), true);
            let index = s1.nodes.len() as u32;
            &&& name == (s1, None::<u32>) ==> refuses(
                whole,
                s1,
                SyntaxError::ExpectedExportExpression,
            )
            &&& name == (s1, Some(constant)) && s1.nodes.len() < 0x1_0000_0000 && s2 == (State {
                nodes: s1.nodes.push(
                    AstNodeView { node: NodeView::Id(constant), span: s1.span() },
                ),
                ..s1
            }) ==> {
                &&& at.peek() == Some(Token::Assign) && gives(value, s3, Some(rhs)) ==> adds(
                    whole,
                    s3,
                    NodeView::Assign {
                        target: AssignTarget { target_index: index, scope: Scope::Global },
                        op: AssignOp::Equal,
                        expression: rhs,
                    },
                    s3.span(),
                )
                &&& at.peek() == Some(Token::Assign) && gives(value, s3, None) ==> refuses(
                    whole,
                    s3,
                    SyntaxError::ExpectedRhsExpression,
                )
                &&& at.peek() == Some(Token::Assign) && fails(value, e) ==> fails(whole, e)
                &&& at.peek() == Some(Token::NewLine) || at.peek() == Some(Token::NewLineIndented)
                    ==> gives(whole, at, Some(index))
                &&& at.peek() != Some(Token::Assign) && at.peek() != Some(Token::NewLine)
                    && at.peek() != Some(Token::NewLineIndented) ==> refuses(
                    whole,
                    at,
                    SyntaxError::UnexpectedTokenAfterExportId,
                )
            }
        }),
{
    law_added_node(s1, NodeView::Id(constant), s1.span());
    law_added_node(
        s3,
        NodeView::Assign {
            target: AssignTarget { target_index: s1.nodes.len() as u32, scope: Scope::Global },
            op: AssignOp::Equal,
            expression: rhs,
        },
        s3.span(),
    );
}

/// Without its keyword there is no export and no debug expression.
pub proof fn law_no_export(s: State)
    ensures
        s.skip_blanks().peek() != Some(Token::Export) ==> gives(
            grammar::export_id(s),
            s.skip_blanks(),
            None,
        ),
        s.peek() != Some(Token::Debug) ==> gives(grammar::debug_expression(s), s, None),
{
}

/// A debug expression holds its expression along with the source text that it was read from, and
/// reaches from its keyword to the end of the expression.
pub proof fn law_debug(s: State, s1: State, expression: AstIndex, e: ParserError)
    requires
        s.peek() == Some(Token::Debug),
    ensures
        ({
            let whole = grammar::debug_expression(s);
            let at = s.advance().skip_blanks();
            let value = grammar::primary_expressions(at, true);
            let (s2, text) = s1.add_string(s1.lexer.text_since(at.lexer.position));
            &&& gives(value, s1, Some(expression)) ==> adds(
                whole,
                s2,
                NodeView::Debug { expression_string: text, expression },
                between(s.advance().span(), s2.span()),
            )
            &&& gives(value, s1, None) ==> refuses(whole, s1, SyntaxError::ExpectedExpression)
            &&& fails(value, e) ==> fails(whole, e)
        }),
{
    let at = s.advance().skip_blanks();
    let (s2, text) = s1.add_string(s1.lexer.text_since(at.lexer.position));
    law_added_node(
        s2,
        NodeView::Debug { expression_string: text, expression },
        s.advance().span(),
    );
}

} // verus!
