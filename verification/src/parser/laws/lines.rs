//! What scripts, lines and lists of expressions are parsed to.
use vstd::prelude::*;

use crate::ast::{AstIndex, NodeView};
use crate::error::{ParserError, SyntaxError};
use crate::frame::FrameView;
use crate::lexer::{LexedSource, Token};
use crate::parser::grammar;
use crate::parser::laws::outcomes::{
    adds, between, fails, gives, reads_none, reads_one, refuses,
};
use crate::parser::laws::steps::{law_added_node, law_finished_expressions};
use crate::parser::state::State;

verus! {

/// A script is parsed from its first token on, and its result is that of the main block.
pub proof fn law_script(
    source: LexedSource,
    start: State,
    s: State,
    index: AstIndex,
    e: ParserError,
)
    requires
        start.lexer.tokens == source.tokens@,
        start.lexer.end_indent == source.end_indent,
        start.lexer.position == 0,
        start.nodes == Seq::<crate::ast::AstNodeView>::empty(),
        start.constants == Seq::<crate::constant_pool::ConstantView>::empty(),
        start.frames == Seq::<FrameView>::empty(),
    ensures
        gives(grammar::main_block(start), s, index) ==> grammar::script(source) == Ok::<
            (Seq<crate::ast::AstNodeView>, Seq<crate::constant_pool::ConstantView>, AstIndex),
            ParserError,
        >((s.nodes, s.constants, index)),
        fails(grammar::main_block(start), e) ==> grammar::script(source) == Err::<
            (Seq<crate::ast::AstNodeView>, Seq<crate::constant_pool::ConstantView>, AstIndex),
            ParserError,
        >(e),
{
    assert(start =~= State::start(start.lexer));
    assert(start.lexer =~= (crate::lexer::LexerView {
        tokens: source.tokens@,
        end_indent: source.end_indent,
        position: 0,
    }));
}

/// The main block holds the lines, in a frame of their own that is gone afterwards, and the number
/// of locals that they have assigned. It reaches from where the script starts to its end.
pub proof fn law_main_block(
    s: State,
    entered: State,
    s1: State,
    body: Seq<AstIndex>,
    e: ParserError,
)
    requires
        entered.lexer == s.lexer,
        entered.nodes == s.nodes,
        entered.constants == s.constants,
        entered.frames == s.frames.push(FrameView::empty()),
    ensures
        gives(grammar::main_lines(entered, Seq::empty()), s1, body) && s1.frames.len() > 0
            && s1.nodes.len() < 0x1_0000_0000 ==> (grammar::main_block(s) matches Ok((t, i)) && {
            &&& i == s1.nodes.len()
            &&& t.lexer == s1.lexer
            &&& t.constants == s1.constants
            &&& t.frames == s1.frames.drop_last()
            &&& t.nodes.drop_last() == s1.nodes
            &&& t.nodes.last().span == between(s.span(), s1.span())
            &&& t.nodes.last().node == NodeView::MainBlock {
                body,
                local_count: s1.frames.last().assigned.difference(
                    s1.frames.last().non_locals,
                ).len(),
            }
        }),
        fails(grammar::main_lines(entered, Seq::empty()), e) ==> fails(grammar::main_block(s), e),
{
    assert(entered =~= s.push_frame(FrameView::empty()));
    law_added_node(
        s1,
        NodeView::MainBlock { body, local_count: s1.frames.last().locals().len() },
        s.span(),
    );
    if gives(grammar::main_lines(entered, Seq::empty()), s1, body) && s1.frames.len() > 0
        && s1.nodes.len() < 0x1_0000_0000 {
        let t = grammar::main_block(s)->Ok_0.0;
        assert(t.nodes.drop_last() =~= s1.nodes);
    }
}

/// The lines of a script stand in their order, up to its end. Each of them is an expression.
pub proof fn law_main_lines(
    s: State,
    body: Seq<AstIndex>,
    s1: State,
    expression: AstIndex,
    e: ParserError,
)
    ensures
        ({
            let next = s.skip_padding();
            &&& next.peek() is None ==> gives(grammar::main_lines(s, body), next, body)
            &&& next.peek() is Some ==> {
                &&& reads_one(grammar::line(next), next, s1, expression) ==> grammar::main_lines(
                    s,
                    body,
                ) == grammar::main_lines(s1, body.push(expression))
                &&& reads_none(grammar::line(next), next, s1) ==> refuses(
                    grammar::main_lines(s, body),
                    s1,
                    SyntaxError::ExpectedExpressionInMainBlock,
                )
                &&& fails(grammar::line(next), e) ==> fails(grammar::main_lines(s, body), e)
            }
        }),
{
}

/// A keyword at the start of a line says what the line is. Every other line is a list of
/// expressions. At its end the expression is complete, and its reads are settled.
pub proof fn law_line(s: State, s1: State, index: AstIndex, e: ParserError)
    ensures
        ({
            let at = s.skip_blanks();
            let inner = if at.peek() == Some(Token::For) {
                grammar::for_loop(at, None)
            } else if at.peek() == Some(Token::Loop) {
                grammar::loop_block(at)
            } else if at.peek() == Some(Token::While) {
                grammar::while_loop(at, None)
            } else if at.peek() == Some(Token::Until) {
                grammar::until_loop(at, None)
            } else if at.peek() == Some(Token::Export) {
                grammar::export_id(at)
            } else if at.peek() == Some(Token::Debug) {
                grammar::debug_expression(at)
            } else {
                grammar::primary_expressions(at, false)
            };
            &&& gives(inner, s1, None) ==> gives(grammar::line(s), s1, None)
            &&& fails(inner, e) ==> fails(grammar::line(s), e)
            &&& gives(inner, s1, Some(index)) && s1.frames.len() > 0 ==> (grammar::line(
                s,
            ) matches Ok((t, i)) && {
                &&& i == Some(index)
                &&& t.lexer == s1.lexer
                &&& t.nodes == s1.nodes
                &&& t.constants == s1.constants
                &&& t.frames.len() == s1.frames.len()
                &&& t.frames.last() == s1.frames.last().finish()
                &&& t.frames.last().accesses == Map::<u32, usize>::empty()
                &&& forall|k: int|
                    0 <= k < s1.frames.len() - 1 ==> (#[trigger] t.frames[k]) == s1.frames[k]
            })
        }),
{
    law_finished_expressions(s1);
}

/// Where a line break may come first, expressions that stand further in than the line before may be
/// a map block. Expressions that don't stand further in aren't there.
pub proof fn law_primary_expressions(s: State, s1: State, block: AstIndex, e: ParserError)
    ensures
        grammar::primary_expressions(s, false) == grammar::expression_list(
            s,
            s.current_indent(),
            None,
        ),
        s.skip_blanks().peek() != Some(Token::NewLineIndented) ==> grammar::primary_expressions(
            s,
            true,
        ) == grammar::expression_list(s.skip_blanks(), s.current_indent(), None),
        s.skip_blanks().peek() == Some(Token::NewLineIndented) ==> {
            let at = s.skip_blanks().skip_padding();
            let indent = at.current_indent();
            let map_block = grammar::map_block(at, s.current_indent(), Some(indent));
            &&& indent <= s.current_indent() ==> gives(
                grammar::primary_expressions(s, true),
                at,
                None,
            )
            &&& indent > s.current_indent() ==> {
                &&& reads_one(map_block, at, s1, block) ==> gives(
                    grammar::primary_expressions(s, true),
                    s1,
                    Some(block),
                )
                &&& reads_none(map_block, at, s1) ==> grammar::primary_expressions(s, true)
                    == grammar::expression_list(s1, s.current_indent(), Some(indent))
                &&& fails(map_block, e) ==> fails(grammar::primary_expressions(s, true), e)
            }
        },
{
}

/// A list starts with an expression, and goes on after it.
pub proof fn law_expression_list(
    s: State,
    current: usize,
    expected: Option<usize>,
    s1: State,
    first: AstIndex,
    e: ParserError,
)
    ensures
        ({
            let start = grammar::expression_start(s, Seq::empty(), 0, true);
            &&& reads_none(start, s, s1) ==> gives(
                grammar::expression_list(s, current, expected),
                s1,
                None,
            )
            &&& reads_one(start, s, s1, first) ==> grammar::expression_list(s, current, expected)
                == grammar::more_expressions(s1, seq![first], current, expected)
            &&& fails(start, e) ==> fails(grammar::expression_list(s, current, expected), e)
        }),
{
}

/// A list goes on after a comma, on the same line or on one that stands as far in as the lines of
/// the list do. The first line that stands further in than the list's start sets how far that is.
/// Without a comma, or on a line that stands less far in, the list has ended.
pub proof fn law_more_expressions(
    s: State,
    expressions: Seq<AstIndex>,
    current: usize,
    expected: Option<usize>,
)
    ensures
        ({
            let list = grammar::more_expressions(s, expressions, current, expected);
            let at = s.skip_blanks();
            let after = at.advance().skip_blanks();
            let below = after.skip_padding();
            let broken = after.peek() == Some(Token::NewLineIndented);
            &&& at.peek() != Some(Token::Separator) ==> list == grammar::end_of_expressions(
                at,
                expressions,
            )
            &&& at.peek() == Some(Token::Separator) && !broken ==> list == grammar::next_expression(
                after,
                expressions,
                current,
                expected,
            )
            &&& at.peek() == Some(Token::Separator) && broken ==> match expected {
                Some(indent) => {
                    &&& below.next_indent() < indent ==> list == grammar::end_of_expressions(
                        below,
                        expressions,
                    )
                    &&& below.next_indent() == indent ==> list == grammar::next_expression(
                        below,
                        expressions,
                        current,
                        Some(indent),
                    )
                    &&& below.next_indent() > indent ==> refuses(
                        list,
                        below,
                        SyntaxError::UnexpectedIndentation,
                    )
                },
                None => {
                    &&& below.next_indent() <= current ==> list == grammar::end_of_expressions(
                        below,
                        expressions,
                    )
                    &&& below.next_indent() > current ==> list == grammar::next_expression(
                        below,
                        expressions,
                        current,
                        Some(below.next_indent()),
                    )
                },
            }
        }),
{
}

/// An expression after a comma joins the list, unless it is an assignment or a loop, which has
/// taken the expressions before it for its targets or its body. A comma may also end the list.
pub proof fn law_next_expression(
    s: State,
    expressions: Seq<AstIndex>,
    current: usize,
    expected: Option<usize>,
    s1: State,
    next: AstIndex,
    e: ParserError,
)
    ensures
        ({
            let list = grammar::next_expression(s, expressions, current, expected);
            let start = grammar::expression_start(s, expressions, 0, true);
            let node = s1.nodes[next as int].node;
            let takes = node is Assign || node is MultiAssign || node is For || node is While || node
                is Until;
            &&& reads_one(start, s, s1, next) && takes ==> gives(list, s1, Some(next))
            &&& reads_one(start, s, s1, next) && !takes ==> list == grammar::more_expressions(
                s1,
                expressions.push(next),
                current,
                expected,
            )
            &&& reads_none(start, s, s1) ==> list == grammar::more_expressions(
                s1,
                expressions,
                current,
                expected,
            )
            &&& fails(start, e) ==> fails(list, e)
        }),
{
}

/// A list of one expression is that expression, and any other list is a tuple of its expressions.
pub proof fn law_end_of_expressions(s: State, expressions: Seq<AstIndex>)
    ensures
        expressions.len() == 1 ==> gives(
            grammar::end_of_expressions(s, expressions),
            s,
            Some(expressions[0]),
        ),
        expressions.len() != 1 ==> adds(
            grammar::end_of_expressions(s, expressions),
            s,
            NodeView::Tuple(expressions),
            s.span(),
        ),
{
    law_added_node(s, NodeView::Tuple(expressions), s.span());
}

/// Blocks: a line that isn't indented further than the line before opens no block. One that is
/// opens a block of all lines that stand as far in as it does.
pub proof fn law_indented_block(s: State, current: usize, indent: usize)
    ensures
        ({
            let at = s.skip_blanks();
            let block = grammar::indented_block(s, current, None);
            &&& at.peek() != Some(Token::NewLineIndented) || at.next_indent() <= current ==> gives(
                block,
                at,
                None,
            )
            &&& at.peek() == Some(Token::NewLineIndented) && at.next_indent() > current ==> block
                == grammar::indented_block_at(at.advance(), at.next_indent())
            &&& indent <= current ==> gives(
                grammar::indented_block(s, current, Some(indent)),
                s,
                None,
            )
            &&& indent > current ==> grammar::indented_block(s, current, Some(indent))
                == grammar::indented_block_at(s, indent)
        }),
{
}

/// A block of one line is that line, and any other block holds its lines in their order. It reaches
/// from before its first line to behind its last.
pub proof fn law_indented_block_at(
    s: State,
    indent: usize,
    s1: State,
    body: Seq<AstIndex>,
    e: ParserError,
)
    ensures
        ({
            let at = s.skip_padding();
            let lines = grammar::indented_lines(at, indent, Seq::empty());
            &&& gives(lines, s1, body) && body.len() == 1 ==> gives(
                grammar::indented_block_at(s, indent),
                s1,
                Some(body[0]),
            )
            &&& gives(lines, s1, body) && body.len() != 1 ==> adds(
                grammar::indented_block_at(s, indent),
                s1,
                NodeView::Block(body),
                between(at.span(), s1.span()),
            )
            &&& fails(lines, e) ==> fails(grammar::indented_block_at(s, indent), e)
        }),
{
    law_added_node(s1, NodeView::Block(body), s.skip_padding().span());
}

/// The lines of a block stand as far in as its first one. One that stands less far in comes after
/// the block, and one that stands further in is an error.
pub proof fn law_indented_lines(
    s: State,
    indent: usize,
    body: Seq<AstIndex>,
    s1: State,
    expression: AstIndex,
    e: ParserError,
)
    ensures
        ({
            let lines = grammar::indented_lines(s, indent, body);
            let next = s1.skip_padding();
            &&& reads_none(grammar::line(s), s, s1) ==> gives(lines, s1, body)
            &&& fails(grammar::line(s), e) ==> fails(lines, e)
            &&& reads_one(grammar::line(s), s, s1, expression) ==> {
                &&& next.current_indent() < indent ==> gives(lines, next, body.push(expression))
                &&& next.current_indent() == indent ==> lines == grammar::indented_lines(
                    next,
                    indent,
                    body.push(expression),
                )
                &&& next.current_indent() > indent ==> refuses(
                    lines,
                    next,
                    SyntaxError::UnexpectedIndentation,
                )
            }
        }),
{
}

/// What stands further in may be a map block. If it isn't, it is a block of lines.
pub proof fn law_indented_map_or_block(
    s: State,
    current: usize,
    s1: State,
    map: AstIndex,
    e: ParserError,
)
    ensures
        ({
            let at = s.skip_padding();
            let map_block = grammar::map_block(at, current, Some(at.next_indent()));
            &&& reads_one(map_block, at, s1, map) ==> gives(
                grammar::indented_map_or_block(s, current),
                s1,
                Some(map),
            )
            &&& reads_none(map_block, at, s1) ==> grammar::indented_map_or_block(s, current)
                == grammar::indented_block(s1, current, Some(at.next_indent()))
            &&& fails(map_block, e) ==> fails(grammar::indented_map_or_block(s, current), e)
        }),
{
}

} // verus!
