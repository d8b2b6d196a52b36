//! What loops, conditionals, matches, imports and functions are parsed to.
use vstd::prelude::*;

use crate::ast::{AstIndex, AstTry, ConstantIndex, MatchArmView, NodeView};
use crate::error::{InternalError, ParserError, SyntaxError};
use crate::frame::FrameView;
use crate::lexer::Token;
use crate::parser::grammar;
use crate::parser::laws::outcomes::{
    adds, adds_index, between, breaks_off, fails, gives, reads_none, reads_one, reads_to, refuses,
};
use crate::parser::laws::steps::{law_added_node, law_left_function};
use crate::parser::state::State;

verus! {

/// A for loop keeps its ids, its ranges and its body. If an `if` follows the ranges, the loop's
/// condition is the expression after it, and otherwise the loop has none. That holds for a loop
/// with an inline body as it does for one with a block.
pub proof fn law_for_loop(
    s: State,
    inline_body: Option<Seq<AstIndex>>,
    s1: State,
    args: Seq<ConstantIndex>,
    s2: State,
    ranges: Seq<AstIndex>,
    s3: State,
    condition: AstIndex,
    s4: State,
    body: AstIndex,
)
    requires
        s.skip_blanks().peek() == Some(Token::For),
        reads_to(
            grammar::for_args(s.skip_blanks().advance(), Seq::empty()),
            s.skip_blanks().advance(),
            s1,
            args,
        ),
        args.len() > 0,
        reads_to(grammar::for_ranges(s1, Seq::empty()), s1, s2, ranges),
        ranges.len() > 0,
    ensures
        ({
            let whole = grammar::for_loop(s, inline_body);
            let at = s2.skip_blanks();
            let indent = s.skip_blanks().current_indent();
            let filter = grammar::expression_start(at.advance(), Seq::empty(), 0, true);
            let filtered = grammar::loop_body(
                s3,
                inline_body,
                indent,
                SyntaxError::ExpectedForBody,
            );
            let unfiltered = grammar::loop_body(
                at,
                inline_body,
                indent,
                SyntaxError::ExpectedForBody,
            );
            &&& at.peek() == Some(Token::If) && reads_to(filter, s2, s3, Some(condition)) && gives(
                filtered,
                s4,
                body,
            ) ==> adds(
                whole,
                s4,
                NodeView::For { args, ranges, condition: Some(condition), body },
                s4.span(),
            )
            &&& at.peek() == Some(Token::If) && reads_to(filter, s2, s3, None) ==> refuses(
                whole,
                s3,
                SyntaxError::ExpectedForCondition,
            )
            &&& at.peek() != Some(Token::If) && at.remaining() <= s2.remaining() && gives(
                unfiltered,
                s4,
                body,
            ) ==> adds(
                whole,
                s4,
                NodeView::For { args, ranges, condition: None, body },
                s4.span(),
            )
        }),
{
    law_condition(s2, SyntaxError::ExpectedForCondition, s3, condition, arbitrary());
    law_added_node(
        s4,
        NodeView::For { args, ranges, condition: Some(condition), body },
        s4.span(),
    );
    law_added_node(s4, NodeView::For { args, ranges, condition: None, body }, s4.span());
}

/// A for loop needs its keyword, ids and ranges, and what is wrong with a part of it is wrong with
/// it.
pub proof fn law_for_loop_errors(
    s: State,
    inline_body: Option<Seq<AstIndex>>,
    s1: State,
    args: Seq<ConstantIndex>,
    s2: State,
    ranges: Seq<AstIndex>,
    e: ParserError,
)
    ensures
        ({
            let at = s.skip_blanks();
            let whole = grammar::for_loop(s, inline_body);
            let ids = grammar::for_args(at.advance(), Seq::empty());
            let values = grammar::for_ranges(s1, Seq::empty());
            &&& at.peek() != Some(Token::For) ==> gives(whole, at, None)
            &&& at.peek() == Some(Token::For) ==> {
                &&& fails(ids, e) ==> fails(whole, e)
                &&& reads_to(ids, at.advance(), s1, args) ==> {
                    &&& args.len() == 0 ==> refuses(whole, s1, SyntaxError::ExpectedForArgs)
                    &&& args.len() > 0 && fails(values, e) ==> fails(whole, e)
                    &&& args.len() > 0 && reads_to(values, s1, s2, ranges) && ranges.len() == 0
                        ==> refuses(whole, s2, SyntaxError::ExpectedForRanges)
                }
            }
        }),
{
}

/// The ids of a for loop are locals. They stand in their order, separated by commas, up to `in`.
pub proof fn law_for_args(
    s: State,
    args: Seq<ConstantIndex>,
    s1: State,
    arg: ConstantIndex,
    s2: State,
)
    ensures
        ({
            let whole = grammar::for_args(s, args);
            let at = s2.skip_blanks();
            &&& grammar::id(s, true) == (s1, None::<u32>) ==> gives(whole, s1, args)
            &&& grammar::id(s, true) == (s1, Some(arg)) && gives(s1.assign_id(arg), s2, ()) ==> {
                &&& at.peek() == Some(Token::Separator) ==> whole == grammar::for_args(
                    at.advance(),
                    args.push(arg),
                )
                &&& at.peek() == Some(Token::In) ==> gives(whole, at.advance(), args.push(arg))
                &&& at.peek() != Some(Token::Separator) && at.peek() != Some(Token::In) ==> refuses(
                    whole,
                    at,
                    SyntaxError::ExpectedForInKeyword,
                )
            }
        }),
{
}

/// The ranges of a for loop stand in their order, separated by commas.
pub proof fn law_for_ranges(
    s: State,
    ranges: Seq<AstIndex>,
    s1: State,
    range: AstIndex,
    e: ParserError,
)
    ensures
        ({
            let whole = grammar::for_ranges(s, ranges);
            let value = grammar::expression_start(s, Seq::empty(), 0, true);
            let at = s1.skip_blanks();
            &&& fails(value, e) ==> fails(whole, e)
            &&& reads_none(value, s, s1) ==> gives(whole, s1, ranges)
            &&& reads_one(value, s, s1, range) && at.peek() == Some(Token::Separator) ==> whole
                == grammar::for_ranges(at.advance(), ranges.push(range))
            &&& reads_one(value, s, s1, range) && at.peek() != Some(Token::Separator) ==> gives(
                whole,
                at,
                ranges.push(range),
            )
        }),
{
}

/// A condition is the expression behind an `if`, which has to be there. Without an `if` there is
/// none.
pub proof fn law_condition(
    s: State,
    missing: SyntaxError,
    s1: State,
    condition: AstIndex,
    e: ParserError,
)
    ensures
        ({
            let at = s.skip_blanks();
            let whole = grammar::condition(s, missing);
            let value = grammar::expression_start(at.advance(), Seq::empty(), 0, true);
            &&& at.peek() != Some(Token::If) ==> gives(whole, at, None)
            &&& at.peek() == Some(Token::If) && gives(value, s1, Some(condition)) ==> gives(
                whole,
                s1,
                Some(condition),
            )
            &&& at.peek() == Some(Token::If) && gives(value, s1, None) ==> refuses(
                whole,
                s1,
                missing,
            )
            &&& at.peek() == Some(Token::If) && fails(value, e) ==> fails(whole, e)
        }),
{
}

/// The body of an inline loop is the expression before it, or a tuple of the expressions before it.
/// Any other loop has a block as its body, which has to be there.
pub proof fn law_loop_body(
    s: State,
    expressions: Seq<AstIndex>,
    current: usize,
    missing: SyntaxError,
    s1: State,
    body: AstIndex,
    e: ParserError,
)
    ensures
        ({
            let inline = grammar::loop_body(s, Some(expressions), current, missing);
            let whole = grammar::loop_body(s, None, current, missing);
            let block = grammar::indented_block(s, current, None);
            &&& expressions.len() == 0 ==> breaks_off(inline, s, InternalError::ForParseFailure)
            &&& expressions.len() == 1 ==> gives(inline, s, expressions[0])
            &&& expressions.len() > 1 ==> adds_index(
                inline,
                s,
                NodeView::Tuple(expressions),
                s.span(),
            )
            &&& gives(block, s1, Some(body)) ==> gives(whole, s1, body)
            &&& gives(block, s1, None) ==> refuses(whole, s1, missing)
            &&& fails(block, e) ==> fails(whole, e)
        }),
{
    law_added_node(s, NodeView::Tuple(expressions), s.span());
}

/// `while` and `until` loops keep their condition, which has to be there, and their body, and
/// `loop` keeps its body. The keyword decides which loop it is.
pub proof fn law_other_loops(
    s: State,
    inline_body: Option<Seq<AstIndex>>,
    s1: State,
    condition: AstIndex,
    s2: State,
    body: AstIndex,
    e: ParserError,
)
    ensures
        ({
            let at = s.skip_blanks();
            let read = at.advance();
            let indent = at.current_indent();
            let test = grammar::expression_start(read, Seq::empty(), 0, true);
            let while_loop = grammar::while_loop(s, inline_body);
            let until_loop = grammar::until_loop(s, inline_body);
            let loop_block = grammar::loop_block(s);
            let while_body = grammar::loop_body(
                s1,
                inline_body,
                indent,
                SyntaxError::ExpectedWhileBody,
            );
            let until_body = grammar::loop_body(
                s1,
                inline_body,
                indent,
                SyntaxError::ExpectedUntilBody,
            );
            let plain_body = grammar::loop_body(read, None, indent, SyntaxError::ExpectedLoopBody);
            &&& at.peek() != Some(Token::While) ==> gives(while_loop, at, None)
            &&& at.peek() != Some(Token::Until) ==> gives(until_loop, at, None)
            &&& at.peek() != Some(Token::Loop) ==> gives(loop_block, at, None)
            &&& at.peek() == Some(Token::While) ==> {
                &&& fails(test, e) ==> fails(while_loop, e)
                &&& reads_none(test, read, s1) ==> refuses(
                    while_loop,
                    s1,
                    SyntaxError::ExpectedWhileCondition,
                )
                &&& reads_one(test, read, s1, condition) && gives(while_body, s2, body) ==> adds(
                    while_loop,
                    s2,
                    NodeView::While { condition, body },
                    s2.span(),
                )
                &&& reads_one(test, read, s1, condition) && fails(while_body, e) ==> fails(
                    while_loop,
                    e,
                )
            }
            &&& at.peek() == Some(Token::Until) ==> {
                &&& fails(test, e) ==> fails(until_loop, e)
                &&& reads_none(test, read, s1) ==> refuses(
                    until_loop,
                    s1,
                    SyntaxError::ExpectedUntilCondition,
                )
                &&& reads_one(test, read, s1, condition) && gives(until_body, s2, body) ==> adds(
                    until_loop,
                    s2,
                    NodeView::Until { condition, body },
                    s2.span(),
                )
                &&& reads_one(test, read, s1, condition) && fails(until_body, e) ==> fails(
                    until_loop,
                    e,
                )
            }
            &&& at.peek() == Some(Token::Loop) ==> {
                &&& gives(plain_body, s2, body) ==> adds(
                    loop_block,
                    s2,
                    NodeView::Loop { body },
                    s2.span(),
                )
                &&& fails(plain_body, e) ==> fails(loop_block, e)
            }
        }),
{
    law_added_node(s2, NodeView::While { condition, body }, s2.span());
    law_added_node(s2, NodeView::Until { condition, body }, s2.span());
    law_added_node(s2, NodeView::Loop { body }, s2.span());
}

/// An if starts with its condition, which has to be there. With `then` its branches follow inline,
/// and otherwise as blocks.
pub proof fn law_if(s: State, s1: State, condition: AstIndex, e: ParserError)
    ensures
        ({
            let whole = grammar::if_expression(s);
            let test = grammar::expression_start(s.advance(), Seq::empty(), 0, true);
            let at = s1.skip_blanks();
            &&& s.peek() != Some(Token::If) ==> gives(whole, s, None)
            &&& s.peek() == Some(Token::If) ==> {
                &&& fails(test, e) ==> fails(whole, e)
                &&& reads_none(test, s.advance(), s1) ==> refuses(
                    whole,
                    s1,
                    SyntaxError::ExpectedIfCondition,
                )
                &&& reads_one(test, s.advance(), s1, condition) && at.peek() == Some(Token::Then)
                    ==> whole == grammar::inline_if(at.advance(), condition)
                &&& reads_one(test, s.advance(), s1, condition) && at.peek() != Some(Token::Then)
                    ==> whole == grammar::if_block(at, s.current_indent(), condition)
            }
        }),
{
}

/// An inline if keeps its condition and its branches. It has an else branch exactly if an `else`
/// follows.
pub proof fn law_inline_if(
    s: State,
    condition: AstIndex,
    s1: State,
    then_node: AstIndex,
    s2: State,
    else_node: AstIndex,
    e: ParserError,
)
    ensures
        ({
            let whole = grammar::inline_if(s, condition);
            let first = grammar::primary_expressions(s, false);
            let at = s1.skip_blanks();
            let second = grammar::primary_expressions(at.advance(), false);
            &&& fails(first, e) ==> fails(whole, e)
            &&& reads_none(first, s, s1) ==> refuses(
                whole,
                s1,
                SyntaxError::ExpectedThenExpression,
            )
            &&& reads_one(first, s, s1, then_node) ==> {
                &&& at.peek() != Some(Token::Else) ==> adds(
                    whole,
                    at,
                    NodeView::If {
                        condition,
                        then_node,
                        else_if_blocks: Seq::empty(),
                        else_node: None,
                    },
                    at.span(),
                )
                &&& at.peek() == Some(Token::Else) && gives(second, s2, Some(else_node)) ==> adds(
                    whole,
                    s2,
                    NodeView::If {
                        condition,
                        then_node,
                        else_if_blocks: Seq::empty(),
                        else_node: Some(else_node),
                    },
                    s2.span(),
                )
                &&& at.peek() == Some(Token::Else) && gives(second, s2, None) ==> refuses(
                    whole,
                    s2,
                    SyntaxError::ExpectedElseExpression,
                )
                &&& at.peek() == Some(Token::Else) && fails(second, e) ==> fails(whole, e)
            }
        }),
{
    let at = s1.skip_blanks();
    law_added_node(
        at,
        NodeView::If { condition, then_node, else_if_blocks: Seq::empty(), else_node: None },
        at.span(),
    );
    law_added_node(
        s2,
        NodeView::If {
            condition,
            then_node,
            else_if_blocks: Seq::empty(),
            else_node: Some(else_node),
        },
        s2.span(),
    );
}

/// An if with blocks keeps its condition, the block of each branch, and the else block.
pub proof fn law_if_block(
    s: State,
    current: usize,
    condition: AstIndex,
    s1: State,
    then_node: AstIndex,
    s2: State,
    else_if_blocks: Seq<(AstIndex, AstIndex)>,
    s3: State,
    else_node: Option<AstIndex>,
    e: ParserError,
)
    ensures
        ({
            let whole = grammar::if_block(s, current, condition);
            let first = grammar::indented_map_or_block(s, current);
            let between_them = grammar::else_if_blocks(s1, current, Seq::empty());
            let last = grammar::else_block(s2, current);
            &&& fails(first, e) ==> fails(whole, e)
            &&& reads_to(first, s, s1, None) ==> refuses(
                whole,
                s1,
                SyntaxError::ExpectedThenKeywordOrBlock,
            )
            &&& reads_to(first, s, s1, Some(then_node)) ==> {
                &&& fails(between_them, e) ==> fails(whole, e)
                &&& reads_to(between_them, s1, s2, else_if_blocks) && fails(last, e) ==> fails(
                    whole,
                    e,
                )
                &&& reads_to(between_them, s1, s2, else_if_blocks) && gives(last, s3, else_node)
                    ==> adds(
                    whole,
                    s3,
                    NodeView::If { condition, then_node, else_if_blocks, else_node },
                    s3.span(),
                )
            }
        }),
{
    law_added_node(
        s3,
        NodeView::If { condition, then_node, else_if_blocks, else_node },
        s3.span(),
    );
}

/// Each `else if` at the indentation of the if has a condition and a block, which have to be there.
pub proof fn law_else_if_blocks(
    s: State,
    current: usize,
    blocks: Seq<(AstIndex, AstIndex)>,
    s1: State,
    condition: AstIndex,
    s2: State,
    block: AstIndex,
    e: ParserError,
)
    ensures
        ({
            let whole = grammar::else_if_blocks(s, current, blocks);
            let at = s.skip_blanks();
            let test = grammar::expression_start(at.advance(), Seq::empty(), 0, true);
            let body = grammar::indented_map_or_block(s1, current);
            let follows = s.current_indent() == current && at.peek() == Some(Token::ElseIf);
            &&& s.current_indent() != current ==> gives(whole, s, blocks)
            &&& s.current_indent() == current && at.peek() != Some(Token::ElseIf) ==> gives(
                whole,
                at,
                blocks,
            )
            &&& follows && fails(test, e) ==> fails(whole, e)
            &&& follows && reads_none(test, at.advance(), s1) ==> refuses(
                whole,
                s1,
                SyntaxError::ExpectedElseIfCondition,
            )
            &&& follows && reads_one(test, at.advance(), s1, condition) ==> {
                &&& fails(body, e) ==> fails(whole, e)
                &&& reads_to(body, s1, s2, None) ==> refuses(
                    whole,
                    s2,
                    SyntaxError::ExpectedElseIfBlock,
                )
                &&& reads_to(body, s1, s2, Some(block)) ==> whole == grammar::else_if_blocks(
                    s2,
                    current,
                    blocks.push((condition, block)),
                )
            }
        }),
{
}

/// An `else` at the indentation of the if has a block, which has to be there.
pub proof fn law_else_block(s: State, current: usize, s1: State, block: AstIndex, e: ParserError)
    ensures
        ({
            let whole = grammar::else_block(s, current);
            let at = s.skip_blanks();
            let body = grammar::indented_map_or_block(at.advance(), current);
            let follows = s.current_indent() == current && at.peek() == Some(Token::Else);
            &&& s.current_indent() != current ==> gives(whole, s, None)
            &&& s.current_indent() == current && at.peek() != Some(Token::Else) ==> gives(
                whole,
                at,
                None,
            )
            &&& follows && fails(body, e) ==> fails(whole, e)
            &&& follows && gives(body, s1, None) ==> refuses(
                whole,
                s1,
                SyntaxError::ExpectedElseBlock,
            )
            &&& follows && gives(body, s1, Some(block)) ==> gives(whole, s1, Some(block))
        }),
{
}

/// A match keeps its expression, which has to be there, and its arms, which stand further in. It
/// reaches from before its keyword to its last arm.
pub proof fn law_match(
    s: State,
    s1: State,
    expression: AstIndex,
    s2: State,
    arms: Seq<MatchArmView>,
    e: ParserError,
)
    ensures
        ({
            let whole = grammar::match_expression(s);
            let value = grammar::primary_expressions(s.advance(), false);
            let at = s1.skip_padding();
            let all = grammar::match_arms(at, at.current_indent(), Seq::empty());
            &&& s.peek() != Some(Token::Match) ==> gives(whole, s, None)
            &&& s.peek() == Some(Token::Match) ==> {
                &&& fails(value, e) ==> fails(whole, e)
                &&& reads_none(value, s.advance(), s1) ==> refuses(
                    whole,
                    s1,
                    SyntaxError::ExpectedMatchExpression,
                )
                &&& reads_one(value, s.advance(), s1, expression) ==> {
                    &&& at.current_indent() <= s.current_indent() ==> refuses(
                        whole,
                        at,
                        SyntaxError::ExpectedMatchArm,
                    )
                    &&& at.current_indent() > s.current_indent() && fails(all, e) ==> fails(whole, e)
                    &&& at.current_indent() > s.current_indent() && gives(all, s2, arms) ==> adds(
                        whole,
                        s2,
                        NodeView::Match { expression, arms },
                        between(s.span(), s2.span()),
                    )
                }
            }
        }),
{
    law_added_node(s2, NodeView::Match { expression, arms }, s.span());
}

/// The arms of a match stand in their order and equally far in. A line that stands less far in
/// comes after the match, and one that stands further in is an error.
pub proof fn law_match_arms(
    s: State,
    indent: usize,
    arms: Seq<MatchArmView>,
    s1: State,
    arm: MatchArmView,
    e: ParserError,
)
    ensures
        ({
            let whole = grammar::match_arms(s, indent, arms);
            let one = grammar::match_arm(s, indent);
            let at = s1.skip_padding();
            let read = s.peek() is Some && gives(one, s1, arm) && s1.remaining() < s.remaining();
            &&& s.peek() is None ==> gives(whole, s, arms)
            &&& s.peek() is Some && fails(one, e) ==> fails(whole, e)
            &&& read && at.next_indent() < indent ==> gives(whole, at, arms.push(arm))
            &&& read && at.next_indent() == indent ==> whole == grammar::match_arms(
                at,
                indent,
                arms.push(arm),
            )
            &&& read && at.next_indent() > indent ==> refuses(
                whole,
                at,
                SyntaxError::UnexpectedIndentation,
            )
        }),
{
}

/// An arm keeps its patterns, the condition behind its `if` where there is one, and its value,
/// which stands behind `then` or in a block. Every `or` has to have a pattern on both of its sides.
pub proof fn law_match_arm(
    s: State,
    indent: usize,
    s1: State,
    patterns: Seq<AstIndex>,
    count: int,
    s2: State,
    condition: Option<AstIndex>,
    s3: State,
    expression: AstIndex,
    e: ParserError,
)
    ensures
        ({
            let whole = grammar::match_arm(s, indent);
            let alternatives = grammar::arm_patterns(s, Seq::empty(), 1);
            let test = grammar::condition(s1, SyntaxError::ExpectedMatchCondition);
            let at = s2.skip_blanks();
            let inline = grammar::primary_expressions(at.advance(), false);
            let block = grammar::indented_map_or_block(at, indent);
            let arm = MatchArmView { patterns, condition, expression };
            &&& fails(alternatives, e) ==> fails(whole, e)
            &&& reads_to(alternatives, s, s1, (patterns, count)) ==> {
                &&& patterns.len() != count ==> refuses(
                    whole,
                    s1,
                    SyntaxError::ExpectedMatchPattern,
                )
                &&& patterns.len() == count && fails(test, e) ==> fails(whole, e)
                &&& patterns.len() == count && reads_to(test, s1, s2, condition) ==> {
                    &&& at.peek() == Some(Token::Then) ==> {
                        &&& fails(inline, e) ==> fails(whole, e)
                        &&& gives(inline, s3, None) ==> refuses(
                            whole,
                            s3,
                            SyntaxError::ExpectedMatchArmExpressionAfterThen,
                        )
                        &&& gives(inline, s3, Some(expression)) ==> gives(whole, s3, arm)
                    }
                    &&& at.peek() != Some(Token::Then) && at.remaining() < s.remaining() ==> {
                        &&& fails(block, e) ==> fails(whole, e)
                        &&& gives(block, s3, None) ==> refuses(
                            whole,
                            s3,
                            SyntaxError::ExpectedMatchArmExpression,
                        )
                        &&& gives(block, s3, Some(expression)) ==> gives(whole, s3, arm)
                    }
                }
            }
        }),
{
}

/// The alternatives of an arm stand in their order, and each `or` calls for one more.
pub proof fn law_arm_patterns(
    s: State,
    patterns: Seq<AstIndex>,
    count: int,
    s1: State,
    pattern: AstIndex,
    e: ParserError,
)
    ensures
        ({
            let whole = grammar::arm_patterns(s, patterns, count);
            let one = grammar::arm_pattern(s);
            let at = s1.skip_blanks();
            &&& fails(one, e) ==> fails(whole, e)
            &&& reads_none(one, s, s1) ==> gives(whole, s1, (patterns, count))
            &&& reads_one(one, s, s1, pattern) && at.peek() == Some(Token::Or) && at.remaining()
                <= s1.remaining() ==> whole == grammar::arm_patterns(
                at.advance(),
                patterns.push(pattern),
                count + 1,
            )
            &&& reads_one(one, s, s1, pattern) && at.peek() != Some(Token::Or) && at.remaining()
                <= s1.remaining() ==> whole == grammar::arm_patterns(
                at,
                patterns.push(pattern),
                count,
            )
        }),
{
}

/// A single pattern stands for itself, and patterns that are separated by commas make a tuple.
pub proof fn law_arm_pattern(
    s: State,
    s1: State,
    first: AstIndex,
    s2: State,
    patterns: Seq<AstIndex>,
    e: ParserError,
)
    ensures
        ({
            let whole = grammar::arm_pattern(s);
            let one = grammar::match_pattern(s);
            let all = grammar::pattern_list(s1, seq![first]);
            &&& fails(one, e) ==> fails(whole, e)
            &&& reads_none(one, s, s1) ==> gives(whole, s1, None)
            &&& reads_one(one, s, s1, first) && fails(all, e) ==> fails(whole, e)
            &&& reads_one(one, s, s1, first) && reads_to(all, s1, s2, patterns) ==> {
                &&& patterns.len() == 1 ==> gives(whole, s2, Some(patterns[0]))
                &&& patterns.len() != 1 ==> adds(
                    whole,
                    s2,
                    NodeView::Tuple(patterns),
                    s2.span(),
                )
            }
        }),
{
    law_added_node(s2, NodeView::Tuple(patterns), s2.span());
}

/// A comma in a pattern has to be followed by another pattern.
pub proof fn law_pattern_list(
    s: State,
    patterns: Seq<AstIndex>,
    s1: State,
    pattern: AstIndex,
    e: ParserError,
)
    ensures
        ({
            let whole = grammar::pattern_list(s, patterns);
            let at = s.skip_blanks();
            let one = grammar::match_pattern(at.advance());
            let goes_on = at.peek() == Some(Token::Separator);
            &&& !goes_on ==> gives(whole, at, patterns)
            &&& goes_on && fails(one, e) ==> fails(whole, e)
            &&& goes_on && reads_none(one, at.advance(), s1) ==> refuses(
                whole,
                s1,
                SyntaxError::ExpectedMatchPattern,
            )
            &&& goes_on && reads_one(one, at.advance(), s1, pattern) ==> whole
                == grammar::pattern_list(s1, patterns.push(pattern))
        }),
{
}

/// A pattern is a literal, a list, a wildcard, the empty value, or an id, which becomes a local.
pub proof fn law_match_pattern(s: State, s1: State, constant: ConstantIndex, s2: State)
    ensures
        ({
            let at = s.skip_blanks();
            let read = at.advance();
            let whole = grammar::match_pattern(s);
            let token = at.peek();
            let literal = token == Some(Token::True) || token == Some(Token::False) || token == Some(
                Token::Number,
            ) || token == Some(Token::String);
            let empty = token == Some(Token::ParenOpen) && at.peek_n(1) == Some(Token::ParenClose);
            &&& literal ==> whole == grammar::term(at, false)
            &&& token == Some(Token::ListStart) ==> whole == grammar::list(read, false)
            &&& token == Some(Token::Wildcard) ==> adds(
                whole,
                read,
                NodeView::Wildcard,
                read.span(),
            )
            &&& empty ==> adds(whole, read.advance(), NodeView::Empty, read.advance().span())
            &&& token == Some(Token::Id) && grammar::id(at, false) == (s1, Some(constant)) && gives(
                s1.assign_id(constant),
                s2,
                (),
            ) ==> adds(whole, s2, NodeView::Id(constant), s2.span())
            &&& !literal && !empty && token != Some(Token::ListStart) && token != Some(
                Token::Wildcard,
            ) && token != Some(Token::Id) ==> gives(whole, at, None)
        }),
{
    let read = s.skip_blanks().advance();
    law_added_node(read, NodeView::Wildcard, read.span());
    law_added_node(read.advance(), NodeView::Empty, read.advance().span());
    law_added_node(s2, NodeView::Id(constant), s2.span());
}

/// An import brings items in, from a single item where it says so.
pub proof fn law_import(
    s: State,
    s1: State,
    sources: Seq<Seq<ConstantIndex>>,
    e: ParserError,
)
    ensures
        ({
            let whole = grammar::import_expression(s);
            let named = grammar::import_items(s.advance());
            let at = s1.skip_blanks();
            &&& s.peek() == Some(Token::Import) ==> whole == grammar::import_from(
                s.advance(),
                Seq::empty(),
            )
            &&& s.peek() == Some(Token::From) ==> {
                &&& fails(named, e) ==> fails(whole, e)
                &&& gives(named, s1, sources) && sources.len() != 1 ==> refuses(
                    whole,
                    s1,
                    SyntaxError::ImportFromExpressionHasTooManyItems,
                )
                &&& gives(named, s1, sources) && sources.len() == 1 && at.peek() != Some(
                    Token::Import,
                ) ==> refuses(whole, at, SyntaxError::ExpectedImportKeywordAfterFrom)
                &&& gives(named, s1, sources) && sources.len() == 1 && at.peek() == Some(
                    Token::Import,
                ) ==> whole == grammar::import_from(at.advance(), sources[0])
            }
            &&& s.peek() != Some(Token::Import) && s.peek() != Some(Token::From) ==> breaks_off(
                whole,
                s,
                InternalError::UnexpectedToken,
            )
        }),
{
}

/// An import keeps where it imports from and the items that it imports, and the last id of each
/// item becomes a local.
pub proof fn law_import_from(
    s: State,
    from: Seq<ConstantIndex>,
    s1: State,
    items: Seq<Seq<ConstantIndex>>,
    s2: State,
    e: ParserError,
)
    ensures
        ({
            let whole = grammar::import_from(s, from);
            let named = grammar::import_items(s);
            &&& fails(named, e) ==> fails(whole, e)
            &&& gives(named, s1, items) && gives(grammar::assign_imports(s1, items, 0), s2, ())
                ==> adds(whole, s2, NodeView::Import { from, items }, s2.span())
        }),
{
    law_added_node(s2, NodeView::Import { from, items }, s2.span());
}

/// The last id of each imported item is assigned.
pub proof fn law_assigned_imports(s: State, items: Seq<Seq<ConstantIndex>>, n: int, s1: State)
    requires
        0 <= n < items.len(),
        items[n].len() > 0,
    ensures
        gives(s.assign_id(items[n][items[n].len() - 1]), s1, ()) ==> grammar::assign_imports(
            s,
            items,
            n,
        ) == grammar::assign_imports(s1, items, n + 1),
        gives(grammar::assign_imports(s, items, items.len() as int), s, ()),
{
}

/// At least one item has to be imported. Items are separated by blanks, and each is an id with the
/// ids behind its dots.
pub proof fn law_import_items(
    s: State,
    items: Seq<Seq<ConstantIndex>>,
    s1: State,
    root: ConstantIndex,
    s2: State,
    item: Seq<ConstantIndex>,
    e: ParserError,
)
    ensures
        ({
            let all = grammar::more_import_items(s, Seq::empty());
            let more = grammar::more_import_items(s, items);
            let path = grammar::import_path(s1, seq![root]);
            &&& gives(all, s2, items) && items.len() > 0 ==> gives(
                grammar::import_items(s),
                s2,
                items,
            )
            &&& gives(all, s2, items) && items.len() == 0 ==> refuses(
                grammar::import_items(s),
                s2,
                SyntaxError::ExpectedIdInImportExpression,
            )
            &&& fails(all, e) ==> fails(grammar::import_items(s), e)
            &&& grammar::id(s, false) == (s1, None::<u32>) ==> gives(more, s1, items)
            &&& grammar::id(s, false) == (s1, Some(root)) && s1.remaining() < s.remaining() ==> {
                &&& reads_to(path, s1, s2, item) ==> more == grammar::more_import_items(
                    s2,
                    items.push(item),
                )
                &&& fails(path, e) ==> fails(more, e)
            }
        }),
{
}

/// Each dot of an imported item has to be followed by an id.
pub proof fn law_import_path(s: State, item: Seq<ConstantIndex>, s1: State, id: ConstantIndex)
    ensures
        ({
            let whole = grammar::import_path(s, item);
            let next = grammar::id(s.advance(), false);
            &&& s.peek() != Some(Token::Dot) ==> gives(whole, s, item)
            &&& s.peek() == Some(Token::Dot) && next == (s1, Some(id)) && s1.remaining()
                < s.remaining() ==> whole == grammar::import_path(s1, item.push(id))
            &&& s.peek() == Some(Token::Dot) && next == (s1, None::<u32>) ==> refuses(
                whole,
                s1,
                SyntaxError::ExpectedImportModuleId,
            )
        }),
{
}

/// A try keeps its block, the id and the block of its `catch`, which have to be there, and the
/// block of its `finally` where there is one. The caught id is a local. A try reaches from its
/// keyword to its last block.
pub proof fn law_try(
    s: State,
    current: usize,
    s1: State,
    try_block: AstIndex,
    s2: State,
    catch_arg: ConstantIndex,
    s3: State,
    s4: State,
    catch_block: AstIndex,
    s5: State,
    finally_block: Option<AstIndex>,
    e: ParserError,
)
    ensures
        ({
            let whole = grammar::try_expression(s, current);
            let first = grammar::indented_block(s, current, None);
            let at = s1.skip_blanks();
            let caught = grammar::id(at.advance(), true);
            let second = grammar::indented_block(s3, current, None);
            let last = grammar::finally_block(s4, current);
            &&& fails(first, e) ==> fails(whole, e)
            &&& reads_to(first, s, s1, None) ==> refuses(whole, s1, SyntaxError::ExpectedTryBody)
            &&& reads_to(first, s, s1, Some(try_block)) ==> {
                &&& at.peek() != Some(Token::Catch) ==> refuses(
                    whole,
                    at.advance(),
                    SyntaxError::ExpectedCatchBlock,
                )
                &&& at.peek() == Some(Token::Catch) && caught == (s2, None::<u32>) ==> refuses(
                    whole,
                    s2,
                    SyntaxError::ExpectedCatchArgument,
                )
                &&& at.peek() == Some(Token::Catch) && caught == (s2, Some(catch_arg)) && gives(
                    s2.assign_id(catch_arg),
                    s3,
                    (),
                ) ==> {
                    &&& fails(second, e) ==> fails(whole, e)
                    &&& reads_to(second, s3, s4, None) ==> refuses(
                        whole,
                        s4,
                        SyntaxError::ExpectedCatchBody,
                    )
                    &&& reads_to(second, s3, s4, Some(catch_block)) && fails(last, e) ==> fails(
                        whole,
                        e,
                    )
                    &&& reads_to(second, s3, s4, Some(catch_block)) && gives(
                        last,
                        s5,
                        finally_block,
                    ) ==> adds(
                        whole,
                        s5,
                        NodeView::Try(
                            AstTry { try_block, catch_arg, catch_block, finally_block },
                        ),
                        between(s.span(), s5.span()),
                    )
                }
            }
        }),
{
    law_added_node(
        s5,
        NodeView::Try(AstTry { try_block, catch_arg, catch_block, finally_block }),
        s.span(),
    );
}

/// A `finally` has a block, which has to be there.
pub proof fn law_finally_block(s: State, current: usize, s1: State, block: AstIndex, e: ParserError)
    ensures
        ({
            let at = s.skip_blanks();
            let whole = grammar::finally_block(s, current);
            let body = grammar::indented_block(at.advance(), current, None);
            &&& at.peek() != Some(Token::Finally) ==> gives(whole, at, None)
            &&& at.peek() == Some(Token::Finally) ==> {
                &&& fails(body, e) ==> fails(whole, e)
                &&& gives(body, s1, None) ==> refuses(whole, s1, SyntaxError::ExpectedFinallyBody)
                &&& gives(body, s1, Some(block)) ==> gives(whole, s1, Some(block))
            }
        }),
{
}

/// A function is parsed in a frame of its own, in which its args are assigned, and the node is what
/// that frame has come to: it is a generator exactly if a yield was noted in it, whatever its args
/// are. Its locals are the ids that were assigned and not captured, and it captures each non-local
/// once. The frames around it are back afterwards, and what the function captures counts as read in
/// the innermost of them.
pub proof fn law_function(
    s: State,
    s1: State,
    args: Seq<ConstantIndex>,
    entered: State,
    s2: State,
    body: AstIndex,
)
    requires
        s.skip_blanks().peek() == Some(Token::Function),
        reads_to(
            grammar::function_args(s.skip_blanks().advance(), Seq::empty()),
            s.skip_blanks().advance(),
            s1,
            args,
        ),
        s1.skip_blanks().peek() == Some(Token::Function),
        entered.lexer == s1.skip_blanks().advance().lexer,
        entered.nodes == s1.skip_blanks().advance().nodes,
        entered.constants == s1.skip_blanks().advance().constants,
        entered.frames.len() == s1.skip_blanks().advance().frames.len() + 1,
        entered.frames.drop_last() == s1.skip_blanks().advance().frames,
        !entered.frames.last().contains_yield,
        entered.frames.last().assigned == args.to_set(),
        entered.frames.last().non_locals == Set::<u32>::empty(),
        entered.frames.last().accesses == Map::<u32, usize>::empty(),
        gives(
            grammar::function_body(entered.skip_blanks(), s.skip_blanks().current_indent()),
            s2,
            body,
        ),
        s2.frames.len() > 1,
        s2.frames[s2.frames.len() - 2].can_access(s2.frames.last().non_locals),
        s2.nodes.len() < 0x1_0000_0000,
    ensures
        grammar::function(s) matches Ok((t, Some(i))) && {
            let inner = s2.frames.last();
            &&& i == s2.nodes.len()
            &&& t.nodes.len() == s2.nodes.len() + 1
            &&& t.nodes.drop_last() == s2.nodes
            &&& t.nodes.last().span == between(s.skip_blanks().advance().span(), s2.span())
            &&& t.nodes.last().node == NodeView::Function {
                args,
                local_count: inner.assigned.difference(inner.non_locals).len(),
                accessed_non_locals: inner.captures(),
                body,
                is_generator: inner.contains_yield,
            }
            &&& t.lexer == s2.lexer
            &&& t.constants == s2.constants
            &&& t.frames.len() == s2.frames.len() - 1
            &&& t.frames.last() == s2.frames[s2.frames.len() - 2].access_all(inner.non_locals)
            &&& forall|k: int|
                0 <= k < s2.frames.len() - 2 ==> (#[trigger] t.frames[k]) == s2.frames[k]
        },
{
    let opened = s.skip_blanks().advance();
    let inner = s2.frames.last();
    let outside = s1.skip_blanks().advance();
    assert(entered.frames.last() =~= FrameView::empty().assign_all(args));
    assert(entered.frames =~= outside.frames.push(FrameView::empty().assign_all(args)));
    assert(entered =~= outside.push_frame(FrameView::empty().assign_all(args)));
    law_left_function(s2);
    let s3 = s2.leave_function()->Ok_0.0;
    let node = NodeView::Function {
        args,
        local_count: inner.locals().len(),
        accessed_non_locals: inner.captures(),
        body,
        is_generator: inner.contains_yield,
    };
    law_added_node(s3, node, opened.span());
    let t = grammar::function(s)->Ok_0.0;
    assert(t.nodes.drop_last() =~= s2.nodes);
}

/// A function needs its opening and its closing bar, and what is wrong with its body is wrong with
/// it.
pub proof fn law_function_errors(
    s: State,
    s1: State,
    args: Seq<ConstantIndex>,
    entered: State,
    e: ParserError,
)
    ensures
        ({
            let at = s.skip_blanks();
            let whole = grammar::function(s);
            let ids = grammar::function_args(at.advance(), Seq::empty());
            let closing = s1.skip_blanks();
            &&& at.peek() != Some(Token::Function) ==> breaks_off(
                whole,
                at,
                InternalError::FunctionParseFailure,
            )
            &&& at.peek() == Some(Token::Function) && reads_to(ids, at.advance(), s1, args) ==> {
                &&& closing.peek() != Some(Token::Function) ==> refuses(
                    whole,
                    closing.advance(),
                    SyntaxError::ExpectedFunctionArgsEnd,
                )
                &&& closing.peek() == Some(Token::Function) && entered
                    == closing.advance().push_frame(FrameView::empty().assign_all(args)) && fails(
                    grammar::function_body(entered.skip_blanks(), at.current_indent()),
                    e,
                ) ==> fails(whole, e)
            }
        }),
{
}

/// The args of a function stand in their order, with any padding between them.
pub proof fn law_function_args(
    s: State,
    args: Seq<ConstantIndex>,
    s1: State,
    arg: ConstantIndex,
)
    ensures
        grammar::id(s.skip_padding(), true) == (s1, None::<u32>) ==> gives(
            grammar::function_args(s, args),
            s1,
            args,
        ),
        grammar::id(s.skip_padding(), true) == (s1, Some(arg)) && s1.remaining() < s.remaining()
            ==> grammar::function_args(s, args) == grammar::function_args(s1, args.push(arg)),
{
}

/// The body of a function is a block that stands further in than the function, or else the rest of
/// its line. It has to be there.
pub proof fn law_function_body(s: State, current: usize, s1: State, body: AstIndex, e: ParserError)
    ensures
        ({
            let whole = grammar::function_body(s, current);
            let has_block = s.peek() == Some(Token::NewLineIndented) && s.next_indent() > current;
            let block = grammar::indented_map_or_block(s, current);
            let line = grammar::line(s);
            &&& has_block ==> {
                &&& gives(block, s1, Some(body)) ==> gives(whole, s1, body)
                &&& gives(block, s1, None) ==> breaks_off(
                    whole,
                    s1,
                    InternalError::FunctionParseFailure,
                )
                &&& fails(block, e) ==> fails(whole, e)
            }
            &&& !has_block ==> {
                &&& gives(line, s1, Some(body)) ==> gives(whole, s1, body)
                &&& gives(line, s1, None) ==> refuses(
                    whole,
                    s1,
                    SyntaxError::ExpectedFunctionBody,
                )
                &&& fails(line, e) ==> fails(whole, e)
            }
        }),
{
}

} // verus!
