//! The grammar: what each construct of the language is parsed to.
//!
//! Each function takes the state that a construct is parsed in and gives the state after it along
//! with the node that stands for it, `None` where the construct isn't there, or the error that
//! parsing ends in.
use vstd::prelude::*;

use crate::ast::{
    AssignOp, AssignTarget, AstIndex, AstNodeView, AstOp, AstTry, ConstantIndex, LookupNodeView,
    MatchArmView, NodeView, Scope,
};
use crate::constant_pool::ConstantView;
use crate::error::{InternalError, ParserError, SyntaxError};
use crate::frame::FrameView;
use crate::lexer::{LexedSource, LexerView, NumberLiteral, Span, Token};
use crate::parser::state::{
    any, internal_error, optional, some, some_tokens, stuck, syntax_error, Parsed, State,
};

verus! {

broadcast use crate::parser::state::group_steps;

/// A construct that may be absent.
pub type Parse = Parsed<Option<AstIndex>>;

/// How tightly an operator binds on its left and on its right.
///
/// An operator that binds tighter on the left than on the right is right-associative, which
/// chained comparisons require.
pub open spec fn precedence(op: Token) -> Option<(u8, u8)> {
    match op {
        Token::Or => Some((1, 2)),
        Token::And => Some((3, 4)),
        Token::Equal | Token::NotEqual => Some((8, 7)),
        Token::Greater | Token::GreaterOrEqual | Token::Less | Token::LessOrEqual => Some((10, 9)),
        Token::Add | Token::Subtract => Some((11, 12)),
        Token::Multiply | Token::Divide | Token::Modulo => Some((13, 14)),
        _ => None,
    }
}

pub open spec fn ends_operator(token: Option<Token>) -> bool {
    ||| token == Some(Token::Whitespace)
    ||| token == Some(Token::NewLine)
    ||| token == Some(Token::NewLineIndented)
}

/// The AST's name for a binary operator.
pub open spec fn binary_op(op: Token) -> AstOp
    recommends
        precedence(op) is Some,
{
    match op {
        Token::Add => AstOp::Add,
        Token::Subtract => AstOp::Subtract,
        Token::Multiply => AstOp::Multiply,
        Token::Divide => AstOp::Divide,
        Token::Modulo => AstOp::Modulo,
        Token::Equal => AstOp::Equal,
        Token::NotEqual => AstOp::NotEqual,
        Token::Greater => AstOp::Greater,
        Token::GreaterOrEqual => AstOp::GreaterOrEqual,
        Token::Less => AstOp::Less,
        Token::LessOrEqual => AstOp::LessOrEqual,
        Token::And => AstOp::And,
        _ => AstOp::Or,
    }
}

/// The operator of an assignment token.
pub open spec fn assign_op(token: Token) -> Option<AssignOp> {
    match token {
        Token::Assign => Some(AssignOp::Equal),
        Token::AssignAdd => Some(AssignOp::Add),
        Token::AssignSubtract => Some(AssignOp::Subtract),
        Token::AssignMultiply => Some(AssignOp::Multiply),
        Token::AssignDivide => Some(AssignOp::Divide),
        Token::AssignModulo => Some(AssignOp::Modulo),
        _ => None,
    }
}

pub open spec fn starts_lookup(token: Option<Token>) -> bool {
    ||| token == Some(Token::Dot)
    ||| token == Some(Token::ListStart)
    ||| token == Some(Token::ParenOpen)
}

/// The character that an escape in a string stands for.
pub open spec fn escaped(c: char) -> Option<char> {
    if c == '\\' || c == '\'' || c == '"' {
        Some(c)
    } else if c == 'n' {
        Some('\n')
    } else if c == 'r' {
        Some('\r')
    } else if c == 't' {
        Some('\t')
    } else {
        None
    }
}

/// A text with its escapes resolved, `None` if one of them is unknown.
pub open spec fn unescape(text: Seq<char>) -> Option<Seq<char>>
    decreases text.len(),
{
    if text.len() == 0 {
        Some(Seq::empty())
    } else if text[0] != '\\' {
        match unescape(text.skip(1)) {
            Some(rest) => Some(seq![text[0]] + rest),
            None => None,
        }
    } else if text.len() == 1 {
        None
    } else {
        match (escaped(text[1]), unescape(text.skip(2))) {
            (Some(c), Some(rest)) => Some(seq![c] + rest),
            _ => None,
        }
    }
}

/// The content of a quoted string.
pub open spec fn string_content(s: State, text: Seq<char>) -> Parsed<Seq<char>> {
    match unescape(text.subrange(1, text.len() - 1)) {
        Some(content) => Ok((s, content)),
        None => syntax_error(s, SyntaxError::UnexpectedEscapeInString),
    }
}

/// `id`, or `_` where wildcards are allowed.
pub open spec fn id(s: State, allow_wildcards: bool) -> (State, Option<ConstantIndex>) {
    let s1 = s.skip_blanks();
    if s1.peek() == Some(Token::Id) || (allow_wildcards && s1.peek() == Some(Token::Wildcard)) {
        let s2 = s1.advance();
        let (s3, constant) = s2.add_string(s2.slice());
        (s3, Some(constant))
    } else {
        (s1, None)
    }
}

/// `id` or `"string"`.
pub open spec fn id_or_string(s: State) -> Parsed<Option<ConstantIndex>> {
    let s1 = s.skip_blanks();
    if s1.peek() == Some(Token::Id) {
        let s2 = s1.advance();
        let (s3, constant) = s2.add_string(s2.slice());
        Ok((s3, Some(constant)))
    } else if s1.peek() == Some(Token::String) {
        let s2 = s1.advance();
        match string_content(s2, s2.slice()) {
            Err(e) => Err(e),
            Ok((_, content)) => {
                let (s3, constant) = s2.add_string(content);
                Ok((s3, Some(constant)))
            },
        }
    } else {
        Ok((s1, None))
    }
}

/// What a source is parsed to: the nodes, the constants, and the index of the main block.
pub open spec fn script(source: LexedSource) -> Result<
    (Seq<AstNodeView>, Seq<ConstantView>, AstIndex),
    ParserError,
> {
    let start = LexerView { tokens: source.tokens@, end_indent: source.end_indent, position: 0 };
    match main_block(State::start(start)) {
        Err(e) => Err(e),
        Ok((s, index)) => Ok((s.nodes, s.constants, index)),
    }
}

/// A whole script.
pub open spec fn main_block(s: State) -> Parsed<AstIndex> {
    let s1 = s.push_frame(FrameView::empty());
    match main_lines(s1, Seq::empty()) {
        Err(e) => Err(e),
        Ok((s2, body)) => if s2.frames.len() == 0 {
            Err(crate::parser::state::missing_scope())
        } else {
            match s2.push_node_from(
                NodeView::MainBlock { body, local_count: s2.frames.last().locals().len() },
                s1.span(),
            ) {
                Err(e) => Err(e),
                Ok((s3, index)) => Ok((s3.pop_frame(), index)),
            }
        },
    }
}

/// The lines of a script.
pub open spec fn main_lines(s: State, body: Seq<AstIndex>) -> Parsed<Seq<AstIndex>>
    decreases s.remaining(),
{
    let s1 = s.skip_padding();
    if s1.peek() is None {
        Ok((s1, body))
    } else {
        match optional(s1, line(s1)) {
            Err(e) => Err(e),
            Ok((s2, None)) => syntax_error(s2, SyntaxError::ExpectedExpressionInMainBlock),
            Ok((s2, Some(expression))) => main_lines(s2, body.push(expression)),
        }
    }
}

/// A loop, an export, a debug expression, or a list of expressions.
pub open spec fn line(s: State) -> Parse
    decreases s.remaining(), 12int,
{
    let s1 = s.skip_blanks();
    let parsed = match s1.peek() {
        Some(Token::For) => for_loop(s1, None),
        Some(Token::Loop) => loop_block(s1),
        Some(Token::While) => while_loop(s1, None),
        Some(Token::Until) => until_loop(s1, None),
        Some(Token::Export) => export_id(s1),
        Some(Token::Debug) => debug_expression(s1),
        _ => primary_expressions(s1, false),
    };
    match parsed {
        Err(e) => Err(e),
        Ok((s2, None)) => Ok((s2, None)),
        Ok((s2, Some(index))) => match s2.finish_expressions() {
            Err(e) => Err(e),
            Ok((s3, _)) => Ok((s3, Some(index))),
        },
    }
}

/// Expressions separated by commas. On an indented line of its own the list may be a map block.
pub open spec fn primary_expressions(s: State, allow_initial_indentation: bool) -> Parse
    decreases s.remaining(), 10int,
{
    let current_indent = s.current_indent();
    let s1 = if allow_initial_indentation {
        s.skip_blanks()
    } else {
        s
    };
    if allow_initial_indentation && s1.peek() == Some(Token::NewLineIndented) {
        let s2 = s1.skip_padding();
        let indent = s2.current_indent();
        if indent <= current_indent {
            Ok((s2, None))
        } else {
            match optional(s2, map_block(s2, current_indent, Some(indent))) {
                Err(e) => Err(e),
                Ok((s3, Some(map))) => Ok((s3, Some(map))),
                Ok((s3, None)) => expression_list(s3, current_indent, Some(indent)),
            }
        }
    } else {
        expression_list(s1, current_indent, None)
    }
}

pub open spec fn expression_list(
    s: State,
    current_indent: usize,
    expected_indent: Option<usize>,
) -> Parse
    decreases s.remaining(), 9int,
{
    match optional(s, expression_start(s, Seq::empty(), 0, true)) {
        Err(e) => Err(e),
        Ok((s1, None)) => Ok((s1, None)),
        Ok((s1, Some(first))) => more_expressions(
            s1,
            seq![first],
            current_indent,
            expected_indent,
        ),
    }
}

/// The rest of a list that starts with the given expressions.
pub open spec fn more_expressions(
    s: State,
    expressions: Seq<AstIndex>,
    current_indent: usize,
    expected_indent: Option<usize>,
) -> Parse
    decreases s.remaining(), 9int,
{
    let s1 = s.skip_blanks();
    if s1.peek() != Some(Token::Separator) {
        end_of_expressions(s1, expressions)
    } else {
        let s2 = s1.advance().skip_blanks();
        if s2.peek() == Some(Token::NewLineIndented) {
            let s3 = s2.skip_padding();
            let next_indent = s3.next_indent();
            match expected_indent {
                Some(expected) => if next_indent < expected {
                    end_of_expressions(s3, expressions)
                } else if next_indent > expected {
                    syntax_error(s3, SyntaxError::UnexpectedIndentation)
                } else {
                    next_expression(s3, expressions, current_indent, expected_indent)
                },
                None => if next_indent <= current_indent {
                    end_of_expressions(s3, expressions)
                } else {
                    next_expression(s3, expressions, current_indent, Some(next_indent))
                },
            }
        } else {
            next_expression(s2, expressions, current_indent, expected_indent)
        }
    }
}

/// The expression after a separator. It may turn out to make the expressions before it its own:
/// as assignment targets, or as the body of a loop.
pub open spec fn next_expression(
    s: State,
    expressions: Seq<AstIndex>,
    current_indent: usize,
    expected_indent: Option<usize>,
) -> Parse
    decreases s.remaining(), 10int,
{
    match optional(s, expression_start(s, expressions, 0, true)) {
        Err(e) => Err(e),
        Ok((s1, None)) => more_expressions(s1, expressions, current_indent, expected_indent),
        Ok((s1, Some(next))) => if takes_expressions(s1.node(next)) {
            Ok((s1, Some(next)))
        } else {
            more_expressions(s1, expressions.push(next), current_indent, expected_indent)
        },
    }
}

pub open spec fn takes_expressions(node: NodeView) -> bool {
    node is Assign || node is MultiAssign || is_loop(node)
}

pub open spec fn is_loop(node: NodeView) -> bool {
    node is For || node is While || node is Until
}

/// A single expression stands for itself, several make a tuple.
pub open spec fn end_of_expressions(s: State, expressions: Seq<AstIndex>) -> Parse {
    if expressions.len() == 1 {
        Ok((s, Some(expressions[0])))
    } else {
        s.push_some(NodeView::Tuple(expressions))
    }
}

/// An expression whose operators bind at least as tightly as `min_precedence`, with the
/// expressions that stand before it in a list.
pub open spec fn expression_start(
    s: State,
    lhs: Seq<AstIndex>,
    min_precedence: u8,
    primary: bool,
) -> Parse
    decreases s.remaining(), 8int,
{
    let s1 = s.skip_blanks();
    let parsed = if s1.peek() == Some(Token::Subtract) && s1.peek_n(1) != Some(Token::Whitespace) {
        negated(s1)
    } else if s1.peek() == Some(Token::Id) || (primary && s1.peek() == Some(Token::Wildcard)) {
        id_expression(s1, primary)
    } else {
        term(s1, primary)
    };
    match optional(s1, parsed) {
        Err(e) => Err(e),
        Ok((s2, expression)) => if s2.peek() == Some(Token::Range) || s2.peek() == Some(
            Token::RangeInclusive,
        ) {
            range(s2, expression)
        } else {
            match expression {
                None => Ok((s2, None)),
                Some(start) => if s.line_number() == s2.line_number() {
                    expression_continued(s2, lhs.push(start), min_precedence, primary)
                } else {
                    Ok((s2, Some(start)))
                },
            }
        },
    }
}

/// What follows an expression: an operator, an assignment, an inline loop, or nothing.
pub open spec fn expression_continued(
    s: State,
    lhs: Seq<AstIndex>,
    min_precedence: u8,
    primary: bool,
) -> Parse
    decreases s.remaining(), 8int,
{
    if lhs.len() == 0 {
        internal_error(s, InternalError::MissingContinuedExpressionLhs)
    } else {
        let s1 = s.skip_blanks();
        match s1.peek() {
            None => Ok((s1, Some(lhs.last()))),
            Some(next) => if next == Token::NewLine || next == Token::NewLineIndented {
                // An operator may stand at the start of the next line
                let s2 = s1.skip_padding();
                match s2.peek() {
                    Some(op) => if precedence(op) is Some {
                        expression_continued(s2, lhs, min_precedence, primary)
                    } else {
                        Ok((s1, Some(lhs.last())))
                    },
                    None => Ok((s1, Some(lhs.last()))),
                }
            } else if primary && next == Token::For {
                for_loop(s1, Some(lhs))
            } else if primary && next == Token::While {
                while_loop(s1, Some(lhs))
            } else if primary && next == Token::Until {
                until_loop(s1, Some(lhs))
            } else {
                match assign_op(next) {
                    Some(op) => assignment(s1.advance(), lhs, op),
                    None => match precedence(next) {
                        Some((left, right)) => if ends_operator(s1.peek_n(1)) && left
                            >= min_precedence {
                            operation(s1, next, right, lhs.last(), min_precedence, primary)
                        } else {
                            Ok((s1, Some(lhs.last())))
                        },
                        None => Ok((s1, Some(lhs.last()))),
                    },
                }
            },
        }
    }
}

/// A binary operator with its right-hand side, and what follows.
pub open spec fn operation(
    s: State,
    op: Token,
    right_precedence: u8,
    lhs: AstIndex,
    min_precedence: u8,
    primary: bool,
) -> Parse
    decreases s.remaining(), 7int,
{
    if s.peek() is None {
        stuck(s)
    } else {
        let s1 = s.advance();
        match optional(s1, map_block(s1, s1.current_indent(), None)) {
            Err(e) => Err(e),
            Ok((s2, Some(map))) => end_of_operation(s2, op, lhs, map, min_precedence, primary),
            Ok((s2, None)) => match optional(
                s2,
                expression_start(s2, Seq::empty(), right_precedence, primary),
            ) {
                Err(e) => Err(e),
                Ok((s3, None)) => syntax_error(s3, SyntaxError::ExpectedRhsExpression),
                Ok((s3, Some(rhs))) => end_of_operation(
                    s3,
                    op,
                    lhs,
                    rhs,
                    min_precedence,
                    primary,
                ),
            },
        }
    }
}

pub open spec fn end_of_operation(
    s: State,
    op: Token,
    lhs: AstIndex,
    rhs: AstIndex,
    min_precedence: u8,
    primary: bool,
) -> Parse
    decreases s.remaining(), 9int,
{
    match s.push_node(NodeView::BinaryOp { op: binary_op(op), lhs, rhs }) {
        Err(e) => Err(e),
        Ok((s1, op_node)) => expression_continued(s1, seq![op_node], min_precedence, primary),
    }
}

/// An assignment whose operator has been read.
pub open spec fn assignment(s: State, lhs: Seq<AstIndex>, op: AssignOp) -> Parse
    decreases s.remaining(), 11int,
{
    match any(s, take_back_targets(s, lhs, 0, op)) {
        Err(e) => Err(e),
        Ok((s1, _)) => if lhs.len() == 0 {
            internal_error(s1, InternalError::MissingAssignmentTarget)
        } else {
            match any(s1, primary_expressions(s1, true)) {
                Err(e) => Err(e),
                Ok((s2, None)) => syntax_error(s2, SyntaxError::ExpectedRhsExpression),
                Ok((s2, Some(rhs))) => match declare_targets(s2, lhs, 0, op) {
                    Err(e) => Err(e),
                    Ok((s3, _)) => if lhs.len() == 1 {
                        s3.push_some(
                            NodeView::Assign { target: local_target(lhs[0]), op, expression: rhs },
                        )
                    } else {
                        s3.push_some(
                            NodeView::MultiAssign { targets: local_targets(lhs), expressions: rhs },
                        )
                    },
                },
            }
        },
    }
}

pub open spec fn local_target(index: AstIndex) -> AssignTarget {
    AssignTarget { target_index: index, scope: Scope::Local }
}

pub open spec fn local_targets(lhs: Seq<AstIndex>) -> Seq<AssignTarget> {
    lhs.map_values(|index: AstIndex| local_target(index))
}

/// The targets from `n` on are ids or lookups. For a plain assignment the ids haven't been read
/// after all.
pub open spec fn take_back_targets(s: State, lhs: Seq<AstIndex>, n: int, op: AssignOp) -> Parsed<()>
    decreases lhs.len() - n,
{
    if n >= lhs.len() {
        Ok((s, ()))
    } else {
        match s.node(lhs[n]) {
            NodeView::Id(id) => if op == AssignOp::Equal {
                match s.take_back_id(id) {
                    Err(e) => Err(e),
                    Ok((s1, _)) => take_back_targets(s1, lhs, n + 1, op),
                }
            } else {
                take_back_targets(s, lhs, n + 1, op)
            },
            NodeView::Lookup(_) => take_back_targets(s, lhs, n + 1, op),
            _ => syntax_error(s, SyntaxError::ExpectedAssignmentTarget),
        }
    }
}

/// The value of a plain assignment is complete, and the ids among its targets from `n` on are
/// declared.
pub open spec fn declare_targets(s: State, lhs: Seq<AstIndex>, n: int, op: AssignOp) -> Parsed<()>
    decreases lhs.len() - n,
{
    if n >= lhs.len() {
        Ok((s, ()))
    } else {
        match s.node(lhs[n]) {
            NodeView::Id(id) => if op == AssignOp::Equal {
                match s.declare_id(id) {
                    Err(e) => Err(e),
                    Ok((s1, _)) => declare_targets(s1, lhs, n + 1, op),
                }
            } else {
                declare_targets(s, lhs, n + 1, op)
            },
            _ => declare_targets(s, lhs, n + 1, op),
        }
    }
}

/// An id on its own, at the root of a lookup, or called with the arguments that follow it.
pub open spec fn id_expression(s: State, primary: bool) -> Parse
    decreases s.remaining(), 1int,
{
    match id(s, primary) {
        (s1, None) => Ok((s1, None)),
        (s1, Some(constant)) => match s1.access_id(constant) {
            Err(e) => Err(e),
            Ok((s2, _)) => match s2.push_node(NodeView::Id(constant)) {
                Err(e) => Err(e),
                Ok((s3, id_index)) => if primary && s3.peek() == Some(Token::Whitespace) {
                    let start_span = s3.span();
                    let s4 = s3.advance();
                    match any(s4, call_args(s4, s4.line_number(), Seq::empty())) {
                        Err(e) => Err(e),
                        Ok((s5, args)) => if args.len() == 0 {
                            Ok((s5, Some(id_index)))
                        } else {
                            s5.push_some_from(
                                NodeView::Call { function: id_index, args },
                                start_span,
                            )
                        },
                    }
                } else if starts_lookup(s3.peek()) {
                    some(lookup(s3, id_index, primary))
                } else {
                    Ok((s3, Some(id_index)))
                },
            },
        },
    }
}

/// The arguments of a call without parentheses: as many expressions as start on the line.
pub open spec fn call_args(s: State, line: u32, args: Seq<AstIndex>) -> Parsed<Seq<AstIndex>>
    decreases s.remaining(), 9int,
{
    if args.len() > 0 && s.line_number() != line {
        Ok((s, args))
    } else {
        match optional(s, expression_start(s, Seq::empty(), 0, false)) {
            Err(e) => Err(e),
            Ok((s1, None)) => Ok((s1, args)),
            Ok((s1, Some(arg))) => call_args(s1, line, args.push(arg)),
        }
    }
}

/// Indexing, calls and member access on a value.
pub open spec fn lookup(s: State, root: AstIndex, primary: bool) -> Parsed<AstIndex>
    decreases s.remaining(), 10int,
{
    match any(s, lookup_steps(s, seq![LookupNodeView::Root(root)], primary)) {
        Err(e) => Err(e),
        Ok((s1, steps)) => s1.push_node_from(NodeView::Lookup(steps), s.span()),
    }
}

pub open spec fn lookup_steps(s: State, steps: Seq<LookupNodeView>, primary: bool) -> Parsed<
    Seq<LookupNodeView>,
>
    decreases s.remaining(), 9int,
{
    if s.peek() == Some(Token::ParenOpen) {
        match some_tokens(s, parenthesized_args(s)) {
            Err(e) => Err(e),
            Ok((s1, args)) => lookup_steps(s1, steps.push(LookupNodeView::Call(args)), primary),
        }
    } else if s.peek() == Some(Token::ListStart) {
        let s1 = s.advance();
        match any(s1, index_expression(s1)) {
            Err(e) => Err(e),
            Ok((s2, index)) => {
                let s3 = s2.skip_blanks();
                if s3.peek() == Some(Token::ListEnd) {
                    lookup_steps(s3.advance(), steps.push(LookupNodeView::Index(index)), primary)
                } else {
                    syntax_error(s3, SyntaxError::ExpectedIndexEnd)
                }
            },
        }
    } else if s.peek() == Some(Token::Dot) {
        match id_or_string(s.advance()) {
            Err(e) => Err(e),
            Ok((s1, None)) => syntax_error(s1, SyntaxError::ExpectedMapKey),
            Ok((s1, Some(key))) => lookup_steps(s1, steps.push(LookupNodeView::Id(key)), primary),
        }
    } else if primary && s.peek() == Some(Token::Whitespace) {
        let s1 = s.advance();
        match call_args(s1, s1.line_number(), Seq::empty()) {
            Err(e) => Err(e),
            Ok((s2, args)) => if args.len() == 0 {
                Ok((s2, steps))
            } else {
                Ok((s2, steps.push(LookupNodeView::Call(args))))
            },
        }
    } else {
        Ok((s, steps))
    }
}

/// The index within brackets: an expression or a range, whose ends may be left out.
pub open spec fn index_expression(s: State) -> Parsed<AstIndex>
    decreases s.remaining(), 9int,
{
    match optional(s, expression_start(s, Seq::empty(), 0, false)) {
        Err(e) => Err(e),
        Ok((s1, Some(start))) => if s1.peek() == Some(Token::Range) || s1.peek() == Some(
            Token::RangeInclusive,
        ) {
            let inclusive = s1.peek() == Some(Token::RangeInclusive);
            let s2 = s1.advance();
            match expression_start(s2, Seq::empty(), 0, false) {
                Err(e) => Err(e),
                Ok((s3, Some(end))) => s3.push_node(NodeView::Range { start, end, inclusive }),
                Ok((s3, None)) => s3.push_node(NodeView::RangeFrom { start }),
            }
        } else {
            Ok((s1, start))
        },
        Ok((s1, None)) => {
            let s2 = s1.skip_blanks();
            if s2.peek() == Some(Token::Range) || s2.peek() == Some(Token::RangeInclusive) {
                let inclusive = s2.peek() == Some(Token::RangeInclusive);
                let s3 = s2.advance();
                match expression_start(s3, Seq::empty(), 0, false) {
                    Err(e) => Err(e),
                    Ok((s4, Some(end))) => s4.push_node(NodeView::RangeTo { end, inclusive }),
                    Ok((s4, None)) => s4.push_node(NodeView::RangeFull),
                }
            } else {
                syntax_error(s2, SyntaxError::ExpectedIndexExpression)
            }
        },
    }
}

/// `(a b c)`, without separators.
pub open spec fn parenthesized_args(s: State) -> Parsed<Seq<AstIndex>>
    decreases s.remaining(), 1int,
{
    let s1 = s.skip_blanks();
    if s1.peek() != Some(Token::ParenOpen) {
        internal_error(s1, InternalError::ArgumentsParseFailure)
    } else {
        match any(s1.advance(), args_until_none(s1.advance(), Seq::empty())) {
            Err(e) => Err(e),
            Ok((s2, args)) => {
                let s3 = s2.skip_padding();
                if s3.peek() == Some(Token::ParenClose) {
                    Ok((s3.advance(), args))
                } else {
                    syntax_error(s3.advance(), SyntaxError::ExpectedArgsEnd)
                }
            },
        }
    }
}

pub open spec fn args_until_none(s: State, args: Seq<AstIndex>) -> Parsed<Seq<AstIndex>>
    decreases s.remaining(), 9int,
{
    let s1 = s.skip_padding();
    match optional(s1, expression_start(s1, Seq::empty(), 0, false)) {
        Err(e) => Err(e),
        Ok((s2, None)) => Ok((s2, args)),
        Ok((s2, Some(arg))) => args_until_none(s2, args.push(arg)),
    }
}

/// `-x` or `-(x)`, with the sign directly before its operand.
pub open spec fn negated(s: State) -> Parse
    decreases s.remaining(), 1int,
{
    let s1 = s.skip_blanks();
    if s1.peek() != Some(Token::Subtract) || s1.peek_n(1) == Some(Token::Whitespace) {
        Ok((s1, None))
    } else {
        let s2 = s1.advance();
        let parsed = if s2.peek() == Some(Token::Id) {
            id_expression(s2, false)
        } else if s2.peek() == Some(Token::ParenOpen) {
            nested_expressions(s2)
        } else {
            Ok((s2, None))
        };
        match parsed {
            Err(e) => Err(e),
            Ok((s3, Some(expression))) => s3.push_some(NodeView::Negate(expression)),
            Ok((s3, None)) => syntax_error(s3, SyntaxError::ExpectedNegatableExpression),
        }
    }
}

/// A range that starts with the given expression.
pub open spec fn range(s: State, lhs: Option<AstIndex>) -> Parse
    decreases s.remaining(), 1int,
{
    if s.peek() != Some(Token::Range) && s.peek() != Some(Token::RangeInclusive) {
        Ok((s, None))
    } else {
        let inclusive = s.peek() == Some(Token::RangeInclusive);
        match term(s.advance(), false) {
            Err(e) => Err(e),
            Ok((s1, rhs)) => s1.push_some(
                match (lhs, rhs) {
                    (Some(start), Some(end)) => NodeView::Range { start, end, inclusive },
                    (Some(start), None) => NodeView::RangeFrom { start },
                    (None, Some(end)) => NodeView::RangeTo { end, inclusive },
                    (None, None) => NodeView::RangeFull,
                },
            ),
        }
    }
}

/// `export x`, with or without a value.
pub open spec fn export_id(s: State) -> Parse
    decreases s.remaining(), 1int,
{
    let s1 = s.skip_blanks();
    if s1.peek() != Some(Token::Export) {
        Ok((s1, None))
    } else {
        match id(s1.advance(), false) {
            (s2, None) => syntax_error(s2, SyntaxError::ExpectedExportExpression),
            (s2, Some(constant)) => match s2.push_node(NodeView::Id(constant)) {
                Err(e) => Err(e),
                Ok((s3, export_id)) => {
                    let s4 = s3.skip_blanks();
                    if s4.peek() == Some(Token::Assign) {
                        match primary_expressions(s4.advance(), true) {
                            Err(e) => Err(e),
                            Ok((s5, None)) => syntax_error(s5, SyntaxError::ExpectedRhsExpression),
                            Ok((s5, Some(rhs))) => s5.push_some(
                                NodeView::Assign {
                                    target: AssignTarget {
                                        target_index: export_id,
                                        scope: Scope::Global,
                                    },
                                    op: AssignOp::Equal,
                                    expression: rhs,
                                },
                            ),
                        }
                    } else if s4.peek() == Some(Token::NewLine) || s4.peek() == Some(
                        Token::NewLineIndented,
                    ) {
                        Ok((s4, Some(export_id)))
                    } else {
                        syntax_error(s4, SyntaxError::UnexpectedTokenAfterExportId)
                    }
                },
            },
        }
    }
}

/// `debug x`, which keeps the source of its expression.
pub open spec fn debug_expression(s: State) -> Parse
    decreases s.remaining(), 1int,
{
    if s.peek() != Some(Token::Debug) {
        Ok((s, None))
    } else {
        let s1 = s.advance();
        let s2 = s1.skip_blanks();
        match primary_expressions(s2, true) {
            Err(e) => Err(e),
            Ok((s3, None)) => syntax_error(s3, SyntaxError::ExpectedExpression),
            Ok((s3, Some(expression))) => {
                let (s4, expression_string) = s3.add_string(
                    s3.lexer.text_since(s2.lexer.position),
                );
                s4.push_some_from(
                    NodeView::Debug { expression_string, expression },
                    s1.span(),
                )
            },
        }
    }
}

/// A literal, a parenthesized expression, or a construct that starts with a keyword.
pub open spec fn term(s: State, primary: bool) -> Parse
    decreases s.remaining(), 7int,
{
    let current_indent = s.current_indent();
    let s1 = s.skip_blanks();
    let s2 = s1.advance();
    match s1.peek() {
        None => Ok((s1, None)),
        Some(token) => match token {
            Token::True => s2.push_some(NodeView::BoolTrue),
            Token::False => s2.push_some(NodeView::BoolFalse),
            Token::ParenOpen => nested_expressions(s1),
            Token::Number => number(s2),
            Token::String => string(s2, primary),
            Token::Id => id_expression(s1, primary),
            Token::ListStart => list(s2, primary),
            Token::MapStart => map_inline(s2, primary),
            Token::Num2 => match num_terms(s2, 2, SyntaxError::TooManyNum2Terms) {
                Err(e) => Err(e),
                Ok((s3, args)) => s3.push_some_from(NodeView::Num2(args), s2.span()),
            },
            Token::Num4 => match num_terms(s2, 4, SyntaxError::TooManyNum4Terms) {
                Err(e) => Err(e),
                Ok((s3, args)) => s3.push_some_from(NodeView::Num4(args), s2.span()),
            },
            Token::If => if primary {
                if_expression(s1)
            } else {
                Ok((s1, None))
            },
            Token::Match => match_expression(s1),
            Token::Function => function(s1),
            Token::Copy => match expression_start(s2, Seq::empty(), 0, true) {
                Err(e) => Err(e),
                Ok((s3, None)) => syntax_error(s3, SyntaxError::ExpectedExpression),
                Ok((s3, Some(e))) => s3.push_some(NodeView::CopyExpression(e)),
            },
            Token::Not => match expression_start(s2, Seq::empty(), 0, true) {
                Err(e) => Err(e),
                Ok((s3, None)) => syntax_error(s3, SyntaxError::ExpectedExpression),
                Ok((s3, Some(e))) => s3.push_some(NodeView::Negate(e)),
            },
            Token::Type => match expression_start(s2, Seq::empty(), 0, true) {
                Err(e) => Err(e),
                Ok((s3, None)) => syntax_error(s3, SyntaxError::ExpectedExpression),
                Ok((s3, Some(e))) => s3.push_some(NodeView::Type(e)),
            },
            Token::Yield => match primary_expressions(s2, true) {
                Err(e) => Err(e),
                Ok((s3, None)) => syntax_error(s3, SyntaxError::ExpectedExpression),
                Ok((s3, Some(e))) => match s3.push_node(NodeView::Yield(e)) {
                    Err(e) => Err(e),
                    Ok((s4, index)) => match s4.note_yield() {
                        Err(e) => Err(e),
                        Ok((s5, _)) => Ok((s5, Some(index))),
                    },
                },
            },
            Token::Break => s2.push_some(NodeView::Break),
            Token::Continue => s2.push_some(NodeView::Continue),
            Token::Return => match primary_expressions(s2, true) {
                Err(e) => Err(e),
                Ok((s3, None)) => s3.push_some(NodeView::Return),
                Ok((s3, Some(e))) => s3.push_some(NodeView::ReturnExpression(e)),
            },
            Token::From | Token::Import => import_expression(s1),
            Token::Try => if primary {
                try_expression(s2, s1.current_indent())
            } else {
                Ok((s1, None))
            },
            Token::NewLineIndented => map_block(s1, current_indent, None),
            Token::Error => syntax_error(s1, SyntaxError::LexerError),
            _ => Ok((s1, None)),
        },
    }
}

/// The number that was read last.
pub open spec fn number(s: State) -> Parse {
    match s.lexer.number() {
        None => internal_error(s, InternalError::NumberParseFailure),
        Some(NumberLiteral::Zero) => s.push_some(NodeView::Number0),
        Some(NumberLiteral::One) => s.push_some(NodeView::Number1),
        Some(NumberLiteral::Bits(bits)) => {
            let (s1, constant) = s.add_number(bits);
            s1.push_some(NodeView::Number(constant))
        },
    }
}

/// The string that was read last, and a lookup on it.
pub open spec fn string(s: State, primary: bool) -> Parse
    decreases s.remaining(), 12int,
{
    match string_content(s, s.slice()) {
        Err(e) => Err(e),
        Ok((_, content)) => {
            let (s1, constant) = s.add_string(content);
            match s1.push_node(NodeView::Str(constant)) {
                Err(e) => Err(e),
                Ok((s2, node)) => lookup_on(s2, node, primary),
            }
        },
    }
}

/// A value with the lookup that may follow it.
pub open spec fn lookup_on(s: State, node: AstIndex, primary: bool) -> Parse
    decreases s.remaining(), 11int,
{
    if starts_lookup(s.peek()) {
        some(lookup(s, node, primary))
    } else {
        Ok((s, Some(node)))
    }
}

/// The terms of a number vector whose keyword has been read, at least one and at most `size`.
pub open spec fn num_terms(s: State, size: int, too_many: SyntaxError) -> Parsed<Seq<AstIndex>>
    decreases s.remaining(), 12int,
{
    let parsed = if s.peek() == Some(Token::ParenOpen) {
        parenthesized_args(s)
    } else {
        terms(s, Seq::empty())
    };
    match parsed {
        Err(e) => Err(e),
        Ok((s1, args)) => if args.len() == 0 {
            syntax_error(s1, SyntaxError::ExpectedExpression)
        } else if args.len() > size {
            syntax_error(s1, too_many)
        } else {
            Ok((s1, args))
        },
    }
}

pub open spec fn terms(s: State, args: Seq<AstIndex>) -> Parsed<Seq<AstIndex>>
    decreases s.remaining(), 9int,
{
    match optional(s, term(s, false)) {
        Err(e) => Err(e),
        Ok((s1, None)) => Ok((s1, args)),
        Ok((s1, Some(arg))) => terms(s1, args.push(arg)),
    }
}

/// A list whose opening bracket has been read.
///
/// Any expression can stand at the start of a comprehension, as the body of the loop that follows.
/// So the list is first read as a comprehension, and if it turns out to be none it is read again
/// as a list of entries. What the first reading has noted of ids and constants stays noted.
pub open spec fn list(s: State, primary: bool) -> Parse
    decreases s.remaining(), 13int,
{
    match any(s, comprehension(s)) {
        Err(e) => Err(e),
        Ok((s1, Some(comprehension))) => end_of_list(s1, seq![comprehension], s.span(), primary),
        Ok((s1, None)) => {
            let s2 = s1.rewind(s);
            match any(s2, list_entries(s2, Seq::empty())) {
                Err(e) => Err(e),
                Ok((s3, entries)) => end_of_list(s3, entries, s.span(), primary),
            }
        },
    }
}

/// An expression that ends in a loop.
pub open spec fn comprehension(s: State) -> Parse
    decreases s.remaining(), 9int,
{
    match optional(s, expression_start(s, Seq::empty(), 0, true)) {
        Err(e) => Err(e),
        Ok((s1, None)) => Ok((s1, None)),
        Ok((s1, Some(expression))) => if is_loop(s1.node(expression)) {
            Ok((s1, Some(expression)))
        } else {
            let s2 = s1.skip_blanks();
            match s2.peek() {
                Some(Token::For) => for_loop(s2, Some(seq![expression])),
                Some(Token::While) => while_loop(s2, Some(seq![expression])),
                Some(Token::Until) => until_loop(s2, Some(seq![expression])),
                _ => Ok((s2, None)),
            }
        },
    }
}

pub open spec fn list_entries(s: State, entries: Seq<AstIndex>) -> Parsed<Seq<AstIndex>>
    decreases s.remaining(), 9int,
{
    let s1 = s.skip_padding();
    if s1.peek() == Some(Token::ListEnd) {
        Ok((s1, entries))
    } else {
        match optional(s1, expression_start(s1, Seq::empty(), 0, true)) {
            Err(e) => Err(e),
            Ok((s2, entry)) => {
                let more = match entry {
                    Some(index) => entries.push(index),
                    None => entries,
                };
                let s3 = s2.skip_blanks();
                if s3.peek() == Some(Token::Separator) {
                    list_entries(s3.advance(), more)
                } else {
                    Ok((s3, more))
                }
            },
        }
    }
}

pub open spec fn end_of_list(
    s: State,
    entries: Seq<AstIndex>,
    start_span: Span,
    primary: bool,
) -> Parse
    decreases s.remaining(), 12int,
{
    let s1 = s.skip_padding();
    let s2 = s1.advance();
    if s1.peek() != Some(Token::ListEnd) {
        syntax_error(s2, SyntaxError::ExpectedListEnd)
    } else {
        match s2.push_node_from(NodeView::List(entries), start_span) {
            Err(e) => Err(e),
            Ok((s3, node)) => lookup_on(s3, node, primary),
        }
    }
}

/// A map whose opening brace has been read.
pub open spec fn map_inline(s: State, primary: bool) -> Parse
    decreases s.remaining(), 12int,
{
    match any(s, map_entries(s, Seq::empty())) {
        Err(e) => Err(e),
        Ok((s1, entries)) => {
            let s2 = s1.skip_blanks();
            let s3 = s2.advance();
            if s2.peek() != Some(Token::MapEnd) {
                syntax_error(s3, SyntaxError::ExpectedMapEnd)
            } else {
                match s3.push_node_from(NodeView::MapEntries(entries), s.span()) {
                    Err(e) => Err(e),
                    Ok((s4, node)) => lookup_on(s4, node, primary),
                }
            }
        },
    }
}

/// Entries `key: value` or `key`, separated by commas.
pub open spec fn map_entries(
    s: State,
    entries: Seq<(ConstantIndex, Option<AstIndex>)>,
) -> Parsed<Seq<(ConstantIndex, Option<AstIndex>)>>
    decreases s.remaining(), 9int,
{
    match id_or_string(s.skip_padding()) {
        Err(e) => Err(e),
        Ok((s1, None)) => Ok((s1, entries)),
        Ok((s1, Some(key))) => if s1.peek() == Some(Token::Colon) {
            let s2 = s1.advance().skip_padding();
            match optional(s2, expression_start(s2, Seq::empty(), 0, true)) {
                Err(e) => Err(e),
                Ok((s3, None)) => syntax_error(s3, SyntaxError::ExpectedMapValue),
                Ok((s3, Some(value))) => more_map_entries(s3, entries.push((key, Some(value)))),
            }
        } else {
            more_map_entries(s1, entries.push((key, None)))
        },
    }
}

pub open spec fn more_map_entries(
    s: State,
    entries: Seq<(ConstantIndex, Option<AstIndex>)>,
) -> Parsed<Seq<(ConstantIndex, Option<AstIndex>)>>
    decreases s.remaining(), 9int,
{
    let s1 = s.skip_blanks();
    if s1.peek() == Some(Token::Separator) {
        map_entries(s1.advance(), entries)
    } else {
        Ok((s1, entries))
    }
}

/// A map with an entry on each line of an indented block.
pub open spec fn map_block(s: State, current_indent: usize, block_indent: Option<usize>) -> Parse
    decreases s.remaining(), 3int,
{
    match block_indent {
        Some(indent) => map_block_at(s, indent),
        None => {
            let s1 = s.skip_blanks();
            if s1.peek() != Some(Token::NewLineIndented) || s1.next_indent() <= current_indent {
                Ok((s1, None))
            } else {
                map_block_at(s1.advance(), s1.next_indent())
            }
        },
    }
}

pub open spec fn map_block_at(s: State, block_indent: usize) -> Parse
    decreases s.remaining(), 2int,
{
    let s1 = s.skip_padding();
    if s1.peek() != Some(Token::Id) || s1.peek_n(1) != Some(Token::Colon) {
        Ok((s1, None))
    } else {
        match map_block_entries(s1, block_indent, Seq::empty()) {
            Err(e) => Err(e),
            Ok((s2, entries)) => s2.push_some_from(NodeView::MapEntries(entries), s1.span()),
        }
    }
}

pub open spec fn map_block_entries(
    s: State,
    block_indent: usize,
    entries: Seq<(ConstantIndex, Option<AstIndex>)>,
) -> Parsed<Seq<(ConstantIndex, Option<AstIndex>)>>
    decreases s.remaining(), 1int,
{
    match id_or_string(s) {
        Err(e) => Err(e),
        Ok((s1, None)) => Ok((s1, entries)),
        Ok((s1, Some(key))) => {
            let s2 = s1.skip_blanks();
            let s3 = s2.advance();
            if s2.peek() == Some(Token::Colon) {
                match optional(s3, line(s3)) {
                    Err(e) => Err(e),
                    Ok((s4, Some(value))) => more_map_block_entries(
                        s4,
                        block_indent,
                        entries.push((key, Some(value))),
                    ),
                    Ok((s4, None)) => {
                        // The value may stand on a line after its key
                        let s5 = s4.skip_padding();
                        match optional(s5, line(s5)) {
                            Err(e) => Err(e),
                            Ok((s6, None)) => syntax_error(s6, SyntaxError::ExpectedMapValue),
                            Ok((s6, Some(value))) => more_map_block_entries(
                                s6,
                                block_indent,
                                entries.push((key, Some(value))),
                            ),
                        }
                    },
                }
            } else {
                more_map_block_entries(s3, block_indent, entries.push((key, None)))
            }
        },
    }
}

pub open spec fn more_map_block_entries(
    s: State,
    block_indent: usize,
    entries: Seq<(ConstantIndex, Option<AstIndex>)>,
) -> Parsed<Seq<(ConstantIndex, Option<AstIndex>)>>
    decreases s.remaining(), 2int,
{
    let s1 = s.skip_padding();
    if s1.next_indent() < block_indent {
        Ok((s1, entries))
    } else if s1.next_indent() > block_indent {
        syntax_error(s1, SyntaxError::UnexpectedIndentation)
    } else {
        map_block_entries(s1, block_indent, entries)
    }
}

/// A parenthesized expression, a tuple, or the empty value.
pub open spec fn nested_expressions(s: State) -> Parse
    decreases s.remaining(), 1int,
{
    let s1 = s.skip_blanks();
    if s1.peek() != Some(Token::ParenOpen) {
        Ok((s1, None))
    } else {
        let s2 = s1.advance();
        match any(s2, nested_list(s2, Seq::empty())) {
            Err(e) => Err(e),
            Ok((s3, expressions)) => {
                let parsed = if expressions.len() == 0 {
                    s3.push_node(NodeView::Empty)
                } else if expressions.len() == 1 {
                    Ok((s3, expressions[0]))
                } else {
                    s3.push_node(NodeView::Tuple(expressions))
                };
                match parsed {
                    Err(e) => Err(e),
                    Ok((s4, node)) => if s4.peek() == Some(Token::ParenClose) {
                        lookup_on(s4.advance(), node, false)
                    } else {
                        syntax_error(s4, SyntaxError::ExpectedCloseParen)
                    },
                }
            },
        }
    }
}

pub open spec fn nested_list(s: State, expressions: Seq<AstIndex>) -> Parsed<Seq<AstIndex>>
    decreases s.remaining(), 9int,
{
    match optional(s, expression_start(s, Seq::empty(), 0, true)) {
        Err(e) => Err(e),
        Ok((s1, None)) => Ok((s1, expressions)),
        Ok((s1, Some(expression))) => if s1.peek() == Some(Token::Separator) {
            nested_list(s1.advance(), expressions.push(expression))
        } else {
            Ok((s1, expressions.push(expression)))
        },
    }
}

/// `for x, y in a, b if c`, with an indented body or the expressions before it as its body.
pub open spec fn for_loop(s: State, inline_body: Option<Seq<AstIndex>>) -> Parse
    decreases s.remaining(), 1int,
{
    let s1 = s.skip_blanks();
    if s1.peek() != Some(Token::For) {
        Ok((s1, None))
    } else {
        let current_indent = s1.current_indent();
        let s2 = s1.advance();
        match any(s2, for_args(s2, Seq::empty())) {
            Err(e) => Err(e),
            Ok((s3, args)) => if args.len() == 0 {
                syntax_error(s3, SyntaxError::ExpectedForArgs)
            } else {
                match any(s3, for_ranges(s3, Seq::empty())) {
                    Err(e) => Err(e),
                    Ok((s4, ranges)) => if ranges.len() == 0 {
                        syntax_error(s4, SyntaxError::ExpectedForRanges)
                    } else {
                        match any(s4, condition(s4, SyntaxError::ExpectedForCondition)) {
                            Err(e) => Err(e),
                            Ok((s5, condition)) => match loop_body(
                                s5,
                                inline_body,
                                current_indent,
                                SyntaxError::ExpectedForBody,
                            ) {
                                Err(e) => Err(e),
                                Ok((s6, body)) => s6.push_some(
                                    NodeView::For { args, ranges, condition, body },
                                ),
                            },
                        }
                    },
                }
            },
        }
    }
}

/// The ids of a for loop, up to `in`.
pub open spec fn for_args(s: State, args: Seq<ConstantIndex>) -> Parsed<Seq<ConstantIndex>>
    decreases s.remaining(),
{
    match id(s, true) {
        (s1, None) => Ok((s1, args)),
        (s1, Some(arg)) => match s1.assign_id(arg) {
            Err(e) => Err(e),
            Ok((s2, _)) => {
                let s3 = s2.skip_blanks();
                if s3.peek() == Some(Token::Separator) {
                    for_args(s3.advance(), args.push(arg))
                } else if s3.peek() == Some(Token::In) {
                    Ok((s3.advance(), args.push(arg)))
                } else {
                    syntax_error(s3, SyntaxError::ExpectedForInKeyword)
                }
            },
        },
    }
}

pub open spec fn for_ranges(s: State, ranges: Seq<AstIndex>) -> Parsed<Seq<AstIndex>>
    decreases s.remaining(), 9int,
{
    match optional(s, expression_start(s, Seq::empty(), 0, true)) {
        Err(e) => Err(e),
        Ok((s1, None)) => Ok((s1, ranges)),
        Ok((s1, Some(range))) => {
            let s2 = s1.skip_blanks();
            if s2.peek() == Some(Token::Separator) {
                for_ranges(s2.advance(), ranges.push(range))
            } else {
                Ok((s2, ranges.push(range)))
            }
        },
    }
}

/// `if x`, where there is one.
pub open spec fn condition(s: State, missing: SyntaxError) -> Parse
    decreases s.remaining(), 1int,
{
    let s1 = s.skip_blanks();
    if s1.peek() != Some(Token::If) {
        Ok((s1, None))
    } else {
        match expression_start(s1.advance(), Seq::empty(), 0, true) {
            Err(e) => Err(e),
            Ok((s2, None)) => syntax_error(s2, missing),
            Ok((s2, Some(condition))) => Ok((s2, Some(condition))),
        }
    }
}

/// The body of a loop: the expressions before it, or an indented block.
pub open spec fn loop_body(
    s: State,
    inline_body: Option<Seq<AstIndex>>,
    current_indent: usize,
    missing: SyntaxError,
) -> Parsed<AstIndex>
    decreases s.remaining(), 17int,
{
    match inline_body {
        Some(expressions) => if expressions.len() == 0 {
            internal_error(s, InternalError::ForParseFailure)
        } else if expressions.len() == 1 {
            Ok((s, expressions[0]))
        } else {
            s.push_node(NodeView::Tuple(expressions))
        },
        None => match indented_block(s, current_indent, None) {
            Err(e) => Err(e),
            Ok((s1, None)) => syntax_error(s1, missing),
            Ok((s1, Some(body))) => Ok((s1, body)),
        },
    }
}

/// `loop` with an indented body.
pub open spec fn loop_block(s: State) -> Parse
    decreases s.remaining(), 1int,
{
    let s1 = s.skip_blanks();
    if s1.peek() != Some(Token::Loop) {
        Ok((s1, None))
    } else {
        match loop_body(
            s1.advance(),
            None,
            s1.current_indent(),
            SyntaxError::ExpectedLoopBody,
        ) {
            Err(e) => Err(e),
            Ok((s2, body)) => s2.push_some(NodeView::Loop { body }),
        }
    }
}

/// `while x`.
pub open spec fn while_loop(s: State, inline_body: Option<Seq<AstIndex>>) -> Parse
    decreases s.remaining(), 1int,
{
    let s1 = s.skip_blanks();
    if s1.peek() != Some(Token::While) {
        Ok((s1, None))
    } else {
        let s2 = s1.advance();
        match optional(s2, expression_start(s2, Seq::empty(), 0, true)) {
            Err(e) => Err(e),
            Ok((s3, None)) => syntax_error(s3, SyntaxError::ExpectedWhileCondition),
            Ok((s3, Some(condition))) => match loop_body(
                s3,
                inline_body,
                s1.current_indent(),
                SyntaxError::ExpectedWhileBody,
            ) {
                Err(e) => Err(e),
                Ok((s4, body)) => s4.push_some(NodeView::While { condition, body }),
            },
        }
    }
}

/// `until x`.
pub open spec fn until_loop(s: State, inline_body: Option<Seq<AstIndex>>) -> Parse
    decreases s.remaining(), 1int,
{
    let s1 = s.skip_blanks();
    if s1.peek() != Some(Token::Until) {
        Ok((s1, None))
    } else {
        let s2 = s1.advance();
        match optional(s2, expression_start(s2, Seq::empty(), 0, true)) {
            Err(e) => Err(e),
            Ok((s3, None)) => syntax_error(s3, SyntaxError::ExpectedUntilCondition),
            Ok((s3, Some(condition))) => match loop_body(
                s3,
                inline_body,
                s1.current_indent(),
                SyntaxError::ExpectedUntilBody,
            ) {
                Err(e) => Err(e),
                Ok((s4, body)) => s4.push_some(NodeView::Until { condition, body }),
            },
        }
    }
}

/// `if x then y else z`, or the same with indented blocks.
pub open spec fn if_expression(s: State) -> Parse
    decreases s.remaining(), 1int,
{
    if s.peek() != Some(Token::If) {
        Ok((s, None))
    } else {
        let s1 = s.advance();
        match optional(s1, expression_start(s1, Seq::empty(), 0, true)) {
            Err(e) => Err(e),
            Ok((s2, None)) => syntax_error(s2, SyntaxError::ExpectedIfCondition),
            Ok((s2, Some(condition))) => {
                let s3 = s2.skip_blanks();
                if s3.peek() == Some(Token::Then) {
                    inline_if(s3.advance(), condition)
                } else {
                    if_block(s3, s.current_indent(), condition)
                }
            },
        }
    }
}

/// The branches of an inline if, after `then`.
pub open spec fn inline_if(s: State, condition: AstIndex) -> Parse
    decreases s.remaining(), 11int,
{
    match optional(s, primary_expressions(s, false)) {
        Err(e) => Err(e),
        Ok((s1, None)) => syntax_error(s1, SyntaxError::ExpectedThenExpression),
        Ok((s1, Some(then_node))) => {
            let s2 = s1.skip_blanks();
            let parsed = if s2.peek() != Some(Token::Else) {
                Ok((s2, None))
            } else {
                match primary_expressions(s2.advance(), false) {
                    Err(e) => Err(e),
                    Ok((s3, None)) => syntax_error(s3, SyntaxError::ExpectedElseExpression),
                    Ok((s3, Some(else_node))) => Ok((s3, Some(else_node))),
                }
            };
            match parsed {
                Err(e) => Err(e),
                Ok((s4, else_node)) => s4.push_some(
                    NodeView::If {
                        condition,
                        then_node,
                        else_if_blocks: Seq::empty(),
                        else_node,
                    },
                ),
            }
        },
    }
}

/// The blocks of an if, after its condition.
pub open spec fn if_block(s: State, current_indent: usize, condition: AstIndex) -> Parse
    decreases s.remaining(), 17int,
{
    match any(s, indented_map_or_block(s, current_indent)) {
        Err(e) => Err(e),
        Ok((s1, None)) => syntax_error(s1, SyntaxError::ExpectedThenKeywordOrBlock),
        Ok((s1, Some(then_node))) => match any(
            s1,
            else_if_blocks(s1, current_indent, Seq::empty()),
        ) {
            Err(e) => Err(e),
            Ok((s2, else_if_blocks)) => match else_block(s2, current_indent) {
                Err(e) => Err(e),
                Ok((s3, else_node)) => s3.push_some(
                    NodeView::If { condition, then_node, else_if_blocks, else_node },
                ),
            },
        },
    }
}

pub open spec fn else_if_blocks(
    s: State,
    current_indent: usize,
    blocks: Seq<(AstIndex, AstIndex)>,
) -> Parsed<Seq<(AstIndex, AstIndex)>>
    decreases s.remaining(), 1int,
{
    if s.current_indent() != current_indent {
        Ok((s, blocks))
    } else {
        let s1 = s.skip_blanks();
        if s1.peek() != Some(Token::ElseIf) {
            Ok((s1, blocks))
        } else {
            let s2 = s1.advance();
            match optional(s2, expression_start(s2, Seq::empty(), 0, true)) {
                Err(e) => Err(e),
                Ok((s3, None)) => syntax_error(s3, SyntaxError::ExpectedElseIfCondition),
                Ok((s3, Some(condition))) => match any(
                    s3,
                    indented_map_or_block(s3, current_indent),
                ) {
                    Err(e) => Err(e),
                    Ok((s4, None)) => syntax_error(s4, SyntaxError::ExpectedElseIfBlock),
                    Ok((s4, Some(block))) => else_if_blocks(
                        s4,
                        current_indent,
                        blocks.push((condition, block)),
                    ),
                },
            }
        }
    }
}

pub open spec fn else_block(s: State, current_indent: usize) -> Parse
    decreases s.remaining(), 1int,
{
    if s.current_indent() != current_indent {
        Ok((s, None))
    } else {
        let s1 = s.skip_blanks();
        if s1.peek() != Some(Token::Else) {
            Ok((s1, None))
        } else {
            match indented_map_or_block(s1.advance(), current_indent) {
                Err(e) => Err(e),
                Ok((s2, None)) => syntax_error(s2, SyntaxError::ExpectedElseBlock),
                Ok((s2, Some(block))) => Ok((s2, Some(block))),
            }
        }
    }
}

/// `match x` with indented arms.
pub open spec fn match_expression(s: State) -> Parse
    decreases s.remaining(), 1int,
{
    if s.peek() != Some(Token::Match) {
        Ok((s, None))
    } else {
        let s1 = s.advance();
        match optional(s1, primary_expressions(s1, false)) {
            Err(e) => Err(e),
            Ok((s2, None)) => syntax_error(s2, SyntaxError::ExpectedMatchExpression),
            Ok((s2, Some(expression))) => {
                let s3 = s2.skip_padding();
                if s3.current_indent() <= s.current_indent() {
                    syntax_error(s3, SyntaxError::ExpectedMatchArm)
                } else {
                    match match_arms(s3, s3.current_indent(), Seq::empty()) {
                        Err(e) => Err(e),
                        Ok((s4, arms)) => s4.push_some_from(
                            NodeView::Match { expression, arms },
                            s.span(),
                        ),
                    }
                }
            },
        }
    }
}

pub open spec fn match_arms(s: State, match_indent: usize, arms: Seq<MatchArmView>) -> Parsed<
    Seq<MatchArmView>,
>
    decreases s.remaining(), 12int,
{
    if s.peek() is None {
        Ok((s, arms))
    } else {
        match some_tokens(s, match_arm(s, match_indent)) {
            Err(e) => Err(e),
            Ok((s1, arm)) => {
                let s2 = s1.skip_padding();
                if s2.next_indent() < match_indent {
                    Ok((s2, arms.push(arm)))
                } else if s2.next_indent() > match_indent {
                    syntax_error(s2, SyntaxError::UnexpectedIndentation)
                } else {
                    match_arms(s2, match_indent, arms.push(arm))
                }
            },
        }
    }
}

/// One arm: alternatives separated by `or`, a condition, and the value.
pub open spec fn match_arm(s: State, match_indent: usize) -> Parsed<MatchArmView>
    decreases s.remaining(), 11int,
{
    match any(s, arm_patterns(s, Seq::empty(), 1)) {
        Err(e) => Err(e),
        Ok((s1, (patterns, expected_count))) => if patterns.len() != expected_count {
            syntax_error(s1, SyntaxError::ExpectedMatchPattern)
        } else {
            match any(s1, condition(s1, SyntaxError::ExpectedMatchCondition)) {
                Err(e) => Err(e),
                Ok((s2, condition)) => {
                    let s3 = s2.skip_blanks();
                    if s3.peek() == Some(Token::Then) {
                        match primary_expressions(s3.advance(), false) {
                            Err(e) => Err(e),
                            Ok((s4, None)) => syntax_error(
                                s4,
                                SyntaxError::ExpectedMatchArmExpressionAfterThen,
                            ),
                            Ok((s4, Some(expression))) => Ok(
                                (s4, MatchArmView { patterns, condition, expression }),
                            ),
                        }
                    } else if s3.remaining() < s.remaining() {
                        match indented_map_or_block(s3, match_indent) {
                            Err(e) => Err(e),
                            Ok((s4, None)) => syntax_error(
                                s4,
                                SyntaxError::ExpectedMatchArmExpression,
                            ),
                            Ok((s4, Some(expression))) => Ok(
                                (s4, MatchArmView { patterns, condition, expression }),
                            ),
                        }
                    } else {
                        stuck(s3)
                    }
                },
            }
        },
    }
}

/// The patterns of an arm, and how many of them the `or`s between them call for.
pub open spec fn arm_patterns(
    s: State,
    patterns: Seq<AstIndex>,
    expected_count: int,
) -> Parsed<(Seq<AstIndex>, int)>
    decreases s.remaining(), 10int,
{
    match optional(s, arm_pattern(s)) {
        Err(e) => Err(e),
        Ok((s1, None)) => Ok((s1, (patterns, expected_count))),
        Ok((s1, Some(pattern))) => {
            let s2 = s1.skip_blanks();
            if s2.peek() == Some(Token::Or) {
                arm_patterns(s2.advance(), patterns.push(pattern), expected_count + 1)
            } else {
                arm_patterns(s2, patterns.push(pattern), expected_count)
            }
        },
    }
}

/// A pattern for the matched value, with a pattern for each of its values where it is a tuple.
pub open spec fn arm_pattern(s: State) -> Parse
    decreases s.remaining(), 9int,
{
    match optional(s, match_pattern(s)) {
        Err(e) => Err(e),
        Ok((s1, None)) => Ok((s1, None)),
        Ok((s1, Some(first))) => match any(s1, pattern_list(s1, seq![first])) {
            Err(e) => Err(e),
            Ok((s2, patterns)) => if patterns.len() == 1 {
                Ok((s2, Some(patterns[0])))
            } else {
                s2.push_some(NodeView::Tuple(patterns))
            },
        },
    }
}

/// The patterns for the values of a tuple, separated by commas.
pub open spec fn pattern_list(s: State, patterns: Seq<AstIndex>) -> Parsed<Seq<AstIndex>>
    decreases s.remaining(), 9int,
{
    let s1 = s.skip_blanks();
    if s1.peek() != Some(Token::Separator) {
        Ok((s1, patterns))
    } else {
        let s2 = s1.advance();
        match optional(s2, match_pattern(s2)) {
            Err(e) => Err(e),
            Ok((s3, None)) => syntax_error(s3, SyntaxError::ExpectedMatchPattern),
            Ok((s3, Some(pattern))) => pattern_list(s3, patterns.push(pattern)),
        }
    }
}

/// A literal, an id that is bound to the value, a list, a wildcard, or the empty value.
pub open spec fn match_pattern(s: State) -> Parse
    decreases s.remaining(), 8int,
{
    let s1 = s.skip_blanks();
    match s1.peek() {
        Some(Token::True) | Some(Token::False) | Some(Token::Number) | Some(Token::String) => term(
            s1,
            false,
        ),
        Some(Token::Id) => match id(s1, false) {
            (s2, None) => internal_error(s2, InternalError::IdParseFailure),
            (s2, Some(constant)) => match s2.assign_id(constant) {
                Err(e) => Err(e),
                Ok((s3, _)) => s3.push_some(NodeView::Id(constant)),
            },
        },
        Some(Token::ListStart) => list(s1.advance(), false),
        Some(Token::Wildcard) => s1.advance().push_some(NodeView::Wildcard),
        Some(Token::ParenOpen) => if s1.peek_n(1) == Some(Token::ParenClose) {
            s1.advance().advance().push_some(NodeView::Empty)
        } else {
            Ok((s1, None))
        },
        _ => Ok((s1, None)),
    }
}

/// `import a b.c` or `from a.b import c d`.
pub open spec fn import_expression(s: State) -> Parse {
    if s.peek() == Some(Token::From) {
        match import_items(s.advance()) {
            Err(e) => Err(e),
            Ok((s1, items)) => if items.len() != 1 {
                syntax_error(s1, SyntaxError::ImportFromExpressionHasTooManyItems)
            } else {
                let s2 = s1.skip_blanks();
                if s2.peek() != Some(Token::Import) {
                    syntax_error(s2, SyntaxError::ExpectedImportKeywordAfterFrom)
                } else {
                    import_from(s2.advance(), items[0])
                }
            },
        }
    } else if s.peek() == Some(Token::Import) {
        import_from(s.advance(), Seq::empty())
    } else {
        internal_error(s, InternalError::UnexpectedToken)
    }
}

pub open spec fn import_from(s: State, from: Seq<ConstantIndex>) -> Parse {
    match import_items(s) {
        Err(e) => Err(e),
        Ok((s1, items)) => match assign_imports(s1, items, 0) {
            Err(e) => Err(e),
            Ok((s2, _)) => s2.push_some(NodeView::Import { from, items }),
        },
    }
}

/// The last id of each item becomes a local.
pub open spec fn assign_imports(s: State, items: Seq<Seq<ConstantIndex>>, n: int) -> Parsed<()>
    decreases items.len() - n,
{
    if n >= items.len() {
        Ok((s, ()))
    } else if items[n].len() == 0 {
        internal_error(s, InternalError::ExpectedIdInImportItem)
    } else {
        match s.assign_id(items[n].last()) {
            Err(e) => Err(e),
            Ok((s1, _)) => assign_imports(s1, items, n + 1),
        }
    }
}

pub open spec fn import_items(s: State) -> Parsed<Seq<Seq<ConstantIndex>>> {
    match more_import_items(s, Seq::empty()) {
        Err(e) => Err(e),
        Ok((s1, items)) => if items.len() == 0 {
            syntax_error(s1, SyntaxError::ExpectedIdInImportExpression)
        } else {
            Ok((s1, items))
        },
    }
}

pub open spec fn more_import_items(s: State, items: Seq<Seq<ConstantIndex>>) -> Parsed<
    Seq<Seq<ConstantIndex>>,
>
    decreases s.remaining(),
{
    match id(s, false) {
        (s1, None) => Ok((s1, items)),
        (s1, Some(root)) => match any(s1, import_path(s1, seq![root])) {
            Err(e) => Err(e),
            Ok((s2, item)) => more_import_items(s2, items.push(item)),
        },
    }
}

/// The ids after the root of an item, each after a dot.
pub open spec fn import_path(s: State, item: Seq<ConstantIndex>) -> Parsed<Seq<ConstantIndex>>
    decreases s.remaining(),
{
    if s.peek() != Some(Token::Dot) {
        Ok((s, item))
    } else {
        match id(s.advance(), false) {
            (s1, None) => syntax_error(s1, SyntaxError::ExpectedImportModuleId),
            (s1, Some(id)) => import_path(s1, item.push(id)),
        }
    }
}

/// `try`, `catch` and `finally` blocks, after `try`.
pub open spec fn try_expression(s: State, current_indent: usize) -> Parse
    decreases s.remaining(), 17int,
{
    match any(s, indented_block(s, current_indent, None)) {
        Err(e) => Err(e),
        Ok((s1, None)) => syntax_error(s1, SyntaxError::ExpectedTryBody),
        Ok((s1, Some(try_block))) => {
            let s2 = s1.skip_blanks();
            let s3 = s2.advance();
            if s2.peek() != Some(Token::Catch) {
                syntax_error(s3, SyntaxError::ExpectedCatchBlock)
            } else {
                match id(s3, true) {
                    (s4, None) => syntax_error(s4, SyntaxError::ExpectedCatchArgument),
                    (s4, Some(catch_arg)) => match s4.assign_id(catch_arg) {
                        Err(e) => Err(e),
                        Ok((s5, _)) => match any(s5, indented_block(s5, current_indent, None)) {
                            Err(e) => Err(e),
                            Ok((s6, None)) => syntax_error(s6, SyntaxError::ExpectedCatchBody),
                            Ok((s6, Some(catch_block))) => match finally_block(
                                s6,
                                current_indent,
                            ) {
                                Err(e) => Err(e),
                                Ok((s7, finally_block)) => s7.push_some_from(
                                    NodeView::Try(
                                        AstTry {
                                            try_block,
                                            catch_arg,
                                            catch_block,
                                            finally_block,
                                        },
                                    ),
                                    s.span(),
                                ),
                            },
                        },
                    },
                }
            }
        },
    }
}

pub open spec fn finally_block(s: State, current_indent: usize) -> Parse
    decreases s.remaining(), 1int,
{
    let s1 = s.skip_blanks();
    if s1.peek() != Some(Token::Finally) {
        Ok((s1, None))
    } else {
        match indented_block(s1.advance(), current_indent, None) {
            Err(e) => Err(e),
            Ok((s2, None)) => syntax_error(s2, SyntaxError::ExpectedFinallyBody),
            Ok((s2, Some(block))) => Ok((s2, Some(block))),
        }
    }
}

/// A map block, or a block of lines.
pub open spec fn indented_map_or_block(s: State, current_indent: usize) -> Parse
    decreases s.remaining(), 16int,
{
    let s1 = s.skip_padding();
    let expected_indent = s1.next_indent();
    match optional(s1, map_block(s1, current_indent, Some(expected_indent))) {
        Err(e) => Err(e),
        Ok((s2, Some(map))) => Ok((s2, Some(map))),
        Ok((s2, None)) => indented_block(s2, current_indent, Some(expected_indent)),
    }
}

/// Lines that are indented further than the line before them.
pub open spec fn indented_block(
    s: State,
    current_indent: usize,
    block_indent: Option<usize>,
) -> Parse
    decreases s.remaining(), 15int,
{
    match block_indent {
        Some(indent) => if indent <= current_indent {
            Ok((s, None))
        } else {
            indented_block_at(s, indent)
        },
        None => {
            let s1 = s.skip_blanks();
            if s1.peek() != Some(Token::NewLineIndented) || s1.next_indent() <= current_indent {
                Ok((s1, None))
            } else {
                indented_block_at(s1.advance(), s1.next_indent())
            }
        },
    }
}

/// A block of a single line stands for itself.
pub open spec fn indented_block_at(s: State, block_indent: usize) -> Parse
    decreases s.remaining(), 14int,
{
    let s1 = s.skip_padding();
    match indented_lines(s1, block_indent, Seq::empty()) {
        Err(e) => Err(e),
        Ok((s2, body)) => if body.len() == 1 {
            Ok((s2, Some(body[0])))
        } else {
            s2.push_some_from(NodeView::Block(body), s1.span())
        },
    }
}

pub open spec fn indented_lines(s: State, block_indent: usize, body: Seq<AstIndex>) -> Parsed<
    Seq<AstIndex>,
>
    decreases s.remaining(), 13int,
{
    match optional(s, line(s)) {
        Err(e) => Err(e),
        Ok((s1, None)) => Ok((s1, body)),
        Ok((s1, Some(expression))) => {
            let s2 = s1.skip_padding();
            if s2.current_indent() < block_indent {
                Ok((s2, body.push(expression)))
            } else if s2.current_indent() > block_indent {
                syntax_error(s2, SyntaxError::UnexpectedIndentation)
            } else {
                indented_lines(s2, block_indent, body.push(expression))
            }
        },
    }
}

/// `|x y| body`.
pub open spec fn function(s: State) -> Parse
    decreases s.remaining(), 1int,
{
    let s1 = s.skip_blanks();
    if s1.peek() != Some(Token::Function) {
        internal_error(s1, InternalError::FunctionParseFailure)
    } else {
        let s2 = s1.advance();
        match any(s2, function_args(s2, Seq::empty())) {
            Err(e) => Err(e),
            Ok((s3, args)) => {
                let s4 = s3.skip_blanks();
                let s5 = s4.advance();
                if s4.peek() != Some(Token::Function) {
                    syntax_error(s5, SyntaxError::ExpectedFunctionArgsEnd)
                } else {
                    let s6 = s5.push_frame(FrameView::empty().assign_all(args)).skip_blanks();
                    match function_body(s6, s1.current_indent()) {
                        Err(e) => Err(e),
                        Ok((s7, body)) => match s7.leave_function() {
                            Err(e) => Err(e),
                            Ok((s8, frame)) => s8.push_some_from(
                                NodeView::Function {
                                    args,
                                    local_count: frame.locals().len(),
                                    accessed_non_locals: frame.captures(),
                                    body,
                                    is_generator: frame.contains_yield,
                                },
                                s2.span(),
                            ),
                        },
                    }
                }
            },
        }
    }
}

pub open spec fn function_args(s: State, args: Seq<ConstantIndex>) -> Parsed<Seq<ConstantIndex>>
    decreases s.remaining(),
{
    match id(s.skip_padding(), true) {
        (s1, None) => Ok((s1, args)),
        (s1, Some(arg)) => function_args(s1, args.push(arg)),
    }
}

pub open spec fn function_body(s: State, current_indent: usize) -> Parsed<AstIndex>
    decreases s.remaining(), 17int,
{
    if s.peek() == Some(Token::NewLineIndented) && s.next_indent() > current_indent {
        match indented_map_or_block(s, current_indent) {
            Err(e) => Err(e),
            Ok((s1, None)) => internal_error(s1, InternalError::FunctionParseFailure),
            Ok((s1, Some(block))) => Ok((s1, block)),
        }
    } else {
        match line(s) {
            Err(e) => Err(e),
            Ok((s1, None)) => syntax_error(s1, SyntaxError::ExpectedFunctionBody),
            Ok((s1, Some(body))) => Ok((s1, body)),
        }
    }
}

} // verus!
