//! What literals, lists and maps are parsed to.
use vstd::prelude::*;

use crate::ast::{AstIndex, AstNodeView, ConstantIndex, NodeView};
use crate::error::{InternalError, ParserError, SyntaxError};
use crate::lexer::{NumberLiteral, Span, Token};
use crate::parser::grammar;
use crate::parser::laws::outcomes::{
    adds, between, breaks_off, fails, gives, reads_none, reads_one, reads_to, refuses,
};
use crate::parser::laws::steps::{law_added_node, law_noted_yield};
use crate::parser::state::State;

verus! {

/// The entries of a map: keys, with their values where they have one.
pub type MapEntries = Seq<(ConstantIndex, Option<AstIndex>)>;

/// Each literal and each jump has a node of its own.
pub proof fn law_simple_terms(s: State, primary: bool)
    ensures
        ({
            let at = s.skip_blanks();
            let read = at.advance();
            let term = grammar::term(s, primary);
            &&& at.peek() is None ==> gives(term, at, None)
            &&& at.peek() == Some(Token::True) ==> adds(term, read, NodeView::BoolTrue, read.span())
            &&& at.peek() == Some(Token::False) ==> adds(
                term,
                read,
                NodeView::BoolFalse,
                read.span(),
            )
            &&& at.peek() == Some(Token::Break) ==> adds(term, read, NodeView::Break, read.span())
            &&& at.peek() == Some(Token::Continue) ==> adds(
                term,
                read,
                NodeView::Continue,
                read.span(),
            )
            &&& at.peek() == Some(Token::Error) ==> refuses(term, at, SyntaxError::LexerError)
        }),
{
    let read = s.skip_blanks().advance();
    law_added_node(read, NodeView::BoolTrue, read.span());
    law_added_node(read, NodeView::BoolFalse, read.span());
    law_added_node(read, NodeView::Break, read.span());
    law_added_node(read, NodeView::Continue, read.span());
}

/// The first token of a term says what it is. Conditionals and `try` are only read where a primary
/// expression stands, and tokens that start nothing aren't read.
pub proof fn law_term(s: State, primary: bool)
    ensures
        ({
            let at = s.skip_blanks();
            let read = at.advance();
            let term = grammar::term(s, primary);
            let token = at.peek();
            let starts = token == Some(Token::True) || token == Some(Token::False) || token == Some(
                Token::ParenOpen,
            ) || token == Some(Token::Number) || token == Some(Token::String) || token == Some(
                Token::Id,
            ) || token == Some(Token::ListStart) || token == Some(Token::MapStart) || token == Some(
                Token::Num2,
            ) || token == Some(Token::Num4) || token == Some(Token::Match) || token == Some(
                Token::Function,
            ) || token == Some(Token::Copy) || token == Some(Token::Not) || token == Some(
                Token::Type,
            ) || token == Some(Token::Yield) || token == Some(Token::Break) || token == Some(
                Token::Continue,
            ) || token == Some(Token::Return) || token == Some(Token::From) || token == Some(
                Token::Import,
            ) || token == Some(Token::NewLineIndented) || token == Some(Token::Error) || primary
                && (token == Some(Token::If) || token == Some(Token::Try));
            &&& token == Some(Token::ParenOpen) ==> term == grammar::nested_expressions(at)
            &&& token == Some(Token::Number) ==> term == grammar::number(read)
            &&& token == Some(Token::String) ==> term == grammar::string(read, primary)
            &&& token == Some(Token::Id) ==> term == grammar::id_expression(at, primary)
            &&& token == Some(Token::ListStart) ==> term == grammar::list(read, primary)
            &&& token == Some(Token::MapStart) ==> term == grammar::map_inline(read, primary)
            &&& token == Some(Token::If) && primary ==> term == grammar::if_expression(at)
            &&& token == Some(Token::Match) ==> term == grammar::match_expression(at)
            &&& token == Some(Token::Function) ==> term == grammar::function(at)
            &&& token == Some(Token::From) || token == Some(Token::Import) ==> term
                == grammar::import_expression(at)
            &&& token == Some(Token::Try) && primary ==> term == grammar::try_expression(
                read,
                at.current_indent(),
            )
            &&& token == Some(Token::NewLineIndented) ==> term == grammar::map_block(
                at,
                s.current_indent(),
                None,
            )
            &&& !starts ==> gives(term, at, None)
        }),
{
}

/// `copy`, `not` and `type` apply to the expression that follows them, which has to be there.
pub proof fn law_prefix_terms(
    s: State,
    primary: bool,
    s1: State,
    expression: AstIndex,
    e: ParserError,
)
    ensures
        ({
            let at = s.skip_blanks();
            let term = grammar::term(s, primary);
            let value = grammar::expression_start(at.advance(), Seq::empty(), 0, true);
            let prefix = at.peek() == Some(Token::Copy) || at.peek() == Some(Token::Not)
                || at.peek() == Some(Token::Type);
            &&& at.peek() == Some(Token::Copy) && gives(value, s1, Some(expression)) ==> adds(
                term,
                s1,
                NodeView::CopyExpression(expression),
                s1.span(),
            )
            &&& at.peek() == Some(Token::Not) && gives(value, s1, Some(expression)) ==> adds(
                term,
                s1,
                NodeView::Negate(expression),
                s1.span(),
            )
            &&& at.peek() == Some(Token::Type) && gives(value, s1, Some(expression)) ==> adds(
                term,
                s1,
                NodeView::Type(expression),
                s1.span(),
            )
            &&& prefix && gives(value, s1, None) ==> refuses(
                term,
                s1,
                SyntaxError::ExpectedExpression,
            )
            &&& prefix && fails(value, e) ==> fails(term, e)
        }),
{
    law_added_node(s1, NodeView::CopyExpression(expression), s1.span());
    law_added_node(s1, NodeView::Negate(expression), s1.span());
    law_added_node(s1, NodeView::Type(expression), s1.span());
}

/// A return may have a value. A yield has to have one, and makes the function that it stands in a
/// generator.
pub proof fn law_return_and_yield(
    s: State,
    primary: bool,
    s1: State,
    expression: AstIndex,
    e: ParserError,
)
    ensures
        ({
            let at = s.skip_blanks();
            let term = grammar::term(s, primary);
            let value = grammar::primary_expressions(at.advance(), true);
            let is_return = at.peek() == Some(Token::Return);
            let is_yield = at.peek() == Some(Token::Yield);
            &&& is_return && gives(value, s1, Some(expression)) ==> adds(
                term,
                s1,
                NodeView::ReturnExpression(expression),
                s1.span(),
            )
            &&& is_return && gives(value, s1, None) ==> adds(term, s1, NodeView::Return, s1.span())
            &&& (is_return || is_yield) && fails(value, e) ==> fails(term, e)
            &&& is_yield && gives(value, s1, None) ==> refuses(
                term,
                s1,
                SyntaxError::ExpectedExpression,
            )
            &&& is_yield && gives(value, s1, Some(expression)) && s1.frames.len() > 0
                && s1.nodes.len() < 0x1_0000_0000 ==> (term matches Ok((t, Some(i))) && {
                &&& i == s1.nodes.len()
                &&& t.nodes == s1.nodes.push(
                    AstNodeView { node: NodeView::Yield(expression), span: s1.span() },
                )
                &&& t.lexer == s1.lexer
                &&& t.constants == s1.constants
                &&& t.frames.len() == s1.frames.len()
                &&& t.frames.last().contains_yield
                &&& t.frames.last().assigned == s1.frames.last().assigned
                &&& t.frames.last().non_locals == s1.frames.last().non_locals
                &&& t.frames.last().accesses == s1.frames.last().accesses
                &&& forall|k: int|
                    0 <= k < s1.frames.len() - 1 ==> (#[trigger] t.frames[k]) == s1.frames[k]
            })
        }),
{
    law_added_node(s1, NodeView::ReturnExpression(expression), s1.span());
    law_added_node(s1, NodeView::Return, s1.span());
    law_added_node(s1, NodeView::Yield(expression), s1.span());
    if s1.nodes.len() < 0x1_0000_0000 {
        law_noted_yield(s1.push_node(NodeView::Yield(expression))->Ok_0.0);
    }
}

/// Zero and one have nodes of their own, and every other number is a constant.
pub proof fn law_number(s: State, bits: u64)
    ensures
        s.lexer.number() is None ==> breaks_off(
            grammar::number(s),
            s,
            InternalError::NumberParseFailure,
        ),
        s.lexer.number() == Some(NumberLiteral::Zero) ==> adds(
            grammar::number(s),
            s,
            NodeView::Number0,
            s.span(),
        ),
        s.lexer.number() == Some(NumberLiteral::One) ==> adds(
            grammar::number(s),
            s,
            NodeView::Number1,
            s.span(),
        ),
        s.lexer.number() == Some(NumberLiteral::Bits(bits)) ==> {
            let (t, constant) = s.add_number(bits);
            adds(grammar::number(s), t, NodeView::Number(constant), t.span())
        },
{
    let (t, constant) = s.add_number(bits);
    law_added_node(s, NodeView::Number0, s.span());
    law_added_node(s, NodeView::Number1, s.span());
    law_added_node(t, NodeView::Number(constant), t.span());
}

/// A string is a constant that holds its content, which is what stands between its quotes with the
/// escapes resolved. A lookup may follow it.
pub proof fn law_string(s: State, primary: bool, content: Seq<char>, t: State)
    ensures
        ({
            let unquoted = s.slice().subrange(1, s.slice().len() - 1);
            let (s1, constant) = s.add_string(content);
            &&& grammar::unescape(unquoted) is None ==> refuses(
                grammar::string(s, primary),
                s,
                SyntaxError::UnexpectedEscapeInString,
            )
            &&& grammar::unescape(unquoted) == Some(content) && s1.nodes.len() < 0x1_0000_0000 && t
                == (State {
                nodes: s1.nodes.push(
                    AstNodeView { node: NodeView::Str(constant), span: s1.span() },
                ),
                ..s1
            }) ==> grammar::string(s, primary) == grammar::lookup_on(
                t,
                s1.nodes.len() as u32,
                primary,
            )
        }),
{
    let (s1, constant) = s.add_string(content);
    law_added_node(s1, NodeView::Str(constant), s1.span());
}

/// A number vector holds its terms in their order. It reaches from its keyword to its last term.
pub proof fn law_number_vectors(
    s: State,
    primary: bool,
    s1: State,
    args: Seq<AstIndex>,
    e: ParserError,
)
    ensures
        ({
            let at = s.skip_blanks();
            let read = at.advance();
            let term = grammar::term(s, primary);
            let two = grammar::num_terms(read, 2, SyntaxError::TooManyNum2Terms);
            let four = grammar::num_terms(read, 4, SyntaxError::TooManyNum4Terms);
            &&& at.peek() == Some(Token::Num2) && gives(two, s1, args) ==> adds(
                term,
                s1,
                NodeView::Num2(args),
                between(read.span(), s1.span()),
            )
            &&& at.peek() == Some(Token::Num4) && gives(four, s1, args) ==> adds(
                term,
                s1,
                NodeView::Num4(args),
                between(read.span(), s1.span()),
            )
            &&& at.peek() == Some(Token::Num2) && fails(two, e) ==> fails(term, e)
            &&& at.peek() == Some(Token::Num4) && fails(four, e) ==> fails(term, e)
        }),
{
    let read = s.skip_blanks().advance();
    law_added_node(s1, NodeView::Num2(args), read.span());
    law_added_node(s1, NodeView::Num4(args), read.span());
}

/// The terms of a number vector stand in parentheses, or one after the other. At least one has to
/// be there, and no more than the vector can hold.
pub proof fn law_num_terms(
    s: State,
    size: int,
    too_many: SyntaxError,
    s1: State,
    args: Seq<AstIndex>,
    e: ParserError,
)
    ensures
        ({
            let whole = grammar::num_terms(s, size, too_many);
            let inner = if s.peek() == Some(Token::ParenOpen) {
                grammar::parenthesized_args(s)
            } else {
                grammar::terms(s, Seq::empty())
            };
            &&& gives(inner, s1, args) && args.len() == 0 ==> refuses(
                whole,
                s1,
                SyntaxError::ExpectedExpression,
            )
            &&& gives(inner, s1, args) && 0 < args.len() <= size ==> gives(whole, s1, args)
            &&& gives(inner, s1, args) && args.len() > 0 && args.len() > size ==> refuses(
                whole,
                s1,
                too_many,
            )
            &&& fails(inner, e) ==> fails(whole, e)
        }),
{
}

/// Terms are read until there is none.
pub proof fn law_terms(s: State, args: Seq<AstIndex>, s1: State, arg: AstIndex, e: ParserError)
    ensures
        ({
            let term = grammar::term(s, false);
            &&& reads_one(term, s, s1, arg) ==> grammar::terms(s, args) == grammar::terms(
                s1,
                args.push(arg),
            )
            &&& reads_none(term, s, s1) ==> gives(grammar::terms(s, args), s1, args)
            &&& fails(term, e) ==> fails(grammar::terms(s, args), e)
        }),
{
}

/// A list that turns out to be a comprehension has it as its only entry. Any other list is read
/// again from where it starts.
pub proof fn law_list(
    s: State,
    primary: bool,
    s1: State,
    loop_node: AstIndex,
    s2: State,
    entries: Seq<AstIndex>,
    e: ParserError,
)
    ensures
        ({
            let whole = grammar::list(s, primary);
            let attempt = grammar::comprehension(s);
            let again = s1.rewind(s);
            let plain = grammar::list_entries(again, Seq::empty());
            &&& fails(attempt, e) ==> fails(whole, e)
            &&& reads_to(attempt, s, s1, Some(loop_node)) ==> whole == grammar::end_of_list(
                s1,
                seq![loop_node],
                s.span(),
                primary,
            )
            &&& reads_to(attempt, s, s1, None) && reads_to(plain, again, s2, entries) ==> whole
                == grammar::end_of_list(s2, entries, s.span(), primary)
            &&& reads_to(attempt, s, s1, None) && fails(plain, e) ==> fails(whole, e)
        }),
{
}

/// An expression that is a loop is a comprehension, and so is a loop that follows an expression,
/// which is its body. Nothing else is.
pub proof fn law_comprehension(s: State, s1: State, expression: AstIndex, e: ParserError)
    ensures
        ({
            let whole = grammar::comprehension(s);
            let first = grammar::expression_start(s, Seq::empty(), 0, true);
            let node = s1.nodes[expression as int].node;
            let is_loop = node is For || node is While || node is Until;
            let at = s1.skip_blanks();
            &&& fails(first, e) ==> fails(whole, e)
            &&& reads_none(first, s, s1) ==> gives(whole, s1, None)
            &&& reads_one(first, s, s1, expression) ==> {
                &&& is_loop ==> gives(whole, s1, Some(expression))
                &&& !is_loop && at.peek() == Some(Token::For) ==> whole == grammar::for_loop(
                    at,
                    Some(seq![expression]),
                )
                &&& !is_loop && at.peek() == Some(Token::While) ==> whole == grammar::while_loop(
                    at,
                    Some(seq![expression]),
                )
                &&& !is_loop && at.peek() == Some(Token::Until) ==> whole == grammar::until_loop(
                    at,
                    Some(seq![expression]),
                )
                &&& !is_loop && at.peek() != Some(Token::For) && at.peek() != Some(Token::While)
                    && at.peek() != Some(Token::Until) ==> gives(whole, at, None)
            }
        }),
{
}

/// The entries of a list stand in their order, separated by commas, up to the closing bracket. An
/// entry that isn't there is left out.
pub proof fn law_list_entries(
    s: State,
    entries: Seq<AstIndex>,
    s1: State,
    entry: AstIndex,
    e: ParserError,
)
    ensures
        ({
            let at = s.skip_padding();
            let whole = grammar::list_entries(s, entries);
            let value = grammar::expression_start(at, Seq::empty(), 0, true);
            let behind = s1.skip_blanks();
            let closed = at.peek() == Some(Token::ListEnd);
            &&& closed ==> gives(whole, at, entries)
            &&& !closed && fails(value, e) ==> fails(whole, e)
            &&& !closed && reads_one(value, at, s1, entry) ==> {
                &&& behind.peek() == Some(Token::Separator) ==> whole == grammar::list_entries(
                    behind.advance(),
                    entries.push(entry),
                )
                &&& behind.peek() != Some(Token::Separator) ==> gives(
                    whole,
                    behind,
                    entries.push(entry),
                )
            }
            &&& !closed && reads_none(value, at, s1) ==> {
                &&& behind.peek() == Some(Token::Separator) ==> whole == grammar::list_entries(
                    behind.advance(),
                    entries,
                )
                &&& behind.peek() != Some(Token::Separator) ==> gives(whole, behind, entries)
            }
        }),
{
}

/// A list ends with its closing bracket, and holds its entries in their order. It reaches from the
/// opening bracket to the closing one, and a lookup may follow it.
pub proof fn law_end_of_list(
    s: State,
    entries: Seq<AstIndex>,
    start_span: Span,
    primary: bool,
    t: State,
)
    ensures
        ({
            let at = s.skip_padding();
            let read = at.advance();
            let whole = grammar::end_of_list(s, entries, start_span, primary);
            &&& at.peek() != Some(Token::ListEnd) ==> refuses(
                whole,
                read,
                SyntaxError::ExpectedListEnd,
            )
            &&& at.peek() == Some(Token::ListEnd) && read.nodes.len() < 0x1_0000_0000 && t == (
            State {
                nodes: read.nodes.push(
                    AstNodeView {
                        node: NodeView::List(entries),
                        span: between(start_span, read.span()),
                    },
                ),
                ..read
            }) ==> whole == grammar::lookup_on(t, read.nodes.len() as u32, primary)
        }),
{
    law_added_node(s.skip_padding().advance(), NodeView::List(entries), start_span);
}

/// A map in braces ends with its closing brace, and holds its entries in their order. It reaches
/// from the opening brace to the closing one, and a lookup may follow it.
pub proof fn law_map_inline(
    s: State,
    primary: bool,
    s1: State,
    entries: MapEntries,
    t: State,
    e: ParserError,
)
    ensures
        ({
            let whole = grammar::map_inline(s, primary);
            let inner = grammar::map_entries(s, Seq::empty());
            let at = s1.skip_blanks();
            let read = at.advance();
            &&& fails(inner, e) ==> fails(whole, e)
            &&& reads_to(inner, s, s1, entries) && at.peek() != Some(Token::MapEnd) ==> refuses(
                whole,
                read,
                SyntaxError::ExpectedMapEnd,
            )
            &&& reads_to(inner, s, s1, entries) && at.peek() == Some(Token::MapEnd)
                && read.nodes.len() < 0x1_0000_0000 && t == (State {
                nodes: read.nodes.push(
                    AstNodeView {
                        node: NodeView::MapEntries(entries),
                        span: between(s.span(), read.span()),
                    },
                ),
                ..read
            }) ==> whole == grammar::lookup_on(t, read.nodes.len() as u32, primary)
        }),
{
    law_added_node(
        s1.skip_blanks().advance(),
        NodeView::MapEntries(entries),
        s.span(),
    );
}

/// An entry is a key with the value behind its colon, or a key alone. Entries stand in their order.
pub proof fn law_map_entries(
    s: State,
    entries: MapEntries,
    s1: State,
    key: ConstantIndex,
    s2: State,
    value: AstIndex,
    e: ParserError,
)
    ensures
        ({
            let whole = grammar::map_entries(s, entries);
            let name = grammar::id_or_string(s.skip_padding());
            let at = s1.advance().skip_padding();
            let valued = grammar::expression_start(at, Seq::empty(), 0, true);
            &&& fails(name, e) ==> fails(whole, e)
            &&& gives(name, s1, None) ==> gives(whole, s1, entries)
            &&& gives(name, s1, Some(key)) && s1.peek() != Some(Token::Colon) ==> whole
                == grammar::more_map_entries(s1, entries.push((key, None)))
            &&& gives(name, s1, Some(key)) && s1.peek() == Some(Token::Colon) ==> {
                &&& reads_one(valued, at, s2, value) ==> whole == grammar::more_map_entries(
                    s2,
                    entries.push((key, Some(value))),
                )
                &&& reads_none(valued, at, s2) ==> refuses(
                    whole,
                    s2,
                    SyntaxError::ExpectedMapValue,
                )
                &&& fails(valued, e) ==> fails(whole, e)
            }
        }),
{
}

/// A comma goes on to the next entry, and without one the entries have ended.
pub proof fn law_more_map_entries(s: State, entries: MapEntries)
    ensures
        ({
            let at = s.skip_blanks();
            &&& at.peek() == Some(Token::Separator) ==> grammar::more_map_entries(s, entries)
                == grammar::map_entries(at.advance(), entries)
            &&& at.peek() != Some(Token::Separator) ==> gives(
                grammar::more_map_entries(s, entries),
                at,
                entries,
            )
        }),
{
}

/// A map block opens on a line that stands further in than the line before.
pub proof fn law_map_block(s: State, current: usize, indent: usize)
    ensures
        ({
            let at = s.skip_blanks();
            let opens = at.peek() == Some(Token::NewLineIndented) && at.next_indent() > current;
            &&& grammar::map_block(s, current, Some(indent)) == grammar::map_block_at(s, indent)
            &&& opens ==> grammar::map_block(s, current, None) == grammar::map_block_at(
                at.advance(),
                at.next_indent(),
            )
            &&& !opens ==> gives(grammar::map_block(s, current, None), at, None)
        }),
{
}

/// A map block starts with an id and a colon, and holds its entries in their order. It reaches from
/// before its first entry to behind its last.
pub proof fn law_map_block_at(
    s: State,
    indent: usize,
    s1: State,
    entries: MapEntries,
    e: ParserError,
)
    ensures
        ({
            let at = s.skip_padding();
            let whole = grammar::map_block_at(s, indent);
            let inner = grammar::map_block_entries(at, indent, Seq::empty());
            let starts = at.peek() == Some(Token::Id) && at.peek_n(1) == Some(Token::Colon);
            &&& !starts ==> gives(whole, at, None)
            &&& starts && gives(inner, s1, entries) ==> adds(
                whole,
                s1,
                NodeView::MapEntries(entries),
                between(at.span(), s1.span()),
            )
            &&& starts && fails(inner, e) ==> fails(whole, e)
        }),
{
    law_added_node(s1, NodeView::MapEntries(entries), s.skip_padding().span());
}

/// The value of an entry stands on the line of its key, or on a line after it. A key without a
/// colon has no value.
pub proof fn law_map_block_entries(
    s: State,
    indent: usize,
    entries: MapEntries,
    s1: State,
    key: ConstantIndex,
    s2: State,
    s3: State,
    value: AstIndex,
    e: ParserError,
)
    ensures
        ({
            let whole = grammar::map_block_entries(s, indent, entries);
            let name = grammar::id_or_string(s);
            let colon = s1.skip_blanks();
            let at = colon.advance();
            let same_line = grammar::line(at);
            let below = s2.skip_padding();
            let later_line = grammar::line(below);
            &&& fails(name, e) ==> fails(whole, e)
            &&& gives(name, s1, None) ==> gives(whole, s1, entries)
            &&& gives(name, s1, Some(key)) && colon.peek() != Some(Token::Colon) ==> whole
                == grammar::more_map_block_entries(at, indent, entries.push((key, None)))
            &&& gives(name, s1, Some(key)) && colon.peek() == Some(Token::Colon) ==> {
                &&& fails(same_line, e) ==> fails(whole, e)
                &&& reads_one(same_line, at, s2, value) ==> whole
                    == grammar::more_map_block_entries(
                    s2,
                    indent,
                    entries.push((key, Some(value))),
                )
                &&& reads_none(same_line, at, s2) ==> {
                    &&& fails(later_line, e) ==> fails(whole, e)
                    &&& reads_one(later_line, below, s3, value) ==> whole
                        == grammar::more_map_block_entries(
                        s3,
                        indent,
                        entries.push((key, Some(value))),
                    )
                    &&& reads_none(later_line, below, s3) ==> refuses(
                        whole,
                        s3,
                        SyntaxError::ExpectedMapValue,
                    )
                }
            }
        }),
{
}

/// The entries of a block stand equally far in. A line that stands less far in comes after the
/// block, and one that stands further in is an error.
pub proof fn law_more_map_block_entries(s: State, indent: usize, entries: MapEntries)
    ensures
        ({
            let at = s.skip_padding();
            let whole = grammar::more_map_block_entries(s, indent, entries);
            &&& at.next_indent() < indent ==> gives(whole, at, entries)
            &&& at.next_indent() == indent ==> whole == grammar::map_block_entries(
                at,
                indent,
                entries,
            )
            &&& at.next_indent() > indent ==> refuses(
                whole,
                at,
                SyntaxError::UnexpectedIndentation,
            )
        }),
{
}

/// A pair of parentheses holds the empty value, one expression, or a tuple of several. A lookup may
/// follow it, without arguments of its own.
pub proof fn law_nested_expressions(
    s: State,
    s1: State,
    expressions: Seq<AstIndex>,
    t: State,
    e: ParserError,
)
    ensures
        ({
            let at = s.skip_blanks();
            let whole = grammar::nested_expressions(s);
            let inner = grammar::nested_list(at.advance(), Seq::empty());
            let read = reads_to(inner, at.advance(), s1, expressions);
            let closed = s1.peek() == Some(Token::ParenClose);
            let room = s1.nodes.len() < 0x1_0000_0000;
            let added = if expressions.len() == 0 {
                NodeView::Empty
            } else {
                NodeView::Tuple(expressions)
            };
            let is_t = t == (State {
                nodes: s1.nodes.push(AstNodeView { node: added, span: s1.span() }),
                ..s1
            });
            &&& at.peek() != Some(Token::ParenOpen) ==> gives(whole, at, None)
            &&& at.peek() == Some(Token::ParenOpen) ==> {
                &&& fails(inner, e) ==> fails(whole, e)
                &&& read && expressions.len() == 1 && closed ==> whole == grammar::lookup_on(
                    s1.advance(),
                    expressions[0],
                    false,
                )
                &&& read && expressions.len() == 1 && !closed ==> refuses(
                    whole,
                    s1,
                    SyntaxError::ExpectedCloseParen,
                )
                &&& read && expressions.len() != 1 && room && is_t && closed ==> whole
                    == grammar::lookup_on(t.advance(), s1.nodes.len() as u32, false)
                &&& read && expressions.len() != 1 && room && is_t && !closed ==> refuses(
                    whole,
                    t,
                    SyntaxError::ExpectedCloseParen,
                )
            }
        }),
{
    law_added_node(s1, NodeView::Empty, s1.span());
    law_added_node(s1, NodeView::Tuple(expressions), s1.span());
}

/// The expressions between parentheses stand in their order, each but the first behind a comma.
pub proof fn law_nested_list(
    s: State,
    expressions: Seq<AstIndex>,
    s1: State,
    expression: AstIndex,
    e: ParserError,
)
    ensures
        ({
            let whole = grammar::nested_list(s, expressions);
            let value = grammar::expression_start(s, Seq::empty(), 0, true);
            &&& fails(value, e) ==> fails(whole, e)
            &&& reads_none(value, s, s1) ==> gives(whole, s1, expressions)
            &&& reads_one(value, s, s1, expression) && s1.peek() == Some(Token::Separator) ==> whole
                == grammar::nested_list(s1.advance(), expressions.push(expression))
            &&& reads_one(value, s, s1, expression) && s1.peek() != Some(Token::Separator) ==> gives(
                whole,
                s1,
                expressions.push(expression),
            )
        }),
{
}

} // verus!
