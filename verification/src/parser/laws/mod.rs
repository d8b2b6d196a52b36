//! What holds of the grammar as a whole.
use vstd::prelude::*;

use crate::ast::{node_capacity, AstIndex, NodeView};
use crate::constant_pool::ConstantView;
use crate::error::ParserError;
use crate::frame::FrameView;
use crate::lexer::{LexedSource, LexerView, Token};
use crate::parser::grammar;
use crate::parser::state::{after_padding, is_padding, lemma_after_padding, State};

pub mod control;
pub mod lines;
pub mod names;
pub mod operators;
pub mod outcomes;
pub mod steps;
pub mod values;

verus! {

pub open spec fn is_comparison(op: Token) -> bool {
    ||| op == Token::Equal
    ||| op == Token::NotEqual
    ||| op == Token::Greater
    ||| op == Token::GreaterOrEqual
    ||| op == Token::Less
    ||| op == Token::LessOrEqual
}

/// Comparisons are right-associative, as chained comparisons require, and every other operator is
/// left-associative.
pub proof fn law_associativity(op: Token)
    ensures
        grammar::precedence(op) matches Some((left, right)) ==> {
            &&& left != right
            &&& left > right <==> is_comparison(op)
        },
{
}

/// Operators come in levels that bind more and more tightly: whichever side two operators of
/// different levels are compared on, the same one binds tighter.
pub proof fn law_precedence_levels(a: Token, b: Token)
    ensures
        match (grammar::precedence(a), grammar::precedence(b)) {
            (Some((left_a, right_a)), Some((left_b, right_b))) => left_a < left_b ==> {
                &&& left_a < right_b
                &&& right_a < left_b
                &&& right_a < right_b
            },
            _ => true,
        },
{
}

/// An operator that binds less tightly than its context asks for isn't read: it is left to the
/// operation around it.
pub proof fn law_weak_operator_is_left(
    s: State,
    lhs: Seq<AstIndex>,
    min_precedence: u8,
    primary: bool,
)
    requires
        lhs.len() > 0,
        s.skip_blanks().peek() matches Some(op) && grammar::precedence(op) matches Some((left, _))
            && left < min_precedence,
    ensures
        grammar::expression_continued(s, lhs, min_precedence, primary) == Ok::<
            (State, Option<AstIndex>),
            ParserError,
        >((s.skip_blanks(), Some(lhs.last()))),
{
}

/// An operator that binds as tightly as its context asks for is read, if whitespace follows it.
pub proof fn law_strong_operator_is_read(
    s: State,
    lhs: Seq<AstIndex>,
    min_precedence: u8,
    primary: bool,
    op: Token,
)
    requires
        lhs.len() > 0,
        s.skip_blanks().peek() == Some(op),
        grammar::precedence(op) matches Some((left, _)) && left >= min_precedence,
        grammar::ends_operator(s.skip_blanks().peek_n(1)),
    ensures
        grammar::expression_continued(s, lhs, min_precedence, primary) == grammar::operation(
            s.skip_blanks(),
            op,
            grammar::precedence(op).unwrap().1,
            lhs.last(),
            min_precedence,
            primary,
        ),
{
}

/// An operator without whitespace after it isn't one: in `f -x` the minus belongs to `x`.
pub proof fn law_operator_needs_whitespace(
    s: State,
    lhs: Seq<AstIndex>,
    min_precedence: u8,
    primary: bool,
)
    requires
        lhs.len() > 0,
        s.skip_blanks().peek() matches Some(op) && grammar::precedence(op) is Some,
        !grammar::ends_operator(s.skip_blanks().peek_n(1)),
    ensures
        grammar::expression_continued(s, lhs, min_precedence, primary) == Ok::<
            (State, Option<AstIndex>),
            ParserError,
        >((s.skip_blanks(), Some(lhs.last()))),
{
}

/// A text without backslashes stands for itself.
pub proof fn law_plain_text(text: Seq<char>)
    requires
        forall|i: int| 0 <= i < text.len() ==> text[i] != '\\',
    ensures
        grammar::unescape(text) == Some(text),
    decreases text.len(),
{
    if text.len() > 0 {
        law_plain_text(text.skip(1));
        assert(seq![text[0]] + text.skip(1) =~= text);
    } else {
        assert(text =~= Seq::empty());
    }
}

/// Texts that stand side by side can be resolved one after the other, as long as the first of them
/// doesn't end in the middle of an escape.
pub proof fn law_unescape_parts(a: Seq<char>, b: Seq<char>)
    requires
        grammar::unescape(a) is Some,
    ensures
        grammar::unescape(a + b) == (match grammar::unescape(b) {
            Some(rest) => Some(grammar::unescape(a).unwrap() + rest),
            None => None,
        }),
    decreases a.len(),
{
    if a.len() == 0 {
        assert(a + b =~= b);
        match grammar::unescape(b) {
            Some(rest) => {
                assert(grammar::unescape(a).unwrap() + rest =~= rest);
            },
            None => {},
        }
    } else {
        let n: int = if a[0] != '\\' {
            1
        } else {
            2
        };
        law_unescape_parts(a.skip(n), b);
        assert((a + b).skip(n) =~= a.skip(n) + b);
        match grammar::unescape(b) {
            Some(rest) => {
                let first = grammar::unescape(a).unwrap();
                let tail = grammar::unescape(a.skip(n)).unwrap();
                assert(first + rest =~= seq![first[0]] + (tail + rest));
            },
            None => {},
        }
    }
}

/// Resolving escapes never makes a text longer.
pub proof fn law_unescape_shortens(text: Seq<char>)
    ensures
        grammar::unescape(text) matches Some(content) ==> content.len() <= text.len(),
    decreases text.len(),
{
    if text.len() > 0 {
        law_unescape_shortens(text.skip(1));
        if text.len() > 1 {
            law_unescape_shortens(text.skip(2));
        }
    }
}

/// The contents of two quoted texts stand side by side in the text that joins them within one pair
/// of quotes, and a pair of quotes on its own has no content.
pub proof fn law_quoted_strings_join(s: State, quote: char, a: Seq<char>, b: Seq<char>)
    requires
        grammar::string_content(s, seq![quote] + a + seq![quote]) is Ok,
        grammar::string_content(s, seq![quote] + b + seq![quote]) is Ok,
    ensures
        ({
            let content_a = grammar::string_content(s, seq![quote] + a + seq![quote])->Ok_0.1;
            let content_b = grammar::string_content(s, seq![quote] + b + seq![quote])->Ok_0.1;
            grammar::string_content(s, seq![quote] + (a + b) + seq![quote]) == Ok::<
                (State, Seq<char>),
                ParserError,
            >((s, content_a + content_b))
        }),
        grammar::string_content(s, seq![quote, quote]) == Ok::<(State, Seq<char>), ParserError>(
            (s, Seq::empty()),
        ),
{
    lemma_within_quotes(quote, a);
    lemma_within_quotes(quote, b);
    lemma_within_quotes(quote, a + b);
    law_unescape_parts(a, b);
    assert(seq![quote, quote].subrange(1, 1) =~= Seq::empty());
}

proof fn lemma_within_quotes(quote: char, text: Seq<char>)
    ensures
        ({
            let quoted = seq![quote] + text + seq![quote];
            quoted.subrange(1, quoted.len() - 1) == text
        }),
{
    let quoted = seq![quote] + text + seq![quote];
    assert(quoted.subrange(1, quoted.len() - 1) =~= text);
}

/// A binary operator has a node of its own, with its operands in their order, and every earlier
/// node stays as it is.
pub proof fn law_operator_node(s: State, op: Token, lhs: AstIndex, rhs: AstIndex)
    requires
        grammar::precedence(op) is Some,
        s.nodes.len() < node_capacity(),
    ensures
        s.push_node(NodeView::BinaryOp { op: grammar::binary_op(op), lhs, rhs }) matches Ok((t, i))
            && {
            &&& i == s.nodes.len()
            &&& t.nodes.len() == s.nodes.len() + 1
            &&& t.node(i) == NodeView::BinaryOp { op: grammar::binary_op(op), lhs, rhs }
            &&& forall|j: int| 0 <= j < s.nodes.len() ==> (#[trigger] t.nodes[j]) == s.nodes[j]
        },
{
    reveal(State::push_node);
    reveal(State::push);
}

/// Different operators have different names in the AST.
pub proof fn law_operator_names_are_distinct(a: Token, b: Token)
    requires
        grammar::precedence(a) is Some,
        grammar::precedence(b) is Some,
        grammar::binary_op(a) == grammar::binary_op(b),
    ensures
        a == b,
{
}

/// The token that looking ahead finds is the one that comes next after reading up to it: it is the
/// first that isn't whitespace, a line break or a comment. Reading up to it only moves the lexer
/// on.
pub proof fn law_looking_ahead(s: State)
    requires
        s.lexer.position >= 0,
    ensures
        ({
            let next = s.skip_padding();
            let distance = next.lexer.position - s.lexer.position;
            &&& distance >= 0
            &&& next.peek() == s.peek_n(distance)
            &&& !is_padding(next.peek())
            &&& forall|n: int| 0 <= n < distance ==> is_padding(#[trigger] s.peek_n(n))
            &&& next.lexer.tokens == s.lexer.tokens
            &&& next.nodes == s.nodes
            &&& next.constants == s.constants
            &&& next.frames == s.frames
        }),
{
    reveal(State::skip_padding);
    lemma_after_padding(s.lexer);
    lemma_padding_ahead(s.lexer);
    let distance = s.skip_padding().lexer.position - s.lexer.position;
    assert forall|n: int| 0 <= n < distance implies is_padding(#[trigger] s.peek_n(n)) by {
        assert(is_padding(s.lexer.peek_n(n)));
    }
}

proof fn lemma_padding_ahead(lexer: LexerView)
    requires
        lexer.position >= 0,
    ensures
        forall|n: int|
            0 <= n < after_padding(lexer).position - lexer.position ==> is_padding(
                #[trigger] lexer.peek_n(n),
            ),
    decreases lexer.remaining(),
{
    if is_padding(lexer.peek()) {
        lemma_padding_ahead(lexer.advance());
        assert forall|n: int|
            0 <= n < after_padding(lexer).position - lexer.position implies is_padding(
            #[trigger] lexer.peek_n(n),
        ) by {
            if n > 0 {
                assert(lexer.advance().peek_n(n - 1) == lexer.peek_n(n));
            }
        }
    }
}

/// Whitespace and comments before a line of a script don't matter.
pub proof fn law_padding_before_lines(s: State, body: Seq<AstIndex>)
    requires
        s.lexer.position >= 0,
    ensures
        grammar::main_lines(s.skip_padding(), body) == grammar::main_lines(s, body),
{
    reveal(State::skip_padding);
    lemma_after_padding(s.lexer);
    assert(s.skip_padding().skip_padding() == s.skip_padding());
}

/// Whitespace before a line doesn't matter.
pub proof fn law_blanks_before_line(s: State)
    requires
        s.lexer.position >= 0,
    ensures
        grammar::line(s.skip_blanks()) == grammar::line(s),
{
    reveal(State::skip_blanks);
    crate::parser::state::lemma_after_blanks(s.lexer);
    assert(s.skip_blanks().skip_blanks() == s.skip_blanks());
}

/// A script of whitespace and comments is an empty main block without locals or constants.
pub proof fn law_empty_script(source: LexedSource)
    requires
        forall|i: int|
            0 <= i < source.tokens@.len() ==> is_padding(
                Some((#[trigger] source.tokens@[i]).token),
            ),
    ensures
        grammar::script(source) matches Ok((nodes, constants, index)) && {
            &&& nodes.len() == 1
            &&& nodes[0].node == NodeView::MainBlock { body: Seq::empty(), local_count: 0 }
            &&& constants == Seq::<ConstantView>::empty()
            &&& index == 0
        },
{
    let start = LexerView { tokens: source.tokens@, end_indent: source.end_indent, position: 0 };
    lemma_all_padding(start);
    let s = State::start(start).push_frame(FrameView::empty());
    reveal(State::skip_padding);
    reveal(State::push_node_from);
    reveal(State::push);
    assert(s.skip_padding().peek() is None);
    assert(s.frames.last().locals() =~= Set::empty());
    assert(s.frames.drop_last() =~= Seq::empty());
}

proof fn lemma_all_padding(lexer: LexerView)
    requires
        lexer.position >= 0,
        forall|i: int|
            0 <= i < lexer.tokens.len() ==> is_padding(Some((#[trigger] lexer.tokens[i]).token)),
    ensures
        after_padding(lexer).peek() is None,
    decreases lexer.remaining(),
{
    if lexer.position < lexer.tokens.len() {
        lemma_all_padding(lexer.advance());
    }
}

} // verus!
