//! Lexed source: the tokens of a script and a cursor that walks over them.
use vstd::prelude::*;
use vstd::string::*;

verus! {

/// The tokens of the Koto language.
#[derive(Clone, Copy, Debug, PartialEq, Eq, Structural)]
pub enum Token {
    Error,
    Whitespace,
    NewLine,
    NewLineIndented,
    NewLineSkipped,
    CommentSingle,
    CommentMulti,
    Number,
    String,
    Id,
    Wildcard,
    // Symbols
    Colon,
    Dot,
    Function,
    ListStart,
    ListEnd,
    MapStart,
    MapEnd,
    ParenOpen,
    ParenClose,
    Range,
    RangeInclusive,
    Separator,
    // Operators
    Add,
    Subtract,
    Multiply,
    Divide,
    Modulo,
    Assign,
    AssignAdd,
    AssignSubtract,
    AssignMultiply,
    AssignDivide,
    AssignModulo,
    Equal,
    NotEqual,
    Greater,
    GreaterOrEqual,
    Less,
    LessOrEqual,
    // Keywords
    And,
    Break,
    Catch,
    Continue,
    Copy,
    Debug,
    Else,
    ElseIf,
    Export,
    False,
    Finally,
    For,
    From,
    If,
    Import,
    In,
    Loop,
    Match,
    Not,
    Num2,
    Num4,
    Or,
    Return,
    Then,
    True,
    Try,
    Type,
    Until,
    While,
    Yield,
}

/// A position in the source, both coordinates counted from 1.
#[derive(Clone, Copy, Debug, PartialEq, Eq, Structural)]
pub struct Position {
    pub line: u32,
    pub column: u32,
}

/// The stretch of source between two positions.
#[derive(Clone, Copy, Debug, PartialEq, Eq, Structural)]
pub struct Span {
    pub start: Position,
    pub end: Position,
}

/// The span before anything has been read.
pub open spec fn default_span() -> Span {
    Span { start: Position { line: 1, column: 1 }, end: Position { line: 1, column: 1 } }
}

impl Default for Span {
    fn default() -> (span: Span)
        ensures
            span == default_span(),
    {
        Span { start: Position { line: 1, column: 1 }, end: Position { line: 1, column: 1 } }
    }
}

/// The value of a number literal.
///
/// Zero and one have nodes of their own in the AST; every other number is kept as the bits of a
/// double.
#[derive(Clone, Copy, Debug, PartialEq, Eq, Structural)]
pub enum NumberLiteral {
    Zero,
    One,
    Bits(u64),
}

/// A token together with everything that the parser reads of it.
#[derive(Clone, Debug)]
pub struct LexedToken {
    pub token: Token,
    /// The source text of the token.
    pub text: String,
    /// Where the token stands in the source.
    pub span: Span,
    /// The indentation of the line that the lexer is on once the token has been read.
    pub indent: usize,
    /// The number of the line that the lexer is on once the token has been read.
    pub line: u32,
    /// The value of a number token, `None` where the text isn't a valid number.
    pub number: Option<NumberLiteral>,
}

/// A source text after lexing.
#[derive(Clone, Debug)]
pub struct LexedSource {
    pub tokens: Vec<LexedToken>,
    /// The indentation that is reported as coming next once all tokens have been read.
    pub end_indent: usize,
}

impl LexedSource {
    /// String tokens are enclosed in quotes, each a single byte.
    pub open spec fn well_formed(&self) -> bool {
        forall|i: int|
            0 <= i < self.tokens@.len() && (#[trigger] self.tokens@[i]).token == Token::String
                ==> quoted(self.tokens@[i].text@)
    }

    /// Tells whether the string tokens are enclosed in quotes.
    pub fn has_quoted_strings(&self) -> (result: bool)
        ensures
            result == self.well_formed(),
    {
        let mut i: usize = 0;
        while i < self.tokens.len()
            invariant
                i <= self.tokens@.len(),
                forall|j: int|
                    0 <= j < i && (#[trigger] self.tokens@[j]).token == Token::String ==> quoted(
                        self.tokens@[j].text@,
                    ),
            decreases self.tokens@.len() - i,
        {
            if self.tokens[i].token == Token::String && !is_quoted(self.tokens[i].text.as_str()) {
                assert(!quoted(self.tokens@[i as int].text@));
                return false;
            }
            i = i + 1;
        }
        true
    }
}

fn is_quoted(text: &str) -> (result: bool)
    ensures
        result == quoted(text@),
{
    let length: usize = text.unicode_len();
    length >= 2 && text.get_char(0) < '\u{80}' && text.get_char(length - 1) < '\u{80}'
}

/// A text whose first and last characters are two ASCII characters.
pub open spec fn quoted(text: Seq<char>) -> bool {
    &&& text.len() >= 2
    &&& text[0] < '\u{80}'
    &&& text[text.len() - 1] < '\u{80}'
}

/// A cursor over lexed source.
///
/// The token that was read last is the current one: the span, text, line and indentation that the
/// cursor reports are those of the current token.
#[derive(Clone, Copy, Debug)]
pub struct Lexer<'source> {
    pub source: &'source LexedSource,
    /// The number of tokens that have been read.
    pub position: usize,
}

/// What a cursor holds: the source's tokens and how many of them have been read.
#[verifier::ext_equal]
pub struct LexerView {
    pub tokens: Seq<LexedToken>,
    pub end_indent: usize,
    pub position: int,
}

impl<'source> View for Lexer<'source> {
    type V = LexerView;

    open spec fn view(&self) -> LexerView {
        LexerView {
            tokens: self.source.tokens@,
            end_indent: self.source.end_indent,
            position: self.position as int,
        }
    }
}

impl LexerView {
    /// The cursor stands within its source.
    pub open spec fn well_formed(self) -> bool {
        &&& 0 <= self.position <= self.tokens.len()
        &&& forall|i: int|
            0 <= i < self.tokens.len() && (#[trigger] self.tokens[i]).token == Token::String
                ==> quoted(self.tokens[i].text@)
    }

    /// The number of tokens that are still to be read.
    pub open spec fn remaining(self) -> int {
        if self.position <= self.tokens.len() {
            self.tokens.len() - self.position
        } else {
            0
        }
    }

    /// The token `n` places after the next one, if there is one.
    pub open spec fn peek_n(self, n: int) -> Option<Token> {
        if 0 <= self.position + n < self.tokens.len() {
            Some(self.tokens[self.position + n].token)
        } else {
            None
        }
    }

    /// The next token, if there is one.
    pub open spec fn peek(self) -> Option<Token> {
        self.peek_n(0)
    }

    /// The cursor after the next token has been read.
    pub open spec fn advance(self) -> LexerView {
        if self.position < self.tokens.len() {
            LexerView { position: self.position + 1, ..self }
        } else {
            self
        }
    }

    /// The token that was read last.
    pub open spec fn current(self) -> LexedToken
        recommends
            0 < self.position <= self.tokens.len(),
    {
        self.tokens[self.position - 1]
    }

    pub open spec fn span(self) -> Span {
        if self.position == 0 {
            default_span()
        } else {
            self.current().span
        }
    }

    pub open spec fn slice(self) -> Seq<char> {
        if self.position == 0 {
            Seq::empty()
        } else {
            self.current().text@
        }
    }

    pub open spec fn line_number(self) -> u32 {
        if self.position == 0 {
            1
        } else {
            self.current().line
        }
    }

    pub open spec fn current_indent(self) -> usize {
        if self.position == 0 {
            0
        } else {
            self.current().indent
        }
    }

    pub open spec fn next_indent(self) -> usize {
        if self.position < self.tokens.len() {
            self.tokens[self.position].indent
        } else {
            self.end_indent
        }
    }

    pub open spec fn number(self) -> Option<NumberLiteral> {
        if self.position == 0 {
            None
        } else {
            self.current().number
        }
    }

    /// The source text of the tokens from the one at `from` up to the cursor.
    pub open spec fn text_since(self, from: int) -> Seq<char>
        decreases self.position,
    {
        if from < self.position && 0 < self.position {
            LexerView { position: self.position - 1, ..self }.text_since(from)
                + self.tokens[self.position - 1].text@
        } else {
            Seq::empty()
        }
    }
}

impl<'source> Lexer<'source> {
    pub fn new(source: &'source LexedSource) -> (lexer: Self)
        ensures
            lexer@ == (LexerView {
                tokens: source.tokens@,
                end_indent: source.end_indent,
                position: 0,
            }),
    {
        Lexer { source, position: 0 }
    }

    pub fn peek_n(&self, n: usize) -> (token: Option<Token>)
        requires
            self@.well_formed(),
        ensures
            token == self@.peek_n(n as int),
    {
        if n < self.source.tokens.len() - self.position {
            Some(self.source.tokens[self.position + n].token)
        } else {
            None
        }
    }

    pub fn peek(&self) -> (token: Option<Token>)
        requires
            self@.well_formed(),
        ensures
            token == self@.peek(),
    {
        self.peek_n(0)
    }

    /// Reads the next token.
    pub fn next(&mut self) -> (token: Option<Token>)
        requires
            old(self)@.well_formed(),
        ensures
            final(self)@ == old(self)@.advance(),
            token == old(self)@.peek(),
    {
        if self.position < self.source.tokens.len() {
            let token = self.source.tokens[self.position].token;
            self.position = self.position + 1;
            Some(token)
        } else {
            None
        }
    }

    pub fn span(&self) -> (span: Span)
        requires
            self@.well_formed(),
        ensures
            span == self@.span(),
    {
        if self.position == 0 {
            Span::default()
        } else {
            self.source.tokens[self.position - 1].span
        }
    }

    pub fn slice(&self) -> (slice: &'source str)
        requires
            self@.well_formed(),
        ensures
            slice@ == self@.slice(),
    {
        if self.position == 0 {
            proof {
                reveal_strlit("");
                assert(""@ =~= Seq::<char>::empty());
            }
            ""
        } else {
            self.source.tokens[self.position - 1].text.as_str()
        }
    }

    pub fn line_number(&self) -> (line: u32)
        requires
            self@.well_formed(),
        ensures
            line == self@.line_number(),
    {
        if self.position == 0 {
            1
        } else {
            self.source.tokens[self.position - 1].line
        }
    }

    pub fn current_indent(&self) -> (indent: usize)
        requires
            self@.well_formed(),
        ensures
            indent == self@.current_indent(),
    {
        if self.position == 0 {
            0
        } else {
            self.source.tokens[self.position - 1].indent
        }
    }

    pub fn next_indent(&self) -> (indent: usize)
        requires
            self@.well_formed(),
        ensures
            indent == self@.next_indent(),
    {
        if self.position < self.source.tokens.len() {
            self.source.tokens[self.position].indent
        } else {
            self.source.end_indent
        }
    }

    /// The value of the current token, where it is a number.
    pub fn number(&self) -> (number: Option<NumberLiteral>)
        requires
            self@.well_formed(),
        ensures
            number == self@.number(),
    {
        if self.position == 0 {
            None
        } else {
            self.source.tokens[self.position - 1].number
        }
    }

    /// The source text of the tokens from the one at `from` up to the cursor.
    pub fn text_since(&self, from: usize) -> (text: String)
        requires
            self@.well_formed(),
            from <= self.position,
        ensures
            text@ == self@.text_since(from as int),
    {
        let mut text = String::new();
        let mut i: usize = from;
        while i < self.position
            invariant
                from <= i <= self.position,
                self@.well_formed(),
                text@ == (LexerView { position: i as int, ..self@ }).text_since(from as int),
            decreases self.position - i,
        {
            text.append(self.source.tokens[i].text.as_str());
            i = i + 1;
            assert((LexerView {
                position: i - 1,
                ..(LexerView { position: i as int, ..self@ })
            }) == (LexerView { position: i - 1, ..self@ }));
        }
        assert((LexerView { position: i as int, ..self@ }) == self@);
        text
    }
}

/// The strings of a source are enclosed in quotes exactly if each of them has at least two
/// characters, and its first and last one are single bytes.
pub proof fn law_quoted_strings(source: LexedSource)
    ensures
        source.well_formed() <==> forall|i: int|
            0 <= i < source.tokens@.len() && (#[trigger] source.tokens@[i]).token == Token::String
                ==> {
                let text = source.tokens@[i].text@;
                text.len() >= 2 && (text[0] as int) < 128 && (text.last() as int) < 128
            },
{
    if forall|i: int|
        0 <= i < source.tokens@.len() && (#[trigger] source.tokens@[i]).token == Token::String
            ==> {
            let text = source.tokens@[i].text@;
            text.len() >= 2 && (text[0] as int) < 128 && (text.last() as int) < 128
        } {
        assert forall|i: int|
            0 <= i < source.tokens@.len() && (#[trigger] source.tokens@[i]).token == Token::String
            implies quoted(source.tokens@[i].text@) by {
            let text = source.tokens@[i].text@;
            assert(text.last() == text[text.len() - 1]);
        }
    }
}

/// A cursor holds the tokens of its source and the number of those that have been read.
pub proof fn law_cursor_view(lexer: Lexer)
    ensures
        lexer@.tokens == lexer.source.tokens@,
        lexer@.end_indent == lexer.source.end_indent,
        lexer@.position == lexer.position,
{
}

} // verus!
