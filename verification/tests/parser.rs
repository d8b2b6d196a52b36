use koto::ast::{Ast, Function, Node};
use koto::constant_pool::{Constant, ConstantPool};
use koto::error::{ErrorType, InternalError, ParserError, SyntaxError};
use koto::lexer::{LexedSource, LexedToken, Lexer, NumberLiteral, Position, Span, Token};
use koto::parser::{operator_precedence, token_is_whitespace, Parser};

fn keyword(word: &str) -> Token {
    match word {
        "_" => Token::Wildcard,
        "and" => Token::And,
        "break" => Token::Break,
        "catch" => Token::Catch,
        "continue" => Token::Continue,
        "copy" => Token::Copy,
        "debug" => Token::Debug,
        "else" => Token::Else,
        "else if" => Token::ElseIf,
        "export" => Token::Export,
        "false" => Token::False,
        "finally" => Token::Finally,
        "for" => Token::For,
        "from" => Token::From,
        "if" => Token::If,
        "import" => Token::Import,
        "in" => Token::In,
        "loop" => Token::Loop,
        "match" => Token::Match,
        "not" => Token::Not,
        "num2" => Token::Num2,
        "num4" => Token::Num4,
        "or" => Token::Or,
        "return" => Token::Return,
        "then" => Token::Then,
        "true" => Token::True,
        "try" => Token::Try,
        "type" => Token::Type,
        "until" => Token::Until,
        "while" => Token::While,
        "yield" => Token::Yield,
        _ => Token::Id,
    }
}

fn symbol(rest: &str) -> (Token, usize) {
    let symbols = [
        ("..=", Token::RangeInclusive),
        ("..", Token::Range),
        ("==", Token::Equal),
        ("!=", Token::NotEqual),
        (">=", Token::GreaterOrEqual),
        ("<=", Token::LessOrEqual),
        ("+=", Token::AssignAdd),
        ("-=", Token::AssignSubtract),
        ("*=", Token::AssignMultiply),
        ("/=", Token::AssignDivide),
        ("%=", Token::AssignModulo),
        (".", Token::Dot),
        (":", Token::Colon),
        ("|", Token::Function),
        ("[", Token::ListStart),
        ("]", Token::ListEnd),
        ("{", Token::MapStart),
        ("}", Token::MapEnd),
        ("(", Token::ParenOpen),
        (")", Token::ParenClose),
        (",", Token::Separator),
        ("+", Token::Add),
        ("-", Token::Subtract),
        ("*", Token::Multiply),
        ("/", Token::Divide),
        ("%", Token::Modulo),
        ("=", Token::Assign),
        (">", Token::Greater),
        ("<", Token::Less),
    ];
    for (text, token) in symbols.iter() {
        if rest.starts_with(text) {
            return (*token, text.len());
        }
    }
    (Token::Error, rest.chars().next().unwrap().len_utf8())
}

fn token_at(rest: &str) -> (Token, usize) {
    let first = rest.chars().next().unwrap();
    let run = |accept: &dyn Fn(char) -> bool| -> usize {
        rest.chars().take_while(|c| accept(*c)).map(|c| c.len_utf8()).sum()
    };
    if first == '\n' {
        let indent = rest[1..].chars().take_while(|c| *c == ' ').count();
        let token = if indent > 0 { Token::NewLineIndented } else { Token::NewLine };
        (token, 1 + indent)
    } else if rest.starts_with("\\\n") {
        (Token::NewLineSkipped, 2)
    } else if first == ' ' {
        (Token::Whitespace, run(&|c| c == ' '))
    } else if rest.starts_with("#-") {
        (Token::CommentMulti, rest.find("-#").unwrap() + 2)
    } else if first == '#' {
        (Token::CommentSingle, run(&|c| c != '\n'))
    } else if first.is_ascii_digit() {
        let whole = run(&|c| c.is_ascii_digit());
        let tail = &rest[whole..];
        if tail.starts_with('.') && tail[1..].starts_with(|c: char| c.is_ascii_digit()) {
            let fraction = tail[1..].chars().take_while(|c| c.is_ascii_digit()).count();
            (Token::Number, whole + 1 + fraction)
        } else {
            (Token::Number, whole)
        }
    } else if first == '"' || first == '\'' {
        let mut length = 1;
        let mut escaped = false;
        for c in rest[1..].chars() {
            length += c.len_utf8();
            if c == first && !escaped {
                break;
            }
            escaped = c == '\\' && !escaped;
        }
        (Token::String, length)
    } else if first.is_alphabetic() || first == '_' {
        if rest.starts_with("else if ") {
            (Token::ElseIf, "else if".len())
        } else {
            let length = run(&|c| c.is_alphanumeric() || c == '_');
            (keyword(&rest[..length]), length)
        }
    } else {
        symbol(rest)
    }
}

fn number(text: &str) -> Option<NumberLiteral> {
    let n: f64 = text.parse().ok()?;
    Some(if n == 0.0 {
        NumberLiteral::Zero
    } else if n == 1.0 {
        NumberLiteral::One
    } else {
        NumberLiteral::Bits(n.to_bits())
    })
}

fn lex(source: &str) -> LexedSource {
    let mut tokens = Vec::new();
    let mut offset = 0;
    let mut indent = 0;
    let mut position = Position { line: 1, column: 1 };
    while offset < source.len() {
        let (token, length) = token_at(&source[offset..]);
        let text = source[offset..offset + length].to_string();
        let start = position;
        for c in text.chars() {
            if c == '\n' {
                position.line += 1;
                position.column = 1;
            } else {
                position.column += 1;
            }
        }
        if token == Token::NewLine || token == Token::NewLineIndented {
            indent = length - 1;
        }
        let number = if token == Token::Number { number(&text) } else { None };
        tokens.push(LexedToken {
            token,
            text,
            span: Span { start, end: position },
            indent,
            line: position.line,
            number,
        });
        offset += length;
    }
    LexedSource { tokens, end_indent: 0 }
}

fn parse(source: &str) -> (Ast, ConstantPool) {
    let lexed = lex(source);
    match Parser::parse(&lexed) {
        Ok(result) => result,
        Err(error) => panic!("{:?}", error),
    }
}

fn parse_error(source: &str) -> ErrorType {
    let lexed = lex(source);
    match Parser::parse(&lexed) {
        Ok((ast, _)) => panic!("{:?}", ast),
        Err(error) => error.error,
    }
}

fn nodes(source: &str) -> Vec<String> {
    parse(source).0.nodes.iter().map(|n| format!("{:?}", n.node)).collect()
}

fn strings(source: &str) -> Vec<String> {
    parse(source)
        .1
        .constants
        .iter()
        .map(|c| match c {
            Constant::Str(s) => s.clone(),
            Constant::Number(bits) => format!("{}", f64::from_bits(*bits)),
        })
        .collect()
}

/// Everything up to the main block, which ends with the number of locals.
fn check(source: &str, expected: &[&str], constants: &[&str]) {
    assert_eq!(nodes(source), expected);
    assert_eq!(strings(source), constants);
}

fn syntax(error: SyntaxError) -> ErrorType {
    ErrorType::SyntaxError(error)
}

fn functions(source: &str) -> Vec<Function> {
    parse(source)
        .0
        .nodes
        .iter()
        .filter_map(|n| match &n.node {
            Node::Function(f) => Some(f.clone()),
            _ => None,
        })
        .collect()
}

#[test]
fn empty_source() {
    let lexed = lex("");
    let (ast, constants) = Parser::parse(&lexed).unwrap();
    assert_eq!(ast.nodes.len(), 1);
    assert_eq!(ast.entry_point, 0);
    assert_eq!(format!("{:?}", ast.nodes[0].node), "MainBlock { body: [], local_count: 0 }");
    assert_eq!(ast.nodes[0].span, Span::default());
    assert_eq!(constants.constants.len(), 0);
}

#[test]
fn whitespace_and_comments() {
    check("  # nothing\n\n#- at\nall -#\n  ", &["MainBlock { body: [], local_count: 0 }"], &[]);
}

#[test]
fn literals() {
    check(
        "true\nfalse\n0\n1\n1.5\n\"hi\"\n()",
        &[
            "BoolTrue",
            "BoolFalse",
            "Number0",
            "Number1",
            "Number(0)",
            "Str(1)",
            "Empty",
            "MainBlock { body: [0, 1, 2, 3, 4, 5, 6], local_count: 0 }",
        ],
        &["1.5", "hi"],
    );
}

#[test]
fn constants_are_shared() {
    check(
        "x\n\"x\"\n2\n2\nx",
        &[
            "Id(0)",
            "Str(0)",
            "Number(1)",
            "Number(1)",
            "Id(0)",
            "MainBlock { body: [0, 1, 2, 3, 4], local_count: 0 }",
        ],
        &["x", "2"],
    );
}

#[test]
fn string_escapes() {
    assert_eq!(strings("\"a\\\\b\\'c\\\"d\\ne\\rf\\tg\""), ["a\\b'c\"d\ne\rf\tg"]);
    assert_eq!(strings("'\u{e9}\u{1f600}'"), ["\u{e9}\u{1f600}"]);
    assert_eq!(
        parse_error("'\\q'"),
        syntax(SyntaxError::UnexpectedEscapeInString)
    );
    assert_eq!(
        parse_error("x.\"\\q\""),
        syntax(SyntaxError::UnexpectedEscapeInString)
    );
}

#[test]
fn string_tokens_have_quotes() {
    let mut lexed = lex("'\u{e9}'");
    assert!(lexed.has_quoted_strings());
    lexed.tokens[0].text = "'".to_string();
    assert!(!lexed.has_quoted_strings());
    lexed.tokens[0].text = "\u{e9}'".to_string();
    assert!(!lexed.has_quoted_strings());
    lexed.tokens[0].token = Token::Id;
    assert!(lexed.has_quoted_strings());
}

#[test]
fn joined_strings() {
    assert_eq!(strings("'a\\n'"), ["a\n"]);
    assert_eq!(strings("'\\tb'"), ["\tb"]);
    assert_eq!(strings("'a\\n\\tb'"), ["a\n\tb"]);
    assert_eq!(strings("''"), [""]);
}

#[test]
fn invalid_number() {
    let mut lexed = lex("12");
    lexed.tokens[0].number = None;
    let error = Parser::parse(&lexed).unwrap_err();
    assert_eq!(error.error, ErrorType::InternalError(InternalError::NumberParseFailure));
    assert_eq!(error.span, lexed.tokens[0].span);
}

#[test]
fn left_associative_operators() {
    check(
        "1 - 0 - 1",
        &[
            "Number1",
            "Number0",
            "BinaryOp { op: Subtract, lhs: 0, rhs: 1 }",
            "Number1",
            "BinaryOp { op: Subtract, lhs: 2, rhs: 3 }",
            "MainBlock { body: [4], local_count: 0 }",
        ],
        &[],
    );
}

#[test]
fn right_associative_comparisons() {
    check(
        "0 < 1 <= 0",
        &[
            "Number0",
            "Number1",
            "Number0",
            "BinaryOp { op: LessOrEqual, lhs: 1, rhs: 2 }",
            "BinaryOp { op: Less, lhs: 0, rhs: 3 }",
            "MainBlock { body: [4], local_count: 0 }",
        ],
        &[],
    );
}

#[test]
fn operator_precedence_in_expressions() {
    check(
        "1 + 0 * 1 == 1 and true or false",
        &[
            "Number1",
            "Number0",
            "Number1",
            "BinaryOp { op: Multiply, lhs: 1, rhs: 2 }",
            "BinaryOp { op: Add, lhs: 0, rhs: 3 }",
            "Number1",
            "BinaryOp { op: Equal, lhs: 4, rhs: 5 }",
            "BoolTrue",
            "BinaryOp { op: And, lhs: 6, rhs: 7 }",
            "BoolFalse",
            "BinaryOp { op: Or, lhs: 8, rhs: 9 }",
            "MainBlock { body: [10], local_count: 0 }",
        ],
        &[],
    );
}

#[test]
fn operator_at_start_of_next_line() {
    check(
        "1\n  + 0",
        &[
            "Number1",
            "Number0",
            "BinaryOp { op: Add, lhs: 0, rhs: 1 }",
            "MainBlock { body: [2], local_count: 0 }",
        ],
        &[],
    );
}

#[test]
fn precedence_table() {
    assert_eq!(operator_precedence(Token::Or), Some((1, 2)));
    assert_eq!(operator_precedence(Token::And), Some((3, 4)));
    assert_eq!(operator_precedence(Token::NotEqual), Some((8, 7)));
    assert_eq!(operator_precedence(Token::GreaterOrEqual), Some((10, 9)));
    assert_eq!(operator_precedence(Token::Subtract), Some((11, 12)));
    assert_eq!(operator_precedence(Token::Modulo), Some((13, 14)));
    assert_eq!(operator_precedence(Token::Assign), None);
}

#[test]
fn whitespace_after_operators() {
    assert!(token_is_whitespace(Token::Whitespace));
    assert!(token_is_whitespace(Token::NewLine));
    assert!(token_is_whitespace(Token::NewLineIndented));
    assert!(!token_is_whitespace(Token::NewLineSkipped));
    assert!(!token_is_whitespace(Token::CommentSingle));
}

#[test]
fn negation_and_subtraction() {
    check(
        "-x\n-(x)\nf -x\nx - 1",
        &[
            "Id(0)",
            "Negate(0)",
            "Id(0)",
            "Negate(2)",
            "Id(1)",
            "Id(0)",
            "Negate(5)",
            "Call { function: 4, args: [6] }",
            "Id(0)",
            "Number1",
            "BinaryOp { op: Subtract, lhs: 8, rhs: 9 }",
            "MainBlock { body: [1, 3, 7, 10], local_count: 0 }",
        ],
        &["x", "f"],
    );
    assert_eq!(parse_error("-1"), syntax(SyntaxError::ExpectedNegatableExpression));
}

#[test]
fn missing_right_hand_side() {
    assert_eq!(parse_error("1 + \n"), syntax(SyntaxError::ExpectedRhsExpression));
    assert_eq!(parse_error("x = "), syntax(SyntaxError::ExpectedRhsExpression));
    assert_eq!(parse_error("export x = "), syntax(SyntaxError::ExpectedRhsExpression));
}

#[test]
fn single_assignment() {
    check(
        "a = 1",
        &[
            "Id(0)",
            "Number1",
            "Assign { target: AssignTarget { target_index: 0, scope: Local }, op: Equal, expression: 1 }",
            "MainBlock { body: [2], local_count: 1 }",
        ],
        &["a"],
    );
}

#[test]
fn modifying_assignments() {
    check(
        "a += 1\na -= 1\na *= 1\na /= 1\na %= 1",
        &[
            "Id(0)",
            "Number1",
            "Assign { target: AssignTarget { target_index: 0, scope: Local }, op: Add, expression: 1 }",
            "Id(0)",
            "Number1",
            "Assign { target: AssignTarget { target_index: 3, scope: Local }, op: Subtract, expression: 4 }",
            "Id(0)",
            "Number1",
            "Assign { target: AssignTarget { target_index: 6, scope: Local }, op: Multiply, expression: 7 }",
            "Id(0)",
            "Number1",
            "Assign { target: AssignTarget { target_index: 9, scope: Local }, op: Divide, expression: 10 }",
            "Id(0)",
            "Number1",
            "Assign { target: AssignTarget { target_index: 12, scope: Local }, op: Modulo, expression: 13 }",
            "MainBlock { body: [2, 5, 8, 11, 14], local_count: 0 }",
        ],
        &["a"],
    );
}

#[test]
fn multiple_assignment() {
    check(
        "a, b[0] = 1, 0",
        &[
            "Id(0)",
            "Id(1)",
            "Number0",
            "Lookup([Root(1), Index(2)])",
            "Number1",
            "Number0",
            "Tuple([4, 5])",
            "MultiAssign { targets: [AssignTarget { target_index: 0, scope: Local }, AssignTarget { target_index: 3, scope: Local }], expressions: 6 }",
            "MainBlock { body: [7], local_count: 1 }",
        ],
        &["a", "b"],
    );
}

#[test]
fn assignment_to_something_else() {
    assert_eq!(parse_error("1 = 0"), syntax(SyntaxError::ExpectedAssignmentTarget));
}

#[test]
fn repeated_target_that_was_counted_once() {
    // The match arm's expression is complete before the second target is read
    let source = "a, b[match 1\n  1\n    0\n], a = 0, 0, 0";
    assert_eq!(
        parse_error(source),
        ErrorType::InternalError(InternalError::UnexpectedIdInExpression)
    );
}

#[test]
fn tuples() {
    check(
        "1, 0, true",
        &[
            "Number1",
            "Number0",
            "BoolTrue",
            "Tuple([0, 1, 2])",
            "MainBlock { body: [3], local_count: 0 }",
        ],
        &[],
    );
}

#[test]
fn tuple_over_lines() {
    check(
        "x = 1,\n  0,\n  1",
        &[
            "Id(0)",
            "Number1",
            "Number0",
            "Number1",
            "Tuple([1, 2, 3])",
            "Assign { target: AssignTarget { target_index: 0, scope: Local }, op: Equal, expression: 4 }",
            "MainBlock { body: [5], local_count: 1 }",
        ],
        &["x"],
    );
    assert_eq!(
        parse_error("x = 1,\n  0,\n    1"),
        syntax(SyntaxError::UnexpectedIndentation)
    );
}

#[test]
fn nested_expressions() {
    check(
        "(1 + 0)\n(1, 0)\n(x).y",
        &[
            "Number1",
            "Number0",
            "BinaryOp { op: Add, lhs: 0, rhs: 1 }",
            "Number1",
            "Number0",
            "Tuple([3, 4])",
            "Id(0)",
            "Lookup([Root(6), Id(1)])",
            "MainBlock { body: [2, 5, 7], local_count: 0 }",
        ],
        &["x", "y"],
    );
    assert_eq!(parse_error("(1"), syntax(SyntaxError::ExpectedCloseParen));
}

#[test]
fn calls() {
    check(
        "f 1 x\nf(1 x)\ng.h 0",
        &[
            "Id(0)",
            "Number1",
            "Id(1)",
            "Call { function: 0, args: [1, 2] }",
            "Id(0)",
            "Number1",
            "Id(1)",
            "Lookup([Root(4), Call([5, 6])])",
            "Id(2)",
            "Number0",
            "Lookup([Root(8), Id(3), Call([9])])",
            "MainBlock { body: [3, 7, 10], local_count: 0 }",
        ],
        &["f", "x", "g", "h"],
    );
    assert_eq!(parse_error("f(1 ]"), syntax(SyntaxError::ExpectedArgsEnd));
}

#[test]
fn lookups() {
    check(
        "x[0].y(1)[..]\n\"s\"[0..1]\n[1][1..]\n{a}.b[..=0]",
        &[
            "Id(0)",
            "Number0",
            "Number1",
            "RangeFull",
            "Lookup([Root(0), Index(1), Id(1), Call([2]), Index(3)])",
            "Str(2)",
            "Number0",
            "Number1",
            "Range { start: 6, end: 7, inclusive: false }",
            "Lookup([Root(5), Index(8)])",
            "Number1",
            "List([10])",
            "Number1",
            "RangeFrom { start: 12 }",
            "Lookup([Root(11), Index(13)])",
            "MapEntries([(3, None)])",
            "Number0",
            "RangeTo { end: 16, inclusive: true }",
            "Lookup([Root(15), Id(4), Index(17)])",
            "MainBlock { body: [4, 9, 14, 18], local_count: 0 }",
        ],
        &["x", "y", "s", "a", "b"],
    );
    assert_eq!(parse_error("x[0"), syntax(SyntaxError::ExpectedIndexEnd));
    assert_eq!(parse_error("x[]"), syntax(SyntaxError::ExpectedIndexExpression));
    assert_eq!(parse_error("x.1"), syntax(SyntaxError::ExpectedMapKey));
}

#[test]
fn ranges() {
    check(
        "0..1\n0..=1\n0..\n..1\n..",
        &[
            "Number0",
            "Number1",
            "Range { start: 0, end: 1, inclusive: false }",
            "Number0",
            "Number1",
            "Range { start: 3, end: 4, inclusive: true }",
            "Number0",
            "RangeFrom { start: 6 }",
            "Number1",
            "RangeTo { end: 8, inclusive: false }",
            "RangeFull",
            "MainBlock { body: [2, 5, 7, 9, 10], local_count: 0 }",
        ],
        &[],
    );
}

#[test]
fn lists() {
    check(
        "[]\n[1, 0]\n[\n  1,\n  x,\n]",
        &[
            "List([])",
            "Number1",
            "Number0",
            "List([1, 2])",
            "Number1",
            "Id(0)",
            "List([4, 5])",
            "MainBlock { body: [0, 3, 6], local_count: 0 }",
        ],
        &["x"],
    );
    assert_eq!(parse_error("[1"), syntax(SyntaxError::ExpectedListEnd));
}

#[test]
fn list_comprehension() {
    check(
        "[x for x in 0..1]",
        &[
            "Id(0)",
            "Number0",
            "Number1",
            "Range { start: 1, end: 2, inclusive: false }",
            "For(AstFor { args: [0], ranges: [3], condition: None, body: 0 })",
            "List([4])",
            "MainBlock { body: [5], local_count: 1 }",
        ],
        &["x"],
    );
    check(
        "[f() while true]",
        &[
            "Id(0)",
            "Lookup([Root(0), Call([])])",
            "BoolTrue",
            "While { condition: 2, body: 1 }",
            "List([3])",
            "MainBlock { body: [4], local_count: 0 }",
        ],
        &["f"],
    );
}

#[test]
fn list_is_read_again_without_its_first_nodes() {
    // The entries are parsed a second time after no loop was found, so no node is left over
    check(
        "[x + 1, 0]",
        &[
            "Id(0)",
            "Number1",
            "BinaryOp { op: Add, lhs: 0, rhs: 1 }",
            "Number0",
            "List([2, 3])",
            "MainBlock { body: [4], local_count: 0 }",
        ],
        &["x"],
    );
}

#[test]
fn inline_maps() {
    check(
        "{a: 1, \"b\", c: x}",
        &[
            "Number1",
            "Id(3)",
            "MapEntries([(0, Some(0)), (1, None), (2, Some(1))])",
            "MainBlock { body: [2], local_count: 0 }",
        ],
        &["a", "b", "c", "x"],
    );
    assert_eq!(parse_error("{a: }"), syntax(SyntaxError::ExpectedMapValue));
    assert_eq!(parse_error("{a"), syntax(SyntaxError::ExpectedMapEnd));
}

#[test]
fn map_blocks() {
    check(
        "m =\n  a: 1\n  b:\n    c: 0",
        &[
            "Id(0)",
            "Number1",
            "Number0",
            "MapEntries([(3, Some(2))])",
            "MapEntries([(1, Some(1)), (2, Some(3))])",
            "Assign { target: AssignTarget { target_index: 0, scope: Local }, op: Equal, expression: 4 }",
            "MainBlock { body: [5], local_count: 1 }",
        ],
        &["m", "a", "b", "c"],
    );
    assert_eq!(
        parse_error("m =\n  a: 1\n    b: 0"),
        syntax(SyntaxError::UnexpectedIndentation)
    );
}

#[test]
fn number_vectors() {
    check(
        "num2 1 0\nnum4(1 0 1 0)",
        &[
            "Number1",
            "Number0",
            "Num2([0, 1])",
            "Number1",
            "Number0",
            "Number1",
            "Number0",
            "Num4([3, 4, 5, 6])",
            "MainBlock { body: [2, 7], local_count: 0 }",
        ],
        &[],
    );
    assert_eq!(parse_error("num2"), syntax(SyntaxError::ExpectedExpression));
    assert_eq!(parse_error("num2 1 1 1"), syntax(SyntaxError::TooManyNum2Terms));
    assert_eq!(parse_error("num4 1 1 1 1 1"), syntax(SyntaxError::TooManyNum4Terms));
}

#[test]
fn prefix_keywords() {
    check(
        "copy x\nnot x\ntype x\nbreak\ncontinue\nreturn\nreturn x",
        &[
            "Id(0)",
            "CopyExpression(0)",
            "Id(0)",
            "Negate(2)",
            "Id(0)",
            "Type(4)",
            "Break",
            "Continue",
            "Return",
            "Id(0)",
            "ReturnExpression(9)",
            "MainBlock { body: [1, 3, 5, 6, 7, 8, 10], local_count: 0 }",
        ],
        &["x"],
    );
    assert_eq!(parse_error("copy"), syntax(SyntaxError::ExpectedExpression));
    assert_eq!(parse_error("not"), syntax(SyntaxError::ExpectedExpression));
    assert_eq!(parse_error("type"), syntax(SyntaxError::ExpectedExpression));
    assert_eq!(parse_error("yield"), syntax(SyntaxError::ExpectedExpression));
}

#[test]
fn exports() {
    check(
        "export x = 1\nexport x\n",
        &[
            "Id(0)",
            "Number1",
            "Assign { target: AssignTarget { target_index: 0, scope: Global }, op: Equal, expression: 1 }",
            "Id(0)",
            "MainBlock { body: [2, 3], local_count: 0 }",
        ],
        &["x"],
    );
    assert_eq!(parse_error("export 1"), syntax(SyntaxError::ExpectedExportExpression));
    assert_eq!(parse_error("export x y"), syntax(SyntaxError::UnexpectedTokenAfterExportId));
}

#[test]
fn debug_expressions() {
    check(
        "debug x + 1",
        &[
            "Id(0)",
            "Number1",
            "BinaryOp { op: Add, lhs: 0, rhs: 1 }",
            "Debug { expression_string: 1, expression: 2 }",
            "MainBlock { body: [3], local_count: 0 }",
        ],
        &["x", "x + 1"],
    );
    assert_eq!(parse_error("debug"), syntax(SyntaxError::ExpectedExpression));
}

#[test]
fn inline_if() {
    check(
        "if x then 1 else 0",
        &[
            "Id(0)",
            "Number1",
            "Number0",
            "If(AstIf { condition: 0, then_node: 1, else_if_blocks: [], else_node: Some(2) })",
            "MainBlock { body: [3], local_count: 0 }",
        ],
        &["x"],
    );
    assert_eq!(parse_error("if"), syntax(SyntaxError::ExpectedIfCondition));
    assert_eq!(parse_error("if x then"), syntax(SyntaxError::ExpectedThenExpression));
    assert_eq!(parse_error("if x then 1 else"), syntax(SyntaxError::ExpectedElseExpression));
    assert_eq!(parse_error("if x"), syntax(SyntaxError::ExpectedThenKeywordOrBlock));
}

#[test]
fn if_blocks() {
    check(
        "if x\n  1\nelse if y\n  0\n  1\nelse\n  0\n",
        &[
            "Id(0)",
            "Number1",
            "Id(1)",
            "Number0",
            "Number1",
            "Block([3, 4])",
            "Number0",
            "If(AstIf { condition: 0, then_node: 1, else_if_blocks: [(2, 5)], else_node: Some(6) })",
            "MainBlock { body: [7], local_count: 0 }",
        ],
        &["x", "y"],
    );
    assert_eq!(
        parse_error("if x\n  1\nelse if \n"),
        syntax(SyntaxError::ExpectedElseIfCondition)
    );
    assert_eq!(parse_error("if x\n  1\nelse if y\n"), syntax(SyntaxError::ExpectedElseIfBlock));
    assert_eq!(parse_error("if x\n  1\nelse\n"), syntax(SyntaxError::ExpectedElseBlock));
}

#[test]
fn unexpected_indentation_in_a_block() {
    assert_eq!(parse_error("if x\n  1\n    0"), syntax(SyntaxError::UnexpectedIndentation));
}

#[test]
fn match_expression() {
    check(
        "match x, 1\n  0, 1 or y, _ if y then 1\n  z\n    0\n",
        &[
            "Id(0)",
            "Number1",
            "Tuple([0, 1])",
            "Number0",
            "Number1",
            "Tuple([3, 4])",
            "Id(1)",
            "Wildcard",
            "Tuple([6, 7])",
            "Id(1)",
            "Number1",
            "Id(2)",
            "Number0",
            "Match { expression: 2, arms: [MatchArm { patterns: [5, 8], condition: Some(9), expression: 10 }, MatchArm { patterns: [11], condition: None, expression: 12 }] }",
            "MainBlock { body: [13], local_count: 2 }",
        ],
        &["x", "y", "z"],
    );
}

#[test]
fn match_patterns() {
    check(
        "match x\n  [1] then 1\n  () then 0\n  \"s\"\n    1\n",
        &[
            "Id(0)",
            "Number1",
            "List([1])",
            "Number1",
            "Empty",
            "Number0",
            "Str(1)",
            "Number1",
            "Match { expression: 0, arms: [MatchArm { patterns: [2], condition: None, expression: 3 }, MatchArm { patterns: [4], condition: None, expression: 5 }, MatchArm { patterns: [6], condition: None, expression: 7 }] }",
            "MainBlock { body: [8], local_count: 0 }",
        ],
        &["x", "s"],
    );
}

#[test]
fn match_errors() {
    assert_eq!(parse_error("match"), syntax(SyntaxError::ExpectedMatchExpression));
    assert_eq!(parse_error("match x\n"), syntax(SyntaxError::ExpectedMatchArm));
    assert_eq!(parse_error("match x\n  1 or then 1"), syntax(SyntaxError::ExpectedMatchPattern));
    assert_eq!(parse_error("match x\n  1, then 1"), syntax(SyntaxError::ExpectedMatchPattern));
    assert_eq!(parse_error("match x\n  y if then 1"), syntax(SyntaxError::ExpectedMatchCondition));
    assert_eq!(
        parse_error("match x\n  y then"),
        syntax(SyntaxError::ExpectedMatchArmExpressionAfterThen)
    );
    assert_eq!(
        parse_error("match x\n  y\n"),
        syntax(SyntaxError::ExpectedMatchArmExpression)
    );
    assert_eq!(
        parse_error("match x\n  1 then 1\n    0 then 0"),
        syntax(SyntaxError::UnexpectedIndentation)
    );
}

#[test]
fn for_loops() {
    check(
        "for x, _ in a, b if x\n  x\n",
        &[
            "Id(2)",
            "Id(3)",
            "Id(0)",
            "Id(0)",
            "For(AstFor { args: [0, 1], ranges: [0, 1], condition: Some(2), body: 3 })",
            "MainBlock { body: [4], local_count: 2 }",
        ],
        &["x", "_", "a", "b"],
    );
    check(
        "x, y for x, y in a",
        &[
            "Id(0)",
            "Id(1)",
            "Id(2)",
            "Tuple([0, 1])",
            "For(AstFor { args: [0, 1], ranges: [2], condition: None, body: 3 })",
            "MainBlock { body: [4], local_count: 2 }",
        ],
        &["x", "y", "a"],
    );
    assert_eq!(parse_error("for"), syntax(SyntaxError::ExpectedForArgs));
    assert_eq!(parse_error("for x y"), syntax(SyntaxError::ExpectedForInKeyword));
    assert_eq!(parse_error("for x in"), syntax(SyntaxError::ExpectedForRanges));
    assert_eq!(parse_error("for x in y if\n"), syntax(SyntaxError::ExpectedForCondition));
    assert_eq!(parse_error("for x in y\n"), syntax(SyntaxError::ExpectedForBody));
}

#[test]
fn other_loops() {
    check(
        "loop\n  break\nwhile x\n  1\n1 until x\n",
        &[
            "Break",
            "Loop { body: 0 }",
            "Id(0)",
            "Number1",
            "While { condition: 2, body: 3 }",
            "Number1",
            "Id(0)",
            "Until { condition: 6, body: 5 }",
            "MainBlock { body: [1, 4, 7], local_count: 0 }",
        ],
        &["x"],
    );
    assert_eq!(parse_error("loop\n"), syntax(SyntaxError::ExpectedLoopBody));
    assert_eq!(parse_error("while"), syntax(SyntaxError::ExpectedWhileCondition));
    assert_eq!(parse_error("while x\n"), syntax(SyntaxError::ExpectedWhileBody));
    assert_eq!(parse_error("until"), syntax(SyntaxError::ExpectedUntilCondition));
    assert_eq!(parse_error("until x\n"), syntax(SyntaxError::ExpectedUntilBody));
}

#[test]
fn try_expression() {
    check(
        "try\n  1\ncatch e\n  e\nfinally\n  0\n",
        &[
            "Number1",
            "Id(0)",
            "Number0",
            "Try(AstTry { try_block: 0, catch_arg: 0, catch_block: 1, finally_block: Some(2) })",
            "MainBlock { body: [3], local_count: 1 }",
        ],
        &["e"],
    );
    assert_eq!(parse_error("try\n"), syntax(SyntaxError::ExpectedTryBody));
    assert_eq!(parse_error("try\n  1\n"), syntax(SyntaxError::ExpectedCatchBlock));
    assert_eq!(parse_error("try\n  1\ncatch 1"), syntax(SyntaxError::ExpectedCatchArgument));
    assert_eq!(parse_error("try\n  1\ncatch e\n"), syntax(SyntaxError::ExpectedCatchBody));
    assert_eq!(
        parse_error("try\n  1\ncatch e\n  1\nfinally\n"),
        syntax(SyntaxError::ExpectedFinallyBody)
    );
}

#[test]
fn imports() {
    check(
        "import a b.c\nfrom d.e import f",
        &[
            "Import { from: [], items: [[0], [1, 2]] }",
            "Import { from: [3, 4], items: [[5]] }",
            "MainBlock { body: [0, 1], local_count: 3 }",
        ],
        &["a", "b", "c", "d", "e", "f"],
    );
    assert_eq!(parse_error("import"), syntax(SyntaxError::ExpectedIdInImportExpression));
    assert_eq!(parse_error("import a.1"), syntax(SyntaxError::ExpectedImportModuleId));
    assert_eq!(parse_error("from a"), syntax(SyntaxError::ExpectedImportKeywordAfterFrom));
    assert_eq!(
        parse_error("from a b import c"),
        syntax(SyntaxError::ImportFromExpressionHasTooManyItems)
    );
}

#[test]
fn inline_function() {
    check(
        "|x y| x + y",
        &[
            "Id(0)",
            "Id(1)",
            "BinaryOp { op: Add, lhs: 0, rhs: 1 }",
            "Function(Function { args: [0, 1], local_count: 2, accessed_non_locals: [], body: 2, is_generator: false })",
            "MainBlock { body: [3], local_count: 0 }",
        ],
        &["x", "y"],
    );
    assert_eq!(parse_error("|x"), syntax(SyntaxError::ExpectedFunctionArgsEnd));
    assert_eq!(parse_error("|x|"), syntax(SyntaxError::ExpectedFunctionBody));
}

#[test]
fn function_with_nothing_but_a_comment() {
    assert_eq!(
        parse_error("|x|\n  # nothing"),
        ErrorType::InternalError(InternalError::FunctionParseFailure)
    );
}

#[test]
fn function_with_a_block() {
    check(
        "f = |x|\n  y = x\n  yield y\n",
        &[
            "Id(0)",
            "Id(2)",
            "Id(1)",
            "Assign { target: AssignTarget { target_index: 1, scope: Local }, op: Equal, expression: 2 }",
            "Id(2)",
            "Yield(4)",
            "Block([3, 5])",
            "Function(Function { args: [1], local_count: 2, accessed_non_locals: [], body: 6, is_generator: true })",
            "Assign { target: AssignTarget { target_index: 0, scope: Local }, op: Equal, expression: 7 }",
            "MainBlock { body: [8], local_count: 1 }",
        ],
        &["f", "x", "y"],
    );
}

#[test]
fn assigned_id_is_a_local() {
    let f = &functions("|| a = 1")[0];
    assert_eq!(f.local_count, 1);
    assert!(f.accessed_non_locals.is_empty());
}

#[test]
fn id_that_is_read_by_its_own_assignment_is_captured() {
    for source in ["|| a = a", "|| a = a = a"].iter() {
        let f = &functions(source)[0];
        assert_eq!(f.local_count, 0);
        assert_eq!(f.accessed_non_locals, [0]);
    }
}

#[test]
fn id_that_was_assigned_before_is_not_captured() {
    let f = &functions("||\n  a = 1\n  a = a\n")[0];
    assert_eq!(f.local_count, 1);
    assert!(f.accessed_non_locals.is_empty());
    let f = &functions("|a| a = a")[0];
    assert_eq!(f.local_count, 1);
    assert!(f.accessed_non_locals.is_empty());
}

#[test]
fn swapped_ids_are_captured() {
    let f = &functions("|| a, b = b, a")[0];
    assert_eq!(f.local_count, 0);
    let mut captured = f.accessed_non_locals.clone();
    captured.sort();
    assert_eq!(captured, [0, 1]);
}

#[test]
fn chained_assignment_captures_what_it_reads_first() {
    // b is only written, a is read before it is assigned
    let f = &functions("|| a = b = a")[0];
    assert_eq!(f.local_count, 1);
    assert_eq!(f.accessed_non_locals, [0]);
}

#[test]
fn nested_function_that_reads_the_assigned_id() {
    let fs = functions("|| a = || a");
    assert_eq!(fs[0].accessed_non_locals, [0]);
    assert_eq!(fs[1].accessed_non_locals, [0]);
    assert_eq!(fs[1].local_count, 0);
}

#[test]
fn read_id_is_captured() {
    let f = &functions("|| a")[0];
    assert_eq!(f.local_count, 0);
    assert_eq!(f.accessed_non_locals, [0]);
}

#[test]
fn id_that_is_read_on_an_earlier_line_is_no_local() {
    let f = &functions("||\n  a\n  a = 1\n")[0];
    assert_eq!(f.local_count, 0);
    assert_eq!(f.accessed_non_locals, [0]);
}

#[test]
fn captures_reach_outwards() {
    // The inner function comes first
    let fs = functions("|| || a");
    assert_eq!(fs[0].accessed_non_locals, [0]);
    assert_eq!(fs[1].accessed_non_locals, [0]);
    let fs = functions("|| ((|| a) for b in 0..10)");
    assert_eq!(fs[0].accessed_non_locals, [0]);
    assert_eq!(fs[1].accessed_non_locals, [0]);
    assert_eq!(fs[1].local_count, 1);
}

#[test]
fn captures_stop_at_the_function_that_assigns() {
    let fs = functions("|| ((|| a) for a in 0..10)");
    assert_eq!(fs[0].accessed_non_locals, [0]);
    assert!(fs[1].accessed_non_locals.is_empty());
    assert_eq!(fs[1].local_count, 1);
}

#[test]
fn modifying_assignment_reads_its_target() {
    let f = &functions("|| a += 1")[0];
    assert_eq!(f.local_count, 0);
    assert_eq!(f.accessed_non_locals, [0]);
}

#[test]
fn lexer_error() {
    assert_eq!(parse_error("x\n$"), syntax(SyntaxError::LexerError));
}

#[test]
fn line_without_an_expression() {
    assert_eq!(parse_error("]"), syntax(SyntaxError::ExpectedExpressionInMainBlock));
}

#[test]
fn error_position() {
    let lexed = lex("x\n  = 1 +\n");
    let error = Parser::parse(&lexed).unwrap_err();
    assert_eq!(error.error, syntax(SyntaxError::ExpectedExpressionInMainBlock));
    assert_eq!(error.span.start, Position { line: 1, column: 2 });
    assert_eq!(error.span.end, Position { line: 2, column: 3 });
}

#[test]
fn node_spans() {
    let (ast, _) = parse("f 1");
    assert_eq!(
        ast.nodes[0].span,
        Span { start: Position { line: 1, column: 1 }, end: Position { line: 1, column: 2 } }
    );
    assert_eq!(
        ast.nodes[1].span,
        Span { start: Position { line: 1, column: 3 }, end: Position { line: 1, column: 4 } }
    );
    // A call reaches from its function to its last argument
    assert_eq!(
        ast.nodes[2].span,
        Span { start: Position { line: 1, column: 1 }, end: Position { line: 1, column: 4 } }
    );
}

#[test]
fn nodes_refer_to_earlier_nodes() {
    let (ast, _) = parse("f = |x| [y for y in x]\nf 1, 2\nif f then {a: f} else (f, f)\n");
    assert_eq!(ast.entry_point as usize, ast.nodes.len() - 1);
    for (i, n) in ast.nodes.iter().enumerate() {
        match &n.node {
            Node::BinaryOp { lhs, rhs, .. } => assert!((*lhs as usize) < i && (*rhs as usize) < i),
            Node::List(entries) | Node::Tuple(entries) | Node::Block(entries) => {
                assert!(entries.iter().all(|e| (*e as usize) < i))
            }
            Node::Function(f) => assert!((f.body as usize) < i),
            Node::MainBlock { body, .. } => assert!(body.iter().all(|e| (*e as usize) < i)),
            _ => {}
        }
    }
}

#[test]
fn blanks_before_lines() {
    assert_eq!(nodes("   1"), nodes("1"));
    assert_eq!(nodes("\n# note\n1"), nodes("1"));
}

#[test]
fn lexer_cursor() {
    let lexed = lex("a  b\n  c");
    let mut lexer = Lexer::new(&lexed);
    assert_eq!(lexer.span(), Span::default());
    assert_eq!(lexer.slice(), "");
    assert_eq!(lexer.line_number(), 1);
    assert_eq!(lexer.number(), None);
    assert_eq!(lexer.peek(), Some(Token::Id));
    assert_eq!(lexer.peek_n(2), Some(Token::Id));
    assert_eq!(lexer.peek_n(5), None);
    assert_eq!(lexer.next(), Some(Token::Id));
    assert_eq!(lexer.slice(), "a");
    assert_eq!(lexer.next(), Some(Token::Whitespace));
    assert_eq!(lexer.next(), Some(Token::Id));
    assert_eq!(lexer.text_since(1), "  b");
    assert_eq!(lexer.current_indent(), 0);
    assert_eq!(lexer.next_indent(), 2);
    assert_eq!(lexer.next(), Some(Token::NewLineIndented));
    assert_eq!(lexer.current_indent(), 2);
    assert_eq!(lexer.line_number(), 2);
    assert_eq!(lexer.next(), Some(Token::Id));
    assert_eq!(lexer.next(), None);
    assert_eq!(lexer.peek(), None);
    assert_eq!(lexer.next_indent(), 0);
}

#[test]
fn errors_can_be_compared() {
    let lexed = lex("]");
    let error: ParserError = Parser::parse(&lexed).unwrap_err();
    assert_eq!(
        error,
        ParserError {
            error: syntax(SyntaxError::ExpectedExpressionInMainBlock),
            span: Span::default(),
        }
    );
}
