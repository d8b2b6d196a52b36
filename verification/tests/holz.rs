use koto::holz::{
    build_ast_from_expression, can_build, parse, AstNode, Block, Node, Op, Pair, Position, Rule,
    Span,
};

/// A pair for the first occurrence of a text in the source.
fn pair(source: &str, rule: Rule, text: &str, inner: Vec<Pair>) -> Pair {
    let start = source.find(text).unwrap();
    Pair { rule, text: text.to_string(), start, end: start + text.len(), inner }
}

fn build(source: &str, pair: &Pair) -> AstNode {
    assert!(can_build(source, pair));
    build_ast_from_expression(source, pair).unwrap()
}

fn number_text(node: &AstNode) -> &str {
    match &node.node {
        Node::Number(text) => text.as_str(),
        other => panic!("{:?}", other),
    }
}

#[test]
fn positions() {
    let source = "a\r\nb\u{e9}c\n\nd";
    let at = |start: usize, end: usize| {
        let node = AstNode::new(Span { input: source, start, end }, Node::Bool(true));
        (node.start_pos, node.end_pos)
    };
    assert_eq!(at(0, 1), (Position { line: 1, column: 1 }, Position { line: 1, column: 2 }));
    assert_eq!(at(2, 3), (Position { line: 1, column: 3 }, Position { line: 2, column: 1 }));
    assert_eq!(at(4, 6), (Position { line: 2, column: 2 }, Position { line: 2, column: 3 }));
    assert_eq!(at(7, 8), (Position { line: 2, column: 4 }, Position { line: 3, column: 1 }));
    assert_eq!(
        at(9, source.len()),
        (Position { line: 4, column: 1 }, Position { line: 4, column: 2 })
    );
}

#[test]
fn holz_literals() {
    let source = "true false 1.5 \"hi\" x";
    let node = build(source, &pair(source, Rule::Boolean, "true", vec![]));
    assert!(matches!(node.node, Node::Bool(true)));
    let node = build(source, &pair(source, Rule::Boolean, "false", vec![]));
    assert!(matches!(node.node, Node::Bool(false)));
    let node = build(source, &pair(source, Rule::Number, "1.5", vec![]));
    assert_eq!(number_text(&node), "1.5");
    assert_eq!(node.start_pos, Position { line: 1, column: 12 });
    assert_eq!(node.end_pos, Position { line: 1, column: 15 });
    let content = pair(source, Rule::Other, "hi", vec![]);
    let node = build(source, &pair(source, Rule::Str, "\"hi\"", vec![content]));
    assert!(matches!(&node.node, Node::Str(s) if s.as_str() == "hi"));
    let node = build(source, &pair(source, Rule::Id, "x", vec![]));
    assert!(matches!(&node.node, Node::Id(s) if s.as_str() == "x"));
}

#[test]
fn booleans_are_true_or_false() {
    assert!(!can_build("maybe", &pair("maybe", Rule::Boolean, "maybe", vec![])));
}

#[test]
fn wrappers_are_transparent() {
    let source = "7";
    let inner = pair(source, Rule::Number, "7", vec![]);
    let value = pair(source, Rule::RhsValue, "7", vec![inner]);
    let node = build(source, &pair(source, Rule::Expression, "7", vec![value]));
    assert_eq!(number_text(&node), "7");
    assert!(!can_build(source, &pair(source, Rule::LhsValue, "7", vec![])));
}

#[test]
fn indentation_has_no_node() {
    let source = "  7";
    let indentation = pair(source, Rule::Indentation, "  ", vec![]);
    assert!(can_build(source, &indentation));
    assert!(build_ast_from_expression(source, &indentation).is_none());
    let number = pair(source, Rule::Number, "7", vec![]);
    let push = pair(source, Rule::PushIndentation, "  ", vec![]);
    let block = build(source, &pair(source, Rule::Block, "  7", vec![push, indentation, number]));
    match &block.node {
        Node::Block(body) => assert_eq!(body.len(), 1),
        other => panic!("{:?}", other),
    }
}

#[test]
fn holz_arrays() {
    let source = "[1 2]";
    let inner =
        vec![pair(source, Rule::Number, "1", vec![]), pair(source, Rule::Number, "2", vec![])];
    let node = build(source, &pair(source, Rule::Array, source, inner));
    match &node.node {
        Node::Array(elements) => {
            assert_eq!(number_text(&elements[0]), "1");
            assert_eq!(number_text(&elements[1]), "2");
            assert_eq!(elements.len(), 2);
        }
        other => panic!("{:?}", other),
    }
}

#[test]
fn holz_ranges() {
    for (source, op, expected) in [("1..2", "..", false), ("1..=2", "..=", true)].iter() {
        let inner = vec![
            pair(source, Rule::Number, "1", vec![]),
            pair(source, Rule::Other, op, vec![]),
            pair(source, Rule::Number, "2", vec![]),
        ];
        let node = build(source, &pair(source, Rule::Range, source, inner));
        match &node.node {
            Node::Range { min, max, inclusive } => {
                assert_eq!(number_text(min), "1");
                assert_eq!(number_text(max), "2");
                assert_eq!(inclusive, expected);
            }
            other => panic!("{:?}", other),
        }
    }
}

#[test]
fn index_and_assignment() {
    let source = "a 1";
    let parts =
        || vec![pair(source, Rule::Id, "a", vec![]), pair(source, Rule::Number, "1", vec![])];
    let node = build(source, &pair(source, Rule::Index, source, parts()));
    match &node.node {
        Node::Index { id, expression } => {
            assert_eq!(id, "a");
            assert_eq!(number_text(expression), "1");
        }
        other => panic!("{:?}", other),
    }
    let node = build(source, &pair(source, Rule::Assignment, source, parts()));
    match &node.node {
        Node::Assign { id, expression } => {
            assert_eq!(id.as_str(), "a");
            assert_eq!(number_text(expression), "1");
        }
        other => panic!("{:?}", other),
    }
    let half = vec![pair(source, Rule::Id, "a", vec![])];
    assert!(!can_build(source, &pair(source, Rule::Assignment, source, half)));
}

#[test]
fn holz_functions() {
    let source = "|a b -> c";
    let capture = vec![
        pair(source, Rule::Id, "a", vec![]),
        pair(source, Rule::Id, "b", vec![]),
        pair(source, Rule::Other, "->", vec![]),
        pair(source, Rule::Id, "c", vec![]),
    ];
    let inner = vec![
        pair(source, Rule::Other, "|a b ->", capture),
        pair(source, Rule::Indentation, " ", vec![]),
        pair(source, Rule::Id, "c", vec![]),
    ];
    let node = build(source, &pair(source, Rule::Function, source, inner));
    match &node.node {
        Node::Function(function) => {
            assert_eq!(function.args.len(), 2);
            assert_eq!(function.args[0].as_str(), "a");
            assert_eq!(function.args[1].as_str(), "b");
            assert_eq!(function.body.len(), 1);
        }
        other => panic!("{:?}", other),
    }
}

#[test]
fn holz_calls() {
    let source = "f 1 2";
    let inner = vec![
        pair(source, Rule::Id, "f", vec![]),
        pair(source, Rule::Number, "1", vec![]),
        pair(source, Rule::Number, "2", vec![]),
    ];
    let node = build(source, &pair(source, Rule::Call, source, inner));
    match &node.node {
        Node::Call { function, args } => {
            assert_eq!(function.as_str(), "f");
            assert_eq!(args.len(), 2);
        }
        other => panic!("{:?}", other),
    }
}

#[test]
fn binary_operators() {
    let ops = [
        ("+", Op::Add),
        ("-", Op::Subtract),
        ("*", Op::Multiply),
        ("/", Op::Divide),
        ("==", Op::Equal),
        ("!=", Op::NotEqual),
        ("<", Op::LessThan),
        ("<=", Op::LessThanOrEqual),
        (">", Op::GreaterThan),
        (">=", Op::GreaterThanOrEqual),
        ("and", Op::And),
        ("or", Op::Or),
    ];
    for (text, expected) in ops.iter() {
        let source = format!("1 {} 2", text);
        let inner = vec![
            pair(&source, Rule::Number, "1", vec![]),
            pair(&source, Rule::Other, text, vec![]),
            pair(&source, Rule::Number, "2", vec![]),
        ];
        let node = build(&source, &pair(&source, Rule::BinaryOp, &source, inner));
        match &node.node {
            Node::BinaryOp { lhs, rhs, op } => {
                assert_eq!(number_text(lhs), "1");
                assert_eq!(number_text(rhs), "2");
                assert_eq!(op, expected);
            }
            other => panic!("{:?}", other),
        }
    }
    let source = "1 ^ 2";
    let inner = vec![
        pair(source, Rule::Number, "1", vec![]),
        pair(source, Rule::Other, "^", vec![]),
        pair(source, Rule::Number, "2", vec![]),
    ];
    assert!(!can_build(source, &pair(source, Rule::BinaryOp, source, inner)));
}

#[test]
fn conditionals() {
    let source = "if a then 1 else 2";
    let mut inner = vec![
        pair(source, Rule::IfKeyword, "if", vec![]),
        pair(source, Rule::Id, "a", vec![]),
        pair(source, Rule::Other, "then", vec![]),
        pair(source, Rule::Number, "1", vec![]),
        pair(source, Rule::Other, "else", vec![]),
        pair(source, Rule::Number, "2", vec![]),
    ];
    let whole = pair(source, Rule::IfInline, source, inner);
    match &build(source, &whole).node {
        Node::If { condition, then_node, else_node } => {
            assert!(matches!(&condition.node, Node::Id(s) if s.as_str() == "a"));
            assert_eq!(number_text(then_node), "1");
            assert_eq!(number_text(else_node.as_ref().unwrap()), "2");
        }
        other => panic!("{:?}", other),
    }
    inner = whole.inner;
    inner.truncate(4);
    match &build(source, &pair(source, Rule::IfBlock, source, inner)).node {
        Node::If { else_node, .. } => assert!(else_node.is_none()),
        other => panic!("{:?}", other),
    }
}

#[test]
fn for_blocks() {
    let source = "for x in y if z\n  w";
    let parts = |with_condition: bool| {
        let mut inner = vec![
            pair(source, Rule::Other, "for", vec![]),
            pair(source, Rule::Id, "x", vec![]),
            pair(source, Rule::Other, "in", vec![]),
            pair(source, Rule::Id, "y", vec![]),
        ];
        if with_condition {
            inner.push(pair(source, Rule::IfKeyword, "if", vec![]));
            inner.push(pair(source, Rule::Id, "z", vec![]));
        }
        inner.push(pair(source, Rule::PushIndentation, "  ", vec![]));
        inner.push(pair(source, Rule::Id, "w", vec![]));
        inner
    };
    match &build(source, &pair(source, Rule::ForBlock, source, parts(true))).node {
        Node::For(ast_for) => {
            assert_eq!(ast_for.arg.as_str(), "x");
            assert!(matches!(&ast_for.range.node, Node::Id(s) if s.as_str() == "y"));
            let condition = ast_for.condition.as_ref().unwrap();
            assert!(matches!(&condition.node, Node::Id(s) if s.as_str() == "z"));
            assert!(matches!(&ast_for.body.node, Node::Id(s) if s.as_str() == "w"));
        }
        other => panic!("{:?}", other),
    }
    match &build(source, &pair(source, Rule::ForBlock, source, parts(false))).node {
        Node::For(ast_for) => {
            assert!(ast_for.condition.is_none());
            assert!(matches!(&ast_for.body.node, Node::Id(s) if s.as_str() == "w"));
        }
        other => panic!("{:?}", other),
    }
}

#[test]
fn inline_for() {
    let source = "w for x in y if z";
    let mut inner = vec![
        pair(source, Rule::Id, "w", vec![]),
        pair(source, Rule::Other, "for", vec![]),
        pair(source, Rule::Id, "x", vec![]),
        pair(source, Rule::Other, "in", vec![]),
        pair(source, Rule::Id, "y", vec![]),
        pair(source, Rule::IfKeyword, "if", vec![]),
        pair(source, Rule::Id, "z", vec![]),
    ];
    let whole = pair(source, Rule::ForInline, source, inner);
    match &build(source, &whole).node {
        Node::For(ast_for) => {
            assert_eq!(ast_for.arg.as_str(), "x");
            let condition = ast_for.condition.as_ref().unwrap();
            assert!(matches!(&condition.node, Node::Id(s) if s.as_str() == "z"));
            assert!(matches!(&ast_for.body.node, Node::Id(s) if s.as_str() == "w"));
        }
        other => panic!("{:?}", other),
    }
    inner = whole.inner;
    inner.truncate(5);
    match &build(source, &pair(source, Rule::ForInline, source, inner)).node {
        Node::For(ast_for) => assert!(ast_for.condition.is_none()),
        other => panic!("{:?}", other),
    }
}

#[test]
fn operands_need_nodes() {
    let source = "a  ";
    let inner = vec![
        pair(source, Rule::Id, "a", vec![]),
        pair(source, Rule::Indentation, "  ", vec![]),
    ];
    assert!(!can_build(source, &pair(source, Rule::Assignment, source, inner)));
}

#[test]
fn offsets_are_character_boundaries() {
    let inside = Pair { rule: Rule::Id, text: String::new(), start: 1, end: 2, inner: vec![] };
    assert!(!can_build("\u{e9}", &inside));
    let outside = Pair { rule: Rule::Id, text: String::new(), start: 0, end: 3, inner: vec![] };
    assert!(!can_build("\u{e9}", &outside));
}

#[test]
fn blocks_of_a_script() {
    let source = "1\n2\n";
    let block = |text: &str| {
        let number = pair(source, Rule::Number, text, vec![]);
        pair(source, Rule::Block, text, vec![number])
    };
    let end = Pair { rule: Rule::Other, text: String::new(), start: 4, end: 4, inner: vec![] };
    let parsed: Result<Vec<Pair>, String> = Ok(vec![block("1"), block("2"), end]);
    let ast = parse(source, parsed).unwrap();
    assert_eq!(ast.len(), 2);
    assert_eq!(ast[1].start_pos, Position { line: 2, column: 1 });
    match &ast[1].node {
        Node::Block(body) => assert_eq!(number_text(&body[0]), "2"),
        other => panic!("{:?}", other),
    }
}

#[test]
fn errors_are_handed_on() {
    let parsed: Result<Vec<Pair>, String> = Err("no match".to_string());
    assert_eq!(parse("?", parsed).unwrap_err(), "no match");
}

#[test]
fn block_marker() {
    assert_eq!(format!("{:?}", Block {}), "Block");
}
