//! What the tree of each pair holds.
use vstd::prelude::*;
use vstd::string::*;

use crate::holz::{
    blocks_of, built, built_list, built_node, capture_args, column_after, has_list, has_node, has_operand,
    is_block, is_buildable, is_offset, is_placed, line_after, op_of, operand, operands,
    position_at, tree, tree_node, trees, AstNode, Node, Op, Pair, Rule, Tree, TreeNode,
};

verus! {

/// The pair at an index within a pair is there, and has the given tree.
pub open spec fn has_part(source: Seq<char>, pair: Pair, index: int, part: Tree) -> bool {
    0 <= index < pair.inner@.len() && built(source, pair.inner@[index]) == Some(part)
}

/// The pair has a tree that holds the given node.
pub open spec fn holds(source: Seq<char>, pair: Pair, node: TreeNode) -> bool {
    built(source, pair) matches Some(t) && t.node == node
}

proof fn lemma_part(source: Seq<char>, pair: Pair, index: int, part: Tree)
    requires
        has_part(source, pair, index, part),
    ensures
        operand(source, pair, index) == Box::new(part),
{
}

/// A pair that isn't indentation and doesn't merely wrap another one has a tree of its own, and its
/// tree reaches from the position at which the pair starts to the one at which it ends.
pub proof fn law_tree_is_placed(source: Seq<char>, pair: Pair)
    requires
        pair.rule != Rule::PushIndentation && pair.rule != Rule::Indentation,
        pair.rule != Rule::Expression && pair.rule != Rule::LhsValue && pair.rule != Rule::RhsValue,
    ensures
        built(source, pair) matches Some(t) && {
            &&& t.start == position_at(source, pair.start as int)
            &&& t.end == position_at(source, pair.end as int)
        },
{
}

/// Indentation has no tree. A pair that wraps another one has its tree, if it has one.
pub proof fn law_trees_of_wrappers(source: Seq<char>, pair: Pair)
    ensures
        pair.rule == Rule::PushIndentation || pair.rule == Rule::Indentation ==> built(source, pair)
            is None,
        pair.rule == Rule::Expression || pair.rule == Rule::LhsValue || pair.rule == Rule::RhsValue
            ==> built(source, pair) == (if pair.inner@.len() > 0 {
            built(source, pair.inner@[0])
        } else {
            None
        }),
{
    if pair.inner@.len() > 0 {
        crate::holz::law_only_indentation_has_no_tree(source, pair.inner@[0]);
    }
    crate::holz::law_only_indentation_has_no_tree(source, pair);
}

/// An if has its condition, its branch, and its other branch where there is one. That is so for an
/// inline if as it is for one with blocks: whichever it is, there is an other branch exactly if
/// more follows the first one, and it is the tree of what stands behind the `else`.
pub proof fn law_if_tree(
    source: Seq<char>,
    pair: Pair,
    condition: Tree,
    then_node: Tree,
    else_node: Tree,
)
    requires
        pair.rule == Rule::IfInline || pair.rule == Rule::IfBlock,
        has_part(source, pair, 1, condition),
        has_part(source, pair, 3, then_node),
    ensures
        pair.inner@.len() <= 4 ==> holds(
            source,
            pair,
            TreeNode::If {
                condition: Box::new(condition),
                then_node: Box::new(then_node),
                else_node: None,
            },
        ),
        has_part(source, pair, 5, else_node) ==> holds(
            source,
            pair,
            TreeNode::If {
                condition: Box::new(condition),
                then_node: Box::new(then_node),
                else_node: Some(Box::new(else_node)),
            },
        ),
        built(source, pair) matches Some(t) && (t.node matches TreeNode::If { else_node, .. } && (
        else_node is Some <==> pair.inner@.len() > 4)),
{
    let node = built_node(source, pair);
    lemma_part(source, pair, 1, condition);
    lemma_part(source, pair, 3, then_node);
    if has_part(source, pair, 5, else_node) {
        lemma_part(source, pair, 5, else_node);
    }
}

/// An inline if and an if with blocks that are made of the same pairs have the same tree.
pub proof fn law_ifs_agree(source: Seq<char>, inline: Pair, block: Pair)
    requires
        inline.rule == Rule::IfInline,
        block.rule == Rule::IfBlock,
        inline.inner@ == block.inner@,
        inline.start == block.start,
        inline.end == block.end,
        is_buildable(inline),
    ensures
        is_buildable(block),
        built(source, inline) == built(source, block),
{
    lemma_same_operand(source, inline, block, 1);
    lemma_same_operand(source, inline, block, 3);
    lemma_same_operand(source, inline, block, 5);
    assert(built_node(source, inline) == built_node(source, block));
}

proof fn lemma_same_operand(source: Seq<char>, a: Pair, b: Pair, index: int)
    requires
        a.inner@ == b.inner@,
    ensures
        has_operand(a, index) == has_operand(b, index),
        0 <= index < a.inner@.len() ==> operand(source, a, index) == operand(source, b, index),
{
}

/// A for loop with a block has its arg, its range and its body. It has a condition exactly if an
/// `if` follows the range.
pub proof fn law_for_block_tree(
    source: Seq<char>,
    pair: Pair,
    range: Tree,
    condition: Tree,
    body: Tree,
)
    requires
        pair.rule == Rule::ForBlock,
        pair.inner@.len() > 4,
        has_part(source, pair, 3, range),
    ensures
        pair.inner@[4].rule == Rule::IfKeyword && has_part(source, pair, 5, condition) && has_part(
            source,
            pair,
            7,
            body,
        ) ==> holds(
            source,
            pair,
            TreeNode::For {
                arg: pair.inner@[1].text@,
                range: Box::new(range),
                condition: Some(Box::new(condition)),
                body: Box::new(body),
            },
        ),
        pair.inner@[4].rule != Rule::IfKeyword && has_part(source, pair, 5, body) ==> holds(
            source,
            pair,
            TreeNode::For {
                arg: pair.inner@[1].text@,
                range: Box::new(range),
                condition: None,
                body: Box::new(body),
            },
        ),
{
    let node = built_node(source, pair);
    lemma_part(source, pair, 3, range);
    if has_part(source, pair, 5, condition) && has_part(source, pair, 7, body) {
        lemma_part(source, pair, 5, condition);
        lemma_part(source, pair, 7, body);
    }
    if has_part(source, pair, 5, body) {
        lemma_part(source, pair, 5, body);
    }
}

/// An inline for loop has the body before it, its arg and its range. It has a condition exactly if
/// more follows the range.
pub proof fn law_for_inline_tree(
    source: Seq<char>,
    pair: Pair,
    body: Tree,
    range: Tree,
    condition: Tree,
)
    requires
        pair.rule == Rule::ForInline,
        has_part(source, pair, 0, body),
        has_part(source, pair, 4, range),
    ensures
        pair.inner@.len() <= 5 ==> holds(
            source,
            pair,
            TreeNode::For {
                arg: pair.inner@[2].text@,
                range: Box::new(range),
                condition: None,
                body: Box::new(body),
            },
        ),
        has_part(source, pair, 6, condition) ==> holds(
            source,
            pair,
            TreeNode::For {
                arg: pair.inner@[2].text@,
                range: Box::new(range),
                condition: Some(Box::new(condition)),
                body: Box::new(body),
            },
        ),
{
    let node = built_node(source, pair);
    lemma_part(source, pair, 0, body);
    lemma_part(source, pair, 4, range);
    if has_part(source, pair, 6, condition) {
        lemma_part(source, pair, 6, condition);
    }
}

/// An inline loop and one with a block that have the same arg, range, condition and body hold the
/// same.
pub proof fn law_for_loops_agree(
    source: Seq<char>,
    inline: Pair,
    block: Pair,
    range: Tree,
    condition: Tree,
    body: Tree,
)
    requires
        inline.rule == Rule::ForInline,
        block.rule == Rule::ForBlock,
        has_part(source, inline, 0, body),
        has_part(source, inline, 4, range),
        has_part(source, inline, 6, condition),
        has_part(source, block, 3, range),
        has_part(source, block, 5, condition),
        has_part(source, block, 7, body),
        block.inner@[4].rule == Rule::IfKeyword,
        inline.inner@[2].text@ == block.inner@[1].text@,
    ensures
        built(source, inline)->0.node == built(source, block)->0.node,
{
    law_for_inline_tree(source, inline, body, range, condition);
    law_for_block_tree(source, block, range, condition, body);
}

/// An operation has what stands before its operator on the left and what stands behind it on the
/// right. A range has its lower end first, and has its upper end exactly if it is written `..=`.
pub proof fn law_operation_trees(source: Seq<char>, pair: Pair, first: Tree, second: Tree, op: Op)
    requires
        has_part(source, pair, 0, first),
        has_part(source, pair, 2, second),
    ensures
        pair.rule == Rule::BinaryOp && op_of(pair.inner@[1].text@) == Some(op) ==> holds(
            source,
            pair,
            TreeNode::BinaryOp { lhs: Box::new(first), rhs: Box::new(second), op },
        ),
        pair.rule == Rule::Range ==> holds(
            source,
            pair,
            TreeNode::Range {
                min: Box::new(first),
                max: Box::new(second),
                inclusive: pair.inner@[1].text@ == "..="@,
            },
        ),
{
    let node = built_node(source, pair);
    lemma_part(source, pair, 0, first);
    lemma_part(source, pair, 2, second);
}

/// An assignment and an index expression have the id before and the expression behind it.
pub proof fn law_id_and_expression_trees(source: Seq<char>, pair: Pair, expression: Tree)
    requires
        has_part(source, pair, 1, expression),
    ensures
        pair.rule == Rule::Assignment ==> holds(
            source,
            pair,
            TreeNode::Assign {
                id: pair.inner@[0].text@,
                expression: Box::new(expression),
            },
        ),
        pair.rule == Rule::Index ==> holds(
            source,
            pair,
            TreeNode::Index {
                id: pair.inner@[0].text@,
                expression: Box::new(expression),
            },
        ),
{
    let node = built_node(source, pair);
    lemma_part(source, pair, 1, expression);
}

/// Booleans are told apart by their text, and ids and numbers are the text that they are written
/// as. A string is the text within its quotes.
pub proof fn law_leaf_trees(source: Seq<char>, pair: Pair)
    ensures
        pair.rule == Rule::Boolean && pair.text@ == "true"@ ==> holds(
            source,
            pair,
            TreeNode::Bool(true),
        ),
        pair.rule == Rule::Boolean && pair.text@ == "false"@ ==> holds(
            source,
            pair,
            TreeNode::Bool(false),
        ),
        pair.rule == Rule::Id ==> holds(source, pair, TreeNode::Id(pair.text@)),
        pair.rule == Rule::Number ==> holds(source, pair, TreeNode::Number(pair.text@)),
        pair.rule == Rule::Str && pair.inner@.len() > 0 ==> holds(
            source,
            pair,
            TreeNode::Str(pair.inner@[0].text@),
        ),
{
    reveal_strlit("true");
    reveal_strlit("false");
    assert("true"@.len() != "false"@.len());
    let node = built_node(source, pair);
}

/// Blocks and arrays have the trees of everything within them. Functions and calls start with a
/// pair of another kind, a capture or an id, and have the trees of what follows it.
pub proof fn law_list_trees(source: Seq<char>, pair: Pair, first: Pair, rest: Seq<Pair>)
    ensures
        pair.rule == Rule::Block ==> holds(
            source,
            pair,
            TreeNode::Block(built_list(source, pair.inner@)),
        ),
        pair.rule == Rule::Array ==> holds(
            source,
            pair,
            TreeNode::Array(built_list(source, pair.inner@)),
        ),
        pair.rule == Rule::Function && pair.inner@ == seq![first] + rest ==> holds(
            source,
            pair,
            TreeNode::Function {
                args: capture_args(first.inner@),
                body: built_list(source, rest),
            },
        ),
        pair.rule == Rule::Call && pair.inner@ == seq![first] + rest ==> holds(
            source,
            pair,
            TreeNode::Call { function: first.text@, args: built_list(source, rest) },
        ),
{
    let node = built_node(source, pair);
    let list = operands(source, pair);
    if pair.inner@ == seq![first] + rest {
        assert(pair.inner@.skip(1) =~= rest);
        assert(pair.inner@[0] == first);
    }
}

/// A list has the tree of each of its pairs that has one, in their order.
pub proof fn law_list_grows(source: Seq<char>, pairs: Seq<Pair>, pair: Pair)
    ensures
        built_list(source, Seq::empty()) == Seq::<Tree>::empty(),
        built(source, pair) matches Some(t) ==> built_list(source, pairs.push(pair))
            == built_list(source, pairs).push(t),
        built(source, pair) is None ==> built_list(source, pairs.push(pair)) == built_list(
            source,
            pairs,
        ),
{
    assert(pairs.push(pair).drop_last() =~= pairs);
}

/// The args of a capture are the texts up to its arrow, each of them once and in their order.
pub proof fn law_capture_args(pairs: Seq<Pair>)
    ensures
        ({
            let args = capture_args(pairs);
            &&& args.len() <= pairs.len()
            &&& forall|i: int|
                0 <= i < args.len() ==> #[trigger] args[i] == pairs[i].text@ && args[i] != "->"@
            &&& args.len() < pairs.len() ==> pairs[args.len() as int].text@ == "->"@
        }),
    decreases pairs.len(),
{
    if pairs.len() > 0 && pairs[0].text@ != "->"@ {
        law_capture_args(pairs.skip(1));
        let args = capture_args(pairs);
        let rest = capture_args(pairs.skip(1));
        assert forall|i: int| 0 <= i < args.len() implies #[trigger] args[i] == pairs[i].text@
            && args[i] != "->"@ by {
            if i > 0 {
                assert(args[i] == rest[i - 1]);
            }
        }
    }
}

/// Each operator has its name, and no other text is an operator.
pub proof fn law_operator_texts(text: Seq<char>)
    ensures
        op_of("+"@) == Some(Op::Add),
        op_of("-"@) == Some(Op::Subtract),
        op_of("*"@) == Some(Op::Multiply),
        op_of("/"@) == Some(Op::Divide),
        op_of("=="@) == Some(Op::Equal),
        op_of("!="@) == Some(Op::NotEqual),
        op_of("<"@) == Some(Op::LessThan),
        op_of("<="@) == Some(Op::LessThanOrEqual),
        op_of(">"@) == Some(Op::GreaterThan),
        op_of(">="@) == Some(Op::GreaterThanOrEqual),
        op_of("and"@) == Some(Op::And),
        op_of("or"@) == Some(Op::Or),
        op_of(text) is Some ==> {
            ||| text == "+"@ || text == "-"@ || text == "*"@ || text == "/"@
            ||| text == "=="@ || text == "!="@
            ||| text == "<"@ || text == "<="@ || text == ">"@ || text == ">="@
            ||| text == "and"@ || text == "or"@
        },
{
    reveal_strlit("+");
    reveal_strlit("-");
    reveal_strlit("*");
    reveal_strlit("/");
    reveal_strlit("==");
    reveal_strlit("!=");
    reveal_strlit("<");
    reveal_strlit("<=");
    reveal_strlit(">");
    reveal_strlit(">=");
    reveal_strlit("and");
    reveal_strlit("or");
    assert("+"@[0] == '+' && "-"@[0] == '-' && "*"@[0] == '*' && "/"@[0] == '/');
    assert("<"@[0] == '<' && ">"@[0] == '>');
    assert("=="@[0] == '=' && "!="@[0] == '!' && "<="@[0] == '<' && ">="@[0] == '>');
    assert("<"@.len() == 1 && ">"@.len() == 1 && "<="@.len() == 2 && ">="@.len() == 2);
    assert("or"@[0] == 'o' && "and"@[0] == 'a');
}

/// The pair at an index within a pair is there, and has a tree that can be built.
pub open spec fn is_whole(pair: Pair, index: int) -> bool {
    0 <= index < pair.inner@.len() && is_buildable(pair.inner@[index]) && has_node(
        pair.inner@[index],
    )
}

/// A pair can be built exactly if the parts are whole that its tree is made of.
pub proof fn law_buildable(pair: Pair)
    ensures
        ({
            let count = pair.inner@.len();
            match pair.rule {
                Rule::PushIndentation | Rule::Indentation | Rule::Number | Rule::Id => is_buildable(
                    pair,
                ),
                Rule::Expression | Rule::LhsValue | Rule::RhsValue => is_buildable(pair) <==> count
                    >= 1 && is_buildable(pair.inner@[0]),
                Rule::Boolean => is_buildable(pair) <==> pair.text@ == "true"@ || pair.text@
                    == "false"@,
                Rule::Str => is_buildable(pair) <==> count >= 1,
                Rule::Block | Rule::Array => is_buildable(pair) <==> forall|i: int|
                    0 <= i < count ==> is_buildable(#[trigger] pair.inner@[i]),
                Rule::Function | Rule::Call => is_buildable(pair) <==> count >= 1 && forall|i: int|
                    1 <= i < count ==> is_buildable(#[trigger] pair.inner@[i]),
                Rule::Range => is_buildable(pair) <==> is_whole(pair, 0) && is_whole(pair, 2),
                Rule::Index | Rule::Assignment => is_buildable(pair) <==> is_whole(pair, 1),
                Rule::BinaryOp => is_buildable(pair) <==> is_whole(pair, 0) && is_whole(pair, 2)
                    && op_of(pair.inner@[1].text@) is Some,
                Rule::IfInline | Rule::IfBlock => is_buildable(pair) <==> is_whole(pair, 1)
                    && is_whole(pair, 3) && (count == 4 || is_whole(pair, 5)),
                Rule::ForBlock => is_buildable(pair) <==> is_whole(pair, 3) && is_whole(pair, 5) && (
                pair.inner@[4].rule == Rule::IfKeyword ==> is_whole(pair, 7)),
                Rule::ForInline => is_buildable(pair) <==> is_whole(pair, 0) && is_whole(pair, 4) && (
                count == 5 || is_whole(pair, 6)),
                Rule::IfKeyword | Rule::Other => !is_buildable(pair),
            }
        }),
{
    assert forall|i: int| #[trigger] has_operand(pair, i) == is_whole(pair, i) by {}
    assert(has_operand(pair, 0) == is_whole(pair, 0));
    assert(has_operand(pair, 1) == is_whole(pair, 1));
    assert(has_operand(pair, 2) == is_whole(pair, 2));
    assert(has_operand(pair, 3) == is_whole(pair, 3));
    assert(has_operand(pair, 4) == is_whole(pair, 4));
    assert(has_operand(pair, 5) == is_whole(pair, 5));
    assert(has_operand(pair, 6) == is_whole(pair, 6));
    assert(has_operand(pair, 7) == is_whole(pair, 7));
    assert(has_list(pair, 0) <==> forall|i: int|
        0 <= i < pair.inner@.len() ==> is_buildable(#[trigger] pair.inner@[i]));
    assert(has_list(pair, 1) <==> forall|i: int|
        1 <= i < pair.inner@.len() ==> is_buildable(#[trigger] pair.inner@[i]));
}

/// Indentation has no node, and neither has a pair that wraps nothing else. Every other pair has
/// one.
pub proof fn law_nodes(pair: Pair)
    ensures
        pair.rule == Rule::PushIndentation || pair.rule == Rule::Indentation ==> !has_node(pair),
        pair.rule == Rule::Expression || pair.rule == Rule::LhsValue || pair.rule == Rule::RhsValue
            ==> (has_node(pair) <==> pair.inner@.len() > 0 && has_node(pair.inner@[0])),
        !has_node(pair) ==> {
            ||| pair.rule == Rule::PushIndentation
            ||| pair.rule == Rule::Indentation
            ||| pair.rule == Rule::Expression
            ||| pair.rule == Rule::LhsValue
            ||| pair.rule == Rule::RhsValue
        },
        is_block(pair) <==> pair.rule == Rule::Block,
{
}

/// A pair is placed in the source exactly if both of its ends are, and everything within it.
pub proof fn law_placed(source: Seq<char>, pair: Pair)
    ensures
        is_placed(source, pair) <==> {
            &&& is_offset(source, pair.start as int)
            &&& is_offset(source, pair.end as int)
            &&& forall|i: int|
                0 <= i < pair.inner@.len() ==> is_placed(source, #[trigger] pair.inner@[i])
        },
{
}

/// The first position is the first column of the first line. A character moves it to the next
/// column, and a line feed to the first column of the next line.
pub proof fn law_position_steps(text: Seq<char>, c: char)
    ensures
        line_after(Seq::empty()) == 1,
        column_after(Seq::empty()) == 1,
        c == '\n' ==> line_after(text.push(c)) == line_after(text) + 1,
        c == '\n' ==> column_after(text.push(c)) == 1,
        c != '\n' ==> line_after(text.push(c)) == line_after(text),
        c != '\n' ==> column_after(text.push(c)) == column_after(text) + 1,
{
    assert(text.push(c).drop_last() =~= text);
}

/// The position of the start of a source is the first one.
pub proof fn law_first_position(source: Seq<char>)
    ensures
        position_at(source, 0) == (1int, 1int),
{
    assert(vstd::utf8::encode_utf8(source).take(0) =~= Seq::empty());
    assert(crate::holz::before(source, 0) =~= Seq::empty());
}

/// The tree of a node has its positions and what it holds.
pub proof fn law_tree_of_node(node: AstNode)
    ensures
        tree(node).node == tree_node(node.node),
        tree(node).start == (node.start_pos.line as int, node.start_pos.column as int),
        tree(node).end == (node.end_pos.line as int, node.end_pos.column as int),
{
}

/// The trees of nodes are the tree of each of them, in their order.
pub proof fn law_trees_of_nodes(nodes: Seq<AstNode>)
    ensures
        trees(nodes).len() == nodes.len(),
        forall|i: int| 0 <= i < nodes.len() ==> #[trigger] trees(nodes)[i] == tree(nodes[i]),
    decreases nodes.len(),
{
    if nodes.len() > 0 {
        law_trees_of_nodes(nodes.drop_last());
        assert forall|i: int| 0 <= i < nodes.len() implies #[trigger] trees(nodes)[i] == tree(
            nodes[i],
        ) by {
            if i < nodes.len() - 1 {
                assert(trees(nodes.drop_last())[i] == tree(nodes.drop_last()[i]));
            }
        }
    }
}

/// What a node holds is of the same kind in its tree, with the tree of each of its parts in the
/// place of the part.
pub proof fn law_kinds_of_nodes(node: Node)
    ensures
        match (node, tree_node(node)) {
            (Node::Bool(a), TreeNode::Bool(b)) => a == b,
            (Node::Number(a), TreeNode::Number(b)) => a@ == b,
            (Node::Str(a), TreeNode::Str(b)) => a@ == b,
            (Node::Id(a), TreeNode::Id(b)) => a@ == b,
            (Node::Array(a), TreeNode::Array(b)) => trees(a@) == b,
            (Node::Block(a), TreeNode::Block(b)) => trees(a@) == b,
            (
                Node::Range { min, max, inclusive },
                TreeNode::Range { min: low, max: high, inclusive: includes },
            ) => tree(*min) == *low && tree(*max) == *high && inclusive == includes,
            (Node::Function(f), TreeNode::Function { args, body }) => {
                &&& args.len() == f.args@.len()
                &&& forall|i: int| 0 <= i < args.len() ==> #[trigger] args[i] == f.args@[i]@
                &&& trees(f.body@) == body
            },
            (Node::Call { function, args }, TreeNode::Call { function: f, args: a }) => function@
                == f && trees(args@) == a,
            (Node::Index { id, expression }, TreeNode::Index { id: i, expression: e }) => id@ == i
                && tree(*expression) == *e,
            (Node::Assign { id, expression }, TreeNode::Assign { id: i, expression: e }) => id@ == i
                && tree(*expression) == *e,
            (
                Node::BinaryOp { lhs, rhs, op },
                TreeNode::BinaryOp { lhs: left, rhs: right, op: operator },
            ) => tree(*lhs) == *left && tree(*rhs) == *right && op == operator,
            (
                Node::If { condition, then_node, else_node },
                TreeNode::If { condition: c, then_node: t, else_node: e },
            ) => {
                &&& tree(*condition) == *c
                &&& tree(*then_node) == *t
                &&& match (else_node, e) {
                    (Some(a), Some(b)) => tree(*a) == *b,
                    (None, None) => true,
                    _ => false,
                }
            },
            (Node::For(f), TreeNode::For { arg, range, condition, body }) => {
                &&& f.arg@ == arg
                &&& tree(*f.range) == *range
                &&& tree(*f.body) == *body
                &&& match (f.condition, condition) {
                    (Some(a), Some(b)) => tree(*a) == *b,
                    (None, None) => true,
                    _ => false,
                }
            },
            _ => false,
        },
{
}

/// The blocks among pairs are those of them that are blocks, in their order.
pub proof fn law_blocks(pairs: Seq<Pair>, pair: Pair)
    ensures
        blocks_of(Seq::empty()) == Seq::<Pair>::empty(),
        pair.rule == Rule::Block ==> blocks_of(pairs.push(pair)) == blocks_of(pairs).push(pair),
        pair.rule != Rule::Block ==> blocks_of(pairs.push(pair)) == blocks_of(pairs),
{
    reveal(Seq::filter);
    assert(pairs.push(pair).drop_last() =~= pairs);
    assert(pairs.push(pair).last() == pair);
}

} // verus!
