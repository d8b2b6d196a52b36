//! The main block, functions and imports.
use vstd::prelude::*;

use crate::ast::{
    all_below, lemma_views_push, views, AstIndex, ConstantIndex, Function, Node, };
use crate::error::{InternalError, ParserError, SyntaxError};
use crate::frame::{lemma_captures_below, FrameView};
use crate::lexer::Token;
use crate::parser::grammar;
use crate::parser::state::{no_defect, reads, yields, yields_view, State};
use crate::parser::Parser;

verus! {

broadcast use crate::parser::state::group_extends;

/// The items are made of constants of the pool, at least one each.
spec fn items_below(items: Seq<Seq<ConstantIndex>>, s: State) -> bool {
    forall|i: int|
        0 <= i < items.len() ==> {
            &&& (#[trigger] items[i]).len() > 0
            &&& all_below(items[i], s.constants.len() as int)
        }
}

impl<'source> Parser<'source> {
    pub(super) fn parse_main_block(&mut self) -> (result: Result<AstIndex, ParserError>)
        requires
            old(self)@.well_formed(),
        ensures
            yields(result, final(self)@, grammar::main_block(old(self)@)),
            result matches Ok(index) ==> {
                &&& final(self)@.follows(old(self)@)
                &&& index < final(self)@.nodes.len()
            },
            no_defect(result),
    {
        let no_args: Vec<ConstantIndex> = Vec::new();
        assert(FrameView::empty().assign_all(no_args@) =~= FrameView::empty()) by {
            assert(no_args@.to_set() =~= Set::empty());
        }
        self.enter_function(&no_args);
        let ghost start = self@;
        let start_span = self.span();
        let mut body: Vec<AstIndex> = Vec::new();
        let ghost parsed = grammar::main_lines(start, Seq::empty());
        loop
            invariant_except_break
                parsed == grammar::main_lines(self@, body@),
            invariant
                start == old(self)@.push_frame(FrameView::empty()),
                self@.follows(start),
                all_below(body@, self@.nodes.len() as int),
                parsed == grammar::main_lines(start, Seq::empty()),
            ensures
                parsed == Ok::<(State, Seq<AstIndex>), ParserError>((self@, body@)),
            decreases self@.remaining(),
        {
            if self.consume_until_next_token().is_none() {
                break;
            }
            if let Some(expression) = self.parse_line()? {
                body.push(expression);
            } else {
                return Err(self.syntax_error(SyntaxError::ExpectedExpressionInMainBlock));
            }
        }
        let local_count: usize = self.frame()?.local_count();
        let result = self.push_node_with_start_span(
            Node::MainBlock { body, local_count },
            start_span,
        )?;
        self.leave_main_block();
        Ok(result)
    }

    pub(super) fn parse_function(&mut self) -> (result: Result<Option<AstIndex>, ParserError>)
        requires
            old(self)@.in_scope(),
        ensures
            yields(result, final(self)@, grammar::function(old(self)@)),
            reads(result, old(self)@, final(self)@),
            no_defect(result),
        decreases old(self)@.remaining(), 1int,
    {
        if self.skip_whitespace_and_peek() != Some(Token::Function) {
            return Err(self.internal_error(InternalError::FunctionParseFailure));
        }
        let current_indent: usize = self.current_indent();
        self.consume_token();
        let start_span = self.span();
        let args = self.parse_function_args()?;
        if self.skip_whitespace_and_next() != Some(Token::Function) {
            return Err(self.syntax_error(SyntaxError::ExpectedFunctionArgsEnd));
        }
        self.enter_function(&args);
        self.skip_whitespace_and_peek();
        let body = self.parse_function_body(current_indent)?;
        let function_frame = self.leave_function()?;
        let local_count: usize = function_frame.local_count();
        let accessed_non_locals = function_frame.captures();
        let function = Function {
            args,
            local_count,
            accessed_non_locals,
            body,
            is_generator: function_frame.contains_yield,
        };
        proof {
            lemma_captures_below(
                function_frame@,
                function.accessed_non_locals@,
                self@.constants.len() as int,
            );
        }
        Ok(Some(self.push_node_with_start_span(Node::Function(function), start_span)?))
    }

    fn parse_function_args(&mut self) -> (result: Result<Vec<ConstantIndex>, ParserError>)
        requires
            old(self)@.in_scope(),
        ensures
            yields_view(result, final(self)@, grammar::function_args(old(self)@, Seq::empty())),
            result matches Ok(args) ==> {
                &&& final(self)@.follows(old(self)@)
                &&& all_below(args@, final(self)@.constants.len() as int)
            },
            no_defect(result),
    {
        let mut args: Vec<ConstantIndex> = Vec::new();
        loop
            invariant
                old(self)@.in_scope(),
                self@.follows(old(self)@),
                all_below(args@, self@.constants.len() as int),
                grammar::function_args(old(self)@, Seq::empty()) == grammar::function_args(
                    self@,
                    args@,
                ),
            decreases self@.remaining(),
        {
            self.consume_until_next_token();
            if let Some(constant_index) = self.parse_id(true) {
                args.push(constant_index);
            } else {
                return Ok(args);
            }
        }
    }

    fn parse_function_body(&mut self, current_indent: usize) -> (result: Result<
        AstIndex,
        ParserError,
    >)
        requires
            old(self)@.in_scope(),
        ensures
            yields(result, final(self)@, grammar::function_body(old(self)@, current_indent)),
            result matches Ok(body) ==> {
                &&& final(self)@.follows(old(self)@)
                &&& body < final(self)@.nodes.len()
            },
            no_defect(result),
        decreases old(self)@.remaining(), 17int,
    {
        if self.peek_token() == Some(Token::NewLineIndented) && self.next_indent()
            > current_indent {
            if let Some(block) = self.parse_indented_map_or_block(current_indent)? {
                Ok(block)
            } else {
                Err(self.internal_error(InternalError::FunctionParseFailure))
            }
        } else {
            if let Some(body) = self.parse_line()? {
                Ok(body)
            } else {
                Err(self.syntax_error(SyntaxError::ExpectedFunctionBody))
            }
        }
    }

    pub(super) fn parse_import_expression(&mut self) -> (result: Result<
        Option<AstIndex>,
        ParserError,
    >)
        requires
            old(self)@.in_scope(),
            old(self)@.peek() == Some(Token::From) || old(self)@.peek() == Some(Token::Import),
        ensures
            yields(result, final(self)@, grammar::import_expression(old(self)@)),
            reads(result, old(self)@, final(self)@),
            no_defect(result),
    {
        let from_import = match self.peek_token() {
            Some(Token::From) => true,
            Some(Token::Import) => false,
            _ => {
                return Err(self.internal_error(InternalError::UnexpectedToken));
            },
        };
        self.consume_token();
        let mut from: Vec<ConstantIndex> = Vec::new();
        if from_import {
            let mut from_items = self.consume_import_items()?;
            if from_items.len() != 1 {
                return Err(self.syntax_error(SyntaxError::ImportFromExpressionHasTooManyItems));
            }
            assert(views(from_items@)[0] == from_items@[0]@);
            from = from_items.swap_remove(0);
            if self.skip_whitespace_and_peek() != Some(Token::Import) {
                return Err(self.syntax_error(SyntaxError::ExpectedImportKeywordAfterFrom));
            }
            self.consume_token();
        }
        let ghost at = self@;
        assert(from_import || from@ =~= Seq::empty());
        assert(grammar::import_expression(old(self)@) == grammar::import_from(at, from@));
        let items = self.consume_import_items()?;
        let ghost start = self@;
        let mut i: usize = 0;
        while i < items.len()
            invariant
                old(self)@.in_scope(),
                i <= items.len(),
                start.follows(old(self)@),
                start.remaining() < old(self)@.remaining(),
                self@.differs_in_frames(start),
                items_below(views(items@), start),
                grammar::import_expression(old(self)@) == grammar::import_from(at, from@),
                grammar::import_items(at) == Ok::<(State, Seq<Seq<ConstantIndex>>), ParserError>(
                    (start, views(items@)),
                ),
                grammar::assign_imports(start, views(items@), 0) == grammar::assign_imports(
                    self@,
                    views(items@),
                    i as int,
                ),
            decreases items.len() - i,
        {
            assert(views(items@)[i as int] == items@[i as int]@);
            let length: usize = items[i].len();
            if length == 0 {
                return Err(self.internal_error(InternalError::ExpectedIdInImportItem));
            }
            let id = items[i][length - 1];
            self.assign_id(id)?;
            i = i + 1;
        }
        Ok(Some(self.push_node(Node::Import { from, items })?))
    }

    fn consume_import_items(&mut self) -> (result: Result<Vec<Vec<ConstantIndex>>, ParserError>)
        requires
            old(self)@.in_scope(),
        ensures
            match result {
                Ok(items) => {
                    &&& grammar::import_items(old(self)@) == Ok::<
                        (State, Seq<Seq<ConstantIndex>>),
                        ParserError,
                    >((final(self)@, views(items@)))
                    &&& final(self)@.follows(old(self)@)
                    &&& items_below(views(items@), final(self)@)
                },
                Err(e) => grammar::import_items(old(self)@) == Err::<
                    (State, Seq<Seq<ConstantIndex>>),
                    ParserError,
                >(e),
            },
            no_defect(result),
    {
        let mut items: Vec<Vec<ConstantIndex>> = Vec::new();
        assert(views(items@) =~= Seq::<Seq<ConstantIndex>>::empty());
        let ghost parsed = grammar::more_import_items(self@, Seq::empty());
        loop
            invariant_except_break
                parsed == grammar::more_import_items(self@, views(items@)),
            invariant
                old(self)@.in_scope(),
                self@.follows(old(self)@),
                items_below(views(items@), self@),
                parsed == grammar::more_import_items(old(self)@, Seq::empty()),
            ensures
                parsed == Ok::<(State, Seq<Seq<ConstantIndex>>), ParserError>(
                    (self@, views(items@)),
                ),
            decreases self@.remaining(),
        {
            let item_root = match self.parse_id(false) {
                Some(item_root) => item_root,
                None => {
                    break;
                },
            };
            let item = self.consume_import_path(item_root)?;
            proof {
                lemma_views_push(items@, item);
            }
            items.push(item);
        }
        if items.len() == 0 {
            return Err(self.syntax_error(SyntaxError::ExpectedIdInImportExpression));
        }
        Ok(items)
    }

    /// Parses the ids that follow the root of an imported item.
    fn consume_import_path(&mut self, item_root: ConstantIndex) -> (result: Result<
        Vec<ConstantIndex>,
        ParserError,
    >)
        requires
            old(self)@.in_scope(),
            item_root < old(self)@.constants.len(),
        ensures
            yields_view(result, final(self)@, grammar::import_path(old(self)@, seq![item_root])),
            result matches Ok(item) ==> {
                &&& final(self)@.follows(old(self)@)
                &&& item@.len() > 0
                &&& all_below(item@, final(self)@.constants.len() as int)
            },
            no_defect(result),
    {
        let mut item: Vec<ConstantIndex> = Vec::new();
        item.push(item_root);
        assert(item@ =~= seq![item_root]);
        while self.peek_token() == Some(Token::Dot)
            invariant
                old(self)@.in_scope(),
                self@.follows(old(self)@),
                item@.len() > 0,
                all_below(item@, self@.constants.len() as int),
                grammar::import_path(old(self)@, seq![item_root]) == grammar::import_path(
                    self@,
                    item@,
                ),
            decreases self@.remaining(),
        {
            self.consume_token();
            match self.parse_id(false) {
                Some(id) => item.push(id),
                None => {
                    return Err(self.syntax_error(SyntaxError::ExpectedImportModuleId));
                },
            }
        }
        Ok(item)
    }
}

} // verus!
