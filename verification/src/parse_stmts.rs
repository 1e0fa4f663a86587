//! Parsing of blocks and statements.

use vstd::prelude::*;

use crate::ast::{Block, Expr, LetStmt, Stmt, Type};
use crate::grammar::{
    Part, read_block, read_element, read_let_stmt, read_let_type, read_let_value, read_stmt,
    read_within, tokens_left,
};
use crate::parser::{
    ParseError, Parser, expr_can_omit_semi, seen_block, seen_let, seen_opt_expr, seen_opt_type,
    seen_stmt, seen_stmts,
};
use crate::token::{Span, TokenKind};
use crate::tree::{expr_tree_span, stmt_tree, stmt_trees};

verus! {

impl Parser {
    pub(crate) fn parse_stmts(&mut self, depth: usize) -> (r: Result<Vec<Stmt>, ParseError>)
        requires
            old(self).wf(),
        ensures
            final(self).wf(),
            (final(self)@, seen_stmts(r)) == read_within(old(self)@, Part::Statement, depth as nat, seq![]),
            tokens_left(final(self)@) <= tokens_left(old(self)@),
        decreases depth,
    {
        if depth == 0 {
            return Err(self.too_deep());
        }
        let ghost start = self@;
        let mut out: Vec<Stmt> = Vec::new();
        assert(stmt_trees(out@) =~= seq![]);
        while !self.check(&TokenKind::RBrace) && !self.is_eof()
            invariant
                self.wf(),
                start == old(self)@,
                depth > 0,
                read_within(start, Part::Statement, depth as nat, seq![]) == read_within(
                    self@,
                    Part::Statement,
                    depth as nat,
                    stmt_trees(out@),
                ),
                tokens_left(self@) <= tokens_left(start),
            decreases tokens_left(self@),
        {
            assert(read_element(self@, Part::Statement, (depth - 1) as nat) == read_stmt(self@, (depth - 1) as nat));
            let t = self.parse_stmt(depth - 1)?;
            assert(stmt_trees(out@.push(t)) =~= stmt_trees(out@).push(stmt_tree(t)));
            out.push(t);
        }
        Ok(out)
    }

    pub(crate) fn parse_block(&mut self, depth: usize) -> (r: Result<Block, ParseError>)
        requires
            old(self).wf(),
        ensures
            final(self).wf(),
            (final(self)@, seen_block(r)) == read_block(old(self)@, depth as nat),
            tokens_left(final(self)@) <= tokens_left(old(self)@),
            r is Ok ==> tokens_left(final(self)@) < tokens_left(old(self)@),
        decreases depth,
    {
        if depth == 0 {
            return Err(self.too_deep());
        }
        let open = self.expect(&TokenKind::LBrace, "`{`")?;
        let stmts = self.parse_stmts(depth - 1)?;
        let close = self.expect(&TokenKind::RBrace, "`}`")?;
        Ok(Block { stmts, span: Span::new(open.start, close.end) })
    }

    pub(crate) fn parse_stmt(&mut self, depth: usize) -> (r: Result<Stmt, ParseError>)
        requires
            old(self).wf(),
        ensures
            final(self).wf(),
            (final(self)@, seen_stmt(r)) == read_stmt(old(self)@, depth as nat),
            tokens_left(final(self)@) <= tokens_left(old(self)@),
            r is Ok ==> tokens_left(final(self)@) < tokens_left(old(self)@),
        decreases depth,
    {
        if depth == 0 {
            return Err(self.too_deep());
        }
        if self.check(&TokenKind::Let) {
            return Ok(Stmt::Let(self.parse_let(depth - 1)?));
        }
        if self.at_item() && !self.check(&TokenKind::Impl) {
            return Ok(Stmt::Item(self.parse_item(depth - 1)?));
        }
        let expr = self.parse_expr_at(depth - 1)?;
        proof {
            expr_tree_span(expr);
        }
        if self.eat(&TokenKind::Semi) {
            return Ok(Stmt::Expr(expr, true));
        }
        if !self.check(&TokenKind::RBrace) && !expr_can_omit_semi(&expr) {
            return Err(self.expected("`;` or `}` after expression"));
        }
        Ok(Stmt::Expr(expr, false))
    }

    #[verifier::spinoff_prover]
    pub(crate) fn parse_let(&mut self, depth: usize) -> (r: Result<LetStmt, ParseError>)
        requires
            old(self).wf(),
        ensures
            final(self).wf(),
            (final(self)@, seen_let(r)) == read_let_stmt(old(self)@, depth as nat),
            tokens_left(final(self)@) <= tokens_left(old(self)@),
            r is Ok ==> tokens_left(final(self)@) < tokens_left(old(self)@),
        decreases depth,
    {
        if depth == 0 {
            return Err(self.too_deep());
        }
        let open = self.expect(&TokenKind::Let, "`let`")?;
        let mutable = self.eat(&TokenKind::Mut);
        let pat = self.parse_pattern(depth - 1)?;
        let ty = self.parse_let_type(depth - 1)?;
        let init = self.parse_let_value(depth - 1)?;
        let close = self.expect(&TokenKind::Semi, "`;`")?;
        Ok(LetStmt { mutable, pat, ty, init, span: Span::new(open.start, close.end) })
    }

    pub(crate) fn parse_let_type(&mut self, depth: usize) -> (r: Result<Option<Type>, ParseError>)
        requires
            old(self).wf(),
        ensures
            final(self).wf(),
            (final(self)@, seen_opt_type(r)) == read_let_type(old(self)@, depth as nat),
            tokens_left(final(self)@) <= tokens_left(old(self)@),
        decreases depth,
    {
        if depth == 0 {
            return Err(self.too_deep());
        }
        if self.eat(&TokenKind::Colon) {
            Ok(Some(self.parse_type(depth - 1)?))
        } else {
            Ok(None)
        }
    }

    pub(crate) fn parse_let_value(&mut self, depth: usize) -> (r: Result<Option<Expr>, ParseError>)
        requires
            old(self).wf(),
        ensures
            final(self).wf(),
            (final(self)@, seen_opt_expr(r)) == read_let_value(old(self)@, depth as nat),
            tokens_left(final(self)@) <= tokens_left(old(self)@),
        decreases depth,
    {
        if depth == 0 {
            return Err(self.too_deep());
        }
        if self.eat(&TokenKind::Eq) {
            Ok(Some(self.parse_expr_at(depth - 1)?))
        } else {
            Ok(None)
        }
    }
}

} // verus!
