//! Parsing of patterns and literals.

use vstd::prelude::*;

use crate::ast::{Ident, Lit, Pattern};
use crate::grammar::{
    Part, read_chain, read_element, read_literal, read_path_pattern, read_pattern,
    read_pattern_args, read_pattern_atom, read_pattern_field, read_pattern_lit, read_until,
    starts_literal, tok_at, tok_is, tokens_left,
};
use crate::parser::{
    ParseError, Parser, seen_literal, seen_pattern, seen_pattern_field, seen_pattern_fields,
    seen_patterns,
};
use crate::text::cat2;
use crate::token::{Span, TokenKind, TokenKindV};
use crate::tree::{
    Label, copy_ident, name_tree, node, pattern_field_trees, pattern_tree, pattern_trees,
};

verus! {

impl Parser {
    pub(crate) fn parse_alternatives(&mut self, depth: usize) -> (r: Result<Vec<Pattern>, ParseError>)
        requires
            old(self).wf(),
        ensures
            final(self).wf(),
            (final(self)@, seen_patterns(r)) == read_chain(old(self)@, Part::Alternative, TokenKind::Pipe, depth as nat, seq![]),
            tokens_left(final(self)@) <= tokens_left(old(self)@),
            r is Ok ==> tokens_left(final(self)@) < tokens_left(old(self)@),
            r is Ok ==> r->Ok_0.len() > 0,
        decreases depth,
    {
        if depth == 0 {
            return Err(self.too_deep());
        }
        let ghost start = self@;
        let mut out: Vec<Pattern> = Vec::new();
        assert(pattern_trees(out@) =~= seq![]);
        loop
            invariant
                self.wf(),
                start == old(self)@,
                depth > 0,
                read_chain(start, Part::Alternative, TokenKind::Pipe, depth as nat, seq![]) == read_chain(
                    self@,
                    Part::Alternative,
                    TokenKind::Pipe,
                    depth as nat,
                    pattern_trees(out@),
                ),
                tokens_left(self@) <= tokens_left(start),
            decreases tokens_left(self@),
        {
            assert(read_element(self@, Part::Alternative, (depth - 1) as nat) == read_pattern_atom(self@, (depth - 1) as nat));
            let t = self.parse_pattern_atom(depth - 1)?;
            assert(pattern_trees(out@.push(t)) =~= pattern_trees(out@).push(pattern_tree(t)));
            out.push(t);
            if !self.eat(&TokenKind::Pipe) {
                return Ok(out);
            }
        }
    }

    pub(crate) fn parse_pattern_chain(&mut self, depth: usize) -> (r: Result<Vec<Pattern>, ParseError>)
        requires
            old(self).wf(),
        ensures
            final(self).wf(),
            (final(self)@, seen_patterns(r)) == read_chain(old(self)@, Part::Pattern, TokenKind::Comma, depth as nat, seq![]),
            tokens_left(final(self)@) <= tokens_left(old(self)@),
            r is Ok ==> tokens_left(final(self)@) < tokens_left(old(self)@),
            r is Ok ==> r->Ok_0.len() > 0,
        decreases depth,
    {
        if depth == 0 {
            return Err(self.too_deep());
        }
        let ghost start = self@;
        let mut out: Vec<Pattern> = Vec::new();
        assert(pattern_trees(out@) =~= seq![]);
        loop
            invariant
                self.wf(),
                start == old(self)@,
                depth > 0,
                read_chain(start, Part::Pattern, TokenKind::Comma, depth as nat, seq![]) == read_chain(
                    self@,
                    Part::Pattern,
                    TokenKind::Comma,
                    depth as nat,
                    pattern_trees(out@),
                ),
                tokens_left(self@) <= tokens_left(start),
            decreases tokens_left(self@),
        {
            assert(read_element(self@, Part::Pattern, (depth - 1) as nat) == read_pattern(self@, (depth - 1) as nat));
            let t = self.parse_pattern(depth - 1)?;
            assert(pattern_trees(out@.push(t)) =~= pattern_trees(out@).push(pattern_tree(t)));
            out.push(t);
            if !self.eat(&TokenKind::Comma) {
                return Ok(out);
            }
        }
    }

    pub(crate) fn parse_pattern_fields_until(&mut self, close: &TokenKind, depth: usize) -> (r: Result<
        Vec<(Ident, Pattern)>,
        ParseError,
    >)
        requires
            old(self).wf(),
            close@ == TokenKindV::Plain(*close),
        ensures
            final(self).wf(),
            (final(self)@, seen_pattern_fields(r)) == read_until(old(self)@, Part::PatternField, *close, depth as nat, seq![]),
            tokens_left(final(self)@) <= tokens_left(old(self)@),
        decreases depth,
    {
        if depth == 0 {
            return Err(self.too_deep());
        }
        let ghost start = self@;
        let mut out: Vec<(Ident, Pattern)> = Vec::new();
        assert(pattern_field_trees(out@) =~= seq![]);
        while !self.check(close) && !self.is_eof()
            invariant
                self.wf(),
                start == old(self)@,
                depth > 0,
                close@ == TokenKindV::Plain(*close),
                read_until(start, Part::PatternField, *close, depth as nat, seq![]) == read_until(
                    self@,
                    Part::PatternField,
                    *close,
                    depth as nat,
                    pattern_field_trees(out@),
                ),
                tokens_left(self@) <= tokens_left(start),
            decreases tokens_left(self@),
        {
            assert(read_element(self@, Part::PatternField, (depth - 1) as nat) == read_pattern_field(self@, (depth - 1) as nat));
            let t = self.parse_pattern_field(depth - 1)?;
            assert(pattern_field_trees(out@.push(t)) =~= pattern_field_trees(out@).push(
                node(Label::PatternField, t.0.span, seq![name_tree(t.0), pattern_tree(t.1)]),
            ));
            out.push(t);
            if !self.eat(&TokenKind::Comma) {
                return Ok(out);
            }
        }
        Ok(out)
    }

    /// One pattern, or several between `|`.
    pub(crate) fn parse_pattern(&mut self, depth: usize) -> (r: Result<Pattern, ParseError>)
        requires
            old(self).wf(),
        ensures
            final(self).wf(),
            (final(self)@, seen_pattern(r)) == read_pattern(old(self)@, depth as nat),
            tokens_left(final(self)@) <= tokens_left(old(self)@),
            r is Ok ==> tokens_left(final(self)@) < tokens_left(old(self)@),
        decreases depth,
    {
        if depth == 0 {
            return Err(self.too_deep());
        }
        let mut patterns = self.parse_alternatives(depth - 1)?;
        proof {
            assert(pattern_trees(patterns@).len() == patterns@.len());
            assert(pattern_trees(patterns@)[0] == pattern_tree(patterns@[0]));
            assert(pattern_trees(patterns@).last() == pattern_tree(patterns@.last()));
        }
        if patterns.len() == 1 {
            return Ok(patterns.remove(0));
        }
        let span = Span::new(patterns[0].span().start, patterns[patterns.len() - 1].span().end);
        Ok(Pattern::Or { patterns, span })
    }

    #[verifier::spinoff_prover]
    pub(crate) fn parse_pattern_atom(&mut self, depth: usize) -> (r: Result<Pattern, ParseError>)
        requires
            old(self).wf(),
        ensures
            final(self).wf(),
            (final(self)@, seen_pattern(r)) == read_pattern_atom(old(self)@, depth as nat),
            tokens_left(final(self)@) <= tokens_left(old(self)@),
            r is Ok ==> tokens_left(final(self)@) < tokens_left(old(self)@),
        decreases depth,
    {
        if depth == 0 {
            return Err(self.too_deep());
        }
        let span = self.peek_span();
        if self.check_contextual("_") {
            self.bump();
            return Ok(Pattern::Wildcard(span));
        }
        if self.eat(&TokenKind::Mut) {
            let name = self.expect_ident()?;
            let full = Span::new(span.start, name.span.end);
            return Ok(Pattern::Ident { name, mutable: true, span: full });
        }
        if matches!(self.peek(), TokenKind::Ident(_)) {
            if self.path_follows() {
                return self.parse_path_pattern(depth - 1);
            }
            let name = self.expect_ident()?;
            let span = name.span;
            return Ok(Pattern::Ident { name, mutable: false, span });
        }
        if self.at_literal() || self.check(&TokenKind::Minus) {
            let (lo, lo_span) = self.parse_pattern_lit()?;
            if let Some(inclusive) = self.peek_range_op() {
                self.bump();
                let (hi, hi_span) = self.parse_pattern_lit()?;
                let span = Span::new(lo_span.start, hi_span.end);
                return Ok(Pattern::Range { lo, hi, inclusive, span });
            }
            return Ok(Pattern::Literal { lit: lo, span: lo_span });
        }
        Err(self.expected("pattern"))
    }

    pub(crate) fn at_literal(&self) -> (r: bool)
        requires
            self.wf(),
        ensures
            r == starts_literal(tok_at(self@).kind),
    {
        match self.peek() {
            TokenKind::Int(_, _) => true,
            TokenKind::Float(_, _) => true,
            TokenKind::Str(_) => true,
            TokenKind::Char(_) => true,
            TokenKind::True => true,
            TokenKind::False => true,
            _ => false,
        }
    }

    /// A path of several names, with the patterns of its payload if it has any.
    pub(crate) fn parse_path_pattern(&mut self, depth: usize) -> (r: Result<Pattern, ParseError>)
        requires
            old(self).wf(),
        ensures
            final(self).wf(),
            (final(self)@, seen_pattern(r)) == read_path_pattern(old(self)@, depth as nat),
            tokens_left(final(self)@) <= tokens_left(old(self)@),
            r is Ok ==> tokens_left(final(self)@) < tokens_left(old(self)@),
        decreases depth,
    {
        if depth == 0 {
            return Err(self.too_deep());
        }
        let path = self.parse_path(depth - 1)?;
        let path_span = path.span;
        if self.eat(&TokenKind::LParen) {
            let fields = self.parse_pattern_args(depth - 1)?;
            let close = self.expect(&TokenKind::RParen, "`)`")?;
            let span = Span::new(path_span.start, close.end);
            return Ok(Pattern::TupleVariant { path, fields, span });
        }
        if self.eat(&TokenKind::LBrace) {
            let fields = self.parse_pattern_fields_until(&TokenKind::RBrace, depth - 1)?;
            let close = self.expect(&TokenKind::RBrace, "`}`")?;
            let span = Span::new(path_span.start, close.end);
            return Ok(Pattern::NamedVariant { path, fields, span });
        }
        Ok(Pattern::Path { path, span: path_span })
    }

    pub(crate) fn parse_pattern_args(&mut self, depth: usize) -> (r: Result<Vec<Pattern>, ParseError>)
        requires
            old(self).wf(),
        ensures
            final(self).wf(),
            (final(self)@, seen_patterns(r)) == read_pattern_args(old(self)@, depth as nat),
            tokens_left(final(self)@) <= tokens_left(old(self)@),
        decreases depth,
    {
        if depth == 0 {
            return Err(self.too_deep());
        }
        if self.check(&TokenKind::RParen) {
            let none: Vec<Pattern> = Vec::new();
            assert(pattern_trees(none@) =~= seq![]);
            return Ok(none);
        }
        self.parse_pattern_chain(depth - 1)
    }

    /// `name: pattern`, or `name` alone, which binds it.
    pub(crate) fn parse_pattern_field(&mut self, depth: usize) -> (r: Result<(Ident, Pattern), ParseError>)
        requires
            old(self).wf(),
        ensures
            final(self).wf(),
            (final(self)@, seen_pattern_field(r)) == read_pattern_field(old(self)@, depth as nat),
            tokens_left(final(self)@) <= tokens_left(old(self)@),
            r is Ok ==> tokens_left(final(self)@) < tokens_left(old(self)@),
        decreases depth,
    {
        if depth == 0 {
            return Err(self.too_deep());
        }
        let name = self.expect_ident()?;
        if self.eat(&TokenKind::Colon) {
            let pat = self.parse_pattern(depth - 1)?;
            return Ok((name, pat));
        }
        let pat = Pattern::Ident { name: copy_ident(&name), mutable: false, span: name.span };
        assert(pattern_tree(pat) == node(Label::NamePattern(false), name.span, seq![name_tree(name)]));
        Ok((name, pat))
    }

    /// A literal of a pattern, with a `-` before a number.
    pub(crate) fn parse_pattern_lit(&mut self) -> (r: Result<(Lit, Span), ParseError>)
        requires
            old(self).wf(),
        ensures
            final(self).wf(),
            (final(self)@, seen_literal(r)) == read_pattern_lit(old(self)@),
            tokens_left(final(self)@) <= tokens_left(old(self)@),
            r is Ok ==> tokens_left(final(self)@) < tokens_left(old(self)@),
    {
        let start = self.peek_span();
        if !self.eat(&TokenKind::Minus) {
            return self.parse_literal();
        }
        let (lit, lit_span) = self.parse_literal()?;
        let span = Span::new(start.start, lit_span.end);
        match lit {
            Lit::Int(v, t) => {
                let n: i64 = if v == i64::MIN {
                    v
                } else {
                    -v
                };
                Ok((Lit::Int(n, t), span))
            },
            Lit::Float(s, t) => Ok((Lit::Float(cat2("-", &s), t), span)),
            _ => Err(
                ParseError {
                    message: String::from_str("unary `-` is only valid on numeric literals in patterns"),
                    span: start,
                },
            ),
        }
    }

    /// Whether the next token is `..` (false) or `..=` (true), if it is one.
    pub(crate) fn peek_range_op(&self) -> (r: Option<bool>)
        requires
            self.wf(),
        ensures
            r == if tok_is(self@, TokenKind::DotDot) {
                Some(false)
            } else if tok_is(self@, TokenKind::DotDotEq) {
                Some(true)
            } else {
                None
            },
    {
        match self.peek() {
            TokenKind::DotDot => Some(false),
            TokenKind::DotDotEq => Some(true),
            _ => None,
        }
    }

    pub(crate) fn parse_literal(&mut self) -> (r: Result<(Lit, Span), ParseError>)
        requires
            old(self).wf(),
        ensures
            final(self).wf(),
            (final(self)@, seen_literal(r)) == read_literal(old(self)@),
            tokens_left(final(self)@) <= tokens_left(old(self)@),
            r is Ok ==> tokens_left(final(self)@) < tokens_left(old(self)@),
    {
        let span = self.peek_span();
        let lit = match self.peek() {
            TokenKind::Int(v, t) => Lit::Int(*v, *t),
            TokenKind::Float(s, t) => Lit::Float(s.clone(), *t),
            TokenKind::Str(s) => Lit::Str(s.clone()),
            TokenKind::Char(c) => Lit::Char(*c),
            TokenKind::True => Lit::Bool(true),
            TokenKind::False => Lit::Bool(false),
            _ => {
                return Err(self.expected("literal"));
            },
        };
        self.bump();
        Ok((lit, span))
    }
}

} // verus!
