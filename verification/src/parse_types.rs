//! Parsing of types and paths.

use vstd::prelude::*;

use crate::ast::{Ident, Path, Type};
use crate::grammar::{
    Part, read_array_length, read_chain, read_element, read_name, read_path, read_type,
    read_type_args, tokens_left,
};
use crate::parser::{ParseError, Parser, seen_length, seen_names, seen_path, seen_type, seen_types};
use crate::token::{Span, TokenKind};
use crate::tree::{Label, list, name_tree, name_trees, node, path_tree, type_tree, type_trees};

verus! {

impl Parser {
    pub(crate) fn parse_segments(&mut self, depth: usize) -> (r: Result<Vec<Ident>, ParseError>)
        requires
            old(self).wf(),
        ensures
            final(self).wf(),
            (final(self)@, seen_names(r)) == read_chain(old(self)@, Part::Name, TokenKind::ColonColon, depth as nat, seq![]),
            tokens_left(final(self)@) <= tokens_left(old(self)@),
            r is Ok ==> tokens_left(final(self)@) < tokens_left(old(self)@),
            r is Ok ==> r->Ok_0.len() > 0,
        decreases depth,
    {
        if depth == 0 {
            return Err(self.too_deep());
        }
        let ghost start = self@;
        let mut out: Vec<Ident> = Vec::new();
        assert(name_trees(out@) =~= seq![]);
        loop
            invariant
                self.wf(),
                start == old(self)@,
                depth > 0,
                read_chain(start, Part::Name, TokenKind::ColonColon, depth as nat, seq![]) == read_chain(
                    self@,
                    Part::Name,
                    TokenKind::ColonColon,
                    depth as nat,
                    name_trees(out@),
                ),
                tokens_left(self@) <= tokens_left(start),
            decreases tokens_left(self@),
        {
            assert(read_element(self@, Part::Name, (depth - 1) as nat) == read_name(self@));
            let t = self.expect_ident()?;
            assert(name_trees(out@.push(t)) =~= name_trees(out@).push(name_tree(t)));
            out.push(t);
            if !self.eat(&TokenKind::ColonColon) {
                return Ok(out);
            }
        }
    }

    pub(crate) fn parse_type_chain(&mut self, depth: usize) -> (r: Result<Vec<Type>, ParseError>)
        requires
            old(self).wf(),
        ensures
            final(self).wf(),
            (final(self)@, seen_types(r)) == read_chain(old(self)@, Part::Type, TokenKind::Comma, depth as nat, seq![]),
            tokens_left(final(self)@) <= tokens_left(old(self)@),
            r is Ok ==> tokens_left(final(self)@) < tokens_left(old(self)@),
            r is Ok ==> r->Ok_0.len() > 0,
        decreases depth,
    {
        if depth == 0 {
            return Err(self.too_deep());
        }
        let ghost start = self@;
        let mut out: Vec<Type> = Vec::new();
        assert(type_trees(out@) =~= seq![]);
        loop
            invariant
                self.wf(),
                start == old(self)@,
                depth > 0,
                read_chain(start, Part::Type, TokenKind::Comma, depth as nat, seq![]) == read_chain(
                    self@,
                    Part::Type,
                    TokenKind::Comma,
                    depth as nat,
                    type_trees(out@),
                ),
                tokens_left(self@) <= tokens_left(start),
            decreases tokens_left(self@),
        {
            assert(read_element(self@, Part::Type, (depth - 1) as nat) == read_type(self@, (depth - 1) as nat));
            let t = self.parse_type(depth - 1)?;
            assert(type_trees(out@.push(t)) =~= type_trees(out@).push(type_tree(t)));
            out.push(t);
            if !self.eat(&TokenKind::Comma) {
                return Ok(out);
            }
        }
    }

    /// The `::`-separated names of a path. Type arguments are no part of it:
    /// at an expression's position `<` compares.
    pub(crate) fn parse_path(&mut self, depth: usize) -> (r: Result<Path, ParseError>)
        requires
            old(self).wf(),
        ensures
            final(self).wf(),
            (final(self)@, seen_path(r)) == read_path(old(self)@, depth as nat),
            tokens_left(final(self)@) <= tokens_left(old(self)@),
            r is Ok ==> tokens_left(final(self)@) < tokens_left(old(self)@),
        decreases depth,
    {
        if depth == 0 {
            return Err(self.too_deep());
        }
        let segments = self.parse_segments(depth - 1)?;
        let span = Span::new(segments[0].span.start, segments[segments.len() - 1].span.end);
        proof {
            assert(name_trees(segments@)[0] == name_tree(segments@[0]));
            assert(name_trees(segments@).last() == name_tree(segments@.last()));
        }
        let generic_args: Vec<Type> = Vec::new();
        assert(type_trees(generic_args@) =~= seq![]);
        Ok(Path { segments, generic_args, span })
    }

    pub(crate) fn parse_type(&mut self, depth: usize) -> (r: Result<Type, ParseError>)
        requires
            old(self).wf(),
        ensures
            final(self).wf(),
            (final(self)@, seen_type(r)) == read_type(old(self)@, depth as nat),
            tokens_left(final(self)@) <= tokens_left(old(self)@),
            r is Ok ==> tokens_left(final(self)@) < tokens_left(old(self)@),
        decreases depth,
    {
        if depth == 0 {
            return Err(self.too_deep());
        }
        if self.check(&TokenKind::LBracket) {
            let start = self.bump();
            let elem = self.parse_type(depth - 1)?;
            self.expect(&TokenKind::Semi, "`;`")?;
            let len = self.parse_array_length()?;
            let close = self.expect(&TokenKind::RBracket, "`]`")?;
            let span = Span::new(start.start, close.end);
            return Ok(Type::Array { elem: Box::new(elem), len, span });
        }
        if self.eat(&TokenKind::Dyn) {
            let path = self.parse_path(depth - 1)?;
            return Ok(Type::Dyn(path));
        }
        let mut path = self.parse_path(depth - 1)?;
        let ghost plain = path;
        if self.eat(&TokenKind::Lt) {
            let args = self.parse_type_args(depth - 1)?;
            let close = self.expect_generic_close()?;
            path.generic_args = args;
            path.span = Span::new(path.span.start, close.end);
            assert(path_tree(path).parts =~= seq![path_tree(plain).parts[0], list(type_trees(args@))]);
        }
        assert(type_tree(Type::Path(path)) == node(Label::PathType, path.span, seq![path_tree(path)]));
        Ok(Type::Path(path))
    }

    pub(crate) fn parse_type_args(&mut self, depth: usize) -> (r: Result<Vec<Type>, ParseError>)
        requires
            old(self).wf(),
        ensures
            final(self).wf(),
            (final(self)@, seen_types(r)) == read_type_args(old(self)@, depth as nat),
            tokens_left(final(self)@) <= tokens_left(old(self)@),
        decreases depth,
    {
        if depth == 0 {
            return Err(self.too_deep());
        }
        if self.check(&TokenKind::Gt) {
            let none: Vec<Type> = Vec::new();
            assert(type_trees(none@) =~= seq![]);
            return Ok(none);
        }
        self.parse_type_chain(depth - 1)
    }

    pub(crate) fn parse_array_length(&mut self) -> (r: Result<usize, ParseError>)
        requires
            old(self).wf(),
        ensures
            final(self).wf(),
            (final(self)@, seen_length(r)) == read_array_length(old(self)@),
            tokens_left(final(self)@) <= tokens_left(old(self)@),
            r is Ok ==> tokens_left(final(self)@) < tokens_left(old(self)@),
    {
        if let TokenKind::Int(n, _) = self.peek() {
            let n: i64 = *n;
            if n >= 0 {
                self.bump();
                return Ok(n as usize);
            }
        }
        Err(
            ParseError {
                message: String::from_str("expected a non-negative array length"),
                span: self.peek_span(),
            },
        )
    }
}

} // verus!
