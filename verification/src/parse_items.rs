//! Parsing of items.

use vstd::prelude::*;

use crate::ast::{
    AssocTypeBinding, AssocTypeDecl, ConstDecl, EnumDecl, Field, FnDecl, GenericParam, Ident,
    ImplBlock, Item, ModDecl, Param, Path, StructDecl, TraitDecl, TraitMethodSig, Type, UseDecl,
    Variant, VariantFields, Visibility,
};
use crate::grammar::{
    Part, member_fns, member_types, read_assoc_type, read_binding, read_bound, read_chain,
    read_const, read_element, read_enum, read_field, read_fn, read_generic, read_generics,
    read_impl, read_impl_body, read_impl_member, read_item, read_method, read_mod, read_param,
    read_params, read_return_type, read_signature, read_struct, read_trait, read_trait_member,
    read_type, read_type_path, read_until, read_use, read_use_alias, read_use_names,
    read_variant, read_within, starts_item, tok_at, tok_is, tokens_left,
};
use crate::parser::{
    ParseError, Parser, impl_members_seen, seen_assoc, seen_binding, seen_bounds, seen_const,
    seen_enum, seen_field, seen_fields, seen_fn, seen_generic, seen_generics, seen_impl,
    seen_item, seen_items, seen_mod, seen_opt_name, seen_opt_type, seen_param, seen_params,
    seen_path, seen_sig, seen_struct, seen_trait, seen_types, seen_use, seen_use_names,
    seen_variant, seen_variants, trait_members_seen, with_generics_before,
};
use crate::token::{Span, TokenKind, TokenKindV};
use crate::tree::{
    Tree, assoc_tree, assoc_trees, binding_tree, binding_trees, field_tree, field_trees, fn_tree,
    fn_trees, generic_tree, generic_trees, item_tree, item_trees, name_tree, name_trees,
    opt_path_tree, param_tree, param_trees, path_tree, path_trees, sig_tree, sig_trees,
    type_tree, type_trees, variant_tree, variant_trees,
};

verus! {

impl Parser {
    #[verifier::spinoff_prover]
    pub(crate) fn parse_item(&mut self, depth: usize) -> (r: Result<Item, ParseError>)
        requires
            old(self).wf(),
        ensures
            final(self).wf(),
            (final(self)@, seen_item(r)) == read_item(old(self)@, depth as nat),
            tokens_left(final(self)@) <= tokens_left(old(self)@),
            r is Ok ==> tokens_left(final(self)@) < tokens_left(old(self)@),
            starts_item(tok_at(old(self)@).kind) && depth > 1 ==> tokens_left(final(self)@) < tokens_left(old(self)@),
        decreases depth,
    {
        if depth == 0 {
            return Err(self.too_deep());
        }
        let start = self.peek_span();
        let vis = self.parse_visibility();
        match self.peek() {
            TokenKind::Fn => Ok(Item::Fn(self.parse_fn(vis, start, depth - 1)?)),
            TokenKind::Struct => Ok(Item::Struct(self.parse_struct(vis, start, depth - 1)?)),
            TokenKind::Enum => Ok(Item::Enum(self.parse_enum(vis, start, depth - 1)?)),
            TokenKind::Const => Ok(Item::Const(self.parse_const(vis, start, depth - 1)?)),
            TokenKind::Impl => Ok(Item::Impl(self.parse_impl(start, depth - 1)?)),
            TokenKind::Trait => Ok(Item::Trait(self.parse_trait(vis, start, depth - 1)?)),
            TokenKind::Mod => Ok(Item::Mod(self.parse_mod(vis, start, depth - 1)?)),
            TokenKind::Use => Ok(Item::Use(self.parse_use(vis, start)?)),
            _ => Err(self.expected("item (fn, struct, enum, const)")),
        }
    }

    pub(crate) fn parse_fn(&mut self, vis: Visibility, start: Span, depth: usize) -> (r: Result<FnDecl, ParseError>)
        requires
            old(self).wf(),
        ensures
            final(self).wf(),
            (final(self)@, seen_fn(r)) == read_fn(old(self)@, vis, start, depth as nat),
            tokens_left(final(self)@) <= tokens_left(old(self)@),
            r is Ok ==> tokens_left(final(self)@) < tokens_left(old(self)@),
            tok_is(old(self)@, TokenKind::Fn) && depth > 0 ==> tokens_left(final(self)@) < tokens_left(old(self)@),
        decreases depth,
    {
        if depth == 0 {
            return Err(self.too_deep());
        }
        self.expect(&TokenKind::Fn, "`fn`")?;
        let name = self.expect_ident()?;
        let generics = self.parse_optional_generic_params(depth - 1)?;
        let params = self.parse_params(depth - 1)?;
        let return_type = self.parse_return_type(depth - 1)?;
        let body = self.parse_block(depth - 1)?;
        let span = Span::new(start.start, body.span.end);
        Ok(FnDecl { vis, name, generics, params, return_type, body, span })
    }

    pub(crate) fn parse_params_until(&mut self, close: &TokenKind, depth: usize) -> (r: Result<Vec<Param>, ParseError>)
        requires
            old(self).wf(),
            close@ == TokenKindV::Plain(*close),
        ensures
            final(self).wf(),
            (final(self)@, seen_params(r)) == read_until(old(self)@, Part::Param, *close, depth as nat, seq![]),
            tokens_left(final(self)@) <= tokens_left(old(self)@),
        decreases depth,
    {
        if depth == 0 {
            return Err(self.too_deep());
        }
        let ghost start = self@;
        let mut out: Vec<Param> = Vec::new();
        assert(param_trees(out@) =~= seq![]);
        while !self.check(close) && !self.is_eof()
            invariant
                self.wf(),
                start == old(self)@,
                depth > 0,
                close@ == TokenKindV::Plain(*close),
                read_until(start, Part::Param, *close, depth as nat, seq![]) == read_until(
                    self@,
                    Part::Param,
                    *close,
                    depth as nat,
                    param_trees(out@),
                ),
                tokens_left(self@) <= tokens_left(start),
            decreases tokens_left(self@),
        {
            assert(read_element(self@, Part::Param, (depth - 1) as nat) == read_param(self@, (depth - 1) as nat));
            let t = self.parse_param(depth - 1)?;
            assert(param_trees(out@.push(t)) =~= param_trees(out@).push(param_tree(t)));
            out.push(t);
            if !self.eat(&TokenKind::Comma) {
                return Ok(out);
            }
        }
        Ok(out)
    }

    pub(crate) fn parse_fields_until(&mut self, close: &TokenKind, depth: usize) -> (r: Result<Vec<Field>, ParseError>)
        requires
            old(self).wf(),
            close@ == TokenKindV::Plain(*close),
        ensures
            final(self).wf(),
            (final(self)@, seen_fields(r)) == read_until(old(self)@, Part::Field, *close, depth as nat, seq![]),
            tokens_left(final(self)@) <= tokens_left(old(self)@),
        decreases depth,
    {
        if depth == 0 {
            return Err(self.too_deep());
        }
        let ghost start = self@;
        let mut out: Vec<Field> = Vec::new();
        assert(field_trees(out@) =~= seq![]);
        while !self.check(close) && !self.is_eof()
            invariant
                self.wf(),
                start == old(self)@,
                depth > 0,
                close@ == TokenKindV::Plain(*close),
                read_until(start, Part::Field, *close, depth as nat, seq![]) == read_until(
                    self@,
                    Part::Field,
                    *close,
                    depth as nat,
                    field_trees(out@),
                ),
                tokens_left(self@) <= tokens_left(start),
            decreases tokens_left(self@),
        {
            assert(read_element(self@, Part::Field, (depth - 1) as nat) == read_field(self@, (depth - 1) as nat));
            let t = self.parse_field(depth - 1)?;
            assert(field_trees(out@.push(t)) =~= field_trees(out@).push(field_tree(t)));
            out.push(t);
            if !self.eat(&TokenKind::Comma) {
                return Ok(out);
            }
        }
        Ok(out)
    }

    pub(crate) fn parse_variants_until(&mut self, close: &TokenKind, depth: usize) -> (r: Result<Vec<Variant>, ParseError>)
        requires
            old(self).wf(),
            close@ == TokenKindV::Plain(*close),
        ensures
            final(self).wf(),
            (final(self)@, seen_variants(r)) == read_until(old(self)@, Part::Variant, *close, depth as nat, seq![]),
            tokens_left(final(self)@) <= tokens_left(old(self)@),
        decreases depth,
    {
        if depth == 0 {
            return Err(self.too_deep());
        }
        let ghost start = self@;
        let mut out: Vec<Variant> = Vec::new();
        assert(variant_trees(out@) =~= seq![]);
        while !self.check(close) && !self.is_eof()
            invariant
                self.wf(),
                start == old(self)@,
                depth > 0,
                close@ == TokenKindV::Plain(*close),
                read_until(start, Part::Variant, *close, depth as nat, seq![]) == read_until(
                    self@,
                    Part::Variant,
                    *close,
                    depth as nat,
                    variant_trees(out@),
                ),
                tokens_left(self@) <= tokens_left(start),
            decreases tokens_left(self@),
        {
            assert(read_element(self@, Part::Variant, (depth - 1) as nat) == read_variant(self@, (depth - 1) as nat));
            let t = self.parse_variant(depth - 1)?;
            assert(variant_trees(out@.push(t)) =~= variant_trees(out@).push(variant_tree(t)));
            out.push(t);
            if !self.eat(&TokenKind::Comma) {
                return Ok(out);
            }
        }
        Ok(out)
    }

    pub(crate) fn parse_types_until(&mut self, close: &TokenKind, depth: usize) -> (r: Result<Vec<Type>, ParseError>)
        requires
            old(self).wf(),
            close@ == TokenKindV::Plain(*close),
        ensures
            final(self).wf(),
            (final(self)@, seen_types(r)) == read_until(old(self)@, Part::Type, *close, depth as nat, seq![]),
            tokens_left(final(self)@) <= tokens_left(old(self)@),
        decreases depth,
    {
        if depth == 0 {
            return Err(self.too_deep());
        }
        let ghost start = self@;
        let mut out: Vec<Type> = Vec::new();
        assert(type_trees(out@) =~= seq![]);
        while !self.check(close) && !self.is_eof()
            invariant
                self.wf(),
                start == old(self)@,
                depth > 0,
                close@ == TokenKindV::Plain(*close),
                read_until(start, Part::Type, *close, depth as nat, seq![]) == read_until(
                    self@,
                    Part::Type,
                    *close,
                    depth as nat,
                    type_trees(out@),
                ),
                tokens_left(self@) <= tokens_left(start),
            decreases tokens_left(self@),
        {
            assert(read_element(self@, Part::Type, (depth - 1) as nat) == read_type(self@, (depth - 1) as nat));
            let t = self.parse_type(depth - 1)?;
            assert(type_trees(out@.push(t)) =~= type_trees(out@).push(type_tree(t)));
            out.push(t);
            if !self.eat(&TokenKind::Comma) {
                return Ok(out);
            }
        }
        Ok(out)
    }

    pub(crate) fn parse_bounds(&mut self, depth: usize) -> (r: Result<Vec<Path>, ParseError>)
        requires
            old(self).wf(),
        ensures
            final(self).wf(),
            (final(self)@, seen_bounds(r)) == read_chain(old(self)@, Part::Bound, TokenKind::Plus, depth as nat, seq![]),
            tokens_left(final(self)@) <= tokens_left(old(self)@),
            r is Ok ==> tokens_left(final(self)@) < tokens_left(old(self)@),
            r is Ok ==> r->Ok_0.len() > 0,
        decreases depth,
    {
        if depth == 0 {
            return Err(self.too_deep());
        }
        let ghost start = self@;
        let mut out: Vec<Path> = Vec::new();
        assert(path_trees(out@) =~= seq![]);
        loop
            invariant
                self.wf(),
                start == old(self)@,
                depth > 0,
                read_chain(start, Part::Bound, TokenKind::Plus, depth as nat, seq![]) == read_chain(
                    self@,
                    Part::Bound,
                    TokenKind::Plus,
                    depth as nat,
                    path_trees(out@),
                ),
                tokens_left(self@) <= tokens_left(start),
            decreases tokens_left(self@),
        {
            assert(read_element(self@, Part::Bound, (depth - 1) as nat) == read_bound(self@));
            let t = self.parse_bound()?;
            assert(path_trees(out@.push(t)) =~= path_trees(out@).push(path_tree(t)));
            out.push(t);
            if !self.eat(&TokenKind::Plus) {
                return Ok(out);
            }
        }
    }

    pub(crate) fn parse_generic_chain(&mut self, depth: usize) -> (r: Result<Vec<GenericParam>, ParseError>)
        requires
            old(self).wf(),
        ensures
            final(self).wf(),
            (final(self)@, seen_generics(r)) == read_chain(old(self)@, Part::Generic, TokenKind::Comma, depth as nat, seq![]),
            tokens_left(final(self)@) <= tokens_left(old(self)@),
            r is Ok ==> tokens_left(final(self)@) < tokens_left(old(self)@),
            r is Ok ==> r->Ok_0.len() > 0,
        decreases depth,
    {
        if depth == 0 {
            return Err(self.too_deep());
        }
        let ghost start = self@;
        let mut out: Vec<GenericParam> = Vec::new();
        assert(generic_trees(out@) =~= seq![]);
        loop
            invariant
                self.wf(),
                start == old(self)@,
                depth > 0,
                read_chain(start, Part::Generic, TokenKind::Comma, depth as nat, seq![]) == read_chain(
                    self@,
                    Part::Generic,
                    TokenKind::Comma,
                    depth as nat,
                    generic_trees(out@),
                ),
                tokens_left(self@) <= tokens_left(start),
            decreases tokens_left(self@),
        {
            assert(read_element(self@, Part::Generic, (depth - 1) as nat) == read_generic(self@, (depth - 1) as nat));
            let t = self.parse_generic(depth - 1)?;
            assert(generic_trees(out@.push(t)) =~= generic_trees(out@).push(generic_tree(t)));
            out.push(t);
            if !self.eat(&TokenKind::Comma) {
                return Ok(out);
            }
        }
    }

    pub(crate) fn parse_items(&mut self, depth: usize) -> (r: Result<Vec<Item>, ParseError>)
        requires
            old(self).wf(),
        ensures
            final(self).wf(),
            (final(self)@, seen_items(r)) == read_within(old(self)@, Part::Item, depth as nat, seq![]),
            tokens_left(final(self)@) <= tokens_left(old(self)@),
        decreases depth,
    {
        if depth == 0 {
            return Err(self.too_deep());
        }
        let ghost start = self@;
        let mut out: Vec<Item> = Vec::new();
        assert(item_trees(out@) =~= seq![]);
        while !self.check(&TokenKind::RBrace) && !self.is_eof()
            invariant
                self.wf(),
                start == old(self)@,
                depth > 0,
                read_within(start, Part::Item, depth as nat, seq![]) == read_within(
                    self@,
                    Part::Item,
                    depth as nat,
                    item_trees(out@),
                ),
                tokens_left(self@) <= tokens_left(start),
            decreases tokens_left(self@),
        {
            assert(read_element(self@, Part::Item, (depth - 1) as nat) == read_item(self@, (depth - 1) as nat));
            let t = self.parse_item(depth - 1)?;
            assert(item_trees(out@.push(t)) =~= item_trees(out@).push(item_tree(t)));
            out.push(t);
        }
        Ok(out)
    }

    pub(crate) fn parse_params(&mut self, depth: usize) -> (r: Result<Vec<Param>, ParseError>)
        requires
            old(self).wf(),
        ensures
            final(self).wf(),
            (final(self)@, seen_params(r)) == read_params(old(self)@, depth as nat),
            tokens_left(final(self)@) <= tokens_left(old(self)@),
            r is Ok ==> tokens_left(final(self)@) < tokens_left(old(self)@),
        decreases depth,
    {
        if depth == 0 {
            return Err(self.too_deep());
        }
        self.expect(&TokenKind::LParen, "`(`")?;
        let params = self.parse_params_until(&TokenKind::RParen, depth - 1)?;
        self.expect(&TokenKind::RParen, "`)`")?;
        Ok(params)
    }

    pub(crate) fn parse_return_type(&mut self, depth: usize) -> (r: Result<Option<Type>, ParseError>)
        requires
            old(self).wf(),
        ensures
            final(self).wf(),
            (final(self)@, seen_opt_type(r)) == read_return_type(old(self)@, depth as nat),
            tokens_left(final(self)@) <= tokens_left(old(self)@),
        decreases depth,
    {
        if depth == 0 {
            return Err(self.too_deep());
        }
        if self.eat(&TokenKind::Arrow) {
            Ok(Some(self.parse_type(depth - 1)?))
        } else {
            Ok(None)
        }
    }

    pub(crate) fn parse_bound(&mut self) -> (r: Result<Path, ParseError>)
        requires
            old(self).wf(),
        ensures
            final(self).wf(),
            (final(self)@, seen_path(r)) == read_bound(old(self)@),
            tokens_left(final(self)@) <= tokens_left(old(self)@),
            r is Ok ==> tokens_left(final(self)@) < tokens_left(old(self)@),
    {
        let name = self.expect_ident()?;
        let span = name.span;
        let mut segments: Vec<Ident> = Vec::new();
        segments.push(name);
        let generic_args: Vec<Type> = Vec::new();
        assert(name_trees(segments@) =~= seq![name_tree(name)]);
        assert(type_trees(generic_args@) =~= seq![]);
        Ok(Path { segments, generic_args, span })
    }

    pub(crate) fn parse_generic(&mut self, depth: usize) -> (r: Result<GenericParam, ParseError>)
        requires
            old(self).wf(),
        ensures
            final(self).wf(),
            (final(self)@, seen_generic(r)) == read_generic(old(self)@, depth as nat),
            tokens_left(final(self)@) <= tokens_left(old(self)@),
            r is Ok ==> tokens_left(final(self)@) < tokens_left(old(self)@),
        decreases depth,
    {
        if depth == 0 {
            return Err(self.too_deep());
        }
        let name = self.expect_ident()?;
        let bounds = if self.eat(&TokenKind::Colon) {
            self.parse_bounds(depth - 1)?
        } else {
            let none: Vec<Path> = Vec::new();
            assert(path_trees(none@) =~= seq![]);
            none
        };
        Ok(GenericParam { name, bounds })
    }

    /// `<T>`, `<T, U>` or `<T: A + B>` after an item's name; none without `<`.
    pub(crate) fn parse_optional_generic_params(&mut self, depth: usize) -> (r: Result<Vec<GenericParam>, ParseError>)
        requires
            old(self).wf(),
        ensures
            final(self).wf(),
            (final(self)@, seen_generics(r)) == read_generics(old(self)@, depth as nat),
            tokens_left(final(self)@) <= tokens_left(old(self)@),
        decreases depth,
    {
        if depth == 0 {
            return Err(self.too_deep());
        }
        let none: Vec<GenericParam> = Vec::new();
        assert(generic_trees(none@) =~= seq![]);
        if !self.eat(&TokenKind::Lt) {
            return Ok(none);
        }
        if self.check(&TokenKind::Gt) {
            self.expect(&TokenKind::Gt, "`>`")?;
            return Ok(none);
        }
        let params = self.parse_generic_chain(depth - 1)?;
        self.expect(&TokenKind::Gt, "`>`")?;
        Ok(params)
    }

    pub(crate) fn parse_param(&mut self, depth: usize) -> (r: Result<Param, ParseError>)
        requires
            old(self).wf(),
        ensures
            final(self).wf(),
            (final(self)@, seen_param(r)) == read_param(old(self)@, depth as nat),
            tokens_left(final(self)@) <= tokens_left(old(self)@),
            r is Ok ==> tokens_left(final(self)@) < tokens_left(old(self)@),
        decreases depth,
    {
        if depth == 0 {
            return Err(self.too_deep());
        }
        let name = self.expect_ident()?;
        self.expect(&TokenKind::Colon, "`:`")?;
        let ty = self.parse_type(depth - 1)?;
        let span = Span::new(name.span.start, ty.span().end);
        Ok(Param { name, ty, span })
    }

    pub(crate) fn parse_struct(&mut self, vis: Visibility, start: Span, depth: usize) -> (r: Result<StructDecl, ParseError>)
        requires
            old(self).wf(),
        ensures
            final(self).wf(),
            (final(self)@, seen_struct(r)) == read_struct(old(self)@, vis, start, depth as nat),
            tokens_left(final(self)@) <= tokens_left(old(self)@),
            r is Ok ==> tokens_left(final(self)@) < tokens_left(old(self)@),
            tok_is(old(self)@, TokenKind::Struct) && depth > 0 ==> tokens_left(final(self)@) < tokens_left(old(self)@),
        decreases depth,
    {
        if depth == 0 {
            return Err(self.too_deep());
        }
        self.expect(&TokenKind::Struct, "`struct`")?;
        let name = self.expect_ident()?;
        let generics = self.parse_optional_generic_params(depth - 1)?;
        self.expect(&TokenKind::LBrace, "`{`")?;
        let fields = self.parse_fields_until(&TokenKind::RBrace, depth - 1)?;
        let close = self.expect(&TokenKind::RBrace, "`}`")?;
        Ok(StructDecl { vis, name, generics, fields, span: Span::new(start.start, close.end) })
    }

    pub(crate) fn parse_field(&mut self, depth: usize) -> (r: Result<Field, ParseError>)
        requires
            old(self).wf(),
        ensures
            final(self).wf(),
            (final(self)@, seen_field(r)) == read_field(old(self)@, depth as nat),
            tokens_left(final(self)@) <= tokens_left(old(self)@),
            r is Ok ==> tokens_left(final(self)@) < tokens_left(old(self)@),
        decreases depth,
    {
        if depth == 0 {
            return Err(self.too_deep());
        }
        let start = self.peek_span();
        let vis = self.parse_visibility();
        let name = self.expect_ident()?;
        self.expect(&TokenKind::Colon, "`:`")?;
        let ty = self.parse_type(depth - 1)?;
        let span = Span::new(start.start, ty.span().end);
        Ok(Field { vis, name, ty, span })
    }

    pub(crate) fn parse_enum(&mut self, vis: Visibility, start: Span, depth: usize) -> (r: Result<EnumDecl, ParseError>)
        requires
            old(self).wf(),
        ensures
            final(self).wf(),
            (final(self)@, seen_enum(r)) == read_enum(old(self)@, vis, start, depth as nat),
            tokens_left(final(self)@) <= tokens_left(old(self)@),
            r is Ok ==> tokens_left(final(self)@) < tokens_left(old(self)@),
            tok_is(old(self)@, TokenKind::Enum) && depth > 0 ==> tokens_left(final(self)@) < tokens_left(old(self)@),
        decreases depth,
    {
        if depth == 0 {
            return Err(self.too_deep());
        }
        self.expect(&TokenKind::Enum, "`enum`")?;
        let name = self.expect_ident()?;
        let generics = self.parse_optional_generic_params(depth - 1)?;
        self.expect(&TokenKind::LBrace, "`{`")?;
        let variants = self.parse_variants_until(&TokenKind::RBrace, depth - 1)?;
        let close = self.expect(&TokenKind::RBrace, "`}`")?;
        Ok(EnumDecl { vis, name, generics, variants, span: Span::new(start.start, close.end) })
    }

    pub(crate) fn parse_variant(&mut self, depth: usize) -> (r: Result<Variant, ParseError>)
        requires
            old(self).wf(),
        ensures
            final(self).wf(),
            (final(self)@, seen_variant(r)) == read_variant(old(self)@, depth as nat),
            tokens_left(final(self)@) <= tokens_left(old(self)@),
            r is Ok ==> tokens_left(final(self)@) < tokens_left(old(self)@),
        decreases depth,
    {
        if depth == 0 {
            return Err(self.too_deep());
        }
        let name = self.expect_ident()?;
        let start = name.span.start;
        if self.eat(&TokenKind::LParen) {
            let types = self.parse_types_until(&TokenKind::RParen, depth - 1)?;
            let close = self.expect(&TokenKind::RParen, "`)`")?;
            let span = Span::new(start, close.end);
            return Ok(Variant { name, fields: VariantFields::Tuple(types), span });
        }
        if self.eat(&TokenKind::LBrace) {
            let fields = self.parse_fields_until(&TokenKind::RBrace, depth - 1)?;
            let close = self.expect(&TokenKind::RBrace, "`}`")?;
            let span = Span::new(start, close.end);
            return Ok(Variant { name, fields: VariantFields::Named(fields), span });
        }
        let span = name.span;
        Ok(Variant { name, fields: VariantFields::Unit, span })
    }

    /// An inherent impl, or a trait's when `for` follows the first path.
    pub(crate) fn parse_impl(&mut self, start: Span, depth: usize) -> (r: Result<ImplBlock, ParseError>)
        requires
            old(self).wf(),
        ensures
            final(self).wf(),
            (final(self)@, seen_impl(r)) == read_impl(old(self)@, start, depth as nat),
            tokens_left(final(self)@) <= tokens_left(old(self)@),
            r is Ok ==> tokens_left(final(self)@) < tokens_left(old(self)@),
            tok_is(old(self)@, TokenKind::Impl) && depth > 0 ==> tokens_left(final(self)@) < tokens_left(old(self)@),
        decreases depth,
    {
        if depth == 0 {
            return Err(self.too_deep());
        }
        self.expect(&TokenKind::Impl, "`impl`")?;
        let generics = self.parse_optional_generic_params(depth - 1)?;
        let first = self.parse_type_path(depth - 1)?;
        if self.eat(&TokenKind::For) {
            let second = self.parse_type_path(depth - 1)?;
            self.parse_impl_body(start, generics, Some(first), second, depth - 1)
        } else {
            self.parse_impl_body(start, generics, None, first, depth - 1)
        }
    }

    pub(crate) fn parse_impl_body(
        &mut self,
        start: Span,
        generics: Vec<GenericParam>,
        trait_path: Option<Path>,
        type_path: Path,
        depth: usize,
    ) -> (r: Result<ImplBlock, ParseError>)
        requires
            old(self).wf(),
        ensures
            final(self).wf(),
            (final(self)@, seen_impl(r)) == read_impl_body(
                old(self)@,
                start,
                generic_trees(generics@),
                opt_path_tree(trait_path),
                path_tree(type_path),
                depth as nat,
            ),
            tokens_left(final(self)@) <= tokens_left(old(self)@),
            r is Ok ==> tokens_left(final(self)@) < tokens_left(old(self)@),
        decreases depth,
    {
        if depth == 0 {
            return Err(self.too_deep());
        }
        self.expect(&TokenKind::LBrace, "`{`")?;
        let (assoc_types, methods) = self.parse_impl_members(&generics, depth - 1)?;
        let close = self.expect(&TokenKind::RBrace, "`}`")?;
        let span = Span::new(start.start, close.end);
        Ok(ImplBlock { generics, trait_path, type_path, assoc_types, methods, span })
    }

    pub(crate) fn parse_impl_members(&mut self, generics: &Vec<GenericParam>, depth: usize) -> (r: Result<
        (Vec<AssocTypeBinding>, Vec<FnDecl>),
        ParseError,
    >)
        requires
            old(self).wf(),
        ensures
            final(self).wf(),
            final(self)@ == read_within(
                old(self)@,
                Part::ImplMember(generic_trees(generics@)),
                depth as nat,
                seq![],
            ).0,
            impl_members_seen(
                r,
                read_within(old(self)@, Part::ImplMember(generic_trees(generics@)), depth as nat, seq![]).1,
            ),
            tokens_left(final(self)@) <= tokens_left(old(self)@),
        decreases depth,
    {
        if depth == 0 {
            return Err(self.too_deep());
        }
        let ghost start = self@;
        let ghost part = Part::ImplMember(generic_trees(generics@));
        let ghost mut ms: Seq<Tree> = seq![];
        let mut assoc_types: Vec<AssocTypeBinding> = Vec::new();
        let mut methods: Vec<FnDecl> = Vec::new();
        assert(binding_trees(assoc_types@) =~= member_types(ms));
        assert(fn_trees(methods@) =~= member_fns(ms));
        while !self.check(&TokenKind::RBrace) && !self.is_eof()
            invariant
                self.wf(),
                start == old(self)@,
                depth > 0,
                part == Part::ImplMember(generic_trees(generics@)),
                read_within(start, part, depth as nat, seq![]) == read_within(self@, part, depth as nat, ms),
                binding_trees(assoc_types@) == member_types(ms),
                fn_trees(methods@) == member_fns(ms),
                tokens_left(self@) <= tokens_left(start),
            decreases tokens_left(self@),
        {
            assert(read_element(self@, part, (depth - 1) as nat) == read_impl_member(
                self@,
                generic_trees(generics@),
                (depth - 1) as nat,
            ));
            if depth == 1 {
                return Err(self.too_deep());
            }
            if self.check_contextual("type") {
                let t = self.parse_binding(depth - 2)?;
                proof {
                    assert(ms.push(binding_tree(t)).drop_last() =~= ms);
                    assert(binding_trees(assoc_types@.push(t)) =~= binding_trees(assoc_types@).push(
                        binding_tree(t),
                    ));
                    ms = ms.push(binding_tree(t));
                }
                assoc_types.push(t);
            } else {
                let f = self.parse_method(generics, depth - 2)?;
                proof {
                    assert(ms.push(fn_tree(f)).drop_last() =~= ms);
                    assert(fn_trees(methods@.push(f)) =~= fn_trees(methods@).push(fn_tree(f)));
                    ms = ms.push(fn_tree(f));
                }
                methods.push(f);
            }
        }
        Ok((assoc_types, methods))
    }

    /// `type Name = Type;` in an impl.
    pub(crate) fn parse_binding(&mut self, depth: usize) -> (r: Result<AssocTypeBinding, ParseError>)
        requires
            old(self).wf(),
        ensures
            final(self).wf(),
            (final(self)@, seen_binding(r)) == read_binding(old(self)@, depth as nat),
            tokens_left(final(self)@) <= tokens_left(old(self)@),
            r is Ok ==> tokens_left(final(self)@) < tokens_left(old(self)@),
        decreases depth,
    {
        if depth == 0 {
            return Err(self.too_deep());
        }
        let start = self.bump();
        let name = self.expect_ident()?;
        self.expect(&TokenKind::Eq, "`=`")?;
        let value = self.parse_type(depth - 1)?;
        let close = self.expect(&TokenKind::Semi, "`;`")?;
        Ok(AssocTypeBinding { name, value, span: Span::new(start.start, close.end) })
    }

    /// A method of an impl. The impl's type parameters are put before its own,
    /// so that it is a plain generic function.
    pub(crate) fn parse_method(&mut self, generics: &Vec<GenericParam>, depth: usize) -> (r: Result<FnDecl, ParseError>)
        requires
            old(self).wf(),
        ensures
            final(self).wf(),
            (final(self)@, seen_fn(r)) == read_method(old(self)@, generic_trees(generics@), depth as nat),
            tokens_left(final(self)@) <= tokens_left(old(self)@),
            r is Ok ==> tokens_left(final(self)@) < tokens_left(old(self)@),
        decreases depth,
    {
        if depth == 0 {
            return Err(self.too_deep());
        }
        self.eat(&TokenKind::Pub);
        let start = self.peek_span();
        let f = self.parse_fn(Visibility::Private, start, depth - 1)?;
        Ok(with_generics_before(generics, f))
    }

    /// A type that has to be a path.
    pub(crate) fn parse_type_path(&mut self, depth: usize) -> (r: Result<Path, ParseError>)
        requires
            old(self).wf(),
        ensures
            final(self).wf(),
            (final(self)@, seen_path(r)) == read_type_path(old(self)@, depth as nat),
            tokens_left(final(self)@) <= tokens_left(old(self)@),
            r is Ok ==> tokens_left(final(self)@) < tokens_left(old(self)@),
        decreases depth,
    {
        if depth == 0 {
            return Err(self.too_deep());
        }
        let span = self.peek_span();
        let t = self.parse_type(depth - 1)?;
        match t {
            Type::Path(p) => Ok(p),
            _ => Err(ParseError { message: String::from_str("expected a type name after `impl`"), span }),
        }
    }

    pub(crate) fn parse_trait(&mut self, vis: Visibility, start: Span, depth: usize) -> (r: Result<TraitDecl, ParseError>)
        requires
            old(self).wf(),
        ensures
            final(self).wf(),
            (final(self)@, seen_trait(r)) == read_trait(old(self)@, vis, start, depth as nat),
            tokens_left(final(self)@) <= tokens_left(old(self)@),
            r is Ok ==> tokens_left(final(self)@) < tokens_left(old(self)@),
            tok_is(old(self)@, TokenKind::Trait) && depth > 0 ==> tokens_left(final(self)@) < tokens_left(old(self)@),
        decreases depth,
    {
        if depth == 0 {
            return Err(self.too_deep());
        }
        self.expect(&TokenKind::Trait, "`trait`")?;
        let name = self.expect_ident()?;
        self.expect(&TokenKind::LBrace, "`{`")?;
        let (assoc_types, methods) = self.parse_trait_members(depth - 1)?;
        let close = self.expect(&TokenKind::RBrace, "`}`")?;
        let span = Span::new(start.start, close.end);
        let generics: Vec<GenericParam> = Vec::new();
        let supertraits: Vec<Path> = Vec::new();
        assert(generic_trees(generics@) =~= seq![]);
        assert(path_trees(supertraits@) =~= seq![]);
        Ok(TraitDecl { vis, name, generics, supertraits, assoc_types, methods, span })
    }

    pub(crate) fn parse_trait_members(&mut self, depth: usize) -> (r: Result<
        (Vec<AssocTypeDecl>, Vec<TraitMethodSig>),
        ParseError,
    >)
        requires
            old(self).wf(),
        ensures
            final(self).wf(),
            final(self)@ == read_within(old(self)@, Part::TraitMember, depth as nat, seq![]).0,
            trait_members_seen(r, read_within(old(self)@, Part::TraitMember, depth as nat, seq![]).1),
            tokens_left(final(self)@) <= tokens_left(old(self)@),
        decreases depth,
    {
        if depth == 0 {
            return Err(self.too_deep());
        }
        let ghost start = self@;
        let ghost part = Part::TraitMember;
        let ghost mut ms: Seq<Tree> = seq![];
        let mut assoc_types: Vec<AssocTypeDecl> = Vec::new();
        let mut methods: Vec<TraitMethodSig> = Vec::new();
        assert(assoc_trees(assoc_types@) =~= member_types(ms));
        assert(sig_trees(methods@) =~= member_fns(ms));
        while !self.check(&TokenKind::RBrace) && !self.is_eof()
            invariant
                self.wf(),
                start == old(self)@,
                depth > 0,
                part == Part::TraitMember,
                read_within(start, part, depth as nat, seq![]) == read_within(self@, part, depth as nat, ms),
                assoc_trees(assoc_types@) == member_types(ms),
                sig_trees(methods@) == member_fns(ms),
                tokens_left(self@) <= tokens_left(start),
            decreases tokens_left(self@),
        {
            assert(read_element(self@, part, (depth - 1) as nat) == read_trait_member(
                self@,
                (depth - 1) as nat,
            ));
            if depth == 1 {
                return Err(self.too_deep());
            }
            if self.check_contextual("type") {
                let t = self.parse_assoc_type()?;
                proof {
                    assert(ms.push(assoc_tree(t)).drop_last() =~= ms);
                    assert(assoc_trees(assoc_types@.push(t)) =~= assoc_trees(assoc_types@).push(assoc_tree(t)));
                    ms = ms.push(assoc_tree(t));
                }
                assoc_types.push(t);
            } else {
                let f = self.parse_signature(depth - 2)?;
                proof {
                    assert(ms.push(sig_tree(f)).drop_last() =~= ms);
                    assert(sig_trees(methods@.push(f)) =~= sig_trees(methods@).push(sig_tree(f)));
                    ms = ms.push(sig_tree(f));
                }
                methods.push(f);
            }
        }
        Ok((assoc_types, methods))
    }

    /// `type Name;` in a trait.
    pub(crate) fn parse_assoc_type(&mut self) -> (r: Result<AssocTypeDecl, ParseError>)
        requires
            old(self).wf(),
        ensures
            final(self).wf(),
            (final(self)@, seen_assoc(r)) == read_assoc_type(old(self)@),
            tokens_left(final(self)@) <= tokens_left(old(self)@),
            r is Ok ==> tokens_left(final(self)@) < tokens_left(old(self)@),
    {
        let start = self.bump();
        let name = self.expect_ident()?;
        let close = self.expect(&TokenKind::Semi, "`;`")?;
        Ok(AssocTypeDecl { name, span: Span::new(start.start, close.end) })
    }

    /// `fn name(params) -> Type;` in a trait.
    pub(crate) fn parse_signature(&mut self, depth: usize) -> (r: Result<TraitMethodSig, ParseError>)
        requires
            old(self).wf(),
        ensures
            final(self).wf(),
            (final(self)@, seen_sig(r)) == read_signature(old(self)@, depth as nat),
            tokens_left(final(self)@) <= tokens_left(old(self)@),
            r is Ok ==> tokens_left(final(self)@) < tokens_left(old(self)@),
        decreases depth,
    {
        if depth == 0 {
            return Err(self.too_deep());
        }
        let start = self.peek_span();
        self.expect(&TokenKind::Fn, "`fn`")?;
        let name = self.expect_ident()?;
        let params = self.parse_params(depth - 1)?;
        let return_type = self.parse_return_type(depth - 1)?;
        let close = self.expect(&TokenKind::Semi, "`;`")?;
        Ok(TraitMethodSig { name, params, return_type, body: None, span: Span::new(start.start, close.end) })
    }

    pub(crate) fn parse_mod(&mut self, vis: Visibility, start: Span, depth: usize) -> (r: Result<ModDecl, ParseError>)
        requires
            old(self).wf(),
        ensures
            final(self).wf(),
            (final(self)@, seen_mod(r)) == read_mod(old(self)@, vis, start, depth as nat),
            tokens_left(final(self)@) <= tokens_left(old(self)@),
            r is Ok ==> tokens_left(final(self)@) < tokens_left(old(self)@),
            tok_is(old(self)@, TokenKind::Mod) && depth > 0 ==> tokens_left(final(self)@) < tokens_left(old(self)@),
        decreases depth,
    {
        if depth == 0 {
            return Err(self.too_deep());
        }
        self.expect(&TokenKind::Mod, "`mod`")?;
        let name = self.expect_ident()?;
        self.expect(&TokenKind::LBrace, "`{`")?;
        let items = self.parse_items(depth - 1)?;
        let close = self.expect(&TokenKind::RBrace, "`}`")?;
        Ok(ModDecl { vis, name, items, span: Span::new(start.start, close.end) })
    }

    pub(crate) fn parse_use(&mut self, vis: Visibility, start: Span) -> (r: Result<UseDecl, ParseError>)
        requires
            old(self).wf(),
        ensures
            final(self).wf(),
            (final(self)@, seen_use(r)) == read_use(old(self)@, vis, start),
            tokens_left(final(self)@) <= tokens_left(old(self)@),
            r is Ok ==> tokens_left(final(self)@) < tokens_left(old(self)@),
            tok_is(old(self)@, TokenKind::Use) ==> tokens_left(final(self)@) < tokens_left(old(self)@),
    {
        self.expect(&TokenKind::Use, "`use`")?;
        let first = self.expect_ident()?;
        let path_start = first.span.start;
        let ghost first_tree = name_tree(first);
        let (segments, glob) = self.parse_use_names(first)?;
        let path_end = segments[segments.len() - 1].span.end;
        assert(name_trees(segments@).last() == name_tree(segments@.last()));
        let generic_args: Vec<Type> = Vec::new();
        assert(type_trees(generic_args@) =~= seq![]);
        let path = Path { segments, generic_args, span: Span::new(path_start, path_end) };
        let alias = self.parse_use_alias(glob)?;
        let close = self.expect(&TokenKind::Semi, "`;`")?;
        Ok(UseDecl { path, glob, alias, vis, span: Span::new(start.start, close.end) })
    }

    /// `as name`, unless the path ends in `::*`.
    pub(crate) fn parse_use_alias(&mut self, glob: bool) -> (r: Result<Option<Ident>, ParseError>)
        requires
            old(self).wf(),
        ensures
            final(self).wf(),
            (final(self)@, seen_opt_name(r)) == read_use_alias(old(self)@, glob),
            tokens_left(final(self)@) <= tokens_left(old(self)@),
    {
        if !glob && self.eat(&TokenKind::As) {
            Ok(Some(self.expect_ident()?))
        } else {
            Ok(None)
        }
    }

    /// The names of a `use` path, and whether `::*` ends it.
    pub(crate) fn parse_use_names(&mut self, first: Ident) -> (r: Result<(Vec<Ident>, bool), ParseError>)
        requires
            old(self).wf(),
        ensures
            final(self).wf(),
            (final(self)@, seen_use_names(r)) == read_use_names(old(self)@, seq![name_tree(first)]),
            tokens_left(final(self)@) <= tokens_left(old(self)@),
            r is Ok ==> r->Ok_0.0.len() > 0,
    {
        let ghost start = self@;
        let mut segments: Vec<Ident> = Vec::new();
        segments.push(first);
        assert(name_trees(segments@) =~= seq![name_tree(first)]);
        while self.eat(&TokenKind::ColonColon)
            invariant
                self.wf(),
                start == old(self)@,
                segments.len() > 0,
                read_use_names(start, seq![name_tree(first)]) == read_use_names(self@, name_trees(segments@)),
                tokens_left(self@) <= tokens_left(start),
            decreases tokens_left(self@),
        {
            if self.eat(&TokenKind::Star) {
                return Ok((segments, true));
            }
            let n = self.expect_ident()?;
            assert(name_trees(segments@.push(n)) =~= name_trees(segments@).push(name_tree(n)));
            segments.push(n);
        }
        Ok((segments, false))
    }

    pub(crate) fn parse_const(&mut self, vis: Visibility, start: Span, depth: usize) -> (r: Result<ConstDecl, ParseError>)
        requires
            old(self).wf(),
        ensures
            final(self).wf(),
            (final(self)@, seen_const(r)) == read_const(old(self)@, vis, start, depth as nat),
            tokens_left(final(self)@) <= tokens_left(old(self)@),
            r is Ok ==> tokens_left(final(self)@) < tokens_left(old(self)@),
            tok_is(old(self)@, TokenKind::Const) && depth > 0 ==> tokens_left(final(self)@) < tokens_left(old(self)@),
        decreases depth,
    {
        if depth == 0 {
            return Err(self.too_deep());
        }
        self.expect(&TokenKind::Const, "`const`")?;
        let name = self.expect_ident()?;
        self.expect(&TokenKind::Colon, "`:`")?;
        let ty = self.parse_type(depth - 1)?;
        self.expect(&TokenKind::Eq, "`=`")?;
        let value = self.parse_expr_at(depth - 1)?;
        let close = self.expect(&TokenKind::Semi, "`;`")?;
        Ok(ConstDecl { vis, name, ty, value, span: Span::new(start.start, close.end) })
    }
}

} // verus!
