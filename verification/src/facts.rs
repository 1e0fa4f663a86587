//! What the type checker has found so far.

use vstd::prelude::*;

use crate::checker::{CheckResults, StructLayout, TypeError};
use crate::table::{Table, lookup};
use crate::token::Span;
use crate::ty::{SymbolId, Ty, TyV, ty_views};

verus! {

/// What `Self` stands for: the struct of an impl, or a trait itself.
#[derive(Clone, Copy)]
pub enum SelfContext {
    Impl(SymbolId),
    Trait(SymbolId),
}

/// A struct's layout: each field's name, type and offset, and the size.
pub struct LayoutV {
    pub fields: Seq<(Seq<char>, TyV, u32)>,
    pub size: u32,
}

pub open spec fn layout_view(l: StructLayout) -> LayoutV {
    LayoutV {
        fields: Seq::new(l.fields@.len(), |i: int| (l.fields@[i].name@, l.fields@[i].ty@, l.fields@[i].offset)),
        size: l.size,
    }
}

/// Everything found so far, with the return type of the function being
/// checked and what `Self` stands for.
pub struct Facts {
    pub expr_types: Map<Span, TyV>,
    pub fn_signatures: Map<Span, TyV>,
    pub local_types: Map<Span, TyV>,
    pub type_resolutions: Map<Span, TyV>,
    pub struct_layouts: Map<SymbolId, LayoutV>,
    pub dyn_coercions: Map<Span, (SymbolId, SymbolId, Seq<TyV>)>,
    pub try_conversions: Map<Span, (SymbolId, TyV)>,
    pub assoc: Map<(SymbolId, Seq<char>), TyV>,
    pub closure_params: Map<Span, Seq<TyV>>,
    pub closure_rets: Map<Span, TyV>,
    pub errors: Seq<(Seq<char>, Span)>,
    pub current_return: TyV,
    pub current_self: Option<SelfContext>,
}

pub open spec fn span_tys(m: Map<Span, Ty>) -> Map<Span, TyV> {
    m.map_values(|t: Ty| t@)
}

pub open spec fn layout_maps(m: Map<SymbolId, StructLayout>) -> Map<SymbolId, LayoutV> {
    m.map_values(|l: StructLayout| layout_view(l))
}

pub open spec fn coercion_maps(m: Map<Span, (SymbolId, SymbolId, Vec<Ty>)>) -> Map<
    Span,
    (SymbolId, SymbolId, Seq<TyV>),
> {
    m.map_values(|c: (SymbolId, SymbolId, Vec<Ty>)| (c.0, c.1, ty_views(c.2@)))
}

pub open spec fn conversion_maps(m: Map<Span, (SymbolId, Ty)>) -> Map<Span, (SymbolId, TyV)> {
    m.map_values(|c: (SymbolId, Ty)| (c.0, c.1@))
}

pub open spec fn assoc_maps(m: Map<(SymbolId, Seq<char>), Ty>) -> Map<(SymbolId, Seq<char>), TyV> {
    m.map_values(|t: Ty| t@)
}

pub open spec fn span_ty_lists(m: Map<Span, Vec<Ty>>) -> Map<Span, Seq<TyV>> {
    m.map_values(|v: Vec<Ty>| ty_views(v@))
}

pub open spec fn type_error_views(es: Seq<TypeError>) -> Seq<(Seq<char>, Span)> {
    Seq::new(es.len(), |i: int| (es[i].message@, es[i].span))
}

/// Whether results hold what was found.
pub open spec fn reports(r: CheckResults, f: Facts) -> bool {
    &&& span_tys(r.expr_types@) == f.expr_types
    &&& span_tys(r.fn_signatures@) == f.fn_signatures
    &&& span_tys(r.local_types@) == f.local_types
    &&& span_tys(r.type_resolutions@) == f.type_resolutions
    &&& layout_maps(r.struct_layouts@) == f.struct_layouts
    &&& coercion_maps(r.dyn_coercions@) == f.dyn_coercions
    &&& conversion_maps(r.try_conversions@) == f.try_conversions
    &&& assoc_maps(r.impl_assoc_bindings_ty@) == f.assoc
    &&& span_ty_lists(r.closure_param_tys@) == f.closure_params
    &&& span_tys(r.closure_ret_tys@) == f.closure_rets
    &&& type_error_views(r.errors@) == f.errors
}

/// What is known before anything is checked.
pub open spec fn no_facts() -> Facts {
    Facts {
        expr_types: Map::empty(),
        fn_signatures: Map::empty(),
        local_types: Map::empty(),
        type_resolutions: Map::empty(),
        struct_layouts: Map::empty(),
        dyn_coercions: Map::empty(),
        try_conversions: Map::empty(),
        assoc: Map::empty(),
        closure_params: Map::empty(),
        closure_rets: Map::empty(),
        errors: seq![],
        current_return: TyV::Unit,
        current_self: None,
    }
}

// ---- single findings ----

pub open spec fn erring(f: Facts, span: Span, message: Seq<char>) -> Facts {
    Facts { errors: f.errors.push((message, span)), ..f }
}

pub open spec fn with_expr(f: Facts, span: Span, t: TyV) -> Facts {
    Facts { expr_types: f.expr_types.insert(span, t), ..f }
}

pub open spec fn with_signature(f: Facts, span: Span, t: TyV) -> Facts {
    Facts { fn_signatures: f.fn_signatures.insert(span, t), ..f }
}

pub open spec fn with_local(f: Facts, span: Span, t: TyV) -> Facts {
    Facts { local_types: f.local_types.insert(span, t), ..f }
}

pub open spec fn with_type(f: Facts, span: Span, t: TyV) -> Facts {
    Facts { type_resolutions: f.type_resolutions.insert(span, t), ..f }
}

pub open spec fn with_layout(f: Facts, s: SymbolId, l: LayoutV) -> Facts {
    Facts { struct_layouts: f.struct_layouts.insert(s, l), ..f }
}

pub open spec fn with_coercion(f: Facts, span: Span, s: SymbolId, t: SymbolId, args: Seq<TyV>) -> Facts {
    Facts { dyn_coercions: f.dyn_coercions.insert(span, (s, t, args)), ..f }
}

pub open spec fn with_conversion(f: Facts, span: Span, s: SymbolId, t: TyV) -> Facts {
    Facts { try_conversions: f.try_conversions.insert(span, (s, t)), ..f }
}

pub open spec fn with_assoc(f: Facts, s: SymbolId, name: Seq<char>, t: TyV) -> Facts {
    Facts { assoc: f.assoc.insert((s, name), t), ..f }
}

pub open spec fn with_closure_params(f: Facts, span: Span, ts: Seq<TyV>) -> Facts {
    Facts { closure_params: f.closure_params.insert(span, ts), ..f }
}

pub open spec fn with_closure_ret(f: Facts, span: Span, t: TyV) -> Facts {
    Facts { closure_rets: f.closure_rets.insert(span, t), ..f }
}

pub open spec fn returning(f: Facts, t: TyV) -> Facts {
    Facts { current_return: t, ..f }
}

pub open spec fn within(f: Facts, s: Option<SelfContext>) -> Facts {
    Facts { current_self: s, ..f }
}

// ---- the store ----

pub struct FactStore {
    found: CheckResults,
    current_return: Ty,
    current_self: Option<SelfContext>,
}

impl View for FactStore {
    type V = Facts;

    closed spec fn view(&self) -> Facts {
        Facts {
            expr_types: span_tys(self.found.expr_types@),
            fn_signatures: span_tys(self.found.fn_signatures@),
            local_types: span_tys(self.found.local_types@),
            type_resolutions: span_tys(self.found.type_resolutions@),
            struct_layouts: layout_maps(self.found.struct_layouts@),
            dyn_coercions: coercion_maps(self.found.dyn_coercions@),
            try_conversions: conversion_maps(self.found.try_conversions@),
            assoc: assoc_maps(self.found.impl_assoc_bindings_ty@),
            closure_params: span_ty_lists(self.found.closure_param_tys@),
            closure_rets: span_tys(self.found.closure_ret_tys@),
            errors: type_error_views(self.found.errors@),
            current_return: self.current_return@,
            current_self: self.current_self,
        }
    }
}

impl FactStore {
    pub fn new() -> (r: Self)
        ensures
            r@ == no_facts(),
    {
        let r = FactStore {
            found: CheckResults {
                expr_types: Table::new(),
                fn_signatures: Table::new(),
                local_types: Table::new(),
                type_resolutions: Table::new(),
                struct_layouts: Table::new(),
                dyn_coercions: Table::new(),
                try_conversions: Table::new(),
                impl_assoc_bindings_ty: Table::new(),
                closure_param_tys: Table::new(),
                closure_ret_tys: Table::new(),
                errors: Vec::new(),
            },
            current_return: Ty::Unit,
            current_self: None,
        };
        proof {
            assert(r@.expr_types =~= Map::empty());
            assert(r@.struct_layouts =~= Map::empty());
            assert(r@.dyn_coercions =~= Map::empty());
            assert(r@.try_conversions =~= Map::empty());
            assert(r@.assoc =~= Map::empty());
            assert(r@.closure_params =~= Map::empty());
            assert(r@.errors =~= seq![]);
        }
        r
    }

    pub fn finish(self) -> (r: CheckResults)
        ensures
            reports(r, self@),
    {
        self.found
    }

    pub fn error(&mut self, span: Span, message: String)
        ensures
            final(self)@ == erring(old(self)@, span, message@),
    {
        let ghost before = type_error_views(self.found.errors@);
        self.found.errors.push(TypeError { message, span });
        assert(type_error_views(self.found.errors@) =~= before.push((message@, span)));
    }

    pub fn set_return(&mut self, t: Ty)
        ensures
            final(self)@ == returning(old(self)@, t@),
    {
        self.current_return = t;
    }

    pub fn return_type(&self) -> (r: Ty)
        ensures
            r@ == self@.current_return,
    {
        self.current_return.copy()
    }

    pub fn set_self(&mut self, s: Option<SelfContext>)
        ensures
            final(self)@ == within(old(self)@, s),
    {
        self.current_self = s;
    }

    pub fn self_context(&self) -> (r: Option<SelfContext>)
        ensures
            r == self@.current_self,
    {
        self.current_self
    }

    /// The field table of a struct.
    pub fn layout(&self, s: SymbolId) -> (r: Option<&StructLayout>)
        ensures
            match r {
                Some(l) => lookup(self@.struct_layouts, s) == Some(layout_view(*l)),
                None => lookup(self@.struct_layouts, s) is None,
            },
    {
        self.found.struct_layouts.get(&s)
    }

    /// The types bound to associated-type names.
    pub fn bindings(&self) -> (r: &Table<(SymbolId, String), Ty>)
        ensures
            assoc_maps(r@) == self@.assoc,
    {
        &self.found.impl_assoc_bindings_ty
    }

    pub fn binding(&self, s: SymbolId, name: String) -> (r: Option<Ty>)
        ensures
            match r {
                Some(t) => lookup(self@.assoc, (s, name@)) == Some(t@),
                None => lookup(self@.assoc, (s, name@)) is None,
            },
    {
        match self.found.impl_assoc_bindings_ty.get(&(s, name)) {
            Some(t) => Some(t.copy()),
            None => None,
        }
    }

    pub fn set_expr(&mut self, span: Span, t: Ty)
        ensures
            final(self)@ == with_expr(old(self)@, span, t@),
    {
        let ghost before = span_tys(self.found.expr_types@);
        self.found.expr_types.insert(span, t);
        assert(span_tys(self.found.expr_types@) =~= before.insert(span, t@));
    }

    pub fn set_signature(&mut self, span: Span, t: Ty)
        ensures
            final(self)@ == with_signature(old(self)@, span, t@),
    {
        let ghost before = span_tys(self.found.fn_signatures@);
        self.found.fn_signatures.insert(span, t);
        assert(span_tys(self.found.fn_signatures@) =~= before.insert(span, t@));
    }

    pub fn set_local(&mut self, span: Span, t: Ty)
        ensures
            final(self)@ == with_local(old(self)@, span, t@),
    {
        let ghost before = span_tys(self.found.local_types@);
        self.found.local_types.insert(span, t);
        assert(span_tys(self.found.local_types@) =~= before.insert(span, t@));
    }

    pub fn set_type(&mut self, span: Span, t: Ty)
        ensures
            final(self)@ == with_type(old(self)@, span, t@),
    {
        let ghost before = span_tys(self.found.type_resolutions@);
        self.found.type_resolutions.insert(span, t);
        assert(span_tys(self.found.type_resolutions@) =~= before.insert(span, t@));
    }

    pub fn set_closure_ret(&mut self, span: Span, t: Ty)
        ensures
            final(self)@ == with_closure_ret(old(self)@, span, t@),
    {
        let ghost before = span_tys(self.found.closure_ret_tys@);
        self.found.closure_ret_tys.insert(span, t);
        assert(span_tys(self.found.closure_ret_tys@) =~= before.insert(span, t@));
    }

    pub fn set_layout(&mut self, s: SymbolId, l: StructLayout)
        ensures
            final(self)@ == with_layout(old(self)@, s, layout_view(l)),
    {
        let ghost before = layout_maps(self.found.struct_layouts@);
        self.found.struct_layouts.insert(s, l);
        assert(layout_maps(self.found.struct_layouts@) =~= before.insert(s, layout_view(l)));
    }

    pub fn set_coercion(&mut self, span: Span, s: SymbolId, t: SymbolId, args: Vec<Ty>)
        ensures
            final(self)@ == with_coercion(old(self)@, span, s, t, ty_views(args@)),
    {
        let ghost before = coercion_maps(self.found.dyn_coercions@);
        self.found.dyn_coercions.insert(span, (s, t, args));
        assert(coercion_maps(self.found.dyn_coercions@) =~= before.insert(span, (s, t, ty_views(args@))));
    }

    pub fn set_conversion(&mut self, span: Span, s: SymbolId, t: Ty)
        ensures
            final(self)@ == with_conversion(old(self)@, span, s, t@),
    {
        let ghost before = conversion_maps(self.found.try_conversions@);
        self.found.try_conversions.insert(span, (s, t));
        assert(conversion_maps(self.found.try_conversions@) =~= before.insert(span, (s, t@)));
    }

    pub fn set_binding(&mut self, s: SymbolId, name: String, t: Ty)
        ensures
            final(self)@ == with_assoc(old(self)@, s, name@, t@),
    {
        let ghost before = assoc_maps(self.found.impl_assoc_bindings_ty@);
        self.found.impl_assoc_bindings_ty.insert((s, name), t);
        assert(assoc_maps(self.found.impl_assoc_bindings_ty@) =~= before.insert((s, name@), t@));
    }

    pub fn set_closure_params(&mut self, span: Span, ts: Vec<Ty>)
        ensures
            final(self)@ == with_closure_params(old(self)@, span, ty_views(ts@)),
    {
        let ghost before = span_ty_lists(self.found.closure_param_tys@);
        self.found.closure_param_tys.insert(span, ts);
        assert(span_ty_lists(self.found.closure_param_tys@) =~= before.insert(span, ty_views(ts@)));
    }

    pub fn signature(&self, span: Span) -> (r: Option<Ty>)
        ensures
            match r {
                Some(t) => lookup(self@.fn_signatures, span) == Some(t@),
                None => lookup(self@.fn_signatures, span) is None,
            },
    {
        match self.found.fn_signatures.get(&span) {
            Some(t) => Some(t.copy()),
            None => None,
        }
    }

    pub fn local(&self, span: Span) -> (r: Option<Ty>)
        ensures
            match r {
                Some(t) => lookup(self@.local_types, span) == Some(t@),
                None => lookup(self@.local_types, span) is None,
            },
    {
        match self.found.local_types.get(&span) {
            Some(t) => Some(t.copy()),
            None => None,
        }
    }

    pub fn type_at(&self, span: Span) -> (r: Option<Ty>)
        ensures
            match r {
                Some(t) => lookup(self@.type_resolutions, span) == Some(t@),
                None => lookup(self@.type_resolutions, span) is None,
            },
    {
        match self.found.type_resolutions.get(&span) {
            Some(t) => Some(t.copy()),
            None => None,
        }
    }
}

} // verus!
