use rune::ast::{BinOp, Block, ClosureParam, Expr, FnDecl, Ident, Item, LetStmt, Lit, Module, Path, Pattern, Stmt, Visibility};
use rune::codegen::mangle_ty_name;
use rune::monomorphize::{resolve_method_calls_in_block, unify};
use rune::table::Table;
use rune::ty::{IntTy, Ty};
use rune::{
    expand_modules, monomorphize_module, Checker, HirItem, HirModule, Lexer, Lowerer, Parser, Resolver, Span, SymbolId,
};

fn parsed(src: &str) -> Module {
    let (tokens, errs) = Lexer::new(src).tokenize();
    assert!(errs.is_empty());
    let (m, errs) = Parser::new(tokens).parse_module();
    assert!(errs.is_empty(), "{:?}", errs);
    m
}

fn resolve_errors(src: &str) -> Vec<String> {
    let m = parsed(src);
    Resolver::new().resolve_module(&m).1.iter().map(|e| e.message.clone()).collect()
}

fn lowered(src: &str) -> HirModule {
    let m = parsed(src);
    let (res, errs) = Resolver::new().resolve_module(&m);
    assert!(errs.is_empty(), "{:?}", errs);
    let check = Checker::new(&res).check_module(&m);
    assert!(check.errors.is_empty(), "{:?}", check.errors);
    Lowerer::new(&res, &check).lower_module(&m)
}

fn names(hir: &HirModule) -> Vec<String> {
    hir.items
        .iter()
        .map(|i| match i {
            HirItem::Fn(f) => f.name.clone(),
        })
        .collect()
}

#[test]
fn an_empty_source_is_an_empty_module() {
    let m = parsed(" // nothing\n");
    assert!(m.items.is_empty());
    assert_eq!(m.span, Span::new(0, 12));
}

#[test]
fn tokens_lie_inside_the_files() {
    let loader = |name: &str| if name == "a" { Some("fn g() { \"é\" }".to_string()) } else { None };
    let e = expand_modules("mod a; fn f() { }", "main.rn", &loader);
    for t in &e.tokens {
        if t.span.start < t.span.end {
            assert!(e.source_map.locate(t.span.start).is_some());
            assert_eq!(
                e.source_map.locate(t.span.start).map(|l| l.0),
                e.source_map.locate(t.span.end - 1).map(|l| l.0)
            );
        }
    }
}

#[test]
fn expressions_leave_no_names() {
    assert_eq!(resolve_errors("fn f() { match 1 { k => k }; k; }"), vec!["unresolved name `k`"]);
    assert_eq!(resolve_errors("fn f() { for i in 0..3 { i; } i; }"), vec!["unresolved name `i`"]);
    assert_eq!(resolve_errors("fn f() { if true { let y = 1; y; } y; }"), vec!["unresolved name `y`"]);
}

#[test]
fn the_newest_binding_wins() {
    let m = parsed("fn f() { let x = 1; let x = 2; x; }");
    let (res, errs) = Resolver::new().resolve_module(&m);
    assert!(errs.is_empty());
    let Item::Fn(f) = &m.items[0] else { panic!("a function") };
    let Stmt::Let(LetStmt { pat: Pattern::Ident { name: second, .. }, .. }) = &f.body.stmts[1] else { panic!("a let") };
    let Stmt::Expr(Expr::Path(p), true) = &f.body.stmts[2] else { panic!("a path") };
    let (used, declared): (Option<&SymbolId>, Option<&SymbolId>) =
        (res.path_to_sym.get(&p.span), res.decl_to_sym.get(&second.span));
    assert!(used.is_some());
    assert_eq!(used, declared);
}

fn ident(name: &str, at: usize) -> Ident {
    Ident { name: name.to_string(), span: Span::new(at, at + 1) }
}

fn path(name: &str, at: usize) -> Expr {
    Expr::Path(Path { segments: vec![ident(name, at)], generic_args: vec![], span: Span::new(at, at + 1) })
}

fn sum(a: Expr, b: Expr, at: usize) -> Expr {
    Expr::Binary { op: BinOp::Add, lhs: Box::new(a), rhs: Box::new(b), span: Span::new(at, at + 1) }
}

#[test]
fn a_closure_captures_each_local_once() {
    // fn f(..) { let x = 1; let z = 2; |y| x + y + x + z }
    let one = |name: &str, at: usize| {
        Stmt::Let(LetStmt {
            mutable: false,
            pat: Pattern::Ident { name: ident(name, at), mutable: false, span: Span::new(at, at + 1) },
            ty: None,
            init: Some(Expr::Lit { lit: Lit::Int(1, None), span: Span::new(at + 2, at + 3) }),
            span: Span::new(at, at + 4),
        })
    };
    let body = sum(sum(sum(path("x", 52), path("y", 54), 53), path("x", 56), 55), path("z", 58), 57);
    let closure_span = Span::new(50, 60);
    let closure = Expr::Closure {
        params: vec![ClosureParam { name: ident("y", 51), ty: None, span: Span::new(51, 52) }],
        body: Box::new(body),
        span: closure_span,
    };
    let f = FnDecl {
        vis: Visibility::Private,
        name: ident("f", 3),
        generics: vec![],
        params: vec![],
        return_type: None,
        body: Block { stmts: vec![one("x", 10), one("z", 20), Stmt::Expr(closure, true)], span: Span::new(8, 70) },
        span: Span::new(0, 70),
    };
    let m = Module { items: vec![Item::Fn(f)], span: Span::new(0, 70) };
    let (res, errs) = Resolver::new().resolve_module(&m);
    assert!(errs.is_empty(), "{:?}", errs);
    let captured: Vec<String> = res
        .closure_captures
        .get(&closure_span)
        .expect("captures")
        .iter()
        .map(|s| res.symbol(*s).name.clone())
        .collect();
    assert_eq!(captured, vec!["x", "z"]);
    assert!(res.closure_struct_sym.get(&closure_span).is_some());
}

#[test]
fn types_go_together_both_ways() {
    let i = Ty::Int(IntTy::I64);
    let v = Ty::Vec(Box::new(Ty::Int(IntTy::I64)));
    let e = Ty::Enum(SymbolId(3), vec![]);
    let e2 = Ty::Enum(SymbolId(3), vec![Ty::Bool]);
    for t in [&i, &v, &e, &e2, &Ty::Error, &Ty::Never, &Ty::TypeVar(SymbolId(1))] {
        assert!(t.compatible(t));
        assert!(Ty::Error.compatible(t) && t.compatible(&Ty::Error));
        assert!(Ty::Never.compatible(t) && t.compatible(&Ty::Never));
    }
    assert!(!i.compatible(&v) && !v.compatible(&i));
    assert!(e.compatible(&e2) && e2.compatible(&e));
    assert!(!Ty::Int(IntTy::I8).compatible(&i));
}

#[test]
fn one_function_for_each_instance() {
    let mut hir = lowered("fn id<T>(x: T) -> T { x } fn main() -> i64 { if id(true) { id(1) + id(2) } else { 0 } }");
    assert_eq!(names(&hir), vec!["id", "main"]);
    assert!(monomorphize_module(&mut hir).is_ok());
    let after = names(&hir);
    assert_eq!(after.len(), 3);
    assert!(after.contains(&"main".to_string()));
    let mut symbols: Vec<u32> = hir
        .items
        .iter()
        .map(|i| match i {
            HirItem::Fn(f) => f.sym.0,
        })
        .collect();
    symbols.sort();
    symbols.dedup();
    assert_eq!(symbols.len(), 3);
}

#[test]
fn concrete_programs_stay_as_they_are() {
    let mut hir = lowered("fn f() -> i64 { 1 } fn main() -> i64 { f() }");
    assert!(monomorphize_module(&mut hir).is_ok());
    assert_eq!(names(&hir), vec!["f", "main"]);
}

#[test]
fn payloads_follow_discriminants() {
    let hir = lowered("enum E { A, B(i64, bool), C(str) } fn main() { }");
    assert_eq!(hir.enum_has_payload.len(), 1);
    let payloads = hir.enum_payload_tys.get(&hir.enum_has_payload[0]).expect("payloads");
    let counts: Vec<usize> = payloads.iter().map(|p| p.len()).collect();
    assert_eq!(counts, vec![0, 2, 1]);
}

#[test]
fn methods_take_their_slots_in_order() {
    let src = "trait T { fn b(self: Self) -> i64; fn a(self: Self) -> i64; } fn main() { }";
    let m = parsed(src);
    let (res, _) = Resolver::new().resolve_module(&m);
    let t = res.find_trait_sym("T").expect("the trait");
    let hir = lowered(src);
    let slots: Vec<&str> = hir.trait_methods_flat.get(&t).expect("slots").iter().map(|s| s.1.as_str()).collect();
    assert_eq!(slots, vec!["b", "a"]);
}

#[test]
fn only_counted_fields_are_released() {
    let src = "struct S { a: i64, v: Vec<i64>, t: str } fn main() { }";
    let m = parsed(src);
    let (res, _) = Resolver::new().resolve_module(&m);
    let s = res.find_struct_sym("S").expect("the struct");
    let hir = lowered(src);
    let offsets: Vec<u32> = hir.struct_arc_fields.get(&s).expect("fields").iter().map(|f| f.0).collect();
    assert_eq!(offsets, vec![8, 16]);
    assert_eq!(hir.struct_sizes.get(&s), Some(&24));
}

#[test]
fn distinct_types_have_distinct_texts() {
    let s = SymbolId(1);
    let i64_ty = || Ty::Int(IntTy::I64);
    let types = vec![
        Ty::Struct(s, vec![Ty::Struct(s, vec![]), i64_ty()]),
        Ty::Struct(s, vec![Ty::Struct(s, vec![i64_ty()])]),
        Ty::Array(Box::new(i64_ty()), 12),
        Ty::Array(Box::new(Ty::Array(Box::new(i64_ty()), 2)), 1),
        Ty::Vec(Box::new(Ty::Array(Box::new(i64_ty()), 12))),
        Ty::Fn { params: vec![], ret: Box::new(i64_ty()) },
        Ty::Fn { params: vec![i64_ty()], ret: Box::new(Ty::Unit) },
        Ty::Assoc(Box::new(Ty::TypeVar(s)), "Item".to_string()),
        Ty::HashMap(Box::new(i64_ty()), Box::new(Ty::Str)),
        Ty::HashMap(Box::new(Ty::Str), Box::new(i64_ty())),
    ];
    let texts: Vec<String> = types.iter().map(mangle_ty_name).collect();
    for i in 0..texts.len() {
        for j in 0..i {
            assert_ne!(texts[i], texts[j]);
            assert_ne!(types[i], types[j]);
        }
        assert_eq!(types[i].clone(), types[i]);
    }
}

#[test]
fn conversions_stand_side_by_side() {
    let m = parsed(
        "trait Into { }
         struct S { n: i64 } struct A { n: i64 } struct B { n: i64 }
         impl Into<A> for S { fn into(self: S) -> A { A { n: self.n } } }
         impl Into<B> for S { fn into(self: S) -> B { B { n: self.n } } }",
    );
    let (res, errs) = Resolver::new().resolve_module(&m);
    assert!(errs.is_empty(), "{:?}", errs);
    let s = res.symbols.iter().position(|x| x.name == "S").expect("S");
    let both = res.into_impls.get(&SymbolId(s as u32)).expect("conversions");
    assert_eq!(both.len(), 2);
    assert_ne!(both[0].1, both[1].1);
    let twice = "trait Show { fn show(self: Self) -> i64; }
                 struct S { n: i64 }
                 impl S { fn show(self: S) -> i64 { 1 } }
                 impl Show for S { fn show(self: S) -> i64 { 2 } }";
    assert_eq!(resolve_errors(twice), vec!["method `show` already defined on `S`"]);
}

#[test]
fn declared_symbols_have_their_span() {
    let m = parsed("struct P<T> { x: T } impl<T> P<T> { fn get(self: P<T>) -> T { self.x } } fn f<T>(a: T) -> T { let b = a; b }");
    let (res, errs) = Resolver::new().resolve_module(&m);
    assert!(errs.is_empty(), "{:?}", errs);
    let Item::Fn(f) = &m.items[2] else { panic!("a function") };
    for span in [f.name.span, f.params[0].name.span, f.generics[0].name.span] {
        let id = res.decl_to_sym.get(&span).expect("declared");
        assert_eq!(res.symbols[id.0 as usize].span, span);
    }
}

#[test]
fn no_type_variable_is_left_in_a_projection() {
    let mut hir = lowered(
        "trait Holder { type Item; fn get(self: Self) -> Self::Item; }
         struct S { n: i64 }
         impl Holder for S { type Item = i64; fn get(self: S) -> i64 { self.n } }
         fn take<T: Holder>(x: T) -> T::Item { x.get() }
         fn main() -> i64 { take(S { n: 5 }) }",
    );
    assert!(monomorphize_module(&mut hir).is_ok());
    for HirItem::Fn(f) in &hir.items {
        assert_eq!(f.ret_ty, Ty::Int(IntTy::I64), "{}", f.name);
    }
    let again = names(&hir);
    assert!(monomorphize_module(&mut hir).is_ok());
    assert_eq!(names(&hir), again);
}

#[test]
fn what_is_bound_stays_bound() {
    let t = SymbolId(7);
    let mut bound: Table<SymbolId, Ty> = Table::new();
    bound.insert(t, Ty::Bool);
    assert!(!unify(&Ty::TypeVar(t), &Ty::Int(IntTy::I64), &mut bound));
    assert_eq!(bound.len(), 1);
    assert_eq!(bound.get(&t), Some(&Ty::Bool));
    assert!(unify(&Ty::TypeVar(t), &Ty::Bool, &mut bound));
}

#[test]
fn trait_objects_match_with_as_many_arguments() {
    let (p, t) = (SymbolId(3), SymbolId(7));
    let mut bound: Table<SymbolId, Ty> = Table::new();
    assert!(!unify(&Ty::Dyn(p, vec![Ty::TypeVar(t)]), &Ty::Dyn(p, vec![]), &mut bound));
    assert_eq!(bound.len(), 0);
    assert!(unify(&Ty::Dyn(p, vec![Ty::TypeVar(t)]), &Ty::Dyn(p, vec![Ty::Str]), &mut bound));
    assert_eq!(bound.get(&t), Some(&Ty::Str));
    assert!(unify(&Ty::Struct(p, vec![Ty::TypeVar(t)]), &Ty::Struct(p, vec![]), &mut bound));
}

#[test]
fn resolved_calls_stay_resolved() {
    let hir = lowered(
        "struct S { n: i64 }
         impl S { fn get(self: S) -> i64 { self.n } fn plus(self: S, k: i64) -> i64 { self.get() + k } }
         fn main() -> i64 { let s = S { n: 2 }; s.plus(s.get()) }",
    );
    for HirItem::Fn(f) in &hir.items {
        let once = resolve_method_calls_in_block(&f.body, &hir.impl_methods);
        let twice = resolve_method_calls_in_block(&once, &hir.impl_methods);
        assert!(!format!("{:?}", once).contains("MethodCall"));
        assert_eq!(format!("{:?}", twice), format!("{:?}", once));
    }
}
