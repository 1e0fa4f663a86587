use rune::code::{Arith, Callee, Op, Width};
use rune::codegen::{declare_builtin, ModuleCode};
use rune::{
    build_object, monomorphize_module, with_prelude, Checker, Codegen, CodegenError, HirItem, HirModule, Lexer, Lowerer, Module,
    OptLevel, Parser, Resolver, SymbolKind, PRELUDE,
};

fn parsed(src: &str) -> Module {
    let (tokens, lex_errors) = Lexer::new(src).tokenize();
    assert!(lex_errors.is_empty(), "{:?}", lex_errors);
    let (module, parse_errors) = Parser::new(tokens).parse_module();
    assert!(parse_errors.is_empty(), "{:?}", parse_errors);
    module
}

fn resolve_errors(src: &str) -> Vec<String> {
    let module = parsed(src);
    let (_, errs) = Resolver::new().resolve_module(&module);
    errs.iter().map(|e| e.message.clone()).collect()
}

fn type_errors(src: &str) -> Vec<String> {
    let module = parsed(src);
    let (res, errs) = Resolver::new().resolve_module(&module);
    assert!(errs.is_empty(), "{:?}", errs);
    Checker::new(&res).check_module(&module).errors.iter().map(|e| e.message.clone()).collect()
}

fn lowered(src: &str) -> HirModule {
    let module = parsed(src);
    let (res, errs) = Resolver::new().resolve_module(&module);
    assert!(errs.is_empty(), "{:?}", errs);
    let check = Checker::new(&res).check_module(&module);
    assert!(check.errors.is_empty(), "{:?}", check.errors);
    let mut hir = Lowerer::new(&res, &check).lower_module(&module);
    assert!(monomorphize_module(&mut hir).is_ok());
    hir
}

fn compiled(src: &str) -> Result<ModuleCode, String> {
    Codegen::new().compile_module(&lowered(src)).map_err(|e| e.0)
}

fn code_of(src: &str, name: &str) -> Vec<Op> {
    let code = compiled(src).expect("code");
    code.fns.into_iter().find(|f| f.name == name).expect("the function").ops
}

fn shown(ops: &[Op]) -> Vec<String> {
    ops.iter().map(|o| format!("{:?}", o)).collect()
}

// ---- names ----

#[test]
fn a_block_leaves_no_names() {
    assert_eq!(resolve_errors("fn f() { { let x = 1; } x; }"), vec!["unresolved name `x`"]);
    assert_eq!(resolve_errors("fn f() { let x = 1; { let x = 2; } x; }"), Vec::<String>::new());
}

#[test]
fn a_binding_does_not_see_itself() {
    assert_eq!(resolve_errors("fn f() { let x = x; }"), vec!["unresolved name `x`"]);
}

#[test]
fn private_items_stay_inside_their_module() {
    let src = "mod m { fn g() { } pub fn h() { g(); } mod n { fn k() { g(); } } } fn f() { m::h(); m::g(); }";
    assert_eq!(resolve_errors(src), vec!["`g` is private to module `m`"]);
}

#[test]
fn imports_and_globs() {
    let src = "mod m { pub fn g() { } fn h() { } } use m::g as k; use m::*; fn f() { k(); g(); }";
    assert_eq!(resolve_errors(src), Vec::<String>::new());
    assert_eq!(
        resolve_errors("use nowhere::x; use nowhere::*;"),
        vec!["unresolved import `nowhere::x`", "unresolved glob import `nowhere::*` — no such module"]
    );
}

#[test]
fn a_path_that_leads_nowhere() {
    assert_eq!(resolve_errors("fn f() { a::b; }"), vec!["unresolved path `a::b`"]);
    assert_eq!(resolve_errors("enum E { A } fn f() { E::B; }"), vec!["no variant `B` on that enum"]);
}

#[test]
fn impls_are_for_structs() {
    assert_eq!(
        resolve_errors("enum E { A } impl E { fn f() { } }"),
        vec!["`E` is not a struct; `impl` can only be applied to structs (for now)"]
    );
    assert_eq!(
        resolve_errors("struct S { x: i64 } impl S { fn f() { } fn f() { } }"),
        vec!["method `f` already defined on `S`"]
    );
}

#[test]
fn symbols_are_found_by_name() {
    let module = parsed("struct S { x: i64 } enum E { A } trait T { fn f(self: Self); }");
    let (res, errs) = Resolver::new().resolve_module(&module);
    assert!(errs.is_empty());
    let s = res.find_struct_sym("S").expect("the struct");
    assert_eq!(res.symbol(s).name, "S");
    assert!(matches!(res.symbol(s).kind, SymbolKind::Struct));
    assert!(res.find_enum_sym("E").is_some());
    assert!(res.find_trait_sym("T").is_some());
    assert!(res.find_struct_sym("E").is_none());
}

#[test]
fn errors_are_shown_with_their_place() {
    let module = parsed("fn f() { x; }");
    let (_, errs) = Resolver::new().resolve_module(&module);
    assert_eq!(errs[0].display(), "resolve error at 9..10: unresolved name `x`");
    let module = parsed("fn f() { if 1 { } }");
    let (res, _) = Resolver::new().resolve_module(&module);
    let check = Checker::new(&res).check_module(&module);
    assert!(check.errors[0].display().starts_with("type error at 12..13: "));
    let e = declare_builtin("nothing").err().expect("an error");
    assert_eq!(e.display(), "codegen error: unknown builtin `nothing`");
}

// ---- types ----

#[test]
fn a_struct_lays_its_fields_out_in_words() {
    let module = parsed("struct S { a: i64, b: bool, c: str }");
    let (res, _) = Resolver::new().resolve_module(&module);
    let check = Checker::new(&res).check_module(&module);
    let layout = check.struct_layouts.get(&res.find_struct_sym("S").expect("S")).expect("a layout");
    assert_eq!(layout.size, 24);
    assert_eq!(layout.field("a").map(|f| f.offset), Some(0));
    assert_eq!(layout.field("b").map(|f| f.offset), Some(8));
    assert_eq!(layout.field("c").map(|f| f.offset), Some(16));
    assert!(layout.field("d").is_none());
}

#[test]
fn a_match_must_cover_its_type() {
    assert_eq!(
        type_errors("fn f(b: bool) -> i64 { match b { true => 1 } }"),
        vec!["non-exhaustive `match` on `bool`: missing arms for false"]
    );
    assert_eq!(
        type_errors("enum E { A, B, C } fn f(e: E) -> i64 { match e { E::A => 1 } }"),
        vec!["non-exhaustive `match` on enum `E`: missing arms for B, C"]
    );
    assert_eq!(
        type_errors("fn f(n: i64) -> i64 { match n { 1 => 1 } }"),
        vec!["non-exhaustive `match` on `i64`: add a `_` arm to catch the rest"]
    );
    assert_eq!(
        type_errors("enum E { A, B } fn f(e: E) -> i64 { match e { E::A => 1, E::B => 2 } }"),
        Vec::<String>::new()
    );
    assert_eq!(type_errors("fn f(n: i64) -> i64 { match n { 1 => 1, _ => 2 } }"), Vec::<String>::new());
}

#[test]
fn arms_that_are_never_reached() {
    assert_eq!(
        type_errors("fn f(n: i64) -> i64 { match n { _ => 1, 2 => 2 } }"),
        vec!["unreachable match arm — an earlier arm covers everything"]
    );
    assert_eq!(
        type_errors("fn f(n: i64) -> i64 { match n { 2 => 1, 2 => 2, _ => 3 } }"),
        vec!["unreachable arm — `2` was already covered"]
    );
}

#[test]
fn a_guarded_arm_covers_nothing() {
    assert_eq!(
        type_errors("fn f(b: bool) -> i64 { match b { true => 1, false if b => 2 } }"),
        vec!["non-exhaustive `match` on `bool`: missing arms for false"]
    );
}

#[test]
fn casts_between_kinds() {
    assert_eq!(type_errors("fn f(b: bool) -> i64 { b as i64 }"), Vec::<String>::new());
    assert_eq!(type_errors("fn f(s: str) -> i64 { s as i64 }"), vec!["cannot cast `str` to `i64`"]);
}

// ---- code ----

#[test]
fn a_small_program_compiles() {
    let src = "fn main() -> i64 { let mut s = 0; for i in 0..10 { s += i; } s }";
    assert!(compiled(src).is_ok());
}

#[test]
fn the_prelude_compiles() {
    let src = with_prelude("fn main() -> i64 { std::max(1, 2) }");
    assert!(src.starts_with(PRELUDE));
    assert!(src.ends_with("\nfn main() -> i64 { std::max(1, 2) }"));
    assert!(compiled(&src).is_ok());
}

#[test]
fn the_code_of_a_sum() {
    let ops = code_of("fn add(a: i64, b: i64) -> i64 { a + b }", "add");
    assert_eq!(
        shown(&ops),
        vec![
            "Block", "Switch(0)", "Seal(0)", "Var(I64)", "Param(0)", "Assign(3, 4)", "Var(I64)", "Param(1)",
            "Assign(6, 7)", "Read(3)", "Read(6)", "Arith(Add, 9, 10)", "Return([11])"
        ]
    );
}

#[test]
fn signs_choose_the_operation() {
    let signed = code_of("fn d(a: i64, b: i64) -> i64 { a / b }", "d");
    assert!(signed.iter().any(|o| matches!(o, Op::Arith(Arith::SDiv, _, _))));
    let unsigned = code_of("fn d(a: u64, b: u64) -> u64 { a / b }", "d");
    assert!(unsigned.iter().any(|o| matches!(o, Op::Arith(Arith::UDiv, _, _))));
}

#[test]
fn an_index_is_checked() {
    let ops = code_of("fn f(i: i64) -> i64 { let a = [1, 2, 3]; a[i] }", "f");
    assert!(ops.iter().any(|o| matches!(o, Op::Call(Callee::Runtime(n), _) if n == "panic_bounds")));
    assert!(ops.iter().any(|o| matches!(o, Op::Trap(1))));
}

#[test]
fn counted_locals_are_released_where_their_block_ends() {
    let src = "fn f() -> i64 { let v: Vec<i64> = vec_new(); v.push(1); v.len() }";
    let ops = code_of(src, "f");
    let released = ops
        .iter()
        .filter(|o| matches!(o, Op::Call(Callee::Runtime(n), _) if n == "release_vec"))
        .count();
    assert_eq!(released, 1);
}

#[test]
fn operands_are_made_before_they_are_used() {
    let src = "fn f(n: i64) -> i64 { let mut s = 0; while s < n { if s == 3 { break; } s += 1; } match s { 1 => 2, _ => s } }";
    for (i, op) in code_of(src, "f").iter().enumerate() {
        match op {
            Op::Arith(_, l, r) | Op::Compare(_, l, r) | Op::Assign(l, r) => assert!(*l < i && *r < i),
            Op::Read(x) | Op::Switch(x) | Op::Seal(x) | Op::Jump(x, _) => assert!(*x < i),
            Op::Branch(c, a, b) => assert!(*c < i && *a < i && *b < i),
            _ => {}
        }
    }
}

#[test]
fn generic_functions_become_concrete() {
    let hir = lowered("fn id<T>(x: T) -> T { x } fn main() -> i64 { if id(true) { id(1) } else { 2 } }");
    let names: Vec<&str> = hir
        .items
        .iter()
        .map(|i| match i {
            HirItem::Fn(f) => f.name.as_str(),
        })
        .collect();
    assert_eq!(names.len(), 3);
    assert!(names.contains(&"main") && !names.contains(&"id"));
}

#[test]
fn a_module_without_main_makes_no_executable() {
    let mut hir = lowered("fn f() -> i64 { 1 }");
    match build_object(&mut hir) {
        Err(e) => assert_eq!(e.0, "no `main` function in module"),
        Ok(_) => panic!("there is no main"),
    }
}

#[test]
fn main_is_renamed_and_wrapped() {
    let mut hir = lowered("fn main() -> i64 { 7 }");
    let code = build_object(&mut hir).expect("code");
    assert_eq!(code.module.fns[0].name, "__rune_main");
    assert_eq!(code.module.fns[0].ret, Some(Width::I64));
    assert_eq!(code.rune_main, code.module.fns[0].sym);
    let entry = shown(&code.main);
    assert_eq!(entry.len(), 6);
    assert_eq!(&entry[4], "Convert(Truncate, I32, 3)");
    assert_eq!(&entry[5], "Return([4])");
}

#[test]
fn runtime_functions_by_their_short_names() {
    let f = declare_builtin("str_slice").expect("a runtime function");
    assert_eq!((f.name, f.params, f.ret), ("rune_str_slice", 3, Some(Width::I64)));
    match declare_builtin("nothing") {
        Err(e) => assert_eq!(e.0, "unknown builtin `nothing`"),
        Ok(_) => panic!("no such function"),
    }
}

#[test]
fn what_has_no_code_is_refused() {
    assert_eq!(compiled("fn f(a: f64, b: f64) -> f64 { a % b }").err(), Some("float modulo not supported".to_string()));
    assert!(compiled("fn f() { break; }").is_err());
}

#[test]
fn declared_functions_are_known_afterwards() {
    let hir = lowered("fn f() -> bool { true } fn g() { }");
    let mut cg = Codegen::new();
    let code = cg.compile_module(&hir).expect("code");
    assert_eq!(cg.func_id(code.fns[0].sym), Some(Some(Width::I8)));
    assert_eq!(cg.func_id(code.fns[1].sym), Some(None));
    assert_eq!(cg.func_id(rune::SymbolId(9999)), None);
}

#[test]
fn a_failed_declaration_leaves_those_before_it() {
    let hir = lowered("fn f() -> bool { true } fn g(m: HashMap<i64, i64>) { } fn h() -> i64 { 1 }");
    let syms: Vec<rune::SymbolId> = hir.items.iter().map(|HirItem::Fn(f)| f.sym).collect();
    let mut cg = Codegen::new();
    assert!(cg.compile_module(&hir).is_err());
    assert_eq!(cg.func_id(syms[0]), Some(Some(Width::I8)));
    assert_eq!(cg.func_id(syms[1]), None);
    assert_eq!(cg.func_id(syms[2]), None);
}

#[test]
fn levels_of_optimization_have_names() {
    assert_eq!(OptLevel::Unoptimized.as_str(), "none");
    assert_eq!(OptLevel::Speed.as_str(), "speed");
    assert_eq!(OptLevel::SpeedAndSize.as_str(), "speed_and_size");
}

#[test]
fn errors_are_made_from_texts() {
    assert_eq!(CodegenError::from("no main").display(), "codegen error: no main");
    assert_eq!(CodegenError::from("no main".to_string()).0, "no main");
}

#[test]
fn release_functions_are_named_by_their_type() {
    let code = compiled("fn main() -> i64 { let a = [[1, 2], [3, 4]]; let b = [true]; a[0][0] }").expect("code");
    assert_eq!(code.arrays.len(), 3);
    for f in &code.arrays {
        assert!(f.name.starts_with("__rune_release_array$Arr"), "{}", f.name);
    }
}
