use rune::ast::{BinOp, Expr, Item, Lit, Module, Pattern, Stmt, Type, UnOp, VariantFields, Visibility};
use rune::{Lexer, ParseError, Parser, Span};

fn parse(src: &str) -> (Module, Vec<ParseError>) {
    let (tokens, errs) = Lexer::new(src).tokenize();
    assert!(errs.is_empty(), "{:?}", errs);
    Parser::new(tokens).parse_module()
}

fn clean(src: &str) -> Module {
    let (m, errs) = parse(src);
    assert!(errs.is_empty(), "{:?}", errs);
    m
}

fn expr(src: &str) -> Expr {
    let (tokens, _) = Lexer::new(src).tokenize();
    Parser::new(tokens).parse_expr().expect("an expression")
}

fn messages(src: &str) -> Vec<String> {
    parse(src).1.iter().map(|e| e.display()).collect()
}

/// An expression with every operation in brackets.
fn shown(e: &Expr) -> String {
    match e {
        Expr::Lit { lit: Lit::Int(v, _), .. } => format!("{}", v),
        Expr::Path(p) => p.segments.iter().map(|s| s.name.clone()).collect::<Vec<_>>().join("::"),
        Expr::Unary { op, expr, .. } => format!("({:?} {})", op, shown(expr)),
        Expr::Binary { op, lhs, rhs, .. } => format!("({} {:?} {})", shown(lhs), op, shown(rhs)),
        Expr::Assign { lhs, rhs, .. } => format!("({} = {})", shown(lhs), shown(rhs)),
        Expr::AssignOp { op, lhs, rhs, .. } => format!("({} {:?}= {})", shown(lhs), op, shown(rhs)),
        Expr::Cast { expr, .. } => format!("({} as)", shown(expr)),
        Expr::Call { callee, args, .. } => {
            format!("{}({})", shown(callee), args.iter().map(shown).collect::<Vec<_>>().join(", "))
        }
        Expr::MethodCall { receiver, method, args, .. } => {
            format!("{}.{}({})", shown(receiver), method.name, args.iter().map(shown).collect::<Vec<_>>().join(", "))
        }
        Expr::Field { receiver, name, .. } => format!("{}.{}", shown(receiver), name.name),
        Expr::Index { receiver, index, .. } => format!("{}[{}]", shown(receiver), shown(index)),
        Expr::Try { expr, .. } => format!("{}?", shown(expr)),
        Expr::Range { start: Some(a), end: Some(b), inclusive, .. } => {
            format!("({} {} {})", shown(a), if *inclusive { "..=" } else { ".." }, shown(b))
        }
        other => format!("{:?}", other),
    }
}

#[test]
fn operators_bind_by_precedence() {
    assert_eq!(shown(&expr("1 + 2 * 3 - 4")), "((1 Add (2 Mul 3)) Sub 4)");
    assert_eq!(shown(&expr("a || b && c == d")), "(a Or (b And (c Eq d)))");
    assert_eq!(shown(&expr("a | b ^ c & d << 1 + 2")), "(a BitOr (b BitXor (c BitAnd (d Shl (1 Add 2)))))");
    assert_eq!(shown(&expr("0 .. n + 1")), "(0 .. (n Add 1))");
    assert_eq!(shown(&expr("a ..= b")), "(a ..= b)");
    assert_eq!(shown(&expr("x as i64 * 2")), "((x as) Mul 2)");
}

#[test]
fn assignment_binds_to_the_right() {
    assert_eq!(shown(&expr("a = b = c + 1")), "(a = (b = (c Add 1)))");
    assert_eq!(shown(&expr("a += b -= 1")), "(a Add= (b Sub= 1))");
}

#[test]
fn postfixes_bind_tighter_than_prefixes() {
    assert_eq!(shown(&expr("!f(x)")), "(Not f(x))");
    assert_eq!(shown(&expr("-a.b[0]? + 1")), "((Neg a.b[0]?) Add 1)");
    assert_eq!(shown(&expr("~ - x")), "(BitNot (Neg x))");
    assert_eq!(shown(&expr("a.m(1, 2,).n")), "a.m(1, 2).n");
}

#[test]
fn spans_cover_what_they_name() {
    let e = expr("  1 + 23");
    assert_eq!(e.span(), Span::new(2, 8));
    let m = clean("fn f() { }\n");
    assert_eq!(m.span, Span::new(0, 11));
    match &m.items[0] {
        Item::Fn(f) => assert_eq!(f.span, Span::new(0, 10)),
        _ => panic!("a function"),
    }
}

#[test]
fn closing_angles_are_split() {
    let m = clean("fn f(a: Vec<Vec<i64>>) -> Weak<Vec<Vec<i64>>> { a }");
    let Item::Fn(f) = &m.items[0] else { panic!("a function") };
    let Type::Path(p) = &f.params[0].ty else { panic!("a path") };
    assert_eq!(p.span, Span::new(8, 21));
    let Type::Path(inner) = &p.generic_args[0] else { panic!("a path") };
    assert_eq!(inner.span, Span::new(12, 20));
    assert_eq!(inner.generic_args.len(), 1);
}

#[test]
fn every_kind_of_item() {
    let m = clean(
        "pub struct P<T: A + B> { pub x: T, y: [i64; 3] }
         enum E { A, B(i64, str), C { n: i64 }, }
         trait T { type Item; fn next(self: Self) -> Self::Item; }
         impl<T> T for P<T> { type Item = i64; pub fn next<U>(self: Self) -> i64 { 1 } }
         mod m { const N: i64 = 2; }
         use m::N as K; use m::*;
         fn f(x: dyn T) { }",
    );
    let names: Vec<&str> = m
        .items
        .iter()
        .map(|i| match i {
            Item::Fn(_) => "fn",
            Item::Struct(_) => "struct",
            Item::Enum(_) => "enum",
            Item::Const(_) => "const",
            Item::Impl(_) => "impl",
            Item::Trait(_) => "trait",
            Item::Mod(_) => "mod",
            Item::Use(_) => "use",
        })
        .collect();
    assert_eq!(names, vec!["struct", "enum", "trait", "impl", "mod", "use", "use", "fn"]);
    let Item::Struct(s) = &m.items[0] else { panic!() };
    assert_eq!(s.vis, Visibility::Pub);
    assert_eq!(s.generics[0].bounds.len(), 2);
    assert!(matches!(s.fields[1].ty, Type::Array { len: 3, .. }));
    let Item::Enum(e) = &m.items[1] else { panic!() };
    assert!(matches!(e.variants[0].fields, VariantFields::Unit));
    assert!(matches!(&e.variants[1].fields, VariantFields::Tuple(ts) if ts.len() == 2));
    assert!(matches!(&e.variants[2].fields, VariantFields::Named(fs) if fs.len() == 1));
    let Item::Impl(i) = &m.items[3] else { panic!() };
    assert!(i.trait_path.is_some());
    assert_eq!(i.assoc_types.len(), 1);
    let generics: Vec<&str> = i.methods[0].generics.iter().map(|g| g.name.name.as_str()).collect();
    assert_eq!(generics, vec!["T", "U"]);
    assert_eq!(i.methods[0].vis, Visibility::Private);
    let Item::Use(u) = &m.items[5] else { panic!() };
    assert_eq!(u.alias.as_ref().map(|a| a.name.as_str()), Some("K"));
    let Item::Use(g) = &m.items[6] else { panic!() };
    assert!(g.glob && g.alias.is_none());
}

#[test]
fn a_brace_after_a_condition_opens_the_body() {
    let m = clean("fn f() { if x { } while y { } match z { _ => 1 } let p = P { a: 1, b: 2 }; }");
    let Item::Fn(f) = &m.items[0] else { panic!() };
    assert_eq!(f.body.stmts.len(), 4);
    let Stmt::Let(l) = &f.body.stmts[3] else { panic!() };
    assert!(matches!(&l.init, Some(Expr::StructLit { fields, .. }) if fields.len() == 2));
}

#[test]
fn patterns() {
    let m = clean(
        "fn f() { match x { -1 | 2 => 0, 'a'..='z' => 1, E::A(n, _) => 2, E::B { x, y: mut z } => 3, E::C => 4, k => 5 } }",
    );
    let Item::Fn(f) = &m.items[0] else { panic!() };
    let Stmt::Expr(Expr::Match { arms, .. }, false) = &f.body.stmts[0] else { panic!() };
    assert_eq!(arms.len(), 6);
    let Pattern::Or { patterns, .. } = &arms[0].pat else { panic!() };
    assert!(matches!(patterns[0], Pattern::Literal { lit: Lit::Int(-1, None), .. }));
    assert!(matches!(arms[1].pat, Pattern::Range { inclusive: true, .. }));
    assert!(matches!(&arms[2].pat, Pattern::TupleVariant { fields, .. } if matches!(fields[1], Pattern::Wildcard(_))));
    let Pattern::NamedVariant { fields, .. } = &arms[3].pat else { panic!() };
    assert!(matches!(&fields[0].1, Pattern::Ident { name, mutable: false, .. } if name.name == "x"));
    assert!(matches!(&fields[1].1, Pattern::Ident { mutable: true, .. }));
    assert!(matches!(arms[4].pat, Pattern::Path { .. }));
    assert!(matches!(arms[5].pat, Pattern::Ident { .. }));
}

#[test]
fn a_negated_float_in_a_pattern() {
    let m = clean("fn f() { match x { -1.5 => 0, _ => 1 } }");
    let Item::Fn(f) = &m.items[0] else { panic!() };
    let Stmt::Expr(Expr::Match { arms, .. }, _) = &f.body.stmts[0] else { panic!() };
    assert!(matches!(&arms[0].pat, Pattern::Literal { lit: Lit::Float(s, None), .. } if s == "-1.5"));
}

#[test]
fn an_else_if_is_an_if_in_the_else_branch() {
    let e = expr("if a { 1 } else if b { 2 } else { 3 }");
    let Expr::If { else_branch: Some(second), span, .. } = &e else { panic!() };
    assert_eq!(*span, Span::new(0, 37));
    assert!(matches!(&**second, Expr::If { else_branch: Some(last), .. } if matches!(**last, Expr::Block(_))));
}

#[test]
fn messages_name_what_was_found() {
    assert_eq!(messages("fn ()"), vec!["parse error at 3..4: expected identifier, found `LParen`"]);
    assert_eq!(messages("fn f"), vec!["parse error at 4..4: expected `(`, found end of input"]);
    assert_eq!(
        messages("7"),
        vec!["parse error at 0..1: expected item (fn, struct, enum, const), found integer `7`"]
    );
    assert_eq!(messages("fn f() { let x }"), vec!["parse error at 15..16: expected `;`, found `RBrace`"]);
    assert_eq!(
        messages("fn f() { a b }"),
        vec!["parse error at 11..12: expected `;` or `}` after expression, found identifier `b`"]
    );
    assert_eq!(messages("fn f() { + }"), vec!["parse error at 9..10: expected expression, found `Plus`"]);
    assert_eq!(
        messages("fn f() { match x { + => 1 } }"),
        vec!["parse error at 19..20: expected pattern, found `Plus`"]
    );
    assert_eq!(
        messages("fn f() { match x { -\"a\" => 1 } }"),
        vec!["parse error at 19..20: unary `-` is only valid on numeric literals in patterns"]
    );
    assert_eq!(
        messages("fn f() { match x { 1..y => 1 } }"),
        vec!["parse error at 22..23: expected literal, found identifier `y`"]
    );
    assert_eq!(
        messages("fn f(a: [i64; n]) { }"),
        vec!["parse error at 14..15: expected a non-negative array length"]
    );
    assert_eq!(messages("impl [i64; 2] { }"), vec!["parse error at 5..6: expected a type name after `impl`"]);
    assert_eq!(messages("fn f(a: Vec<i64) { }"), vec!["parse error at 15..16: expected `>`, found `RParen`"]);
    assert_eq!(messages("\"t\""), vec!["parse error at 0..3: expected item (fn, struct, enum, const), found string literal"]);
    assert_eq!(messages("'c'"), vec!["parse error at 0..3: expected item (fn, struct, enum, const), found char literal"]);
    assert_eq!(messages("2.5"), vec!["parse error at 0..3: expected item (fn, struct, enum, const), found float `2.5`"]);
}

#[test]
fn parsing_goes_on_at_the_next_item() {
    let (m, errs) = parse("fn a() { } nonsense ) struct S { x: i64 } fn b( fn c() { }");
    assert_eq!(errs.len(), 2);
    assert_eq!(m.items.len(), 3);
    assert!(matches!(&m.items[2], Item::Fn(f) if f.name.name == "c"));
}

#[test]
fn binary_and_unary_operators_are_told_apart() {
    assert!(matches!(expr("a - b"), Expr::Binary { op: BinOp::Sub, .. }));
    assert!(matches!(expr("- b"), Expr::Unary { op: UnOp::Neg, .. }));
}
