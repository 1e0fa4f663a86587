use rune::{expand_modules, Expansion, Parser, TokenKind};

fn expand(main: &str, files: &[(&str, &str)]) -> Expansion {
    let owned: Vec<(String, String)> = files.iter().map(|(n, s)| (n.to_string(), s.to_string())).collect();
    let loader = move |name: &str| owned.iter().find(|f| f.0 == name).map(|f| f.1.clone());
    expand_modules(main, "main.rn", &loader)
}

fn kinds(e: &Expansion) -> Vec<String> {
    e.tokens.iter().map(|t| format!("{:?}", t.kind)).collect()
}

#[test]
fn a_source_without_modules_is_left_as_it_is() {
    let e = expand("mod a { } fn f", &[]);
    assert_eq!(kinds(&e), vec!["Mod", "Ident(\"a\")", "LBrace", "RBrace", "Fn", "Ident(\"f\")", "Eof"]);
    assert!(!e.source_map.is_multi_file());
    assert!(e.module_errors.is_empty() && e.lex_errors.is_empty());
    assert_eq!(e.source_map.summary(), "  main.rn: 0..14");
}

#[test]
fn a_module_is_put_in_place() {
    let e = expand("mod a; x", &[("a", "fn g")]);
    assert_eq!(
        kinds(&e),
        vec!["Mod", "Ident(\"a\")", "LBrace", "Fn", "Ident(\"g\")", "RBrace", "Ident(\"x\")", "Eof"]
    );
    assert!(e.source_map.is_multi_file());
    assert_eq!(e.source_map.summary(), "  main.rn: 0..8\n  a.rn: 9..13");
    assert_eq!(e.tokens[3].span.start, 9);
    assert_eq!(e.tokens[2].span, e.tokens[5].span);
}

#[test]
fn nested_modules_are_loaded_too() {
    let e = expand("mod a { mod b; }", &[("b", "mod c; fn f"), ("c", "fn g")]);
    assert_eq!(e.source_map.summary(), "  main.rn: 0..16\n  b.rn: 17..28\n  c.rn: 29..33");
    let tokens = e.tokens;
    assert!(matches!(tokens[tokens.len() - 1].kind, TokenKind::Eof));
    let names: Vec<String> = tokens
        .iter()
        .filter_map(|t| match &t.kind {
            TokenKind::Ident(n) => Some(n.clone()),
            _ => None,
        })
        .collect();
    assert_eq!(names, vec!["a", "b", "c", "g", "f"]);
}

#[test]
fn a_missing_file_is_reported() {
    let e = expand("mod a;", &[]);
    assert_eq!(e.module_errors.len(), 1);
    assert_eq!(e.module_errors[0].display(), "module error at 4..5: cannot find module file `a.rn`");
    assert_eq!(kinds(&e), vec!["Mod", "Ident(\"a\")", "LBrace", "RBrace", "Eof"]);
}

#[test]
fn a_cycle_is_reported() {
    let e = expand("mod a;", &[("a", "mod b;"), ("b", "mod a;")]);
    assert_eq!(e.module_errors.len(), 1);
    assert_eq!(
        e.module_errors[0].message,
        "circular module dependency — `a` is already being loaded"
    );
}

#[test]
fn a_module_may_be_loaded_twice_side_by_side() {
    let e = expand("mod a { mod c; } mod b { mod c; }", &[("c", "fn g() { }")]);
    assert!(e.module_errors.is_empty());
    assert_eq!(e.source_map.summary(), "  main.rn: 0..33\n  c.rn: 34..44\n  c.rn: 45..55");
}

#[test]
fn offsets_are_traced_back() {
    let e = expand("mod a;", &[("a", "fn g() { }")]);
    assert_eq!(e.source_map.locate(0), Some(("main.rn", 0)));
    assert_eq!(e.source_map.locate(5), Some(("main.rn", 5)));
    assert_eq!(e.source_map.locate(6), None);
    assert_eq!(e.source_map.locate(7), Some(("a.rn", 0)));
    assert_eq!(e.source_map.locate(16), Some(("a.rn", 9)));
    assert_eq!(e.source_map.locate(17), None);
}

#[test]
fn lexical_errors_are_shifted() {
    let e = expand("mod a;", &[("a", " #")]);
    assert_eq!(e.lex_errors.len(), 1);
    assert_eq!((e.lex_errors[0].span.start, e.lex_errors[0].span.end), (8, 9));
}

#[test]
fn an_expansion_can_be_parsed() {
    let e = expand("mod a; fn main() -> i64 { a::g() }", &[("a", "pub fn g() -> i64 { 1 }")]);
    let (m, errs) = Parser::new(e.tokens).parse_module();
    assert!(errs.is_empty());
    assert_eq!(m.items.len(), 2);
}

#[test]
fn every_module_is_in_place_whatever_is_loaded() {
    let calls = std::cell::Cell::new(0);
    let loader = |name: &str| {
        calls.set(calls.get() + 1);
        match (name, calls.get()) {
            ("a", 1) => Some("mod b; mod a;".to_string()),
            ("b", _) => Some("fn g() { }".to_string()),
            _ => None,
        }
    };
    let e = expand_modules("mod a; mod a;", "main.rn", &loader);
    for w in e.tokens.windows(3) {
        let declares = w[0].kind == TokenKind::Mod && matches!(w[1].kind, TokenKind::Ident(_));
        assert!(!declares || w[2].kind == TokenKind::LBrace);
    }
    assert_eq!(e.source_map.locate(0), Some(("main.rn", 0)));
    assert_eq!(calls.get(), 3);
    assert!(e.source_map.is_multi_file());
    assert_eq!(e.source_map.summary(), "  main.rn: 0..13\n  a.rn: 14..27\n  b.rn: 28..38");
    let messages: Vec<&str> = e.module_errors.iter().map(|x| x.message.as_str()).collect();
    assert_eq!(
        messages,
        vec!["circular module dependency — `a` is already being loaded", "cannot find module file `a.rn`"]
    );
}

#[test]
fn lexical_errors_lie_in_their_file() {
    let e = expand("# mod a;", &[("a", "fn g() { \"x")]);
    let places: Vec<Option<&str>> = e.lex_errors.iter().map(|x| e.source_map.locate(x.span.start).map(|l| l.0)).collect();
    assert_eq!(places, vec![Some("main.rn"), Some("a.rn")]);
}
