use rune::lexer::unexpected_message;
use rune::ty::{FloatTy, IntTy};
use rune::{LexError, Lexer, Span, Token, TokenKind};

fn lex(src: &str) -> (Vec<Token>, Vec<LexError>) {
    Lexer::new(src).tokenize()
}

fn kinds(src: &str) -> Vec<String> {
    let (tokens, errors) = lex(src);
    assert!(errors.is_empty(), "{:?}", errors);
    tokens.iter().map(|t| format!("{:?}", t.kind)).collect()
}

fn errors(src: &str) -> Vec<String> {
    lex(src).1.iter().map(|e| e.display()).collect()
}

#[test]
fn keywords_and_names() {
    assert_eq!(
        kinds("let mut lets fn _x"),
        vec!["Let", "Mut", "Ident(\"lets\")", "Fn", "Ident(\"_x\")", "Eof"]
    );
}

#[test]
fn longest_symbol_wins() {
    assert_eq!(
        kinds("<<= << <= < ..= .. . -> - => == = :: :"),
        vec![
            "ShlEq", "Shl", "LtEq", "Lt", "DotDotEq", "DotDot", "Dot", "Arrow", "Minus", "FatArrow", "EqEq", "Eq",
            "ColonColon", "Colon", "Eof"
        ]
    );
}

#[test]
fn numbers_in_every_base() {
    let (tokens, errs) = lex("1_000 0xff 0b101 0o17 7u8 9i32");
    assert!(errs.is_empty());
    let values: Vec<(i64, Option<IntTy>)> = tokens
        .iter()
        .filter_map(|t| match t.kind {
            TokenKind::Int(v, s) => Some((v, s)),
            _ => None,
        })
        .collect();
    assert_eq!(
        values,
        vec![(1000, None), (255, None), (5, None), (15, None), (7, Some(IntTy::U8)), (9, Some(IntTy::I32))]
    );
}

#[test]
fn floats_keep_their_digits() {
    let (tokens, errs) = lex("1.5 2e3 4f32 1_0.2_5");
    assert!(errs.is_empty());
    let texts: Vec<(String, Option<FloatTy>)> = tokens
        .into_iter()
        .filter_map(|t| match t.kind {
            TokenKind::Float(v, s) => Some((v, s)),
            _ => None,
        })
        .collect();
    assert_eq!(
        texts,
        vec![
            ("1.5".to_string(), None),
            ("2e3".to_string(), None),
            ("4".to_string(), Some(FloatTy::F32)),
            ("10.25".to_string(), None)
        ]
    );
    for (digits, _) in &texts {
        assert!(digits.parse::<f64>().is_ok());
    }
}

#[test]
fn escapes_in_texts() {
    assert_eq!(kinds(r#""a\n\"\\" '\t' 'x'"#), vec!["Str(\"a\\n\\\"\\\\\")", "Char('\\t')", "Char('x')", "Eof"]);
}

#[test]
fn comments_and_white_space_are_passed_over() {
    assert_eq!(kinds("a // b\n /* c /* d */ e */ f"), vec!["Ident(\"a\")", "Ident(\"f\")", "Eof"]);
}

#[test]
fn spans_count_bytes() {
    let (tokens, errs) = lex("\"é\" x");
    assert!(errs.is_empty());
    let spans: Vec<Span> = tokens.iter().map(|t| t.span).collect();
    assert_eq!(spans, vec![Span::new(0, 4), Span::new(5, 6), Span::new(6, 6)]);
}

#[test]
fn an_empty_source_has_only_an_end() {
    let (tokens, errs) = lex("");
    assert!(errs.is_empty());
    assert_eq!(tokens.len(), 1);
    assert!(matches!(tokens[0].kind, TokenKind::Eof));
    assert_eq!(tokens[0].span, Span::new(0, 0));
}

#[test]
fn one_end_token_at_the_end_of_the_text() {
    let src = "fn f() { 1 + 2 } # 'ab";
    let (tokens, _) = lex(src);
    let ends: Vec<usize> =
        tokens.iter().enumerate().filter(|(_, t)| matches!(t.kind, TokenKind::Eof)).map(|(i, _)| i).collect();
    assert_eq!(ends, vec![tokens.len() - 1]);
    assert_eq!(tokens[tokens.len() - 1].span, Span::new(src.len(), src.len()));
}

#[test]
fn spans_follow_one_another() {
    let (tokens, _) = lex("let x = a.b(c) >> 2; \"t\" 'c' 0x1f");
    for pair in tokens.windows(2) {
        assert!(pair[0].span.start < pair[0].span.end);
        assert!(pair[0].span.end <= pair[1].span.start);
    }
}

#[test]
fn a_stray_character_is_shown_and_passed_over() {
    let (tokens, errs) = lex("a # b");
    assert_eq!(tokens.len(), 3);
    assert_eq!(errs.len(), 1);
    assert_eq!(errs[0].message, "unexpected character '#'");
    assert_eq!(errs[0].span, Span::new(2, 3));
    assert_eq!(unexpected_message("'#'"), "unexpected character '#'");
}

#[test]
fn every_lexical_error() {
    assert_eq!(errors("\"abc"), vec!["lex error at 0..4: unterminated string literal"]);
    assert_eq!(errors("\"a\nb"), vec!["lex error at 0..3: unterminated string literal"]);
    assert_eq!(errors("\"\\q\""), vec!["lex error at 0..3: invalid escape sequence in string"]);
    assert_eq!(errors("''"), vec!["lex error at 0..2: empty char literal"]);
    assert_eq!(errors("'ab'").first().map(|s| s.as_str()), Some("lex error at 0..2: expected closing ' in char literal"));
    assert_eq!(errors("'"), vec!["lex error at 0..1: unterminated char literal"]);
    assert_eq!(errors("'\\q'"), vec!["lex error at 0..3: invalid escape sequence in char literal"]);
    assert_eq!(errors("/* a"), vec!["lex error at 0..4: unterminated block comment"]);
    assert_eq!(errors("0x"), vec!["lex error at 0..2: expected digits after numeric base prefix"]);
    assert_eq!(errors("0b1f32"), vec!["lex error at 0..6: float suffix on a radix-prefixed integer literal"]);
    assert_eq!(errors("1.5i32"), vec!["lex error at 0..6: integer suffix on a float literal"]);
    assert_eq!(
        errors("99999999999999999999"),
        vec!["lex error at 0..20: invalid integer literal '99999999999999999999'"]
    );
    assert_eq!(errors("1e"), vec!["lex error at 0..2: invalid float literal '1e'"]);
}

#[test]
fn errors_lie_inside_the_text() {
    for src in ["#", "a \"open", "'", "1 $ \"\\q\" 0x", "é € /* "] {
        for e in lex(src).1 {
            assert!(e.span.start <= e.span.end && e.span.end <= src.len(), "{:?} in {:?}", e, src);
        }
    }
}

#[test]
fn names_and_keywords_spell_the_source() {
    let src = "fn main_2 ( ) { let _x = while9 ; }";
    for t in lex(src).0 {
        let text = &src[t.span.start..t.span.end];
        match t.kind {
            TokenKind::Ident(n) => assert_eq!(n, text),
            TokenKind::Fn => assert_eq!(text, "fn"),
            TokenKind::Let => assert_eq!(text, "let"),
            _ => {}
        }
    }
}

#[test]
fn tokens_and_errors_can_be_copied_and_held_together() {
    let (tokens, errs) = lex("x + 1 #");
    assert_eq!(tokens.clone(), tokens);
    assert_eq!(errs.clone(), errs);
    assert_ne!(tokens[0], tokens[1]);
}
