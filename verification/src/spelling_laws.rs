//! What the source says under a token: each symbol and keyword its own text, and
//! each literal its value.

use vstd::prelude::*;
use vstd::utf8::encode_utf8;

use crate::lexer::{
    Run, TokenV, base_of, char_at, char_from, cleaned, comment_end, decimal_ends, digit_value,
    digits_value, escaped, failing, in_run, is_digit, is_white, lexed, lexed_from, numeral,
    run_end, run_goes_on, span_between, starts_name, string_from, suffix_at, symbol_at, token_at,
    trivia,
};
use crate::lexer_laws::{
    is_keyword, number_goes_on, run_holds, string_goes_on, token_goes_on, trivia_goes_on,
};
use crate::token::{Span, TokenKind, TokenKindV, keyword};
use crate::ty::{FloatTy, IntTy, float_name, int_name};

verus! {

// ---- symbols and keywords ----

/// The text of a keyword or symbol. Tokens with data have none of their own.
pub open spec fn spelling(k: TokenKind) -> Seq<char> {
    match k {
        TokenKind::Let => "let"@,
        TokenKind::Mut => "mut"@,
        TokenKind::Fn => "fn"@,
        TokenKind::Return => "return"@,
        TokenKind::If => "if"@,
        TokenKind::Else => "else"@,
        TokenKind::While => "while"@,
        TokenKind::For => "for"@,
        TokenKind::In => "in"@,
        TokenKind::Break => "break"@,
        TokenKind::Continue => "continue"@,
        TokenKind::True => "true"@,
        TokenKind::False => "false"@,
        TokenKind::Struct => "struct"@,
        TokenKind::Enum => "enum"@,
        TokenKind::Match => "match"@,
        TokenKind::Pub => "pub"@,
        TokenKind::Const => "const"@,
        TokenKind::As => "as"@,
        TokenKind::Impl => "impl"@,
        TokenKind::Trait => "trait"@,
        TokenKind::Mod => "mod"@,
        TokenKind::Use => "use"@,
        TokenKind::Dyn => "dyn"@,
        TokenKind::Plus => seq!['+'],
        TokenKind::PlusEq => seq!['+', '='],
        TokenKind::Minus => seq!['-'],
        TokenKind::MinusEq => seq!['-', '='],
        TokenKind::Arrow => seq!['-', '>'],
        TokenKind::Star => seq!['*'],
        TokenKind::StarEq => seq!['*', '='],
        TokenKind::Slash => seq!['/'],
        TokenKind::SlashEq => seq!['/', '='],
        TokenKind::Percent => seq!['%'],
        TokenKind::PercentEq => seq!['%', '='],
        TokenKind::Eq => seq!['='],
        TokenKind::EqEq => seq!['=', '='],
        TokenKind::FatArrow => seq!['=', '>'],
        TokenKind::Bang => seq!['!'],
        TokenKind::BangEq => seq!['!', '='],
        TokenKind::Lt => seq!['<'],
        TokenKind::LtEq => seq!['<', '='],
        TokenKind::Shl => seq!['<', '<'],
        TokenKind::ShlEq => seq!['<', '<', '='],
        TokenKind::Gt => seq!['>'],
        TokenKind::GtEq => seq!['>', '='],
        TokenKind::Shr => seq!['>', '>'],
        TokenKind::ShrEq => seq!['>', '>', '='],
        TokenKind::Amp => seq!['&'],
        TokenKind::AmpAmp => seq!['&', '&'],
        TokenKind::AmpEq => seq!['&', '='],
        TokenKind::Pipe => seq!['|'],
        TokenKind::PipePipe => seq!['|', '|'],
        TokenKind::PipeEq => seq!['|', '='],
        TokenKind::Caret => seq!['^'],
        TokenKind::CaretEq => seq!['^', '='],
        TokenKind::Tilde => seq!['~'],
        TokenKind::Dot => seq!['.'],
        TokenKind::DotDot => seq!['.', '.'],
        TokenKind::DotDotEq => seq!['.', '.', '='],
        TokenKind::Colon => seq![':'],
        TokenKind::ColonColon => seq![':', ':'],
        TokenKind::Question => seq!['?'],
        TokenKind::LParen => seq!['('],
        TokenKind::RParen => seq![')'],
        TokenKind::LBrace => seq!['{'],
        TokenKind::RBrace => seq!['}'],
        TokenKind::LBracket => seq!['['],
        TokenKind::RBracket => seq![']'],
        TokenKind::Comma => seq![','],
        TokenKind::Semi => seq![';'],
        _ => seq![],
    }
}

/// The kinds that are symbols.
pub open spec fn is_symbol(k: TokenKind) -> bool {
    match k {
        TokenKind::Plus
        | TokenKind::PlusEq
        | TokenKind::Minus
        | TokenKind::MinusEq
        | TokenKind::Arrow
        | TokenKind::Star
        | TokenKind::StarEq
        | TokenKind::Slash
        | TokenKind::SlashEq
        | TokenKind::Percent
        | TokenKind::PercentEq
        | TokenKind::Eq
        | TokenKind::EqEq
        | TokenKind::FatArrow
        | TokenKind::Bang
        | TokenKind::BangEq
        | TokenKind::Lt
        | TokenKind::LtEq
        | TokenKind::Shl
        | TokenKind::ShlEq
        | TokenKind::Gt
        | TokenKind::GtEq
        | TokenKind::Shr
        | TokenKind::ShrEq
        | TokenKind::Amp
        | TokenKind::AmpAmp
        | TokenKind::AmpEq
        | TokenKind::Pipe
        | TokenKind::PipePipe
        | TokenKind::PipeEq
        | TokenKind::Caret
        | TokenKind::CaretEq
        | TokenKind::Tilde
        | TokenKind::Dot
        | TokenKind::DotDot
        | TokenKind::DotDotEq
        | TokenKind::Colon
        | TokenKind::ColonColon
        | TokenKind::Question
        | TokenKind::LParen
        | TokenKind::RParen
        | TokenKind::LBrace
        | TokenKind::RBrace
        | TokenKind::LBracket
        | TokenKind::RBracket
        | TokenKind::Comma
        | TokenKind::Semi => true,
        _ => false,
    }
}

/// Whether a text stands at a position.
pub open spec fn stands_at(cs: Seq<char>, i: nat, text: Seq<char>) -> bool {
    i + text.len() <= cs.len() && cs.subrange(i as int, i as int + text.len()) == text
}

/// The symbol read at a position is spelled there.
#[verifier::spinoff_prover]
proof fn symbols_are_spelled(cs: Seq<char>, i: nat)
    requires
        i < cs.len(),
    ensures
        symbol_at(cs, i) matches Some((k, n)) ==> is_symbol(k) && n == spelling(k).len() && stands_at(
            cs,
            i,
            spelling(k),
        ),
{
    if let Some((k, n)) = symbol_at(cs, i) {
        let x = spelling(k);
        assert(x.len() == n);
        assert(i + n <= cs.len());
        assert(cs.subrange(i as int, i as int + n) =~= x);
    }
}

/// A symbol that stands at a position is read there, or a longer one is that
/// begins with it.
#[verifier::spinoff_prover]
#[verifier::rlimit(50)]
pub proof fn the_longest_symbol_is_read(cs: Seq<char>, i: nat, k: TokenKind)
    requires
        is_symbol(k),
        stands_at(cs, i, spelling(k)),
    ensures
        symbol_at(cs, i) matches Some((found, n)) && n >= spelling(k).len() && (n == spelling(k).len() ==> found == k),
{
    let x = spelling(k);
    assert(x.len() > 0);
    assert(cs[i as int] == x[0]) by {
        assert(cs.subrange(i as int, i as int + x.len())[0] == x[0]);
    }
    if x.len() > 1 {
        assert(cs[i as int + 1] == x[1]) by {
            assert(cs.subrange(i as int, i as int + x.len())[1] == x[1]);
        }
    }
    if x.len() > 2 {
        assert(cs[i as int + 2] == x[2]) by {
            assert(cs.subrange(i as int, i as int + x.len())[2] == x[2]);
        }
    }
}

/// A keyword is read from its own text and from no other.
#[verifier::spinoff_prover]
#[verifier::rlimit(50)]
pub proof fn keywords_have_their_text(k: TokenKind)
    requires
        is_keyword(k),
    ensures
        keyword(spelling(k)) == Some(k),
        forall|s: Seq<char>| #[trigger] keyword(s) == Some(k) ==> s == spelling(k),
{
    reveal_strlit("let");
    reveal_strlit("mut");
    reveal_strlit("fn");
    reveal_strlit("return");
    reveal_strlit("if");
    reveal_strlit("else");
    reveal_strlit("while");
    reveal_strlit("for");
    reveal_strlit("in");
    reveal_strlit("break");
    reveal_strlit("continue");
    reveal_strlit("true");
    reveal_strlit("false");
    reveal_strlit("struct");
    reveal_strlit("enum");
    reveal_strlit("match");
    reveal_strlit("pub");
    reveal_strlit("const");
    reveal_strlit("as");
    reveal_strlit("impl");
    reveal_strlit("trait");
    reveal_strlit("mod");
    reveal_strlit("use");
    reveal_strlit("dyn");
    match k {
        TokenKind::Let => {
        },
        TokenKind::Mut => {
            assert("mut"@[0] != "let"@[0]);
        },
        TokenKind::Fn => {
            assert("fn"@.len() != "let"@.len());
            assert("fn"@.len() != "mut"@.len());
        },
        TokenKind::Return => {
            assert("return"@.len() != "let"@.len());
            assert("return"@.len() != "mut"@.len());
            assert("return"@.len() != "fn"@.len());
        },
        TokenKind::If => {
            assert("if"@.len() != "let"@.len());
            assert("if"@.len() != "mut"@.len());
            assert("if"@[0] != "fn"@[0]);
            assert("if"@.len() != "return"@.len());
        },
        TokenKind::Else => {
            assert("else"@.len() != "let"@.len());
            assert("else"@.len() != "mut"@.len());
            assert("else"@.len() != "fn"@.len());
            assert("else"@.len() != "return"@.len());
            assert("else"@.len() != "if"@.len());
        },
        TokenKind::While => {
            assert("while"@.len() != "let"@.len());
            assert("while"@.len() != "mut"@.len());
            assert("while"@.len() != "fn"@.len());
            assert("while"@.len() != "return"@.len());
            assert("while"@.len() != "if"@.len());
            assert("while"@.len() != "else"@.len());
        },
        TokenKind::For => {
            assert("for"@[0] != "let"@[0]);
            assert("for"@[0] != "mut"@[0]);
            assert("for"@.len() != "fn"@.len());
            assert("for"@.len() != "return"@.len());
            assert("for"@.len() != "if"@.len());
            assert("for"@.len() != "else"@.len());
            assert("for"@.len() != "while"@.len());
        },
        TokenKind::In => {
            assert("in"@.len() != "let"@.len());
            assert("in"@.len() != "mut"@.len());
            assert("in"@[0] != "fn"@[0]);
            assert("in"@.len() != "return"@.len());
            assert("in"@[1] != "if"@[1]);
            assert("in"@.len() != "else"@.len());
            assert("in"@.len() != "while"@.len());
            assert("in"@.len() != "for"@.len());
        },
        TokenKind::Break => {
            assert("break"@.len() != "let"@.len());
            assert("break"@.len() != "mut"@.len());
            assert("break"@.len() != "fn"@.len());
            assert("break"@.len() != "return"@.len());
            assert("break"@.len() != "if"@.len());
            assert("break"@.len() != "else"@.len());
            assert("break"@[0] != "while"@[0]);
            assert("break"@.len() != "for"@.len());
            assert("break"@.len() != "in"@.len());
        },
        TokenKind::Continue => {
            assert("continue"@.len() != "let"@.len());
            assert("continue"@.len() != "mut"@.len());
            assert("continue"@.len() != "fn"@.len());
            assert("continue"@.len() != "return"@.len());
            assert("continue"@.len() != "if"@.len());
            assert("continue"@.len() != "else"@.len());
            assert("continue"@.len() != "while"@.len());
            assert("continue"@.len() != "for"@.len());
            assert("continue"@.len() != "in"@.len());
            assert("continue"@.len() != "break"@.len());
        },
        TokenKind::True => {
            assert("true"@.len() != "let"@.len());
            assert("true"@.len() != "mut"@.len());
            assert("true"@.len() != "fn"@.len());
            assert("true"@.len() != "return"@.len());
            assert("true"@.len() != "if"@.len());
            assert("true"@[0] != "else"@[0]);
            assert("true"@.len() != "while"@.len());
            assert("true"@.len() != "for"@.len());
            assert("true"@.len() != "in"@.len());
            assert("true"@.len() != "break"@.len());
            assert("true"@.len() != "continue"@.len());
        },
        TokenKind::False => {
            assert("false"@.len() != "let"@.len());
            assert("false"@.len() != "mut"@.len());
            assert("false"@.len() != "fn"@.len());
            assert("false"@.len() != "return"@.len());
            assert("false"@.len() != "if"@.len());
            assert("false"@.len() != "else"@.len());
            assert("false"@[0] != "while"@[0]);
            assert("false"@.len() != "for"@.len());
            assert("false"@.len() != "in"@.len());
            assert("false"@[0] != "break"@[0]);
            assert("false"@.len() != "continue"@.len());
            assert("false"@.len() != "true"@.len());
        },
        TokenKind::Struct => {
            assert("struct"@.len() != "let"@.len());
            assert("struct"@.len() != "mut"@.len());
            assert("struct"@.len() != "fn"@.len());
            assert("struct"@[0] != "return"@[0]);
            assert("struct"@.len() != "if"@.len());
            assert("struct"@.len() != "else"@.len());
            assert("struct"@.len() != "while"@.len());
            assert("struct"@.len() != "for"@.len());
            assert("struct"@.len() != "in"@.len());
            assert("struct"@.len() != "break"@.len());
            assert("struct"@.len() != "continue"@.len());
            assert("struct"@.len() != "true"@.len());
            assert("struct"@.len() != "false"@.len());
        },
        TokenKind::Enum => {
            assert("enum"@.len() != "let"@.len());
            assert("enum"@.len() != "mut"@.len());
            assert("enum"@.len() != "fn"@.len());
            assert("enum"@.len() != "return"@.len());
            assert("enum"@.len() != "if"@.len());
            assert("enum"@[1] != "else"@[1]);
            assert("enum"@.len() != "while"@.len());
            assert("enum"@.len() != "for"@.len());
            assert("enum"@.len() != "in"@.len());
            assert("enum"@.len() != "break"@.len());
            assert("enum"@.len() != "continue"@.len());
            assert("enum"@[0] != "true"@[0]);
            assert("enum"@.len() != "false"@.len());
            assert("enum"@.len() != "struct"@.len());
        },
        TokenKind::Match => {
            assert("match"@.len() != "let"@.len());
            assert("match"@.len() != "mut"@.len());
            assert("match"@.len() != "fn"@.len());
            assert("match"@.len() != "return"@.len());
            assert("match"@.len() != "if"@.len());
            assert("match"@.len() != "else"@.len());
            assert("match"@[0] != "while"@[0]);
            assert("match"@.len() != "for"@.len());
            assert("match"@.len() != "in"@.len());
            assert("match"@[0] != "break"@[0]);
            assert("match"@.len() != "continue"@.len());
            assert("match"@.len() != "true"@.len());
            assert("match"@[0] != "false"@[0]);
            assert("match"@.len() != "struct"@.len());
            assert("match"@.len() != "enum"@.len());
        },
        TokenKind::Pub => {
            assert("pub"@[0] != "let"@[0]);
            assert("pub"@[0] != "mut"@[0]);
            assert("pub"@.len() != "fn"@.len());
            assert("pub"@.len() != "return"@.len());
            assert("pub"@.len() != "if"@.len());
            assert("pub"@.len() != "else"@.len());
            assert("pub"@.len() != "while"@.len());
            assert("pub"@[0] != "for"@[0]);
            assert("pub"@.len() != "in"@.len());
            assert("pub"@.len() != "break"@.len());
            assert("pub"@.len() != "continue"@.len());
            assert("pub"@.len() != "true"@.len());
            assert("pub"@.len() != "false"@.len());
            assert("pub"@.len() != "struct"@.len());
            assert("pub"@.len() != "enum"@.len());
            assert("pub"@.len() != "match"@.len());
        },
        TokenKind::Const => {
            assert("const"@.len() != "let"@.len());
            assert("const"@.len() != "mut"@.len());
            assert("const"@.len() != "fn"@.len());
            assert("const"@.len() != "return"@.len());
            assert("const"@.len() != "if"@.len());
            assert("const"@.len() != "else"@.len());
            assert("const"@[0] != "while"@[0]);
            assert("const"@.len() != "for"@.len());
            assert("const"@.len() != "in"@.len());
            assert("const"@[0] != "break"@[0]);
            assert("const"@.len() != "continue"@.len());
            assert("const"@.len() != "true"@.len());
            assert("const"@[0] != "false"@[0]);
            assert("const"@.len() != "struct"@.len());
            assert("const"@.len() != "enum"@.len());
            assert("const"@[0] != "match"@[0]);
            assert("const"@.len() != "pub"@.len());
        },
        TokenKind::As => {
            assert("as"@.len() != "let"@.len());
            assert("as"@.len() != "mut"@.len());
            assert("as"@[0] != "fn"@[0]);
            assert("as"@.len() != "return"@.len());
            assert("as"@[0] != "if"@[0]);
            assert("as"@.len() != "else"@.len());
            assert("as"@.len() != "while"@.len());
            assert("as"@.len() != "for"@.len());
            assert("as"@[0] != "in"@[0]);
            assert("as"@.len() != "break"@.len());
            assert("as"@.len() != "continue"@.len());
            assert("as"@.len() != "true"@.len());
            assert("as"@.len() != "false"@.len());
            assert("as"@.len() != "struct"@.len());
            assert("as"@.len() != "enum"@.len());
            assert("as"@.len() != "match"@.len());
            assert("as"@.len() != "pub"@.len());
            assert("as"@.len() != "const"@.len());
        },
        TokenKind::Impl => {
            assert("impl"@.len() != "let"@.len());
            assert("impl"@.len() != "mut"@.len());
            assert("impl"@.len() != "fn"@.len());
            assert("impl"@.len() != "return"@.len());
            assert("impl"@.len() != "if"@.len());
            assert("impl"@[0] != "else"@[0]);
            assert("impl"@.len() != "while"@.len());
            assert("impl"@.len() != "for"@.len());
            assert("impl"@.len() != "in"@.len());
            assert("impl"@.len() != "break"@.len());
            assert("impl"@.len() != "continue"@.len());
            assert("impl"@[0] != "true"@[0]);
            assert("impl"@.len() != "false"@.len());
            assert("impl"@.len() != "struct"@.len());
            assert("impl"@[0] != "enum"@[0]);
            assert("impl"@.len() != "match"@.len());
            assert("impl"@.len() != "pub"@.len());
            assert("impl"@.len() != "const"@.len());
            assert("impl"@.len() != "as"@.len());
        },
        TokenKind::Trait => {
            assert("trait"@.len() != "let"@.len());
            assert("trait"@.len() != "mut"@.len());
            assert("trait"@.len() != "fn"@.len());
            assert("trait"@.len() != "return"@.len());
            assert("trait"@.len() != "if"@.len());
            assert("trait"@.len() != "else"@.len());
            assert("trait"@[0] != "while"@[0]);
            assert("trait"@.len() != "for"@.len());
            assert("trait"@.len() != "in"@.len());
            assert("trait"@[0] != "break"@[0]);
            assert("trait"@.len() != "continue"@.len());
            assert("trait"@.len() != "true"@.len());
            assert("trait"@[0] != "false"@[0]);
            assert("trait"@.len() != "struct"@.len());
            assert("trait"@.len() != "enum"@.len());
            assert("trait"@[0] != "match"@[0]);
            assert("trait"@.len() != "pub"@.len());
            assert("trait"@[0] != "const"@[0]);
            assert("trait"@.len() != "as"@.len());
            assert("trait"@.len() != "impl"@.len());
        },
        TokenKind::Mod => {
            assert("mod"@[0] != "let"@[0]);
            assert("mod"@[1] != "mut"@[1]);
            assert("mod"@.len() != "fn"@.len());
            assert("mod"@.len() != "return"@.len());
            assert("mod"@.len() != "if"@.len());
            assert("mod"@.len() != "else"@.len());
            assert("mod"@.len() != "while"@.len());
            assert("mod"@[0] != "for"@[0]);
            assert("mod"@.len() != "in"@.len());
            assert("mod"@.len() != "break"@.len());
            assert("mod"@.len() != "continue"@.len());
            assert("mod"@.len() != "true"@.len());
            assert("mod"@.len() != "false"@.len());
            assert("mod"@.len() != "struct"@.len());
            assert("mod"@.len() != "enum"@.len());
            assert("mod"@.len() != "match"@.len());
            assert("mod"@[0] != "pub"@[0]);
            assert("mod"@.len() != "const"@.len());
            assert("mod"@.len() != "as"@.len());
            assert("mod"@.len() != "impl"@.len());
            assert("mod"@.len() != "trait"@.len());
        },
        TokenKind::Use => {
            assert("use"@[0] != "let"@[0]);
            assert("use"@[0] != "mut"@[0]);
            assert("use"@.len() != "fn"@.len());
            assert("use"@.len() != "return"@.len());
            assert("use"@.len() != "if"@.len());
            assert("use"@.len() != "else"@.len());
            assert("use"@.len() != "while"@.len());
            assert("use"@[0] != "for"@[0]);
            assert("use"@.len() != "in"@.len());
            assert("use"@.len() != "break"@.len());
            assert("use"@.len() != "continue"@.len());
            assert("use"@.len() != "true"@.len());
            assert("use"@.len() != "false"@.len());
            assert("use"@.len() != "struct"@.len());
            assert("use"@.len() != "enum"@.len());
            assert("use"@.len() != "match"@.len());
            assert("use"@[0] != "pub"@[0]);
            assert("use"@.len() != "const"@.len());
            assert("use"@.len() != "as"@.len());
            assert("use"@.len() != "impl"@.len());
            assert("use"@.len() != "trait"@.len());
            assert("use"@[0] != "mod"@[0]);
        },
        TokenKind::Dyn => {
            assert("dyn"@[0] != "let"@[0]);
            assert("dyn"@[0] != "mut"@[0]);
            assert("dyn"@.len() != "fn"@.len());
            assert("dyn"@.len() != "return"@.len());
            assert("dyn"@.len() != "if"@.len());
            assert("dyn"@.len() != "else"@.len());
            assert("dyn"@.len() != "while"@.len());
            assert("dyn"@[0] != "for"@[0]);
            assert("dyn"@.len() != "in"@.len());
            assert("dyn"@.len() != "break"@.len());
            assert("dyn"@.len() != "continue"@.len());
            assert("dyn"@.len() != "true"@.len());
            assert("dyn"@.len() != "false"@.len());
            assert("dyn"@.len() != "struct"@.len());
            assert("dyn"@.len() != "enum"@.len());
            assert("dyn"@.len() != "match"@.len());
            assert("dyn"@[0] != "pub"@[0]);
            assert("dyn"@.len() != "const"@.len());
            assert("dyn"@.len() != "as"@.len());
            assert("dyn"@.len() != "impl"@.len());
            assert("dyn"@.len() != "trait"@.len());
            assert("dyn"@[0] != "mod"@[0]);
            assert("dyn"@[0] != "use"@[0]);
        },
        _ => {},
    }
}

// ---- numbers ----

/// What a digit is worth.
pub open spec fn worth(c: char) -> int {
    if '0' <= c <= '9' {
        c as u32 - 48
    } else if 'a' <= c <= 'f' {
        c as u32 - 87
    } else if 'A' <= c <= 'F' {
        c as u32 - 55
    } else {
        -1
    }
}

/// The number that digits and separators stand for: each place is worth the
/// base times the next one.
pub open spec fn place_value(x: Seq<char>, base: int) -> int
    decreases x.len(),
{
    if x.len() == 0 {
        0
    } else if x.last() == '_' {
        place_value(x.drop_last(), base)
    } else {
        place_value(x.drop_last(), base) * base + worth(x.last())
    }
}

pub open spec fn digits_of(x: Seq<char>, base: int) -> bool {
    forall|i: int| 0 <= i < x.len() ==> #[trigger] x[i] == '_' || 0 <= worth(x[i]) < base
}

/// The base that a number is written in, and where its digits begin.
pub open spec fn written_base(x: Seq<char>) -> (int, nat) {
    if x.len() >= 2 && x[0] == '0' && (x[1] == 'x' || x[1] == 'X') {
        (16, 2)
    } else if x.len() >= 2 && x[0] == '0' && (x[1] == 'o' || x[1] == 'O') {
        (8, 2)
    } else if x.len() >= 2 && x[0] == '0' && (x[1] == 'b' || x[1] == 'B') {
        (2, 2)
    } else {
        (10, 0)
    }
}

/// A text that writes an integer.
pub open spec fn writes_integer(x: Seq<char>, v: int) -> bool {
    let (base, from) = written_base(x);
    digits_of(x.skip(from as int), base) && v == place_value(x.skip(from as int), base)
}

pub open spec fn int_suffix(t: Option<IntTy>) -> Seq<char> {
    match t {
        Some(t) => int_name(t),
        None => seq![],
    }
}

pub open spec fn float_suffix(t: Option<FloatTy>) -> Seq<char> {
    match t {
        Some(t) => float_name(t),
        None => seq![],
    }
}

/// Whether a text is the source of an integer: digits, then the name of its
/// type where it has one.
pub open spec fn is_integer_text(text: Seq<char>, v: int, t: Option<IntTy>) -> bool {
    exists|d: int|
        0 <= d <= text.len() && writes_integer(#[trigger] text.take(d), v) && text.skip(d) == int_suffix(t)
}

/// Whether a text is the source of a float: its digits with separators among
/// them, then the name of its type where it has one. Without that name there is
/// a point or an exponent.
pub open spec fn is_float_text(text: Seq<char>, digits: Seq<char>, t: Option<FloatTy>) -> bool {
    exists|d: int|
        {
            &&& 0 <= d <= text.len()
            &&& digits == (#[trigger] text.take(d)).filter(|c: char| c != '_')
            &&& text.skip(d) == float_suffix(t)
            &&& t is Some || text.take(d).contains('.') || text.take(d).contains('e') || text.take(d).contains('E')
        }
}

proof fn cleaning_is_filtering(x: Seq<char>)
    ensures
        cleaned(x) == x.filter(|c: char| c != '_'),
    decreases x.len(),
{
    reveal(Seq::filter);
    if x.len() > 0 {
        cleaning_is_filtering(x.drop_last());
    }
}

proof fn values_are_place_values(x: Seq<char>, base: nat)
    requires
        digits_of(x, base as int),
        base <= 16,
    ensures
        digits_value(cleaned(x), base) == place_value(x, base as int),
    decreases x.len(),
{
    if x.len() > 0 {
        assert(digits_of(x.drop_last(), base as int)) by {
            assert forall|i: int| 0 <= i < x.drop_last().len() implies #[trigger] x.drop_last()[i] == '_' || 0
                <= worth(x.drop_last()[i]) < base by {
                assert(x.drop_last()[i] == x[i]);
            }
        }
        values_are_place_values(x.drop_last(), base);
        if x.last() != '_' {
            let c = cleaned(x.drop_last());
            assert(c.push(x.last()).drop_last() =~= c);
            assert(x[x.len() - 1] == x.last());
            assert(digit_value(x.last()) == worth(x.last()));
        }
    }
}

proof fn runs_are_digits(cs: Seq<char>, i: nat, base: nat)
    requires
        i <= cs.len(),
        base <= 16,
    ensures
        i <= run_end(cs, Run::Digits(base), i) <= cs.len(),
        digits_of(cs.subrange(i as int, run_end(cs, Run::Digits(base), i) as int), base as int),
{
    run_goes_on(cs, Run::Digits(base), i);
    run_holds(cs, Run::Digits(base), i);
    let j = run_end(cs, Run::Digits(base), i);
    let x = cs.subrange(i as int, j as int);
    assert forall|k: int| 0 <= k < x.len() implies #[trigger] x[k] == '_' || 0 <= worth(x[k]) < base by {
        assert(x[k] == cs[i + k]);
        assert(in_run(Run::Digits(base), cs[i + k]));
    }
}

proof fn suffixes_are_names(cs: Seq<char>, i: nat)
    requires
        i <= cs.len(),
    ensures
        ({
            let (t, f, k) = suffix_at(cs, i);
            &&& i <= k <= cs.len()
            &&& t is Some ==> f is None && cs.subrange(i as int, k as int) == int_suffix(t)
            &&& f is Some ==> t is None && cs.subrange(i as int, k as int) == float_suffix(f)
            &&& t is None && f is None ==> k == i
        }),
{
    run_goes_on(cs, Run::Alphanumeric, i);
}

#[verifier::spinoff_prover]
proof fn numerals_say_their_number(cs: Seq<char>, from: nat, errs: Seq<(Seq<char>, Span)>)
    requires
        from < cs.len(),
        is_digit(cs[from as int]),
        numeral(cs, from, errs).2 == errs,
    ensures
        ({
            let (kind, j, _) = numeral(cs, from, errs);
            let text = cs.subrange(from as int, j as int);
            &&& from <= j <= cs.len()
            &&& kind matches TokenKindV::Int(v, t) ==> is_integer_text(text, v as int, t)
            &&& kind matches TokenKindV::Float(x, t) ==> is_float_text(text, x, t)
        }),
{
    number_goes_on(cs, from, errs);
    let (kind, j, e) = numeral(cs, from, errs);
    let text = cs.subrange(from as int, j as int);
    match base_of(cs, from) {
        Some(base) => {
            let i = from + 2;
            let d = run_end(cs, Run::Digits(base), i);
            runs_are_digits(cs, i, base);
            let x = cs.subrange(i as int, d as int);
            values_are_place_values(x, base);
            suffixes_are_names(cs, d);
            let missing = "expected digits after numeric base prefix"@;
            let floats = "float suffix on a radix-prefixed integer literal"@;
            assert(failing(cs, errs, from, d, missing).len() == errs.len() + 1);
            assert(failing(cs, errs, from, j, floats).len() == errs.len() + 1);
            assert(cleaned(x).len() > 0);
            let n = d - from;
            let num = text.take(n);
            assert(num =~= cs.subrange(from as int, d as int));
            assert(num[0] == cs[from as int] && num[1] == cs[from as int + 1]);
            assert(num.skip(2) =~= x);
            assert(text.skip(n) =~= cs.subrange(d as int, j as int));
            assert(text.skip(n) =~= int_suffix(kind->Int_1));
            assert(writes_integer(text.take(n), kind->Int_0 as int));
        },
        None => {
            let (a, b, x, d) = decimal_ends(cs, from);
            run_goes_on(cs, Run::Digits(10), from + 1);
            runs_are_digits(cs, from + 1, 10);
            if char_at(cs, a, '.') && a + 1 < cs.len() && is_digit(cs[a as int + 1]) {
                run_goes_on(cs, Run::Digits(10), a + 1);
            }
            let whole_suffix = "integer suffix on a float literal"@;
            assert(failing(cs, errs, from, j, whole_suffix).len() == errs.len() + 1);
            match x {
                Some(x) => run_goes_on(cs, Run::Digits(10), x),
                None => {},
            }
            suffixes_are_names(cs, d);
            let n = d - from;
            let num = text.take(n);
            let raw = cs.subrange(from as int, d as int);
            assert(num =~= raw);
            assert(text.skip(n) =~= cs.subrange(d as int, j as int));
            cleaning_is_filtering(raw);
            match kind {
                TokenKindV::Float(digits, t) => {
                    if b > a {
                        assert(raw[a - from] == '.');
                    }
                    if x is Some {
                        assert(raw[b - from] == cs[b as int]);
                    }
                    assert(text.skip(n) =~= float_suffix(t));
                    assert(digits == text.take(n).filter(|c: char| c != '_'));
                },
                TokenKindV::Int(v, t) => {
                    assert(d == a);
                    let tail = cs.subrange(from as int + 1, a as int);
                    assert forall|k: int| 0 <= k < raw.len() implies #[trigger] raw[k] == '_' || 0 <= worth(raw[k])
                        < 10 by {
                        if k > 0 {
                            assert(raw[k] == tail[k - 1]);
                        }
                    }
                    values_are_place_values(raw, 10);
                    assert(num.skip(0) =~= num);
                    assert(written_base(num).1 == 0) by {
                        if num.len() >= 2 {
                            assert(num[1] == raw[1]);
                        }
                    }
                    assert(text.skip(n) =~= int_suffix(t));
                    assert(writes_integer(text.take(n), v as int));
                },
                _ => {},
            }
        },
    }
}

// ---- texts ----

/// What an escape stands for.
pub open spec fn stands_for(e: char, c: char) -> bool {
    ||| e == 'n' && c == '\n'
    ||| e == 't' && c == '\t'
    ||| e == 'r' && c == '\r'
    ||| e == '0' && c == '\0'
    ||| e == '\\' && c == '\\'
    ||| e == '\'' && c == '\''
    ||| e == '"' && c == '"'
}

/// Whether the inside of a literal spells a text: character by character, each
/// as it is or as an escape.
pub open spec fn spells(inside: Seq<char>, x: Seq<char>) -> bool
    decreases inside.len(),
{
    if inside.len() == 0 {
        x.len() == 0
    } else if inside[0] == '\\' {
        inside.len() >= 2 && x.len() > 0 && stands_for(inside[1], x[0]) && spells(inside.skip(2), x.skip(1))
    } else {
        inside[0] != '"' && inside[0] != '\n' && x.len() > 0 && inside[0] == x[0] && spells(
            inside.skip(1),
            x.skip(1),
        )
    }
}

/// Errors are only added inside a text.
proof fn texts_only_add_errors(cs: Seq<char>, from: nat, i: nat, held: Seq<char>, errs: Seq<(Seq<char>, Span)>)
    ensures
        string_from(cs, from, i, held, errs).2.len() >= errs.len(),
        string_from(cs, from, i, held, errs).2.len() == errs.len() ==> string_from(cs, from, i, held, errs).2 == errs,
    decreases cs.len() - i,
{
    if i < cs.len() {
        let bad = "invalid escape sequence in string"@;
        if cs[i as int] == '\\' {
            if i + 1 >= cs.len() {
                texts_only_add_errors(cs, from, i + 1, held, failing(cs, errs, from, i + 1, bad));
            } else {
                match escaped(cs[i as int + 1]) {
                    Some(c) => texts_only_add_errors(cs, from, i + 2, held.push(c), errs),
                    None => texts_only_add_errors(cs, from, i + 2, held, failing(cs, errs, from, i + 2, bad)),
                }
            }
        } else if cs[i as int] != '"' && cs[i as int] != '\n' {
            texts_only_add_errors(cs, from, i + 1, held.push(cs[i as int]), errs);
        }
    }
}

proof fn texts_say_what_they_spell(cs: Seq<char>, from: nat, i: nat, held: Seq<char>, errs: Seq<(Seq<char>, Span)>)
    requires
        i <= cs.len(),
        string_from(cs, from, i, held, errs).2 == errs,
    ensures
        ({
            let (kind, j, _) = string_from(cs, from, i, held, errs);
            &&& i < j <= cs.len()
            &&& cs[j - 1] == '"'
            &&& kind matches TokenKindV::Str(x) && x.len() >= held.len() && x.take(held.len() as int) == held && spells(
                cs.subrange(i as int, j - 1),
                x.skip(held.len() as int),
            )
        }),
    decreases cs.len() - i,
{
    let (kind, j, _) = string_from(cs, from, i, held, errs);
    let open = "unterminated string literal"@;
    assert(failing(cs, errs, from, i, open).len() == errs.len() + 1);
    assert(failing(cs, errs, from, i + 1, open).len() == errs.len() + 1);
    if i < cs.len() {
        let bad = "invalid escape sequence in string"@;
        if cs[i as int] == '"' {
            assert(cs.subrange(i as int, j - 1) =~= seq![]);
            assert(held.skip(held.len() as int) =~= seq![]);
            assert(held.take(held.len() as int) =~= held);
        } else if cs[i as int] == '\\' {
            if i + 1 >= cs.len() {
                texts_only_add_errors(cs, from, i + 1, held, failing(cs, errs, from, i + 1, bad));
            } else {
                match escaped(cs[i as int + 1]) {
                    Some(c) => {
                        texts_say_what_they_spell(cs, from, i + 2, held.push(c), errs);
                        let x = kind->Str_0;
                        let inside = cs.subrange(i as int, j - 1);
                        assert(inside.skip(2) =~= cs.subrange(i as int + 2, j - 1));
                        let rest = x.skip(held.len() as int);
                        assert(rest.skip(1) =~= x.skip(held.push(c).len() as int));
                        assert(x.take(held.len() as int + 1)[held.len() as int] == c);
                        assert(rest[0] == c);
                        assert(x.take(held.len() as int) =~= held) by {
                            assert(x.take(held.len() as int) =~= x.take(held.len() as int + 1).take(
                                held.len() as int,
                            ));
                            assert(held.push(c).take(held.len() as int) =~= held);
                        }
                    },
                    None => texts_only_add_errors(cs, from, i + 2, held, failing(cs, errs, from, i + 2, bad)),
                }
            }
        } else if cs[i as int] != '\n' {
            let c = cs[i as int];
            texts_say_what_they_spell(cs, from, i + 1, held.push(c), errs);
            let x = kind->Str_0;
            let inside = cs.subrange(i as int, j - 1);
            assert(inside.skip(1) =~= cs.subrange(i as int + 1, j - 1));
            let rest = x.skip(held.len() as int);
            assert(rest.skip(1) =~= x.skip(held.push(c).len() as int));
            assert(x.take(held.len() as int + 1)[held.len() as int] == c);
            assert(rest[0] == c);
            assert(x.take(held.len() as int) =~= held) by {
                assert(x.take(held.len() as int) =~= x.take(held.len() as int + 1).take(held.len() as int));
                assert(held.push(c).take(held.len() as int) =~= held);
            }
        }
    }
}

/// A text between quotes is read without an error as what its inside spells.
pub proof fn quoted_texts_are_read(
    cs: Seq<char>,
    from: nat,
    i: nat,
    inside: Seq<char>,
    x: Seq<char>,
    held: Seq<char>,
    errs: Seq<(Seq<char>, Span)>,
)
    requires
        stands_at(cs, i, inside.push('"')),
        spells(inside, x),
    ensures
        string_from(cs, from, i, held, errs) == (TokenKindV::Str(held + x), i + inside.len() + 1, errs),
    decreases inside.len(),
{
    let whole = inside.push('"');
    let n = whole.len();
    assert(cs[i as int] == whole[0]) by {
        assert(cs.subrange(i as int, i as int + n)[0] == whole[0]);
    }
    if inside.len() == 0 {
        assert(held + x =~= held);
    } else {
        let k: int = if inside[0] == '\\' {
            2
        } else {
            1
        };
        if k == 2 {
            assert(cs[i as int + 1] == whole[1]) by {
                assert(cs.subrange(i as int, i as int + n)[1] == whole[1]);
            }
        }
        let rest = inside.skip(k);
        assert(rest.push('"') =~= whole.skip(k));
        assert(cs.subrange(i + k, i as int + n) =~= cs.subrange(i as int, i as int + n).skip(k));
        quoted_texts_are_read(cs, from, (i + k) as nat, rest, x.skip(1), held.push(x[0]), errs);
        assert(held.push(x[0]) + x.skip(1) =~= held + x);
        assert(inside[0] == '\\' ==> escaped(inside[1]) == Some(x[0]));
    }
}

proof fn characters_say_what_they_spell(cs: Seq<char>, from: nat, errs: Seq<(Seq<char>, Span)>)
    requires
        from < cs.len(),
        cs[from as int] == '\'',
        char_from(cs, from, errs).2 == errs,
    ensures
        ({
            let (kind, j, _) = char_from(cs, from, errs);
            &&& from + 1 < j <= cs.len()
            &&& cs[j - 1] == '\''
            &&& kind matches TokenKindV::Char(c) && is_character_text(cs.subrange(from as int + 1, j - 1), c)
        }),
{
    let i = from + 1;
    let bad = "invalid escape sequence in char literal"@;
    assert(failing(cs, errs, from, i, "unterminated char literal"@).len() == errs.len() + 1);
    assert(failing(cs, errs, from, i + 1, bad).len() == errs.len() + 1);
    assert(failing(cs, errs, from, i + 2, bad).len() == errs.len() + 1);
    assert(failing(cs, errs, from, i + 1, "empty char literal"@).len() == errs.len() + 1);
}

/// Whether the inside of a character literal spells a character.
pub open spec fn is_character_text(inside: Seq<char>, c: char) -> bool {
    ||| inside.len() == 1 && inside[0] == c && c != '\\' && c != '\'' && c != '\n'
    ||| inside.len() == 2 && inside[0] == '\\' && stands_for(inside[1], c)
}

// ---- comments ----

/// Comments nest: where some levels and then some more are closed.
pub proof fn comments_nest(cs: Seq<char>, i: nat, inner: nat, outer: nat)
    ensures
        comment_end(cs, i, inner + outer) == (match comment_end(cs, i, inner) {
            Some(j) => comment_end(cs, j, outer),
            None => None,
        }),
    decreases cs.len() - i,
{
    if inner > 0 && i < cs.len() {
        if cs[i as int] == '/' && char_at(cs, i + 1, '*') {
            comments_nest(cs, i + 2, inner + 1, outer);
        } else if cs[i as int] == '*' && char_at(cs, i + 1, '/') {
            comments_nest(cs, i + 2, (inner - 1) as nat, outer);
        } else {
            comments_nest(cs, i + 1, inner, outer);
        }
    } else if inner > 0 && outer > 0 {
    }
}

/// A comment without another inside it ends with the first `*/`.
pub proof fn comments_end_at_their_end(cs: Seq<char>, i: nat, inside: Seq<char>)
    requires
        stands_at(cs, i, inside + seq!['*', '/']),
        forall|k: int| 0 <= k < inside.len() ==> #[trigger] inside[k] != '/' && inside[k] != '*',
    ensures
        comment_end(cs, i, 1) == Some(i + inside.len() + 2),
    decreases inside.len(),
{
    let whole = inside + seq!['*', '/'];
    let n = whole.len();
    assert(cs[i as int] == whole[0]) by {
        assert(cs.subrange(i as int, i as int + n)[0] == whole[0]);
    }
    assert(cs[i as int + 1] == whole[1]) by {
        assert(cs.subrange(i as int, i as int + n)[1] == whole[1]);
    }
    if inside.len() == 0 {
        assert(comment_end(cs, i + 2, 0) == Some(i + 2));
    } else {
        let rest = inside.skip(1);
        assert(rest + seq!['*', '/'] =~= whole.skip(1));
        assert(cs.subrange(i as int + 1, i as int + n) =~= cs.subrange(i as int, i as int + n).skip(1));
        assert(whole[0] == inside[0]);
        assert forall|k: int| 0 <= k < rest.len() implies #[trigger] rest[k] != '/' && rest[k] != '*' by {
            assert(rest[k] == inside[k + 1]);
        }
        comments_end_at_their_end(cs, i + 1, rest);
    }
}

/// A line comment ends where the line does.
pub proof fn line_comments_end_with_their_line(cs: Seq<char>, i: nat, errs: Seq<(Seq<char>, Span)>)
    requires
        stands_at(cs, i, seq!['/', '/']),
    ensures
        exists|j: nat|
            {
                &&& i + 2 <= j <= cs.len()
                &&& trivia(cs, i, errs) == #[trigger] trivia(cs, j, errs)
                &&& j == cs.len() || cs[j as int] == '\n'
                &&& forall|k: int| i <= k < j ==> #[trigger] cs[k] != '\n'
            },
{
    assert(cs.subrange(i as int, i as int + 2)[0] == '/' && cs.subrange(i as int, i as int + 2)[1] == '/');
    assert(cs[i as int] == '/' && cs[i as int + 1] == '/');
    let j = run_end(cs, Run::Line, i);
    run_goes_on(cs, Run::Line, i);
    run_goes_on(cs, Run::Line, i + 1);
    run_goes_on(cs, Run::Line, i + 2);
    run_holds(cs, Run::Line, i);
    lines_stop(cs, i);
    assert forall|k: int| i <= k < j implies #[trigger] cs[k] != '\n' by {
        assert(in_run(Run::Line, cs[k]));
    }
    assert(run_end(cs, Run::Line, i) == run_end(cs, Run::Line, i + 1));
    assert(run_end(cs, Run::Line, i + 1) == run_end(cs, Run::Line, i + 2));
    assert(trivia(cs, i, errs) == trivia(cs, j, errs));
}

proof fn lines_stop(cs: Seq<char>, i: nat)
    requires
        i <= cs.len(),
    ensures
        run_end(cs, Run::Line, i) < cs.len() ==> cs[run_end(cs, Run::Line, i) as int] == '\n',
    decreases cs.len() - i,
{
    if i < cs.len() && in_run(Run::Line, cs[i as int]) {
        lines_stop(cs, i + 1);
    }
}

/// Spaces, tabs and line ends stand between tokens and are passed over; what
/// begins a token is not.
pub proof fn blanks_are_passed_over(cs: Seq<char>, i: nat, errs: Seq<(Seq<char>, Span)>)
    requires
        i < cs.len(),
    ensures
        cs[i as int] == ' ' || cs[i as int] == '\t' || cs[i as int] == '\n' || cs[i as int] == '\r' ==> trivia(
            cs,
            i,
            errs,
        ) == trivia(cs, i + 1, errs),
        starts_name(cs[i as int]) || is_digit(cs[i as int]) || cs[i as int] == '"' || cs[i as int] == '\'' ==> trivia(
            cs,
            i,
            errs,
        ) == (i, errs),
        symbol_at(cs, i) is Some && !(cs[i as int] == '/' && (char_at(cs, i + 1, '/') || char_at(cs, i + 1, '*')))
            ==> trivia(cs, i, errs) == (i, errs),
{
}

// ---- whole sources ----

/// Whether a token says what the text under it says. What a literal holds is
/// said only where nothing is wrong.
pub open spec fn says(text: Seq<char>, kind: TokenKindV, clean: bool) -> bool {
    match kind {
        TokenKindV::Plain(k) => text == spelling(k),
        TokenKindV::Ident(x) => text == x && forall|k: TokenKind| #[trigger] is_keyword(k) ==> x != spelling(k),
        TokenKindV::Int(v, t) => clean ==> is_integer_text(text, v as int, t),
        TokenKindV::Float(x, t) => clean ==> is_float_text(text, x, t),
        TokenKindV::Str(x) => clean ==> text.len() >= 2 && text[0] == '"' && text.last() == '"' && spells(
            text.subrange(1, text.len() - 1),
            x,
        ),
        TokenKindV::Char(c) => clean ==> text.len() >= 2 && text[0] == '\'' && text.last() == '\'' && is_character_text(
            text.subrange(1, text.len() - 1),
            c,
        ),
    }
}

/// Whether a token's span covers a part of the source that says what it is.
pub open spec fn is_said(cs: Seq<char>, t: TokenV, clean: bool) -> bool {
    exists|i: nat, j: nat|
        i <= j <= cs.len() && t.span == #[trigger] span_between(cs, i, j) && says(
            cs.subrange(i as int, j as int),
            t.kind,
            clean,
        )
}

proof fn tokens_only_add_errors(cs: Seq<char>, i: nat, errs: Seq<(Seq<char>, Span)>)
    requires
        i < cs.len(),
    ensures
        token_at(cs, i, errs).2.len() >= errs.len(),
        token_at(cs, i, errs).2.len() == errs.len() ==> token_at(cs, i, errs).2 == errs,
{
    if cs[i as int] == '"' {
        texts_only_add_errors(cs, i, i + 1, seq![], errs);
    }
}

#[verifier::spinoff_prover]
proof fn token_is_said(cs: Seq<char>, i: nat, errs: Seq<(Seq<char>, Span)>)
    requires
        i < cs.len(),
    ensures
        i < token_at(cs, i, errs).1 <= cs.len(),
        token_at(cs, i, errs).0 matches Some(kind) ==> says(
            cs.subrange(i as int, token_at(cs, i, errs).1 as int),
            kind,
            token_at(cs, i, errs).2 == errs,
        ),
{
    token_goes_on(cs, i, errs);
    let (kind, j, e) = token_at(cs, i, errs);
    let c = cs[i as int];
    let text = cs.subrange(i as int, j as int);
    if starts_name(c) {
        run_goes_on(cs, Run::Name, i + 1);
        match keyword(text) {
            Some(k) => {
                assert(is_keyword(k));
                keywords_have_their_text(k);
            },
            None => {
                assert forall|k: TokenKind| #[trigger] is_keyword(k) implies text != spelling(k) by {
                    keywords_have_their_text(k);
                }
            },
        }
    } else if is_digit(c) {
        if e == errs {
            numerals_say_their_number(cs, i, errs);
        }
        assert(kind matches Some(k) && (k is Int || k is Float));
    } else if c == '"' {
        string_goes_on(cs, i, i + 1, seq![], errs);
        if e == errs {
            texts_say_what_they_spell(cs, i, i + 1, seq![], errs);
            let x = kind->0->Str_0;
            assert(x.skip(0) =~= x);
            assert(text.subrange(1, text.len() - 1) =~= cs.subrange(i as int + 1, j - 1));
            assert(text.last() == cs[j - 1]);
        }
    } else if c == '\'' {
        if e == errs {
            characters_say_what_they_spell(cs, i, errs);
            assert(text.subrange(1, text.len() - 1) =~= cs.subrange(i as int + 1, j - 1));
            assert(text.last() == cs[j - 1]);
        }
        assert(kind matches Some(k) && k is Char);
    } else {
        symbols_are_spelled(cs, i);
    }
}

proof fn trivia_only_adds_errors(cs: Seq<char>, i: nat, errs: Seq<(Seq<char>, Span)>)
    ensures
        trivia(cs, i, errs).1.len() >= errs.len(),
        trivia(cs, i, errs).1.len() == errs.len() ==> trivia(cs, i, errs).1 == errs,
    decreases cs.len() - i,
{
    if i < cs.len() {
        if is_white(cs[i as int]) {
            trivia_only_adds_errors(cs, i + 1, errs);
        } else if cs[i as int] == '/' && char_at(cs, i + 1, '/') {
            let j = run_end(cs, Run::Line, i);
            if i < j <= cs.len() {
                trivia_only_adds_errors(cs, j, errs);
            }
        } else if cs[i as int] == '/' && char_at(cs, i + 1, '*') {
            match comment_end(cs, i + 2, 1) {
                Some(j) => if i < j <= cs.len() {
                    trivia_only_adds_errors(cs, j, errs);
                },
                None => {},
            }
        }
    }
}

proof fn lexing_is_said(cs: Seq<char>, i: nat, toks: Seq<TokenV>, errs: Seq<(Seq<char>, Span)>, clean: bool)
    requires
        i <= cs.len(),
        forall|n: int| 0 <= n < toks.len() ==> is_said(cs, #[trigger] toks[n], clean),
        clean ==> lexed_from(cs, i, toks, errs).1.len() == errs.len(),
    ensures
        lexed_from(cs, i, toks, errs).1.len() >= errs.len(),
        forall|n: int|
            0 <= n < lexed_from(cs, i, toks, errs).0.len() ==> is_said(
                cs,
                #[trigger] lexed_from(cs, i, toks, errs).0[n],
                clean,
            ),
    decreases cs.len() - i,
{
    trivia_goes_on(cs, i, errs);
    trivia_only_adds_errors(cs, i, errs);
    let (j, e1) = trivia(cs, i, errs);
    let all = lexed_from(cs, i, toks, errs).0;
    if j < cs.len() {
        token_is_said(cs, j, e1);
        tokens_only_add_errors(cs, j, e1);
        let (kind, k, e2) = token_at(cs, j, e1);
        match kind {
            Some(kind) => {
                let t = TokenV { kind, span: span_between(cs, j, k) };
                let more = toks.push(t);
                assert(lexed_from(cs, i, toks, errs) == lexed_from(cs, k, more, e2));
                lexing_adds_errors(cs, k, more, e2);
                assert(is_said(cs, t, clean)) by {
                    assert(says(cs.subrange(j as int, k as int), kind, e2 == e1));
                    assert(clean ==> e2 == e1);
                    assert(says(cs.subrange(j as int, k as int), kind, clean));
                    assert(t.span == span_between(cs, j, k));
                }
                lexing_is_said(cs, k, more, e2, clean);
            },
            None => {
                assert(lexed_from(cs, i, toks, errs) == lexed_from(cs, k, toks, e2));
                lexing_adds_errors(cs, k, toks, e2);
                lexing_is_said(cs, k, toks, e2, clean);
            },
        }
    } else {
        let end = TokenV { kind: TokenKindV::Plain(TokenKind::Eof), span: span_between(cs, j, j) };
        assert(is_said(cs, end, clean)) by {
            assert(cs.subrange(j as int, j as int) =~= spelling(TokenKind::Eof));
            assert(end.span == span_between(cs, j, j));
        }
        assert(all == toks.push(end));
        assert forall|n: int| 0 <= n < all.len() implies is_said(cs, #[trigger] all[n], clean) by {
            if n < toks.len() {
                assert(all[n] == toks[n]);
            }
        }
    }
}

proof fn lexing_adds_errors(cs: Seq<char>, i: nat, toks: Seq<TokenV>, errs: Seq<(Seq<char>, Span)>)
    requires
        i <= cs.len(),
    ensures
        lexed_from(cs, i, toks, errs).1.len() >= errs.len(),
    decreases cs.len() - i,
{
    trivia_goes_on(cs, i, errs);
    trivia_only_adds_errors(cs, i, errs);
    let (j, e1) = trivia(cs, i, errs);
    if j < cs.len() {
        token_goes_on(cs, j, e1);
        tokens_only_add_errors(cs, j, e1);
        let (kind, k, e2) = token_at(cs, j, e1);
        match kind {
            Some(kind) => lexing_adds_errors(cs, k, toks.push(TokenV { kind, span: span_between(cs, j, k) }), e2),
            None => lexing_adds_errors(cs, k, toks, e2),
        }
    }
}

/// Every token says what the source says under its span: a symbol or keyword
/// its own text, a name the name, which is no keyword, and, in a source with
/// nothing wrong, a number its value and a text or character what it spells.
pub proof fn tokens_say_what_the_source_says(s: Seq<char>)
    ensures
        forall|n: int|
            0 <= n < lexed(s).0.len() ==> is_said(s, #[trigger] lexed(s).0[n], lexed(s).1.len() == 0),
{
    lexing_is_said(s, 0, seq![], seq![], lexed(s).1.len() == 0);
}

} // verus!
