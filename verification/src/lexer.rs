//! The lexer. Positions are byte offsets; identifiers and keywords are ASCII,
//! while string and character literals hold any characters. An error does not
//! stop it.

use vstd::prelude::*;
use vstd::utf8::{encode_scalar, encode_utf8};

use crate::text::{cat2, cat3, cat6, chars_of, dec, number, same_text, text_of};
use crate::token::{Span, Token, TokenKind, TokenKindV, keyword};
use crate::ty::{FloatTy, IntTy};

verus! {

#[derive(Debug, Clone, PartialEq, Eq)]
pub struct LexError {
    pub message: String,
    pub span: Span,
}

impl LexError {
    /// The error as it is shown.
    pub fn display(&self) -> (r: String)
        ensures
            r@ == "lex error at "@ + dec(self.span.start as nat) + ".."@ + dec(self.span.end as nat) + ": "@
                + self.message@,
    {
        cat6(
            "lex error at ",
            number(self.span.start).as_str(),
            "..",
            number(self.span.end).as_str(),
            ": ",
            self.message.as_str(),
        )
    }
}

// ---- characters ----

/// The number of bytes a character takes.
pub open spec fn char_width(c: char) -> nat {
    if (c as u32) < 0x80 {
        1
    } else if (c as u32) < 0x800 {
        2
    } else if (c as u32) < 0x1_0000 {
        3
    } else {
        4
    }
}

/// The number of bytes the first `i` characters take.
pub open spec fn bytes_before(cs: Seq<char>, i: nat) -> nat
    decreases i,
{
    if i == 0 || i > cs.len() {
        0
    } else {
        bytes_before(cs, (i - 1) as nat) + char_width(cs[i - 1])
    }
}

/// What comes before a character and what comes from it on make up the text.
pub proof fn bytes_add_up(cs: Seq<char>, i: nat)
    requires
        i <= cs.len(),
    ensures
        bytes_before(cs, i) + encode_utf8(cs.skip(i as int)).len() == encode_utf8(cs).len(),
    decreases i,
{
    if i == 0 {
        assert(cs.skip(0) =~= cs);
    } else {
        bytes_add_up(cs, (i - 1) as nat);
        let rest = cs.skip(i - 1);
        assert(rest[0] == cs[i - 1]);
        assert(rest.drop_first() =~= cs.skip(i as int));
        width_is_encoded(cs[i - 1]);
    }
}

proof fn width_is_encoded(c: char)
    ensures
        encode_scalar(c as u32).len() == char_width(c),
{
}

fn width_of_char(c: char) -> (r: usize)
    ensures
        r == char_width(c),
{
    let n = c as u32;
    if n < 0x80 {
        1
    } else if n < 0x800 {
        2
    } else if n < 0x1_0000 {
        3
    } else {
        4
    }
}

/// The white-space characters of Unicode.
pub open spec fn is_white(c: char) -> bool {
    let n = c as u32;
    ||| 0x09 <= n <= 0x0d
    ||| n == 0x20
    ||| n == 0x85
    ||| n == 0xa0
    ||| n == 0x1680
    ||| 0x2000 <= n <= 0x200a
    ||| n == 0x2028
    ||| n == 0x2029
    ||| n == 0x202f
    ||| n == 0x205f
    ||| n == 0x3000
}

fn is_whitespace(c: char) -> (r: bool)
    ensures
        r == is_white(c),
{
    let n = c as u32;
    (0x09 <= n && n <= 0x0d) || n == 0x20 || n == 0x85 || n == 0xa0 || n == 0x1680 || (0x2000 <= n && n <= 0x200a)
        || n == 0x2028 || n == 0x2029 || n == 0x202f || n == 0x205f || n == 0x3000
}

pub open spec fn is_digit(c: char) -> bool {
    '0' <= c && c <= '9'
}

pub open spec fn is_letter(c: char) -> bool {
    ('a' <= c && c <= 'z') || ('A' <= c && c <= 'Z')
}

pub open spec fn starts_name(c: char) -> bool {
    c == '_' || is_letter(c)
}

pub open spec fn continues_name(c: char) -> bool {
    c == '_' || is_letter(c) || is_digit(c)
}

fn is_ascii_digit(c: char) -> (r: bool)
    ensures
        r == is_digit(c),
{
    '0' <= c && c <= '9'
}

fn is_ascii_letter(c: char) -> (r: bool)
    ensures
        r == is_letter(c),
{
    ('a' <= c && c <= 'z') || ('A' <= c && c <= 'Z')
}

fn is_ident_start(c: char) -> (r: bool)
    ensures
        r == starts_name(c),
{
    c == '_' || is_ascii_letter(c)
}

/// The value of a digit, in any base up to sixteen.
pub open spec fn digit_value(c: char) -> nat {
    if is_digit(c) {
        (c as u32 - '0' as u32) as nat
    } else if 'a' <= c && c <= 'f' {
        (c as u32 - 'a' as u32 + 10) as nat
    } else if 'A' <= c && c <= 'F' {
        (c as u32 - 'A' as u32 + 10) as nat
    } else {
        16
    }
}

fn value_of_digit(c: char) -> (r: u32)
    ensures
        r == digit_value(c),
        r <= 16,
{
    if is_ascii_digit(c) {
        c as u32 - '0' as u32
    } else if 'a' <= c && c <= 'f' {
        c as u32 - 'a' as u32 + 10
    } else if 'A' <= c && c <= 'F' {
        c as u32 - 'A' as u32 + 10
    } else {
        16
    }
}

/// What a run of characters is made of.
pub enum Run {
    /// Everything up to the end of the line.
    Line,
    Name,
    Alphanumeric,
    /// Digits of a base and separators.
    Digits(nat),
}

pub open spec fn in_run(run: Run, c: char) -> bool {
    match run {
        Run::Line => c != '\n',
        Run::Name => continues_name(c),
        Run::Alphanumeric => is_letter(c) || is_digit(c),
        Run::Digits(base) => digit_value(c) < base || c == '_',
    }
}

/// Where a run that starts at a position ends.
pub open spec fn run_end(cs: Seq<char>, run: Run, i: nat) -> nat
    decreases cs.len() - i,
{
    if i < cs.len() && in_run(run, cs[i as int]) {
        run_end(cs, run, i + 1)
    } else {
        i
    }
}

pub proof fn run_goes_on(cs: Seq<char>, run: Run, i: nat)
    requires
        i <= cs.len(),
    ensures
        i <= run_end(cs, run, i) <= cs.len(),
        i < cs.len() && in_run(run, cs[i as int]) ==> run_end(cs, run, i) > i,
    decreases cs.len() - i,
{
    if i < cs.len() && in_run(run, cs[i as int]) {
        run_goes_on(cs, run, i + 1);
    }
}

// ---- tokens ----

/// A token as a mathematical value.
pub struct TokenV {
    pub kind: TokenKindV,
    pub span: Span,
}

pub open spec fn token_view(t: Token) -> TokenV {
    TokenV { kind: t.kind@, span: t.span }
}

pub open spec fn token_views(ts: Seq<Token>) -> Seq<TokenV> {
    Seq::new(ts.len(), |i: int| token_view(ts[i]))
}

pub open spec fn lex_error_views(es: Seq<LexError>) -> Seq<(Seq<char>, Span)> {
    Seq::new(es.len(), |i: int| (es[i].message@, es[i].span))
}

/// The bytes between two characters.
pub open spec fn span_between(cs: Seq<char>, i: nat, j: nat) -> Span {
    Span { start: bytes_before(cs, i) as usize, end: bytes_before(cs, j) as usize }
}

/// The errors with one more, from where a token starts to where the lexer is.
pub open spec fn failing(
    cs: Seq<char>,
    errs: Seq<(Seq<char>, Span)>,
    from: nat,
    i: nat,
    message: Seq<char>,
) -> Seq<(Seq<char>, Span)> {
    errs.push((message, span_between(cs, from, i)))
}

pub open spec fn char_at(cs: Seq<char>, i: nat, c: char) -> bool {
    i < cs.len() && cs[i as int] == c
}

/// Where a block comment ends, from inside it. Comments nest.
pub open spec fn comment_end(cs: Seq<char>, i: nat, depth: nat) -> Option<nat>
    decreases cs.len() - i,
{
    if depth == 0 {
        Some(i)
    } else if i >= cs.len() {
        None
    } else if cs[i as int] == '/' && char_at(cs, i + 1, '*') {
        comment_end(cs, i + 2, depth + 1)
    } else if cs[i as int] == '*' && char_at(cs, i + 1, '/') {
        comment_end(cs, i + 2, (depth - 1) as nat)
    } else {
        comment_end(cs, i + 1, depth)
    }
}

pub proof fn comment_goes_on(cs: Seq<char>, i: nat, depth: nat)
    requires
        i <= cs.len(),
    ensures
        comment_end(cs, i, depth) matches Some(j) ==> i <= j <= cs.len(),
    decreases cs.len() - i,
{
    if depth > 0 && i < cs.len() {
        if cs[i as int] == '/' && char_at(cs, i + 1, '*') {
            comment_goes_on(cs, i + 2, depth + 1);
        } else if cs[i as int] == '*' && char_at(cs, i + 1, '/') {
            comment_goes_on(cs, i + 2, (depth - 1) as nat);
        } else {
            comment_goes_on(cs, i + 1, depth);
        }
    }
}

/// Where white space and comments end, and the errors.
pub open spec fn trivia(cs: Seq<char>, i: nat, errs: Seq<(Seq<char>, Span)>) -> (nat, Seq<(Seq<char>, Span)>)
    decreases cs.len() - i,
{
    if i >= cs.len() {
        (i, errs)
    } else if is_white(cs[i as int]) {
        trivia(cs, i + 1, errs)
    } else if cs[i as int] == '/' && char_at(cs, i + 1, '/') {
        let j = run_end(cs, Run::Line, i);
        if j <= i || j > cs.len() {
            (i, errs)
        } else {
            trivia(cs, j, errs)
        }
    } else if cs[i as int] == '/' && char_at(cs, i + 1, '*') {
        match comment_end(cs, i + 2, 1) {
            Some(j) => if j <= i || j > cs.len() {
                (i, errs)
            } else {
                trivia(cs, j, errs)
            },
            None => (cs.len(), failing(cs, errs, i, cs.len(), "unterminated block comment"@)),
        }
    } else {
        (i, errs)
    }
}

// ---- numbers ----

/// Text without separators.
pub open spec fn cleaned(s: Seq<char>) -> Seq<char>
    decreases s.len(),
{
    if s.len() == 0 {
        seq![]
    } else if s.last() == '_' {
        cleaned(s.drop_last())
    } else {
        cleaned(s.drop_last()).push(s.last())
    }
}

/// The number digits stand for in a base.
pub open spec fn digits_value(s: Seq<char>, base: nat) -> nat
    decreases s.len(),
{
    if s.len() == 0 {
        0
    } else {
        digits_value(s.drop_last(), base) * base + digit_value(s.last())
    }
}

/// The type a suffix names.
pub open spec fn suffix_type(s: Seq<char>) -> (Option<IntTy>, Option<FloatTy>) {
    if s == "i8"@ {
        (Some(IntTy::I8), None)
    } else if s == "i16"@ {
        (Some(IntTy::I16), None)
    } else if s == "i32"@ {
        (Some(IntTy::I32), None)
    } else if s == "i64"@ {
        (Some(IntTy::I64), None)
    } else if s == "isize"@ {
        (Some(IntTy::ISize), None)
    } else if s == "u8"@ {
        (Some(IntTy::U8), None)
    } else if s == "u16"@ {
        (Some(IntTy::U16), None)
    } else if s == "u32"@ {
        (Some(IntTy::U32), None)
    } else if s == "u64"@ {
        (Some(IntTy::U64), None)
    } else if s == "usize"@ {
        (Some(IntTy::USize), None)
    } else if s == "f32"@ {
        (None, Some(FloatTy::F32))
    } else if s == "f64"@ {
        (None, Some(FloatTy::F64))
    } else {
        (None, None)
    }
}

/// The type suffix at a position, and where it ends. What is no suffix is
/// left in place.
pub open spec fn suffix_at(cs: Seq<char>, i: nat) -> (Option<IntTy>, Option<FloatTy>, nat) {
    let j = run_end(cs, Run::Alphanumeric, i);
    let (t, f) = suffix_type(cs.subrange(i as int, j as int));
    if t is None && f is None {
        (None, None, i)
    } else {
        (t, f, j)
    }
}

/// An integer from its digits: zero when it does not fit.
pub open spec fn whole(digits: Seq<char>, base: nat) -> i64 {
    if digits_value(digits, base) <= i64::MAX {
        digits_value(digits, base) as i64
    } else {
        0
    }
}

/// A number with a base prefix, whose digits start at `i`.
pub open spec fn prefixed(
    cs: Seq<char>,
    from: nat,
    i: nat,
    base: nat,
    errs: Seq<(Seq<char>, Span)>,
) -> (TokenKindV, nat, Seq<(Seq<char>, Span)>) {
    let j = run_end(cs, Run::Digits(base), i);
    let digits = cleaned(cs.subrange(i as int, j as int));
    if digits.len() == 0 {
        (
            TokenKindV::Int(0, None),
            j,
            failing(cs, errs, from, j, "expected digits after numeric base prefix"@),
        )
    } else {
        let (t, f, k) = suffix_at(cs, j);
        let e1 = if f is Some {
            failing(cs, errs, from, k, "float suffix on a radix-prefixed integer literal"@)
        } else {
            errs
        };
        let e2 = if digits_value(digits, base) <= i64::MAX {
            e1
        } else {
            failing(cs, e1, from, k, invalid_integer(cs.subrange(from as int, k as int)))
        };
        (TokenKindV::Int(whole(digits, base), t), k, e2)
    }
}

pub open spec fn invalid_integer(raw: Seq<char>) -> Seq<char> {
    "invalid integer literal '"@ + raw + "'"@
}

pub open spec fn invalid_float(raw: Seq<char>) -> Seq<char> {
    "invalid float literal '"@ + raw + "'"@
}

/// The parts of a decimal number that starts at a position: where its whole
/// part, its fraction and its exponent end, and where the exponent's digits
/// start when there is one.
pub open spec fn decimal_ends(cs: Seq<char>, from: nat) -> (nat, nat, Option<nat>, nat) {
    let a = run_end(cs, Run::Digits(10), from + 1);
    let b = if char_at(cs, a, '.') && a + 1 < cs.len() && is_digit(cs[a as int + 1]) {
        run_end(cs, Run::Digits(10), a + 1)
    } else {
        a
    };
    if char_at(cs, b, 'e') || char_at(cs, b, 'E') {
        let x = if char_at(cs, b + 1, '+') || char_at(cs, b + 1, '-') {
            b + 2
        } else {
            b + 1
        };
        (a, b, Some(x), run_end(cs, Run::Digits(10), x))
    } else {
        (a, b, None, b)
    }
}

/// A decimal number.
pub open spec fn decimal(cs: Seq<char>, from: nat, errs: Seq<(Seq<char>, Span)>) -> (
    TokenKindV,
    nat,
    Seq<(Seq<char>, Span)>,
) {
    let (a, b, x, d) = decimal_ends(cs, from);
    let raw = cs.subrange(from as int, d as int);
    let digits = cleaned(raw);
    let (t, f, k) = suffix_at(cs, d);
    let fractional = b > a || x is Some;
    let e1 = if t is Some && fractional {
        failing(cs, errs, from, k, "integer suffix on a float literal"@)
    } else {
        errs
    };
    if fractional || f is Some {
        let ok = match x {
            Some(x) => cleaned(cs.subrange(x as int, d as int)).len() > 0,
            None => true,
        };
        if ok {
            (TokenKindV::Float(digits, f), k, e1)
        } else {
            (TokenKindV::Float("0.0"@, f), k, failing(cs, e1, from, k, invalid_float(raw)))
        }
    } else if digits_value(digits, 10) <= i64::MAX {
        (TokenKindV::Int(whole(digits, 10), t), k, e1)
    } else {
        (TokenKindV::Int(0, t), k, failing(cs, e1, from, k, invalid_integer(raw)))
    }
}

/// The base a prefix stands for.
pub open spec fn base_of(cs: Seq<char>, from: nat) -> Option<nat> {
    if !char_at(cs, from, '0') {
        None
    } else if char_at(cs, from + 1, 'x') || char_at(cs, from + 1, 'X') {
        Some(16)
    } else if char_at(cs, from + 1, 'b') || char_at(cs, from + 1, 'B') {
        Some(2)
    } else if char_at(cs, from + 1, 'o') || char_at(cs, from + 1, 'O') {
        Some(8)
    } else {
        None
    }
}

pub open spec fn numeral(cs: Seq<char>, from: nat, errs: Seq<(Seq<char>, Span)>) -> (
    TokenKindV,
    nat,
    Seq<(Seq<char>, Span)>,
) {
    match base_of(cs, from) {
        Some(base) => prefixed(cs, from, from + 2, base, errs),
        None => decimal(cs, from, errs),
    }
}

// ---- texts ----

/// The character an escape stands for.
pub open spec fn escaped(c: char) -> Option<char> {
    if c == 'n' {
        Some('\n')
    } else if c == 't' {
        Some('\t')
    } else if c == 'r' {
        Some('\r')
    } else if c == '\\' {
        Some('\\')
    } else if c == '\'' {
        Some('\'')
    } else if c == '"' {
        Some('"')
    } else if c == '0' {
        Some('\0')
    } else {
        None
    }
}

/// A string from inside it, with what it holds so far.
pub open spec fn string_from(
    cs: Seq<char>,
    from: nat,
    i: nat,
    held: Seq<char>,
    errs: Seq<(Seq<char>, Span)>,
) -> (TokenKindV, nat, Seq<(Seq<char>, Span)>)
    decreases cs.len() - i,
{
    if i >= cs.len() {
        (TokenKindV::Str(held), i, failing(cs, errs, from, i, "unterminated string literal"@))
    } else if cs[i as int] == '"' {
        (TokenKindV::Str(held), i + 1, errs)
    } else if cs[i as int] == '\\' {
        if i + 1 >= cs.len() {
            string_from(
                cs,
                from,
                i + 1,
                held,
                failing(cs, errs, from, i + 1, "invalid escape sequence in string"@),
            )
        } else {
            match escaped(cs[i as int + 1]) {
                Some(c) => string_from(cs, from, i + 2, held.push(c), errs),
                None => string_from(
                    cs,
                    from,
                    i + 2,
                    held,
                    failing(cs, errs, from, i + 2, "invalid escape sequence in string"@),
                ),
            }
        }
    } else if cs[i as int] == '\n' {
        (
            TokenKindV::Str(held),
            i + 1,
            failing(cs, errs, from, i + 1, "unterminated string literal"@),
        )
    } else {
        string_from(cs, from, i + 1, held.push(cs[i as int]), errs)
    }
}

/// The end of a character literal.
pub open spec fn char_closed(cs: Seq<char>, from: nat, i: nat, c: char, errs: Seq<(Seq<char>, Span)>) -> (
    TokenKindV,
    nat,
    Seq<(Seq<char>, Span)>,
) {
    if char_at(cs, i, '\'') {
        (TokenKindV::Char(c), i + 1, errs)
    } else {
        (
            TokenKindV::Char(c),
            i,
            failing(cs, errs, from, i, "expected closing ' in char literal"@),
        )
    }
}

pub open spec fn char_from(cs: Seq<char>, from: nat, errs: Seq<(Seq<char>, Span)>) -> (
    TokenKindV,
    nat,
    Seq<(Seq<char>, Span)>,
) {
    let i = from + 1;
    if i >= cs.len() {
        (TokenKindV::Char('\0'), i, failing(cs, errs, from, i, "unterminated char literal"@))
    } else if cs[i as int] == '\\' {
        let bad = "invalid escape sequence in char literal"@;
        if i + 1 >= cs.len() {
            char_closed(cs, from, i + 1, '\0', failing(cs, errs, from, i + 1, bad))
        } else {
            match escaped(cs[i as int + 1]) {
                Some(c) => char_closed(cs, from, i + 2, c, errs),
                None => char_closed(cs, from, i + 2, '\0', failing(cs, errs, from, i + 2, bad)),
            }
        }
    } else if cs[i as int] == '\'' {
        (TokenKindV::Char('\0'), i + 1, failing(cs, errs, from, i + 1, "empty char literal"@))
    } else if cs[i as int] == '\n' {
        (
            TokenKindV::Char('\0'),
            i + 1,
            failing(cs, errs, from, i + 1, "unterminated char literal"@),
        )
    } else {
        char_closed(cs, from, i + 1, cs[i as int], errs)
    }
}

// ---- symbols ----

/// A symbol that another character after it changes, and how long it is.
pub open spec fn either(cs: Seq<char>, i: nat, second: char, with_it: TokenKind, plain: TokenKind) -> (TokenKind, nat) {
    if char_at(cs, i + 1, second) {
        (with_it, 2)
    } else {
        (plain, 1)
    }
}

/// A doubled symbol that an equals sign after it changes.
pub open spec fn doubled(cs: Seq<char>, i: nat, with_eq: TokenKind, plain: TokenKind) -> (TokenKind, nat) {
    if char_at(cs, i + 2, '=') {
        (with_eq, 3)
    } else {
        (plain, 2)
    }
}

/// The symbol at a position and how long it is.
pub open spec fn symbol_at(cs: Seq<char>, i: nat) -> Option<(TokenKind, nat)> {
    let c = cs[i as int];
    if c == '+' {
        Some(either(cs, i, '=', TokenKind::PlusEq, TokenKind::Plus))
    } else if c == '-' {
        if char_at(cs, i + 1, '=') {
            Some((TokenKind::MinusEq, 2))
        } else {
            Some(either(cs, i, '>', TokenKind::Arrow, TokenKind::Minus))
        }
    } else if c == '*' {
        Some(either(cs, i, '=', TokenKind::StarEq, TokenKind::Star))
    } else if c == '/' {
        Some(either(cs, i, '=', TokenKind::SlashEq, TokenKind::Slash))
    } else if c == '%' {
        Some(either(cs, i, '=', TokenKind::PercentEq, TokenKind::Percent))
    } else if c == '=' {
        if char_at(cs, i + 1, '=') {
            Some((TokenKind::EqEq, 2))
        } else {
            Some(either(cs, i, '>', TokenKind::FatArrow, TokenKind::Eq))
        }
    } else if c == '!' {
        Some(either(cs, i, '=', TokenKind::BangEq, TokenKind::Bang))
    } else if c == '<' {
        if char_at(cs, i + 1, '=') {
            Some((TokenKind::LtEq, 2))
        } else if char_at(cs, i + 1, '<') {
            Some(doubled(cs, i, TokenKind::ShlEq, TokenKind::Shl))
        } else {
            Some((TokenKind::Lt, 1))
        }
    } else if c == '>' {
        if char_at(cs, i + 1, '=') {
            Some((TokenKind::GtEq, 2))
        } else if char_at(cs, i + 1, '>') {
            Some(doubled(cs, i, TokenKind::ShrEq, TokenKind::Shr))
        } else {
            Some((TokenKind::Gt, 1))
        }
    } else if c == '&' {
        if char_at(cs, i + 1, '&') {
            Some((TokenKind::AmpAmp, 2))
        } else {
            Some(either(cs, i, '=', TokenKind::AmpEq, TokenKind::Amp))
        }
    } else if c == '|' {
        if char_at(cs, i + 1, '|') {
            Some((TokenKind::PipePipe, 2))
        } else {
            Some(either(cs, i, '=', TokenKind::PipeEq, TokenKind::Pipe))
        }
    } else if c == '^' {
        Some(either(cs, i, '=', TokenKind::CaretEq, TokenKind::Caret))
    } else if c == '~' {
        Some((TokenKind::Tilde, 1))
    } else if c == '.' {
        if char_at(cs, i + 1, '.') {
            Some(doubled(cs, i, TokenKind::DotDotEq, TokenKind::DotDot))
        } else {
            Some((TokenKind::Dot, 1))
        }
    } else if c == ':' {
        Some(either(cs, i, ':', TokenKind::ColonColon, TokenKind::Colon))
    } else if c == '?' {
        Some((TokenKind::Question, 1))
    } else if c == '(' {
        Some((TokenKind::LParen, 1))
    } else if c == ')' {
        Some((TokenKind::RParen, 1))
    } else if c == '{' {
        Some((TokenKind::LBrace, 1))
    } else if c == '}' {
        Some((TokenKind::RBrace, 1))
    } else if c == '[' {
        Some((TokenKind::LBracket, 1))
    } else if c == ']' {
        Some((TokenKind::RBracket, 1))
    } else if c == ',' {
        Some((TokenKind::Comma, 1))
    } else if c == ';' {
        Some((TokenKind::Semi, 1))
    } else {
        None
    }
}

// ---- lexing ----

/// How a character is shown in messages, by `char`'s own debug format.
pub uninterp spec fn shown_char(c: char) -> Seq<char>;

/// The debug format of `char`: the character between quotes, or an escape of
/// it. The text is a function of the character, and is given a name.
#[verifier::external_body]
fn show_char(c: char) -> (r: String)
    ensures
        r@ == shown_char(c),
{
    format!("{:?}", c)
}

/// The message for a character that starts no token, given how it is shown.
pub open spec fn unexpected(shown: Seq<char>) -> Seq<char> {
    "unexpected character "@ + shown
}

pub fn unexpected_message(shown: &str) -> (r: String)
    ensures
        r@ == unexpected(shown@),
{
    cat2("unexpected character ", shown)
}

/// A name, or the keyword it spells.
pub open spec fn word(s: Seq<char>) -> TokenKindV {
    match keyword(s) {
        Some(k) => TokenKindV::Plain(k),
        None => TokenKindV::Ident(s),
    }
}

/// The token at a position, where it ends, and the errors. A character that
/// starts no token is passed over.
pub open spec fn token_at(cs: Seq<char>, i: nat, errs: Seq<(Seq<char>, Span)>) -> (
    Option<TokenKindV>,
    nat,
    Seq<(Seq<char>, Span)>,
) {
    let c = cs[i as int];
    if starts_name(c) {
        let j = run_end(cs, Run::Name, i + 1);
        (Some(word(cs.subrange(i as int, j as int))), j, errs)
    } else if is_digit(c) {
        let (k, j, e) = numeral(cs, i, errs);
        (Some(k), j, e)
    } else if c == '"' {
        let (k, j, e) = string_from(cs, i, i + 1, seq![], errs);
        (Some(k), j, e)
    } else if c == '\'' {
        let (k, j, e) = char_from(cs, i, errs);
        (Some(k), j, e)
    } else {
        match symbol_at(cs, i) {
            Some((k, n)) => (Some(TokenKindV::Plain(k)), i + n, errs),
            None => (None, i + 1, failing(cs, errs, i, i + 1, unexpected(shown_char(c)))),
        }
    }
}

/// The tokens from a position on, after those before, and the errors.
pub open spec fn lexed_from(
    cs: Seq<char>,
    i: nat,
    toks: Seq<TokenV>,
    errs: Seq<(Seq<char>, Span)>,
) -> (Seq<TokenV>, Seq<(Seq<char>, Span)>)
    decreases cs.len() - i,
{
    let (j, e1) = trivia(cs, i, errs);
    if j >= cs.len() {
        (toks.push(TokenV { kind: TokenKindV::Plain(TokenKind::Eof), span: span_between(cs, j, j) }), e1)
    } else {
        let (kind, k, e2) = token_at(cs, j, e1);
        if k <= i || k > cs.len() {
            (toks, e2)
        } else {
            match kind {
                Some(kind) => lexed_from(
                    cs,
                    k,
                    toks.push(TokenV { kind, span: span_between(cs, j, k) }),
                    e2,
                ),
                None => lexed_from(cs, k, toks, e2),
            }
        }
    }
}

/// The tokens of a text, closed by an end token, and the errors.
pub open spec fn lexed(s: Seq<char>) -> (Seq<TokenV>, Seq<(Seq<char>, Span)>) {
    lexed_from(s, 0, seq![], seq![])
}

// ---- carrying it out ----

pub struct Lexer<'src> {
    source: &'src str,
    chars: Vec<char>,
    /// The character at hand.
    at: usize,
    /// Its byte offset.
    pos: usize,
    errors: Vec<LexError>,
}

impl<'src> Lexer<'src> {
    /// The characters of the source.
    pub closed spec fn text(self) -> Seq<char> {
        self.chars@
    }

    /// How many characters were read.
    spec fn i(self) -> nat {
        self.at as nat
    }

    spec fn errs(self) -> Seq<(Seq<char>, Span)> {
        lex_error_views(self.errors@)
    }

    /// What holds of every lexer: it stands in the text, and knows the byte
    /// offset it stands at.
    pub closed spec fn wf(self) -> bool {
        &&& self.source@ == self.chars@
        &&& self.at <= self.chars@.len()
        &&& self.pos == bytes_before(self.chars@, self.at as nat)
        &&& encode_utf8(self.chars@).len() <= usize::MAX
    }

    /// Whether nothing was read yet.
    pub closed spec fn fresh(self) -> bool {
        self.at == 0 && self.errs() == Seq::<(Seq<char>, Span)>::empty()
    }

    pub fn new(source: &'src str) -> (r: Self)
        ensures
            r.wf(),
            r.fresh(),
            r.text() == source@,
    {
        let n = source.as_bytes().len();
        let chars = chars_of(source);
        let r = Lexer { source, chars, at: 0, pos: 0, errors: Vec::new() };
        assert(r.errs() =~= Seq::<(Seq<char>, Span)>::empty());
        r
    }

    fn peek(&self) -> (r: Option<char>)
        ensures
            match r {
                Some(c) => self.i() < self.text().len() && c == self.text()[self.at as int],
                None => self.i() >= self.text().len(),
            },
    {
        if self.at < self.chars.len() {
            Some(self.chars[self.at])
        } else {
            None
        }
    }

    /// Whether a character stands some places ahead.
    fn ahead(&self, n: usize, c: char) -> (r: bool)
        requires
            self.wf(),
            n <= 2,
        ensures
            r == char_at(self.text(), self.i() + n as nat, c),
    {
        self.chars.len() - self.at > n && self.chars[self.at + n] == c
    }

    /// Moves past the character at hand.
    fn bump(&mut self)
        requires
            old(self).wf(),
            old(self).i() < old(self).text().len(),
        ensures
            final(self).wf(),
            final(self).text() == old(self).text(),
            final(self).i() == old(self).i() + 1,
            final(self).errs() == old(self).errs(),
    {
        proof {
            bytes_add_up(self.chars@, (self.at + 1) as nat);
        }
        let n = self.chars.len();
        assert(self.at < n);
        self.pos = self.pos + width_of_char(self.chars[self.at]);
        self.at = self.at + 1;
    }

    /// Moves some places on.
    fn skip(&mut self, n: usize)
        requires
            old(self).wf(),
            old(self).i() + n <= old(self).text().len(),
        ensures
            final(self).wf(),
            final(self).text() == old(self).text(),
            final(self).i() == old(self).i() + n,
            final(self).errs() == old(self).errs(),
    {
        let mut k: usize = 0;
        while k < n
            invariant
                k <= n,
                self.wf(),
                self.text() == old(self).text(),
                self.i() == old(self).i() + k,
                old(self).i() + n <= old(self).text().len(),
                self.errs() == old(self).errs(),
            decreases n - k,
        {
            self.bump();
            k += 1;
        }
    }

    /// Notes an error from a token's start to here.
    fn error(&mut self, from: usize, start: usize, message: String)
        requires
            old(self).wf(),
            start == bytes_before(old(self).text(), from as nat),
        ensures
            final(self).wf(),
            final(self).text() == old(self).text(),
            final(self).i() == old(self).i(),
            final(self).errs() == failing(
                old(self).text(),
                old(self).errs(),
                from as nat,
                old(self).i(),
                message@,
            ),
    {
        let ghost before = self.errs();
        let span = Span { start, end: self.pos };
        self.errors.push(LexError { message, span });
        assert(self.errs() =~= before.push((message@, span)));
    }

    /// Moves to the end of a run.
    fn skip_run(&mut self, run: RunKind)
        requires
            old(self).wf(),
        ensures
            final(self).wf(),
            final(self).text() == old(self).text(),
            final(self).i() == run_end(old(self).text(), run_view(run), old(self).i()),
            final(self).errs() == old(self).errs(),
    {
        let ghost goal = run_end(self.text(), run_view(run), self.i());
        while self.at < self.chars.len()
            invariant
                self.wf(),
                self.text() == old(self).text(),
                self.errs() == old(self).errs(),
                goal == run_end(old(self).text(), run_view(run), old(self).i()),
                run_end(self.text(), run_view(run), self.i()) == goal,
            decreases self.chars@.len() - self.at,
        {
            if !runs(run, self.chars[self.at]) {
                return ;
            }
            self.bump();
        }
    }

    fn skip_trivia(&mut self)
        requires
            old(self).wf(),
        ensures
            final(self).wf(),
            final(self).text() == old(self).text(),
            (final(self).i(), final(self).errs()) == trivia(old(self).text(), old(self).i(), old(self).errs()),
            final(self).i() >= old(self).i(),
    {
        let ghost cs = self.text();
        let ghost goal = trivia(cs, self.i(), self.errs());
        while self.at < self.chars.len()
            invariant
                self.wf(),
                self.text() == cs,
                cs == old(self).text(),
                self.i() >= old(self).i(),
                goal == trivia(cs, old(self).i(), old(self).errs()),
                trivia(cs, self.i(), self.errs()) == goal,
            decreases self.chars@.len() - self.at,
        {
            let c = self.chars[self.at];
            if is_whitespace(c) {
                self.bump();
            } else if c == '/' && self.ahead(1, '/') {
                proof {
                    run_goes_on(cs, Run::Line, self.i());
                }
                self.skip_run(RunKind::Line);
            } else if c == '/' && self.ahead(1, '*') {
                if !self.block_comment() {
                    return ;
                }
            } else {
                return ;
            }
        }
    }

    /// Moves past a block comment. Says whether it was closed.
    fn block_comment(&mut self) -> (r: bool)
        requires
            old(self).wf(),
            old(self).i() + 2 <= old(self).text().len(),
        ensures
            final(self).wf(),
            final(self).text() == old(self).text(),
            match comment_end(old(self).text(), old(self).i() + 2, 1) {
                Some(j) => r && final(self).i() == j && j >= old(self).i() + 2 && final(self).errs() == old(
                    self,
                ).errs(),
                None => !r && final(self).i() == final(self).text().len() && final(self).errs() == failing(
                    old(self).text(),
                    old(self).errs(),
                    old(self).i(),
                    old(self).text().len(),
                    "unterminated block comment"@,
                ),
            },
    {
        let from = self.at;
        let start = self.pos;
        let ghost cs = self.text();
        proof {
            comment_goes_on(cs, self.i() + 2, 1);
        }
        self.skip(2);
        let ghost goal = comment_end(cs, self.i(), 1);
        let mut depth: usize = 1;
        while depth > 0
            invariant
                self.wf(),
                self.text() == cs,
                cs == old(self).text(),
                self.errs() == old(self).errs(),
                from == old(self).at,
                start == bytes_before(cs, from as nat),
                goal == comment_end(cs, old(self).i() + 2, 1),
                goal matches Some(j) ==> old(self).i() + 2 <= j,
                comment_end(cs, self.i(), depth as nat) == goal,
                depth <= self.at,
            decreases cs.len() - self.i(), depth,
        {
            if self.at >= self.chars.len() {
                self.error(from, start, "unterminated block comment".to_owned());
                return false;
            }
            let c = self.chars[self.at];
            if c == '/' && self.ahead(1, '*') {
                self.skip(2);
                depth += 1;
            } else if c == '*' && self.ahead(1, '/') {
                self.skip(2);
                depth -= 1;
            } else {
                self.bump();
            }
        }
        true
    }

    /// The text between two positions.
    fn slice(&self, from: usize, to: usize) -> (r: String)
        requires
            from <= to <= self.text().len(),
        ensures
            r@ == self.text().subrange(from as int, to as int),
    {
        text_of(&self.chars, from, to)
    }

    fn ident(&mut self, from: usize) -> (r: TokenKind)
        requires
            old(self).wf(),
            from <= old(self).i(),
        ensures
            final(self).wf(),
            final(self).text() == old(self).text(),
            final(self).i() == run_end(old(self).text(), Run::Name, old(self).i()),
            final(self).i() >= old(self).i(),
            final(self).errs() == old(self).errs(),
            r@ == word(old(self).text().subrange(from as int, final(self).i() as int)),
    {
        proof {
            run_goes_on(self.text(), Run::Name, self.i());
        }
        self.skip_run(RunKind::Name);
        let text = self.slice(from, self.at);
        match TokenKind::keyword_from_str(text.as_str()) {
            Some(k) => {
                proof {
                    keywords_are_plain(text@);
                }
                k
            },
            None => TokenKind::Ident(text),
        }
    }

    /// The type suffix at hand, which is moved past.
    fn scan_numeric_suffix(&mut self) -> (r: (Option<IntTy>, Option<FloatTy>))
        requires
            old(self).wf(),
        ensures
            final(self).wf(),
            final(self).text() == old(self).text(),
            (r.0, r.1, final(self).i()) == suffix_at(old(self).text(), old(self).i()),
            final(self).i() >= old(self).i(),
            final(self).errs() == old(self).errs(),
    {
        let ghost cs = self.text();
        let ghost goal = run_end(cs, Run::Alphanumeric, self.i());
        let mut end: usize = self.at;
        while end < self.chars.len() && runs(RunKind::Alphanumeric, self.chars[end])
            invariant
                self.at <= end <= self.chars@.len(),
                self.chars@ == cs,
                run_end(cs, Run::Alphanumeric, end as nat) == goal,
            decreases self.chars@.len() - end,
        {
            end += 1;
        }
        let text = self.slice(self.at, end);
        let (t, f) = type_of_suffix(text.as_str());
        if t.is_some() || f.is_some() {
            self.skip(end - self.at);
        }
        (t, f)
    }

    fn number(&mut self, from: usize, start: usize) -> (r: TokenKind)
        requires
            old(self).wf(),
            from == old(self).i(),
            from < old(self).text().len(),
            start == bytes_before(old(self).text(), from as nat),
            is_digit(old(self).text()[from as int]),
        ensures
            final(self).wf(),
            final(self).text() == old(self).text(),
            (r@, final(self).i(), final(self).errs()) == numeral(old(self).text(), from as nat, old(self).errs()),
            final(self).i() > from,
    {
        if self.ahead(0, '0') {
            if self.ahead(1, 'x') || self.ahead(1, 'X') {
                self.skip(2);
                return self.int_with_radix(from, start, 16);
            }
            if self.ahead(1, 'b') || self.ahead(1, 'B') {
                self.skip(2);
                return self.int_with_radix(from, start, 2);
            }
            if self.ahead(1, 'o') || self.ahead(1, 'O') {
                self.skip(2);
                return self.int_with_radix(from, start, 8);
            }
        }
        self.decimal(from, start)
    }

    fn decimal(&mut self, from: usize, start: usize) -> (r: TokenKind)
        requires
            old(self).wf(),
            from == old(self).i(),
            from < old(self).text().len(),
            start == bytes_before(old(self).text(), from as nat),
        ensures
            final(self).wf(),
            final(self).text() == old(self).text(),
            (r@, final(self).i(), final(self).errs()) == decimal(old(self).text(), from as nat, old(self).errs()),
            final(self).i() > from,
    {
        let ghost cs = self.text();
        let ghost ends = decimal_ends(cs, from as nat);
        self.bump();
        proof {
            run_goes_on(cs, Run::Digits(10), self.i());
        }
        self.skip_run(RunKind::Digits(10));
        assert(self.i() == ends.0);
        let mut fractional = false;
        if self.ahead(0, '.') && self.chars.len() - self.at > 1 && is_ascii_digit(self.chars[self.at + 1]) {
            fractional = true;
            self.bump();
            proof {
                run_goes_on(cs, Run::Digits(10), self.i());
                digits_are_in_base(cs[self.at as int]);
            }
            self.skip_run(RunKind::Digits(10));
        }
        assert(self.i() == ends.1);
        assert(fractional == (ends.1 > ends.0));
        let mut exponent: Option<usize> = None;
        if self.ahead(0, 'e') || self.ahead(0, 'E') {
            self.bump();
            if self.ahead(0, '+') || self.ahead(0, '-') {
                self.bump();
            }
            exponent = Some(self.at);
            proof {
                run_goes_on(cs, Run::Digits(10), self.i());
            }
            self.skip_run(RunKind::Digits(10));
        }
        let end = self.at;
        assert(end == ends.3);
        let raw = self.slice(from, end);
        let digits = without_separators(&self.chars, from, end);
        let valid = match exponent {
            Some(x) => without_separators(&self.chars, x, end).as_str().is_empty() == false,
            None => true,
        };
        let (t, f) = self.scan_numeric_suffix();
        let has_fraction = fractional || exponent.is_some();
        if t.is_some() && has_fraction {
            self.error(from, start, "integer suffix on a float literal".to_owned());
        }
        if has_fraction || f.is_some() {
            if valid {
                return TokenKind::Float(digits, f);
            }
            self.error(from, start, cat3("invalid float literal '", raw.as_str(), "'"));
            return TokenKind::Float("0.0".to_owned(), f);
        }
        match parse_whole(digits.as_str(), 10) {
            Some(v) => TokenKind::Int(v, t),
            None => {
                self.error(from, start, cat3("invalid integer literal '", raw.as_str(), "'"));
                TokenKind::Int(0, t)
            },
        }
    }

    fn int_with_radix(&mut self, from: usize, start: usize, radix: u32) -> (r: TokenKind)
        requires
            old(self).wf(),
            from <= old(self).i(),
            start == bytes_before(old(self).text(), from as nat),
            2 <= radix <= 16,
        ensures
            final(self).wf(),
            final(self).text() == old(self).text(),
            (r@, final(self).i(), final(self).errs()) == prefixed(
                old(self).text(),
                from as nat,
                old(self).i(),
                radix as nat,
                old(self).errs(),
            ),
            final(self).i() >= old(self).i(),
    {
        let ghost cs = self.text();
        let first = self.at;
        proof {
            run_goes_on(cs, Run::Digits(radix as nat), self.i());
        }
        self.skip_run(RunKind::Digits(radix));
        let digits = without_separators(&self.chars, first, self.at);
        if digits.as_str().is_empty() {
            self.error(from, start, "expected digits after numeric base prefix".to_owned());
            return TokenKind::Int(0, None);
        }
        let (t, f) = self.scan_numeric_suffix();
        if f.is_some() {
            self.error(from, start, "float suffix on a radix-prefixed integer literal".to_owned());
        }
        match parse_whole(digits.as_str(), radix) {
            Some(v) => TokenKind::Int(v, t),
            None => {
                let raw = self.slice(from, self.at);
                self.error(from, start, cat3("invalid integer literal '", raw.as_str(), "'"));
                TokenKind::Int(0, t)
            },
        }
    }

    fn string(&mut self, from: usize, start: usize) -> (r: TokenKind)
        requires
            old(self).wf(),
            from <= old(self).i(),
            start == bytes_before(old(self).text(), from as nat),
        ensures
            final(self).wf(),
            final(self).text() == old(self).text(),
            (r@, final(self).i(), final(self).errs()) == string_from(
                old(self).text(),
                from as nat,
                old(self).i(),
                seq![],
                old(self).errs(),
            ),
            final(self).i() >= old(self).i(),
    {
        let ghost cs = self.text();
        let ghost goal = string_from(cs, from as nat, self.i(), seq![], self.errs());
        let mut held = String::new();
        assert(held@ =~= seq![]);
        while self.at < self.chars.len()
            invariant
                self.wf(),
                self.text() == cs,
                cs == old(self).text(),
                start == bytes_before(cs, from as nat),
                self.i() >= old(self).i(),
                goal == string_from(cs, from as nat, old(self).i(), seq![], old(self).errs()),
                string_from(cs, from as nat, self.i(), held@, self.errs()) == goal,
            decreases self.chars@.len() - self.at,
        {
            let c = self.chars[self.at];
            self.bump();
            if c == '"' {
                return TokenKind::Str(held);
            } else if c == '\\' {
                match self.escape_char() {
                    Some(x) => held.push(x),
                    None => self.error(from, start, "invalid escape sequence in string".to_owned()),
                }
            } else if c == '\n' {
                self.error(from, start, "unterminated string literal".to_owned());
                return TokenKind::Str(held);
            } else {
                held.push(c);
            }
        }
        self.error(from, start, "unterminated string literal".to_owned());
        TokenKind::Str(held)
    }

    /// The character an escape stands for, which is moved past.
    fn escape_char(&mut self) -> (r: Option<char>)
        requires
            old(self).wf(),
        ensures
            final(self).wf(),
            final(self).text() == old(self).text(),
            final(self).errs() == old(self).errs(),
            old(self).i() >= old(self).text().len() ==> r is None && final(self).i() == old(self).i(),
            old(self).i() < old(self).text().len() ==> r == escaped(old(self).text()[old(self).i() as int])
                && final(self).i() == old(self).i() + 1,
    {
        if self.at >= self.chars.len() {
            return None;
        }
        let c = self.chars[self.at];
        self.bump();
        if c == 'n' {
            Some('\n')
        } else if c == 't' {
            Some('\t')
        } else if c == 'r' {
            Some('\r')
        } else if c == '\\' {
            Some('\\')
        } else if c == '\'' {
            Some('\'')
        } else if c == '"' {
            Some('"')
        } else if c == '0' {
            Some('\0')
        } else {
            None
        }
    }

    fn close_char(&mut self, from: usize, start: usize, c: char) -> (r: TokenKind)
        requires
            old(self).wf(),
            start == bytes_before(old(self).text(), from as nat),
        ensures
            final(self).wf(),
            final(self).text() == old(self).text(),
            (r@, final(self).i(), final(self).errs()) == char_closed(
                old(self).text(),
                from as nat,
                old(self).i(),
                c,
                old(self).errs(),
            ),
            final(self).i() >= old(self).i(),
    {
        if self.ahead(0, '\'') {
            self.bump();
        } else {
            self.error(from, start, "expected closing ' in char literal".to_owned());
        }
        TokenKind::Char(c)
    }

    fn char_literal(&mut self, from: usize, start: usize) -> (r: TokenKind)
        requires
            old(self).wf(),
            old(self).i() == from,
            from < old(self).text().len(),
            start == bytes_before(old(self).text(), from as nat),
        ensures
            final(self).wf(),
            final(self).text() == old(self).text(),
            (r@, final(self).i(), final(self).errs()) == char_from(old(self).text(), from as nat, old(self).errs()),
            final(self).i() > from,
    {
        self.bump();
        if self.at >= self.chars.len() {
            self.error(from, start, "unterminated char literal".to_owned());
            return TokenKind::Char('\0');
        }
        let c = self.chars[self.at];
        self.bump();
        if c == '\\' {
            match self.escape_char() {
                Some(x) => self.close_char(from, start, x),
                None => {
                    self.error(from, start, "invalid escape sequence in char literal".to_owned());
                    self.close_char(from, start, '\0')
                },
            }
        } else if c == '\'' {
            self.error(from, start, "empty char literal".to_owned());
            TokenKind::Char('\0')
        } else if c == '\n' {
            self.error(from, start, "unterminated char literal".to_owned());
            TokenKind::Char('\0')
        } else {
            self.close_char(from, start, c)
        }
    }

    fn one_or_two(&self, second: char, with_it: TokenKind, plain: TokenKind) -> (r: (TokenKind, usize))
        requires
            self.wf(),
            self.i() < self.text().len(),
        ensures
            (r.0, r.1 as nat) == either(self.text(), self.i(), second, with_it, plain),
            1 <= r.1,
            self.i() + r.1 <= self.text().len(),
    {
        if self.ahead(1, second) {
            (with_it, 2)
        } else {
            (plain, 1)
        }
    }

    fn two_or_three(&self, with_eq: TokenKind, plain: TokenKind) -> (r: (TokenKind, usize))
        requires
            self.wf(),
            self.i() + 1 < self.text().len(),
        ensures
            (r.0, r.1 as nat) == doubled(self.text(), self.i(), with_eq, plain),
            1 <= r.1,
            self.i() + r.1 <= self.text().len(),
    {
        if self.ahead(2, '=') {
            (with_eq, 3)
        } else {
            (plain, 2)
        }
    }

    /// The symbol at hand and how long it is.
    fn symbol(&self) -> (r: Option<(TokenKind, usize)>)
        requires
            self.wf(),
            self.i() < self.text().len(),
        ensures
            match r {
                Some((k, n)) => symbol_at(self.text(), self.i()) == Some((k, n as nat)) && 1 <= n && self.i() + n
                    <= self.text().len() && k@ == TokenKindV::Plain(k),
                None => symbol_at(self.text(), self.i()) is None,
            },
    {
        let c = self.chars[self.at];
        if c == '+' {
            Some(self.one_or_two('=', TokenKind::PlusEq, TokenKind::Plus))
        } else if c == '-' {
            if self.ahead(1, '=') {
                Some((TokenKind::MinusEq, 2))
            } else {
                Some(self.one_or_two('>', TokenKind::Arrow, TokenKind::Minus))
            }
        } else if c == '*' {
            Some(self.one_or_two('=', TokenKind::StarEq, TokenKind::Star))
        } else if c == '/' {
            Some(self.one_or_two('=', TokenKind::SlashEq, TokenKind::Slash))
        } else if c == '%' {
            Some(self.one_or_two('=', TokenKind::PercentEq, TokenKind::Percent))
        } else if c == '=' {
            if self.ahead(1, '=') {
                Some((TokenKind::EqEq, 2))
            } else {
                Some(self.one_or_two('>', TokenKind::FatArrow, TokenKind::Eq))
            }
        } else if c == '!' {
            Some(self.one_or_two('=', TokenKind::BangEq, TokenKind::Bang))
        } else if c == '<' {
            if self.ahead(1, '=') {
                Some((TokenKind::LtEq, 2))
            } else if self.ahead(1, '<') {
                Some(self.two_or_three(TokenKind::ShlEq, TokenKind::Shl))
            } else {
                Some((TokenKind::Lt, 1))
            }
        } else if c == '>' {
            if self.ahead(1, '=') {
                Some((TokenKind::GtEq, 2))
            } else if self.ahead(1, '>') {
                Some(self.two_or_three(TokenKind::ShrEq, TokenKind::Shr))
            } else {
                Some((TokenKind::Gt, 1))
            }
        } else if c == '&' {
            if self.ahead(1, '&') {
                Some((TokenKind::AmpAmp, 2))
            } else {
                Some(self.one_or_two('=', TokenKind::AmpEq, TokenKind::Amp))
            }
        } else if c == '|' {
            if self.ahead(1, '|') {
                Some((TokenKind::PipePipe, 2))
            } else {
                Some(self.one_or_two('=', TokenKind::PipeEq, TokenKind::Pipe))
            }
        } else if c == '^' {
            Some(self.one_or_two('=', TokenKind::CaretEq, TokenKind::Caret))
        } else if c == '~' {
            Some((TokenKind::Tilde, 1))
        } else if c == '.' {
            if self.ahead(1, '.') {
                Some(self.two_or_three(TokenKind::DotDotEq, TokenKind::DotDot))
            } else {
                Some((TokenKind::Dot, 1))
            }
        } else if c == ':' {
            Some(self.one_or_two(':', TokenKind::ColonColon, TokenKind::Colon))
        } else if c == '?' {
            Some((TokenKind::Question, 1))
        } else if c == '(' {
            Some((TokenKind::LParen, 1))
        } else if c == ')' {
            Some((TokenKind::RParen, 1))
        } else if c == '{' {
            Some((TokenKind::LBrace, 1))
        } else if c == '}' {
            Some((TokenKind::RBrace, 1))
        } else if c == '[' {
            Some((TokenKind::LBracket, 1))
        } else if c == ']' {
            Some((TokenKind::RBracket, 1))
        } else if c == ',' {
            Some((TokenKind::Comma, 1))
        } else if c == ';' {
            Some((TokenKind::Semi, 1))
        } else {
            None
        }
    }

    /// The token at hand, which is moved past.
    fn next_token(&mut self) -> (r: Option<TokenKind>)
        requires
            old(self).wf(),
            old(self).i() < old(self).text().len(),
        ensures
            final(self).wf(),
            final(self).text() == old(self).text(),
            final(self).i() > old(self).i(),
            (
                match r {
                    Some(k) => Some(k@),
                    None => None,
                },
                final(self).i(),
                final(self).errs(),
            ) == token_at(old(self).text(), old(self).i(), old(self).errs()),
    {
        let from = self.at;
        let start = self.pos;
        let c = self.chars[from];
        if is_ident_start(c) {
            self.bump();
            Some(self.ident(from))
        } else if is_ascii_digit(c) {
            Some(self.number(from, start))
        } else if c == '"' {
            self.bump();
            Some(self.string(from, start))
        } else if c == '\'' {
            Some(self.char_literal(from, start))
        } else {
            match self.symbol() {
                Some((k, n)) => {
                    self.skip(n);
                    Some(k)
                },
                None => {
                    self.bump();
                    let message = unexpected_message(show_char(c).as_str());
                    self.error(from, start, message);
                    None
                },
            }
        }
    }

    /// The tokens of the source, closed by an end token, and the errors in
    /// the order they were found.
    pub fn tokenize(self) -> (r: (Vec<Token>, Vec<LexError>))
        requires
            self.wf(),
            self.fresh(),
        ensures
            (token_views(r.0@), lex_error_views(r.1@)) == lexed(self.text()),
    {
        let mut lx = self;
        let ghost cs = lx.text();
        let ghost goal = lexed(cs);
        let mut tokens: Vec<Token> = Vec::new();
        assert(token_views(tokens@) =~= seq![]);
        assert(lx.errs() =~= seq![]);
        while lx.at < lx.chars.len()
            invariant
                lx.wf(),
                lx.text() == cs,
                cs == self.text(),
                goal == lexed(cs),
                lexed_from(cs, lx.i(), token_views(tokens@), lx.errs()) == goal,
            decreases lx.chars@.len() - lx.at,
        {
            let ghost before = token_views(tokens@);
            let ghost i0 = lx.i();
            let ghost e0 = lx.errs();
            lx.skip_trivia();
            if lx.at >= lx.chars.len() {
                tokens.push(Token::new(TokenKind::Eof, Span { start: lx.pos, end: lx.pos }));
                assert(token_views(tokens@) =~= before.push(
                    TokenV {
                        kind: TokenKindV::Plain(TokenKind::Eof),
                        span: span_between(cs, lx.i(), lx.i()),
                    },
                ));
                return (tokens, lx.errors);
            }
            let start = lx.pos;
            let ghost j = lx.i();
            match lx.next_token() {
                Some(kind) => {
                    tokens.push(Token::new(kind, Span { start, end: lx.pos }));
                    assert(token_views(tokens@) =~= before.push(
                        TokenV { kind: kind@, span: span_between(cs, j, lx.i()) },
                    ));
                },
                None => {},
            }
        }
        let ghost before = token_views(tokens@);
        tokens.push(Token::new(TokenKind::Eof, Span { start: lx.pos, end: lx.pos }));
        assert(token_views(tokens@) =~= before.push(
            TokenV { kind: TokenKindV::Plain(TokenKind::Eof), span: span_between(cs, lx.i(), lx.i()) },
        ));
        (tokens, lx.errors)
    }
}

/// What a run of characters is made of.
#[derive(Clone, Copy)]
enum RunKind {
    Line,
    Name,
    Alphanumeric,
    Digits(u32),
}

spec fn run_view(run: RunKind) -> Run {
    match run {
        RunKind::Line => Run::Line,
        RunKind::Name => Run::Name,
        RunKind::Alphanumeric => Run::Alphanumeric,
        RunKind::Digits(base) => Run::Digits(base as nat),
    }
}

fn runs(run: RunKind, c: char) -> (r: bool)
    ensures
        r == in_run(run_view(run), c),
{
    match run {
        RunKind::Line => c != '\n',
        RunKind::Name => c == '_' || is_ascii_letter(c) || is_ascii_digit(c),
        RunKind::Alphanumeric => is_ascii_letter(c) || is_ascii_digit(c),
        RunKind::Digits(base) => value_of_digit(c) < base || c == '_',
    }
}

proof fn digits_are_in_base(c: char)
    ensures
        is_digit(c) ==> digit_value(c) < 10,
{
}

proof fn keywords_are_plain(s: Seq<char>)
    ensures
        keyword(s) matches Some(k) ==> k@ == TokenKindV::Plain(k),
{
}

/// The characters of a range without separators.
fn without_separators(chars: &Vec<char>, from: usize, to: usize) -> (r: String)
    requires
        from <= to <= chars.len(),
    ensures
        r@ == cleaned(chars@.subrange(from as int, to as int)),
{
    let mut out = String::new();
    assert(out@ =~= seq![]);
    let mut i: usize = from;
    while i < to
        invariant
            from <= i <= to <= chars.len(),
            out@ == cleaned(chars@.subrange(from as int, i as int)),
        decreases to - i,
    {
        let c = chars[i];
        proof {
            let s = chars@.subrange(from as int, i + 1);
            assert(s.drop_last() =~= chars@.subrange(from as int, i as int));
            assert(s.last() == c);
        }
        if c != '_' {
            out.push(c);
        }
        i += 1;
    }
    out
}

/// More digits do not make a number smaller.
proof fn digits_only_grow(s: Seq<char>, k: nat, base: nat)
    requires
        k <= s.len(),
        base >= 1,
    ensures
        digits_value(s.take(k as int), base) <= digits_value(s, base),
    decreases s.len(),
{
    if k < s.len() {
        let t = s.drop_last();
        digits_only_grow(t, k, base);
        assert(t.take(k as int) =~= s.take(k as int));
        let v = digits_value(t, base);
        assert(v <= v * base) by (nonlinear_arith)
            requires
                base >= 1,
        ;
    } else {
        assert(s.take(k as int) =~= s);
    }
}

/// The number digits stand for, when it fits.
fn parse_whole(s: &str, base: u32) -> (r: Option<i64>)
    requires
        2 <= base <= 16,
    ensures
        match r {
            Some(v) => v == digits_value(s@, base as nat) && digits_value(s@, base as nat) <= i64::MAX,
            None => digits_value(s@, base as nat) > i64::MAX,
        },
{
    let digits = chars_of(s);
    let mut v: u128 = 0;
    let mut i: usize = 0;
    while i < digits.len()
        invariant
            i <= digits.len(),
            2 <= base <= 16,
            digits@ == s@,
            v == digits_value(s@.take(i as int), base as nat),
            v <= i64::MAX,
        decreases digits.len() - i,
    {
        let d = value_of_digit(digits[i]);
        proof {
            let t = s@.take(i + 1);
            assert(t.drop_last() =~= s@.take(i as int));
            assert(t.last() == digits@[i as int]);
            assert(v * base <= i64::MAX * 16) by (nonlinear_arith)
                requires
                    0 <= v <= i64::MAX,
                    0 <= base <= 16,
            ;
            digits_only_grow(s@, (i + 1) as nat, base as nat);
        }
        v = v * (base as u128) + (d as u128);
        if v > i64::MAX as u128 {
            return None;
        }
        i += 1;
    }
    assert(s@.take(i as int) =~= s@);
    Some(v as i64)
}

fn type_of_suffix(s: &str) -> (r: (Option<IntTy>, Option<FloatTy>))
    ensures
        r == suffix_type(s@),
{
    if same_text(s, "i8") {
        (Some(IntTy::I8), None)
    } else if same_text(s, "i16") {
        (Some(IntTy::I16), None)
    } else if same_text(s, "i32") {
        (Some(IntTy::I32), None)
    } else if same_text(s, "i64") {
        (Some(IntTy::I64), None)
    } else if same_text(s, "isize") {
        (Some(IntTy::ISize), None)
    } else if same_text(s, "u8") {
        (Some(IntTy::U8), None)
    } else if same_text(s, "u16") {
        (Some(IntTy::U16), None)
    } else if same_text(s, "u32") {
        (Some(IntTy::U32), None)
    } else if same_text(s, "u64") {
        (Some(IntTy::U64), None)
    } else if same_text(s, "usize") {
        (Some(IntTy::USize), None)
    } else if same_text(s, "f32") {
        (None, Some(FloatTy::F32))
    } else if same_text(s, "f64") {
        (None, Some(FloatTy::F64))
    } else {
        (None, None)
    }
}

} // verus!
