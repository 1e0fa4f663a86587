//! What holds of every token list that the lexer gives.

use vstd::prelude::*;
use vstd::utf8::{encode_scalar, encode_utf8};

use crate::lexer::{
    Run, TokenV, base_of, bytes_add_up, bytes_before, char_at, char_closed, char_from,
    comment_end, comment_goes_on, continues_name, decimal_ends, escaped, failing, in_run,
    invalid_float, invalid_integer, is_digit, is_white, lexed, lexed_from, numeral, run_end,
    run_goes_on, shown_char, span_between, starts_name, string_from, suffix_at, symbol_at,
    token_at, trivia, unexpected,
};
use crate::token::{Span, TokenKind, TokenKindV, keyword};

verus! {

/// Each token ends after it starts, and within the text.
pub(crate) proof fn token_goes_on(cs: Seq<char>, i: nat, errs: Seq<(Seq<char>, Span)>)
    requires
        i < cs.len(),
    ensures
        i < token_at(cs, i, errs).1 <= cs.len(),
        token_at(cs, i, errs).0 != Some(TokenKindV::Plain(TokenKind::Eof)),
{
    let c = cs[i as int];
    if starts_name(c) {
        run_goes_on(cs, Run::Name, i + 1);
    } else if is_digit(c) {
        number_goes_on(cs, i, errs);
    } else if c == '"' {
        string_goes_on(cs, i, i + 1, seq![], errs);
    }
}

pub(crate) proof fn number_goes_on(cs: Seq<char>, i: nat, errs: Seq<(Seq<char>, Span)>)
    requires
        i < cs.len(),
    ensures
        i < numeral(cs, i, errs).1 <= cs.len(),
        !(numeral(cs, i, errs).0 is Plain),
{
    match base_of(cs, i) {
        Some(base) => {
            run_goes_on(cs, Run::Digits(base), i + 2);
            run_goes_on(cs, Run::Alphanumeric, run_end(cs, Run::Digits(base), i + 2));
        },
        None => {
            run_goes_on(cs, Run::Digits(10), i + 1);
            let a = run_end(cs, Run::Digits(10), i + 1);
            if char_at(cs, a, '.') && a + 1 < cs.len() && is_digit(cs[a as int + 1]) {
                run_goes_on(cs, Run::Digits(10), a + 1);
            }
            let (_, b, x, d) = decimal_ends(cs, i);
            match x {
                Some(x) => run_goes_on(cs, Run::Digits(10), x),
                None => {},
            }
            run_goes_on(cs, Run::Alphanumeric, d);
        },
    }
}

pub(crate) proof fn string_goes_on(cs: Seq<char>, from: nat, i: nat, held: Seq<char>, errs: Seq<(Seq<char>, Span)>)
    requires
        i <= cs.len(),
    ensures
        i <= string_from(cs, from, i, held, errs).1 <= cs.len(),
        string_from(cs, from, i, held, errs).0 is Str,
    decreases cs.len() - i,
{
    if i < cs.len() && cs[i as int] == '\\' {
        if i + 1 >= cs.len() {
            string_goes_on(
                cs,
                from,
                i + 1,
                held,
                failing(cs, errs, from, i + 1, "invalid escape sequence in string"@),
            );
        } else {
            match escaped(cs[i as int + 1]) {
                Some(c) => string_goes_on(cs, from, i + 2, held.push(c), errs),
                None => string_goes_on(
                    cs,
                    from,
                    i + 2,
                    held,
                    failing(cs, errs, from, i + 2, "invalid escape sequence in string"@),
                ),
            }
        }
    } else if i < cs.len() && cs[i as int] != '"' && cs[i as int] != '\n' {
        string_goes_on(cs, from, i + 1, held.push(cs[i as int]), errs);
    }
}

pub(crate) proof fn trivia_goes_on(cs: Seq<char>, i: nat, errs: Seq<(Seq<char>, Span)>)
    requires
        i <= cs.len(),
    ensures
        i <= trivia(cs, i, errs).0 <= cs.len(),
    decreases cs.len() - i,
{
    if i < cs.len() {
        if is_white(cs[i as int]) {
            trivia_goes_on(cs, i + 1, errs);
        } else if cs[i as int] == '/' && char_at(cs, i + 1, '/') {
            run_goes_on(cs, Run::Line, i);
            trivia_goes_on(cs, run_end(cs, Run::Line, i), errs);
        } else if cs[i as int] == '/' && char_at(cs, i + 1, '*') {
            comment_goes_on(cs, i + 2, 1);
            match comment_end(cs, i + 2, 1) {
                Some(j) => trivia_goes_on(cs, j, errs),
                None => {},
            }
        }
    }
}

proof fn bytes_grow(cs: Seq<char>, i: nat, j: nat)
    requires
        i <= j <= cs.len(),
    ensures
        bytes_before(cs, i) <= bytes_before(cs, j),
        i < j ==> bytes_before(cs, i) < bytes_before(cs, j),
    decreases j,
{
    if i < j {
        bytes_grow(cs, i, (j - 1) as nat);
    }
}

pub(crate) proof fn bytes_fit(cs: Seq<char>, i: nat)
    requires
        i <= cs.len(),
        encode_utf8(cs).len() <= usize::MAX,
    ensures
        bytes_before(cs, i) <= usize::MAX,
{
    bytes_add_up(cs, i);
}

/// Tokens that stand one after another, none of them empty or an end token,
/// all of them before a position.
pub open spec fn in_order_before(toks: Seq<TokenV>, end: nat) -> bool {
    &&& forall|i: int|
        0 <= i < toks.len() ==> (#[trigger] toks[i]).span.start < toks[i].span.end <= end && toks[i].kind
            != TokenKindV::Plain(TokenKind::Eof)
    &&& forall|i: int, j: int|
        0 <= i < j < toks.len() ==> (#[trigger] toks[i]).span.end <= (#[trigger] toks[j]).span.start
}

proof fn lexing_lays_out(cs: Seq<char>, i: nat, toks: Seq<TokenV>, errs: Seq<(Seq<char>, Span)>)
    requires
        i <= cs.len(),
        encode_utf8(cs).len() <= usize::MAX,
        in_order_before(toks, bytes_before(cs, i)),
    ensures
        ({
            let all = lexed_from(cs, i, toks, errs).0;
            &&& all.len() > 0
            &&& all.last().kind == TokenKindV::Plain(TokenKind::Eof)
            &&& all.last().span == span_between(cs, cs.len(), cs.len())
            &&& in_order_before(all.drop_last(), bytes_before(cs, cs.len()))
        }),
    decreases cs.len() - i,
{
    trivia_goes_on(cs, i, errs);
    let (j, e1) = trivia(cs, i, errs);
    bytes_grow(cs, i, j);
    bytes_fit(cs, j);
    if j >= cs.len() {
        let all = lexed_from(cs, i, toks, errs).0;
        assert(all.drop_last() =~= toks);
    } else {
        token_goes_on(cs, j, e1);
        let (kind, k, e2) = token_at(cs, j, e1);
        bytes_grow(cs, j, k);
        bytes_fit(cs, k);
        match kind {
            Some(kind) => {
                let more = toks.push(TokenV { kind, span: span_between(cs, j, k) });
                assert(in_order_before(more, bytes_before(cs, k)));
                lexing_lays_out(cs, k, more, e2);
            },
            None => lexing_lays_out(cs, k, toks, e2),
        }
    }
}

/// Every token list is closed by one end token, which stands at the end of
/// the text and is the only one.
pub proof fn one_end_token(s: Seq<char>)
    requires
        encode_utf8(s).len() <= usize::MAX,
    ensures
        lexed(s).0.len() > 0,
        lexed(s).0.last().kind == TokenKindV::Plain(TokenKind::Eof),
        lexed(s).0.last().span == (Span {
            start: encode_utf8(s).len() as usize,
            end: encode_utf8(s).len() as usize,
        }),
        forall|i: int|
            0 <= i < lexed(s).0.len() - 1 ==> (#[trigger] lexed(s).0[i]).kind != TokenKindV::Plain(TokenKind::Eof),
{
    lexing_lays_out(s, 0, seq![], seq![]);
    bytes_add_up(s, s.len());
    assert(s.skip(s.len() as int) =~= Seq::<char>::empty());
    let body = lexed(s).0.drop_last();
    assert forall|i: int| 0 <= i < lexed(s).0.len() - 1 implies (#[trigger] lexed(s).0[i]).kind
        != TokenKindV::Plain(TokenKind::Eof) by {
        assert(body[i] == lexed(s).0[i]);
    }
}

/// Spans lie within the text, no token but the last is empty, and each ends
/// before the next one starts: no two tokens share a byte.
pub proof fn spans_are_in_order(s: Seq<char>)
    requires
        encode_utf8(s).len() <= usize::MAX,
    ensures
        forall|i: int|
            0 <= i < lexed(s).0.len() - 1 ==> (#[trigger] lexed(s).0[i]).span.start < lexed(s).0[i].span.end
                <= encode_utf8(s).len(),
        forall|i: int, j: int|
            0 <= i < j < lexed(s).0.len() ==> (#[trigger] lexed(s).0[i]).span.end <= (#[trigger] lexed(
                s,
            ).0[j]).span.start,
{
    lexing_lays_out(s, 0, seq![], seq![]);
    bytes_add_up(s, s.len());
    assert(s.skip(s.len() as int) =~= Seq::<char>::empty());
    let all = lexed(s).0;
    let body = all.drop_last();
    assert forall|i: int| 0 <= i < all.len() - 1 implies (#[trigger] all[i]).span.start < all[i].span.end
        <= encode_utf8(s).len() by {
        assert(body[i] == all[i]);
    }
    assert forall|i: int, j: int| 0 <= i < j < all.len() implies (#[trigger] all[i]).span.end <= (
    #[trigger] all[j]).span.start by {
        assert(body[i] == all[i]);
        if j < body.len() {
            assert(body[j] == all[j]);
        }
    }
}

// ---- errors lie inside the text ----

/// Errors whose spans end no later than an offset.
pub open spec fn errors_inside(errs: Seq<(Seq<char>, Span)>, end: nat) -> bool {
    forall|i: int| 0 <= i < errs.len() ==> (#[trigger] errs[i]).1.start <= errs[i].1.end <= end
}

proof fn failing_stays_inside(cs: Seq<char>, errs: Seq<(Seq<char>, Span)>, from: nat, i: nat, message: Seq<char>)
    requires
        from <= i <= cs.len(),
        encode_utf8(cs).len() <= usize::MAX,
        errors_inside(errs, bytes_before(cs, cs.len())),
    ensures
        errors_inside(failing(cs, errs, from, i, message), bytes_before(cs, cs.len())),
{
    bytes_grow(cs, from, i);
    bytes_grow(cs, i, cs.len());
    bytes_fit(cs, from);
    bytes_fit(cs, i);
}

proof fn trivia_errs_inside(cs: Seq<char>, i: nat, errs: Seq<(Seq<char>, Span)>)
    requires
        i <= cs.len(),
        encode_utf8(cs).len() <= usize::MAX,
        errors_inside(errs, bytes_before(cs, cs.len())),
    ensures
        errors_inside(trivia(cs, i, errs).1, bytes_before(cs, cs.len())),
    decreases cs.len() - i,
{
    if i < cs.len() {
        if is_white(cs[i as int]) {
            trivia_errs_inside(cs, i + 1, errs);
        } else if cs[i as int] == '/' && char_at(cs, i + 1, '/') {
            run_goes_on(cs, Run::Line, i);
            trivia_errs_inside(cs, run_end(cs, Run::Line, i), errs);
        } else if cs[i as int] == '/' && char_at(cs, i + 1, '*') {
            comment_goes_on(cs, i + 2, 1);
            failing_stays_inside(cs, errs, i, cs.len(), "unterminated block comment"@);
            match comment_end(cs, i + 2, 1) {
                Some(j) => trivia_errs_inside(cs, j, errs),
                None => {},
            }
        }
    }
}

proof fn string_errs_inside(cs: Seq<char>, from: nat, i: nat, held: Seq<char>, errs: Seq<(Seq<char>, Span)>)
    requires
        from <= i <= cs.len(),
        encode_utf8(cs).len() <= usize::MAX,
        errors_inside(errs, bytes_before(cs, cs.len())),
    ensures
        errors_inside(string_from(cs, from, i, held, errs).2, bytes_before(cs, cs.len())),
    decreases cs.len() - i,
{
    let bad = "invalid escape sequence in string"@;
    if i >= cs.len() {
        failing_stays_inside(cs, errs, from, i, "unterminated string literal"@);
    } else if cs[i as int] == '\\' {
        if i + 1 >= cs.len() {
            failing_stays_inside(cs, errs, from, i + 1, bad);
            string_errs_inside(cs, from, i + 1, held, failing(cs, errs, from, i + 1, bad));
        } else {
            match escaped(cs[i as int + 1]) {
                Some(c) => string_errs_inside(cs, from, i + 2, held.push(c), errs),
                None => {
                    failing_stays_inside(cs, errs, from, i + 2, bad);
                    string_errs_inside(cs, from, i + 2, held, failing(cs, errs, from, i + 2, bad));
                },
            }
        }
    } else if cs[i as int] == '\n' {
        failing_stays_inside(cs, errs, from, i + 1, "unterminated string literal"@);
    } else if cs[i as int] != '"' {
        string_errs_inside(cs, from, i + 1, held.push(cs[i as int]), errs);
    }
}

proof fn closing_errs_inside(cs: Seq<char>, from: nat, i: nat, c: char, errs: Seq<(Seq<char>, Span)>)
    requires
        from <= i <= cs.len(),
        encode_utf8(cs).len() <= usize::MAX,
        errors_inside(errs, bytes_before(cs, cs.len())),
    ensures
        errors_inside(char_closed(cs, from, i, c, errs).2, bytes_before(cs, cs.len())),
{
    failing_stays_inside(cs, errs, from, i, "expected closing ' in char literal"@);
}

proof fn char_errs_inside(cs: Seq<char>, from: nat, errs: Seq<(Seq<char>, Span)>)
    requires
        from < cs.len(),
        encode_utf8(cs).len() <= usize::MAX,
        errors_inside(errs, bytes_before(cs, cs.len())),
    ensures
        errors_inside(char_from(cs, from, errs).2, bytes_before(cs, cs.len())),
{
    let i = from + 1;
    let bad = "invalid escape sequence in char literal"@;
    failing_stays_inside(cs, errs, from, i, "unterminated char literal"@);
    if i < cs.len() {
        failing_stays_inside(cs, errs, from, i + 1, "unterminated char literal"@);
        failing_stays_inside(cs, errs, from, i + 1, "empty char literal"@);
        failing_stays_inside(cs, errs, from, i + 1, bad);
        closing_errs_inside(cs, from, i + 1, cs[i as int], errs);
        if i + 1 >= cs.len() {
            closing_errs_inside(cs, from, i + 1, '\0', failing(cs, errs, from, i + 1, bad));
        } else {
            failing_stays_inside(cs, errs, from, i + 2, bad);
            closing_errs_inside(cs, from, i + 2, '\0', failing(cs, errs, from, i + 2, bad));
            match escaped(cs[i as int + 1]) {
                Some(c) => closing_errs_inside(cs, from, i + 2, c, errs),
                None => {},
            }
        }
    }
}

proof fn number_errs_inside(cs: Seq<char>, from: nat, errs: Seq<(Seq<char>, Span)>)
    requires
        from < cs.len(),
        encode_utf8(cs).len() <= usize::MAX,
        errors_inside(errs, bytes_before(cs, cs.len())),
    ensures
        errors_inside(numeral(cs, from, errs).2, bytes_before(cs, cs.len())),
{
    match base_of(cs, from) {
        Some(base) => {
            let i = from + 2;
            run_goes_on(cs, Run::Digits(base), i);
            let j = run_end(cs, Run::Digits(base), i);
            run_goes_on(cs, Run::Alphanumeric, j);
            let (t, f, k) = suffix_at(cs, j);
            let m1 = "float suffix on a radix-prefixed integer literal"@;
            failing_stays_inside(cs, errs, from, j, "expected digits after numeric base prefix"@);
            failing_stays_inside(cs, errs, from, k, m1);
            let m2 = invalid_integer(cs.subrange(from as int, k as int));
            failing_stays_inside(cs, errs, from, k, m2);
            failing_stays_inside(cs, failing(cs, errs, from, k, m1), from, k, m2);
        },
        None => {
            run_goes_on(cs, Run::Digits(10), from + 1);
            let a = run_end(cs, Run::Digits(10), from + 1);
            if char_at(cs, a, '.') && a + 1 < cs.len() && is_digit(cs[a as int + 1]) {
                run_goes_on(cs, Run::Digits(10), a + 1);
            }
            let (_, b, x, d) = decimal_ends(cs, from);
            match x {
                Some(x) => run_goes_on(cs, Run::Digits(10), x),
                None => {},
            }
            run_goes_on(cs, Run::Alphanumeric, d);
            let (t, f, k) = suffix_at(cs, d);
            let raw = cs.subrange(from as int, d as int);
            let m1 = "integer suffix on a float literal"@;
            failing_stays_inside(cs, errs, from, k, m1);
            let e1 = failing(cs, errs, from, k, m1);
            failing_stays_inside(cs, errs, from, k, invalid_float(raw));
            failing_stays_inside(cs, errs, from, k, invalid_integer(raw));
            failing_stays_inside(cs, e1, from, k, invalid_float(raw));
            failing_stays_inside(cs, e1, from, k, invalid_integer(raw));
        },
    }
}

proof fn token_errs_inside(cs: Seq<char>, i: nat, errs: Seq<(Seq<char>, Span)>)
    requires
        i < cs.len(),
        encode_utf8(cs).len() <= usize::MAX,
        errors_inside(errs, bytes_before(cs, cs.len())),
    ensures
        errors_inside(token_at(cs, i, errs).2, bytes_before(cs, cs.len())),
{
    let c = cs[i as int];
    if starts_name(c) {
    } else if is_digit(c) {
        number_errs_inside(cs, i, errs);
    } else if c == '"' {
        string_errs_inside(cs, i, i + 1, seq![], errs);
    } else if c == '\'' {
        char_errs_inside(cs, i, errs);
    } else {
        failing_stays_inside(cs, errs, i, i + 1, unexpected(shown_char(c)));
    }
}

proof fn lexing_errs_inside(cs: Seq<char>, i: nat, toks: Seq<TokenV>, errs: Seq<(Seq<char>, Span)>)
    requires
        i <= cs.len(),
        encode_utf8(cs).len() <= usize::MAX,
        errors_inside(errs, bytes_before(cs, cs.len())),
    ensures
        errors_inside(lexed_from(cs, i, toks, errs).1, bytes_before(cs, cs.len())),
    decreases cs.len() - i,
{
    trivia_goes_on(cs, i, errs);
    trivia_errs_inside(cs, i, errs);
    let (j, e1) = trivia(cs, i, errs);
    if j < cs.len() {
        token_goes_on(cs, j, e1);
        token_errs_inside(cs, j, e1);
        let (kind, k, e2) = token_at(cs, j, e1);
        match kind {
            Some(kind) => lexing_errs_inside(
                cs,
                k,
                toks.push(TokenV { kind, span: span_between(cs, j, k) }),
                e2,
            ),
            None => lexing_errs_inside(cs, k, toks, e2),
        }
    }
}

/// The span of every lexical error lies inside the text.
pub proof fn errors_lie_inside_the_text(s: Seq<char>)
    requires
        encode_utf8(s).len() <= usize::MAX,
    ensures
        errors_inside(lexed(s).1, encode_utf8(s).len()),
{
    lexing_errs_inside(s, 0, seq![], seq![]);
    bytes_add_up(s, s.len());
    assert(s.skip(s.len() as int) =~= Seq::<char>::empty());
}

// ---- names and keywords spell their source ----

pub open spec fn is_keyword(k: TokenKind) -> bool {
    match k {
        TokenKind::Let | TokenKind::Mut | TokenKind::Fn | TokenKind::Return | TokenKind::If | TokenKind::Else
        | TokenKind::While | TokenKind::For | TokenKind::In | TokenKind::Break | TokenKind::Continue
        | TokenKind::True | TokenKind::False | TokenKind::Struct | TokenKind::Enum | TokenKind::Match
        | TokenKind::Pub | TokenKind::Const | TokenKind::As | TokenKind::Impl | TokenKind::Trait
        | TokenKind::Mod | TokenKind::Use | TokenKind::Dyn => true,
        _ => false,
    }
}

/// A text that can be a name: a letter or an underscore, then letters, digits
/// and underscores.
pub open spec fn name_shaped(s: Seq<char>) -> bool {
    &&& s.len() > 0
    &&& starts_name(s[0])
    &&& forall|i: int| 0 <= i < s.len() ==> continues_name(#[trigger] s[i])
}

/// Whether a name or keyword token is what the bytes under its span spell. Of
/// other tokens nothing is said.
pub open spec fn spells_source(s: Seq<char>, t: TokenV) -> bool {
    match t.kind {
        TokenKindV::Ident(x) => {
            &&& t.span.start <= t.span.end <= encode_utf8(s).len()
            &&& encode_utf8(s).subrange(t.span.start as int, t.span.end as int) == encode_utf8(x)
            &&& keyword(x) is None
            &&& name_shaped(x)
        },
        TokenKindV::Plain(k) => is_keyword(k) ==> exists|x: Seq<char>|
            {
                &&& #[trigger] keyword(x) == Some(k)
                &&& t.span.start <= t.span.end <= encode_utf8(s).len()
                &&& encode_utf8(s).subrange(t.span.start as int, t.span.end as int) == encode_utf8(x)
            },
        _ => true,
    }
}

proof fn encoding_splits(a: Seq<char>, b: Seq<char>)
    ensures
        encode_utf8(a + b) == encode_utf8(a) + encode_utf8(b),
    decreases a.len(),
{
    if a.len() == 0 {
        assert(a + b =~= b);
        assert(encode_utf8(a) =~= Seq::<u8>::empty());
        assert(encode_utf8(a) + encode_utf8(b) =~= encode_utf8(b));
    } else {
        assert((a + b).drop_first() =~= a.drop_first() + b);
        assert((a + b)[0] == a[0]);
        encoding_splits(a.drop_first(), b);
        assert(encode_utf8(a + b) =~= encode_scalar(a[0] as u32) + (encode_utf8(a.drop_first()) + encode_utf8(b)));
        assert(encode_utf8(a) + encode_utf8(b) =~= encode_scalar(a[0] as u32) + (encode_utf8(a.drop_first())
            + encode_utf8(b)));
    }
}

proof fn bytes_of_the_front(cs: Seq<char>, i: nat)
    requires
        i <= cs.len(),
    ensures
        encode_utf8(cs.take(i as int)).len() == bytes_before(cs, i),
{
    encoding_splits(cs.take(i as int), cs.skip(i as int));
    assert(cs.take(i as int) + cs.skip(i as int) =~= cs);
    bytes_add_up(cs, i);
}

/// The bytes between two characters encode the characters between them.
pub(crate) proof fn bytes_between(cs: Seq<char>, i: nat, j: nat)
    requires
        i <= j <= cs.len(),
    ensures
        bytes_before(cs, i) <= bytes_before(cs, j) <= encode_utf8(cs).len(),
        encode_utf8(cs).subrange(bytes_before(cs, i) as int, bytes_before(cs, j) as int) == encode_utf8(
            cs.subrange(i as int, j as int),
        ),
{
    let front = cs.take(i as int);
    let mid = cs.subrange(i as int, j as int);
    let back = cs.skip(j as int);
    bytes_of_the_front(cs, i);
    bytes_of_the_front(cs, j);
    assert(front + mid =~= cs.take(j as int));
    encoding_splits(front, mid);
    encoding_splits(cs.take(j as int), back);
    assert(cs.take(j as int) + back =~= cs);
    let whole = encode_utf8(cs);
    assert(whole.subrange(encode_utf8(front).len() as int, encode_utf8(cs.take(j as int)).len() as int)
        =~= encode_utf8(mid));
}

pub(crate) proof fn run_holds(cs: Seq<char>, run: Run, i: nat)
    requires
        i <= cs.len(),
    ensures
        forall|k: int| i <= k < run_end(cs, run, i) ==> in_run(run, #[trigger] cs[k]),
    decreases cs.len() - i,
{
    if i < cs.len() && in_run(run, cs[i as int]) {
        run_holds(cs, run, i + 1);
    }
}

#[verifier::spinoff_prover]
proof fn symbols_are_no_keywords(cs: Seq<char>, i: nat)
    ensures
        symbol_at(cs, i) matches Some((k, _)) ==> !is_keyword(k),
{
}

#[verifier::spinoff_prover]
proof fn token_spells(cs: Seq<char>, j: nat, errs: Seq<(Seq<char>, Span)>)
    requires
        j < cs.len(),
        encode_utf8(cs).len() <= usize::MAX,
    ensures
        token_at(cs, j, errs).0 matches Some(kind) ==> spells_source(
            cs,
            TokenV { kind, span: span_between(cs, j, token_at(cs, j, errs).1) },
        ),
{
    let c = cs[j as int];
    token_goes_on(cs, j, errs);
    if starts_name(c) {
        let k = run_end(cs, Run::Name, j + 1);
        run_goes_on(cs, Run::Name, j + 1);
        run_holds(cs, Run::Name, j + 1);
        let x = cs.subrange(j as int, k as int);
        bytes_between(cs, j, k);
        bytes_fit(cs, j);
        bytes_fit(cs, k);
        assert forall|i: int| 0 <= i < x.len() implies continues_name(#[trigger] x[i]) by {
            assert(x[i] == cs[j + i]);
            if i > 0 {
                assert(in_run(Run::Name, cs[j + i]));
            }
        }
        assert(name_shaped(x));
        match keyword(x) {
            Some(kw) => {
                assert(keyword(x) == Some(kw));
            },
            None => {},
        }
    } else if is_digit(c) {
        number_goes_on(cs, j, errs);
        numbers_are_no_names(cs, j, errs);
    } else if c == '"' {
        string_goes_on(cs, j, j + 1, seq![], errs);
    } else if c == '\'' {
    } else {
        symbols_are_no_keywords(cs, j);
    }
}

proof fn numbers_are_no_names(cs: Seq<char>, i: nat, errs: Seq<(Seq<char>, Span)>)
    ensures
        numeral(cs, i, errs).0 is Int || numeral(cs, i, errs).0 is Float,
{
}

proof fn lexing_spells(cs: Seq<char>, i: nat, toks: Seq<TokenV>, errs: Seq<(Seq<char>, Span)>)
    requires
        i <= cs.len(),
        encode_utf8(cs).len() <= usize::MAX,
        forall|n: int| 0 <= n < toks.len() ==> spells_source(cs, #[trigger] toks[n]),
    ensures
        forall|n: int|
            0 <= n < lexed_from(cs, i, toks, errs).0.len() ==> spells_source(
                cs,
                #[trigger] lexed_from(cs, i, toks, errs).0[n],
            ),
    decreases cs.len() - i,
{
    trivia_goes_on(cs, i, errs);
    let (j, e1) = trivia(cs, i, errs);
    if j < cs.len() {
        token_goes_on(cs, j, e1);
        token_spells(cs, j, e1);
        let (kind, k, e2) = token_at(cs, j, e1);
        match kind {
            Some(kind) => {
                let more = toks.push(TokenV { kind, span: span_between(cs, j, k) });
                lexing_spells(cs, k, more, e2);
                assert(lexed_from(cs, i, toks, errs) == lexed_from(cs, k, more, e2));
            },
            None => {
                lexing_spells(cs, k, toks, e2);
                assert(lexed_from(cs, i, toks, errs) == lexed_from(cs, k, toks, e2));
            },
        }
    } else {
        let end = TokenV { kind: TokenKindV::Plain(TokenKind::Eof), span: span_between(cs, j, j) };
        assert(!is_keyword(TokenKind::Eof));
        assert(spells_source(cs, end));
        let all = lexed_from(cs, i, toks, errs).0;
        assert(all == toks.push(end));
        assert forall|n: int| 0 <= n < all.len() implies spells_source(cs, #[trigger] all[n]) by {
            if n < toks.len() {
                assert(all[n] == toks[n]);
            }
        }
    }
}

/// A name or keyword token is what the source spells under its span: a name is
/// shaped like one and no keyword, and a keyword is the one spelled there.
pub proof fn names_and_keywords_spell_the_source(s: Seq<char>)
    requires
        encode_utf8(s).len() <= usize::MAX,
    ensures
        forall|n: int| 0 <= n < lexed(s).0.len() ==> spells_source(s, #[trigger] lexed(s).0[n]),
{
    lexing_spells(s, 0, seq![], seq![]);
}

} // verus!
