//! File-based module expansion.
//!
//! `mod name;` loads `name.rn` and puts its tokens in, as though the user had
//! written `mod name { .. }`. This happens between lexing and parsing, so that
//! what comes after sees inline modules only.
//!
//! Each loaded file takes a slice of its own of the global byte offsets: its
//! spans are shifted by a base, so that no two files share an offset. A
//! [`SourceMap`] says which file an offset belongs to.

use vstd::prelude::*;
use vstd::utf8::encode_utf8;

use crate::ast::Ident;
use crate::lexer::{LexError, Lexer, TokenV, lex_error_views, lexed, token_view, token_views};
use crate::text::{cat2, cat3, cat6, dec, has_text, join, joined, number, texts};
use crate::token::{Span, Token, TokenKind, TokenKindV};

verus! {

/// How many modules may be loaded one inside another: as many as can be
/// counted.
pub const MODULE_DEPTH: usize = usize::MAX;

/// A `mod name;` whose file is missing, or that loads itself again.
#[derive(Debug, Clone, PartialEq, Eq)]
pub struct ModuleError {
    pub message: String,
    pub span: Span,
}

impl ModuleError {
    /// The error as it is shown.
    pub fn display(&self) -> (r: String)
        ensures
            r@ == "module error at "@ + dec(self.span.start as nat) + ".."@ + dec(self.span.end as nat) + ": "@
                + self.message@,
    {
        cat6(
            "module error at ",
            &number(self.span.start),
            "..",
            &number(self.span.end),
            ": ",
            &self.message,
        )
    }
}

pub open spec fn module_error_views(es: Seq<ModuleError>) -> Seq<(Seq<char>, Span)> {
    Seq::new(es.len(), |i: int| (es[i].message@, es[i].span))
}

// ---- which file an offset belongs to ----

/// A file with the offsets it takes.
pub struct SourceFile {
    label: String,
    start: usize,
    end: usize,
}

pub struct FileV {
    pub label: Seq<char>,
    pub start: usize,
    pub end: usize,
}

impl View for SourceFile {
    type V = FileV;

    closed spec fn view(&self) -> FileV {
        FileV { label: self.label@, start: self.start, end: self.end }
    }
}

pub open spec fn file_views(fs: Seq<SourceFile>) -> Seq<FileV> {
    Seq::new(fs.len(), |i: int| fs[i]@)
}

/// Which file takes which slice of the offsets.
pub struct SourceMap {
    files: Vec<SourceFile>,
}

impl View for SourceMap {
    type V = Seq<FileV>;

    closed spec fn view(&self) -> Seq<FileV> {
        file_views(self.files@)
    }
}

/// The first file that holds an offset, with the offset inside it.
pub open spec fn located(files: Seq<FileV>, offset: usize) -> Option<(Seq<char>, usize)>
    decreases files.len(),
{
    if files.len() == 0 {
        None
    } else if files[0].start <= offset < files[0].end {
        Some((files[0].label, (offset - files[0].start) as usize))
    } else {
        located(files.skip(1), offset)
    }
}

pub open spec fn summary_line(f: FileV) -> Seq<char> {
    "  "@ + f.label + ": "@ + dec(f.start as nat) + ".."@ + dec(f.end as nat)
}

impl SourceMap {
    /// The file that holds an offset, with the offset inside it.
    pub fn locate(&self, offset: usize) -> (r: Option<(&str, usize)>)
        ensures
            match r {
                Some((label, at)) => located(self@, offset) == Some((label@, at)),
                None => located(self@, offset) is None,
            },
    {
        let mut i: usize = 0;
        assert(self@.skip(0) =~= self@);
        while i < self.files.len()
            invariant
                i <= self.files.len(),
                located(self@, offset) == located(self@.skip(i as int), offset),
            decreases self.files.len() - i,
        {
            let f = &self.files[i];
            assert(self@[i as int] == f@);
            assert(self@.skip(i as int).skip(1) =~= self@.skip(i + 1));
            if offset >= f.start && offset < f.end {
                return Some((f.label.as_str(), offset - f.start));
            }
            i += 1;
        }
        None
    }

    /// Whether a module was loaded beside the main source.
    pub fn is_multi_file(&self) -> (r: bool)
        ensures
            r == (self@.len() > 1),
    {
        self.files.len() > 1
    }

    /// One `  label: start..end` line for each file.
    pub fn summary(&self) -> (r: String)
        ensures
            r@ == joined(Seq::new(self@.len(), |i: int| summary_line(self@[i])), "\n"@),
    {
        let mut lines: Vec<String> = Vec::new();
        let mut i: usize = 0;
        while i < self.files.len()
            invariant
                i <= self.files.len(),
                lines.len() == i,
                forall|j: int| 0 <= j < i ==> (#[trigger] lines[j])@ == summary_line(self@[j]),
            decreases self.files.len() - i,
        {
            let f = &self.files[i];
            assert(self@[i as int] == f@);
            lines.push(cat6("  ", &f.label, ": ", &number(f.start), "..", &number(f.end)));
            i += 1;
        }
        assert(texts(lines@) =~= Seq::new(self@.len(), |i: int| summary_line(self@[i])));
        join(&lines, "\n")
    }
}

// ---- expansion ----

/// A token list ready for the parser, with what was gathered on the way.
pub struct Expansion {
    pub tokens: Vec<Token>,
    pub lex_errors: Vec<LexError>,
    pub module_errors: Vec<ModuleError>,
    pub source_map: SourceMap,
}

/// What the loader gives on each of its calls, counted from zero, when it is
/// asked for a module's name.
pub type Lookup = spec_fn(nat, Seq<char>) -> Option<Seq<char>>;

/// The calls of the loader in their order: the name asked for and the text
/// given.
pub type Calls = Seq<(Seq<char>, Option<Seq<char>>)>;

/// Whether a loader may give a text for a name.
pub open spec fn may_give<F: Fn(&str) -> Option<String>>(
    loader: F,
    name: Seq<char>,
    text: Option<Seq<char>>,
) -> bool {
    exists|s: &str, r: Option<String>| #[trigger]
        call_ensures(loader, (s,), r) && s@ == name && opt_text(r) == text
}

/// Calls that a loader answers.
pub open spec fn answered_by<F: Fn(&str) -> Option<String>>(loader: F, calls: Calls) -> bool {
    forall|k: int| 0 <= k < calls.len() ==> may_give(loader, (#[trigger] calls[k]).0, calls[k].1)
}

/// The answers that some calls got.
pub open spec fn told(calls: Calls) -> Lookup {
    |k: nat, name: Seq<char>|
        if k < calls.len() {
            calls[k as int].1
        } else {
            None
        }
}

/// Whether some calls got the answers that a lookup gives.
pub open spec fn agrees(f: Lookup, calls: Calls) -> bool {
    forall|k: int| 0 <= k < calls.len() ==> f(k as nat, (#[trigger] calls[k]).0) == calls[k].1
}

/// A loader that gives, for each name, what a function says.
pub open spec fn answers<F: Fn(&str) -> Option<String>>(
    loader: F,
    f: spec_fn(Seq<char>) -> Option<Seq<char>>,
) -> bool {
    forall|s: &str, r: Option<String>| #[trigger]
        call_ensures(loader, (s,), r) ==> opt_text(r) == f(s@)
}

/// The same answer for a name on every call.
pub open spec fn by_name(f: spec_fn(Seq<char>) -> Option<Seq<char>>) -> Lookup {
    |k: nat, name: Seq<char>| f(name)
}

pub open spec fn opt_text(s: Option<String>) -> Option<Seq<char>> {
    match s {
        Some(s) => Some(s@),
        None => None,
    }
}

/// What loading has gathered so far.
pub struct LoadsV {
    /// Where the next file's offsets begin.
    pub next_base: usize,
    pub files: Seq<FileV>,
    pub lex_errors: Seq<(Seq<char>, Span)>,
    pub module_errors: Seq<(Seq<char>, Span)>,
    /// What the loader was asked.
    pub calls: Calls,
}

pub open spec fn wrapped_sum(a: usize, b: usize) -> usize {
    if a + b <= usize::MAX {
        (a + b) as usize
    } else {
        (a + b - usize::MAX - 1) as usize
    }
}

pub open spec fn shifted(span: Span, base: usize) -> Span {
    Span { start: wrapped_sum(span.start, base), end: wrapped_sum(span.end, base) }
}

pub open spec fn shifted_tokens(toks: Seq<TokenV>, base: usize) -> Seq<TokenV> {
    Seq::new(toks.len(), |i: int| TokenV { kind: toks[i].kind, span: shifted(toks[i].span, base) })
}

pub open spec fn shifted_errors(es: Seq<(Seq<char>, Span)>, base: usize) -> Seq<(Seq<char>, Span)> {
    Seq::new(es.len(), |i: int| (es[i].0, shifted(es[i].1, base)))
}

/// The tokens without an end token at their end.
pub open spec fn without_eof(toks: Seq<TokenV>) -> Seq<TokenV> {
    if toks.len() > 0 && toks.last().kind == TokenKindV::Plain(TokenKind::Eof) {
        toks.drop_last()
    } else {
        toks
    }
}

/// The name in `mod name ;` at a position, with its span.
pub open spec fn file_mod(toks: Seq<TokenV>, i: nat) -> Option<(Seq<char>, Span)> {
    if i + 2 >= toks.len() || toks[i as int].kind != TokenKindV::Plain(TokenKind::Mod)
        || toks[(i + 2) as int].kind != TokenKindV::Plain(TokenKind::Semi) {
        None
    } else {
        match toks[(i + 1) as int].kind {
            TokenKindV::Ident(name) => Some((name, toks[(i + 1) as int].span)),
            _ => None,
        }
    }
}

/// A token list in which every module is inline.
pub open spec fn all_inline(toks: Seq<TokenV>) -> bool {
    forall|k: nat| #[trigger] file_mod(toks, k) is None
}

/// What holds while tokens are copied from `toks`, up to `i`, to the end of
/// `out`: nothing is left to load in `out`, and where `out` ends with the
/// beginning of a module, that beginning was met in `toks` and is no
/// `mod name ;`.
pub open spec fn copied_so_far(toks: Seq<TokenV>, i: nat, out: Seq<TokenV>) -> bool {
    &&& all_inline(out)
    &&& out.len() > 0 && out.last().kind == TokenKindV::Plain(TokenKind::Mod) ==> i > 0 && toks[i - 1] == out.last()
        && file_mod(toks, (i - 1) as nat) is None
    &&& out.len() > 1 && out[out.len() - 2].kind == TokenKindV::Plain(TokenKind::Mod) && out.last().kind is Ident
        ==> i > 1 && toks[i - 2] == out[out.len() - 2] && toks[i - 1] == out.last() && file_mod(
        toks,
        (i - 2) as nat,
    ) is None
}

proof fn copying_one(toks: Seq<TokenV>, i: nat, out: Seq<TokenV>)
    requires
        i < toks.len(),
        copied_so_far(toks, i, out),
        file_mod(toks, i) is None,
    ensures
        copied_so_far(toks, i + 1, out.push(toks[i as int])),
{
    let after = out.push(toks[i as int]);
    assert forall|k: nat| #[trigger] file_mod(after, k) is None by {
        assert(file_mod(out, k) is None);
        if k + 2 == out.len() && file_mod(after, k) is Some {
            assert(out[out.len() - 2].kind == TokenKindV::Plain(TokenKind::Mod));
            assert(out.last().kind is Ident);
            assert(file_mod(toks, (i - 2) as nat) is Some);
        }
    }
}

proof fn putting_in(toks: Seq<TokenV>, i: nat, out: Seq<TokenV>, body: Seq<TokenV>, semi: Span)
    requires
        i + 2 < toks.len(),
        copied_so_far(toks, i, out),
        all_inline(body),
        file_mod(toks, i) is Some,
    ensures
        copied_so_far(
            toks,
            i + 3,
            (out.push(toks[i as int]).push(toks[(i + 1) as int]).push(brace(TokenKind::LBrace, semi)) + body).push(
                brace(TokenKind::RBrace, semi),
            ),
        ),
{
    let head = out.push(toks[i as int]).push(toks[(i + 1) as int]).push(brace(TokenKind::LBrace, semi));
    let after = (head + body).push(brace(TokenKind::RBrace, semi));
    let n = out.len();
    assert forall|k: nat| #[trigger] file_mod(after, k) is None by {
        assert(file_mod(out, k) is None);
        if k >= n + 3 {
            assert(file_mod(body, (k - n - 3) as nat) is None);
        }
        if file_mod(after, k) is Some {
            let third = after[(k + 2) as int];
            if k + 2 < n {
                assert(after[k as int] == out[k as int]);
                assert(after[(k + 1) as int] == out[(k + 1) as int]);
                assert(third == out[(k + 2) as int]);
            } else if k + 2 == n {
                assert(third == toks[i as int]);
            } else if k + 2 == n + 1 {
                assert(third == toks[(i + 1) as int]);
            } else if k + 2 == n + 2 {
                assert(third == brace(TokenKind::LBrace, semi));
            } else if k + 2 == n + 3 {
                assert(after[k as int] == toks[(i + 1) as int]);
            } else if k + 2 == n + 4 {
                assert(after[k as int] == brace(TokenKind::LBrace, semi));
            } else if k + 2 < n + 3 + body.len() {
                assert(after[k as int] == body[k - n - 3]);
                assert(after[(k + 1) as int] == body[k + 1 - n - 3]);
                assert(third == body[k + 2 - n - 3]);
            } else {
                assert(third == brace(TokenKind::RBrace, semi));
            }
        }
    }
}

pub open spec fn brace(k: TokenKind, span: Span) -> TokenV {
    TokenV { kind: TokenKindV::Plain(k), span }
}

pub open spec fn file_size(s: Seq<char>) -> usize {
    encode_utf8(s).len() as usize
}

pub open spec fn with_module_error(st: LoadsV, message: Seq<char>, span: Span) -> LoadsV {
    LoadsV { module_errors: st.module_errors.push((message, span)), ..st }
}

/// The tokens from a position on, after those before, with each `mod name;`
/// replaced by the module that it loads. `stack` holds the names of the
/// modules being loaded.
pub open spec fn spliced(
    f: Lookup,
    st: LoadsV,
    stack: Seq<Seq<char>>,
    toks: Seq<TokenV>,
    i: nat,
    out: Seq<TokenV>,
    d: nat,
) -> (LoadsV, Seq<TokenV>)
    decreases d, 1 + toks.len() - i,
{
    if i >= toks.len() {
        (st, out)
    } else {
        match file_mod(toks, i) {
            Some((name, span)) => {
                let semi = toks[(i + 2) as int].span;
                let head = out.push(toks[i as int]).push(toks[(i + 1) as int]).push(brace(TokenKind::LBrace, semi));
                let (after, body) = loaded(f, st, stack, name, span, d);
                spliced(f, after, stack, toks, i + 3, (head + body).push(brace(TokenKind::RBrace, semi)), d)
            },
            None => spliced(f, st, stack, toks, i + 1, out.push(toks[i as int]), d),
        }
    }
}

/// A module's file with the next offsets, and its lexical errors.
pub open spec fn with_file(st: LoadsV, name: Seq<char>, source: Seq<char>) -> LoadsV {
    let base = st.next_base;
    let end = wrapped_sum(base, file_size(source));
    LoadsV {
        next_base: wrapped_sum(end, 1),
        files: st.files.push(FileV { label: name + ".rn"@, start: base, end }),
        lex_errors: st.lex_errors + shifted_errors(lexed(source).1, base),
        ..st
    }
}

/// The tokens of a module's file, at offsets of their own, with the modules
/// that it loads in turn.
pub open spec fn loaded(
    f: Lookup,
    st: LoadsV,
    stack: Seq<Seq<char>>,
    name: Seq<char>,
    span: Span,
    d: nat,
) -> (LoadsV, Seq<TokenV>)
    decreases d, 0int,
{
    if stack.contains(name) {
        (
            with_module_error(
                st,
                "circular module dependency — `"@ + name + "` is already being loaded"@,
                span,
            ),
            seq![],
        )
    } else if d == 0 {
        (with_module_error(st, "modules are nested too deeply at `"@ + name + "`"@, span), seq![])
    } else {
        let answer = f(st.calls.len(), name);
        let asked = LoadsV { calls: st.calls.push((name, answer)), ..st };
        match answer {
            None => (with_module_error(asked, "cannot find module file `"@ + name + ".rn`"@, span), seq![]),
            Some(source) => {
                let base = st.next_base;
                let toks = lexed(source).0;
                spliced(
                    f,
                    with_file(asked, name, source),
                    stack.push(name),
                    without_eof(shifted_tokens(toks, base)),
                    0,
                    seq![],
                    (d - 1) as nat,
                )
            },
        }
    }
}

/// What has been gathered when the main source is lexed. The offsets of loaded
/// files begin after it, with a gap of one.
pub open spec fn main_loads(source: Seq<char>, label: Seq<char>) -> LoadsV {
    LoadsV {
        next_base: wrapped_sum(file_size(source), 1),
        files: seq![FileV { label, start: 0, end: file_size(source) }],
        lex_errors: lexed(source).1,
        module_errors: seq![],
        calls: seq![],
    }
}

/// The main source with every module it loads, and what was gathered.
pub open spec fn expanded(source: Seq<char>, label: Seq<char>, f: Lookup) -> (LoadsV, Seq<TokenV>) {
    spliced(f, main_loads(source, label), seq![], lexed(source).0, 0, seq![], MODULE_DEPTH as nat)
}

/// Whether an expansion is the one that a lookup leads to.
pub open spec fn is_expansion(r: Expansion, source: Seq<char>, label: Seq<char>, f: Lookup) -> bool {
    let (st, toks) = expanded(source, label, f);
    &&& token_views(r.tokens@) == toks
    &&& r.source_map@ == st.files
    &&& lex_error_views(r.lex_errors@) == st.lex_errors
    &&& module_error_views(r.module_errors@) == st.module_errors
}

// ---- carrying it out ----

struct Loads {
    next_base: usize,
    files: Vec<SourceFile>,
    lex_errors: Vec<LexError>,
    module_errors: Vec<ModuleError>,
    calls: Ghost<Calls>,
}

impl View for Loads {
    type V = LoadsV;

    closed spec fn view(&self) -> LoadsV {
        LoadsV {
            next_base: self.next_base,
            files: file_views(self.files@),
            lex_errors: lex_error_views(self.lex_errors@),
            module_errors: module_error_views(self.module_errors@),
            calls: self.calls@,
        }
    }
}

impl Loads {
    fn fail(&mut self, message: String, span: Span)
        ensures
            final(self)@ == with_module_error(old(self)@, message@, span),
    {
        self.module_errors.push(ModuleError { message, span });
        assert(self@.module_errors =~= old(self)@.module_errors.push((message@, span)));
    }

    /// Gives a file its offsets and takes over its errors.
    fn enter(&mut self, label: String, base: usize, end: usize, errors: Vec<LexError>)
        ensures
            final(self)@ == (LoadsV {
                next_base: wrapped_sum(end, 1),
                files: old(self)@.files.push(FileV { label: label@, start: base, end }),
                lex_errors: old(self)@.lex_errors + shifted_errors(lex_error_views(errors@), base),
                module_errors: old(self)@.module_errors,
                calls: old(self)@.calls,
            }),
    {
        self.next_base = end.wrapping_add(1);
        self.files.push(SourceFile { label, start: base, end });
        assert(self@.files =~= old(self)@.files.push(FileV { label: label@, start: base, end }));
        let mut shifted_list = shift_errors(errors, base);
        self.lex_errors.append(&mut shifted_list);
        assert(self@.lex_errors =~= old(self)@.lex_errors + shifted_errors(lex_error_views(errors@), base));
    }
}

fn shift(span: Span, base: usize) -> (r: Span)
    ensures
        r == shifted(span, base),
{
    Span::new(span.start.wrapping_add(base), span.end.wrapping_add(base))
}

/// The same items, last first.
fn backwards<T>(items: Vec<T>) -> (r: Vec<T>)
    ensures
        r@ == items@.reverse(),
{
    let ghost whole = items@;
    let mut items = items;
    let mut out: Vec<T> = Vec::new();
    while items.len() > 0
        invariant
            items.len() <= whole.len(),
            items@ == whole.take(items.len() as int),
            out@ == whole.skip(items.len() as int).reverse(),
        decreases items.len(),
    {
        let ghost n = items.len() as int;
        if let Some(x) = items.pop() {
            out.push(x);
            assert(whole.skip(n - 1).reverse() =~= whole.skip(n).reverse().push(whole[n - 1]));
        }
    }
    assert(whole.skip(0) =~= whole);
    out
}

fn shift_errors(errors: Vec<LexError>, base: usize) -> (r: Vec<LexError>)
    ensures
        lex_error_views(r@) == shifted_errors(lex_error_views(errors@), base),
{
    let ghost whole = errors@;
    let mut rest = backwards(errors);
    let mut out: Vec<LexError> = Vec::new();
    while rest.len() > 0
        invariant
            rest.len() + out.len() == whole.len(),
            rest@ == whole.reverse().take(rest.len() as int),
            forall|j: int|
                0 <= j < out.len() ==> (#[trigger] out[j]).message@ == whole[j].message@ && out[j].span == shifted(
                    whole[j].span,
                    base,
                ),
        decreases rest.len(),
    {
        let ghost n = rest.len() as int;
        if let Some(e) = rest.pop() {
            assert(e == whole.reverse()[n - 1]);
            out.push(LexError { message: e.message, span: shift(e.span, base) });
        }
    }
    assert(lex_error_views(out@) =~= shifted_errors(lex_error_views(whole), base));
    out
}

/// A file's tokens at its offsets, without the end token.
fn body_tokens(tokens: Vec<Token>, base: usize) -> (r: Vec<Token>)
    ensures
        token_views(r@) == without_eof(shifted_tokens(token_views(tokens@), base)),
{
    let ghost whole = tokens@;
    let mut rest = backwards(tokens);
    let mut out: Vec<Token> = Vec::new();
    while rest.len() > 0
        invariant
            rest.len() + out.len() == whole.len(),
            rest@ == whole.reverse().take(rest.len() as int),
            forall|j: int|
                0 <= j < out.len() ==> (#[trigger] out[j]).kind == whole[j].kind && out[j].span == shifted(
                    whole[j].span,
                    base,
                ),
        decreases rest.len(),
    {
        let ghost n = rest.len() as int;
        if let Some(t) = rest.pop() {
            assert(t == whole.reverse()[n - 1]);
            out.push(Token::new(t.kind, shift(t.span, base)));
        }
    }
    assert(token_views(out@) =~= shifted_tokens(token_views(whole), base));
    if out.len() > 0 {
        let ghost all = out@;
        assert(token_views(all).last() == token_view(all.last()));
        let last = matches!(out[out.len() - 1].kind, TokenKind::Eof);
        if last {
            out.pop();
            assert(token_views(out@) =~= token_views(all).drop_last());
        }
    }
    out
}

/// The name in `mod name ;` where `rest` holds the tokens last first.
fn file_mod_at(rest: &Vec<Token>, Ghost(toks): Ghost<Seq<TokenV>>, Ghost(i): Ghost<nat>) -> (r: Option<
    (String, Span),
>)
    requires
        i < toks.len(),
        rest.len() == toks.len() - i,
        forall|j: int| 0 <= j < rest.len() ==> token_view(#[trigger] rest[j]) == toks[toks.len() - 1 - j],
    ensures
        match r {
            Some((name, span)) => file_mod(toks, i) == Some((name@, span)),
            None => file_mod(toks, i) is None,
        },
{
    let n = rest.len();
    if n < 3 {
        return None;
    }
    let first = &rest[n - 1];
    let second = &rest[n - 2];
    let third = &rest[n - 3];
    assert(token_view(*first) == toks[i as int]);
    assert(token_view(*second) == toks[(i + 1) as int]);
    assert(token_view(*third) == toks[(i + 2) as int]);
    if !matches!(first.kind, TokenKind::Mod) || !matches!(third.kind, TokenKind::Semi) {
        return None;
    }
    match &second.kind {
        TokenKind::Ident(name) => Some((name.clone(), second.span)),
        _ => None,
    }
}

proof fn agrees_before(f: Lookup, few: Calls, many: Calls)
    requires
        few.is_prefix_of(many),
        agrees(f, many),
    ensures
        agrees(f, few),
{
    assert forall|k: int| 0 <= k < few.len() implies f(k as nat, (#[trigger] few[k]).0) == few[k].1 by {
        assert(many.subrange(0, few.len() as int)[k] == many[k]);
    }
}

fn expand_stream<F: Fn(&str) -> Option<String>>(
    loader: &F,
    st: &mut Loads,
    stack: &mut Vec<String>,
    tokens: Vec<Token>,
    depth: usize,
) -> (r: Vec<Token>)
    requires
        forall|s: &str| call_requires(*loader, (s,)),
    ensures
        texts(final(stack)@) == texts(old(stack)@),
        all_inline(token_views(r@)),
        old(st)@.files.is_prefix_of(final(st)@.files),
        old(st)@.calls.is_prefix_of(final(st)@.calls),
        answered_by(*loader, old(st)@.calls) ==> answered_by(*loader, final(st)@.calls),
        forall|f: Lookup| #[trigger]
            agrees(f, final(st)@.calls) ==> (final(st)@, token_views(r@)) == spliced(
                f,
                old(st)@,
                texts(old(stack)@),
                token_views(tokens@),
                0,
                seq![],
                depth as nat,
            ),
    decreases depth, 1int,
{
    let ghost toks = token_views(tokens@);
    let ghost names = texts(stack@);
    let ghost start = st@;
    let ghost whole = tokens@;
    let mut rest = backwards(tokens);
    let mut out: Vec<Token> = Vec::new();
    assert(token_views(out@) =~= seq![]);
    assert forall|j: int| 0 <= j < rest.len() implies token_view(#[trigger] rest[j]) == toks[toks.len() - 1 - j] by {
        assert(rest[j] == whole[whole.len() - 1 - j]);
    }
    while rest.len() > 0
        invariant
            forall|s: &str| call_requires(*loader, (s,)),
            texts(stack@) == names,
            rest.len() <= toks.len(),
            old(st)@.files.is_prefix_of(st@.files),
            old(st)@.calls.is_prefix_of(st@.calls),
            answered_by(*loader, old(st)@.calls) ==> answered_by(*loader, st@.calls),
            start == old(st)@,
            copied_so_far(toks, (toks.len() - rest.len()) as nat, token_views(out@)),
            forall|j: int| 0 <= j < rest.len() ==> token_view(#[trigger] rest[j]) == toks[toks.len() - 1 - j],
            forall|f: Lookup| #[trigger]
                agrees(f, st@.calls) ==> spliced(f, start, names, toks, 0, seq![], depth as nat) == spliced(
                    f,
                    st@,
                    names,
                    toks,
                    (toks.len() - rest.len()) as nat,
                    token_views(out@),
                    depth as nat,
                ),
        decreases rest.len(),
    {
        let ghost i = (toks.len() - rest.len()) as nat;
        let ghost before = st@;
        let ghost done = token_views(out@);
        match file_mod_at(&rest, Ghost(toks), Ghost(i)) {
            Some((name, span)) => {
                let ghost name_text = name@;
                let third = rest[rest.len() - 3].span;
                assert(third == toks[(i + 2) as int].span);
                take_last(&mut rest, &mut out);
                take_last(&mut rest, &mut out);
                rest.pop();
                out.push(Token::new(TokenKind::LBrace, third));
                let ghost head = done.push(toks[i as int]).push(toks[(i + 1) as int]).push(
                    brace(TokenKind::LBrace, third),
                );
                assert(token_views(out@) =~= head);
                let mut body = load(loader, st, stack, name, span, depth);
                let ghost body_views = token_views(body@);
                proof {
                    assert forall|f: Lookup| #[trigger] agrees(f, st@.calls) implies agrees(f, before.calls) by {
                        agrees_before(f, before.calls, st@.calls);
                    }
                }
                out.append(&mut body);
                out.push(Token::new(TokenKind::RBrace, third));
                assert(token_views(out@) =~= (head + body_views).push(brace(TokenKind::RBrace, third)));
                proof {
                    putting_in(toks, i, done, body_views, third);
                }
            },
            None => {
                take_last(&mut rest, &mut out);
                assert(token_views(out@) =~= done.push(toks[i as int]));
                proof {
                    copying_one(toks, i, done);
                }
            },
        }
    }
    out
}

/// Moves the last item of a list to the end of another.
fn take_last<T>(from: &mut Vec<T>, to: &mut Vec<T>)
    requires
        old(from).len() > 0,
    ensures
        final(from)@ == old(from)@.drop_last(),
        final(to)@ == old(to)@.push(old(from)@.last()),
{
    if let Some(x) = from.pop() {
        to.push(x);
    }
}

fn load<F: Fn(&str) -> Option<String>>(
    loader: &F,
    st: &mut Loads,
    stack: &mut Vec<String>,
    name: String,
    span: Span,
    depth: usize,
) -> (r: Vec<Token>)
    requires
        forall|s: &str| call_requires(*loader, (s,)),
    ensures
        texts(final(stack)@) == texts(old(stack)@),
        all_inline(token_views(r@)),
        old(st)@.files.is_prefix_of(final(st)@.files),
        old(st)@.calls.is_prefix_of(final(st)@.calls),
        answered_by(*loader, old(st)@.calls) ==> answered_by(*loader, final(st)@.calls),
        forall|f: Lookup| #[trigger]
            agrees(f, final(st)@.calls) ==> (final(st)@, token_views(r@)) == loaded(
                f,
                old(st)@,
                texts(old(stack)@),
                name@,
                span,
                depth as nat,
            ),
    decreases depth, 0int,
{
    let ghost names = texts(stack@);
    let none: Vec<Token> = Vec::new();
    assert(token_views(none@) =~= seq![]);
    if has_text(stack, &name) {
        st.fail(cat3("circular module dependency — `", &name, "` is already being loaded"), span);
        return none;
    }
    if depth == 0 {
        st.fail(cat3("modules are nested too deeply at `", &name, "`"), span);
        return none;
    }
    let got = loader(name.as_str());
    let ghost answer = opt_text(got);
    st.calls = Ghost(st.calls@.push((name@, answer)));
    let ghost asked = st@;
    proof {
        assert(may_give(*loader, name@, answer));
        assert(asked == LoadsV { calls: old(st)@.calls.push((name@, answer)), ..old(st)@ });
        assert(asked.calls[asked.calls.len() - 1] == (name@, answer));
        assert forall|k: int| answered_by(*loader, old(st)@.calls) && 0 <= k < asked.calls.len() implies may_give(
            *loader,
            (#[trigger] asked.calls[k]).0,
            asked.calls[k].1,
        ) by {
            if k < old(st)@.calls.len() {
                assert(asked.calls[k] == old(st)@.calls[k]);
            }
        }
        assert forall|f: Lookup| #[trigger] agrees(f, asked.calls) implies f(old(st)@.calls.len(), name@) == answer by {
            assert(asked.calls[old(st)@.calls.len() as int] == (name@, answer));
        }
    }
    match got {
        None => {
            st.fail(cat3("cannot find module file `", &name, ".rn`"), span);
            none
        },
        Some(source) => {
            let base = st.next_base;
            let size = source.as_str().as_bytes().len();
            let end = base.wrapping_add(size);
            let (tokens, errors) = Lexer::new(&source).tokenize();
            st.enter(cat2(&name, ".rn"), base, end, errors);
            assert(st@ == with_file(asked, name@, source@));
            let body = body_tokens(tokens, base);
            let ghost name_text = name@;
            stack.push(name);
            assert(texts(stack@) =~= names.push(name_text));
            let expanded_body = expand_stream(loader, st, stack, body, depth - 1);
            let ghost inner = stack@;
            stack.pop();
            assert(texts(stack@) =~= texts(inner).drop_last());
            assert(names.push(name_text).drop_last() =~= names);
            proof {
                assert forall|f: Lookup| #[trigger] agrees(f, st@.calls) implies agrees(f, asked.calls) by {
                    agrees_before(f, asked.calls, st@.calls);
                }
            }
            expanded_body
        },
    }
}

/// Lexes `main_source` and replaces every `mod name;` by the module whose text
/// `loader` gives for the name. What comes out holds inline modules only. It is
/// what the loader's answers lead to, call by call, whether or not they are the
/// same for a name each time.
pub fn expand_modules<F: Fn(&str) -> Option<String>>(
    main_source: &str,
    main_label: &str,
    loader: &F,
) -> (r: Expansion)
    requires
        forall|s: &str| call_requires(*loader, (s,)),
    ensures
        all_inline(token_views(r.tokens@)),
        r.source_map@.len() > 0,
        r.source_map@[0] == (FileV { label: main_label@, start: 0, end: file_size(main_source@) }),
        exists|calls: Calls| #[trigger]
            answered_by(*loader, calls) && is_expansion(r, main_source@, main_label@, told(calls)) && expanded(
                main_source@,
                main_label@,
                told(calls),
            ).0.calls == calls,
        forall|f: spec_fn(Seq<char>) -> Option<Seq<char>>| #[trigger]
            answers(*loader, f) ==> is_expansion(r, main_source@, main_label@, by_name(f)),
{
    let (tokens, lex_errors) = Lexer::new(main_source).tokenize();
    let size = main_source.as_bytes().len();
    let mut files: Vec<SourceFile> = Vec::new();
    files.push(SourceFile { label: main_label.to_owned(), start: 0, end: size });
    let ghost none: Calls = seq![];
    let mut st = Loads {
        next_base: size.wrapping_add(1),
        files,
        lex_errors,
        module_errors: Vec::new(),
        calls: Ghost(none),
    };
    let mut stack: Vec<String> = Vec::new();
    assert(texts(stack@) =~= seq![]);
    assert(st@.files =~= main_loads(main_source@, main_label@).files);
    assert(st@.module_errors =~= seq![]);
    let ghost first = st@.files;
    let tokens = expand_stream(loader, &mut st, &mut stack, tokens, MODULE_DEPTH);
    assert(st@.files.subrange(0, first.len() as int)[0] == first[0]);
    let ghost calls = st@.calls;
    let ghost end = st@;
    let r = Expansion {
        tokens,
        lex_errors: st.lex_errors,
        module_errors: st.module_errors,
        source_map: SourceMap { files: st.files },
    };
    proof {
        assert(r.source_map@ == end.files);
        assert(agrees(told(calls), calls));
        assert(answered_by(*loader, calls));
        assert forall|f: spec_fn(Seq<char>) -> Option<Seq<char>>| #[trigger] answers(*loader, f) implies is_expansion(
            r,
            main_source@,
            main_label@,
            by_name(f),
        ) by {
            assert forall|k: int| 0 <= k < calls.len() implies by_name(f)(k as nat, (#[trigger] calls[k]).0)
                == calls[k].1 by {
                assert(may_give(*loader, calls[k].0, calls[k].1));
            }
            assert(agrees(by_name(f), calls));
        }
    }
    r
}

} // verus!
