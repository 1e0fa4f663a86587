//! What holds of every expansion of modules.

use vstd::prelude::*;
use vstd::utf8::encode_utf8;

use crate::lexer::{TokenV, lexed};
use crate::lexer_laws::{errors_lie_inside_the_text, one_end_token, spans_are_in_order};
use crate::modules::{
    Calls, FileV, LoadsV, Lookup, MODULE_DEPTH, brace, expanded, file_mod, file_size, loaded,
    located, main_loads, shifted, shifted_errors, shifted_tokens, spliced, with_file,
    without_eof, wrapped_sum,
};
use crate::token::{Span, TokenKind};

verus! {

/// A list of tokens that loads no module stays as it is, and nothing else is
/// gathered.
proof fn splicing_nothing(
    f: Lookup,
    st: LoadsV,
    stack: Seq<Seq<char>>,
    toks: Seq<TokenV>,
    i: nat,
    out: Seq<TokenV>,
    d: nat,
)
    requires
        forall|k: nat| #[trigger] file_mod(toks, k) is None,
        i <= toks.len(),
        out == toks.take(i as int),
    ensures
        spliced(f, st, stack, toks, i, out, d) == (st, toks),
    decreases toks.len() - i,
{
    if i < toks.len() {
        assert(file_mod(toks, i) is None);
        assert(toks.take(i as int + 1) =~= out.push(toks[i as int]));
        splicing_nothing(f, st, stack, toks, i + 1, out.push(toks[i as int]), d);
    } else {
        assert(toks.take(i as int) =~= toks);
    }
}

/// A source that loads no module is lexed and left as it is, whatever the
/// loader would give: one file, and no module error.
pub proof fn single_file_is_left_as_it_is(source: Seq<char>, label: Seq<char>, f: Lookup)
    requires
        forall|k: nat| #[trigger] file_mod(lexed(source).0, k) is None,
    ensures
        expanded(source, label, f).1 == lexed(source).0,
        expanded(source, label, f).0.lex_errors == lexed(source).1,
        expanded(source, label, f).0.module_errors.len() == 0,
        expanded(source, label, f).0.files.len() == 1,
{
    let toks = lexed(source).0;
    assert(toks.take(0) =~= seq![]);
    splicing_nothing(f, main_loads(source, label), seq![], toks, 0, seq![], MODULE_DEPTH as nat);
}

// ---- the files that calls lead to ----

/// The texts of the files: the main source, then what the first `k` calls of
/// the loader gave, in their order.
pub open spec fn texts_given(source: Seq<char>, calls: Calls, k: nat) -> Seq<Seq<char>>
    decreases k,
{
    if k == 0 || k > calls.len() {
        seq![source]
    } else {
        match calls[k - 1].1 {
            Some(text) => texts_given(source, calls, (k - 1) as nat).push(text),
            None => texts_given(source, calls, (k - 1) as nat),
        }
    }
}

/// The files: the main source from offset zero, then one for each text that the
/// first `k` calls gave. Each begins one after the end of the one before and
/// takes as many offsets as its text has bytes.
pub open spec fn files_given(source: Seq<char>, label: Seq<char>, calls: Calls, k: nat) -> Seq<FileV>
    decreases k,
{
    if k == 0 || k > calls.len() {
        seq![FileV { label, start: 0, end: file_size(source) }]
    } else {
        let before = files_given(source, label, calls, (k - 1) as nat);
        match calls[k - 1].1 {
            Some(text) => {
                let start = wrapped_sum(before.last().end, 1);
                before.push(
                    FileV { label: calls[k - 1].0 + ".rn"@, start, end: wrapped_sum(start, file_size(text)) },
                )
            },
            None => before,
        }
    }
}

/// The lexical errors: those of the main source, then those of each text that
/// the first `k` calls gave, at the offsets of its file.
pub open spec fn errors_given(source: Seq<char>, label: Seq<char>, calls: Calls, k: nat) -> Seq<(Seq<char>, Span)>
    decreases k,
{
    if k == 0 || k > calls.len() {
        lexed(source).1
    } else {
        let before = errors_given(source, label, calls, (k - 1) as nat);
        match calls[k - 1].1 {
            Some(text) => before + shifted_errors(
                lexed(text).1,
                wrapped_sum(files_given(source, label, calls, (k - 1) as nat).last().end, 1),
            ),
            None => before,
        }
    }
}

pub open spec fn all_files(source: Seq<char>, label: Seq<char>, calls: Calls) -> Seq<FileV> {
    files_given(source, label, calls, calls.len())
}

pub open spec fn all_texts(source: Seq<char>, calls: Calls) -> Seq<Seq<char>> {
    texts_given(source, calls, calls.len())
}

/// What was gathered is what the calls lead to.
pub open spec fn follows_calls(source: Seq<char>, label: Seq<char>, st: LoadsV) -> bool {
    &&& st.files == all_files(source, label, st.calls)
    &&& st.lex_errors == errors_given(source, label, st.calls, st.calls.len())
    &&& st.next_base == wrapped_sum(st.files.last().end, 1)
}

/// The first `k` calls decide what they lead to.
proof fn later_calls_change_nothing(source: Seq<char>, label: Seq<char>, few: Calls, many: Calls, k: nat)
    requires
        few.is_prefix_of(many),
        k <= few.len(),
    ensures
        texts_given(source, few, k) == texts_given(source, many, k),
        files_given(source, label, few, k) == files_given(source, label, many, k),
        errors_given(source, label, few, k) == errors_given(source, label, many, k),
    decreases k,
{
    if k > 0 {
        later_calls_change_nothing(source, label, few, many, (k - 1) as nat);
        assert(many.subrange(0, few.len() as int)[k - 1] == many[k - 1]);
    }
}

proof fn calls_only_add(source: Seq<char>, label: Seq<char>, calls: Calls, i: nat, k: nat)
    requires
        i <= k <= calls.len(),
    ensures
        texts_given(source, calls, i).is_prefix_of(texts_given(source, calls, k)),
        files_given(source, label, calls, i).is_prefix_of(files_given(source, label, calls, k)),
        texts_given(source, calls, k).len() == files_given(source, label, calls, k).len(),
        files_given(source, label, calls, k).len() > 0,
    decreases k,
{
    if i < k {
        calls_only_add(source, label, calls, i, (k - 1) as nat);
        let texts = texts_given(source, calls, (k - 1) as nat);
        let files = files_given(source, label, calls, (k - 1) as nat);
        prefixes_chain(texts_given(source, calls, i), texts, texts_given(source, calls, k));
        prefixes_chain(files_given(source, label, calls, i), files, files_given(source, label, calls, k));
    } else if k > 0 {
        calls_only_add(source, label, calls, (k - 1) as nat, (k - 1) as nat);
    }
}

proof fn prefixes_chain<T>(a: Seq<T>, b: Seq<T>, c: Seq<T>)
    requires
        a.is_prefix_of(b),
        b.is_prefix_of(c) || c.len() == b.len() + 1 && c.drop_last() == b || c == b,
    ensures
        a.is_prefix_of(c),
{
    assert(c.subrange(0, a.len() as int) =~= b.subrange(0, a.len() as int));
}

// ---- where tokens come from ----

/// The place of a file's token: the span it has in the file's text, moved to
/// the file's offsets.
pub open spec fn place(texts: Seq<Seq<char>>, files: Seq<FileV>, k: int, j: int) -> Span {
    shifted(lexed(texts[k]).0[j].span, files[k].start)
}

/// A span that is the place of a token of one of the files.
pub open spec fn has_a_place(texts: Seq<Seq<char>>, files: Seq<FileV>, span: Span) -> bool {
    exists|k: int, j: int|
        0 <= k < texts.len() && 0 <= j < lexed(texts[k]).0.len() && span == #[trigger] place(texts, files, k, j)
}

pub open spec fn all_have_places(texts: Seq<Seq<char>>, files: Seq<FileV>, toks: Seq<TokenV>) -> bool {
    forall|i: int| 0 <= i < toks.len() ==> has_a_place(texts, files, (#[trigger] toks[i]).span)
}

/// The same over the files that some calls lead to.
spec fn placed(source: Seq<char>, label: Seq<char>, calls: Calls, toks: Seq<TokenV>) -> bool {
    all_have_places(all_texts(source, calls), all_files(source, label, calls), toks)
}

proof fn places_stay(source: Seq<char>, label: Seq<char>, few: Calls, many: Calls, toks: Seq<TokenV>)
    requires
        few.is_prefix_of(many),
        placed(source, label, few, toks),
    ensures
        placed(source, label, many, toks),
{
    later_calls_change_nothing(source, label, few, many, few.len());
    calls_only_add(source, label, many, few.len(), many.len());
    calls_only_add(source, label, few, few.len(), few.len());
    let (t1, f1) = (all_texts(source, few), all_files(source, label, few));
    let (t2, f2) = (all_texts(source, many), all_files(source, label, many));
    assert forall|i: int| 0 <= i < toks.len() implies has_a_place(t2, f2, (#[trigger] toks[i]).span) by {
        let (k, j) = choose|k: int, j: int|
            0 <= k < t1.len() && 0 <= j < lexed(t1[k]).0.len() && toks[i].span == #[trigger] place(t1, f1, k, j);
        assert(t2.subrange(0, t1.len() as int)[k] == t2[k]);
        assert(f2.subrange(0, f1.len() as int)[k] == f2[k]);
        assert(toks[i].span == place(t2, f2, k, j));
    }
}

/// One more call, with what it leads to.
proof fn asking_once(source: Seq<char>, label: Seq<char>, st: LoadsV, name: Seq<char>, answer: Option<Seq<char>>)
    requires
        follows_calls(source, label, st),
    ensures
        ({
            let asked = LoadsV { calls: st.calls.push((name, answer)), ..st };
            &&& answer is None ==> follows_calls(source, label, asked)
            &&& answer matches Some(text) ==> follows_calls(source, label, with_file(asked, name, text)) && placed(
                source,
                label,
                asked.calls,
                shifted_tokens(lexed(text).0, st.next_base),
            )
            &&& st.calls.is_prefix_of(asked.calls)
        }),
{
    let calls = st.calls.push((name, answer));
    assert(calls.subrange(0, st.calls.len() as int) =~= st.calls);
    later_calls_change_nothing(source, label, st.calls, calls, st.calls.len());
    calls_only_add(source, label, st.calls, st.calls.len(), st.calls.len());
    match answer {
        Some(text) => {
            let asked = LoadsV { calls, ..st };
            let after = with_file(asked, name, text);
            assert(after.files == all_files(source, label, calls));
            assert(after.files.last() == after.files[after.files.len() - 1]);
            let toks = shifted_tokens(lexed(text).0, st.next_base);
            let (ts, fs) = (all_texts(source, calls), all_files(source, label, calls));
            let k = ts.len() - 1;
            assert(ts[k] == text);
            assert(fs[k].start == st.next_base);
            assert forall|i: int| 0 <= i < toks.len() implies has_a_place(ts, fs, (#[trigger] toks[i]).span) by {
                assert(toks[i].span == place(ts, fs, k, i));
            }
        },
        None => {},
    }
}

/// Splicing follows the loader's calls, and puts in tokens with a place in the
/// files.
proof fn splicing_follows(
    source: Seq<char>,
    label: Seq<char>,
    f: Lookup,
    st: LoadsV,
    stack: Seq<Seq<char>>,
    toks: Seq<TokenV>,
    i: nat,
    out: Seq<TokenV>,
    d: nat,
)
    requires
        follows_calls(source, label, st),
        placed(source, label, st.calls, toks),
        placed(source, label, st.calls, out),
    ensures
        ({
            let (end, all) = spliced(f, st, stack, toks, i, out, d);
            &&& follows_calls(source, label, end)
            &&& st.calls.is_prefix_of(end.calls)
            &&& placed(source, label, end.calls, all)
        }),
    decreases d, 1 + toks.len() - i,
{
    let (end, all) = spliced(f, st, stack, toks, i, out, d);
    if i >= toks.len() {
        assert(st.calls.is_prefix_of(end.calls));
    } else {
        match file_mod(toks, i) {
            Some((name, span)) => {
                let semi = toks[(i + 2) as int].span;
                let head = out.push(toks[i as int]).push(toks[(i + 1) as int]).push(
                    brace(TokenKind::LBrace, semi),
                );
                let last = seq![brace(TokenKind::RBrace, semi)];
                let (after, body) = loaded(f, st, stack, name, span, d);
                loading_follows(source, label, f, st, stack, name, span, d);
                let more = (head + body).push(brace(TokenKind::RBrace, semi));
                let (ts, fs) = (all_texts(source, st.calls), all_files(source, label, st.calls));
                assert(has_a_place(ts, fs, toks[i as int].span));
                assert(has_a_place(ts, fs, toks[(i + 1) as int].span));
                assert(has_a_place(ts, fs, toks[(i + 2) as int].span));
                assert(placed(source, label, st.calls, head));
                assert(placed(source, label, st.calls, last));
                places_stay(source, label, st.calls, after.calls, head);
                places_stay(source, label, st.calls, after.calls, last);
                places_stay(source, label, st.calls, after.calls, toks);
                assert(placed(source, label, after.calls, more)) by {
                    let (ts2, fs2) = (all_texts(source, after.calls), all_files(source, label, after.calls));
                    assert forall|k: int| 0 <= k < more.len() implies has_a_place(
                        ts2,
                        fs2,
                        (#[trigger] more[k]).span,
                    ) by {
                        if k < head.len() {
                            assert(more[k] == head[k]);
                        } else if k < head.len() + body.len() {
                            assert(more[k] == body[k - head.len()]);
                        } else {
                            assert(more[k] == last[0]);
                        }
                    }
                }
                splicing_follows(source, label, f, after, stack, toks, i + 3, more, d);
                prefixes_chain(st.calls, after.calls, end.calls);
            },
            None => {
                let more = out.push(toks[i as int]);
                assert(placed(source, label, st.calls, more));
                splicing_follows(source, label, f, st, stack, toks, i + 1, more, d);
            },
        }
    }
}

proof fn loading_follows(
    source: Seq<char>,
    label: Seq<char>,
    f: Lookup,
    st: LoadsV,
    stack: Seq<Seq<char>>,
    name: Seq<char>,
    span: Span,
    d: nat,
)
    requires
        follows_calls(source, label, st),
    ensures
        ({
            let (end, body) = loaded(f, st, stack, name, span, d);
            &&& follows_calls(source, label, end)
            &&& st.calls.is_prefix_of(end.calls)
            &&& placed(source, label, end.calls, body)
        }),
    decreases d, 0int,
{
    let (end, body) = loaded(f, st, stack, name, span, d);
    assert(st.calls.is_prefix_of(st.calls));
    if !stack.contains(name) && d > 0 {
        let answer = f(st.calls.len(), name);
        let asked = LoadsV { calls: st.calls.push((name, answer)), ..st };
        asking_once(source, label, st, name, answer);
        match answer {
            Some(text) => {
                let entered = with_file(asked, name, text);
                let whole = shifted_tokens(lexed(text).0, st.next_base);
                let own = without_eof(whole);
                assert(placed(source, label, entered.calls, own)) by {
                    let (ts, fs) = (all_texts(source, entered.calls), all_files(source, label, entered.calls));
                    assert forall|i: int| 0 <= i < own.len() implies has_a_place(ts, fs, (#[trigger] own[i]).span) by {
                        assert(own[i] == whole[i]);
                    }
                }
                splicing_follows(source, label, f, entered, stack.push(name), own, 0, seq![], (d - 1) as nat);
                prefixes_chain(st.calls, entered.calls, end.calls);
            },
            None => {},
        }
    }
}

/// Whatever the loader answers, call by call: the files and the lexical errors
/// are those that its answers lead to, and each token stands at the place that
/// it has in one of the files.
pub proof fn expansions_follow_the_calls(source: Seq<char>, label: Seq<char>, f: Lookup)
    ensures
        ({
            let (st, toks) = expanded(source, label, f);
            &&& st.files == all_files(source, label, st.calls)
            &&& st.lex_errors == errors_given(source, label, st.calls, st.calls.len())
            &&& all_have_places(all_texts(source, st.calls), st.files, toks)
        }),
{
    let st = main_loads(source, label);
    let toks = lexed(source).0;
    let (ts, fs) = (all_texts(source, st.calls), all_files(source, label, st.calls));
    assert(st.files == fs);
    assert(ts =~= seq![source]);
    assert forall|i: int| 0 <= i < toks.len() implies has_a_place(ts, fs, (#[trigger] toks[i]).span) by {
        assert(shifted(toks[i].span, 0) == toks[i].span);
        assert(toks[i].span == place(ts, fs, 0, i));
    }
    splicing_follows(source, label, f, st, seq![], toks, 0, seq![], MODULE_DEPTH as nat);
}

// ---- what each file is ----

/// Each file's offsets begin one after the end of the file before, the first
/// one's at zero.
pub open spec fn in_a_row(files: Seq<FileV>) -> bool {
    &&& files.len() > 0
    &&& files[0].start == 0
    &&& forall|k: int| 0 < k < files.len() ==> (#[trigger] files[k]).start == wrapped_sum(files[k - 1].end, 1)
}

/// Each file takes as many offsets as its text has bytes.
pub open spec fn as_long_as(files: Seq<FileV>, texts: Seq<Seq<char>>) -> bool {
    &&& files.len() == texts.len()
    &&& forall|k: int|
        0 <= k < files.len() ==> (#[trigger] files[k]).end == wrapped_sum(files[k].start, file_size(texts[k]))
}

/// No file's offsets run past the largest one.
pub open spec fn unwrapped(files: Seq<FileV>) -> bool {
    forall|k: int| 0 <= k < files.len() ==> (#[trigger] files[k]).start <= files[k].end < usize::MAX
}

/// No text is longer than memory can hold.
pub open spec fn texts_fit(texts: Seq<Seq<char>>) -> bool {
    forall|k: int| 0 <= k < texts.len() ==> encode_utf8(#[trigger] texts[k]).len() <= usize::MAX
}

/// A span that lies inside one of the files.
pub open spec fn inside(files: Seq<FileV>, span: Span) -> bool {
    exists|k: int|
        0 <= k < files.len() && (#[trigger] files[k]).start <= span.start <= span.end <= files[k].end
}

pub open spec fn all_inside(files: Seq<FileV>, toks: Seq<TokenV>) -> bool {
    forall|i: int| 0 <= i < toks.len() ==> inside(files, (#[trigger] toks[i]).span)
}

/// Every error lies inside one of the files.
pub open spec fn errs_inside_files(files: Seq<FileV>, errs: Seq<(Seq<char>, Span)>) -> bool {
    forall|i: int| 0 <= i < errs.len() ==> inside(files, (#[trigger] errs[i]).1)
}

proof fn given_files_stand_in_a_row(source: Seq<char>, label: Seq<char>, calls: Calls, k: nat)
    requires
        k <= calls.len(),
    ensures
        in_a_row(files_given(source, label, calls, k)),
        as_long_as(files_given(source, label, calls, k), texts_given(source, calls, k)),
    decreases k,
{
    if k > 0 {
        given_files_stand_in_a_row(source, label, calls, (k - 1) as nat);
        let before = files_given(source, label, calls, (k - 1) as nat);
        let files = files_given(source, label, calls, k);
        let texts = texts_given(source, calls, k);
        match calls[k - 1].1 {
            Some(text) => {
                assert forall|i: int| 0 < i < files.len() implies (#[trigger] files[i]).start == wrapped_sum(
                    files[i - 1].end,
                    1,
                ) by {
                    if i < before.len() {
                        assert(files[i] == before[i] && files[i - 1] == before[i - 1]);
                    }
                }
                assert forall|i: int| 0 <= i < files.len() implies (#[trigger] files[i]).end == wrapped_sum(
                    files[i].start,
                    file_size(texts[i]),
                ) by {
                    if i < before.len() {
                        assert(files[i] == before[i]);
                        assert(texts[i] == texts_given(source, calls, (k - 1) as nat)[i]);
                    }
                }
            },
            None => {},
        }
    }
}

/// Whatever the loader answers: the main source's offsets begin at zero, and
/// each loaded file's begin one after the end of the file loaded before it.
/// Each file takes as many offsets as its text has bytes.
pub proof fn files_stand_in_a_row(source: Seq<char>, label: Seq<char>, f: Lookup)
    ensures
        in_a_row(expanded(source, label, f).0.files),
        as_long_as(expanded(source, label, f).0.files, all_texts(source, expanded(source, label, f).0.calls)),
        expanded(source, label, f).0.files[0] == (FileV { label, start: 0, end: file_size(source) }),
{
    expansions_follow_the_calls(source, label, f);
    let calls = expanded(source, label, f).0.calls;
    given_files_stand_in_a_row(source, label, calls, calls.len());
    calls_only_add(source, label, calls, 0, calls.len());
    let files = all_files(source, label, calls);
    assert(files.subrange(0, 1)[0] == files[0]);
}

/// As long as the offsets do not run over, no two files share one: each ends
/// before every later one begins.
pub proof fn files_do_not_overlap(source: Seq<char>, label: Seq<char>, f: Lookup, i: int, j: int)
    requires
        unwrapped(expanded(source, label, f).0.files),
        0 <= i < j < expanded(source, label, f).0.files.len(),
    ensures
        expanded(source, label, f).0.files[i].end < expanded(source, label, f).0.files[j].start,
    decreases j,
{
    let files = expanded(source, label, f).0.files;
    files_stand_in_a_row(source, label, f);
    assert(files[j].start == wrapped_sum(files[j - 1].end, 1));
    assert(files[j - 1].end < usize::MAX);
    if i < j - 1 {
        files_do_not_overlap(source, label, f, i, j - 1);
        assert(files[j - 1].start <= files[j - 1].end);
    }
}

/// As long as the offsets do not run over, every place of a file's token lies
/// inside the file's offsets.
pub proof fn places_lie_inside_their_file(source: Seq<char>, label: Seq<char>, f: Lookup, k: int, j: int)
    requires
        texts_fit(all_texts(source, expanded(source, label, f).0.calls)),
        unwrapped(expanded(source, label, f).0.files),
        0 <= k < expanded(source, label, f).0.files.len(),
        0 <= j < lexed(all_texts(source, expanded(source, label, f).0.calls)[k]).0.len(),
    ensures
        ({
            let st = expanded(source, label, f).0;
            let at = place(all_texts(source, st.calls), st.files, k, j);
            st.files[k].start <= at.start <= at.end <= st.files[k].end
        }),
{
    let st = expanded(source, label, f).0;
    files_stand_in_a_row(source, label, f);
    let texts = all_texts(source, st.calls);
    let text = texts[k];
    one_end_token(text);
    spans_are_in_order(text);
    assert(encode_utf8(text).len() <= usize::MAX);
    assert(file_size(text) == encode_utf8(text).len());
    assert(st.files[k].end == wrapped_sum(st.files[k].start, file_size(text)));
    assert(st.files[k].start <= st.files[k].end);
    assert(st.files[k].start + file_size(text) == st.files[k].end);
    assert(lexed(text).0[j].span.start <= lexed(text).0[j].span.end <= encode_utf8(text).len());
}

/// As long as the offsets do not run over, every token of the expansion lies
/// inside the offsets of one of its files.
pub proof fn tokens_lie_inside_files(source: Seq<char>, label: Seq<char>, f: Lookup)
    requires
        texts_fit(all_texts(source, expanded(source, label, f).0.calls)),
        unwrapped(expanded(source, label, f).0.files),
    ensures
        all_inside(expanded(source, label, f).0.files, expanded(source, label, f).1),
{
    let (st, toks) = expanded(source, label, f);
    expansions_follow_the_calls(source, label, f);
    files_stand_in_a_row(source, label, f);
    let texts = all_texts(source, st.calls);
    assert forall|i: int| 0 <= i < toks.len() implies inside(st.files, (#[trigger] toks[i]).span) by {
        assert(has_a_place(texts, st.files, toks[i].span));
        let (k, j) = choose|k: int, j: int|
            0 <= k < texts.len() && 0 <= j < lexed(texts[k]).0.len() && toks[i].span == #[trigger] place(
                texts,
                st.files,
                k,
                j,
            );
        places_lie_inside_their_file(source, label, f, k, j);
        assert(st.files[k].start <= toks[i].span.start <= toks[i].span.end <= st.files[k].end);
    }
}

proof fn given_errors_lie_inside(source: Seq<char>, label: Seq<char>, calls: Calls, k: nat)
    requires
        k <= calls.len(),
        texts_fit(texts_given(source, calls, k)),
        unwrapped(files_given(source, label, calls, k)),
    ensures
        errs_inside_files(files_given(source, label, calls, k), errors_given(source, label, calls, k)),
    decreases k,
{
    let files = files_given(source, label, calls, k);
    let texts = texts_given(source, calls, k);
    let errs = errors_given(source, label, calls, k);
    given_files_stand_in_a_row(source, label, calls, k);
    if k == 0 {
        assert(texts[0] == source);
        errors_lie_inside_the_text(source);
        assert forall|i: int| 0 <= i < errs.len() implies inside(files, (#[trigger] errs[i]).1) by {
            let at = errs[i].1;
            assert(files[0].start <= at.start <= at.end <= files[0].end);
        }
    } else {
        let few = files_given(source, label, calls, (k - 1) as nat);
        let few_texts = texts_given(source, calls, (k - 1) as nat);
        let before = errors_given(source, label, calls, (k - 1) as nat);
        calls_only_add(source, label, calls, (k - 1) as nat, k);
        calls_only_add(source, label, calls, (k - 1) as nat, (k - 1) as nat);
        assert forall|i: int| 0 <= i < few.len() implies files[i] == #[trigger] few[i] by {
            assert(files.subrange(0, few.len() as int)[i] == files[i]);
        }
        assert forall|i: int| 0 <= i < few.len() implies (#[trigger] few[i]).start <= few[i].end < usize::MAX by {
            assert(files[i] == few[i]);
        }
        assert forall|i: int| 0 <= i < few_texts.len() implies encode_utf8(#[trigger] few_texts[i]).len()
            <= usize::MAX by {
            assert(texts.subrange(0, few_texts.len() as int)[i] == texts[i]);
        }
        given_errors_lie_inside(source, label, calls, (k - 1) as nat);
        assert forall|i: int| 0 <= i < before.len() implies inside(files, (#[trigger] before[i]).1) by {
            let at = before[i].1;
            let n = choose|n: int|
                0 <= n < few.len() && (#[trigger] few[n]).start <= at.start <= at.end <= few[n].end;
            assert(files[n] == few[n]);
        }
        match calls[k - 1].1 {
            Some(text) => {
                let n = files.len() - 1;
                let base = files[n].start;
                assert(texts[n] == text);
                errors_lie_inside_the_text(text);
                assert(files[n].end == wrapped_sum(base, file_size(text)));
                assert(base + file_size(text) == files[n].end);
                let own = shifted_errors(lexed(text).1, base);
                assert(errs == before + own);
                assert forall|i: int| 0 <= i < errs.len() implies inside(files, (#[trigger] errs[i]).1) by {
                    if i < before.len() {
                        assert(errs[i] == before[i]);
                    } else {
                        let e = lexed(text).1[i - before.len()];
                        assert(errs[i] == own[i - before.len()]);
                        assert(e.1.start <= e.1.end <= encode_utf8(text).len());
                        let at = errs[i].1;
                        assert(at == shifted(e.1, base));
                        assert(files[n].start <= at.start <= at.end <= files[n].end);
                    }
                }
            },
            None => {},
        }
    }
}

/// As long as the offsets do not run over, every lexical error lies inside the
/// offsets of one of the files.
pub proof fn lexical_errors_lie_inside_files(source: Seq<char>, label: Seq<char>, f: Lookup)
    requires
        texts_fit(all_texts(source, expanded(source, label, f).0.calls)),
        unwrapped(expanded(source, label, f).0.files),
    ensures
        errs_inside_files(expanded(source, label, f).0.files, expanded(source, label, f).0.lex_errors),
{
    expansions_follow_the_calls(source, label, f);
    let calls = expanded(source, label, f).0.calls;
    given_errors_lie_inside(source, label, calls, calls.len());
}

/// Whether one of the first `k` calls gave a text.
pub open spec fn something_given(calls: Calls, k: nat) -> bool {
    exists|i: int| 0 <= i < k && i < calls.len() && (#[trigger] calls[i]).1 is Some
}

proof fn given_files_count(source: Seq<char>, label: Seq<char>, calls: Calls, k: nat)
    requires
        k <= calls.len(),
    ensures
        files_given(source, label, calls, k).len() >= 1,
        files_given(source, label, calls, k).len() > 1 <==> something_given(calls, k),
    decreases k,
{
    if k > 0 {
        given_files_count(source, label, calls, (k - 1) as nat);
        if something_given(calls, (k - 1) as nat) {
            let i = choose|i: int| 0 <= i < k - 1 && i < calls.len() && (#[trigger] calls[i]).1 is Some;
            assert(0 <= i < k && calls[i].1 is Some);
        }
        if something_given(calls, k) && calls[k - 1].1 is None {
            let i = choose|i: int| 0 <= i < k && i < calls.len() && (#[trigger] calls[i]).1 is Some;
            assert(i < k - 1 && calls[i].1 is Some);
        }
        if calls[k - 1].1 is Some {
            assert(something_given(calls, k));
        }
    }
}

/// Whatever the loader answers: there is more than one file exactly when one of
/// its calls gave a text.
pub proof fn several_files_when_something_is_loaded(source: Seq<char>, label: Seq<char>, f: Lookup)
    ensures
        expanded(source, label, f).0.files.len() > 1 <==> something_given(
            expanded(source, label, f).0.calls,
            expanded(source, label, f).0.calls.len(),
        ),
{
    expansions_follow_the_calls(source, label, f);
    let calls = expanded(source, label, f).0.calls;
    given_files_count(source, label, calls, calls.len());
}

proof fn locating_skips(files: Seq<FileV>, k: int, offset: usize)
    requires
        0 <= k < files.len(),
        files[k].start <= offset < files[k].end,
        forall|j: int| 0 <= j < k ==> !((#[trigger] files[j]).start <= offset < files[j].end),
    ensures
        located(files, offset) == Some((files[k].label, (offset - files[k].start) as usize)),
    decreases k,
{
    if k > 0 {
        let rest = files.skip(1);
        assert(!(files[0].start <= offset < files[0].end));
        assert forall|j: int| 0 <= j < k - 1 implies !((#[trigger] rest[j]).start <= offset < rest[j].end) by {
            assert(rest[j] == files[j + 1]);
        }
        locating_skips(rest, k - 1, offset);
    }
}

/// An offset is traced back to the file whose offsets hold it, whichever file
/// of the expansion that is.
pub proof fn offsets_are_traced_back(source: Seq<char>, label: Seq<char>, f: Lookup, k: int, at: usize)
    requires
        unwrapped(expanded(source, label, f).0.files),
        0 <= k < expanded(source, label, f).0.files.len(),
        expanded(source, label, f).0.files[k].start + at < expanded(source, label, f).0.files[k].end,
    ensures
        located(
            expanded(source, label, f).0.files,
            (expanded(source, label, f).0.files[k].start + at) as usize,
        ) == Some((expanded(source, label, f).0.files[k].label, at)),
{
    let files = expanded(source, label, f).0.files;
    let offset = (files[k].start + at) as usize;
    assert forall|j: int| 0 <= j < k implies !((#[trigger] files[j]).start <= offset < files[j].end) by {
        files_do_not_overlap(source, label, f, j, k);
    }
    locating_skips(files, k, offset);
}

} // verus!
