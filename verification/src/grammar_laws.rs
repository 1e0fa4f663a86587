//! What holds of operators, conditions and whole sources in the grammar.

use vstd::prelude::*;
use vstd::utf8::encode_utf8;

use crate::grammar::{
    Input, Part, bumped, infix_op, input_of, input_wf, module_of, next_item, read_chain,
    read_element, read_head, read_name, read_path, read_primary, starts_item, tok_at, tok_is,
    tokens_left,
};
use crate::lexer::{TokenV, lexed};
use crate::lexer_laws::one_end_token;
use crate::modules::{
    LoadsV, Lookup, MODULE_DEPTH, brace, expanded, file_mod, loaded, main_loads, spliced,
};
use crate::token::{TokenKind, TokenKindV};
use crate::tree::Tree;

verus! {

/// Assignments are the operators that bind to the right; every other infix
/// operator binds to the left, and tighter than an assignment.
pub proof fn only_assignments_bind_to_the_right(k: TokenKindV)
    requires
        infix_op(k) is Some,
    ensures
        ({
            let op = infix_op(k)->0;
            let assigns = op.kind is Assign || op.kind is AssignOp;
            &&& assigns <==> op.left > op.right
            &&& !assigns ==> op.right == op.left + 1 && op.left > 2
            &&& assigns ==> op.left == 2 && op.right == 1
        }),
{
}

/// A condition leaves it as it was whether braces open blocks and struct
/// literals, also when it is refused.
pub proof fn conditions_restore_the_rules(p: Input, d: nat)
    ensures
        read_head(p, d).0.no_block == p.no_block,
        read_head(p, d).0.no_struct == p.no_struct,
{
}

proof fn names_keep_the_rules(p: Input, d: nat, acc: Seq<Tree>)
    ensures
        read_chain(p, Part::Name, TokenKind::ColonColon, d, acc).0.no_struct == p.no_struct,
        read_chain(p, Part::Name, TokenKind::ColonColon, d, acc).0.no_block == p.no_block,
    decreases tokens_left(p),
{
    if d > 0 {
        assert(read_element(p, Part::Name, (d - 1) as nat) == read_name(p));
        match read_name(p) {
            (q, Ok(t)) => {
                if tok_is(q, TokenKind::ColonColon) && tokens_left(bumped(q)) < tokens_left(p) {
                    names_keep_the_rules(bumped(q), d, acc.push(t));
                }
            },
            (_, Err(_)) => {},
        }
    }
}

/// A brace where a condition ends is the body's: there no struct literal
/// follows a path.
pub proof fn no_struct_literal_in_a_condition(p: Input, d: nat)
    requires
        p.no_struct,
        tok_at(p).kind is Ident,
        d > 0,
    ensures
        read_primary(p, d).1 matches Ok(t) ==> t.label is PathExpr,
{
    if d > 1 {
        names_keep_the_rules(p, (d - 2) as nat, seq![]);
    }
    let q = read_path(p, (d - 1) as nat).0;
    assert(q.no_struct);
}

/// Every token list of the lexer can be handed to the parser.
pub proof fn sources_can_be_parsed(s: Seq<char>)
    requires
        encode_utf8(s).len() <= usize::MAX,
    ensures
        input_wf(input_of(lexed(s).0)),
{
    one_end_token(s);
}

proof fn splicing_keeps_the_end(
    f: Lookup,
    st: LoadsV,
    stack: Seq<Seq<char>>,
    toks: Seq<TokenV>,
    i: nat,
    out: Seq<TokenV>,
    d: nat,
)
    requires
        i < toks.len(),
        toks.last().kind == TokenKindV::Plain(TokenKind::Eof),
    ensures
        spliced(f, st, stack, toks, i, out, d).1.len() > 0,
        spliced(f, st, stack, toks, i, out, d).1.last() == toks.last(),
    decreases toks.len() - i,
{
    match file_mod(toks, i) {
        Some((name, span)) => {
            let semi = toks[(i + 2) as int].span;
            let head = out.push(toks[i as int]).push(toks[(i + 1) as int]).push(brace(TokenKind::LBrace, semi));
            let (after, body) = loaded(f, st, stack, name, span, d);
            splicing_keeps_the_end(
                f,
                after,
                stack,
                toks,
                i + 3,
                (head + body).push(brace(TokenKind::RBrace, semi)),
                d,
            );
        },
        None => {
            if i + 1 < toks.len() {
                splicing_keeps_the_end(f, st, stack, toks, i + 1, out.push(toks[i as int]), d);
            } else {
                assert(spliced(f, st, stack, toks, i + 1, out.push(toks[i as int]), d).1 == out.push(
                    toks[i as int],
                ));
            }
        },
    }
}

/// So can every expansion, whatever the loader gives.
pub proof fn expansions_can_be_parsed(source: Seq<char>, label: Seq<char>, f: Lookup)
    requires
        encode_utf8(source).len() <= usize::MAX,
    ensures
        input_wf(input_of(expanded(source, label, f).1)),
{
    one_end_token(source);
    splicing_keeps_the_end(
        f,
        main_loads(source, label),
        seq![],
        lexed(source).0,
        0,
        seq![],
        MODULE_DEPTH as nat,
    );
}

/// A source without tokens is a module without items, and nothing is wrong
/// with it.
pub proof fn an_empty_source_is_an_empty_module(toks: Seq<TokenV>)
    requires
        toks.len() == 1,
        toks[0].kind == TokenKindV::Plain(TokenKind::Eof),
    ensures
        module_of(toks).0.parts.len() == 0,
        module_of(toks).1.len() == 0,
{
}

/// What stands between a fault and the next token with which an item may
/// begin is passed over, and nothing more: reading goes on there or at the
/// end.
pub proof fn reading_goes_on_at_an_item(p: Input)
    requires
        input_wf(p),
    ensures
        starts_item(tok_at(next_item(p)).kind) || tok_is(next_item(p), TokenKind::Eof),
        next_item(p).toks == p.toks,
        p.pos <= next_item(p).pos,
        forall|i: int|
            p.pos <= i < next_item(p).pos && i < p.toks.len() ==> !starts_item((#[trigger] p.toks[i]).kind),
    decreases tokens_left(p),
{
    if !tok_is(p, TokenKind::Eof) && !starts_item(tok_at(p).kind) {
        reading_goes_on_at_an_item(bumped(p));
    }
}

} // verus!
