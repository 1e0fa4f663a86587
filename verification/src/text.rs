//! Text building: the few string operations the compiler needs, with the
//! decimal rendering of integers spelled out so messages can be stated
//! exactly in contracts.

use vstd::prelude::*;

verus! {

/// The decimal digit for `d`, for `d` below ten.
pub open spec fn digit_char(d: nat) -> char {
    (48 + d) as char
}

/// The decimal rendering of a natural number, without leading zeros.
pub open spec fn dec(n: nat) -> Seq<char>
    decreases n,
{
    if n < 10 {
        seq![digit_char(n)]
    } else {
        dec(n / 10).push(digit_char(n % 10))
    }
}

/// The decimal rendering of an integer: a minus sign in front of the
/// magnitude when it is negative.
pub open spec fn dec_int(v: int) -> Seq<char> {
    if v < 0 {
        seq!['-'] + dec((-v) as nat)
    } else {
        dec(v as nat)
    }
}

/// Several texts joined with a separator between neighbours.
pub open spec fn joined(parts: Seq<Seq<char>>, sep: Seq<char>) -> Seq<char>
    decreases parts.len(),
{
    if parts.len() == 0 {
        seq![]
    } else if parts.len() == 1 {
        parts[0]
    } else {
        joined(parts.drop_last(), sep) + sep + parts.last()
    }
}

/// `String::push`: appends one character.
pub assume_specification[ String::push ](s: &mut String, c: char)
    ensures
        final(s)@ == old(s)@.push(c),
;

/// Text equality, by `str`'s own comparison: equal exactly when the two
/// hold the same characters in the same order.
#[verifier::external_body]
pub(crate) fn same_text(a: &str, b: &str) -> (r: bool)
    ensures
        r == (a@ == b@),
{
    a == b
}

/// Appends the decimal rendering of `n`.
pub fn push_dec(out: &mut String, n: u64)
    ensures
        final(out)@ == old(out)@ + dec(n as nat),
    decreases n,
{
    if n >= 10 {
        push_dec(out, n / 10);
    }
    let d: u8 = (n % 10) as u8;
    let ghost before = out@;
    out.push((48 + d) as char);
    proof {
        assert(((48 + d) as u8) as char == digit_char((n % 10) as nat));
        if n >= 10 {
            assert(dec(n as nat) == dec((n / 10) as nat).push(digit_char((n % 10) as nat)));
            assert(out@ =~= old(out)@ + dec(n as nat));
        } else {
            assert(out@ =~= old(out)@ + dec(n as nat));
        }
    }
}

/// Appends the decimal rendering of a signed integer.
pub fn push_dec_int(out: &mut String, v: i64)
    ensures
        final(out)@ == old(out)@ + dec_int(v as int),
{
    if v < 0 {
        out.push('-');
        let m: i128 = -(v as i128);
        push_dec(out, m as u64);
        assert(out@ =~= old(out)@ + dec_int(v as int));
    } else {
        push_dec(out, v as u64);
    }
}

/// Joins the first `n` texts with a separator.
pub fn join_first(parts: &Vec<String>, n: usize, sep: &str) -> (r: String)
    requires
        n <= parts.len(),
    ensures
        r@ == joined(texts(parts@).take(n as int), sep@),
{
    let mut out = String::new();
    let mut i: usize = 0;
    while i < n
        invariant
            i <= n <= parts.len(),
            out@ == joined(texts(parts@).take(i as int), sep@),
        decreases n - i,
    {
        if i > 0 {
            out.append(sep);
        }
        out.append(parts[i].as_str());
        proof {
            let t = texts(parts@).take(i + 1);
            assert(t.drop_last() =~= texts(parts@).take(i as int));
            if i == 0 {
                assert(out@ =~= parts@[0]@);
            }
        }
        i += 1;
    }
    out
}

/// Joins texts with a separator.
pub fn join(parts: &Vec<String>, sep: &str) -> (r: String)
    ensures
        r@ == joined(texts(parts@), sep@),
{
    assert(texts(parts@).take(parts@.len() as int) =~= texts(parts@));
    join_first(parts, parts.len(), sep)
}

/// The character sequences of several strings.
pub open spec fn texts(parts: Seq<String>) -> Seq<Seq<char>> {
    Seq::new(parts.len(), |i: int| parts[i]@)
}

/// A copy of a list of strings.
pub fn copy_texts(parts: &Vec<String>) -> (r: Vec<String>)
    ensures
        texts(r@) == texts(parts@),
{
    let mut out: Vec<String> = Vec::new();
    let mut i: usize = 0;
    while i < parts.len()
        invariant
            i <= parts.len(),
            out.len() == i,
            forall|j: int| 0 <= j < i ==> out[j]@ == parts[j]@,
        decreases parts.len() - i,
    {
        out.push(parts[i].clone());
        i += 1;
    }
    assert(texts(out@) =~= texts(parts@));
    out
}

/// The characters of a text.
pub fn chars_of(s: &str) -> (r: Vec<char>)
    ensures
        r@ == s@,
{
    let mut out: Vec<char> = Vec::new();
    for c in it: s.chars()
        invariant
            out@ == it.seq().take(it.index()),
            it.seq() == s@,
    {
        out.push(c);
        assert(it.seq().take(it.index() + 1) =~= it.seq().take(it.index()).push(c));
    }
    assert(out@ =~= s@);
    out
}

/// The text of a range of characters.
pub fn text_of(chars: &Vec<char>, from: usize, to: usize) -> (r: String)
    requires
        from <= to <= chars.len(),
    ensures
        r@ == chars@.subrange(from as int, to as int),
{
    let mut out = String::new();
    let mut i: usize = from;
    while i < to
        invariant
            from <= i <= to <= chars.len(),
            out@ == chars@.subrange(from as int, i as int),
        decreases to - i,
    {
        out.push(chars[i]);
        assert(chars@.subrange(from as int, i + 1) =~= chars@.subrange(from as int, i as int).push(
            chars@[i as int],
        ));
        i += 1;
    }
    out
}

/// Whether a path separator stands at a position.
pub open spec fn separator_at(s: Seq<char>, i: int) -> bool {
    i + 1 < s.len() && s[i] == ':' && s[i + 1] == ':'
}

/// `acc`, then the parts of a path from position `start` on, with
/// everything before position `i` known to hold no separator.
pub open spec fn path_parts_from(s: Seq<char>, start: int, i: int, acc: Seq<Seq<char>>) -> Seq<Seq<char>>
    decreases s.len() - i,
{
    if i >= s.len() {
        acc.push(s.subrange(start, s.len() as int))
    } else if separator_at(s, i) {
        path_parts_from(s, i + 2, i + 2, acc.push(s.subrange(start, i)))
    } else {
        path_parts_from(s, start, i + 1, acc)
    }
}

/// The parts of a path between its `::` separators.
pub open spec fn path_parts(s: Seq<char>) -> Seq<Seq<char>> {
    path_parts_from(s, 0, 0, seq![])
}

/// Splits a path at its `::` separators.
pub fn split_path(path: &str) -> (r: Vec<String>)
    ensures
        texts(r@) == path_parts(path@),
{
    let chars = chars_of(path);
    let mut out: Vec<String> = Vec::new();
    assert(texts(out@) =~= seq![]);
    let mut start: usize = 0;
    let mut i: usize = 0;
    while i < chars.len()
        invariant
            start <= i <= chars.len(),
            chars@ == path@,
            path_parts_from(path@, start as int, i as int, texts(out@)) == path_parts(path@),
        decreases chars.len() - i,
    {
        if chars.len() - i >= 2 && chars[i] == ':' && chars[i + 1] == ':' {
            let part = text_of(&chars, start, i);
            let ghost before = texts(out@);
            out.push(part);
            assert(texts(out@) =~= before.push(path@.subrange(start as int, i as int)));
            i += 2;
            start = i;
        } else {
            i += 1;
        }
    }
    let part = text_of(&chars, start, chars.len());
    let ghost before = texts(out@);
    out.push(part);
    assert(texts(out@) =~= before.push(path@.subrange(start as int, path@.len() as int)));
    out
}

/// Whether a text holds a path separator.
pub open spec fn has_separator(s: Seq<char>) -> bool {
    exists|i: int| 0 <= i && #[trigger] separator_at(s, i)
}

/// What follows a prefix in a text, if the text starts with it.
pub open spec fn after_prefix(s: Seq<char>, prefix: Seq<char>) -> Option<Seq<char>> {
    if prefix.len() <= s.len() && s.take(prefix.len() as int) == prefix {
        Some(s.skip(prefix.len() as int))
    } else {
        None
    }
}

/// What follows a prefix in a text, if the text starts with it and no path
/// separator follows.
pub fn last_part_after(s: &str, prefix: &str) -> (r: Option<String>)
    ensures
        match r {
            Some(rest) => after_prefix(s@, prefix@) == Some(rest@) && !has_separator(rest@),
            None => after_prefix(s@, prefix@) matches Some(rest) ==> has_separator(rest),
        },
{
    let chars = chars_of(s);
    let want = chars_of(prefix);
    if want.len() > chars.len() {
        return None;
    }
    let mut i: usize = 0;
    while i < want.len()
        invariant
            i <= want.len() <= chars.len(),
            chars@ == s@,
            want@ == prefix@,
            forall|j: int| 0 <= j < i ==> chars@[j] == want@[j],
        decreases want.len() - i,
    {
        if chars[i] != want[i] {
            assert(s@.take(prefix@.len() as int)[i as int] != prefix@[i as int]);
            return None;
        }
        i += 1;
    }
    assert(s@.take(prefix@.len() as int) =~= prefix@);
    let ghost rest = s@.skip(prefix@.len() as int);
    let n = want.len();
    let mut k: usize = n;
    while k < chars.len()
        invariant
            n <= k <= chars.len(),
            n == prefix@.len(),
            chars@ == s@,
            rest == s@.skip(n as int),
            after_prefix(s@, prefix@) == Some(rest),
            forall|j: int| n <= j < k ==> !separator_at(s@, j),
        decreases chars.len() - k,
    {
        if chars.len() - k >= 2 && chars[k] == ':' && chars[k + 1] == ':' {
            assert(separator_at(rest, k - n));
            return None;
        }
        k += 1;
    }
    proof {
        assert forall|j: int| 0 <= j implies !separator_at(rest, j) by {
            if separator_at(rest, j) {
                assert(separator_at(s@, j + n));
            }
        }
    }
    let r = text_of(&chars, n, chars.len());
    assert(r@ =~= rest);
    Some(r)
}

// ---- messages ----

/// The decimal rendering of a number.
pub fn number(n: usize) -> (r: String)
    ensures
        r@ == dec(n as nat),
{
    let mut out = String::new();
    push_dec(&mut out, n as u64);
    assert(out@ =~= dec(n as nat));
    out
}

/// The ending of a counted noun.
pub open spec fn plural(n: nat) -> Seq<char> {
    if n == 1 {
        ""@
    } else {
        "s"@
    }
}

pub fn plural_of(n: usize) -> (r: &'static str)
    ensures
        r@ == plural(n as nat),
{
    if n == 1 {
        ""
    } else {
        "s"
    }
}

/// Three texts, one after the other.
pub fn cat3(p0: &str, p1: &str, p2: &str) -> (r: String)
    ensures
        r@ == p0@ + p1@ + p2@,
{
    let mut out: String = p0.to_owned();
    out.append(p1);
    out.append(p2);
    out
}

/// Five texts, one after the other.
pub fn cat5(p0: &str, p1: &str, p2: &str, p3: &str, p4: &str) -> (r: String)
    ensures
        r@ == p0@ + p1@ + p2@ + p3@ + p4@,
{
    let mut out: String = p0.to_owned();
    out.append(p1);
    out.append(p2);
    out.append(p3);
    out.append(p4);
    out
}

/// Seven texts, one after the other.
pub fn cat7(p0: &str, p1: &str, p2: &str, p3: &str, p4: &str, p5: &str, p6: &str) -> (r: String)
    ensures
        r@ == p0@ + p1@ + p2@ + p3@ + p4@ + p5@ + p6@,
{
    let mut out: String = p0.to_owned();
    out.append(p1);
    out.append(p2);
    out.append(p3);
    out.append(p4);
    out.append(p5);
    out.append(p6);
    out
}

/// Two texts, one after the other.
pub fn cat2(p0: &str, p1: &str) -> (r: String)
    ensures
        r@ == p0@ + p1@,
{
    let mut out: String = p0.to_owned();
    out.append(p1);
    out
}

/// Four texts, one after the other.
pub fn cat4(p0: &str, p1: &str, p2: &str, p3: &str) -> (r: String)
    ensures
        r@ == p0@ + p1@ + p2@ + p3@,
{
    let mut out: String = p0.to_owned();
    out.append(p1);
    out.append(p2);
    out.append(p3);
    out
}

/// Six texts, one after the other.
pub fn cat6(p0: &str, p1: &str, p2: &str, p3: &str, p4: &str, p5: &str) -> (r: String)
    ensures
        r@ == p0@ + p1@ + p2@ + p3@ + p4@ + p5@,
{
    let mut out: String = p0.to_owned();
    out.append(p1);
    out.append(p2);
    out.append(p3);
    out.append(p4);
    out.append(p5);
    out
}

/// Eight texts, one after the other.
pub fn cat8(p0: &str, p1: &str, p2: &str, p3: &str, p4: &str, p5: &str, p6: &str, p7: &str) -> (r: String)
    ensures
        r@ == p0@ + p1@ + p2@ + p3@ + p4@ + p5@ + p6@ + p7@,
{
    let mut out: String = p0.to_owned();
    out.append(p1);
    out.append(p2);
    out.append(p3);
    out.append(p4);
    out.append(p5);
    out.append(p6);
    out.append(p7);
    out
}

/// Whether a list holds a text.
pub fn has_text(parts: &Vec<String>, s: &str) -> (r: bool)
    ensures
        r == texts(parts@).contains(s@),
{
    let mut i: usize = 0;
    while i < parts.len()
        invariant
            i <= parts.len(),
            forall|j: int| 0 <= j < i ==> texts(parts@)[j] != s@,
        decreases parts.len() - i,
    {
        if same_text(parts[i].as_str(), s) {
            assert(texts(parts@)[i as int] == s@);
            return true;
        }
        i += 1;
    }
    false
}

} // verus!
