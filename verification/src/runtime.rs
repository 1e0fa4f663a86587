//! What the runtime does: the text operations, the growth of vectors, and
//! the reference counts, over plain values.

use vstd::prelude::*;

verus! {

// ---- texts ----

/// Whether two texts have the same bytes.
pub fn str_eq(a: &[u8], b: &[u8]) -> (r: bool)
    ensures
        r == (a@ == b@),
{
    if a.len() != b.len() {
        return false;
    }
    let mut i: usize = 0;
    while i < a.len()
        invariant
            i <= a.len(),
            a.len() == b.len(),
            forall|j: int| 0 <= j < i ==> a@[j] == b@[j],
        decreases a.len() - i,
    {
        if a[i] != b[i] {
            return false;
        }
        i += 1;
    }
    assert(a@ =~= b@);
    true
}

/// Whether a text stands in another at a position.
pub open spec fn stands_at(s: Seq<u8>, t: Seq<u8>, i: int) -> bool {
    0 <= i && i + t.len() <= s.len() && s.subrange(i, i + t.len()) == t
}

fn matches_at(s: &[u8], t: &[u8], at: usize) -> (r: bool)
    requires
        at + t.len() <= s.len(),
    ensures
        r == stands_at(s@, t@, at as int),
{
    let ghost part = s@.subrange(at as int, at + t@.len());
    let mut i: usize = 0;
    while i < t.len()
        invariant
            i <= t.len(),
            at + t.len() <= s.len(),
            part == s@.subrange(at as int, at + t@.len()),
            forall|j: int| 0 <= j < i ==> part[j] == t@[j],
        decreases t.len() - i,
    {
        if s[at + i] != t[i] {
            assert(part[i as int] != t@[i as int]);
            return false;
        }
        i += 1;
    }
    assert(part =~= t@);
    true
}

pub fn str_starts_with(s: &[u8], prefix: &[u8]) -> (r: bool)
    ensures
        r == stands_at(s@, prefix@, 0),
{
    if prefix.len() > s.len() {
        return false;
    }
    matches_at(s, prefix, 0)
}

pub fn str_ends_with(s: &[u8], suffix: &[u8]) -> (r: bool)
    ensures
        r == stands_at(s@, suffix@, s@.len() - suffix@.len()),
{
    if suffix.len() > s.len() {
        return false;
    }
    matches_at(s, suffix, s.len() - suffix.len())
}

/// Whether a text holds another. Every text holds the empty one.
pub fn str_contains(s: &[u8], needle: &[u8]) -> (r: bool)
    ensures
        r == exists|i: int| stands_at(s@, needle@, i),
{
    if needle.len() > s.len() {
        return false;
    }
    let last = s.len() - needle.len();
    let mut i: usize = 0;
    while i <= last
        invariant
            i <= last + 1,
            last == s.len() - needle.len(),
            needle.len() <= s.len(),
            forall|j: int| 0 <= j < i ==> !stands_at(s@, needle@, j),
        decreases last + 1 - i,
    {
        if matches_at(s, needle, i) {
            return true;
        }
        if i == last {
            assert(forall|j: int| stands_at(s@, needle@, j) ==> j <= last);
            return false;
        }
        i += 1;
    }
    false
}

/// A text followed by another.
pub fn str_concat(a: &[u8], b: &[u8]) -> (r: Vec<u8>)
    ensures
        r@ == a@ + b@,
{
    let mut out: Vec<u8> = Vec::new();
    append_bytes(&mut out, a, 0, a.len());
    append_bytes(&mut out, b, 0, b.len());
    assert(out@ =~= a@ + b@);
    out
}

fn append_bytes(out: &mut Vec<u8>, s: &[u8], from: usize, to: usize)
    requires
        from <= to <= s.len(),
    ensures
        final(out)@ == old(out)@ + s@.subrange(from as int, to as int),
{
    let ghost before = out@;
    let mut i: usize = from;
    while i < to
        invariant
            from <= i <= to <= s.len(),
            before == old(out)@,
            out@ == before + s@.subrange(from as int, i as int),
        decreases to - i,
    {
        out.push(s[i]);
        assert(s@.subrange(from as int, i + 1) =~= s@.subrange(from as int, i as int).push(s@[i as int]));
        assert(out@ =~= before + s@.subrange(from as int, i + 1));
        i += 1;
    }
}

pub open spec fn clamped(v: int, lo: int, hi: int) -> int {
    if v < lo {
        lo
    } else if v > hi {
        hi
    } else {
        v
    }
}

/// The bounds of a slice, moved into range: the start to between the text's
/// ends, and the end to between the start and the text's end.
pub fn slice_bounds(len: i64, start: i64, end: i64) -> (r: (i64, i64))
    requires
        0 <= len,
    ensures
        r.0 == clamped(start as int, 0, len as int),
        r.1 == clamped(end as int, r.0 as int, len as int),
        0 <= r.0 <= r.1 <= len,
{
    let a: i64 = if start < 0 {
        0
    } else if start > len {
        len
    } else {
        start
    };
    let b: i64 = if end < a {
        a
    } else if end > len {
        len
    } else {
        end
    };
    (a, b)
}

/// The part of a text between two positions, moved into range.
pub fn str_slice(s: &[u8], start: i64, end: i64) -> (r: Vec<u8>)
    requires
        s@.len() <= i64::MAX,
    ensures
        ({
            let a = clamped(start as int, 0, s@.len() as int);
            r@ == s@.subrange(a, clamped(end as int, a, s@.len() as int))
        }),
{
    let (a, b) = slice_bounds(s.len() as i64, start, end);
    let mut out: Vec<u8> = Vec::new();
    append_bytes(&mut out, s, a as usize, b as usize);
    assert(out@ =~= s@.subrange(a as int, b as int));
    out
}

// ---- vectors ----

/// The capacity a full vector grows to: four, then twice as much each time.
pub fn grown_capacity(cap: i64) -> (r: i64)
    requires
        0 <= cap <= i64::MAX / 2,
    ensures
        r == (if cap == 0 {
            4
        } else {
            2 * cap
        }),
        r > cap,
{
    if cap == 0 {
        4
    } else {
        cap * 2
    }
}

/// The element at a position, or zero outside the vector.
pub fn vec_get(items: &[i64], i: i64) -> (r: i64)
    ensures
        r == (if 0 <= i < items@.len() {
            items@[i as int]
        } else {
            0
        }),
{
    if i < 0 || i as u64 >= items.len() as u64 {
        0
    } else {
        items[i as usize]
    }
}

// ---- reference counts ----

/// The count of a value that is never reclaimed.
pub const FOREVER: i64 = -1;

pub open spec fn up(n: i64) -> i64 {
    if n == i64::MAX {
        i64::MIN
    } else {
        (n + 1) as i64
    }
}

pub open spec fn down(n: i64) -> i64 {
    if n == i64::MIN {
        i64::MAX
    } else {
        (n - 1) as i64
    }
}

/// The count with one more reference. A value that is never reclaimed keeps
/// its count.
pub fn retain(rc: i64) -> (r: i64)
    ensures
        r == (if rc == FOREVER {
            rc
        } else {
            up(rc)
        }),
{
    if rc == FOREVER {
        rc
    } else {
        rc.wrapping_add(1)
    }
}

/// The count with one reference fewer, and whether the value is to be
/// reclaimed.
pub fn release(rc: i64) -> (r: (i64, bool))
    ensures
        rc == FOREVER ==> r == (rc, false),
        rc != FOREVER ==> r == (down(rc), down(rc) <= 0),
{
    if rc == FOREVER {
        return (rc, false);
    }
    let n = rc.wrapping_sub(1);
    (n, n <= 0)
}

/// The counts of a vector. All the strong references together hold one weak
/// one, which keeps the descriptor for the others.
#[derive(Debug, Clone, Copy, PartialEq, Eq, Structural)]
pub struct VecCounts {
    pub strong: i64,
    pub weak: i64,
}

/// What a change of counts gives back: the elements, and the descriptor.
#[derive(Debug, Clone, Copy, PartialEq, Eq, Structural)]
pub struct Reclaim {
    pub elements: bool,
    pub descriptor: bool,
}

pub open spec fn weak_lowered(c: VecCounts, elements: bool) -> (VecCounts, Reclaim) {
    if c.weak == FOREVER {
        (c, Reclaim { elements, descriptor: false })
    } else {
        (
            VecCounts { weak: down(c.weak), ..c },
            Reclaim { elements, descriptor: down(c.weak) <= 0 },
        )
    }
}

pub open spec fn strong_lowered(c: VecCounts) -> (VecCounts, Reclaim) {
    if c.strong == FOREVER {
        (c, Reclaim { elements: false, descriptor: false })
    } else if down(c.strong) > 0 {
        (
            VecCounts { strong: down(c.strong), ..c },
            Reclaim { elements: false, descriptor: false },
        )
    } else {
        weak_lowered(VecCounts { strong: down(c.strong), ..c }, true)
    }
}

pub fn new_counts() -> (r: VecCounts)
    ensures
        r == (VecCounts { strong: 1, weak: 1 }),
{
    VecCounts { strong: 1, weak: 1 }
}

pub fn retain_vec(c: VecCounts) -> (r: VecCounts)
    ensures
        r == (if c.strong == FOREVER {
            c
        } else {
            VecCounts { strong: up(c.strong), ..c }
        }),
{
    VecCounts { strong: retain(c.strong), weak: c.weak }
}

/// One strong reference fewer. The last one gives the elements back and drops
/// the weak reference that the strong ones held.
pub fn release_vec(c: VecCounts) -> (r: (VecCounts, Reclaim))
    ensures
        r == strong_lowered(c),
{
    let (strong, free) = release(c.strong);
    let lowered = VecCounts { strong, weak: c.weak };
    if free {
        weak_release(lowered, true)
    } else {
        (lowered, Reclaim { elements: false, descriptor: false })
    }
}

fn weak_release(c: VecCounts, elements: bool) -> (r: (VecCounts, Reclaim))
    ensures
        r == weak_lowered(c, elements),
{
    let (weak, free) = release(c.weak);
    (VecCounts { strong: c.strong, weak }, Reclaim { elements, descriptor: free })
}

/// One weak reference fewer. The last one gives the descriptor back.
pub fn weak_release_vec(c: VecCounts) -> (r: (VecCounts, Reclaim))
    ensures
        r == weak_lowered(c, false),
{
    weak_release(c, false)
}

/// One weak reference more: a new one, or a copy of one.
pub fn weak_retain_vec(c: VecCounts) -> (r: VecCounts)
    ensures
        r == (if c.weak == FOREVER {
            c
        } else {
            VecCounts { weak: up(c.weak), ..c }
        }),
{
    VecCounts { strong: c.strong, weak: retain(c.weak) }
}

/// A strong reference from a weak one, when the value is still alive.
pub fn weak_upgrade_vec(c: VecCounts) -> (r: Option<VecCounts>)
    ensures
        r == (if c.strong > 0 {
            Some(VecCounts { strong: up(c.strong), ..c })
        } else {
            None
        }),
{
    if c.strong > 0 {
        Some(VecCounts { strong: c.strong.wrapping_add(1), weak: c.weak })
    } else {
        None
    }
}

/// The counts after a number of releases, up to the one that reclaims the
/// value, and whether it was reclaimed.
pub open spec fn released_times(rc: i64, n: nat) -> (i64, bool)
    decreases n,
{
    if n == 0 {
        (rc, false)
    } else {
        let (before, gone) = released_times(rc, (n - 1) as nat);
        if gone || before == FOREVER {
            (before, gone)
        } else {
            (down(before), down(before) <= 0)
        }
    }
}

/// A value with some references is reclaimed by exactly as many releases.
pub proof fn last_release_reclaims(rc: i64, n: nat)
    requires
        rc > 0,
    ensures
        released_times(rc, n).1 == (n >= rc),
    decreases n,
{
    released_exactly(rc, n);
}

proof fn released_exactly(rc: i64, n: nat)
    requires
        rc > 0,
    ensures
        n < rc ==> released_times(rc, n) == ((rc - n) as i64, false),
        n >= rc ==> released_times(rc, n) == (0i64, true),
    decreases n,
{
    if n > 0 {
        released_exactly(rc, (n - 1) as nat);
    }
}

/// A release takes back what a retain added.
pub proof fn release_undoes_retain(rc: i64)
    requires
        0 < rc < i64::MAX,
    ensures
        down(up(rc)) == rc,
        !(down(up(rc)) <= 0),
{
}

/// A vector's descriptor is given back only when no weak reference is left,
/// and its elements only when no strong one is.
pub proof fn descriptor_outlives_weak_references(c: VecCounts)
    requires
        c.strong > 0,
        c.weak > 0,
    ensures
        strong_lowered(c).1.elements == (c.strong == 1),
        strong_lowered(c).1.descriptor == (c.strong == 1 && c.weak == 1),
        weak_lowered(c, false).1.descriptor == (c.weak == 1),
{
}

} // verus!
