//! An insertion-ordered association table. Keys compare by their view, so
//! text keys and compound keys behave as the values they stand for, and the
//! whole table reads as a mathematical map.

use vstd::prelude::*;

use crate::text::same_text;
use crate::token::Span;
use crate::ty::{SymbolId, Ty};

verus! {

/// A value usable as a table key: it has a mathematical identity and an
/// equality test that decides it.
pub trait Key: Sized {
    type Id;

    spec fn id(self) -> Self::Id;

    fn same(&self, other: &Self) -> (r: bool)
        ensures
            r == (self.id() == other.id()),
    ;

    /// A key with the same identity.
    fn dup(&self) -> (r: Self)
        ensures
            r.id() == self.id(),
    ;
}

impl Key for SymbolId {
    type Id = SymbolId;

    open spec fn id(self) -> SymbolId {
        self
    }

    fn same(&self, other: &Self) -> (r: bool) {
        self.0 == other.0
    }

    fn dup(&self) -> (r: Self) {
        *self
    }
}

impl Key for Span {
    type Id = Span;

    open spec fn id(self) -> Span {
        self
    }

    fn same(&self, other: &Self) -> (r: bool) {
        self.start == other.start && self.end == other.end
    }

    fn dup(&self) -> (r: Self) {
        *self
    }
}

impl Key for String {
    type Id = Seq<char>;

    open spec fn id(self) -> Seq<char> {
        self@
    }

    fn same(&self, other: &Self) -> (r: bool) {
        same_text(self.as_str(), other.as_str())
    }

    fn dup(&self) -> (r: Self) {
        self.clone()
    }
}

impl Key for (SymbolId, String) {
    type Id = (SymbolId, Seq<char>);

    open spec fn id(self) -> (SymbolId, Seq<char>) {
        (self.0, self.1@)
    }

    fn same(&self, other: &Self) -> (r: bool) {
        self.0.0 == other.0.0 && same_text(self.1.as_str(), other.1.as_str())
    }

    fn dup(&self) -> (r: Self) {
        (self.0, self.1.clone())
    }
}

impl Key for (SymbolId, SymbolId) {
    type Id = (SymbolId, SymbolId);

    open spec fn id(self) -> (SymbolId, SymbolId) {
        self
    }

    fn same(&self, other: &Self) -> (r: bool) {
        self.0.0 == other.0.0 && self.1.0 == other.1.0
    }

    fn dup(&self) -> (r: Self) {
        *self
    }
}

/// Whether some entry has the key `k`.
pub open spec fn has_key<K: Key, V>(s: Seq<(K, V)>, k: K::Id) -> bool {
    exists|i: int| 0 <= i < s.len() && (#[trigger] s[i]).0.id() == k
}

/// The position of the entry with key `k`.
pub open spec fn key_index<K: Key, V>(s: Seq<(K, V)>, k: K::Id) -> int {
    choose|i: int| 0 <= i < s.len() && (#[trigger] s[i]).0.id() == k
}

/// No key occurs twice.
pub open spec fn distinct_keys<K: Key, V>(s: Seq<(K, V)>) -> bool {
    forall|i: int, j: int|
        0 <= i < j < s.len() ==> (#[trigger] s[i]).0.id() != (#[trigger] s[j]).0.id()
}

#[derive(Debug)]
pub struct Table<K: Key, V> {
    entries: Vec<(K, V)>,
}

impl<K: Key, V> View for Table<K, V> {
    type V = Map<K::Id, V>;

    closed spec fn view(&self) -> Map<K::Id, V> {
        Map::new(
            |k: K::Id| has_key(self.entries@, k),
            |k: K::Id| self.entries@[key_index(self.entries@, k)].1,
        )
    }
}

impl<K: Key, V> Table<K, V> {
    #[verifier::type_invariant]
    spec fn inv(self) -> bool {
        distinct_keys(self.entries@)
    }

    /// The entries in insertion order.
    pub closed spec fn items(self) -> Seq<(K, V)> {
        self.entries@
    }

    pub fn new() -> (r: Self)
        ensures
            r@ == Map::<K::Id, V>::empty(),
            r.items() == Seq::<(K, V)>::empty(),
    {
        let r = Table { entries: Vec::new() };
        assert(r@ =~= Map::<K::Id, V>::empty());
        r
    }

    /// Number of entries.
    pub fn len(&self) -> (n: usize)
        ensures
            n == self.items().len(),
    {
        self.entries.len()
    }

    /// The entry at a position, with what it says of the map.
    pub fn entry(&self, i: usize) -> (r: &(K, V))
        requires
            i < self.items().len(),
        ensures
            *r == self.items()[i as int],
            self@.contains_key(r.0.id()),
            self@[r.0.id()] == r.1,
    {
        proof {
            use_type_invariant(self);
            assert(has_key(self.entries@, self.entries@[i as int].0.id()));
        }
        &self.entries[i]
    }

    fn find(&self, key: &K) -> (r: Option<usize>)
        ensures
            match r {
                Some(i) => i < self.items().len() && self.items()[i as int].0.id() == key.id(),
                None => !has_key(self.items(), key.id()),
            },
    {
        let mut i: usize = 0;
        while i < self.entries.len()
            invariant
                i <= self.entries@.len(),
                forall|j: int| 0 <= j < i ==> (#[trigger] self.entries@[j]).0.id() != key.id(),
            decreases self.entries@.len() - i,
        {
            if self.entries[i].0.same(key) {
                return Some(i);
            }
            i += 1;
        }
        None
    }

    /// The value under a key, if there is one.
    pub fn get(&self, key: &K) -> (r: Option<&V>)
        ensures
            match r {
                Some(v) => self@.contains_key(key.id()) && self@[key.id()] == *v,
                None => !self@.contains_key(key.id()),
            },
    {
        match self.find(key) {
            Some(i) => {
                proof {
                    use_type_invariant(self);
                    assert(has_key(self.entries@, key.id()));
                    let c = key_index(self.entries@, key.id());
                    assert(c == i);
                }
                Some(&self.entries[i].1)
            },
            None => None,
        }
    }

    /// Whether a key is present.
    pub fn contains(&self, key: &K) -> (r: bool)
        ensures
            r == self@.contains_key(key.id()),
    {
        match self.get(key) {
            Some(_) => true,
            None => false,
        }
    }

    /// Binds a key to a value: replaces the value in place when the key is
    /// there, and adds an entry at the end when it is not.
    pub fn insert(&mut self, key: K, value: V)
        ensures
            final(self)@ == old(self)@.insert(key.id(), value),
            !old(self)@.contains_key(key.id()) ==> final(self).items() == old(self).items().push((key, value)),
            old(self)@.contains_key(key.id()) ==> final(self).items().len() == old(self).items().len(),
            forall|i: int|
                0 <= i < old(self).items().len() ==> (#[trigger] final(self).items()[i]).0.id() == old(self).items()[i].0.id(),
    {
        proof {
            use_type_invariant(&*self);
        }
        let ghost before = self.entries@;
        let at = self.find(&key);
        let mut entries: Vec<(K, V)> = Vec::new();
        std::mem::swap(&mut entries, &mut self.entries);
        match at {
            Some(i) => {
                entries.set(i, (key, value));
                proof {
                    let s = entries@;
                    assert(distinct_keys(s)) by {
                        assert forall|a: int, b: int| 0 <= a < b < s.len() implies (#[trigger] s[a]).0.id() != (#[trigger] s[b]).0.id() by {
                            assert(before[a].0.id() != before[b].0.id());
                        }
                    }
                    assert(has_key(before, key.id()));
                    assert(has_key(s, key.id())) by {
                        assert(s[i as int].0.id() == key.id());
                    }
                    assert forall|k: K::Id| has_key(before, k) == has_key(s, k) by {
                        if has_key(before, k) {
                            let j = key_index(before, k);
                            assert(s[j].0.id() == k);
                        }
                        if has_key(s, k) {
                            let j = key_index(s, k);
                            assert(before[j].0.id() == k);
                        }
                    }
                    assert forall|k: K::Id| has_key(before, k) implies key_index(before, k) == key_index(s, k) by {
                        let j = key_index(before, k);
                        let l = key_index(s, k);
                        assert(s[j].0.id() == k);
                        assert(before[l].0.id() == k);
                        if j < l {
                            assert(before[j].0.id() != before[l].0.id());
                        } else if l < j {
                            assert(before[l].0.id() != before[j].0.id());
                        }
                    }
                    let l = key_index(s, key.id());
                    assert(s[l].0.id() == key.id());
                    assert(l == i) by {
                        if l < i {
                            assert(s[l].0.id() != s[i as int].0.id());
                        } else if i < l {
                            assert(s[i as int].0.id() != s[l].0.id());
                        }
                    }
                }
            },
            None => {
                entries.push((key, value));
                proof {
                    let s = entries@;
                    let n = before.len() as int;
                    assert(distinct_keys(s)) by {
                        assert forall|a: int, b: int| 0 <= a < b < s.len() implies (#[trigger] s[a]).0.id() != (#[trigger] s[b]).0.id() by {
                            if b == n {
                                assert(before[a].0.id() != key.id());
                            } else {
                                assert(before[a].0.id() != before[b].0.id());
                            }
                        }
                    }
                    assert(s[n].0.id() == key.id());
                    assert forall|k: K::Id| has_key(s, k) == (has_key(before, k) || k == key.id()) by {
                        if has_key(before, k) {
                            let j = key_index(before, k);
                            assert(s[j].0.id() == k);
                        }
                        if has_key(s, k) {
                            let j = key_index(s, k);
                            if j < n {
                                assert(before[j].0.id() == k);
                            }
                        }
                    }
                    assert forall|k: K::Id| has_key(before, k) implies key_index(before, k) == key_index(s, k) by {
                        let j = key_index(before, k);
                        let l = key_index(s, k);
                        assert(s[j].0.id() == k);
                        assert(s[l].0.id() == k);
                        if j < l {
                            assert(s[j].0.id() != s[l].0.id());
                        } else if l < j {
                            assert(s[l].0.id() != s[j].0.id());
                        }
                    }
                    let l = key_index(s, key.id());
                    assert(s[l].0.id() == key.id());
                    if l < n {
                        assert(before[l].0.id() == key.id());
                    }
                }
            },
        }
        self.entries = entries;
        assert(self@ =~= old(self)@.insert(key.id(), value));
    }
}

/// Every key of the map is the key of some entry.
pub proof fn entry_of_key<K: Key, V>(t: Table<K, V>, k: K::Id)
    requires
        t@.contains_key(k),
    ensures
        exists|i: int|
            0 <= i < t.items().len() && (#[trigger] t.items()[i]).0.id() == k && t.items()[i].1 == t@[k],
{
    let i = key_index(t.items(), k);
    assert(t.items()[i].0.id() == k);
}

/// The key of every entry is a key of the map.
pub proof fn has_key_of_entry<K: Key, V>(t: Table<K, V>, i: int)
    requires
        0 <= i < t.items().len(),
    ensures
        t@.contains_key(t.items()[i].0.id()),
{
    assert(has_key(t.items(), t.items()[i].0.id()));
}

/// A value that can be copied up to its view.
pub trait Dup: View + Sized {
    fn dup(&self) -> (r: Self)
        ensures
            r@ == self@,
    ;
}

impl View for SymbolId {
    type V = SymbolId;

    open spec fn view(&self) -> SymbolId {
        *self
    }
}

impl Dup for SymbolId {
    fn dup(&self) -> (r: Self) {
        *self
    }
}

impl Dup for Vec<SymbolId> {
    fn dup(&self) -> (r: Self) {
        copy_syms(self)
    }
}

impl Dup for Ty {
    fn dup(&self) -> (r: Self) {
        self.copy()
    }
}

impl<K: Key, V: Clone> Clone for Table<K, V> {
    fn clone(&self) -> (r: Self)
        ensures
            r@.dom() == self@.dom(),
    {
        let mut out: Table<K, V> = Table::new();
        let n = self.len();
        let mut i: usize = 0;
        while i < n
            invariant
                i <= n,
                n == self.items().len(),
                forall|j: int| 0 <= j < i ==> out@.contains_key((#[trigger] self.items()[j]).0.id()),
                forall|k: K::Id| #[trigger] out@.contains_key(k) ==> self@.contains_key(k),
            decreases n - i,
        {
            let e = self.entry(i);
            out.insert(e.0.dup(), e.1.clone());
            i += 1;
        }
        proof {
            assert forall|k: K::Id| self@.contains_key(k) implies out@.contains_key(k) by {
                entry_of_key(*self, k);
            }
            assert(out@.dom() =~= self@.dom());
        }
        out
    }
}

/// A copy of a list of symbols.
pub fn copy_syms(syms: &Vec<SymbolId>) -> (r: Vec<SymbolId>)
    ensures
        r@ == syms@,
{
    let mut out: Vec<SymbolId> = Vec::new();
    let mut i: usize = 0;
    while i < syms.len()
        invariant
            i <= syms.len(),
            out@ == syms@.take(i as int),
        decreases syms.len() - i,
    {
        out.push(syms[i]);
        assert(syms@.take(i + 1) =~= syms@.take(i as int).push(syms@[i as int]));
        i += 1;
    }
    assert(syms@.take(i as int) =~= syms@);
    out
}

/// Whether two tables bind the same keys to values with the same views.
pub open spec fn same_table<K: Key, V: View>(a: Map<K::Id, V>, b: Map<K::Id, V>) -> bool {
    &&& a.dom() == b.dom()
    &&& forall|k: K::Id| #![trigger a[k]] #![trigger b[k]] a.contains_key(k) ==> a[k]@ == b[k]@
}

/// A copy of a table.
pub fn dup_table<K: Key, V: Dup>(t: &Table<K, V>) -> (r: Table<K, V>)
    ensures
        same_table::<K, V>(r@, t@),
{
    let mut out: Table<K, V> = Table::new();
    let n = t.len();
    let mut i: usize = 0;
    while i < n
        invariant
            i <= n,
            n == t.items().len(),
            forall|j: int| 0 <= j < i ==> out@.contains_key((#[trigger] t.items()[j]).0.id()),
            forall|k: K::Id|
                #![trigger out@.contains_key(k)]
                out@.contains_key(k) ==> t@.contains_key(k) && out@[k]@ == t@[k]@,
        decreases n - i,
    {
        let e = t.entry(i);
        let ghost before = out@;
        out.insert(e.0.dup(), e.1.dup());
        proof {
            assert forall|k: K::Id|
                #![trigger out@.contains_key(k)]
                out@.contains_key(k) implies t@.contains_key(k) && out@[k]@ == t@[k]@ by {
                if k != e.0.id() {
                    assert(before.contains_key(k));
                }
            }
        }
        i += 1;
    }
    proof {
        assert forall|k: K::Id| t@.contains_key(k) implies out@.contains_key(k) by {
            entry_of_key(*t, k);
        }
        assert(out@.dom() =~= t@.dom());
    }
    out
}

/// The value of a map at a key, if there is one.
pub open spec fn lookup<K, V>(m: Map<K, V>, k: K) -> Option<V> {
    if m.contains_key(k) {
        Some(m[k])
    } else {
        None
    }
}

/// The view of the value of a map at a key, or `other`.
pub open spec fn view_or<K, V: View>(m: Map<K, V>, k: K, other: V::V) -> V::V {
    if m.contains_key(k) {
        m[k]@
    } else {
        other
    }
}

} // verus!
