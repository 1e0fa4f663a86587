//! Searching sequences front to back.

use vstd::prelude::*;

verus! {

pub open spec fn least(a: nat, b: nat) -> nat {
    if a <= b {
        a
    } else {
        b
    }
}

/// The first position below `n` that satisfies `p`.
pub open spec fn first_where(p: spec_fn(int) -> bool, n: nat) -> Option<int>
    decreases n,
{
    if n == 0 {
        None
    } else {
        match first_where(p, (n - 1) as nat) {
            Some(i) => Some(i),
            None => if p(n - 1) {
                Some(n - 1)
            } else {
                None
            },
        }
    }
}

/// Looking further does not change what was found.
pub proof fn found_stays(p: spec_fn(int) -> bool, k: nat, n: nat)
    requires
        k <= n,
        first_where(p, k) is Some,
    ensures
        first_where(p, n) == first_where(p, k),
    decreases n,
{
    if k < n {
        found_stays(p, k, (n - 1) as nat);
    }
}

/// What is found satisfies the predicate and nothing before it does; when
/// nothing is found nothing satisfies it.
pub proof fn first_is_first(p: spec_fn(int) -> bool, n: nat)
    ensures
        match first_where(p, n) {
            Some(i) => 0 <= i < n && p(i) && forall|j: int| 0 <= j < i ==> !(#[trigger] p(j)),
            None => forall|j: int| 0 <= j < n ==> !(#[trigger] p(j)),
        },
    decreases n,
{
    if n > 0 {
        first_is_first(p, (n - 1) as nat);
    }
}

} // verus!
