//! The first position in a sequence at which a predicate holds.

use vstd::prelude::*;

verus! {

/// The least index below `n` at which `p` holds in `s`, if there is one.
pub open spec fn first_in<T>(s: Seq<T>, p: spec_fn(T) -> bool, n: nat) -> Option<int>
    decreases n,
{
    if n == 0 {
        None
    } else {
        match first_in(s, p, (n - 1) as nat) {
            Some(i) => Some(i),
            None => if p(s[n - 1]) {
                Some(n - 1)
            } else {
                None
            },
        }
    }
}

/// The least index of `s` at which `p` holds, if there is one.
pub open spec fn first<T>(s: Seq<T>, p: spec_fn(T) -> bool) -> Option<int> {
    first_in(s, p, s.len())
}

/// `first_in` finds an index exactly when `p` holds somewhere below `n`, and
/// the index it finds is the least such.
pub proof fn lemma_first_in<T>(s: Seq<T>, p: spec_fn(T) -> bool, n: nat)
    ensures
        first_in(s, p, n) matches Some(i) ==> 0 <= i < n && p(s[i]) && forall|j: int|
            0 <= j < i ==> !p(#[trigger] s[j]),
        first_in(s, p, n) is None ==> forall|j: int| 0 <= j < n ==> !p(#[trigger] s[j]),
    decreases n,
{
    if n > 0 {
        lemma_first_in(s, p, (n - 1) as nat);
    }
}

/// Where `p` holds at `i` and nowhere before it, `i` is what `first_in` finds
/// below any bound above `i`.
pub proof fn lemma_first_in_at<T>(s: Seq<T>, p: spec_fn(T) -> bool, i: int, n: nat)
    requires
        0 <= i < n,
        p(s[i]),
        forall|j: int| 0 <= j < i ==> !p(#[trigger] s[j]),
    ensures
        first_in(s, p, n) == Some(i),
    decreases n,
{
    lemma_first_in(s, p, (n - 1) as nat);
    if i < n - 1 {
        lemma_first_in_at(s, p, i, (n - 1) as nat);
    }
}

/// Where `p` holds nowhere below `n`, `first_in` finds nothing.
pub proof fn lemma_first_in_none<T>(s: Seq<T>, p: spec_fn(T) -> bool, n: nat)
    requires
        forall|j: int| 0 <= j < n ==> !p(#[trigger] s[j]),
    ensures
        first_in(s, p, n) is None,
    decreases n,
{
    if n > 0 {
        lemma_first_in_none(s, p, (n - 1) as nat);
    }
}

} // verus!
