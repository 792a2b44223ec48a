//! Counting the positions of a prefix at which a predicate holds.

use vstd::prelude::*;

verus! {

/// Number of positions `k` with `0 <= k < n` at which `p(k)` holds.
pub open spec fn count_where(n: int, p: spec_fn(int) -> bool) -> nat
    decreases n,
{
    if n <= 0 {
        0
    } else {
        count_where(n - 1, p) + if p(n - 1) {
            1nat
        } else {
            0nat
        }
    }
}

/// A prefix of `n` positions holds at most `n` hits.
pub proof fn lemma_count_bound(n: int, p: spec_fn(int) -> bool)
    requires
        0 <= n,
    ensures
        count_where(n, p) <= n,
    decreases n,
{
    if n > 0 {
        lemma_count_bound(n - 1, p);
    }
}

/// A longer prefix holds at least as many hits.
pub proof fn lemma_count_monotone(m: int, n: int, p: spec_fn(int) -> bool)
    requires
        m <= n,
    ensures
        count_where(m, p) <= count_where(n, p),
    decreases n - m,
{
    if m < n {
        lemma_count_monotone(m, n - 1, p);
    }
}

/// Predicates that agree on a prefix have the same count there.
pub proof fn lemma_count_agree(n: int, p: spec_fn(int) -> bool, q: spec_fn(int) -> bool)
    requires
        forall|k: int| 0 <= k < n ==> #[trigger] p(k) == q(k),
    ensures
        count_where(n, p) == count_where(n, q),
    decreases n,
{
    if n > 0 {
        lemma_count_agree(n - 1, p, q);
    }
}

/// A predicate that holds nowhere on a prefix counts zero there.
pub proof fn lemma_count_none(n: int, p: spec_fn(int) -> bool)
    requires
        forall|k: int| 0 <= k < n ==> !#[trigger] p(k),
    ensures
        count_where(n, p) == 0,
    decreases n,
{
    if n > 0 {
        lemma_count_none(n - 1, p);
    }
}

/// Where `r` holds exactly when one of two exclusive predicates holds, its
/// count is the sum of theirs.
pub proof fn lemma_count_split(
    n: int,
    r: spec_fn(int) -> bool,
    p: spec_fn(int) -> bool,
    q: spec_fn(int) -> bool,
)
    requires
        forall|k: int| 0 <= k < n ==> #[trigger] r(k) == (p(k) || q(k)),
        forall|k: int| 0 <= k < n ==> !(#[trigger] p(k) && q(k)),
    ensures
        count_where(n, r) == count_where(n, p) + count_where(n, q),
    decreases n,
{
    if n > 0 {
        lemma_count_split(n - 1, r, p, q);
    }
}

} // verus!
