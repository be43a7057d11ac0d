//! Finite sums of integer-valued terms, and the facts about them that the
//! polygon formulas rest on.
use vstd::prelude::*;

verus! {

/// `f(0) + f(1) + ... + f(k - 1)`.
pub open spec fn sum_to(f: spec_fn(int) -> int, k: int) -> int
    decreases k,
{
    if k <= 0 {
        0
    } else {
        sum_to(f, k - 1) + f(k - 1)
    }
}

/// A sum of `k` terms, each between `-bound` and `bound`, lies between
/// `-k * bound` and `k * bound`.
pub proof fn lemma_sum_bounded(f: spec_fn(int) -> int, k: int, bound: int)
    requires
        0 <= k,
        forall|i: int| 0 <= i < k ==> -bound <= #[trigger] f(i) <= bound,
    ensures
        -(k * bound) <= sum_to(f, k) <= k * bound,
    decreases k,
{
    if k > 0 {
        lemma_sum_bounded(f, k - 1, bound);
        assert(k * bound == (k - 1) * bound + bound) by (nonlinear_arith);
    } else {
        assert(k * bound == 0) by (nonlinear_arith)
            requires
                k == 0,
        ;
    }
}

/// Sums of terms that agree index by index are equal.
pub proof fn lemma_sum_pointwise(f: spec_fn(int) -> int, g: spec_fn(int) -> int, k: int)
    requires
        forall|i: int| 0 <= i < k ==> #[trigger] f(i) == g(i),
    ensures
        sum_to(f, k) == sum_to(g, k),
    decreases k,
{
    if k > 0 {
        lemma_sum_pointwise(f, g, k - 1);
    }
}

/// Negating every term negates the sum.
pub proof fn lemma_sum_negated(f: spec_fn(int) -> int, g: spec_fn(int) -> int, k: int)
    requires
        forall|i: int| 0 <= i < k ==> #[trigger] g(i) == -f(i),
    ensures
        sum_to(g, k) == -sum_to(f, k),
    decreases k,
{
    if k > 0 {
        lemma_sum_negated(f, g, k - 1);
    }
}

/// The first term can be split off: the sum of `k + 1` terms is `f(0)` plus the
/// sum of the `k` terms that follow it.
pub proof fn lemma_sum_split_first(f: spec_fn(int) -> int, g: spec_fn(int) -> int, k: int)
    requires
        0 <= k,
        forall|i: int| 0 <= i < k ==> #[trigger] g(i) == f(i + 1),
    ensures
        sum_to(f, k + 1) == f(0) + sum_to(g, k),
    decreases k,
{
    if k > 0 {
        lemma_sum_split_first(f, g, k - 1);
        assert(g(k - 1) == f(k - 1 + 1));
        assert(sum_to(g, k) == sum_to(g, k - 1) + g(k - 1));
        assert(sum_to(f, k + 1) == sum_to(f, k) + f(k));
    } else {
        assert(sum_to(f, 0) == 0);
        assert(sum_to(f, 1) == sum_to(f, 0) + f(0));
    }
}

/// Listing the terms in the opposite order leaves the sum unchanged.
pub proof fn lemma_sum_reversed(f: spec_fn(int) -> int, g: spec_fn(int) -> int, k: int)
    requires
        0 <= k,
        forall|i: int| 0 <= i < k ==> #[trigger] g(i) == f(k - 1 - i),
    ensures
        sum_to(g, k) == sum_to(f, k),
    decreases k,
{
    if k > 0 {
        // g(0) is f(k - 1); the rest of g lists f(0..k-1) backwards.
        let g_tail = |i: int| g(i + 1);
        assert forall|i: int| 0 <= i < k - 1 implies #[trigger] g_tail(i) == f(k - 2 - i) by {
            assert(g(i + 1) == f(k - 1 - (i + 1)));
        }
        lemma_sum_reversed(f, g_tail, k - 1);
        lemma_sum_split_first(g, g_tail, k - 1);
        assert(g(0) == f(k - 1 - 0));
    }
}

/// Starting the list of terms `s` places later, and wrapping around, leaves the
/// sum unchanged.
pub proof fn lemma_sum_rotated(f: spec_fn(int) -> int, g: spec_fn(int) -> int, k: int, s: int)
    requires
        0 <= s <= k,
        forall|i: int| 0 <= i < k - s ==> #[trigger] g(i) == f(i + s),
        forall|i: int| k - s <= i < k ==> #[trigger] g(i) == f(i + s - k),
    ensures
        sum_to(g, k) == sum_to(f, k),
    decreases s,
{
    if s == 0 {
        assert forall|i: int| 0 <= i < k implies #[trigger] g(i) == f(i) by {
            assert(g(i) == f(i + 0));
        }
        lemma_sum_pointwise(g, f, k);
    } else {
        // h is f started one place later; g is h started s - 1 places later.
        let h = |i: int|
            if i < k - 1 {
                f(i + 1)
            } else {
                f(0)
            };
        assert forall|i: int| 0 <= i < k - (s - 1) implies #[trigger] g(i) == h(i + (s - 1)) by {
            if i < k - s {
                assert(g(i) == f(i + s));
            } else {
                assert(g(i) == f(i + s - k));
            }
        }
        assert forall|i: int| k - (s - 1) <= i < k implies #[trigger] g(i) == h(
            i + (s - 1) - k,
        ) by {
            assert(g(i) == f(i + s - k));
        }
        lemma_sum_rotated(h, g, k, s - 1);
        // The sum of h is the sum of f: split f's first term off and append it.
        let f_tail = |i: int| f(i + 1);
        lemma_sum_split_first(f, f_tail, k - 1);
        assert forall|i: int| 0 <= i < k - 1 implies #[trigger] h(i) == f_tail(i) by {}
        lemma_sum_pointwise(h, f_tail, k - 1);
        assert(sum_to(h, k) == sum_to(h, k - 1) + h(k - 1));
    }
}

/// The sum of terms `a(i) - k * b(i) + p(i) - q(i)` is the sum of `a`, less
/// `k` times the sum of `b`, plus the sum of `p`, less the sum of `q`.
pub proof fn lemma_sum_combined(
    h: spec_fn(int) -> int,
    a: spec_fn(int) -> int,
    b: spec_fn(int) -> int,
    p: spec_fn(int) -> int,
    q: spec_fn(int) -> int,
    k: int,
    n: int,
)
    requires
        forall|i: int| 0 <= i < n ==> #[trigger] h(i) == a(i) - k * b(i) + p(i) - q(i),
    ensures
        sum_to(h, n) == sum_to(a, n) - k * sum_to(b, n) + sum_to(p, n) - sum_to(q, n),
    decreases n,
{
    if n > 0 {
        lemma_sum_combined(h, a, b, p, q, k, n - 1);
        let t = b(n - 1);
        assert(h(n - 1) == a(n - 1) - k * t + p(n - 1) - q(n - 1));
        assert(k * (sum_to(b, n - 1) + t) == k * sum_to(b, n - 1) + k * t) by (nonlinear_arith);
    } else {
        assert(k * 0 == 0) by (nonlinear_arith);
    }
}

/// A sum around a closed chain of `n` links: where each term of `h` is the
/// term of `a`, less `k` times the term of `b`, plus what `g` gains from one
/// index to the next around the chain, the gains cancel, and the sum of `h` is
/// the sum of `a` less `k` times the sum of `b`.
pub proof fn lemma_sum_around(
    h: spec_fn(int) -> int,
    a: spec_fn(int) -> int,
    b: spec_fn(int) -> int,
    g: spec_fn(int) -> int,
    k: int,
    n: int,
)
    requires
        1 <= n,
        forall|i: int|
            0 <= i < n ==> #[trigger] h(i) == a(i) - k * b(i) + g(
                if i + 1 < n {
                    i + 1
                } else {
                    0
                },
            ) - g(i),
    ensures
        sum_to(h, n) == sum_to(a, n) - k * sum_to(b, n),
{
    let p = |i: int|
        g(
            if i + 1 < n {
                i + 1
            } else {
                0
            },
        );
    assert forall|i: int| 0 <= i < n implies #[trigger] h(i) == a(i) - k * b(i) + p(i) - g(i) by {
    }
    lemma_sum_combined(h, a, b, p, g, k, n);
    assert forall|i: int| 0 <= i < n - 1 implies #[trigger] p(i) == g(i + 1) by {
    }
    assert forall|i: int| n - 1 <= i < n implies #[trigger] p(i) == g(i + 1 - n) by {
    }
    lemma_sum_rotated(g, p, n, 1);
}

} // verus!
