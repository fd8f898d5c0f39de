//! Sums over the records of a table.
use vstd::prelude::*;

verus! {

/// The sum of what the records of a map weigh.
pub open spec fn total<K, V>(m: Map<K, V>, weight: spec_fn(K, V) -> int) -> int
    decreases m.dom().len(),
    when m.dom().finite()
{
    if m.dom().len() == 0 {
        0
    } else {
        let k = m.dom().choose();
        weight(k, m[k]) + total(m.remove(k), weight)
    }
}

/// The amount that stands under a key, and zero where none does.
pub open spec fn amount_at<K>(m: Map<K, i128>, k: K) -> int {
    if m.contains_key(k) {
        m[k] as int
    } else {
        0
    }
}

/// Any one record can be counted apart from the others.
pub proof fn lemma_total_apart<K, V>(m: Map<K, V>, weight: spec_fn(K, V) -> int, k: K)
    requires
        m.dom().finite(),
        m.contains_key(k),
    ensures
        total(m, weight) == weight(k, m[k]) + total(m.remove(k), weight),
    decreases m.dom().len(),
{
    let c = m.dom().choose();
    assert(m.dom().len() > 0) by {
        if m.dom().len() == 0 {
            assert(m.dom() =~= Set::<K>::empty());
        }
    }
    assert(m.dom().contains(c));
    if c != k {
        lemma_total_apart(m.remove(c), weight, k);
        lemma_total_apart(m.remove(k), weight, c);
        assert(m.remove(c).remove(k) =~= m.remove(k).remove(c));
    }
}

/// Putting a record changes the sum by what it weighs, less what the one in
/// its place did.
pub proof fn lemma_total_insert<K, V>(m: Map<K, V>, weight: spec_fn(K, V) -> int, k: K, v: V)
    requires
        m.dom().finite(),
    ensures
        total(m.insert(k, v), weight) == total(m, weight) + weight(k, v) - (if m.contains_key(k) {
            weight(k, m[k])
        } else {
            0
        }),
{
    let n = m.insert(k, v);
    lemma_total_apart(n, weight, k);
    if m.contains_key(k) {
        lemma_total_apart(m, weight, k);
        assert(n.remove(k) =~= m.remove(k));
    } else {
        assert(n.remove(k) =~= m);
    }
}

/// Removing a record takes what it weighs off the sum.
pub proof fn lemma_total_remove<K, V>(m: Map<K, V>, weight: spec_fn(K, V) -> int, k: K)
    requires
        m.dom().finite(),
    ensures
        total(m.remove(k), weight) == total(m, weight) - (if m.contains_key(k) {
            weight(k, m[k])
        } else {
            0
        }),
{
    if m.contains_key(k) {
        lemma_total_apart(m, weight, k);
    } else {
        assert(m.remove(k) =~= m);
    }
}

/// Records that weigh nothing sum to nothing.
pub proof fn lemma_total_zero<K, V>(m: Map<K, V>, weight: spec_fn(K, V) -> int)
    requires
        m.dom().finite(),
        forall|k: K| #[trigger] m.contains_key(k) ==> weight(k, m[k]) == 0,
    ensures
        total(m, weight) == 0,
    decreases m.dom().len(),
{
    if m.dom().len() != 0 {
        let c = m.dom().choose();
        assert(m.contains_key(c));
        assert forall|k: K| #[trigger] m.remove(c).contains_key(k) implies weight(
            k,
            m.remove(c)[k],
        ) == 0 by {
            assert(m.contains_key(k));
        }
        lemma_total_zero(m.remove(c), weight);
    }
}

/// Where no record weighs less than nothing, neither does the sum, and no
/// record outweighs it.
pub proof fn lemma_total_bounds<K, V>(m: Map<K, V>, weight: spec_fn(K, V) -> int)
    requires
        m.dom().finite(),
        forall|k: K| #[trigger] m.contains_key(k) ==> weight(k, m[k]) >= 0,
    ensures
        total(m, weight) >= 0,
        forall|k: K| #[trigger] m.contains_key(k) ==> weight(k, m[k]) <= total(m, weight),
    decreases m.dom().len(),
{
    if m.dom().len() != 0 {
        let c = m.dom().choose();
        assert(m.contains_key(c));
        assert forall|k: K| #[trigger] m.remove(c).contains_key(k) implies weight(
            k,
            m.remove(c)[k],
        ) >= 0 by {
            assert(m.contains_key(k));
        }
        lemma_total_bounds(m.remove(c), weight);
        assert forall|k: K| #[trigger] m.contains_key(k) implies weight(k, m[k]) <= total(
            m,
            weight,
        ) by {
            if k != c {
                assert(m.remove(c).contains_key(k));
            }
        }
    } else {
        assert(m.dom() =~= Set::<K>::empty());
        assert forall|k: K| #[trigger] m.contains_key(k) implies weight(k, m[k]) <= total(
            m,
            weight,
        ) by {
            assert(m.dom().contains(k));
        }
    }
}

/// Where every record weighs one thing and so many times another, so does the
/// sum.
pub proof fn lemma_total_combined<K, V>(
    m: Map<K, V>,
    weight: spec_fn(K, V) -> int,
    one: spec_fn(K, V) -> int,
    other: spec_fn(K, V) -> int,
    times: int,
)
    requires
        m.dom().finite(),
        forall|k: K| #[trigger]
            m.contains_key(k) ==> weight(k, m[k]) == one(k, m[k]) + times * other(k, m[k]),
    ensures
        total(m, weight) == total(m, one) + times * total(m, other),
    decreases m.dom().len(),
{
    if m.dom().len() != 0 {
        let c = m.dom().choose();
        let rest = m.remove(c);
        assert(m.contains_key(c));
        assert forall|k: K| #[trigger] rest.contains_key(k) implies weight(k, rest[k]) == one(
            k,
            rest[k],
        ) + times * other(k, rest[k]) by {
            assert(m.contains_key(k));
        }
        lemma_total_combined(rest, weight, one, other, times);
        let x = other(c, m[c]);
        let y = total(rest, other);
        assert(times * (x + y) == times * x + times * y) by (nonlinear_arith);
    } else {
        assert(times * 0 == 0);
    }
}

/// Where so many times what every record weighs is at most another thing, so
/// it is of the sum.
pub proof fn lemma_total_at_most<K, V>(
    m: Map<K, V>,
    weight: spec_fn(K, V) -> int,
    limit: spec_fn(K, V) -> int,
    times: int,
)
    requires
        m.dom().finite(),
        forall|k: K| #[trigger] m.contains_key(k) ==> times * weight(k, m[k]) <= limit(k, m[k]),
    ensures
        times * total(m, weight) <= total(m, limit),
    decreases m.dom().len(),
{
    if m.dom().len() != 0 {
        let c = m.dom().choose();
        let rest = m.remove(c);
        assert(m.contains_key(c));
        assert forall|k: K| #[trigger] rest.contains_key(k) implies times * weight(k, rest[k])
            <= limit(k, rest[k]) by {
            assert(m.contains_key(k));
        }
        lemma_total_at_most(rest, weight, limit, times);
        let x = weight(c, m[c]);
        let y = total(rest, weight);
        assert(times * (x + y) == times * x + times * y) by (nonlinear_arith);
    } else {
        assert(times * 0 == 0);
    }
}

} // verus!
