//! One price out of many.
use crate::arith;
use crate::host;
use crate::oracle_twap::PriceObservation;
use vstd::prelude::*;
use vstd::seq_lib;

verus! {

/// The order of prices.
pub open spec fn at_most() -> spec_fn(i128, i128) -> bool {
    |a: i128, b: i128| a <= b
}

/// Prices from the lowest to the highest.
pub open spec fn ascending(prices: Seq<i128>) -> Seq<i128> {
    prices.sort_by(at_most())
}

/// How many prices are dropped at either end.
pub open spec fn trim(n: int) -> int {
    n / 4
}

/// The prices without the highest and the lowest quarter.
pub open spec fn middle(prices: Seq<i128>) -> Seq<i128> {
    ascending(prices).subrange(
        trim(prices.len() as int),
        prices.len() - trim(prices.len() as int),
    )
}

/// The price in the middle of prices from the lowest to the highest; of an even
/// number of them, what lies halfway between the two in the middle, rounded
/// towards zero.
pub open spec fn median(sorted: Seq<i128>) -> i128 {
    let half = sorted.len() as int / 2;
    if sorted.len() % 2 == 1 {
        sorted[half]
    } else {
        arith::quot(sorted[half - 1] + sorted[half], 2) as i128
    }
}

/// The one price that prices come to: the median of those in the middle.
pub open spec fn agreed(prices: Seq<i128>) -> i128 {
    median(middle(prices))
}

/// The prices of observations.
pub open spec fn prices_of(list: Seq<PriceObservation>) -> Seq<i128> {
    list.map_values(|o: PriceObservation| o.price)
}

/// Sorting keeps the prices, and puts them in order.
pub proof fn lemma_ascending(prices: Seq<i128>)
    ensures
        ascending(prices).len() == prices.len(),
        ascending(prices).to_multiset() == prices.to_multiset(),
        forall|i: int, j: int|
            0 <= i <= j < prices.len() ==> ascending(prices)[i] <= ascending(prices)[j],
{
    broadcast use seq_lib::group_to_multiset_ensures;

    let leq = at_most();
    prices.lemma_sort_by_ensures(leq);
    assert(ascending(prices).len() == ascending(prices).to_multiset().len());
    assert(prices.len() == prices.to_multiset().len());
    assert forall|i: int, j: int| 0 <= i <= j < prices.len() implies ascending(prices)[i]
        <= ascending(prices)[j] by {
        if i < j {
            assert(leq(ascending(prices)[i], ascending(prices)[j]));
        }
    }
}

/// There is one way to sort.
pub proof fn lemma_sorted(prices: Seq<i128>, sorted: Seq<i128>)
    requires
        sorted.to_multiset() == prices.to_multiset(),
        forall|i: int, j: int| 0 <= i <= j < sorted.len() ==> sorted[i] <= sorted[j],
    ensures
        sorted == ascending(prices),
{
    prices.lemma_sort_by_ensures(at_most());
    seq_lib::lemma_sorted_unique(sorted, ascending(prices), at_most());
}

/// Swapping two items keeps what a list holds.
proof fn lemma_swap(s: Seq<i128>, i: int, j: int)
    requires
        0 <= i < j < s.len(),
    ensures
        s.update(i, s[j]).update(j, s[i]).to_multiset() == s.to_multiset(),
{
    broadcast use seq_lib::group_to_multiset_ensures;
    broadcast use vstd::multiset::group_multiset_axioms;

    let m = s.to_multiset();
    assert(s.update(i, s[j]).to_multiset() == m.insert(s[j]).remove(s[i]));
    assert(s.update(i, s[j]).update(j, s[i]).to_multiset() == m.insert(s[j]).remove(s[i]).insert(
        s[i],
    ).remove(s[j]));
    assert(m.contains(s[i]) && m.contains(s[j]));
    assert(m.insert(s[j]).remove(s[i]).insert(s[i]).remove(s[j]) =~= m);
}

/// Sorts a list in place, from the lowest to the highest.
fn sort(list: &mut soroban_sdk::Vec<i128>)
    ensures
        host::items(*final(list)) == ascending(host::items(*old(list))),
{
    let ghost prices = host::items(*list);
    let n: u32 = host::length(list);
    let mut i: u32 = 1;
    while i < n
        invariant
            1 <= i,
            n == prices.len(),
            n >= 1 ==> i <= n,
            host::items(*list).len() == n,
            host::items(*list).to_multiset() == prices.to_multiset(),
            forall|a: int, b: int|
                0 <= a <= b < i && b < n ==> host::items(*list)[a] <= host::items(*list)[b],
        decreases n - i,
    {
        let mut j: u32 = i;
        let mut going: bool = true;
        while going && j > 0
            invariant
                j <= i < n,
                n == prices.len(),
                host::items(*list).len() == n,
                host::items(*list).to_multiset() == prices.to_multiset(),
                forall|a: int, b: int|
                    0 <= a <= b <= i && b != j ==> host::items(*list)[a] <= host::items(*list)[b],
                !going ==> forall|a: int|
                    0 <= a <= j ==> #[trigger] host::items(*list)[a] <= host::items(*list)[j as int],
            decreases
                    j + (if going {
                        1int
                    } else {
                        0
                    }),
        {
            let ghost before = host::items(*list);
            let low: i128 = match host::item(list, j - 1) {
                Some(x) => x,
                None => 0,
            };
            let high: i128 = match host::item(list, j) {
                Some(x) => x,
                None => 0,
            };
            if low > high {
                host::replace(list, j - 1, high);
                host::replace(list, j, low);
                proof {
                    lemma_swap(before, j - 1, j as int);
                }
                j = j - 1;
            } else {
                going = false;
            }
        }
        i = i + 1;
    }
    proof {
        lemma_sorted(prices, host::items(*list));
    }
}

/// The prices of observations as a list of the host.
fn collect(host: &soroban_sdk::Env, list: &Vec<PriceObservation>) -> (r: soroban_sdk::Vec<i128>)
    requires
        list@.len() <= u32::MAX,
    ensures
        host::items(r) == prices_of(list@),
{
    let mut r: soroban_sdk::Vec<i128> = host::empty_list(host);
    let mut i: usize = 0;
    while i < list.len()
        invariant
            i <= list@.len() <= u32::MAX,
            host::items(r) =~= prices_of(list@).take(i as int),
        decreases list@.len() - i,
    {
        host::push(&mut r, list[i].price);
        i = i + 1;
    }
    proof {
        assert(prices_of(list@).take(list@.len() as int) =~= prices_of(list@));
    }
    r
}

/// The one price that observations agree on.
pub(crate) fn agree(host: &soroban_sdk::Env, list: &Vec<PriceObservation>) -> (r: i128)
    requires
        0 < list@.len() <= u32::MAX,
    ensures
        r == agreed(prices_of(list@)),
{
    let mut sorted: soroban_sdk::Vec<i128> = collect(host, list);
    let ghost prices = prices_of(list@);
    sort(&mut sorted);
    proof {
        lemma_ascending(prices);
    }
    let n: u32 = host::length(&sorted);
    let start: u32 = n / 4;
    let kept: u32 = n - 2 * start;
    let half: u32 = start + kept / 2;
    let upper: i128 = match host::item(&sorted, half) {
        Some(x) => x,
        None => 0,
    };
    proof {
        assert(middle(prices).len() == kept);
        assert(middle(prices)[kept as int / 2] == upper);
    }
    if kept % 2 == 1 {
        return upper;
    }
    let lower: i128 = match host::item(&sorted, half - 1) {
        Some(x) => x,
        None => 0,
    };
    proof {
        assert(middle(prices)[kept as int / 2 - 1] == lower);
    }
    arith::midpoint(lower, upper)
}

// ── What holds of the price ───────────────────────────────────────

/// The price lies between the lowest and the highest price that was not
/// dropped. However far off the dropped ones are, they do not move it
/// further.
pub proof fn law_outliers_are_dropped(prices: Seq<i128>)
    requires
        prices.len() > 0,
    ensures
        ({
            let cut = trim(prices.len() as int);
            &&& ascending(prices)[cut] <= agreed(prices)
            &&& agreed(prices) <= ascending(prices)[prices.len() - 1 - cut]
        }),
{
    let n = prices.len() as int;
    let cut = trim(n);
    let sorted = ascending(prices);
    let m = middle(prices);
    let half = m.len() as int / 2;
    lemma_ascending(prices);
    assert(m.len() == n - 2 * cut);
    assert(m[half] == sorted[cut + half]);
    if m.len() % 2 == 0 {
        assert(m[half - 1] == sorted[cut + half - 1]);
    }
}

/// As many of the prices that were not dropped lie below the price as above
/// it: at most half of them each.
pub proof fn law_half_on_either_side(prices: Seq<i128>, i: int)
    requires
        0 <= i < middle(prices).len(),
        prices.len() > 0,
    ensures
        2 * i < middle(prices).len() ==> middle(prices)[i] <= agreed(prices),
        2 * (i + 1) > middle(prices).len() ==> middle(prices)[i] >= agreed(prices),
{
    let cut = trim(prices.len() as int);
    let m = middle(prices);
    let half = m.len() as int / 2;
    lemma_ascending(prices);
    assert(m[i] == ascending(prices)[cut + i]);
    assert(m[half] == ascending(prices)[cut + half]);
    if m.len() % 2 == 0 {
        assert(m[half - 1] == ascending(prices)[cut + half - 1]);
    }
}

/// Bounds on prices are bounds on them when they are sorted.
proof fn lemma_bounds_kept(prices: Seq<i128>, lo: int, hi: int)
    requires
        forall|i: int| 0 <= i < prices.len() ==> lo <= #[trigger] prices[i] <= hi,
    ensures
        forall|i: int| 0 <= i < prices.len() ==> lo <= #[trigger] ascending(prices)[i] <= hi,
{
    broadcast use seq_lib::group_to_multiset_ensures;

    let sorted = ascending(prices);
    lemma_ascending(prices);
    assert forall|i: int| 0 <= i < prices.len() implies lo <= #[trigger] sorted[i] <= hi by {
        assert(sorted.contains(sorted[i]));
        assert(sorted.to_multiset().count(sorted[i]) > 0);
        assert(prices.to_multiset().count(sorted[i]) > 0);
        assert(prices.contains(sorted[i]));
    }
}

/// The price lies within any bounds on the observations.
pub proof fn law_price_within_bounds(prices: Seq<i128>, lo: int, hi: int)
    requires
        prices.len() > 0,
        forall|i: int| 0 <= i < prices.len() ==> lo <= #[trigger] prices[i] <= hi,
    ensures
        lo <= agreed(prices) <= hi,
{
    law_outliers_are_dropped(prices);
    lemma_bounds_kept(prices, lo, hi);
}

/// The order in which the observations came does not matter.
pub proof fn law_order_does_not_matter(a: Seq<i128>, b: Seq<i128>)
    requires
        a.to_multiset() == b.to_multiset(),
    ensures
        agreed(a) == agreed(b),
{
    broadcast use seq_lib::group_to_multiset_ensures;

    lemma_ascending(b);
    lemma_sorted(a, ascending(b));
    assert(a.len() == a.to_multiset().len() && b.len() == b.to_multiset().len());
}

} // verus!
