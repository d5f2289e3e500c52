//! Putting things in order by their places: each goes before the first that it
//! precedes, so that equals keep their order.

use vstd::prelude::*;

verus! {

/// Where the thing at `item` belongs among `rows`: before the first that it
/// precedes.
pub open spec fn place_by(precedes: spec_fn(int, int) -> bool, rows: Seq<int>, item: int) -> int
    decreases rows.len(),
{
    if rows.len() == 0 || precedes(item, rows[0]) {
        0
    } else {
        1 + place_by(precedes, rows.skip(1), item)
    }
}

/// The places of those of the first `n` things that are kept, in order.
pub open spec fn sorted_by(
    kept: spec_fn(int) -> bool,
    precedes: spec_fn(int, int) -> bool,
    n: int,
) -> Seq<int>
    decreases n,
{
    if n <= 0 {
        Seq::empty()
    } else {
        let front = sorted_by(kept, precedes, n - 1);
        if kept(n - 1) {
            front.insert(place_by(precedes, front, n - 1), n - 1)
        } else {
            front
        }
    }
}

/// Whether an order can be sorted by: of two things at most one precedes the
/// other, and a third comes behind the first of them or before the second.
pub open spec fn orders(precedes: spec_fn(int, int) -> bool) -> bool {
    &&& forall|a: int, b: int| #[trigger] precedes(a, b) ==> !precedes(b, a)
    &&& forall|a: int, b: int, c: int| #[trigger]
        precedes(a, b) ==> #[trigger] precedes(a, c) || precedes(c, b)
}

/// Whether `places` hold each kept one of the first `n` things once, and none
/// of them precedes one before it.
pub open spec fn in_order(
    kept: spec_fn(int) -> bool,
    precedes: spec_fn(int, int) -> bool,
    n: int,
    places: Seq<int>,
) -> bool {
    &&& forall|i: int, j: int|
        0 <= i < j < places.len() ==> !precedes(#[trigger] places[j], #[trigger] places[i])
    &&& forall|i: int| 0 <= i < places.len() ==> 0 <= #[trigger] places[i] < n && kept(places[i])
    &&& forall|k: int| 0 <= k < n && kept(k) ==> #[trigger] places.contains(k)
    &&& places.no_duplicates()
}

pub proof fn lemma_place_by(precedes: spec_fn(int, int) -> bool, rows: Seq<int>, item: int)
    ensures
        0 <= place_by(precedes, rows, item) <= rows.len(),
        forall|j: int|
            0 <= j < place_by(precedes, rows, item) ==> !precedes(item, #[trigger] rows[j]),
        place_by(precedes, rows, item) < rows.len() ==> precedes(
            item,
            rows[place_by(precedes, rows, item)],
        ),
    decreases rows.len(),
{
    if rows.len() > 0 && !precedes(item, rows[0]) {
        let rest = rows.skip(1);
        lemma_place_by(precedes, rest, item);
        assert forall|j: int| 0 <= j < place_by(precedes, rows, item) implies !precedes(
            item,
            #[trigger] rows[j],
        ) by {
            if j > 0 {
                assert(rest[j - 1] == rows[j]);
            }
        }
    }
}

/// Sorting keeps each thing once and puts them in order.
pub proof fn law_sorting_orders(
    kept: spec_fn(int) -> bool,
    precedes: spec_fn(int, int) -> bool,
    n: int,
)
    requires
        orders(precedes),
    ensures
        in_order(kept, precedes, n, sorted_by(kept, precedes, n)),
    decreases n,
{
    if n > 0 {
        law_sorting_orders(kept, precedes, n - 1);
        let front = sorted_by(kept, precedes, n - 1);
        if kept(n - 1) {
            let at = place_by(precedes, front, n - 1);
            lemma_place_by(precedes, front, n - 1);
            let places = front.insert(at, n - 1);
            assert forall|i: int, j: int| 0 <= i < j < places.len() implies !precedes(
                #[trigger] places[j],
                #[trigger] places[i],
            ) by {
                if j < at {
                    assert(places[i] == front[i] && places[j] == front[j]);
                } else if j == at {
                    assert(places[i] == front[i]);
                } else if i < at {
                    assert(places[i] == front[i] && places[j] == front[j - 1]);
                } else if i == at {
                    assert(places[j] == front[j - 1]);
                    assert(precedes(n - 1, front[at]));
                    if at < j - 1 {
                        assert(!precedes(front[j - 1], front[at]));
                        assert(precedes(n - 1, front[j - 1]) || precedes(front[j - 1], front[at]));
                    }
                } else {
                    assert(places[i] == front[i - 1] && places[j] == front[j - 1]);
                }
            }
            assert forall|i: int| 0 <= i < places.len() implies 0 <= #[trigger] places[i] < n
                && kept(places[i]) by {
                if i < at {
                    assert(places[i] == front[i]);
                } else if i > at {
                    assert(places[i] == front[i - 1]);
                }
            }
            assert forall|k: int| 0 <= k < n && kept(k) implies #[trigger] places.contains(k) by {
                if k == n - 1 {
                    assert(places[at] == k);
                } else {
                    assert(front.contains(k));
                    let f = choose|f: int| 0 <= f < front.len() && front[f] == k;
                    assert(places[if f < at {
                        f
                    } else {
                        f + 1
                    }] == k);
                }
            }
            assert forall|i: int, j: int|
                0 <= i < places.len() && 0 <= j < places.len() && i != j implies places[i]
                != places[j] by {
                let a = if i < at {
                    i
                } else {
                    i - 1
                };
                let b = if j < at {
                    j
                } else {
                    j - 1
                };
                if i != at {
                    assert(places[i] == front[a]);
                }
                if j != at {
                    assert(places[j] == front[b]);
                }
            }
        }
    }
}

/// Sorting is stable: of two things of which neither precedes the other, the
/// one that came first stays first.
pub proof fn law_sorting_keeps_ties_in_place(
    kept: spec_fn(int) -> bool,
    precedes: spec_fn(int, int) -> bool,
    n: int,
    i: int,
    j: int,
)
    requires
        orders(precedes),
        0 <= i < j < sorted_by(kept, precedes, n).len(),
        !precedes(sorted_by(kept, precedes, n)[i], sorted_by(kept, precedes, n)[j]),
    ensures
        sorted_by(kept, precedes, n)[i] < sorted_by(kept, precedes, n)[j],
    decreases n,
{
    if n > 0 {
        let front = sorted_by(kept, precedes, n - 1);
        law_sorting_orders(kept, precedes, n - 1);
        if kept(n - 1) {
            let at = place_by(precedes, front, n - 1);
            lemma_place_by(precedes, front, n - 1);
            let places = front.insert(at, n - 1);
            if j == at {
                assert(places[i] == front[i]);
            } else if i == at {
                assert(places[j] == front[j - 1]);
                if at < j - 1 {
                    assert(precedes(n - 1, front[at]));
                    assert(!precedes(front[j - 1], front[at]));
                    assert(precedes(n - 1, front[j - 1]) || precedes(front[j - 1], front[at]));
                }
            } else {
                let a = if i < at {
                    i
                } else {
                    i - 1
                };
                let b = if j < at {
                    j
                } else {
                    j - 1
                };
                assert(places[i] == front[a] && places[j] == front[b]);
                law_sorting_keeps_ties_in_place(kept, precedes, n - 1, a, b);
            }
        } else {
            law_sorting_keeps_ties_in_place(kept, precedes, n - 1, i, j);
        }
    }
}

/// A filtered list holds what the list holds and the filter lets through.
pub proof fn lemma_filter_members<A>(all: Seq<A>, lets: spec_fn(A) -> bool, item: A)
    ensures
        all.filter(lets).contains(item) == (all.contains(item) && lets(item)),
    decreases all.len(),
{
    reveal(Seq::filter);
    if all.len() > 0 {
        let front = all.drop_last();
        let last = all.last();
        lemma_filter_members(front, lets, item);
        let kept = front.filter(lets);
        let whole = all.filter(lets);
        if all.contains(item) && item != last {
            assert(front[all.index_of(item)] == item);
        }
        if front.contains(item) {
            assert(all[front.index_of(item)] == item);
        }
        if item == last {
            assert(all[all.len() - 1] == item);
        }
        if lets(last) {
            assert(whole == kept.push(last));
            assert(whole[kept.len() as int] == last);
            if whole.contains(item) && item != last {
                assert(kept[whole.index_of(item)] == item);
            }
            if kept.contains(item) {
                assert(whole[kept.index_of(item)] == item);
            }
        }
    }
}

/// Places in contracts.
pub open spec fn as_ints(places: Seq<usize>) -> Seq<int> {
    places.map_values(|place: usize| place as int)
}

} // verus!
