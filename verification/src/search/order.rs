//! Stable sorting.

use vstd::prelude::*;

verus! {

/// Items that can be put in order.
pub trait Ranked: View + Sized {
    /// Whether an item goes before another.
    spec fn before(a: Self::V, b: Self::V) -> bool;

    /// No item goes before itself, and what goes before another item goes before or behind any
    /// third one.
    proof fn lemma_before(a: Self::V, b: Self::V, c: Self::V)
        ensures
            !Self::before(a, a),
            Self::before(a, b) && Self::before(b, c) ==> Self::before(a, c),
            Self::before(a, c) ==> Self::before(a, b) || Self::before(b, c),
    ;

    /// Whether the item goes before the other.
    fn precedes(&self, other: &Self) -> (r: bool)
        ensures
            r == Self::before(self@, other@),
    ;
}

/// The items by their views.
pub open spec fn views<T: View>(v: Seq<T>) -> Seq<T::V> {
    Seq::new(v.len(), |i: int| v[i]@)
}

/// Whether the item at a position comes out before another one: it goes before it, or neither
/// goes before the other and it stands first.
pub open spec fn comes_first<T: Ranked>(s: Seq<T::V>, i: int, j: int) -> bool {
    T::before(s[i], s[j]) || (!T::before(s[j], s[i]) && i < j)
}

/// How many items come out before the one at a position.
pub open spec fn rank<T: Ranked>(s: Seq<T::V>, i: int) -> nat {
    Set::new(|j: int| 0 <= j < s.len() && comes_first::<T>(s, j, i)).len()
}

/// The items in order: at each position the item that so many others come out before.
pub open spec fn sorted<T: Ranked>(s: Seq<T::V>) -> Seq<T::V> {
    Seq::new(
        s.len(),
        |k: int| s[choose|i: int| 0 <= i < s.len() && #[trigger] rank::<T>(s, i) == k],
    )
}

/// Whether the positions of a range, each once, are so ordered that their items come out one
/// behind another.
spec fn ordered<T: Ranked>(s: Seq<T::V>, p: Seq<usize>, lo: int, hi: int) -> bool {
    &&& forall|k: int| 0 <= k < p.len() ==> lo <= #[trigger] p[k] < hi
    &&& forall|i: int| lo <= i < hi ==> #[trigger] holds(p, i)
    &&& ascending::<T>(s, p)
}

/// Whether a position is among those listed.
spec fn holds(p: Seq<usize>, i: int) -> bool {
    exists|k: int| 0 <= k < p.len() && #[trigger] p[k] == i
}

spec fn ascending<T: Ranked>(s: Seq<T::V>, p: Seq<usize>) -> bool {
    forall|k: int, l: int|
        0 <= k < l < p.len() ==> comes_first::<T>(s, #[trigger] p[k] as int, #[trigger] p[l] as int)
}

proof fn lemma_comes_first<T: Ranked>(s: Seq<T::V>, i: int, j: int, k: int)
    ensures
        !comes_first::<T>(s, i, i),
        i != j ==> comes_first::<T>(s, i, j) || comes_first::<T>(s, j, i),
        comes_first::<T>(s, i, j) && comes_first::<T>(s, j, k) ==> comes_first::<T>(s, i, k),
{
    T::lemma_before(s[i], s[j], s[k]);
    T::lemma_before(s[j], s[k], s[i]);
    T::lemma_before(s[k], s[i], s[j]);
    T::lemma_before(s[i], s[k], s[j]);
    T::lemma_before(s[k], s[j], s[i]);
    T::lemma_before(s[j], s[i], s[k]);
}

/// Merge two ordered runs that stand one behind the other.
fn merge<T: Ranked>(v: &Vec<T>, a: Vec<usize>, b: Vec<usize>, lo: Ghost<int>, mid: Ghost<int>, hi: Ghost<int>) -> (r:
    Vec<usize>)
    requires
        0 <= lo@ <= mid@ <= hi@ <= v@.len(),
        ordered::<T>(views(v@), a@, lo@, mid@),
        ordered::<T>(views(v@), b@, mid@, hi@),
    ensures
        ordered::<T>(views(v@), r@, lo@, hi@),
{
    let ghost s = views(v@);
    let mut r: Vec<usize> = Vec::new();
    let mut i: usize = 0;
    let mut j: usize = 0;
    while i < a.len() || j < b.len()
        invariant
            s == views(v@),
            0 <= lo@ <= mid@ <= hi@ <= v@.len(),
            ordered::<T>(s, a@, lo@, mid@),
            ordered::<T>(s, b@, mid@, hi@),
            i <= a@.len(),
            j <= b@.len(),
            ascending::<T>(s, r@),
            forall|k: int| 0 <= k < r@.len() ==> lo@ <= #[trigger] r@[k] < hi@,
            forall|x: int| 0 <= x < i ==> holds(r@, #[trigger] a@[x] as int),
            forall|y: int| 0 <= y < j ==> holds(r@, #[trigger] b@[y] as int),
            forall|k: int, x: int|
                0 <= k < r@.len() && i <= x < a@.len() ==> comes_first::<T>(
                    s,
                    #[trigger] r@[k] as int,
                    #[trigger] a@[x] as int,
                ),
            forall|k: int, y: int|
                0 <= k < r@.len() && j <= y < b@.len() ==> comes_first::<T>(
                    s,
                    #[trigger] r@[k] as int,
                    #[trigger] b@[y] as int,
                ),
        decreases a@.len() - i + b@.len() - j,
    {
        let ghost before = r@;
        let take_second = if i >= a.len() {
            true
        } else if j >= b.len() {
            false
        } else {
            assert(a@[i as int] < mid@ <= b@[j as int]);
            v[b[j]].precedes(&v[a[i]])
        };
        if take_second {
            let ghost p = b@[j as int];
            proof {
                if i < a@.len() {
                    assert forall|x: int| i <= x < a@.len() implies comes_first::<T>(
                        s,
                        p as int,
                        #[trigger] a@[x] as int,
                    ) by {
                        lemma_comes_first::<T>(s, p as int, a@[i as int] as int, a@[x] as int);
                    }
                }
            }
            r.push(b[j]);
            proof {
                lemma_pushed::<T>(s, before, p, r@);
                assert forall|y: int| 0 <= y < j + 1 implies holds(
                    r@,
                    #[trigger] b@[y] as int,
                ) by {
                    lemma_holds(before, p, b@[y] as int);
                }
                assert forall|x: int| 0 <= x < i implies holds(
                    r@,
                    #[trigger] a@[x] as int,
                ) by {
                    lemma_holds(before, p, a@[x] as int);
                }
            }
            j = j + 1;
        } else {
            let ghost p = a@[i as int];
            proof {
                if j < b@.len() {
                    T::lemma_before(s[p as int], s[p as int], s[p as int]);
                    assert forall|y: int| j <= y < b@.len() implies comes_first::<T>(
                        s,
                        p as int,
                        #[trigger] b@[y] as int,
                    ) by {
                        lemma_comes_first::<T>(s, p as int, b@[j as int] as int, b@[y] as int);
                    }
                }
            }
            r.push(a[i]);
            proof {
                lemma_pushed::<T>(s, before, p, r@);
                assert forall|x: int| 0 <= x < i + 1 implies holds(
                    r@,
                    #[trigger] a@[x] as int,
                ) by {
                    lemma_holds(before, p, a@[x] as int);
                }
                assert forall|y: int| 0 <= y < j implies holds(
                    r@,
                    #[trigger] b@[y] as int,
                ) by {
                    lemma_holds(before, p, b@[y] as int);
                }
            }
            i = i + 1;
        }
    }
    proof {
        assert forall|q: int| lo@ <= q < hi@ implies #[trigger] holds(r@, q) by {
            if q < mid@ {
                assert(holds(a@, q));
            } else {
                assert(holds(b@, q));
            }
        }
    }
    r
}

proof fn lemma_holds(before: Seq<usize>, p: usize, i: int)
    requires
        holds(before, i) || p == i,
    ensures
        holds(before.push(p), i),
{
    let after = before.push(p);
    if p == i {
        assert(after[before.len() as int] == i);
    } else {
        let k = choose|k: int| 0 <= k < before.len() && #[trigger] before[k] == i;
        assert(after[k] == i);
    }
}

proof fn lemma_pushed<T: Ranked>(s: Seq<T::V>, before: Seq<usize>, p: usize, after: Seq<usize>)
    requires
        ascending::<T>(s, before),
        after == before.push(p),
        forall|k: int| 0 <= k < before.len() ==> comes_first::<T>(s, #[trigger] before[k] as int, p as int),
    ensures
        ascending::<T>(s, after),
{
    assert forall|k: int, l: int| 0 <= k < l < after.len() implies comes_first::<T>(
        s,
        #[trigger] after[k] as int,
        #[trigger] after[l] as int,
    ) by {
        assert(after[k] == before[k]);
        if l < before.len() {
            assert(after[l] == before[l]);
        }
    }
}

fn order_range<T: Ranked>(v: &Vec<T>, lo: usize, hi: usize) -> (r: Vec<usize>)
    requires
        lo <= hi <= v@.len(),
    ensures
        ordered::<T>(views(v@), r@, lo as int, hi as int),
    decreases hi - lo,
{
    let mut r: Vec<usize> = Vec::new();
    if hi - lo == 0 {
        return r;
    }
    if hi - lo == 1 {
        r.push(lo);
        assert(r@[0] == lo);
        assert(holds(r@, lo as int));
        return r;
    }
    let mid: usize = lo + (hi - lo) / 2;
    let a = order_range(v, lo, mid);
    let b = order_range(v, mid, hi);
    merge(v, a, b, Ghost(lo as int), Ghost(mid as int), Ghost(hi as int))
}

proof fn lemma_rank<T: Ranked>(s: Seq<T::V>, p: Seq<usize>, k: int)
    requires
        ordered::<T>(s, p, 0, s.len() as int),
        0 <= k < p.len(),
    ensures
        rank::<T>(s, p[k] as int) == k,
{
    let first = Set::new(|j: int| 0 <= j < s.len() && comes_first::<T>(s, j, p[k] as int));
    let q = Seq::new(k as nat, |i: int| p[i] as int);
    assert(q.no_duplicates()) by {
        assert forall|i: int, j: int| 0 <= i < q.len() && 0 <= j < q.len() && i != j implies q[i]
            != q[j] by {
            lemma_comes_first::<T>(s, q[i], q[j], q[i]);
            if i < j {
                assert(comes_first::<T>(s, p[i] as int, p[j] as int));
            } else {
                assert(comes_first::<T>(s, p[j] as int, p[i] as int));
            }
        }
    }
    q.unique_seq_to_set();
    assert(q.to_set() =~= first) by {
        assert forall|j: int| q.to_set().contains(j) <==> first.contains(j) by {
            if q.to_set().contains(j) {
                let i = choose|i: int| 0 <= i < q.len() && q[i] == j;
                assert(comes_first::<T>(s, p[i] as int, p[k] as int));
            }
            if first.contains(j) {
                assert(holds(p, j));
                let i = choose|i: int| 0 <= i < p.len() && #[trigger] p[i] == j;
                lemma_comes_first::<T>(s, j, p[k] as int, j);
                if i > k {
                    assert(comes_first::<T>(s, p[k] as int, p[i] as int));
                }
                assert(q[i] == j);
            }
        }
    }
}

proof fn lemma_full<T: Ranked>(s: Seq<T::V>, p: Seq<usize>)
    requires
        ordered::<T>(s, p, 0, s.len() as int),
    ensures
        p.len() == s.len(),
{
    let q = Seq::new(p.len(), |i: int| p[i] as int);
    assert(q.no_duplicates()) by {
        assert forall|i: int, j: int| 0 <= i < q.len() && 0 <= j < q.len() && i != j implies q[i]
            != q[j] by {
            lemma_comes_first::<T>(s, q[i], q[j], q[i]);
            if i < j {
                assert(comes_first::<T>(s, p[i] as int, p[j] as int));
            } else {
                assert(comes_first::<T>(s, p[j] as int, p[i] as int));
            }
        }
    }
    q.unique_seq_to_set();
    let all = vstd::set_lib::set_int_range(0, s.len() as int);
    vstd::set_lib::lemma_int_range(0, s.len() as int);
    assert(q.to_set() =~= all) by {
        assert forall|j: int| q.to_set().contains(j) <==> all.contains(j) by {
            if all.contains(j) {
                assert(holds(p, j));
                let i = choose|i: int| 0 <= i < p.len() && #[trigger] p[i] == j;
                assert(q[i] == j);
            }
        }
    }
}

/// The positions of the items in the order in which the items come out.
pub fn order<T: Ranked>(v: &Vec<T>) -> (r: Vec<usize>)
    ensures
        r@.len() == v@.len(),
        forall|k: int|
            0 <= k < r@.len() ==> #[trigger] r@[k] < v@.len() && rank::<T>(
                views(v@),
                r@[k] as int,
            ) == k,
        sorted::<T>(views(v@)) == Seq::new(r@.len(), |k: int| views(v@)[r@[k] as int]),
{
    let r = order_range(v, 0, v.len());
    proof {
        let s = views(v@);
        lemma_full::<T>(s, r@);
        assert forall|k: int| 0 <= k < r@.len() implies #[trigger] r@[k] < v@.len() && rank::<T>(
            s,
            r@[k] as int,
        ) == k by {
            lemma_rank::<T>(s, r@, k);
        }
        let out = Seq::new(r@.len(), |k: int| s[r@[k] as int]);
        assert forall|k: int| 0 <= k < s.len() implies sorted::<T>(s)[k] == out[k] by {
            assert(rank::<T>(s, r@[k] as int) == k);
            let i = choose|i: int| 0 <= i < s.len() && #[trigger] rank::<T>(s, i) == k;
            assert(holds(r@, i));
            let l = choose|l: int| 0 <= l < r@.len() && #[trigger] r@[l] == i;
            assert(rank::<T>(s, r@[l] as int) == l);
        }
        assert(sorted::<T>(s) =~= out);
    }
    r
}

/// Sorting keeps the items: each comes out at its rank, and no two at the same place.
pub proof fn law_sorted_keeps<T: Ranked>(s: Seq<T::V>, i: int, j: int)
    requires
        0 <= i < s.len(),
        0 <= j < s.len(),
        i != j,
    ensures
        rank::<T>(s, i) < s.len(),
        rank::<T>(s, i) != rank::<T>(s, j),
        sorted::<T>(s)[rank::<T>(s, i) as int] == s[i],
{
    lemma_rank_less::<T>(s, i, j);
    lemma_rank_less::<T>(s, j, i);
    lemma_comes_first::<T>(s, i, j, i);
    lemma_rank_bound::<T>(s, i);
    let k = rank::<T>(s, i) as int;
    let c = choose|c: int| 0 <= c < s.len() && #[trigger] rank::<T>(s, c) == k;
    lemma_comes_first::<T>(s, i, c, i);
    lemma_rank_less::<T>(s, i, c);
    lemma_rank_less::<T>(s, c, i);
}

/// Every position is the rank of an item.
proof fn lemma_rank_onto<T: Ranked>(s: Seq<T::V>, k: int)
    requires
        0 <= k < s.len(),
    ensures
        exists|i: int| 0 <= i < s.len() && #[trigger] rank::<T>(s, i) == k,
{
    let all = vstd::set_lib::set_int_range(0, s.len() as int);
    vstd::set_lib::lemma_int_range(0, s.len() as int);
    let f = |i: int| rank::<T>(s, i) as int;
    assert forall|i: int, j: int|
        all.contains(i) && all.contains(j) && #[trigger] f(i) == #[trigger] f(j) implies i == j by {
        lemma_comes_first::<T>(s, i, j, i);
        lemma_rank_less::<T>(s, i, j);
        lemma_rank_less::<T>(s, j, i);
    }
    let ranks = all.map(f);
    vstd::set_lib::lemma_map_size(all, ranks, f);
    assert forall|r: int| ranks.contains(r) implies all.contains(r) by {
        let i = choose|i: int| all.contains(i) && f(i) == r;
        lemma_rank_bound::<T>(s, i);
    }
    vstd::set_lib::lemma_subset_equality(ranks, all);
    assert(ranks.contains(k));
    let i = choose|i: int| all.contains(i) && f(i) == k;
    assert(rank::<T>(s, i) == k);
}

/// Every sorted item is one of those that were to be sorted.
pub proof fn law_sorted_from<T: Ranked>(s: Seq<T::V>, k: int) -> (i: int)
    requires
        0 <= k < s.len(),
    ensures
        0 <= i < s.len(),
        rank::<T>(s, i) == k,
        sorted::<T>(s)[k] == s[i],
{
    lemma_rank_onto::<T>(s, k);
    choose|i: int| 0 <= i < s.len() && #[trigger] rank::<T>(s, i) == k
}

/// Two sequences hold the same items if the places of one are led, no two to the same, to the
/// places of the other, and the items at them are the same.
pub proof fn lemma_same_items<A>(s: Seq<A>, t: Seq<A>, place: spec_fn(int) -> int)
    requires
        s.len() == t.len(),
        forall|i: int|
            0 <= i < s.len() ==> 0 <= #[trigger] place(i) < t.len() && t[place(i)] == s[i],
        forall|i: int, j: int|
            0 <= i < j < s.len() ==> #[trigger] place(i) != #[trigger] place(j),
    ensures
        s.to_multiset() == t.to_multiset(),
    decreases s.len(),
{
    if s.len() == 0 {
        assert(s =~= t);
    } else {
        let last = s.len() - 1;
        let k = place(last);
        let s2 = s.drop_last();
        let t2 = t.remove(k);
        let place2 = |i: int|
            if place(i) < k {
                place(i)
            } else {
                place(i) - 1
            };
        assert forall|i: int| 0 <= i < s2.len() implies 0 <= #[trigger] place2(i) < t2.len()
            && t2[place2(i)] == s2[i] by {
            assert(place(i) != place(last));
        }
        assert forall|i: int, j: int| 0 <= i < j < s2.len() implies #[trigger] place2(i)
            != #[trigger] place2(j) by {
            assert(place(i) != place(j));
            assert(place(i) != place(last));
            assert(place(j) != place(last));
        }
        lemma_same_items(s2, t2, place2);
        vstd::seq_lib::to_multiset_build(s2, s[last]);
        assert(s2.push(s[last]) =~= s);
        vstd::seq_lib::to_multiset_insert(t2, k, t[k]);
        assert(t2.insert(k, t[k]) =~= t);
    }
}

/// Sorting gives the items that were to be sorted, each as often.
pub proof fn law_sorted_same_items<T: Ranked>(s: Seq<T::V>)
    ensures
        sorted::<T>(s).to_multiset() == s.to_multiset(),
{
    let place = |i: int| rank::<T>(s, i) as int;
    lemma_rank_places::<T>(s);
    lemma_same_items(s, sorted::<T>(s), place);
}

/// The ranks lead the places of the items, no two to the same, to those of the sorted items.
pub proof fn lemma_rank_places<T: Ranked>(s: Seq<T::V>)
    ensures
        forall|i: int|
            0 <= i < s.len() ==> #[trigger] rank::<T>(s, i) < s.len() && sorted::<T>(s)[rank::<T>(
                s,
                i,
            ) as int] == s[i],
        forall|i: int, j: int|
            0 <= i < j < s.len() ==> #[trigger] rank::<T>(s, i) != #[trigger] rank::<T>(s, j),
{
    assert forall|i: int| 0 <= i < s.len() implies #[trigger] rank::<T>(s, i) < s.len()
        && sorted::<T>(s)[rank::<T>(s, i) as int] == s[i] by {
        if s.len() > 1 {
            let other = if i == 0 {
                1int
            } else {
                0int
            };
            law_sorted_keeps::<T>(s, i, other);
        } else {
            lemma_rank_bound::<T>(s, i);
        }
    }
    assert forall|i: int, j: int| 0 <= i < j < s.len() implies #[trigger] rank::<T>(s, i)
        != #[trigger] rank::<T>(s, j) by {
        law_sorted_keeps::<T>(s, i, j);
    }
}

/// Sorted items stand in order: none goes before one that stands in front of it.
pub proof fn law_sorted_in_order<T: Ranked>(s: Seq<T::V>, k: int, l: int)
    requires
        0 <= k < l < s.len(),
    ensures
        !T::before(sorted::<T>(s)[l], sorted::<T>(s)[k]),
{
    lemma_rank_onto::<T>(s, k);
    lemma_rank_onto::<T>(s, l);
    let i = choose|i: int| 0 <= i < s.len() && #[trigger] rank::<T>(s, i) == k;
    let j = choose|i: int| 0 <= i < s.len() && #[trigger] rank::<T>(s, i) == l;
    lemma_rank_less::<T>(s, j, i);
}

/// Sorting is stable: of two items of which neither goes before the other, the one that stood
/// first comes out first.
pub proof fn law_sorted_stable<T: Ranked>(s: Seq<T::V>, i: int, j: int)
    requires
        0 <= i < j < s.len(),
        !T::before(s[i], s[j]),
        !T::before(s[j], s[i]),
    ensures
        rank::<T>(s, i) < rank::<T>(s, j),
{
    lemma_rank_less::<T>(s, i, j);
}

proof fn lemma_rank_finite<T: Ranked>(s: Seq<T::V>, i: int)
    ensures
        Set::new(|j: int| 0 <= j < s.len() && comes_first::<T>(s, j, i)).finite(),
{
    let all = vstd::set_lib::set_int_range(0, s.len() as int);
    vstd::set_lib::lemma_int_range(0, s.len() as int);
    let first = Set::new(|j: int| 0 <= j < s.len() && comes_first::<T>(s, j, i));
    assert(first.subset_of(all));
    vstd::set_lib::lemma_len_subset(first, all);
}

proof fn lemma_rank_bound<T: Ranked>(s: Seq<T::V>, i: int)
    requires
        0 <= i < s.len(),
    ensures
        rank::<T>(s, i) < s.len(),
{
    let all = vstd::set_lib::set_int_range(0, s.len() as int);
    vstd::set_lib::lemma_int_range(0, s.len() as int);
    let first = Set::new(|j: int| 0 <= j < s.len() && comes_first::<T>(s, j, i));
    lemma_comes_first::<T>(s, i, i, i);
    assert(first.subset_of(all.remove(i)));
    vstd::set_lib::lemma_len_subset(first, all.remove(i));
}

proof fn lemma_rank_less<T: Ranked>(s: Seq<T::V>, i: int, j: int)
    requires
        0 <= i < s.len(),
        0 <= j < s.len(),
    ensures
        comes_first::<T>(s, i, j) ==> rank::<T>(s, i) < rank::<T>(s, j),
{
    if comes_first::<T>(s, i, j) {
        let a = Set::new(|k: int| 0 <= k < s.len() && comes_first::<T>(s, k, i));
        let b = Set::new(|k: int| 0 <= k < s.len() && comes_first::<T>(s, k, j));
        lemma_rank_finite::<T>(s, i);
        lemma_rank_finite::<T>(s, j);
        lemma_comes_first::<T>(s, i, i, i);
        assert(b.contains(i));
        assert(!a.contains(i));
        assert forall|k: int| a.contains(k) implies #[trigger] b.remove(i).contains(k) by {
            lemma_comes_first::<T>(s, k, i, j);
        }
        assert(a.subset_of(b.remove(i)));
        vstd::set_lib::lemma_len_subset(a, b.remove(i));
    }
}

} // verus!
