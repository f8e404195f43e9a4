//! A stable sort: what it yields, and a merge sort that yields it.

use crate::views::queue_of;
use std::collections::VecDeque;
use vstd::prelude::*;

verus! {

/// A type whose values have a rank. Values of one rank may still differ.
pub trait Ranked: Sized {
    /// This value ranks no higher than `other`.
    spec fn at_most(self, other: Self) -> bool;

    /// Of two values one ranks no higher than the other.
    proof fn rank_is_total(a: Self, b: Self)
        ensures
            a.at_most(b) || b.at_most(a),
    ;

    /// Ranking no higher carries over.
    proof fn rank_is_transitive(a: Self, b: Self, c: Self)
        requires
            a.at_most(b),
            b.at_most(c),
        ensures
            a.at_most(c),
    ;

    /// Whether this value ranks no higher than `other`.
    fn ranks_at_most(&self, other: &Self) -> (r: bool)
        ensures
            r == self.at_most(*other),
    ;
}

/// The order of a ranked type, as a function.
pub open spec fn rank_order<T: Ranked>() -> spec_fn(T, T) -> bool {
    |a: T, b: T| a.at_most(b)
}

/// Any two values can be held against each other, and the order carries over.
pub open spec fn is_ranking<T>(leq: spec_fn(T, T) -> bool) -> bool {
    &&& forall|a: T, b: T| #![trigger leq(a, b)] leq(a, b) || leq(b, a)
    &&& forall|a: T, b: T, c: T|
        #![trigger leq(a, b), leq(b, c)]
        leq(a, b) && leq(b, c) ==> leq(a, c)
}

/// `list` with `x` put in front of the first value that ranks higher than it.
pub open spec fn placed<T>(list: Seq<T>, x: T, leq: spec_fn(T, T) -> bool) -> Seq<T>
    decreases list.len(),
{
    if list.len() > 0 && leq(list[0], x) {
        seq![list[0]] + placed(list.drop_first(), x, leq)
    } else {
        seq![x] + list
    }
}

/// The values of `list` by rank, those of one rank in the order of `list`.
pub open spec fn stable_sort<T>(list: Seq<T>, leq: spec_fn(T, T) -> bool) -> Seq<T>
    decreases list.len(),
{
    if list.len() == 0 {
        list
    } else {
        placed(stable_sort(list.drop_last(), leq), list.last(), leq)
    }
}

/// No value of `list` ranks higher than one behind it.
pub open spec fn is_sorted<T>(list: Seq<T>, leq: spec_fn(T, T) -> bool) -> bool {
    forall|i: int, j: int| 0 <= i < j < list.len() ==> leq(#[trigger] list[i], #[trigger] list[j])
}

/// Two sorted lists in one, values of `a` in front of values of `b` of the
/// same rank.
pub open spec fn merged<T>(a: Seq<T>, b: Seq<T>, leq: spec_fn(T, T) -> bool) -> Seq<T>
    decreases a.len() + b.len(),
{
    if a.len() == 0 {
        b
    } else if b.len() == 0 {
        a
    } else if leq(a[0], b[0]) {
        seq![a[0]] + merged(a.drop_first(), b, leq)
    } else {
        seq![b[0]] + merged(a, b.drop_first(), leq)
    }
}

/// The order of a ranked type is a ranking.
pub proof fn lemma_rank_order<T: Ranked>()
    ensures
        is_ranking(rank_order::<T>()),
{
    let leq = rank_order::<T>();
    assert forall|a: T, b: T| #![trigger leq(a, b)] leq(a, b) || leq(b, a) by {
        T::rank_is_total(a, b);
    }
    assert forall|a: T, b: T, c: T|
        #![trigger leq(a, b), leq(b, c)]
        leq(a, b) && leq(b, c) implies leq(a, c) by {
        T::rank_is_transitive(a, b, c);
    }
}

proof fn lemma_merged_placed<T>(a: Seq<T>, b: Seq<T>, x: T, leq: spec_fn(T, T) -> bool)
    requires
        is_ranking(leq),
    ensures
        merged(a, placed(b, x, leq), leq) == placed(merged(a, b, leq), x, leq),
    decreases a.len() + b.len(),
{
    if a.len() == 0 {
    } else if b.len() == 0 {
        if leq(a[0], x) {
            lemma_merged_placed(a.drop_first(), b, x, leq);
            assert(merged(a.drop_first(), b, leq) == a.drop_first());
            assert((seq![x] + b)[0] == x);
        } else {
            assert((seq![x] + b).drop_first() == b);
            assert((seq![x] + b)[0] == x);
        }
    } else {
        let pb = placed(b, x, leq);
        if leq(b[0], x) {
            assert(pb.drop_first() == placed(b.drop_first(), x, leq));
            assert(pb[0] == b[0]);
            if leq(a[0], b[0]) {
                lemma_merged_placed(a.drop_first(), b, x, leq);
                let m = merged(a, b, leq);
                assert(m.drop_first() == merged(a.drop_first(), b, leq));
                assert(leq(a[0], x));
            } else {
                lemma_merged_placed(a, b.drop_first(), x, leq);
                let m = merged(a, b, leq);
                assert(m.drop_first() == merged(a, b.drop_first(), leq));
            }
        } else {
            assert(pb.drop_first() == b);
            assert(pb[0] == x);
            if leq(a[0], x) {
                lemma_merged_placed(a.drop_first(), b, x, leq);
                assert(leq(x, b[0]));
                assert(leq(a[0], b[0]));
                let m = merged(a, b, leq);
                assert(m.drop_first() == merged(a.drop_first(), b, leq));
            } else {
                let m = merged(a, b, leq);
                assert(m[0] == a[0] || m[0] == b[0]);
            }
        }
    }
}

proof fn lemma_merge_of_halves<T>(a: Seq<T>, b: Seq<T>, leq: spec_fn(T, T) -> bool)
    requires
        is_ranking(leq),
    ensures
        merged(stable_sort(a, leq), stable_sort(b, leq), leq) == stable_sort(a + b, leq),
    decreases b.len(),
{
    if b.len() == 0 {
        assert(a + b == a);
    } else {
        lemma_merge_of_halves(a, b.drop_last(), leq);
        lemma_merged_placed(stable_sort(a, leq), stable_sort(b.drop_last(), leq), b.last(), leq);
        assert((a + b).drop_last() == a + b.drop_last());
    }
}

proof fn lemma_placed_members<T>(list: Seq<T>, x: T, leq: spec_fn(T, T) -> bool)
    ensures
        placed(list, x, leq).to_multiset() == list.to_multiset().insert(x),
        placed(list, x, leq).len() == list.len() + 1,
    decreases list.len(),
{
    broadcast use vstd::seq_lib::group_to_multiset_ensures;

    if list.len() > 0 && leq(list[0], x) {
        let rest = list.drop_first();
        lemma_placed_members(rest, x, leq);
        vstd::seq_lib::lemma_multiset_commutative(seq![list[0]], placed(rest, x, leq));
        vstd::seq_lib::lemma_multiset_commutative(seq![list[0]], rest);
        assert(list == seq![list[0]] + rest);
        assert(placed(list, x, leq).to_multiset() =~= list.to_multiset().insert(x));
    } else {
        vstd::seq_lib::lemma_multiset_commutative(seq![x], list);
        assert(seq![x] == Seq::<T>::empty().push(x));
        assert(seq![x].to_multiset() =~= vstd::multiset::Multiset::empty().insert(x));
        assert(placed(list, x, leq).to_multiset() =~= list.to_multiset().insert(x));
    }
}

/// Sorting keeps every value, as often as it occurs, and adds none.
pub proof fn sort_keeps_members<T>(list: Seq<T>, leq: spec_fn(T, T) -> bool)
    ensures
        stable_sort(list, leq).to_multiset() == list.to_multiset(),
        stable_sort(list, leq).len() == list.len(),
    decreases list.len(),
{
    broadcast use vstd::seq_lib::group_to_multiset_ensures;

    if list.len() > 0 {
        sort_keeps_members(list.drop_last(), leq);
        lemma_placed_members(stable_sort(list.drop_last(), leq), list.last(), leq);
        assert(list == list.drop_last().push(list.last()));
    }
}

/// A sorted list holds a value exactly where the unsorted one does.
pub proof fn sort_contains<T>(list: Seq<T>, leq: spec_fn(T, T) -> bool, x: T)
    ensures
        stable_sort(list, leq).contains(x) <==> list.contains(x),
{
    broadcast use vstd::seq_lib::group_to_multiset_ensures;

    sort_keeps_members(list, leq);
    assert(list.to_multiset().count(x) > 0 <==> list.contains(x));
    assert(stable_sort(list, leq).to_multiset().count(x) > 0 <==> stable_sort(
        list,
        leq,
    ).contains(x));
}

proof fn lemma_placed_sorted<T>(list: Seq<T>, x: T, leq: spec_fn(T, T) -> bool)
    requires
        is_ranking(leq),
        is_sorted(list, leq),
    ensures
        is_sorted(placed(list, x, leq), leq),
        forall|y: T|
            #[trigger] placed(list, x, leq).contains(y) ==> y == x || list.contains(y),
    decreases list.len(),
{
    let r = placed(list, x, leq);
    if list.len() > 0 && leq(list[0], x) {
        let rest = list.drop_first();
        lemma_placed_sorted(rest, x, leq);
        let tail = placed(rest, x, leq);
        assert forall|y: T| #[trigger] r.contains(y) implies y == x || list.contains(y) by {
            let i = choose|i: int| 0 <= i < r.len() && r[i] == y;
            if i > 0 {
                assert(tail[i - 1] == y);
                assert(tail.contains(y));
                if y != x {
                    let k = choose|k: int| 0 <= k < rest.len() && rest[k] == y;
                    assert(list[k + 1] == y);
                }
            }
        }
        assert forall|i: int, j: int| 0 <= i < j < r.len() implies leq(
            #[trigger] r[i],
            #[trigger] r[j],
        ) by {
            assert(r[j] == tail[j - 1]);
            if i == 0 {
                assert(tail.contains(tail[j - 1]));
                if r[j] != x {
                    let k = choose|k: int| 0 <= k < rest.len() && rest[k] == r[j];
                    assert(list[k + 1] == r[j]);
                    assert(leq(list[0], list[k + 1]));
                }
            } else {
                assert(r[i] == tail[i - 1]);
            }
        }
    } else {
        assert forall|y: T| #[trigger] r.contains(y) implies y == x || list.contains(y) by {
            let i = choose|i: int| 0 <= i < r.len() && r[i] == y;
            if i > 0 {
                assert(list[i - 1] == y);
            }
        }
        assert forall|i: int, j: int| 0 <= i < j < r.len() implies leq(
            #[trigger] r[i],
            #[trigger] r[j],
        ) by {
            assert(r[j] == list[j - 1]);
            assert(leq(x, list[0]));
            if j > 1 {
                assert(leq(list[0], list[j - 1]));
            }
            if i > 0 {
                assert(r[i] == list[i - 1]);
            }
        }
    }
}

/// What sorting yields is sorted.
pub proof fn sort_is_sorted<T>(list: Seq<T>, leq: spec_fn(T, T) -> bool)
    requires
        is_ranking(leq),
    ensures
        is_sorted(stable_sort(list, leq), leq),
    decreases list.len(),
{
    if list.len() > 0 {
        sort_is_sorted(list.drop_last(), leq);
        lemma_placed_sorted(stable_sort(list.drop_last(), leq), list.last(), leq);
    }
}

/// The values of the same rank as `x`.
pub open spec fn of_rank<T>(x: T, leq: spec_fn(T, T) -> bool) -> spec_fn(T) -> bool {
    |y: T| leq(x, y) && leq(y, x)
}

proof fn lemma_filter_front<T>(x: T, rest: Seq<T>, p: spec_fn(T) -> bool)
    ensures
        (seq![x] + rest).filter(p) == (if p(x) {
            seq![x] + rest.filter(p)
        } else {
            rest.filter(p)
        }),
{
    reveal(Seq::filter);
    Seq::filter_distributes_over_add(seq![x], rest, p);
    assert(seq![x].drop_last() == Seq::<T>::empty());
    assert(Seq::<T>::empty().filter(p) == Seq::<T>::empty());
    assert(seq![x].last() == x);
    if p(x) {
        assert(seq![x].filter(p) == seq![x]);
    } else {
        assert(seq![x].filter(p) == Seq::<T>::empty());
        assert(Seq::<T>::empty() + rest.filter(p) == rest.filter(p));
    }
}

proof fn lemma_placed_filter<T>(list: Seq<T>, x: T, leq: spec_fn(T, T) -> bool, k: T)
    requires
        is_ranking(leq),
        is_sorted(list, leq),
    ensures
        placed(list, x, leq).filter(of_rank(k, leq)) == list.push(x).filter(of_rank(k, leq)),
    decreases list.len(),
{
    let p = of_rank(k, leq);
    if list.len() > 0 && leq(list[0], x) {
        let rest = list.drop_first();
        lemma_placed_filter(rest, x, leq, k);
        lemma_filter_front(list[0], placed(rest, x, leq), p);
        lemma_filter_front(list[0], rest.push(x), p);
        assert(list.push(x) == seq![list[0]] + rest.push(x));
    } else {
        lemma_filter_front(x, list, p);
        Seq::filter_distributes_over_add(list, seq![x], p);
        assert(list.push(x) == list + seq![x]);
        lemma_filter_front(x, Seq::<T>::empty(), p);
        assert(seq![x] + Seq::<T>::empty() == seq![x]);
        reveal(Seq::filter);
        if p(x) {
            // Every value of `list` ranks higher than `x`, so none has its rank.
            assert(list.filter(p) == Seq::<T>::empty()) by {
                if list.filter(p).len() > 0 {
                    broadcast use vstd::seq_lib::group_filter_ensures;

                    let y = list.filter(p)[0];
                    list.lemma_filter_contains_rev(p, y);
                    assert(list.contains(y) && p(y));
                    let i = choose|i: int| 0 <= i < list.len() && list[i] == y;
                    assert(leq(y, k) && leq(k, x));
                    assert(leq(y, x));
                    if i > 0 {
                        assert(leq(list[0], list[i]));
                    }
                    assert(leq(list[0], x));
                }
            }
            assert(seq![x] + list.filter(p) == list.filter(p) + seq![x]);
        } else {
            assert(list.filter(p) + Seq::<T>::empty() == list.filter(p));
        }
    }
}

/// Values of one rank keep the order they had.
pub proof fn sort_is_stable<T>(list: Seq<T>, leq: spec_fn(T, T) -> bool, k: T)
    requires
        is_ranking(leq),
    ensures
        stable_sort(list, leq).filter(of_rank(k, leq)) == list.filter(of_rank(k, leq)),
    decreases list.len(),
{
    let p = of_rank(k, leq);
    if list.len() > 0 {
        let front = list.drop_last();
        sort_is_stable(front, leq, k);
        sort_is_sorted(front, leq);
        lemma_placed_filter(stable_sort(front, leq), list.last(), leq, k);
        Seq::filter_distributes_over_add(stable_sort(front, leq), seq![list.last()], p);
        Seq::filter_distributes_over_add(front, seq![list.last()], p);
        assert(stable_sort(front, leq).push(list.last()) == stable_sort(front, leq) + seq![
            list.last(),
        ]);
        assert(list == front + seq![list.last()]);
    }
}

proof fn lemma_placed_mapped<T, V>(
    list: Seq<T>,
    x: T,
    leq: spec_fn(T, T) -> bool,
    f: spec_fn(T) -> V,
    leq_image: spec_fn(V, V) -> bool,
)
    requires
        forall|a: T, b: T| #[trigger] leq(a, b) == leq_image(f(a), f(b)),
    ensures
        placed(list, x, leq).map_values(f) == placed(list.map_values(f), f(x), leq_image),
    decreases list.len(),
{
    let image = list.map_values(f);
    if list.len() > 0 {
        assert(leq(list[0], x) == leq_image(f(list[0]), f(x)));
    }
    if list.len() > 0 && leq(list[0], x) {
        lemma_placed_mapped(list.drop_first(), x, leq, f, leq_image);
        assert(image.drop_first() == list.drop_first().map_values(f));
        assert(placed(list, x, leq).map_values(f) == seq![f(list[0])] + placed(
            list.drop_first(),
            x,
            leq,
        ).map_values(f));
    } else {
        assert(placed(list, x, leq).map_values(f) == seq![f(x)] + image);
    }
}

/// Sorting by a rank that only an image of each value decides is the sorting
/// of the images.
pub proof fn sort_of_images<T, V>(
    list: Seq<T>,
    leq: spec_fn(T, T) -> bool,
    f: spec_fn(T) -> V,
    leq_image: spec_fn(V, V) -> bool,
)
    requires
        forall|a: T, b: T| #[trigger] leq(a, b) == leq_image(f(a), f(b)),
    ensures
        stable_sort(list, leq).map_values(f) == stable_sort(list.map_values(f), leq_image),
    decreases list.len(),
{
    if list.len() > 0 {
        sort_of_images(list.drop_last(), leq, f, leq_image);
        lemma_placed_mapped(
            stable_sort(list.drop_last(), leq),
            list.last(),
            leq,
            f,
            leq_image,
        );
        assert(list.map_values(f).drop_last() == list.drop_last().map_values(f));
    } else {
        assert(list.map_values(f) == Seq::<V>::empty());
    }
}

fn merge<T: Ranked>(left: VecDeque<T>, right: VecDeque<T>) -> (r: VecDeque<T>)
    ensures
        r@ == merged(left@, right@, rank_order::<T>()),
{
    let mut a: VecDeque<T> = left;
    let mut b: VecDeque<T> = right;
    let mut out: VecDeque<T> = VecDeque::new();
    let ghost leq = rank_order::<T>();
    let ghost whole = merged(a@, b@, leq);
    while a.len() > 0 && b.len() > 0
        invariant
            leq == rank_order::<T>(),
            whole == out@ + merged(a@, b@, leq),
        decreases a@.len() + b@.len(),
    {
        let ghost before = out@;
        let ghost (a0, b0) = (a@, b@);
        if a[0].ranks_at_most(&b[0]) {
            if let Some(x) = a.pop_front() {
                out.push_back(x);
                proof {
                    assert(a@ == a0.drop_first());
                    assert(before + (seq![x] + merged(a@, b@, leq)) == out@ + merged(a@, b@, leq));
                }
            }
        } else {
            if let Some(x) = b.pop_front() {
                out.push_back(x);
                proof {
                    assert(b@ == b0.drop_first());
                    assert(before + (seq![x] + merged(a@, b@, leq)) == out@ + merged(a@, b@, leq));
                }
            }
        }
    }
    out.append(&mut a);
    out.append(&mut b);
    out
}

fn sort_queue<T: Ranked>(list: VecDeque<T>) -> (r: VecDeque<T>)
    ensures
        r@ == stable_sort(list@, rank_order::<T>()),
    decreases list@.len(),
{
    let count: usize = list.len();
    let ghost leq = rank_order::<T>();
    if count < 2 {
        proof {
            if list@.len() == 1 {
                assert(list@.drop_last() == Seq::<T>::empty());
                assert(stable_sort(list@.drop_last(), leq) == Seq::<T>::empty());
                assert(list@ == seq![list@.last()] + Seq::<T>::empty());
            }
        }
        return list;
    }
    let mut left: VecDeque<T> = list;
    let right: VecDeque<T> = left.split_off(count / 2);
    proof {
        lemma_rank_order::<T>();
        assert(left@ + right@ == list@);
        lemma_merge_of_halves(left@, right@, leq);
    }
    merge(sort_queue(left), sort_queue(right))
}

/// Sorts `list` by rank; values of one rank keep their order.
pub fn sort<T: Ranked>(list: Vec<T>) -> (r: VecDeque<T>)
    ensures
        r@ == stable_sort(list@, rank_order::<T>()),
{
    sort_queue(queue_of(list))
}

/// Values that are all of one rank stay as they are.
pub proof fn sort_of_ties<T>(list: Seq<T>, leq: spec_fn(T, T) -> bool)
    requires
        forall|i: int, j: int|
            0 <= i < list.len() && 0 <= j < list.len() ==> leq(
                #[trigger] list[i],
                #[trigger] list[j],
            ),
    ensures
        stable_sort(list, leq) == list,
    decreases list.len(),
{
    if list.len() > 0 {
        let front = list.drop_last();
        assert forall|i: int, j: int| 0 <= i < front.len() && 0 <= j < front.len() implies leq(
            #[trigger] front[i],
            #[trigger] front[j],
        ) by {
            assert(leq(list[i], list[j]));
        }
        sort_of_ties(front, leq);
        assert forall|i: int| 0 <= i < front.len() implies leq(#[trigger] front[i], list.last()) by {
            assert(leq(list[i], list[list.len() - 1]));
        }
        lemma_placed_last(front, list.last(), leq);
        assert(list == front.push(list.last()));
    }
}

proof fn lemma_placed_last<T>(list: Seq<T>, x: T, leq: spec_fn(T, T) -> bool)
    requires
        forall|i: int| 0 <= i < list.len() ==> leq(#[trigger] list[i], x),
    ensures
        placed(list, x, leq) == list.push(x),
    decreases list.len(),
{
    if list.len() > 0 {
        let rest = list.drop_first();
        assert forall|i: int| 0 <= i < rest.len() implies leq(#[trigger] rest[i], x) by {
            assert(leq(list[i + 1], x));
        }
        lemma_placed_last(rest, x, leq);
        assert(seq![list[0]] + rest.push(x) == list.push(x));
    } else {
        assert(seq![x] + list == list.push(x));
    }
}

/// Values of the same rank are the same, among those of the list.
pub open spec fn is_told_apart<T>(list: Seq<T>, leq: spec_fn(T, T) -> bool) -> bool {
    forall|x: T, y: T|
        #![trigger leq(x, y)]
        list.contains(x) && list.contains(y) && leq(x, y) && leq(y, x) ==> x == y
}

proof fn lemma_same_members<T>(a: Seq<T>, b: Seq<T>, x: T)
    requires
        a.to_multiset() == b.to_multiset(),
    ensures
        a.contains(x) <==> b.contains(x),
{
    broadcast use vstd::seq_lib::group_to_multiset_ensures;

    assert(a.contains(x) <==> a.to_multiset().count(x) > 0);
    assert(b.contains(x) <==> b.to_multiset().count(x) > 0);
}

proof fn lemma_sorted_is_unique<T>(a: Seq<T>, b: Seq<T>, leq: spec_fn(T, T) -> bool)
    requires
        is_ranking(leq),
        is_sorted(a, leq),
        is_sorted(b, leq),
        a.to_multiset() == b.to_multiset(),
        is_told_apart(a, leq),
    ensures
        a == b,
    decreases a.len(),
{
    broadcast use vstd::seq_lib::group_to_multiset_ensures;

    assert(a.to_multiset().len() == a.len() && b.to_multiset().len() == b.len());
    if a.len() > 0 {
        let (x, y) = (a[0], b[0]);
        assert(a.contains(x) && b.contains(y));
        lemma_same_members(a, b, x);
        lemma_same_members(a, b, y);
        let i = choose|i: int| 0 <= i < a.len() && a[i] == y;
        let j = choose|j: int| 0 <= j < b.len() && b[j] == x;
        assert(leq(x, x) && leq(y, y));
        assert(leq(x, y)) by {
            if i > 0 {
                assert(leq(a[0], a[i]));
            }
        }
        assert(leq(y, x)) by {
            if j > 0 {
                assert(leq(b[0], b[j]));
            }
        }
        assert(x == y);
        let rest_a = a.remove(0);
        let rest_b = b.remove(0);
        assert(rest_a.to_multiset() == rest_b.to_multiset());
        assert forall|u: T, v: T|
            #![trigger leq(u, v)]
            rest_a.contains(u) && rest_a.contains(v) && leq(u, v) && leq(v, u) implies u == v by {
            let k = choose|k: int| 0 <= k < rest_a.len() && rest_a[k] == u;
            let m = choose|m: int| 0 <= m < rest_a.len() && rest_a[m] == v;
            assert(a[k + 1] == u && a[m + 1] == v);
            assert(a.contains(u) && a.contains(v));
        }
        lemma_sorted_is_unique(rest_a, rest_b, leq);
        assert(a == seq![x] + rest_a);
        assert(b == seq![y] + rest_b);
    }
}

/// Where values of one rank are the same, sorting forgets the order that the
/// list had.
pub proof fn sort_forgets_the_order<T>(a: Seq<T>, b: Seq<T>, leq: spec_fn(T, T) -> bool)
    requires
        is_ranking(leq),
        a.to_multiset() == b.to_multiset(),
        is_told_apart(a, leq),
    ensures
        stable_sort(a, leq) == stable_sort(b, leq),
{
    sort_keeps_members(a, leq);
    sort_keeps_members(b, leq);
    sort_is_sorted(a, leq);
    sort_is_sorted(b, leq);
    assert forall|x: T, y: T|
        #![trigger leq(x, y)]
        stable_sort(a, leq).contains(x) && stable_sort(a, leq).contains(y) && leq(x, y) && leq(
            y,
            x,
        ) implies x == y by {
        sort_contains(a, leq, x);
        sort_contains(a, leq, y);
    }
    lemma_sorted_is_unique(stable_sort(a, leq), stable_sort(b, leq), leq);
}

} // verus!
