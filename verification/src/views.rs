//! Lists of values, seen through the views of their members.

use std::collections::VecDeque;
use vstd::prelude::*;

verus! {

/// The views of the members of a list.
pub open spec fn views<T: View>(list: Seq<T>) -> Seq<T::V> {
    list.map_values(|x: T| x@)
}

/// The view of the value inside, where there is one.
pub open spec fn view_inside<T: View>(x: Option<T>) -> Option<T::V> {
    match x {
        Some(y) => Some(y@),
        None => None,
    }
}

/// As many views as values.
pub broadcast proof fn lemma_views_len<T: View>(list: Seq<T>)
    ensures
        #[trigger] views(list).len() == list.len(),
{
}

/// Each view stands where its value does.
pub broadcast proof fn lemma_views_index<T: View>(list: Seq<T>, i: int)
    requires
        0 <= i < list.len(),
    ensures
        #[trigger] views(list)[i] == list[i]@,
{
}

/// A value more is a view more.
pub broadcast proof fn lemma_views_push<T: View>(list: Seq<T>, x: T)
    ensures
        #[trigger] views(list.push(x)) == views(list).push(x@),
{
    assert(views(list.push(x)) =~= views(list).push(x@));
}

/// The views of two lists in one.
pub broadcast proof fn lemma_views_add<T: View>(a: Seq<T>, b: Seq<T>)
    ensures
        #[trigger] views(a + b) == views(a) + views(b),
{
    assert(views(a + b) =~= views(a) + views(b));
}

/// The views of a part.
pub broadcast proof fn lemma_views_subrange<T: View>(list: Seq<T>, from: int, to: int)
    requires
        0 <= from <= to <= list.len(),
    ensures
        #[trigger] views(list.subrange(from, to)) == views(list).subrange(from, to),
{
    assert(views(list.subrange(from, to)) =~= views(list).subrange(from, to));
}

/// The views of nothing.
pub broadcast proof fn lemma_views_empty<T: View>()
    ensures
        #[trigger] views(Seq::<T>::empty()) == Seq::<T::V>::empty(),
{
    assert(views(Seq::<T>::empty()) =~= Seq::<T::V>::empty());
}

/// What views keep of the lists they are taken of.
pub broadcast group group_views {
    lemma_views_len,
    lemma_views_index,
    lemma_views_push,
    lemma_views_add,
    lemma_views_subrange,
    lemma_views_empty,
}

/// The members of `list` as a queue, in order.
pub fn queue_of<T>(list: Vec<T>) -> (r: VecDeque<T>)
    ensures
        r@ == list@,
{
    let mut queue: VecDeque<T> = VecDeque::new();
    for x in it: list
        invariant
            queue@ == list@.take(it.index() as int),
            it.seq() == list@,
    {
        proof {
            assert(list@.take(it.index() as int + 1) == list@.take(it.index() as int).push(x));
        }
        queue.push_back(x);
    }
    proof {
        assert(list@.take(list@.len() as int) == list@);
    }
    queue
}

/// The members of `queue` as a list, in order.
pub fn list_of<T>(queue: VecDeque<T>) -> (r: Vec<T>)
    ensures
        r@ == queue@,
{
    let mut rest: VecDeque<T> = queue;
    let mut list: Vec<T> = Vec::new();
    let ghost whole = rest@;
    while rest.len() > 0
        invariant
            whole == list@ + rest@,
        decreases rest@.len(),
    {
        let ghost before = rest@;
        if let Some(x) = rest.pop_front() {
            list.push(x);
            proof {
                assert(before == seq![x] + rest@);
                assert(whole == list@ + rest@);
            }
        }
    }
    proof {
        assert(list@ == list@ + rest@);
    }
    list
}

} // verus!
