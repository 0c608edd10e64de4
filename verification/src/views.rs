//! Facts about the views of vectors.

use vstd::prelude::*;

verus! {

/// Pushing an item onto a vector pushes the view of the item onto the deep
/// view of the vector.
pub proof fn lemma_deep_view_push<T: DeepView>(before: Seq<T>, item: T)
    ensures
        Seq::new(before.push(item).len(), |i: int| before.push(item)[i].deep_view()) == Seq::new(
            before.len(),
            |i: int| before[i].deep_view(),
        ).push(item.deep_view()),
{
    assert(Seq::new(before.push(item).len(), |i: int| before.push(item)[i].deep_view())
        =~= Seq::new(before.len(), |i: int| before[i].deep_view()).push(item.deep_view()));
}

/// The vector that holds `item` and nothing else.
pub fn one<T>(item: T) -> (r: Vec<T>)
    ensures
        r@ == seq![item],
{
    let mut v: Vec<T> = Vec::new();
    v.push(item);
    assert(v@ =~= seq![item]);
    v
}

} // verus!
