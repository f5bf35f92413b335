//! Facts about the models of vectors.

use vstd::prelude::*;

verus! {

/// The model of a vector after a `push` is the model before it with the
/// model of the new element appended.
pub proof fn lemma_deep_view_push<T: DeepView>(before: Vec<T>, after: Vec<T>, x: T)
    requires
        after@ == before@.push(x),
    ensures
        after.deep_view() == before.deep_view().push(x.deep_view()),
{
    assert(after.deep_view() =~= before.deep_view().push(x.deep_view()));
}

/// The model of a vector after one element was replaced.
pub proof fn lemma_deep_view_update<T: DeepView>(before: Vec<T>, after: Vec<T>, i: int, x: T)
    requires
        0 <= i < before@.len(),
        after@ == before@.update(i, x),
    ensures
        after.deep_view() == before.deep_view().update(i, x.deep_view()),
{
    assert(after.deep_view() =~= before.deep_view().update(i, x.deep_view()));
}

/// The model of a vector without its last element.
pub proof fn lemma_deep_view_drop_last<T: DeepView>(before: Vec<T>, after: Vec<T>)
    requires
        before@.len() > 0,
        after@ == before@.drop_last(),
    ensures
        after.deep_view() == before.deep_view().drop_last(),
{
    assert(after.deep_view() =~= before.deep_view().drop_last());
}

/// The model of a vector that another vector was appended to.
pub proof fn lemma_deep_view_append<T: DeepView>(before: Vec<T>, other: Vec<T>, after: Vec<T>)
    requires
        after@ == before@ + other@,
    ensures
        after.deep_view() == before.deep_view() + other.deep_view(),
{
    assert(after.deep_view() =~= before.deep_view() + other.deep_view());
}

} // verus!
