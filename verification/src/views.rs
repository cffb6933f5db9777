//! Bridging lemmas between a `Vec`'s shallow view and its deep view: how
//! `push`, `update` and `insert` on the vector show up in the deep view.

use vstd::prelude::*;

verus! {

pub proof fn lemma_deep_view_push<T: DeepView>(pre: Vec<T>, post: Vec<T>, x: T)
    requires
        post@ == pre@.push(x),
    ensures
        post.deep_view() =~= pre.deep_view().push(x.deep_view()),
{
    assert forall|j: int| 0 <= j < post@.len() implies post.deep_view()[j] == pre.deep_view().push(
        x.deep_view(),
    )[j] by {
        if j < pre@.len() {
            assert(post@[j] == pre@[j]);
            assert(pre.deep_view()[j] == pre@[j].deep_view());
        } else {
            assert(post@[j] == x);
        }
    }
}

pub proof fn lemma_deep_view_update<T: DeepView>(pre: Vec<T>, post: Vec<T>, i: int, x: T)
    requires
        0 <= i < pre@.len(),
        post@ == pre@.update(i, x),
    ensures
        post.deep_view() =~= pre.deep_view().update(i, x.deep_view()),
{
    assert forall|j: int| 0 <= j < post@.len() implies post.deep_view()[j]
        == pre.deep_view().update(i, x.deep_view())[j] by {
        if j != i {
            assert(post@[j] == pre@[j]);
            assert(pre.deep_view()[j] == pre@[j].deep_view());
        } else {
            assert(post@[j] == x);
        }
    }
}

pub proof fn lemma_deep_view_insert<T: DeepView>(pre: Vec<T>, post: Vec<T>, i: int, x: T)
    requires
        0 <= i <= pre@.len(),
        post@ == pre@.insert(i, x),
    ensures
        post.deep_view() =~= pre.deep_view().insert(i, x.deep_view()),
{
    assert forall|j: int| 0 <= j < post@.len() implies post.deep_view()[j]
        == pre.deep_view().insert(i, x.deep_view())[j] by {
        if j < i {
            assert(post@[j] == pre@[j]);
            assert(pre.deep_view()[j] == pre@[j].deep_view());
        } else if j == i {
            assert(post@[j] == x);
        } else {
            assert(post@[j] == pre@[j - 1]);
            assert(pre.deep_view()[j - 1] == pre@[j - 1].deep_view());
        }
    }
}

} // verus!
