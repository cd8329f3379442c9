use vstd::prelude::*;

verus! {

/// Filtering a sequence with one more element at its end.
pub proof fn lemma_filter_push<A>(s: Seq<A>, x: A, pred: spec_fn(A) -> bool)
    ensures
        s.push(x).filter(pred) == if pred(x) {
            s.filter(pred).push(x)
        } else {
            s.filter(pred)
        },
{
    reveal(Seq::filter);
    assert(s.push(x).drop_last() =~= s);
}

/// Whatever a filtered sequence contains satisfies the predicate.
pub proof fn lemma_filter_contains_pred<A>(s: Seq<A>, x: A, pred: spec_fn(A) -> bool)
    requires
        s.filter(pred).contains(x),
    ensures
        pred(x),
{
    let i = choose|i: int| 0 <= i < s.filter(pred).len() && s.filter(pred)[i] == x;
    s.lemma_filter_pred(pred, i);
}

} // verus!
