//! Facts about placing an element into a sequence that keeps equal keys in
//! their order, used by the stable sorts of the readers.
use vstd::prelude::*;

verus! {

/// Inserting `x` at `p`, where no element from `p` on shares the property
/// `pred` with `x` (if `x` has it): the elements with the property are those
/// of `s` in their order, followed by `x` if it has the property.
pub proof fn lemma_filter_insert<A>(s: Seq<A>, p: int, x: A, pred: spec_fn(A) -> bool)
    requires
        0 <= p <= s.len(),
        pred(x) ==> forall|j: int| p <= j < s.len() ==> !pred(#[trigger] s[j]),
    ensures
        s.insert(p, x).filter(pred) == if pred(x) {
            s.filter(pred).push(x)
        } else {
            s.filter(pred)
        },
{
    let a = s.take(p);
    let b = s.skip(p);
    assert(s.insert(p, x) =~= a + seq![x] + b);
    assert(s =~= a + b);
    Seq::filter_distributes_over_add(a + seq![x], b, pred);
    Seq::filter_distributes_over_add(a, seq![x], pred);
    Seq::filter_distributes_over_add(a, b, pred);
    Seq::<A>::empty().lemma_filter_push(x, pred);
    assert(Seq::<A>::empty().push(x) =~= seq![x]);
    assert(Seq::<A>::empty().filter(pred) =~= Seq::<A>::empty()) by {
        reveal(Seq::filter);
    }
    if pred(x) {
        assert(b.all(|y: A| !pred(y))) by {
            assert forall|j: int| 0 <= j < b.len() implies !pred(#[trigger] b[j]) by {
                assert(b[j] == s[p + j]);
            }
        }
        b.lemma_all_neg_filter_empty(pred);
        assert(b.filter(pred) =~= Seq::<A>::empty());
        assert(a.filter(pred) + seq![x] =~= (a.filter(pred) + b.filter(pred)).push(x));
    } else {
        assert(a.filter(pred) + Seq::<A>::empty() =~= a.filter(pred));
    }
}

/// Mapping commutes with inserting.
pub proof fn lemma_map_insert<A, B>(s: Seq<A>, p: int, x: A, f: spec_fn(A) -> B)
    requires
        0 <= p <= s.len(),
    ensures
        s.insert(p, x).map_values(f) == s.map_values(f).insert(p, f(x)),
{
    s.insert_ensures(p, x);
    s.map_values(f).insert_ensures(p, f(x));
    assert(s.insert(p, x).map_values(f) =~= s.map_values(f).insert(p, f(x)));
}

} // verus!
