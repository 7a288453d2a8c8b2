//! Small reusable facts about filtered sequences, used to reason about
//! table rows kept or dropped by the store's rebuild loops.

use vstd::prelude::*;

verus! {

/// Extending a prefix by one element extends its filtered image by that
/// element exactly when the element passes the predicate.
pub proof fn lemma_filter_take_step<T>(s: Seq<T>, pred: spec_fn(T) -> bool, i: int)
    requires
        0 <= i < s.len(),
    ensures
        s.take(i + 1).filter(pred) == if pred(s[i]) {
            s.take(i).filter(pred).push(s[i])
        } else {
            s.take(i).filter(pred)
        },
{
    reveal(Seq::filter);
    assert(s.take(i + 1).drop_last() =~= s.take(i));
    assert(s.take(i + 1).last() == s[i]);
}

/// One page of a sequence: the elements from `page * per_page` on, at
/// most `per_page` of them.
pub open spec fn spec_page<T>(s: Seq<T>, page: int, per_page: int) -> Seq<T> {
    let start = page * per_page;
    if start >= s.len() {
        Seq::empty()
    } else if start + per_page >= s.len() {
        s.subrange(start, s.len() as int)
    } else {
        s.subrange(start, start + per_page)
    }
}

/// Every element of a filtered sequence is an element of the original.
pub proof fn lemma_filter_membership<T>(s: Seq<T>, pred: spec_fn(T) -> bool)
    ensures
        forall|i: int|
            0 <= i < s.filter(pred).len() ==> s.contains(#[trigger] s.filter(pred)[i]),
    decreases s.len(),
{
    reveal(Seq::filter);
    if s.len() != 0 {
        let d = s.drop_last();
        lemma_filter_membership(d, pred);
        assert(s.filter(pred) == if pred(s.last()) {
            d.filter(pred).push(s.last())
        } else {
            d.filter(pred)
        });
        assert forall|i: int| 0 <= i < s.filter(pred).len() implies s.contains(
            #[trigger] s.filter(pred)[i],
        ) by {
            if pred(s.last()) && i == s.filter(pred).len() - 1 {
                assert(s[s.len() - 1] == s.filter(pred)[i]);
            } else {
                assert(s.filter(pred)[i] == d.filter(pred)[i]);
                assert(d.contains(d.filter(pred)[i]));
                let j = choose|j: int| 0 <= j < d.len() && d[j] == d.filter(pred)[i];
                assert(s[j] == s.filter(pred)[i]);
            }
        }
    }
}

/// Extending a prefix by one element extends its filter-mapped image by
/// the element's image exactly when that image exists.
pub proof fn lemma_filter_map_take_step<A, B>(s: Seq<A>, f: spec_fn(A) -> Option<B>, i: int)
    requires
        0 <= i < s.len(),
    ensures
        f(s[i]) matches Some(b) ==> s.take(i + 1).filter_map(f) == s.take(i).filter_map(f)
            + seq![b],
        f(s[i]) is None ==> s.take(i + 1).filter_map(f) == s.take(i).filter_map(f),
{
    assert(s.take(i + 1).drop_last() =~= s.take(i));
    assert(s.take(i + 1).last() == s[i]);
}

/// A property of every ordered pair of elements survives filtering,
/// because filtering keeps relative order.
pub proof fn lemma_filter_preserves_pairwise<T>(
    s: Seq<T>,
    pred: spec_fn(T) -> bool,
    rel: spec_fn(T, T) -> bool,
)
    requires
        forall|i: int, j: int| 0 <= i < j < s.len() ==> rel(s[i], s[j]),
    ensures
        forall|i: int, j: int|
            0 <= i < j < s.filter(pred).len() ==> rel(s.filter(pred)[i], s.filter(pred)[j]),
    decreases s.len(),
{
    reveal(Seq::filter);
    if s.len() != 0 {
        let d = s.drop_last();
        assert(forall|i: int, j: int| 0 <= i < j < d.len() ==> rel(d[i], d[j]));
        lemma_filter_preserves_pairwise(d, pred, rel);
        lemma_filter_membership(d, pred);
        assert forall|i: int, j: int|
            0 <= i < j < s.filter(pred).len() implies rel(
            s.filter(pred)[i],
            s.filter(pred)[j],
        ) by {
            if pred(s.last()) && j == s.filter(pred).len() - 1 {
                assert(s.filter(pred) == d.filter(pred).push(s.last()));
                assert(d.contains(d.filter(pred)[i]));
                let w = choose|w: int| 0 <= w < d.len() && d[w] == d.filter(pred)[i];
                assert(rel(s[w], s[s.len() - 1]));
            }
        }
    }
}

} // verus!
