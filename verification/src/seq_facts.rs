//! Facts about sequences that the tables lean on.

use vstd::prelude::*;

verus! {

/// Filtering one element more of a sequence keeps that element exactly when
/// it passes.
pub proof fn lemma_filter_step<A>(s: Seq<A>, keep: spec_fn(A) -> bool, k: int)
    requires
        0 <= k < s.len(),
    ensures
        s.take(k + 1).filter(keep) == if keep(s[k]) {
            s.take(k).filter(keep).push(s[k])
        } else {
            s.take(k).filter(keep)
        },
{
    assert(s.take(k + 1) =~= s.take(k).push(s[k]));
    s.take(k).lemma_filter_push(s[k], keep);
}

/// What passes a filter is an element of the sequence that passes, and every
/// such element is in the result.
pub proof fn lemma_filter_members<A>(s: Seq<A>, keep: spec_fn(A) -> bool)
    ensures
        forall|x: A| #[trigger] s.filter(keep).contains(x) <==> s.contains(x) && keep(x),
{
    assert forall|x: A| #[trigger] s.filter(keep).contains(x) <==> s.contains(x) && keep(
        x,
    ) by {
        if s.filter(keep).contains(x) {
            let i = choose|i: int| 0 <= i < s.filter(keep).len() && s.filter(keep)[i] == x;
            s.lemma_filter_pred(keep, i);
            s.lemma_filter_contains_rev(keep, x);
        }
        if s.contains(x) && keep(x) {
            let i = choose|i: int| 0 <= i < s.len() && s[i] == x;
            s.lemma_filter_contains(keep, i);
        }
    }
}

/// What a sequence holds after a push is what it held before, and the new
/// element.
pub proof fn lemma_push_members<A>(s: Seq<A>, y: A)
    ensures
        forall|x: A| #[trigger] s.push(y).contains(x) <==> s.contains(x) || x == y,
{
    assert forall|x: A| #[trigger] s.push(y).contains(x) <==> s.contains(x) || x == y by {
        if s.push(y).contains(x) {
            let i = choose|i: int| 0 <= i < s.push(y).len() && s.push(y)[i] == x;
            if i < s.len() {
                assert(s[i] == x);
            }
        }
        if s.contains(x) {
            let i = choose|i: int| 0 <= i < s.len() && s[i] == x;
            assert(s.push(y)[i] == x);
        }
        if x == y {
            assert(s.push(y)[s.len() as int] == x);
        }
    }
}

/// Filtering what was already filtered keeps what passes both tests.
pub proof fn lemma_filter_twice<A>(
    s: Seq<A>,
    first: spec_fn(A) -> bool,
    second: spec_fn(A) -> bool,
    both: spec_fn(A) -> bool,
)
    requires
        forall|x: A| #[trigger] both(x) == (first(x) && second(x)),
    ensures
        s.filter(first).filter(second) == s.filter(both),
    decreases s.len(),
{
    reveal(Seq::filter);
    if s.len() > 0 {
        let front = s.drop_last();
        lemma_filter_twice(front, first, second, both);
        if first(s.last()) {
            front.filter(first).lemma_filter_push(s.last(), second);
        }
    }
}

/// Where each element passes exactly one of three tests, the three filters
/// share out the sequence.
pub proof fn lemma_filter_shares<A>(
    s: Seq<A>,
    first: spec_fn(A) -> bool,
    second: spec_fn(A) -> bool,
    third: spec_fn(A) -> bool,
)
    requires
        forall|i: int|
            0 <= i < s.len() ==> {
                let x = #[trigger] s[i];
                &&& first(x) || second(x) || third(x)
                &&& !(first(x) && second(x))
                &&& !(first(x) && third(x))
                &&& !(second(x) && third(x))
            },
    ensures
        s.filter(first).len() + s.filter(second).len() + s.filter(third).len() == s.len(),
    decreases s.len(),
{
    reveal(Seq::filter);
    if s.len() > 0 {
        let front = s.drop_last();
        assert forall|i: int| 0 <= i < front.len() implies {
            let x = #[trigger] front[i];
            &&& first(x) || second(x) || third(x)
            &&& !(first(x) && second(x))
            &&& !(first(x) && third(x))
            &&& !(second(x) && third(x))
        } by {
            assert(front[i] == s[i]);
        }
        lemma_filter_shares(front, first, second, third);
        assert(s.last() == s[s.len() - 1]);
    }
}

} // verus!
