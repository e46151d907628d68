//! Doing one thing to every item of a sequence, in order, until one fails.

use vstd::prelude::*;

verus! {

/// Applies `f` to each item of `items` together with its position, in order,
/// and stops at the first failure: the result is that failure, or else the
/// results of all the items in order.
pub open spec fn try_map<A, B, E>(items: Seq<A>, f: spec_fn(int, A) -> Result<B, E>) -> Result<
    Seq<B>,
    E,
>
    decreases items.len(),
{
    if items.len() == 0 {
        Ok(Seq::empty())
    } else {
        match try_map(items.drop_last(), f) {
            Err(e) => Err(e),
            Ok(done) => match f(items.len() - 1, items.last()) {
                Err(e) => Err(e),
                Ok(b) => Ok(done.push(b)),
            },
        }
    }
}

/// How the result over the first `n + 1` items follows from the result over
/// the first `n`.
pub proof fn lemma_try_map_step<A, B, E>(
    items: Seq<A>,
    f: spec_fn(int, A) -> Result<B, E>,
    n: int,
)
    requires
        0 <= n < items.len(),
    ensures
        try_map(items.take(n + 1), f) == match try_map(items.take(n), f) {
            Err(e) => Err::<Seq<B>, E>(e),
            Ok(done) => match f(n, items[n]) {
                Err(e) => Err(e),
                Ok(b) => Ok(done.push(b)),
            },
        },
{
    assert(items.take(n + 1).drop_last() =~= items.take(n));
}

/// A failure among the first `n` items is the failure of the whole.
pub proof fn lemma_try_map_failure_persists<A, B, E>(
    items: Seq<A>,
    f: spec_fn(int, A) -> Result<B, E>,
    n: int,
)
    requires
        0 <= n <= items.len(),
        try_map(items.take(n), f) is Err,
    ensures
        try_map(items, f) == try_map(items.take(n), f),
    decreases items.len() - n,
{
    if n == items.len() {
        assert(items.take(n) =~= items);
    } else {
        lemma_try_map_step(items, f, n);
        lemma_try_map_failure_persists(items, f, n + 1);
    }
}

/// When no item fails, the result holds the result of each item at the
/// item's position.
pub proof fn lemma_try_map_ok<A, B, E>(items: Seq<A>, f: spec_fn(int, A) -> Result<B, E>)
    requires
        try_map(items, f) is Ok,
    ensures
        try_map(items, f)->Ok_0.len() == items.len(),
        forall|i: int|
            0 <= i < items.len() ==> f(i, items[i]) == Ok::<B, E>(
                #[trigger] try_map(items, f)->Ok_0[i],
            ),
    decreases items.len(),
{
    if items.len() > 0 {
        let before = items.drop_last();
        lemma_try_map_ok(before, f);
        assert forall|i: int| 0 <= i < items.len() implies f(i, items[i]) == Ok::<B, E>(
            #[trigger] try_map(items, f)->Ok_0[i],
        ) by {
            if i < items.len() - 1 {
                assert(f(i, before[i]) == Ok::<B, E>(try_map(before, f)->Ok_0[i]));
            }
        }
    }
}

/// A failure is the failure of some item, and no item before that one
/// fails.
pub proof fn lemma_try_map_err<A, B, E>(items: Seq<A>, f: spec_fn(int, A) -> Result<B, E>) -> (at:
    int)
    requires
        try_map(items, f) is Err,
    ensures
        0 <= at < items.len(),
        f(at, items[at]) == Err::<B, E>(try_map(items, f)->Err_0),
        forall|i: int| 0 <= i < at ==> (#[trigger] f(i, items[i])) is Ok,
    decreases items.len(),
{
    let before = items.drop_last();
    if try_map(before, f) is Err {
        let at = lemma_try_map_err(before, f);
        assert forall|i: int| 0 <= i < at implies (#[trigger] f(i, items[i])) is Ok by {
            assert(f(i, before[i]) is Ok);
        }
        at
    } else {
        lemma_try_map_ok(before, f);
        assert forall|i: int| 0 <= i < items.len() - 1 implies (#[trigger] f(i, items[i])) is Ok by {
            assert(f(i, before[i]) == Ok::<B, E>(try_map(before, f)->Ok_0[i]));
        }
        items.len() - 1
    }
}

/// When every item succeeds, so does the whole.
pub proof fn lemma_try_map_all_ok<A, B, E>(items: Seq<A>, f: spec_fn(int, A) -> Result<B, E>)
    requires
        forall|i: int| 0 <= i < items.len() ==> (#[trigger] f(i, items[i])) is Ok,
    ensures
        try_map(items, f) is Ok,
    decreases items.len(),
{
    if items.len() > 0 {
        let before = items.drop_last();
        assert forall|i: int| 0 <= i < before.len() implies (#[trigger] f(i, before[i])) is Ok by {
            assert(f(i, items[i]) is Ok);
        }
        lemma_try_map_all_ok(before, f);
        assert(f(items.len() - 1, items[items.len() - 1]) is Ok);
    }
}

} // verus!
