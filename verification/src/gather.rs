//! Lists of results.
use crate::error::ProgramError;
use vstd::prelude::*;

verus! {

/// The values of a list of results, or the first error among them.
pub open spec fn gathered<T>(items: Seq<Result<T, ProgramError>>) -> Result<Seq<T>, ProgramError>
    decreases items.len(),
{
    if items.len() == 0 {
        Ok(Seq::empty())
    } else {
        match gathered(items.drop_last()) {
            Err(e) => Err(e),
            Ok(values) => match items.last() {
                Err(e) => Err(e),
                Ok(value) => Ok(values.push(value)),
            },
        }
    }
}

/// What the first `k + 1` results give follows from the first `k`.
pub proof fn lemma_gathered_step<T>(items: Seq<Result<T, ProgramError>>, k: int)
    requires
        0 <= k < items.len(),
    ensures
        gathered(items.take(k + 1)) == match gathered(items.take(k)) {
            Err(e) => Err(e),
            Ok(values) => match items[k] {
                Err(e) => Err(e),
                Ok(value) => Ok(values.push(value)),
            },
        },
{
    assert(items.take(k + 1).drop_last() =~= items.take(k));
}

/// An error among the first `k` results is the error of them all.
pub proof fn lemma_gathered_error<T>(items: Seq<Result<T, ProgramError>>, k: int)
    requires
        0 <= k <= items.len(),
        gathered(items.take(k)) is Err,
    ensures
        gathered(items) == gathered(items.take(k)),
    decreases items.len() - k,
{
    if k < items.len() {
        lemma_gathered_step(items, k);
        lemma_gathered_error(items, k + 1);
    } else {
        assert(items.take(k) =~= items);
    }
}

/// The values of a list of results are those of its items, one for one.
pub proof fn gathered_values<T>(items: Seq<Result<T, ProgramError>>)
    requires
        gathered(items) is Ok,
    ensures
        gathered(items)->Ok_0.len() == items.len(),
        forall|i: int|
            #![trigger items[i]]
            0 <= i < items.len() ==> items[i] == Ok::<T, ProgramError>(gathered(items)->Ok_0[i]),
    decreases items.len(),
{
    if items.len() > 0 {
        gathered_values(items.drop_last());
        let values = gathered(items)->Ok_0;
        assert forall|i: int| #![trigger items[i]] 0 <= i < items.len() implies items[i] == Ok::<
            T,
            ProgramError,
        >(values[i]) by {
            if i < items.len() - 1 {
                assert(items.drop_last()[i] == items[i]);
            }
        }
    }
}

/// A list of values gives these values.
pub proof fn gathered_all<T>(items: Seq<Result<T, ProgramError>>, values: Seq<T>)
    requires
        items.len() == values.len(),
        forall|i: int|
            #![trigger items[i]]
            0 <= i < items.len() ==> items[i] == Ok::<T, ProgramError>(values[i]),
    ensures
        gathered(items) == Ok::<Seq<T>, ProgramError>(values),
    decreases items.len(),
{
    if items.len() > 0 {
        assert forall|i: int| #![trigger items.drop_last()[i]] 0 <= i < items.len()
            - 1 implies items.drop_last()[i] == Ok::<T, ProgramError>(values.drop_last()[i]) by {
            assert(items.drop_last()[i] == items[i]);
        }
        gathered_all(items.drop_last(), values.drop_last());
        assert(items.last() == Ok::<T, ProgramError>(values.last()));
        assert(values =~= values.drop_last().push(values.last()));
    } else {
        assert(values =~= Seq::empty());
    }
}

/// The error of a list of results is the first among them.
pub proof fn the_first_error_counts<T>(
    items: Seq<Result<T, ProgramError>>,
    k: int,
    e: ProgramError,
)
    requires
        0 <= k < items.len(),
        items[k] == Err::<T, ProgramError>(e),
        forall|i: int| 0 <= i < k ==> (#[trigger] items[i]) is Ok,
    ensures
        gathered(items) == Err::<Seq<T>, ProgramError>(e),
{
    let front = items.take(k);
    let values = Seq::new(k as nat, |i: int| items[i]->Ok_0);
    assert forall|i: int| #![trigger front[i]] 0 <= i < front.len() implies front[i] == Ok::<
        T,
        ProgramError,
    >(values[i]) by {
        assert(front[i] == items[i]);
    }
    gathered_all(front, values);
    lemma_gathered_step(items, k);
    lemma_gathered_error(items, k + 1);
}

} // verus!
