//! What an epoch owes to and by a validator.
use crate::arith::{fit_u128, wide_add, ArithError};
use crate::per_epoch_processing::errors::{of_arith, EpochProcessingError};
use vstd::prelude::*;

verus! {

/// The rewards and the penalties of one validator.
#[derive(Clone, Copy, Debug, PartialEq, Eq, Structural)]
pub struct Delta {
    pub rewards: u128,
    pub penalties: u128,
}

/// A delta that owes nothing.
pub open spec fn no_delta() -> Delta {
    Delta { rewards: 0, penalties: 0 }
}

/// `d` and `other` together, and whether they fit. The rewards are added first; rewards that
/// fit stay added where the penalties do not fit.
pub open spec fn combined(d: Delta, other: Delta) -> (Delta, Result<(), ArithError>) {
    match fit_u128(d.rewards + other.rewards) {
        Err(e) => (d, Err(e)),
        Ok(rewards) => match fit_u128(d.penalties + other.penalties) {
            Err(e) => (Delta { rewards, penalties: d.penalties }, Err(e)),
            Ok(penalties) => (Delta { rewards, penalties }, Ok(())),
        },
    }
}

impl Default for Delta {
    fn default() -> (d: Self)
        ensures
            d == no_delta(),
    {
        Delta { rewards: 0, penalties: 0 }
    }
}

impl Delta {
    /// Adds a reward.
    pub fn reward(&mut self, reward: u128) -> (r: Result<(), ArithError>)
        ensures
            match fit_u128(old(self).rewards + reward) {
                Ok(rewards) => {
                    &&& r == Ok::<(), ArithError>(())
                    &&& *final(self) == (Delta { rewards, ..*old(self) })
                },
                Err(e) => r == Err::<(), _>(e) && *final(self) == *old(self),
            },
    {
        self.rewards = wide_add(self.rewards, reward)?;
        Ok(())
    }

    /// Adds a penalty.
    pub fn penalize(&mut self, penalty: u128) -> (r: Result<(), ArithError>)
        ensures
            match fit_u128(old(self).penalties + penalty) {
                Ok(penalties) => {
                    &&& r == Ok::<(), ArithError>(())
                    &&& *final(self) == (Delta { penalties, ..*old(self) })
                },
                Err(e) => r == Err::<(), _>(e) && *final(self) == *old(self),
            },
    {
        self.penalties = wide_add(self.penalties, penalty)?;
        Ok(())
    }

    /// Adds the rewards and the penalties of `other`.
    pub fn combine(&mut self, other: Delta) -> (r: Result<(), ArithError>)
        ensures
            (*final(self), r) == combined(*old(self), other),
    {
        self.reward(other.rewards)?;
        self.penalize(other.penalties)
    }
}

/// The deltas after each validator in `indices`, in order, has been given what `owed` says,
/// and how that went. The first one that fails ends it, and what was added before it stays.
pub open spec fn accumulated(
    deltas: Seq<Delta>,
    indices: Seq<usize>,
    owed: spec_fn(usize) -> Result<Delta, EpochProcessingError>,
) -> (Seq<Delta>, Result<(), EpochProcessingError>)
    decreases indices.len(),
{
    if indices.len() == 0 {
        (deltas, Ok(()))
    } else {
        let (so_far, r) = accumulated(deltas, indices.drop_last(), owed);
        if r is Err {
            (so_far, r)
        } else {
            given(so_far, indices.last(), owed(indices.last()))
        }
    }
}

/// The deltas after validator `index` has been given `owed`, and how that went.
pub open spec fn given(
    deltas: Seq<Delta>,
    index: usize,
    owed: Result<Delta, EpochProcessingError>,
) -> (Seq<Delta>, Result<(), EpochProcessingError>) {
    match owed {
        Err(e) => (deltas, Err(e)),
        Ok(delta) => if index >= deltas.len() {
            (deltas, Err(EpochProcessingError::DeltaOutOfBounds(index)))
        } else {
            let (sum, r) = combined(deltas[index as int], delta);
            (deltas.update(index as int, sum), of_arith(r))
        },
    }
}

/// An accumulation keeps the number of deltas.
pub proof fn lemma_accumulated_len(
    deltas: Seq<Delta>,
    indices: Seq<usize>,
    owed: spec_fn(usize) -> Result<Delta, EpochProcessingError>,
)
    ensures
        accumulated(deltas, indices, owed).0.len() == deltas.len(),
    decreases indices.len(),
{
    if indices.len() > 0 {
        lemma_accumulated_len(deltas, indices.drop_last(), owed);
    }
}

/// An accumulation, whether it succeeds or not, leaves the deltas of validators that are not
/// in it.
pub proof fn lemma_absent_is_unchanged(
    deltas: Seq<Delta>,
    indices: Seq<usize>,
    owed: spec_fn(usize) -> Result<Delta, EpochProcessingError>,
    index: usize,
)
    requires
        !indices.contains(index),
        index < deltas.len(),
    ensures
        accumulated(deltas, indices, owed).0.len() == deltas.len(),
        accumulated(deltas, indices, owed).0[index as int] == deltas[index as int],
    decreases indices.len(),
{
    lemma_accumulated_len(deltas, indices, owed);
    if indices.len() > 0 {
        assert(indices.contains(indices.last()));
        assert forall|j: int| 0 <= j < indices.drop_last().len() implies indices.drop_last()[j]
            != index by {
            assert(indices.contains(indices[j]));
        }
        lemma_absent_is_unchanged(deltas, indices.drop_last(), owed, index);
    }
}

/// One step of an accumulation, and that a failure ends it.
pub proof fn lemma_accumulated_next(
    deltas: Seq<Delta>,
    indices: Seq<usize>,
    i: int,
    owed: spec_fn(usize) -> Result<Delta, EpochProcessingError>,
)
    requires
        0 <= i < indices.len(),
        accumulated(deltas, indices.take(i), owed).1 is Ok,
    ensures
        accumulated(deltas, indices.take(i + 1), owed) == given(
            accumulated(deltas, indices.take(i), owed).0,
            indices[i],
            owed(indices[i]),
        ),
        accumulated(deltas, indices.take(i + 1), owed).1 is Err ==> accumulated(
            deltas,
            indices,
            owed,
        ) == accumulated(deltas, indices.take(i + 1), owed),
{
    assert(indices.take(i + 1).drop_last() =~= indices.take(i));
    if accumulated(deltas, indices.take(i + 1), owed).1 is Err {
        lemma_accumulation_ends(deltas, indices, i + 1, owed);
    }
}

/// After a failure nothing more is added.
proof fn lemma_accumulation_ends(
    deltas: Seq<Delta>,
    indices: Seq<usize>,
    i: int,
    owed: spec_fn(usize) -> Result<Delta, EpochProcessingError>,
)
    requires
        0 <= i <= indices.len(),
        accumulated(deltas, indices.take(i), owed).1 is Err,
    ensures
        accumulated(deltas, indices, owed) == accumulated(deltas, indices.take(i), owed),
    decreases indices.len(),
{
    if i == indices.len() {
        assert(indices.take(i) =~= indices);
    } else {
        assert(indices.drop_last().take(i) =~= indices.take(i));
        lemma_accumulation_ends(deltas, indices.drop_last(), i, owed);
    }
}

/// Whether validator `index` can be given what it is owed.
pub open spec fn can_be_given(
    deltas: Seq<Delta>,
    index: usize,
    owed: spec_fn(usize) -> Result<Delta, EpochProcessingError>,
) -> bool {
    &&& owed(index) is Ok
    &&& index < deltas.len()
    &&& combined(deltas[index as int], owed(index)->Ok_0).1 is Ok
}

/// An accumulation over distinct validators succeeds exactly where each of them can be given
/// what it is owed. Then each of them has been given that, once, and no other delta has
/// changed; the order of the validators makes no difference.
pub proof fn law_each_is_given_what_it_is_owed(
    deltas: Seq<Delta>,
    indices: Seq<usize>,
    owed: spec_fn(usize) -> Result<Delta, EpochProcessingError>,
)
    requires
        indices.no_duplicates(),
    ensures
        accumulated(deltas, indices, owed).1 is Ok <==> (forall|j: int|
            0 <= j < indices.len() ==> can_be_given(deltas, #[trigger] indices[j], owed)),
        accumulated(deltas, indices, owed).0.len() == deltas.len(),
        accumulated(deltas, indices, owed).1 is Ok ==> (forall|i: int|
            0 <= i < deltas.len() ==> #[trigger] accumulated(deltas, indices, owed).0[i] == if (
            exists|j: int| 0 <= j < indices.len() && indices[j] == i) {
                combined(deltas[i], owed(i as usize)->Ok_0).0
            } else {
                deltas[i]
            }),
    decreases indices.len(),
{
    lemma_accumulated_len(deltas, indices, owed);
    if indices.len() > 0 {
        let front = indices.drop_last();
        let last = indices.last();
        law_each_is_given_what_it_is_owed(deltas, front, owed);
        let so_far = accumulated(deltas, front, owed);
        assert(forall|j: int| 0 <= j < front.len() ==> front[j] == indices[j]);
        if so_far.1 is Ok {
            assert(forall|j: int| 0 <= j < front.len() ==> front[j] != last);
            if last < deltas.len() {
                assert(so_far.0[last as int] == deltas[last as int]);
            }
            assert(given(so_far.0, last, owed(last)).1 is Ok <==> can_be_given(
                deltas,
                last,
                owed,
            ));
            if given(so_far.0, last, owed(last)).1 is Ok {
                assert forall|i: int| 0 <= i < deltas.len() implies #[trigger] accumulated(
                    deltas,
                    indices,
                    owed,
                ).0[i] == if (exists|j: int| 0 <= j < indices.len() && indices[j] == i) {
                    combined(deltas[i], owed(i as usize)->Ok_0).0
                } else {
                    deltas[i]
                } by {
                    if i == last {
                        assert(indices[indices.len() - 1] == i);
                    } else {
                        assert(accumulated(deltas, indices, owed).0[i] == so_far.0[i]);
                        if exists|j: int| 0 <= j < indices.len() && indices[j] == i {
                            let j = choose|j: int| 0 <= j < indices.len() && indices[j] == i;
                            assert(front[j] == i);
                        }
                    }
                }
            }
        } else {
            let j = choose|j: int|
                0 <= j < front.len() && !can_be_given(deltas, #[trigger] front[j], owed);
            assert(!can_be_given(deltas, indices[j], owed));
        }
    }
}

} // verus!
