//! Adding up what is owed.
use crate::arith::ArithError;
use crate::per_epoch_processing::delta::{accumulated, combined, no_delta, Delta};
use crate::per_epoch_processing::errors::EpochProcessingError;
use vstd::prelude::*;

verus! {

/// Combining adds rewards to rewards and penalties to penalties. It fails exactly where a sum
/// does not fit; rewards that fit stay added then.
pub proof fn law_combining_adds(d: Delta, other: Delta)
    ensures
        ({
            let (sum, r) = combined(d, other);
            let rewards = d.rewards + other.rewards;
            let penalties = d.penalties + other.penalties;
            &&& r is Ok <==> rewards <= u128::MAX && penalties <= u128::MAX
            &&& r is Err ==> r->Err_0 == ArithError::Overflow
            &&& rewards <= u128::MAX ==> sum.rewards == rewards
            &&& rewards > u128::MAX ==> sum.rewards == d.rewards
            &&& r is Ok ==> sum.penalties == penalties
            &&& r is Err ==> sum.penalties == d.penalties
        }),
{
}

/// Combining with an empty delta changes nothing.
pub proof fn law_nothing_adds_nothing(d: Delta)
    ensures
        no_delta().rewards == 0,
        no_delta().penalties == 0,
        combined(d, no_delta()) == (d, Ok::<(), ArithError>(())),
{
}

/// An accumulation over nobody changes nothing. One that goes on to one more validator adds what
/// that validator is owed to its delta and touches no other, however often the validator has
/// been before; and after a failure it adds nothing more.
pub proof fn law_each_in_turn_is_given_what_it_is_owed(
    deltas: Seq<Delta>,
    indices: Seq<usize>,
    index: usize,
    owed: spec_fn(usize) -> Result<Delta, EpochProcessingError>,
)
    ensures
        accumulated(deltas, Seq::<usize>::empty(), owed) == (
            deltas,
            Ok::<(), EpochProcessingError>(()),
        ),
        ({
            let (before, r) = accumulated(deltas, indices, owed);
            let (after, r2) = accumulated(deltas, indices.push(index), owed);
            let i = index as int;
            if r is Err {
                after == before && r2 == r
            } else if owed(index) is Err {
                after == before && r2 == Err::<(), _>(owed(index)->Err_0)
            } else if index >= before.len() {
                after == before && r2 == Err::<(), _>(EpochProcessingError::DeltaOutOfBounds(index))
            } else {
                let rewards = before[i].rewards + owed(index)->Ok_0.rewards;
                let penalties = before[i].penalties + owed(index)->Ok_0.penalties;
                &&& after.len() == before.len()
                &&& forall|j: int|
                    0 <= j < before.len() && j != i ==> #[trigger] after[j] == before[j]
                &&& r2 is Ok <==> rewards <= u128::MAX && penalties <= u128::MAX
                &&& r2 is Err ==> r2->Err_0 == EpochProcessingError::ArithError(
                    ArithError::Overflow,
                )
                &&& r2 is Ok ==> after[i].rewards == rewards && after[i].penalties == penalties
                &&& r2 is Err ==> after[i].penalties == before[i].penalties
                &&& r2 is Err && rewards <= u128::MAX ==> after[i].rewards == rewards
                &&& r2 is Err && rewards > u128::MAX ==> after[i].rewards == before[i].rewards
            }
        }),
{
    assert(indices.push(index).drop_last() =~= indices);
}

} // verus!
