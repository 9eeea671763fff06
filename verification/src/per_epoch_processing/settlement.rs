//! Settling balances one by one.
use crate::per_epoch_processing::errors::EpochProcessingError;
use vstd::prelude::*;

verus! {

/// The balances with entry `i`, where there is one, replaced by `balance`.
pub open spec fn with_balance(balances: Seq<u64>, i: int, balance: u64) -> Seq<u64> {
    if 0 <= i < balances.len() {
        balances.update(i, balance)
    } else {
        balances
    }
}

/// The balances after the first `k` of them have been settled.
pub open spec fn settled_up_to(
    before: Seq<u64>,
    step: spec_fn(int) -> Result<u64, EpochProcessingError>,
    k: int,
) -> Seq<u64> {
    Seq::new(
        before.len(),
        |j: int|
            if j < k {
                step(j)->Ok_0
            } else {
                before[j]
            },
    )
}

/// Whether settling `n` entries in order stops after the first `k`: all of them settle, and
/// the next one, if there is one, does not.
pub open spec fn stops_after(
    n: nat,
    step: spec_fn(int) -> Result<u64, EpochProcessingError>,
    k: int,
) -> bool {
    &&& 0 <= k <= n
    &&& forall|i: int| 0 <= i < k ==> (#[trigger] step(i)) is Ok
    &&& k < n ==> step(k) is Err
}

/// Whether `after` and `r` are what comes of settling `n` entries in order, where `step` says
/// what a balance becomes or why it cannot be settled. The first entry that cannot be
/// settled ends the settlement with its error, and what was settled before it stays.
pub open spec fn settled(
    before: Seq<u64>,
    n: nat,
    step: spec_fn(int) -> Result<u64, EpochProcessingError>,
    after: Seq<u64>,
    r: Result<(), EpochProcessingError>,
) -> bool {
    exists|k: int|
        {
            &&& #[trigger] stops_after(n, step, k)
            &&& after == settled_up_to(before, step, k)
            &&& r == if k < n {
                Err(step(k)->Err_0)
            } else {
                Ok(())
            }
        }
}

/// A settlement has one outcome.
pub proof fn law_settlement_is_determined(
    before: Seq<u64>,
    n: nat,
    step: spec_fn(int) -> Result<u64, EpochProcessingError>,
    after1: Seq<u64>,
    r1: Result<(), EpochProcessingError>,
    after2: Seq<u64>,
    r2: Result<(), EpochProcessingError>,
)
    requires
        settled(before, n, step, after1, r1),
        settled(before, n, step, after2, r2),
    ensures
        after1 == after2,
        r1 == r2,
{
    let k1 = choose|k: int|
        {
            &&& #[trigger] stops_after(n, step, k)
            &&& after1 == settled_up_to(before, step, k)
            &&& r1 == if k < n {
                Err(step(k)->Err_0)
            } else {
                Ok(())
            }
        };
    let k2 = choose|k: int|
        {
            &&& #[trigger] stops_after(n, step, k)
            &&& after2 == settled_up_to(before, step, k)
            &&& r2 == if k < n {
                Err(step(k)->Err_0)
            } else {
                Ok(())
            }
        };
    if k1 < k2 {
        assert(step(k1) is Ok);
    }
    if k2 < k1 {
        assert(step(k2) is Ok);
    }
}

/// A settlement succeeds exactly where every entry can be settled, and then all of them are.
pub proof fn law_settlement_succeeds(
    before: Seq<u64>,
    n: nat,
    step: spec_fn(int) -> Result<u64, EpochProcessingError>,
    after: Seq<u64>,
    r: Result<(), EpochProcessingError>,
)
    requires
        settled(before, n, step, after, r),
    ensures
        r is Ok <==> forall|i: int| 0 <= i < n ==> (#[trigger] step(i)) is Ok,
        r is Ok ==> after == settled_up_to(before, step, n as int),
{
}

} // verus!
