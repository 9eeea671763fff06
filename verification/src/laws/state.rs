//! Reading a state.
use crate::arith::ArithError;
use crate::beacon_state::{BeaconState, BeaconStateError, StateModel};
use crate::chain_spec::ChainSpec;
use vstd::prelude::*;

verus! {

/// The model of a state holds all of its fields.
pub proof fn law_model_holds_every_field(state: BeaconState)
    ensures
        state@.fork_name == state.fork_name,
        state@.genesis_epoch == state.genesis_epoch,
        state@.current_epoch == state.current_epoch,
        state@.finalized_epoch == state.finalized_epoch,
        state@.validators == state.validators@,
        state@.balances == state.balances@,
        state@.slashings == state.slashings@,
        state@.inactivity_scores == state.inactivity_scores@,
{
}

/// One epoch goes before the current one, except at genesis.
pub proof fn law_previous_epoch_is_one_less(s: StateModel)
    ensures
        s.current_epoch > s.genesis_epoch ==> s.previous_epoch() + 1 == s.current_epoch,
        s.current_epoch <= s.genesis_epoch ==> s.previous_epoch() == s.current_epoch,
{
}

/// The chain leaks once the previous epoch is more than the allowed number of epochs past the
/// finalized one. Only a previous epoch before the finalized one cannot be judged.
pub proof fn law_leak_is_a_finality_delay(s: StateModel, previous_epoch: u64, spec: ChainSpec)
    ensures
        s.in_inactivity_leak(previous_epoch, spec) is Ok <==> s.finalized_epoch <= previous_epoch,
        s.finalized_epoch > previous_epoch ==> s.in_inactivity_leak(previous_epoch, spec) == Err::<
            bool,
            BeaconStateError,
        >(BeaconStateError::ArithError(ArithError::Overflow)),
        s.finalized_epoch <= previous_epoch ==> (s.in_inactivity_leak(previous_epoch, spec)->Ok_0
            <==> previous_epoch > s.finalized_epoch + spec.min_epochs_to_inactivity_penalty),
{
}

/// The ring keeps the sums of the current epoch and of as many before it as it is long, each
/// at the epoch's remainder by that length.
pub proof fn law_ring_keeps_recent_epochs(s: StateModel, epoch: u64)
    ensures
        s.slashings_of(epoch) is Ok <==> s.current_epoch - s.slashings.len() < epoch
            <= s.current_epoch,
        s.slashings_of(epoch) is Err ==> s.slashings_of(epoch)->Err_0
            == BeaconStateError::EpochOutOfBounds,
        s.slashings_of(epoch) is Ok <==> s.keeps_slashings_of(epoch),
        s.slashings_of(epoch) is Ok ==> {
            &&& 0 <= s.bucket(epoch) < s.slashings.len()
            &&& (epoch - s.bucket(epoch)) % s.slashings.len() as int == 0
            &&& s.slashings_of(epoch)->Ok_0 == s.slashings[epoch as int
                % s.slashings.len() as int]
        },
{
    if s.slashings.len() > 0 {
        let n = s.slashings.len() as int;
        let e = epoch as int;
        vstd::arithmetic::div_mod::lemma_fundamental_div_mod(e, n);
        vstd::arithmetic::div_mod::lemma_mod_bound(e, n);
        vstd::arithmetic::div_mod::lemma_mod_multiples_basic(e / n, n);
        assert(n * (e / n) == (e / n) * n) by (nonlinear_arith);
    }
}

/// Two epochs that the ring keeps do not share a sum.
pub proof fn law_kept_epochs_do_not_share_a_bucket(s: StateModel, epoch: u64, other: u64)
    requires
        s.keeps_slashings_of(epoch),
        s.keeps_slashings_of(other),
        epoch != other,
    ensures
        s.bucket(epoch) != s.bucket(other),
{
    let n = s.slashings.len() as int;
    let a = epoch as int;
    let b = other as int;
    if a % n == b % n {
        vstd::arithmetic::div_mod::lemma_fundamental_div_mod(a, n);
        vstd::arithmetic::div_mod::lemma_fundamental_div_mod(b, n);
        let k = a / n - b / n;
        assert(a - b == n * k) by (nonlinear_arith)
            requires
                a == n * (a / n) + a % n,
                b == n * (b / n) + b % n,
                a % n == b % n,
                k == a / n - b / n,
        ;
        assert(k == 0) by (nonlinear_arith)
            requires
                -n < n * k < n,
                n > 0,
        ;
        assert(a - b == 0) by (nonlinear_arith)
            requires
                a - b == n * k,
                k == 0,
        ;
    }
}

/// What was written to the ring for an epoch is read back, the sums of the other epochs that it
/// keeps are read as before, and so is the rest of the state. A write succeeds exactly where a
/// read does, and one that fails changes nothing.
pub proof fn law_ring_gives_back_what_was_written(s: StateModel, epoch: u64, value: u64, other: u64)
    ensures
        ({
            let (after, r) = s.with_slashings(epoch, value);
            &&& r is Ok <==> s.slashings_of(epoch) is Ok
            &&& r is Ok ==> after.slashings_of(epoch) == Ok::<u64, BeaconStateError>(value)
            &&& r is Err ==> after == s && r->Err_0 == BeaconStateError::EpochOutOfBounds
            &&& other != epoch ==> after.slashings_of(other) == s.slashings_of(other)
            &&& after.slashings.len() == s.slashings.len()
            &&& after == (StateModel { slashings: after.slashings, ..s })
        }),
{
    if s.slashings.len() > 0 {
        vstd::arithmetic::div_mod::lemma_mod_bound(epoch as int, s.slashings.len() as int);
        vstd::arithmetic::div_mod::lemma_mod_bound(other as int, s.slashings.len() as int);
    }
    if other != epoch && s.keeps_slashings_of(epoch) && s.keeps_slashings_of(other) {
        law_kept_epochs_do_not_share_a_bucket(s, epoch, other);
    }
}

/// A validator's inactivity score is the entry under its index, in every state but those of
/// the base fork.
pub proof fn law_inactivity_scores_are_by_index(s: StateModel, index: usize)
    ensures
        s.fork_name is Base ==> s.inactivity_score(index) == Err::<u64, BeaconStateError>(
            BeaconStateError::IncorrectStateVariant,
        ),
        !(s.fork_name is Base) && index < s.inactivity_scores.len() ==> s.inactivity_score(index)
            == Ok::<u64, BeaconStateError>(s.inactivity_scores[index as int]),
        !(s.fork_name is Base) && index >= s.inactivity_scores.len() ==> s.inactivity_score(index)
            == Err::<u64, BeaconStateError>(BeaconStateError::InactivityScoresOutOfBounds(index)),
{
}

} // verus!
