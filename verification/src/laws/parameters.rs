//! Which parameter holds at which fork.
use crate::chain_spec::{ChainSpec, ForkName};
use vstd::prelude::*;

verus! {

/// A state of the base fork and one of Altair have parameters of their own, and all later ones
/// have those of Bellatrix.
pub proof fn law_parameters_follow_the_fork(spec: ChainSpec, fork: ForkName)
    ensures
        fork is Base ==> {
            &&& spec.inactivity_quotient(fork) == spec.inactivity_penalty_quotient
            &&& spec.slashing_quotient(fork) == spec.min_slashing_penalty_quotient
            &&& spec.slashing_multiplier(fork) == spec.proportional_slashing_multiplier
        },
        fork is Altair ==> {
            &&& spec.inactivity_quotient(fork) == spec.inactivity_penalty_quotient_altair
            &&& spec.slashing_quotient(fork) == spec.min_slashing_penalty_quotient_altair
            &&& spec.slashing_multiplier(fork) == spec.proportional_slashing_multiplier_altair
        },
        fork is Merge || fork is Capella || fork is Deneb ==> {
            &&& spec.inactivity_quotient(fork) == spec.inactivity_penalty_quotient_bellatrix
            &&& spec.slashing_quotient(fork) == spec.min_slashing_penalty_quotient_bellatrix
            &&& spec.slashing_multiplier(fork) == spec.proportional_slashing_multiplier_bellatrix
        },
{
}

} // verus!
