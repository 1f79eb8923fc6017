//! Laws of the update step that relate several of its pieces, stated over
//! the same spec functions the step's own contract uses.

use vstd::prelude::*;

use crate::bits::{HALF_PI_BITS, POS_ZERO, TWO_PI_BITS};
use crate::engine::{base_velocity, derivs, derivs_upto, js_seq, update_spec, State};
use crate::scalar::{add_bits, cos_bits, mul_bits, rem_bits, sin_bits};

verus! {

/// A single agent has no pairwise interaction. One update step leaves its
/// velocity at the base term alone - rest, (+0.0, +0.0), without chirality,
/// and the fixed-speed orbital term with it - and its phase velocity is
/// exactly its natural frequency, so its phase advances by the frequency
/// times `dt` and is wrapped, nothing more.
pub proof fn lemma_single_agent(s: State, dt: u64)
    requires
        s.wf(),
        s.agents == 1,
    ensures
        update_spec(s, dt).delta_phases == seq![s.natural_frequencies[0]],
        update_spec(s, dt).velocities == seq![base_velocity(s, 0).0, base_velocity(s, 0).1],
        s.chiral is None ==> update_spec(s, dt).velocities == seq![POS_ZERO, POS_ZERO],
        s.chiral matches Some(c) ==> update_spec(s, dt).velocities == seq![
            mul_bits(c[0], cos_bits(add_bits(s.phases[0], HALF_PI_BITS))),
            mul_bits(c[0], sin_bits(add_bits(s.phases[0], HALF_PI_BITS))),
        ],
        update_spec(s, dt).phases == seq![
            rem_bits(add_bits(s.phases[0], mul_bits(s.natural_frequencies[0], dt)), TWO_PI_BITS),
        ],
{
    assert(derivs_upto(s, js_seq(s)[0], 0, 1) == derivs_upto(s, js_seq(s)[0], 0, 0));
    assert(derivs(s, 0) == (
        base_velocity(s, 0).0,
        base_velocity(s, 0).1,
        s.natural_frequencies[0],
    ));
    assert(update_spec(s, dt).delta_phases =~= seq![s.natural_frequencies[0]]);
    assert(update_spec(s, dt).velocities =~= seq![
        base_velocity(s, 0).0,
        base_velocity(s, 0).1,
    ]);
    assert(update_spec(s, dt).phases =~= seq![
        rem_bits(add_bits(s.phases[0], mul_bits(s.natural_frequencies[0], dt)), TWO_PI_BITS),
    ]);
}

} // verus!
