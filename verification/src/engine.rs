//! The swarmalator engine: ensemble state, validated construction, setters,
//! accessors, and the one-step explicit-Euler update.

use vstd::prelude::*;

use crate::bits::{
    abs_bits, is_finite_bits, is_nan_bits, spec_abs_bits, HALF_PI_BITS, NEG_ZERO, ONE_BITS,
    POS_ZERO, SIGN_MASK, TWO_BITS, TWO_PI_BITS,
};
use crate::scalar::{
    add_bits, cos_bits, d_of_usize, dadd, dcos, ddiv, div_bits, dmax, dmin, dmul, drem, dsin,
    dsqrt, dsub, max_bits, min_bits, mul_bits, rem_bits, sin_bits, sqrt_bits, sub_bits,
    usize_bits,
};

verus! {

/// The array whose length failed validation.
#[derive(Clone, Copy, Debug, PartialEq, Eq, Structural)]
pub enum Field {
    Positions,
    Phases,
    NaturalFrequencies,
    Chirality,
    Target,
}

/// A construction or setter failure: the named array's length broke its
/// invariant. No state is retained or mutated when this is returned.
#[derive(Clone, Copy, Debug, PartialEq, Eq, Structural)]
pub enum SwarmError {
    LengthMismatch(Field),
}

/// The mathematical state of an ensemble: every scalar is an IEEE-754 double
/// carried as its bit pattern.
#[verifier::ext_equal]
pub ghost struct State {
    pub agents: nat,
    /// Base attraction gain; 1.0 after construction.
    pub a: u64,
    /// Base repulsion gain; 1.0 after construction.
    pub b: u64,
    /// Phase-coupling gain.
    pub k: u64,
    /// Spatial-phase interaction gain, used when no target is set.
    pub j: u64,
    pub target: Option<Seq<u64>>,
    pub natural_frequencies: Seq<u64>,
    pub chiral: Option<Seq<u64>>,
    pub velocities: Seq<u64>,
    pub phases: Seq<u64>,
    pub delta_phases: Seq<u64>,
    pub positions: Seq<u64>,
}

impl State {
    /// The length invariants of the ensemble: interleaved planar arrays hold
    /// two entries per agent, per-agent arrays one, a target two in all.
    pub open spec fn wf(self) -> bool {
        &&& self.positions.len() == 2 * self.agents
        &&& self.velocities.len() == 2 * self.agents
        &&& self.phases.len() == self.agents
        &&& self.natural_frequencies.len() == self.agents
        &&& self.delta_phases.len() == self.agents
        &&& (self.chiral is Some ==> self.chiral->Some_0.len() == self.agents)
        &&& (self.target is Some ==> self.target->Some_0.len() == 2)
    }
}

/// The contents of an optional caller array.
pub open spec fn opt_view(o: Option<Vec<u64>>) -> Option<Seq<u64>> {
    match o {
        Option::Some(v) => Option::Some(v@),
        Option::None => Option::None,
    }
}

/// The first length invariant violated by the given construction inputs, in
/// the order the constructor checks them, or `None` when all hold.
pub open spec fn construction_error(
    agents: nat,
    positions_len: nat,
    phases_len: nat,
    nf_len: nat,
    chiral: Option<Seq<u64>>,
    target: Option<Seq<u64>>,
) -> Option<Field> {
    if positions_len != 2 * agents {
        Option::Some(Field::Positions)
    } else if phases_len != agents {
        Option::Some(Field::Phases)
    } else if nf_len != agents {
        Option::Some(Field::NaturalFrequencies)
    } else if chiral is Some && chiral->Some_0.len() != agents {
        Option::Some(Field::Chirality)
    } else if target is Some && target->Some_0.len() != 2 {
        Option::Some(Field::Target)
    } else {
        Option::None
    }
}

/// Euclidean distance between two planar points, as the doubles combine it:
/// sqrt of the sum of the squared coordinate differences.
pub open spec fn dist_bits(ax: u64, ay: u64, bx: u64, by: u64) -> u64 {
    sqrt_bits(
        add_bits(
            mul_bits(sub_bits(ax, bx), sub_bits(ax, bx)),
            mul_bits(sub_bits(ay, by), sub_bits(ay, by)),
        ),
    )
}

/// Distance from agent `i` to agent `j`, differences taken `i` minus `j` as
/// the pairwise pass computes them.
pub open spec fn pair_dist(s: State, i: int, j: int) -> u64 {
    dist_bits(
        s.positions[2 * i],
        s.positions[2 * i + 1],
        s.positions[2 * j],
        s.positions[2 * j + 1],
    )
}

/// Each agent's distance to the target point (meaningful when a target is
/// set).
pub open spec fn target_dists(s: State) -> Seq<u64> {
    Seq::new(
        s.agents,
        |i: int|
            dist_bits(
                s.positions[2 * i],
                s.positions[2 * i + 1],
                s.target->Some_0[0],
                s.target->Some_0[1],
            ),
    )
}

/// The seed of the running-extremum folds: the NaN that 0.0/0.0 yields.
pub open spec fn nan_seed() -> u64 {
    div_bits(POS_ZERO, POS_ZERO)
}

/// Running maximum over the distances, folded left with a NaN seed.
pub open spec fn fold_max(dists: Seq<u64>) -> u64 {
    dists.fold_left(nan_seed(), |m: u64, v: u64| max_bits(v, m))
}

/// Running minimum over the distances, folded left with a NaN seed.
pub open spec fn fold_min(dists: Seq<u64>) -> u64 {
    dists.fold_left(nan_seed(), |m: u64, v: u64| min_bits(v, m))
}

/// Per-agent spatial-phase coupling strengths. Without a target every agent
/// gets the global gain `j`. With a target, each agent's distance from the
/// nearest-ranked distance is rescaled by the spread, so the agent nearest
/// the target couples at zero and the farthest at the base gain `a`.
pub open spec fn js_seq(s: State) -> Seq<u64> {
    match s.target {
        Option::None => Seq::new(s.agents, |i: int| s.j),
        Option::Some(t) => {
            let dists = target_dists(s);
            let mx = fold_max(dists);
            let mn = fold_min(dists);
            Seq::new(
                s.agents,
                |i: int|
                    div_bits(
                        mul_bits(s.a, spec_abs_bits(sub_bits(dists[i], mn))),
                        sub_bits(mx, mn),
                    ),
            )
        },
    }
}

/// The velocity an agent has before pairwise terms: with chirality, a
/// fixed-magnitude vector orthogonal to the phase angle; otherwise rest.
pub open spec fn base_velocity(s: State, i: int) -> (u64, u64) {
    match s.chiral {
        Option::Some(c) => (
            mul_bits(c[i], cos_bits(add_bits(s.phases[i], HALF_PI_BITS))),
            mul_bits(c[i], sin_bits(add_bits(s.phases[i], HALF_PI_BITS))),
        ),
        Option::None => (POS_ZERO, POS_ZERO),
    }
}

/// x / |x|, the sign-unit a natural frequency contributes (a NaN when the
/// frequency is a zero).
pub open spec fn sign_unit(x: u64) -> u64 {
    div_bits(x, spec_abs_bits(x))
}

/// Frequency-direction offset of the spatial cosine: pi/2 times the
/// magnitude of the sign-unit difference of the pair's natural frequencies,
/// active only under chirality.
pub open spec fn freq_diff_xy(s: State, i: int, j: int) -> u64 {
    if s.chiral is Some {
        mul_bits(
            HALF_PI_BITS,
            spec_abs_bits(
                sub_bits(sign_unit(s.natural_frequencies[j]), sign_unit(s.natural_frequencies[i])),
            ),
        )
    } else {
        POS_ZERO
    }
}

/// Frequency-direction offset of the phase sine: half the spatial offset.
pub open spec fn freq_diff_phase(s: State, i: int, j: int) -> u64 {
    if s.chiral is Some {
        div_bits(freq_diff_xy(s, i, j), TWO_BITS)
    } else {
        POS_ZERO
    }
}

/// One axis of agent `j`'s spatial contribution to agent `i`'s velocity:
/// attraction along the unit offset scaled by the phase-similarity gain,
/// minus inverse-square repulsion.
pub open spec fn vel_contrib(s: State, js_i: u64, i: int, j: int, axis: int) -> u64 {
    let dx = sub_bits(s.positions[2 * j + axis], s.positions[2 * i + axis]);
    let dist = pair_dist(s, i, j);
    let cosv = cos_bits(sub_bits(sub_bits(s.phases[j], s.phases[i]), freq_diff_xy(s, i, j)));
    sub_bits(
        mul_bits(div_bits(dx, dist), add_bits(s.a, mul_bits(js_i, cosv))),
        div_bits(mul_bits(s.b, dx), mul_bits(dist, dist)),
    )
}

/// The double the agent count converts to.
pub open spec fn agents_bits(s: State) -> u64 {
    usize_bits(s.agents as usize)
}

/// 1.0 divided by the agent count, the pairwise velocity weight.
pub open spec fn inv_agents(s: State) -> u64 {
    div_bits(ONE_BITS, agents_bits(s))
}

/// Agent `j`'s contribution to agent `i`'s phase velocity: the gain `k`
/// over the agent count, times the sine of the offset phase difference,
/// over the pair distance.
pub open spec fn phase_contrib(s: State, i: int, j: int) -> u64 {
    div_bits(
        mul_bits(
            div_bits(s.k, agents_bits(s)),
            sin_bits(sub_bits(sub_bits(s.phases[j], s.phases[i]), freq_diff_phase(s, i, j))),
        ),
        pair_dist(s, i, j),
    )
}

/// Agent `i`'s accumulated (velocity x, velocity y, phase velocity) after
/// folding the contributions of agents `0..jmax`, skipping `i` itself, in
/// ascending order - the summation order is part of the definition, since
/// double addition does not reassociate.
pub open spec fn derivs_upto(s: State, js_i: u64, i: int, jmax: int) -> (u64, u64, u64)
    decreases jmax,
{
    if jmax <= 0 {
        (base_velocity(s, i).0, base_velocity(s, i).1, s.natural_frequencies[i])
    } else {
        let prev = derivs_upto(s, js_i, i, jmax - 1);
        let j = jmax - 1;
        if j == i {
            prev
        } else {
            (
                add_bits(prev.0, mul_bits(inv_agents(s), vel_contrib(s, js_i, i, j, 0))),
                add_bits(prev.1, mul_bits(inv_agents(s), vel_contrib(s, js_i, i, j, 1))),
                add_bits(prev.2, phase_contrib(s, i, j)),
            )
        }
    }
}

/// Agent `i`'s full derivatives for one step: all other agents folded in.
pub open spec fn derivs(s: State, i: int) -> (u64, u64, u64) {
    derivs_upto(s, js_seq(s)[i], i, s.agents as int)
}

/// Entry `q` of the recomputed interleaved velocity array.
pub open spec fn vel_entry(s: State, q: int) -> u64 {
    if q % 2 == 0 {
        derivs(s, q / 2).0
    } else {
        derivs(s, q / 2).1
    }
}

/// Agent `i`'s phase after integration: the old phase plus its phase
/// velocity times `dt`, wrapped by the floating remainder against 2*pi
/// (signed: the result follows the dividend's sign).
pub open spec fn new_phase(s: State, dt: u64, i: int) -> u64 {
    rem_bits(add_bits(s.phases[i], mul_bits(derivs(s, i).2, dt)), TWO_PI_BITS)
}

/// Entry `q` of the position array after integration.
pub open spec fn new_position(s: State, dt: u64, q: int) -> u64 {
    add_bits(s.positions[q], mul_bits(vel_entry(s, q), dt))
}

/// Inputs on which a zero-`dt` step provably leaves phases and positions
/// bit-identical: every phase finite, already wrapped and not -0.0, every
/// position coordinate neither a NaN nor -0.0, and the derivatives the step
/// recomputes all finite. (Outside these, the doubles themselves move: a
/// phase at or beyond 2*pi is re-wrapped, and -0.0 plus +0.0 is +0.0.)
pub open spec fn zero_step_benign(s: State, dt: u64) -> bool {
    &&& dt == POS_ZERO
    &&& forall|p: int|
        0 <= p < s.agents ==> is_finite_bits(#[trigger] s.phases[p]) && spec_abs_bits(s.phases[p])
            < TWO_PI_BITS && s.phases[p] != NEG_ZERO
    &&& forall|p: int| 0 <= p < s.agents ==> is_finite_bits((#[trigger] derivs(s, p)).2)
    &&& forall|q: int|
        0 <= q < 2 * s.agents ==> !is_nan_bits(#[trigger] s.positions[q]) && s.positions[q]
            != NEG_ZERO
    &&& forall|q: int| 0 <= q < 2 * s.agents ==> is_finite_bits(#[trigger] vel_entry(s, q))
}

/// A two-agent ensemble without chirality whose agents sit on the same
/// finite coordinates with equal finite phases, with finite gains: the
/// pairwise pass then divides by a zero distance.
pub open spec fn coincident_pair(s: State) -> bool {
    &&& s.agents == 2
    &&& s.chiral is None
    &&& s.positions[0] == s.positions[2]
    &&& s.positions[1] == s.positions[3]
    &&& (forall|q: int| 0 <= q < 4 ==> is_finite_bits(#[trigger] s.positions[q]))
    &&& s.phases[0] == s.phases[1]
    &&& is_finite_bits(s.phases[0])
    &&& is_finite_bits(s.phases[1])
    &&& is_finite_bits(s.k)
    &&& is_finite_bits(s.b)
}

/// Target geometries on which the coupling rescale is provably the linear
/// ramp the step intends: a target is set, there is at least one agent, the
/// base gain is 1.0, every distance to the target is finite, and the spread
/// between the extreme distances is finite, positive and nonzero. (Outside
/// these - all agents equidistant, or a NaN distance - the rescale divides
/// by zero or propagates the NaN.)
pub open spec fn target_spread_regular(s: State) -> bool {
    &&& s.target is Some
    &&& s.agents > 0
    &&& s.a == ONE_BITS
    &&& forall|p: int| 0 <= p < s.agents ==> is_finite_bits(#[trigger] target_dists(s)[p])
    &&& is_finite_bits(sub_bits(fold_max(target_dists(s)), fold_min(target_dists(s))))
    &&& sub_bits(fold_max(target_dists(s)), fold_min(target_dists(s))) & SIGN_MASK == 0
    &&& sub_bits(fold_max(target_dists(s)), fold_min(target_dists(s))) != POS_ZERO
}

/// The whole state one update step advances to: velocities and phase
/// velocities recomputed from the pre-step state alone, then phases and
/// positions stepped by explicit Euler. Parameters and optional fields are
/// untouched.
pub open spec fn update_spec(s: State, dt: u64) -> State {
    State {
        velocities: Seq::new(2 * s.agents, |q: int| vel_entry(s, q)),
        delta_phases: Seq::new(s.agents, |i: int| derivs(s, i).2),
        phases: Seq::new(s.agents, |i: int| new_phase(s, dt, i)),
        positions: Seq::new(2 * s.agents, |q: int| new_position(s, dt, q)),
        ..s
    }
}

/// One agent phase stepped by explicit Euler and wrapped: the result is
/// always either a NaN or strictly inside (-2*pi, 2*pi). A zero `dt` hands a
/// finite, already-wrapped, non-(-0.0) phase back unchanged when the phase
/// velocity is finite; a NaN phase velocity makes the phase a NaN.
fn integrate_phase(ph: u64, dphi: u64, dt: u64) -> (r: u64)
    ensures
        r == rem_bits(add_bits(ph, mul_bits(dphi, dt)), TWO_PI_BITS),
        is_nan_bits(r) || (is_finite_bits(r) && spec_abs_bits(r) < TWO_PI_BITS),
        dt == POS_ZERO && is_finite_bits(ph) && spec_abs_bits(ph) < TWO_PI_BITS && ph != NEG_ZERO
            && is_finite_bits(dphi) ==> r == ph,
        is_nan_bits(dphi) ==> is_nan_bits(r),
{
    drem(dadd(ph, dmul(dphi, dt)), TWO_PI_BITS)
}

/// One position coordinate stepped by explicit Euler. A zero `dt` hands a
/// non-NaN, non-(-0.0) coordinate back unchanged when the velocity is
/// finite; a NaN velocity makes the coordinate a NaN.
fn integrate_position(pos: u64, vel: u64, dt: u64) -> (r: u64)
    ensures
        r == add_bits(pos, mul_bits(vel, dt)),
        dt == POS_ZERO && is_finite_bits(vel) && !is_nan_bits(pos) && pos != NEG_ZERO ==> r
            == pos,
        is_nan_bits(vel) ==> is_nan_bits(r),
{
    dadd(pos, dmul(vel, dt))
}

/// A swarmalator ensemble, advanced one explicit-Euler step per `update`
/// call. Scalars are IEEE-754 doubles carried as `u64` bit patterns.
pub struct Swarmalator {
    agents: usize,
    a: u64,
    b: u64,
    k: u64,
    j: u64,
    target: Option<Vec<u64>>,
    natural_frequencies: Vec<u64>,
    chiral: Option<Vec<u64>>,
    velocities: Vec<u64>,
    phases: Vec<u64>,
    delta_phases: Vec<u64>,
    positions: Vec<u64>,
}

impl View for Swarmalator {
    type V = State;

    closed spec fn view(&self) -> State {
        State {
            agents: self.agents as nat,
            a: self.a,
            b: self.b,
            k: self.k,
            j: self.j,
            target: opt_view(self.target),
            natural_frequencies: self.natural_frequencies@,
            chiral: opt_view(self.chiral),
            velocities: self.velocities@,
            phases: self.phases@,
            delta_phases: self.delta_phases@,
            positions: self.positions@,
        }
    }
}

impl Swarmalator {
    /// Builds an ensemble from validated initial arrays. Every length
    /// invariant is checked, in a fixed order; the first violated one is
    /// returned as a `LengthMismatch` naming the field, and nothing is
    /// constructed. On success the agents start at rest (velocities and
    /// phase velocities all +0.0), the gains `A` and `B` are 1.0, and the
    /// caller's arrays are taken over as given.
    #[allow(non_snake_case)]
    pub fn new(
        agents: usize,
        positions: Vec<u64>,
        phases: Vec<u64>,
        natural_frequencies: Vec<u64>,
        K: u64,
        J: u64,
        chiral: Option<Vec<u64>>,
        target: Option<Vec<u64>>,
    ) -> (r: Result<Swarmalator, SwarmError>)
        ensures
            ({
                let err = construction_error(
                    agents as nat,
                    positions@.len(),
                    phases@.len(),
                    natural_frequencies@.len(),
                    opt_view(chiral),
                    opt_view(target),
                );
                match err {
                    Option::Some(f) => r == Err::<Swarmalator, SwarmError>(
                        SwarmError::LengthMismatch(f),
                    ),
                    Option::None => r is Ok && ({
                        let s = r->Ok_0@;
                        &&& s.agents == agents as nat
                        &&& s.a == ONE_BITS
                        &&& s.b == ONE_BITS
                        &&& s.k == K
                        &&& s.j == J
                        &&& s.positions == positions@
                        &&& s.phases == phases@
                        &&& s.natural_frequencies == natural_frequencies@
                        &&& s.chiral == opt_view(chiral)
                        &&& s.target == opt_view(target)
                        &&& s.velocities == Seq::new(2 * (agents as nat), |q: int| POS_ZERO)
                        &&& s.delta_phases == Seq::new(agents as nat, |i: int| POS_ZERO)
                        &&& s.wf()
                    }),
                }
            }),
    {
        let plen = positions.len();
        if agents > usize::MAX / 2 {
            // positions can never hold 2 * agents entries
            proof {
                assert(2 * (agents as nat) > usize::MAX as nat);
            }
            return Err(SwarmError::LengthMismatch(Field::Positions));
        }
        let two_n = 2 * agents;
        if plen != two_n {
            return Err(SwarmError::LengthMismatch(Field::Positions));
        }
        if phases.len() != agents {
            return Err(SwarmError::LengthMismatch(Field::Phases));
        }
        if natural_frequencies.len() != agents {
            return Err(SwarmError::LengthMismatch(Field::NaturalFrequencies));
        }
        if let Option::Some(c) = &chiral {
            if c.len() != agents {
                return Err(SwarmError::LengthMismatch(Field::Chirality));
            }
        }
        if let Option::Some(t) = &target {
            if t.len() != 2 {
                return Err(SwarmError::LengthMismatch(Field::Target));
            }
        }
        let mut velocities: Vec<u64> = Vec::new();
        let mut q: usize = 0;
        while q < two_n
            invariant
                q <= two_n,
                velocities@.len() == q as nat,
                forall|p: int| 0 <= p < q ==> velocities@[p] == POS_ZERO,
            decreases two_n - q,
        {
            velocities.push(POS_ZERO);
            q += 1;
        }
        let mut delta_phases: Vec<u64> = Vec::new();
        let mut i: usize = 0;
        while i < agents
            invariant
                i <= agents,
                delta_phases@.len() == i as nat,
                forall|p: int| 0 <= p < i ==> delta_phases@[p] == POS_ZERO,
            decreases agents - i,
        {
            delta_phases.push(POS_ZERO);
            i += 1;
        }
        proof {
            assert(velocities@ =~= Seq::new(2 * (agents as nat), |q: int| POS_ZERO));
            assert(delta_phases@ =~= Seq::new(agents as nat, |i: int| POS_ZERO));
        }
        Ok(
            Swarmalator {
                agents,
                a: ONE_BITS,
                b: ONE_BITS,
                k: K,
                j: J,
                target,
                natural_frequencies,
                chiral,
                velocities,
                phases,
                delta_phases,
                positions,
            },
        )
    }

    /// Read-only view of the interleaved positions array.
    pub fn positions(&self) -> (r: &Vec<u64>)
        ensures
            r@ == self@.positions,
    {
        &self.positions
    }

    /// Read-only view of the phases array.
    pub fn phases(&self) -> (r: &Vec<u64>)
        ensures
            r@ == self@.phases,
    {
        &self.phases
    }

    /// Read-only view of the interleaved velocities array.
    pub fn velocities(&self) -> (r: &Vec<u64>)
        ensures
            r@ == self@.velocities,
    {
        &self.velocities
    }

    /// The per-agent coupling strengths the next step will use: the global
    /// gain for every agent when no target is set; with a target, each
    /// agent's distance from the nearest-ranked one rescaled by the spread.
    ///
    /// On regular target geometry the ramp's ends are pinned: some agent
    /// attains the minimum distance and some the maximum, every agent at the
    /// minimum couples at exactly +0.0, and every agent at the maximum at
    /// exactly 1.0, the base gain.
    pub fn coupling_strengths(&self) -> (r: Vec<u64>)
        requires
            self@.wf(),
        ensures
            r@ == js_seq(self@),
            target_spread_regular(self@) ==> ({
                let dists = target_dists(self@);
                let mn = fold_min(dists);
                let mx = fold_max(dists);
                &&& (exists|p: int| 0 <= p < self@.agents && #[trigger] dists[p] == mn)
                &&& (exists|p: int| 0 <= p < self@.agents && #[trigger] dists[p] == mx)
                &&& (forall|p: int|
                    0 <= p < self@.agents && #[trigger] dists[p] == mn ==> r@[p] == POS_ZERO)
                &&& (forall|p: int|
                    0 <= p < self@.agents && #[trigger] dists[p] == mx ==> r@[p] == ONE_BITS)
            }),
    {
        let n = self.agents;
        let mut js: Vec<u64> = Vec::new();
        match &self.target {
            Option::None => {
                let mut i: usize = 0;
                while i < n
                    invariant
                        i <= n,
                        self@.target is None,
                        n == self@.agents,
                        js@.len() == i as nat,
                        forall|p: int| 0 <= p < i ==> js@[p] == self@.j,
                    decreases n - i,
                {
                    js.push(self.j);
                    i += 1;
                }
                proof {
                    assert(js@ =~= js_seq(self@));
                }
            },
            Option::Some(t) => {
                let plen: usize = self.positions.len();
                let mut dists: Vec<u64> = Vec::new();
                let mut i: usize = 0;
                while i < n
                    invariant
                        i <= n,
                        plen == self@.positions.len(),
                        self@.wf(),
                        self@.target is Some,
                        t@ == self@.target->Some_0,
                        t@.len() == 2,
                        n == self@.agents,
                        dists@.len() == i as nat,
                        forall|p: int| 0 <= p < i ==> dists@[p] == target_dists(self@)[p],
                    decreases n - i,
                {
                    let dx = dsub(self.positions[2 * i], t[0]);
                    let dy = dsub(self.positions[2 * i + 1], t[1]);
                    let d = dsqrt(dadd(dmul(dx, dx), dmul(dy, dy)));
                    dists.push(d);
                    i += 1;
                }
                proof {
                    assert(dists@ =~= target_dists(self@));
                }
                let seed = ddiv(POS_ZERO, POS_ZERO);
                let mut mx = seed;
                let mut mn = seed;
                let mut k: usize = 0;
                while k < n
                    invariant
                        k <= n,
                        n == dists@.len(),
                        dists@ == target_dists(self@),
                        mx == fold_max(dists@.take(k as int)),
                        mn == fold_min(dists@.take(k as int)),
                        is_nan_bits(nan_seed()),
                        (forall|p: int| 0 <= p < n ==> !is_nan_bits(#[trigger] dists@[p])) ==> ((
                        k == 0 && is_nan_bits(mx) && is_nan_bits(mn)) || ((exists|p: int|
                            0 <= p < k && #[trigger] dists@[p] == mx) && (exists|p: int|
                            0 <= p < k && #[trigger] dists@[p] == mn) && !is_nan_bits(mx)
                            && !is_nan_bits(mn))),
                    decreases n - k,
                {
                    proof {
                        assert(dists@.take(k + 1).drop_last() =~= dists@.take(k as int));
                        assert(dists@.take(k + 1).last() == dists@[k as int]);
                    }
                    mx = dmax(dists[k], mx);
                    mn = dmin(dists[k], mn);
                    k += 1;
                }
                proof {
                    assert(dists@.take(n as int) =~= dists@);
                }
                let spread = dsub(mx, mn);
                let mut i: usize = 0;
                while i < n
                    invariant
                        i <= n,
                        self@.wf(),
                        self@.target is Some,
                        n == self@.agents,
                        n == dists@.len(),
                        dists@ == target_dists(self@),
                        mx == fold_max(target_dists(self@)),
                        mn == fold_min(target_dists(self@)),
                        spread == sub_bits(mx, mn),
                        js@.len() == i as nat,
                        forall|p: int| 0 <= p < i ==> js@[p] == js_seq(self@)[p],
                        target_spread_regular(self@) ==> (forall|p: int|
                            0 <= p < i && #[trigger] dists@[p] == mn ==> js@[p] == POS_ZERO) && (
                        forall|p: int|
                            0 <= p < i && #[trigger] dists@[p] == mx ==> js@[p] == ONE_BITS),
                    decreases n - i,
                {
                    let scaled = dmul(self.a, abs_bits(dsub(dists[i], mn)));
                    let val = ddiv(scaled, spread);
                    proof {
                        if target_spread_regular(self@) {
                            crate::bits::lemma_zero_bits();
                            crate::bits::lemma_abs_of_nonneg(spread);
                            assert(is_finite_bits(target_dists(self@)[i as int]));
                            if dists@[i as int] == mn {
                                assert(val == POS_ZERO);
                            }
                            if dists@[i as int] == mx {
                                assert(val == ONE_BITS);
                            }
                        }
                    }
                    js.push(val);
                    i += 1;
                }
                proof {
                    assert(js@ =~= js_seq(self@));
                }
            },
        }
        js
    }

    /// Agent `i`'s (velocity x, velocity y, phase velocity) for one step:
    /// the base term plus every other agent's contribution, folded in
    /// ascending order of the other agent's index.
    fn derivs_at(&self, js_i: u64, inv_n: u64, nb: u64, i: usize) -> (r: (u64, u64, u64))
        requires
            self@.wf(),
            i < self@.agents,
            inv_n == inv_agents(self@),
            nb == agents_bits(self@),
            self@.agents == 2 ==> nb == TWO_BITS,
        ensures
            r == derivs_upto(self@, js_i, i as int, self@.agents as int),
            coincident_pair(self@) ==> is_nan_bits(r.0) && is_nan_bits(r.1) && is_nan_bits(r.2),
    {
        let n = self.agents;
        let plen: usize = self.positions.len();
        proof {
            assert(self@.agents == n as nat);
        }
        let (mut vx, mut vy): (u64, u64) = match &self.chiral {
            Option::Some(c) => {
                let ang = dadd(self.phases[i], HALF_PI_BITS);
                (dmul(c[i], dcos(ang)), dmul(c[i], dsin(ang)))
            },
            Option::None => (POS_ZERO, POS_ZERO),
        };
        let mut dphi = self.natural_frequencies[i];
        proof {
            assert((vx, vy, dphi) == derivs_upto(self@, js_i, i as int, 0));
        }
        let mut j: usize = 0;
        while j < n
            invariant
                j <= n,
                plen == self@.positions.len(),
                self@.wf(),
                i < self@.agents,
                n == self@.agents,
                inv_n == inv_agents(self@),
                nb == agents_bits(self@),
                self@.agents == 2 ==> nb == TWO_BITS,
                (vx, vy, dphi) == derivs_upto(self@, js_i, i as int, j as int),
                coincident_pair(self@) ==> ((i == 0 && j >= 2) || (i == 1 && j >= 1)
                    ==> is_nan_bits(vx) && is_nan_bits(vy) && is_nan_bits(dphi)),
            decreases n - j,
        {
            if j != i {
                let dix = dsub(self.positions[2 * i], self.positions[2 * j]);
                let diy = dsub(self.positions[2 * i + 1], self.positions[2 * j + 1]);
                let dist = dsqrt(dadd(dmul(dix, dix), dmul(diy, diy)));
                let djx = dsub(self.positions[2 * j], self.positions[2 * i]);
                let djy = dsub(self.positions[2 * j + 1], self.positions[2 * i + 1]);
                let (fdxy, fdp): (u64, u64) = match &self.chiral {
                    Option::Some(_) => {
                        let su_j = ddiv(
                            self.natural_frequencies[j],
                            abs_bits(self.natural_frequencies[j]),
                        );
                        let su_i = ddiv(
                            self.natural_frequencies[i],
                            abs_bits(self.natural_frequencies[i]),
                        );
                        let f = dmul(HALF_PI_BITS, abs_bits(dsub(su_j, su_i)));
                        (f, ddiv(f, TWO_BITS))
                    },
                    Option::None => (POS_ZERO, POS_ZERO),
                };
                let cosv = dcos(dsub(dsub(self.phases[j], self.phases[i]), fdxy));
                let gain = dadd(self.a, dmul(js_i, cosv));
                let cx = dsub(dmul(ddiv(djx, dist), gain), ddiv(dmul(self.b, djx), dmul(dist, dist)));
                let cy = dsub(dmul(ddiv(djy, dist), gain), ddiv(dmul(self.b, djy), dmul(dist, dist)));
                vx = dadd(vx, dmul(inv_n, cx));
                vy = dadd(vy, dmul(inv_n, cy));
                let sinv = dsin(dsub(dsub(self.phases[j], self.phases[i]), fdp));
                let pc = ddiv(dmul(ddiv(self.k, nb), sinv), dist);
                dphi = dadd(dphi, pc);
                proof {
                    if coincident_pair(self@) {
                        crate::bits::lemma_zero_bits();
                        assert(self@.positions[2 * i as int] == self@.positions[2 * j as int]);
                        assert(self@.positions[2 * i as int + 1] == self@.positions[
                            2 * j as int + 1
                        ]);
                        assert(dix == POS_ZERO);
                        assert(diy == POS_ZERO);
                        assert(dist == POS_ZERO);
                        assert(djx == POS_ZERO);
                        assert(djy == POS_ZERO);
                        assert(is_nan_bits(cx));
                        assert(is_nan_bits(cy));
                        assert(is_nan_bits(vx));
                        assert(is_nan_bits(vy));
                        assert(sinv == POS_ZERO);
                        assert(is_nan_bits(pc));
                        assert(is_nan_bits(dphi));
                    }
                    assert((vx, vy, dphi) == derivs_upto(self@, js_i, i as int, j + 1));
                }
            } else {
                proof {
                    assert((vx, vy, dphi) == derivs_upto(self@, js_i, i as int, j + 1));
                }
            }
            j += 1;
        }
        (vx, vy, dphi)
    }

    /// Advances the ensemble by one explicit-Euler step of `dt` (a double
    /// given as its bit pattern). Velocities and phase velocities are
    /// recomputed from scratch out of the pre-step positions and phases
    /// alone; then each phase gains its phase velocity times `dt` and is
    /// wrapped by the signed floating remainder against 2*pi, and each
    /// position coordinate gains its velocity times `dt`. Parameters, the
    /// target and chirality are untouched. The step never fails: degenerate
    /// geometry silently yields non-finite doubles, as the combination
    /// rules dictate.
    ///
    /// Three laws of the step are part of the contract. Every phase left
    /// behind is a NaN or lies strictly inside (-2*pi, 2*pi). A zero step on
    /// benign state leaves phases and positions bit-identical even though
    /// the derivatives are recomputed. A coincident pair of agents yields
    /// non-finite velocities and phase velocities, and the step carries
    /// them into the positions and phases.
    pub fn update(&mut self, dt: u64)
        requires
            old(self)@.wf(),
        ensures
            final(self)@ == update_spec(old(self)@, dt),
            final(self)@.wf(),
            forall|p: int|
                0 <= p < final(self)@.phases.len() ==> is_nan_bits(
                    #[trigger] final(self)@.phases[p],
                ) || (is_finite_bits(final(self)@.phases[p]) && spec_abs_bits(
                    final(self)@.phases[p],
                ) < TWO_PI_BITS),
            zero_step_benign(old(self)@, dt) ==> final(self)@.phases == old(self)@.phases
                && final(self)@.positions == old(self)@.positions,
            coincident_pair(old(self)@) ==> (forall|q: int|
                0 <= q < 4 ==> is_nan_bits(#[trigger] final(self)@.velocities[q]) && is_nan_bits(
                    final(self)@.positions[q],
                )) && (forall|p: int|
                0 <= p < 2 ==> is_nan_bits(#[trigger] final(self)@.delta_phases[p])
                    && is_nan_bits(final(self)@.phases[p])),
    {
        let ghost s0 = self@;
        let n = self.agents;
        let js = self.coupling_strengths();
        let nb = d_of_usize(n);
        let inv_n = ddiv(ONE_BITS, nb);
        let mut new_vel: Vec<u64> = Vec::new();
        let mut new_dphi: Vec<u64> = Vec::new();
        let mut i: usize = 0;
        while i < n
            invariant
                i <= n,
                self@ == s0,
                s0.wf(),
                n == s0.agents,
                js@ == js_seq(s0),
                nb == agents_bits(s0),
                inv_n == inv_agents(s0),
                s0.agents == 2 ==> nb == TWO_BITS,
                new_vel@.len() == 2 * i as nat,
                new_dphi@.len() == i as nat,
                forall|q: int| 0 <= q < 2 * i ==> new_vel@[q] == vel_entry(s0, q),
                forall|p: int| 0 <= p < i ==> new_dphi@[p] == derivs(s0, p).2,
                coincident_pair(s0) ==> (forall|q: int|
                    0 <= q < 2 * i ==> is_nan_bits(#[trigger] new_vel@[q])) && (forall|p: int|
                    0 <= p < i ==> is_nan_bits(#[trigger] new_dphi@[p])),
            decreases n - i,
        {
            let d = self.derivs_at(js[i], inv_n, nb, i);
            proof {
                assert(d == derivs(s0, i as int));
                assert(vel_entry(s0, 2 * i as int) == derivs(s0, i as int).0);
                assert(vel_entry(s0, 2 * i as int + 1) == derivs(s0, i as int).1);
            }
            new_vel.push(d.0);
            new_vel.push(d.1);
            new_dphi.push(d.2);
            i += 1;
        }
        let mut new_ph: Vec<u64> = Vec::new();
        let mut new_pos: Vec<u64> = Vec::new();
        let plen: usize = self.positions.len();
        let mut i: usize = 0;
        while i < n
            invariant
                i <= n,
                self@ == s0,
                plen == s0.positions.len(),
                s0.wf(),
                n == s0.agents,
                new_vel@.len() == 2 * n as nat,
                new_dphi@.len() == n as nat,
                forall|q: int| 0 <= q < 2 * n ==> new_vel@[q] == vel_entry(s0, q),
                forall|p: int| 0 <= p < n ==> new_dphi@[p] == derivs(s0, p).2,
                new_ph@.len() == i as nat,
                new_pos@.len() == 2 * i as nat,
                forall|p: int| 0 <= p < i ==> new_ph@[p] == new_phase(s0, dt, p),
                forall|q: int| 0 <= q < 2 * i ==> new_pos@[q] == new_position(s0, dt, q),
                forall|p: int|
                    0 <= p < i ==> is_nan_bits(#[trigger] new_ph@[p]) || (is_finite_bits(
                        new_ph@[p],
                    ) && spec_abs_bits(new_ph@[p]) < TWO_PI_BITS),
                zero_step_benign(s0, dt) ==> (forall|p: int|
                    0 <= p < i ==> #[trigger] new_ph@[p] == s0.phases[p]) && (forall|q: int|
                    0 <= q < 2 * i ==> #[trigger] new_pos@[q] == s0.positions[q]),
                coincident_pair(s0) ==> (forall|q: int|
                    0 <= q < 2 * n ==> is_nan_bits(#[trigger] new_vel@[q])) && (forall|p: int|
                    0 <= p < n ==> is_nan_bits(#[trigger] new_dphi@[p])) && (forall|p: int|
                    0 <= p < i ==> is_nan_bits(#[trigger] new_ph@[p])) && (forall|q: int|
                    0 <= q < 2 * i ==> is_nan_bits(#[trigger] new_pos@[q])),
            decreases n - i,
        {
            let ph = integrate_phase(self.phases[i], new_dphi[i], dt);
            let px = integrate_position(self.positions[2 * i], new_vel[2 * i], dt);
            let py = integrate_position(self.positions[2 * i + 1], new_vel[2 * i + 1], dt);
            proof {
                assert(vel_entry(s0, 2 * i as int) == derivs(s0, i as int).0);
                assert(vel_entry(s0, 2 * i as int + 1) == derivs(s0, i as int).1);
            }
            new_ph.push(ph);
            new_pos.push(px);
            new_pos.push(py);
            i += 1;
        }
        self.velocities = new_vel;
        self.delta_phases = new_dphi;
        self.phases = new_ph;
        self.positions = new_pos;
        proof {
            assert(self@.velocities =~= update_spec(s0, dt).velocities);
            assert(self@.delta_phases =~= update_spec(s0, dt).delta_phases);
            assert(self@.phases =~= update_spec(s0, dt).phases);
            assert(self@.positions =~= update_spec(s0, dt).positions);
            assert(self@ =~= update_spec(s0, dt));
            if zero_step_benign(s0, dt) {
                assert(self@.phases =~= s0.phases);
                assert(self@.positions =~= s0.positions);
            }
        }
    }

    /// Replaces the target point. The new array must hold exactly two
    /// entries; otherwise nothing changes and the mismatch names the field.
    pub fn set_target(&mut self, target: Vec<u64>) -> (r: Result<(), SwarmError>)
        ensures
            target@.len() == 2 ==> r == Ok::<(), SwarmError>(()) && final(self)@ == (State {
                target: Option::Some(target@),
                ..old(self)@
            }),
            target@.len() != 2 ==> r == Err::<(), SwarmError>(
                SwarmError::LengthMismatch(Field::Target),
            ) && final(self)@ == old(self)@,
            old(self)@.wf() ==> final(self)@.wf(),
    {
        if target.len() != 2 {
            return Err(SwarmError::LengthMismatch(Field::Target));
        }
        self.target = Option::Some(target);
        Ok(())
    }

    /// Sets the phase-coupling gain; always succeeds.
    #[allow(non_snake_case)]
    pub fn set_K(&mut self, K: u64)
        ensures
            final(self)@ == (State { k: K, ..old(self)@ }),
            old(self)@.wf() ==> final(self)@.wf(),
    {
        self.k = K;
    }

    /// Sets the spatial-phase interaction gain; always succeeds.
    #[allow(non_snake_case)]
    pub fn set_J(&mut self, J: u64)
        ensures
            final(self)@ == (State { j: J, ..old(self)@ }),
            old(self)@.wf() ==> final(self)@.wf(),
    {
        self.j = J;
    }

    /// Replaces or clears the chirality array. A present array must hold one
    /// entry per agent; otherwise nothing changes and the mismatch names the
    /// field.
    pub fn set_chiral(&mut self, chiral: Option<Vec<u64>>) -> (r: Result<(), SwarmError>)
        ensures
            (opt_view(chiral) is Some && opt_view(chiral)->Some_0.len() != old(self)@.agents)
                ==> r == Err::<(), SwarmError>(SwarmError::LengthMismatch(Field::Chirality))
                && final(self)@ == old(self)@,
            !(opt_view(chiral) is Some && opt_view(chiral)->Some_0.len() != old(self)@.agents)
                ==> r == Ok::<(), SwarmError>(()) && final(self)@ == (State {
                chiral: opt_view(chiral),
                ..old(self)@
            }),
            old(self)@.wf() ==> final(self)@.wf(),
    {
        if let Option::Some(c) = &chiral {
            if c.len() != self.agents {
                return Err(SwarmError::LengthMismatch(Field::Chirality));
            }
        }
        self.chiral = chiral;
        Ok(())
    }

    /// Replaces the natural frequencies. The array must hold one entry per
    /// agent; otherwise nothing changes and the mismatch names the field.
    pub fn set_natural_frequencies(&mut self, natural_frequencies: Vec<u64>) -> (r: Result<
        (),
        SwarmError,
    >)
        ensures
            natural_frequencies@.len() == old(self)@.agents ==> r == Ok::<(), SwarmError>(())
                && final(self)@ == (State {
                natural_frequencies: natural_frequencies@,
                ..old(self)@
            }),
            natural_frequencies@.len() != old(self)@.agents ==> r == Err::<(), SwarmError>(
                SwarmError::LengthMismatch(Field::NaturalFrequencies),
            ) && final(self)@ == old(self)@,
            old(self)@.wf() ==> final(self)@.wf(),
    {
        if natural_frequencies.len() != self.agents {
            return Err(SwarmError::LengthMismatch(Field::NaturalFrequencies));
        }
        self.natural_frequencies = natural_frequencies;
        Ok(())
    }

    /// Replaces the phases. The array must hold one entry per agent;
    /// otherwise nothing changes and the mismatch names the field.
    pub fn set_phases(&mut self, phases: Vec<u64>) -> (r: Result<(), SwarmError>)
        ensures
            phases@.len() == old(self)@.agents ==> r == Ok::<(), SwarmError>(()) && final(self)@
                == (State { phases: phases@, ..old(self)@ }),
            phases@.len() != old(self)@.agents ==> r == Err::<(), SwarmError>(
                SwarmError::LengthMismatch(Field::Phases),
            ) && final(self)@ == old(self)@,
            old(self)@.wf() ==> final(self)@.wf(),
    {
        if phases.len() != self.agents {
            return Err(SwarmError::LengthMismatch(Field::Phases));
        }
        self.phases = phases;
        Ok(())
    }
}

} // verus!
