//! Simulation scheduling: deterministic pseudorandom pairing of agents.
//!
//! A simulation run performs a fixed number of rounds, each with a fixed
//! number of peer-to-peer encounters. For every encounter two distinct agent
//! indices are drawn from a seeded generator; the whole pairing plan for a
//! run is produced here, in encounter order, so that the caller only walks
//! it. The generator used for pairing is seeded independently from the
//! generator used for agent initialization.

use vstd::arithmetic::div_mod::lemma_div_is_ordered;
use vstd::arithmetic::div_mod::lemma_fundamental_div_mod_converse;
use vstd::prelude::*;

verus! {

/// How many resamples a pair draw may spend on collisions before it falls
/// back to the nearest distinct index. The fallback is deterministic, so a
/// run stays reproducible either way.
pub const PAIR_RESAMPLE_BUDGET: u32 = 1000000;

/// One planned peer-to-peer encounter: the round it belongs to and the two
/// distinct agents that meet.
#[derive(Clone, Copy, Debug, PartialEq, Eq, Structural)]
pub struct Encounter {
    /// Index of the round this encounter belongs to.
    pub round: usize,
    /// Index of the first agent of the pair.
    pub i: usize,
    /// Index of the second agent of the pair; always distinct from `i`.
    pub j: usize,
}

#[verifier::external_type_specification]
#[verifier::external_body]
pub struct ExStdRng(rand::rngs::StdRng);

/// Relies on rand's `Rng::gen_range`, here over the non-empty range
/// `0..n`: the sample lies strictly below `n`. Nothing more is relied on
/// about which value comes out.
#[verifier::external_body]
fn rand_below(rng: &mut rand::rngs::StdRng, n: usize) -> (draw: usize)
    requires
        n > 0,
    ensures
        draw < n,
{
    rand::Rng::gen_range(rng, 0..n)
}

/// The seed of the in-loop pairing generator, derived from the configured
/// seed so that initialization draws and pairing draws come from two
/// independent streams: changing round or encounter counts does not perturb
/// initialization.
pub fn pairing_seed(seed: u64) -> (derived: u64)
    ensures
        derived == seed ^ 0xA5A5_A5A5_A5A5_A5A5u64,
{
    seed ^ 0xA5A5_A5A5_A5A5_A5A5u64
}

/// Draws two distinct agent indices below `num_agents`, resampling the
/// second index on a collision with the first.
pub fn draw_distinct_pair(rng: &mut rand::rngs::StdRng, num_agents: usize) -> (pair: (
    usize,
    usize,
))
    requires
        num_agents >= 2,
    ensures
        pair.0 < num_agents,
        pair.1 < num_agents,
        pair.0 != pair.1,
{
    let i = rand_below(rng, num_agents);
    let mut j = rand_below(rng, num_agents);
    let mut budget: u32 = PAIR_RESAMPLE_BUDGET;
    while j == i && budget > 0
        invariant
            i < num_agents,
            j < num_agents,
            num_agents >= 2,
        decreases budget,
    {
        j = rand_below(rng, num_agents);
        budget = budget - 1;
    }
    if j == i {
        // The resample budget ran out on an unbroken run of collisions; the
        // nearest distinct index keeps the draw total and deterministic.
        j = if i + 1 < num_agents {
            i + 1
        } else {
            0
        };
    }
    (i, j)
}

/// What the pairing plan of a run looks like: one entry per encounter of the
/// run, in encounter order. Entry `t` belongs to round
/// `t / encounters_per_round`, so rounds come in order with exactly
/// `encounters_per_round` encounters apiece, and every entry pairs two
/// distinct agent indices below `num_agents`.
pub open spec fn valid_schedule(
    plan: Seq<Encounter>,
    num_agents: int,
    rounds: int,
    encounters_per_round: int,
) -> bool {
    &&& plan.len() == rounds * encounters_per_round
    &&& forall|t: int| #![trigger plan[t]]
        0 <= t < plan.len() ==> {
            &&& plan[t].round as int == t / encounters_per_round
            &&& (plan[t].i as int) < num_agents
            &&& (plan[t].j as int) < num_agents
            &&& plan[t].i != plan[t].j
        }
}

/// Two pairing plans for the same shape of run have the same length and
/// place every encounter in the same round: the generator only chooses who
/// meets, never when. This is the part of run-to-run reproducibility that
/// does not rest on the generator itself.
pub proof fn lemma_schedule_round_structure(
    plan1: Seq<Encounter>,
    plan2: Seq<Encounter>,
    num_agents: int,
    rounds: int,
    encounters_per_round: int,
)
    requires
        valid_schedule(plan1, num_agents, rounds, encounters_per_round),
        valid_schedule(plan2, num_agents, rounds, encounters_per_round),
    ensures
        plan1.len() == plan2.len(),
        forall|t: int| #![trigger plan1[t], plan2[t]]
            0 <= t < plan1.len() ==> plan1[t].round == plan2[t].round,
{
}

/// Along a pairing plan the round index never decreases: trade events are
/// recorded in round order.
pub proof fn lemma_schedule_rounds_ordered(
    plan: Seq<Encounter>,
    num_agents: int,
    rounds: int,
    encounters_per_round: int,
)
    requires
        0 <= encounters_per_round,
        valid_schedule(plan, num_agents, rounds, encounters_per_round),
    ensures
        forall|s: int, t: int| #![trigger plan[s], plan[t]]
            0 <= s <= t < plan.len() ==> plan[s].round <= plan[t].round,
{
    assert forall|s: int, t: int| #![trigger plan[s], plan[t]]
        0 <= s <= t < plan.len() implies plan[s].round <= plan[t].round by {
        if encounters_per_round > 0 {
            lemma_div_is_ordered(s, t, encounters_per_round);
        } else {
            assert(rounds * encounters_per_round == 0) by (nonlinear_arith)
                requires
                    encounters_per_round == 0,
            ;
        }
    }
}

/// Plans every encounter of a simulation run: `rounds` rounds of
/// `encounters_per_round` pairings each, drawn in order from the given
/// generator.
pub fn encounter_schedule(
    rng: &mut rand::rngs::StdRng,
    num_agents: usize,
    rounds: usize,
    encounters_per_round: usize,
) -> (plan: Vec<Encounter>)
    requires
        num_agents >= 2 || rounds == 0 || encounters_per_round == 0,
    ensures
        valid_schedule(plan@, num_agents as int, rounds as int, encounters_per_round as int),
{
    let mut plan: Vec<Encounter> = Vec::new();
    for round in 0..rounds
        invariant
            num_agents >= 2 || rounds == 0 || encounters_per_round == 0,
            plan@.len() == (round as int) * (encounters_per_round as int),
            forall|t: int| #![trigger plan@[t]]
                0 <= t < plan@.len() ==> {
                    &&& plan@[t].round as int == t / (encounters_per_round as int)
                    &&& plan@[t].i < num_agents
                    &&& plan@[t].j < num_agents
                    &&& plan@[t].i != plan@[t].j
                },
    {
        for enc in 0..encounters_per_round
            invariant
                num_agents >= 2 || encounters_per_round == 0,
                round < rounds,
                plan@.len() == (round as int) * (encounters_per_round as int) + (enc as int),
                forall|t: int| #![trigger plan@[t]]
                    0 <= t < plan@.len() ==> {
                        &&& plan@[t].round as int == t / (encounters_per_round as int)
                        &&& plan@[t].i < num_agents
                        &&& plan@[t].j < num_agents
                        &&& plan@[t].i != plan@[t].j
                    },
        {
            let pair = draw_distinct_pair(rng, num_agents);
            proof {
                lemma_fundamental_div_mod_converse(
                    (round as int) * (encounters_per_round as int) + (enc as int),
                    encounters_per_round as int,
                    round as int,
                    enc as int,
                );
            }
            plan.push(Encounter { round, i: pair.0, j: pair.1 });
        }
        proof {
            assert((round as int + 1) * (encounters_per_round as int) == (round as int) * (
            encounters_per_round as int) + (encounters_per_round as int)) by (nonlinear_arith);
        }
    }
    plan
}

} // verus!
