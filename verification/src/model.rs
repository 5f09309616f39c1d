//! Configuration-level types and checks shared by the simulation core.

use vstd::prelude::*;

verus! {

/// How candidate good-pairs are chosen in each peer-to-peer encounter.
#[derive(Clone, Copy, Debug, PartialEq, Eq, Structural)]
pub enum PairingMode {
    /// Evaluate every good against the numeraire good only.
    AgainstBase,
    /// Evaluate all ordered pairs of goods within a pruned candidate set of
    /// bounded size, plus the numeraire good.
    AllPairsPruned,
}

impl Default for PairingMode {
    fn default() -> (mode: Self)
        ensures
            mode == PairingMode::AgainstBase,
    {
        PairingMode::AgainstBase
    }
}

/// Default size of the pruned candidate-goods set.
pub fn default_candidate_goods_k() -> (k: usize)
    ensures
        k == 12,
{
    12
}

/// Checks the goods roster against its separately declared count. A valid
/// configuration names at least two goods, exactly as many as declared;
/// anything else is a fatal configuration error, caught before any
/// simulation runs.
pub fn goods_roster_ok(goods: &Vec<String>, declared_count: usize) -> (ok: bool)
    ensures
        ok == (goods@.len() >= 2 && goods@.len() == declared_count),
{
    goods.len() >= 2 && goods.len() == declared_count
}

} // verus!
