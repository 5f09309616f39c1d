//! The market-clearing oracle strategy marker.
//!
//! The oracle computes a Pareto-efficient two-good reallocation for a pair of
//! agents by bisection on the equilibrium price. That computation works on
//! real-valued quantities and so lives with the callers of this library; the
//! strategy it instantiates is identified here, so that alternative
//! equilibrium solvers can be substituted without touching the verified
//! search and scheduling logic.

use vstd::prelude::*;

verus! {

/// The built-in equilibrium solver: a Walrasian two-good exchange for
/// Cobb–Douglas preferences, solved by bisection on the price of the first
/// good with the second good as numeraire.
pub struct CobbDouglasWalrasOracle;

} // verus!
