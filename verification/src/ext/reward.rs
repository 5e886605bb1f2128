//! The reward actor.

use vstd::prelude::*;

verus! {

/// The method that updates the network's performance indicators.
pub const UPDATE_NETWORK_KPI: u64 = 4;

} // verus!
