//! What a creep has set its mind on.

use vstd::prelude::*;

verus! {

/// The target a creep holds on to from tick to tick, by its id: objects of
/// the world go stale with the tick, ids do not.
#[derive(Clone, Copy, Debug, PartialEq, Eq, Structural)]
pub enum CreepGoal {
    Upgrade(u128),
    Harvest(u128),
}

} // verus!
