//! Movement plans and how close they bring a creep to its destination.

use vstd::prelude::*;

verus! {

/// How close to its destination a movement has to bring a creep.
#[derive(Clone, Copy, Debug, PartialEq, Eq, Structural)]
pub enum MovementDistance {
    /// Onto the destination tile itself.
    At,
    /// Onto any tile that touches the destination.
    Near,
}

/// One waypoint of a path, as the path finder reports it.
#[derive(Clone, Copy, Debug, PartialEq, Eq, Structural)]
pub struct Step {
    pub x: u32,
    pub y: u32,
    pub dx: i32,
    pub dy: i32,
    pub direction: u8,
}

/// A movement plan together with the distance it was computed for.
#[derive(Clone, Debug, PartialEq, Eq)]
pub struct CreepPath {
    pub steps: Vec<Step>,
    pub distance: MovementDistance,
}

/// The waypoints that are kept of a freshly found path: all of them to stand
/// on the destination, all but the last to stop next to it.
pub open spec fn kept_steps(steps: Seq<Step>, distance: MovementDistance) -> Seq<Step> {
    match distance {
        MovementDistance::At => steps,
        MovementDistance::Near => if steps.len() > 0 {
            steps.drop_last()
        } else {
            steps
        },
    }
}

impl CreepPath {
    /// Turns the waypoints the path finder returned into the plan to cache.
    pub fn determine(steps: Vec<Step>, distance: MovementDistance) -> (path: CreepPath)
        ensures
            path.distance == distance,
            path.steps@ == kept_steps(steps@, distance),
    {
        let mut steps = steps;
        match distance {
            MovementDistance::At => {},
            MovementDistance::Near => {
                steps.pop();
            },
        }
        CreepPath { steps, distance }
    }
}

} // verus!
