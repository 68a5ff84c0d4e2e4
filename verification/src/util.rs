//! Helpers shared by the managers and the creep actions.

pub mod path;
pub mod position;
pub mod screeps;
pub mod search;
