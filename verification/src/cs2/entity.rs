//! What the target's entity list holds.

pub mod player;
pub mod weapon;
