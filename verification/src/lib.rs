//! A verified model of a forward-scrolling asteroid field: a seeded placement
//! routine spawns rings of asteroids ahead of a rocket, a per-frame integrator
//! steers the field laterally and scrolls it forward, a sweep removes rings
//! that have passed the camera, and a small state machine gates it all.

pub mod asteroids;
pub mod gamedata;
pub mod gamestate;
pub mod rng;
pub mod rocket;
pub mod sim;
pub mod units;
