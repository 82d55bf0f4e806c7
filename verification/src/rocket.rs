//! The rocket's steering: a fixed-point integrator for its yaw angle, and the
//! steering specification shared with the field integrator.
//!
//! All quantities are fixed-point integers in thousandths of a unit: angles in
//! milliradians, speeds in milliunits per second, times in milliseconds.

use vstd::prelude::*;
use crate::units::{abs_val, lemma_mul_le, DT_MAX, PARAM_CAP};

verus! {

/// The largest yaw magnitude the rocket can reach: the steering bound plus
/// one frame's worth of overshoot.
pub const ROTATION_CAP: i64 = 20_000_000;

/// How the rocket steers: turn rate, top lateral speed of the field, and the
/// yaw at which steering input stops turning it further.
pub struct RocketSpecs {
    pub steering_speed: i64,
    pub max_x_velocity: i64,
    pub max_steering_angle: i64,
}

impl RocketSpecs {
    pub open spec fn wf(self) -> bool {
        &&& 0 <= self.steering_speed <= PARAM_CAP
        &&& 0 <= self.max_x_velocity <= PARAM_CAP
        &&& 1 <= self.max_steering_angle <= PARAM_CAP
    }
}

/// The rocket: its current yaw, in milliradians, positive when turned left.
pub struct Rocket {
    pub y_rotation: i64,
}

impl Rocket {
    pub open spec fn wf(self) -> bool {
        -ROTATION_CAP <= self.y_rotation <= ROTATION_CAP
    }
}

/// The yaw after one frame: steering input turns the rocket until its yaw
/// passes the steering bound; with no input the yaw decays toward zero and
/// snaps to zero rather than overshooting.
pub open spec fn spec_steer_rocket(
    y: int,
    dt: int,
    specs: RocketSpecs,
    left: bool,
    right: bool,
) -> int {
    let a = dt * specs.steering_speed / 1000;
    if left {
        if y >= specs.max_steering_angle {
            y
        } else {
            y + a
        }
    } else if right {
        if y <= -specs.max_steering_angle {
            y
        } else {
            y - a
        }
    } else {
        if y == 0 {
            y
        } else if abs_val(y) < a {
            0
        } else if y > 0 {
            y - a
        } else {
            y + a
        }
    }
}

impl Rocket {
    /// Turns the rocket for one frame according to the steering intent.
    pub fn steer_rocket(&mut self, dt: u64, specs: &RocketSpecs, left: bool, right: bool)
        requires
            old(self).wf(),
            specs.wf(),
            dt <= DT_MAX,
        ensures
            final(self).y_rotation == spec_steer_rocket(
                old(self).y_rotation as int,
                dt as int,
                *specs,
                left,
                right,
            ),
            final(self).wf(),
    {
        proof {
            lemma_mul_le(dt as int, specs.steering_speed as int, DT_MAX as int, PARAM_CAP as int);
        }
        let a: i64 = (dt as i64) * specs.steering_speed / 1000;
        let y = self.y_rotation;
        if left {
            if y >= specs.max_steering_angle {
            } else {
                self.y_rotation = y + a;
            }
        } else if right {
            if y <= -specs.max_steering_angle {
            } else {
                self.y_rotation = y - a;
            }
        } else {
            let mag: i64 = if y >= 0 {
                y
            } else {
                -y
            };
            if y == 0 {
            } else if mag < a {
                self.y_rotation = 0;
            } else if y > 0 {
                self.y_rotation = y - a;
            } else {
                self.y_rotation = y + a;
            }
        }
    }
}

} // verus!
