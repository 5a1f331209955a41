//! Velocities and how they are steered and integrated.

use crate::vector::{lemma_capped_not_longer, lemma_product_bound, Vec3};
use vstd::prelude::*;

verus! {

/// The velocity a body moves with, in thousandths of a unit per second.
#[derive(Clone, Copy, Debug, PartialEq, Eq, Structural)]
pub struct Velocity(pub Vec3);

/// How a body is steered: the velocity it wants, how fast it may change its
/// velocity (per second, per second) and how fast it may go.
#[derive(Clone, Copy, Debug, PartialEq, Eq, Structural)]
pub struct WalkController {
    pub target_velocity: Vec3,
    pub acceleration: u32,
    pub max_speed: u32,
}

/// The acceleration used for a velocity error of length `error`: the
/// controller's own, but no more than a hundred times the error, so that a
/// small error is not overshot.
pub open spec fn acceleration_for(acceleration: int, error: int) -> int {
    if acceleration <= error * 100 {
        acceleration
    } else {
        error * 100
    }
}

/// The velocity after steering for `dt` milliseconds from `velocity` towards
/// the controller's target.
pub open spec fn steered(velocity: Vec3, controller: WalkController, dt: int) -> Vec3 {
    let error = controller.target_velocity.diff(velocity);
    let accel = acceleration_for(controller.acceleration as int, error.length_spec());
    velocity.sum(error.resized(accel * dt / 1000)).capped(controller.max_speed as int)
}

/// The position after moving for `dt` milliseconds with `velocity`.
pub open spec fn advanced(position: Vec3, velocity: Vec3, dt: int) -> Vec3 {
    position.sum(velocity.scaled(dt, 1000))
}

/// Moves a body for `dt` milliseconds with its velocity.
pub fn apply_velocity(velocity: &Velocity, translation: &mut Vec3, dt: u32)
    ensures
        *final(translation) == advanced(*old(translation), velocity.0, dt as int),
{
    *translation = translation.plus(velocity.0.times(dt as i64, 1000));
}

/// Steers a velocity for `dt` milliseconds towards the controller's target
/// and caps it at the controller's top speed.
pub fn walk_system(velocity: &mut Velocity, controller: &WalkController, dt: u32)
    ensures
        final(velocity).0 == steered(old(velocity).0, *controller, dt as int),
{
    let error: Vec3 = controller.target_velocity.minus(velocity.0);
    let len: u64 = error.length();
    let accel: u64 = if controller.acceleration as u64 <= len * 100 {
        controller.acceleration as u64
    } else {
        len * 100
    };
    proof {
        lemma_product_bound(accel as int, dt as int, 0xffff_ffff, 0xffff_ffff);
    }
    let step: u64 = accel * (dt as u64) / 1000;
    velocity.0 = velocity.0.plus(error.with_length(step as i64)).clamp_length_max(
        controller.max_speed,
    );
}

/// However a body is steered, it never goes faster than its top speed.
pub proof fn lemma_top_speed_is_kept(velocity: Vec3, controller: WalkController, dt: int)
    ensures
        steered(velocity, controller, dt).norm_sq() <= controller.max_speed
            * controller.max_speed,
{
    let error = controller.target_velocity.diff(velocity);
    let accel = acceleration_for(controller.acceleration as int, error.length_spec());
    lemma_capped_not_longer(
        velocity.sum(error.resized(accel * dt / 1000)),
        controller.max_speed as int,
    );
}

} // verus!
