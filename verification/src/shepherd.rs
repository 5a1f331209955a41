//! The shepherd sleeps until a bark wakes him, and then goes round to light
//! the torches.

use crate::auto_anim::ShepherdAnim;
use crate::physics::WalkController;
use crate::player::Bark;
use crate::torch::{IgniteTorch, Torch};
use crate::vector::{squared, Vec3};
use vstd::prelude::*;

verus! {

/// The top speed of the shepherd.
pub const SHEPHERD_SPEED: u32 = 5_000;

/// How fast the shepherd changes his velocity.
pub const SHEPHERD_ACCEL: u32 = 20_000;

/// How near the shepherd has to come to a torch to light it.
pub const IGNITE_RADIUS: u32 = 5_000;

/// What the shepherd does in a round.
#[derive(Clone, Copy, Debug, PartialEq, Eq, Structural)]
pub enum ShepherdStep {
    /// He lights the torches around him.
    Ignite(IgniteTorch),
    /// He walks to the nearest torch that needs him.
    Walk,
    /// No torch needs him: he goes back to sleep.
    Rest,
}

/// Whether the torch in place `k` is the nearest to `p` of those that need
/// light; of several equally near the first counts.
pub open spec fn is_nearest_dark_torch(torches: Seq<Torch>, p: Vec3, k: int) -> bool {
    &&& 0 <= k < torches.len()
    &&& torches[k].needs_light()
    &&& forall|j: int|
        0 <= j < torches.len() && (#[trigger] torches[j]).needs_light() ==> p.dist_sq(
            torches[k].translation,
        ) <= p.dist_sq(torches[j].translation)
    &&& forall|j: int|
        0 <= j < k && (#[trigger] torches[j]).needs_light() ==> p.dist_sq(torches[k].translation)
            < p.dist_sq(torches[j].translation)
}

/// Finds the nearest torch that needs light.
pub fn find_nearest_dark_torch(torches: &Vec<Torch>, p: Vec3) -> (found: Option<usize>)
    ensures
        found matches Some(k) ==> is_nearest_dark_torch(torches@, p, k as int),
        found is None ==> forall|j: int|
            0 <= j < torches.len() ==> !(#[trigger] torches[j]).needs_light(),
{
    let mut found: Option<usize> = None;
    let mut best: u128 = 0;
    let mut j: usize = 0;
    while j < torches.len()
        invariant
            j <= torches.len(),
            found is None ==> forall|a: int| 0 <= a < j ==> !(#[trigger] torches[a]).needs_light(),
            found matches Some(k) ==> {
                &&& k < j
                &&& torches[k as int].needs_light()
                &&& best == p.dist_sq(torches[k as int].translation)
                &&& forall|a: int|
                    0 <= a < j && (#[trigger] torches[a]).needs_light() ==> best <= p.dist_sq(
                        torches[a].translation,
                    )
                &&& forall|a: int|
                    0 <= a < k && (#[trigger] torches[a]).needs_light() ==> best < p.dist_sq(
                        torches[a].translation,
                    )
            },
        decreases torches.len() - j,
    {
        if !torches[j].base.lit || torches[j].delight.is_some() {
            let dist: u128 = p.distance_squared(torches[j].translation);
            if found.is_none() || dist < best {
                found = Some(j);
                best = dist;
            }
        }
        j += 1;
    }
    found
}

/// One round of the shepherd's walk from torch to torch. Within
/// `IGNITE_RADIUS` of the nearest torch that needs light he lights the
/// torches around him; farther away he heads for it; and when no torch
/// needs light he stops.
pub fn ignite_all_torhes(
    translation: Vec3,
    walk_controller: &mut WalkController,
    torches: &Vec<Torch>,
) -> (step: ShepherdStep)
    ensures
        (forall|j: int| 0 <= j < torches.len() ==> !(#[trigger] torches[j]).needs_light()) ==> {
            &&& step == ShepherdStep::Rest
            &&& *final(walk_controller) == (WalkController {
                target_velocity: Vec3 { x: 0, y: 0, z: 0 },
                ..*old(walk_controller)
            })
        },
        forall|k: int|
            is_nearest_dark_torch(torches@, translation, k) ==> if translation.dist_sq(
                torches[k].translation,
            ) < IGNITE_RADIUS * IGNITE_RADIUS {
                &&& step == ShepherdStep::Ignite(
                    IgniteTorch { position: translation, radius: IGNITE_RADIUS },
                )
                &&& *final(walk_controller) == *old(walk_controller)
            } else {
                &&& step == ShepherdStep::Walk
                &&& *final(walk_controller) == (WalkController {
                    target_velocity: torches[k].translation.diff(translation).resized(
                        SHEPHERD_SPEED as int,
                    ),
                    ..*old(walk_controller)
                })
            },
{
    match find_nearest_dark_torch(torches, translation) {
        Some(found) => {
            proof {
                assert forall|k: int| is_nearest_dark_torch(torches@, translation, k) implies k
                    == found by {
                    assert(torches[k].needs_light() && torches[found as int].needs_light());
                }
            }
            if translation.distance_squared(torches[found].translation) < squared(IGNITE_RADIUS) {
                ShepherdStep::Ignite(IgniteTorch { position: translation, radius: IGNITE_RADIUS })
            } else {
                walk_controller.target_velocity = torches[found].translation.minus(
                    translation,
                ).with_length(SHEPHERD_SPEED as i64);
                ShepherdStep::Walk
            }
        },
        None => {
            walk_controller.target_velocity = Vec3::zero();
            ShepherdStep::Rest
        },
    }
}

/// Whether a bark wakes the shepherd: it sounds within its reach of him.
pub fn bark_system(translation: Vec3, bark: &Bark) -> (woken: bool)
    ensures
        woken == (translation.dist_sq(bark.position) < bark.radius * bark.radius),
{
    translation.distance_squared(bark.position) < squared(bark.radius)
}

/// What the shepherd is seen doing: he walks while he is on his round, and
/// sleeps else.
pub fn set_anim(on_his_round: bool) -> (anim: ShepherdAnim)
    ensures
        anim == if on_his_round {
            ShepherdAnim::Walk
        } else {
            ShepherdAnim::Sleep
        },
{
    if on_his_round {
        ShepherdAnim::Walk
    } else {
        ShepherdAnim::Sleep
    }
}

} // verus!
