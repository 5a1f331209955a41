//! The playing field and what stands on it when a level begins.

use crate::random::random_range;
use crate::safe_area::{LandSafeArea, SafeArea};
use crate::torch::TORCH_BASE_RADIUS;
use crate::vector::{clamp_i32, saturate, squared, Vec2, Vec3};
use vstd::prelude::*;

verus! {

/// How many places are tried for torches. A place too near to a torch that
/// stands already is given up.
pub const TORCH_ATTEMPTS: usize = 20;

/// Half the side of the square field the flock starts in; the woods begin
/// beyond it.
#[derive(Clone, Copy, Debug, PartialEq, Eq, Structural)]
pub struct LevelSize(pub i32);

impl Default for LevelSize {
    fn default() -> (size: LevelSize)
        ensures
            size == LevelSize(50_000),
    {
        LevelSize(50_000)
    }
}

/// What stands on the field when a level begins: the safe area on the land
/// with its baseline, the torches, the dog and the shepherd.
#[derive(Clone, Debug)]
pub struct Level {
    pub safe_area: SafeArea,
    pub land: LandSafeArea,
    pub torches: Vec<Vec3>,
    pub player: Vec3,
    pub shepherd: Vec3,
}

/// The safe area a level begins with: a square around the origin, one and a
/// half times the level's size wide.
pub open spec fn first_safe_area(level_size: int) -> SafeArea {
    SafeArea::Rect {
        pos: Vec2 { x: 0, y: 0 },
        size: Vec2 {
            x: clamp_i32(crate::vector::trunc_div(level_size * 3, 2)) as i32,
            y: clamp_i32(crate::vector::trunc_div(level_size * 3, 2)) as i32,
        },
    }
}

/// Where the dog starts: two units outside the field, to the left.
pub open spec fn player_start(level_size: int) -> Vec3 {
    Vec3 { x: clamp_i32(-level_size - 2000) as i32, y: 0, z: 0 }
}

/// Where the shepherd sleeps: at the far edge of the field.
pub open spec fn shepherd_start(level_size: int) -> Vec3 {
    Vec3 { x: 0, y: 0, z: clamp_i32(-level_size) as i32 }
}

/// Whether the torches stand as they should: on the ground, within half the
/// level's size of the origin along both axes, and no two nearer to each
/// other than the radius that a torch keeps safe.
pub open spec fn torches_well_placed(torches: Seq<Vec3>, level_size: int) -> bool {
    &&& forall|i: int|
        0 <= i < torches.len() ==> {
            &&& (#[trigger] torches[i]).y == 0
            &&& -(level_size / 2) <= torches[i].x < level_size / 2
            &&& -(level_size / 2) <= torches[i].z < level_size / 2
        }
    &&& forall|i: int, j: int|
        0 <= i < j < torches.len() ==> (#[trigger] torches[i]).dist_sq(#[trigger] torches[j])
            >= TORCH_BASE_RADIUS * TORCH_BASE_RADIUS
}

/// Whether `pos` is far enough from all of the torches.
pub fn is_clear_of(torches: &Vec<Vec3>, pos: Vec3) -> (clear: bool)
    ensures
        clear == forall|i: int|
            0 <= i < torches.len() ==> (#[trigger] torches[i]).dist_sq(pos) >= TORCH_BASE_RADIUS
                * TORCH_BASE_RADIUS,
{
    let limit: u128 = squared(TORCH_BASE_RADIUS);
    let mut i: usize = 0;
    while i < torches.len()
        invariant
            i <= torches.len(),
            limit == TORCH_BASE_RADIUS * TORCH_BASE_RADIUS,
            forall|k: int| 0 <= k < i ==> (#[trigger] torches[k]).dist_sq(pos) >= limit,
        decreases torches.len() - i,
    {
        if torches[i].distance_squared(pos) < limit {
            return false;
        }
        i += 1;
    }
    true
}

/// Lays out a level: the first safe area, the dog and the shepherd at their
/// places, and torches at places picked by chance, `TORCH_ATTEMPTS` at most.
pub fn setup(level_size: &LevelSize) -> (level: Level)
    requires
        level_size.0 >= 2,
    ensures
        level.safe_area == first_safe_area(level_size.0 as int),
        level.land == (LandSafeArea { start_area: level.safe_area }),
        level.player == player_start(level_size.0 as int),
        level.shepherd == shepherd_start(level_size.0 as int),
        level.torches@.len() <= TORCH_ATTEMPTS,
        torches_well_placed(level.torches@, level_size.0 as int),
{
    let r: i32 = level_size.0;
    let torch_r: i32 = r / 2;
    let mut rng = rand::thread_rng();
    let mut torches: Vec<Vec3> = Vec::new();
    let mut attempt: usize = 0;
    while attempt < TORCH_ATTEMPTS
        invariant
            attempt <= TORCH_ATTEMPTS,
            torch_r == level_size.0 / 2,
            torch_r > 0,
            torches@.len() <= attempt,
            torches_well_placed(torches@, level_size.0 as int),
        decreases TORCH_ATTEMPTS - attempt,
    {
        let x: i64 = random_range(&mut rng, -(torch_r as i64), torch_r as i64);
        let z: i64 = random_range(&mut rng, -(torch_r as i64), torch_r as i64);
        let pos = Vec3 { x: x as i32, y: 0, z: z as i32 };
        if is_clear_of(&torches, pos) {
            torches.push(pos);
        }
        attempt += 1;
    }
    let side: i32 = saturate(crate::vector::div_trunc(r as i128 * 3, 2));
    let safe_area = SafeArea::Rect { pos: Vec2 { x: 0, y: 0 }, size: Vec2 { x: side, y: side } };
    Level {
        safe_area,
        land: LandSafeArea { start_area: safe_area },
        torches,
        player: Vec3 { x: saturate(-(r as i128) - 2000), y: 0, z: 0 },
        shepherd: Vec3 { x: 0, y: 0, z: saturate(-(r as i128)) },
    }
}

} // verus!
