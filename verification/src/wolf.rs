//! The wolves: they come for sheep that stray from the safe areas, eat what
//! they catch, and are driven off by the dog and by the safe areas.

use crate::level::LevelSize;
use crate::physics::{Velocity, WalkController};
use crate::safe_area::{in_any_area, SafeArea};
use crate::player::Bark;
use crate::sheep::Sheep;
use crate::steering::{find_sheep, place_of};
use crate::vector::{lemma_product_bound, lemma_square_bound, squared, Vec2, Vec3};
use vstd::prelude::*;

verus! {

/// The top speed of a wolf.
pub const WOLF_SPEED: u32 = 16_250;

/// How fast a wolf changes its velocity.
pub const WOLF_ACCEL: u32 = 32_500;

/// How many wolves there may be at a time.
pub const MAX_WOLVES: usize = 20;

/// How near a wolf has to come to a sheep to catch it.
pub const CATCH_RADIUS: u32 = 1_000;

/// How long a wolf eats, in milliseconds.
pub const EATING_TIME: u64 = 2_000;

/// A hunt: the id of the sheep the wolf is after, and whether the wolf
/// braves the safe areas for it.
#[derive(Clone, Copy, Debug, PartialEq, Eq, Structural)]
pub struct TryToCatchSheep {
    pub target: u64,
    pub ignore_safe: bool,
}

/// A meal: the time the wolf still eats, in milliseconds.
#[derive(Clone, Copy, Debug, PartialEq, Eq, Structural)]
pub struct Eating {
    pub time: u64,
}

/// The mark of a wolf on its way out.
#[derive(Clone, Copy, Debug, PartialEq, Eq, Structural)]
pub struct GoOut;

/// What a wolf is doing: exactly one of the three at any time.
#[derive(Clone, Copy, Debug, PartialEq, Eq, Structural)]
pub enum HuntState {
    SeekTarget(TryToCatchSheep),
    Eating(Eating),
    Retreating(GoOut),
}

/// One wolf.
#[derive(Clone, Copy, Debug, PartialEq, Eq, Structural)]
pub struct Wolf {
    /// Tells this wolf from all others.
    pub id: u64,
    pub translation: Vec3,
    pub velocity: Velocity,
    pub walk: WalkController,
    pub state: HuntState,
}

/// Whether the straight way on the ground from `start` to `end` leads
/// through the circle: the point of the line nearest to the centre lies
/// strictly between the two ends and strictly inside the circle.
pub open spec fn crosses_circle(start: Vec3, end: Vec3, center: Vec2, radius: int) -> bool {
    let dx = end.x - start.x;
    let dz = end.z - start.z;
    let ex = center.x - start.x;
    let ez = center.y - start.z;
    let along = ex * dx + ez * dz;
    let len_sq = dx * dx + dz * dz;
    let across = ex * dz - ez * dx;
    &&& radius > 0
    &&& 0 < along < len_sq
    &&& across * across < radius * radius * len_sq
}

/// Whether the straight way from `start` to `end` leads through one of the
/// circular areas. Rectangles do not count.
pub open spec fn way_is_blocked(areas: Seq<SafeArea>, start: Vec3, end: Vec3) -> bool {
    exists|k: int|
        0 <= k < areas.len() && (#[trigger] areas[k] matches SafeArea::Circle { pos, radius }
            && crosses_circle(start, end, pos, radius as int))
}

/// Whether the straight way on the ground from `start` to `end` leads
/// through the circle.
pub fn segment_crosses_circle(start: Vec3, end: Vec3, center: Vec2, radius: i32) -> (crosses: bool)
    ensures
        crosses == crosses_circle(start, end, center, radius as int),
{
    if radius <= 0 {
        return false;
    }
    let dx: i128 = end.x as i128 - start.x as i128;
    let dz: i128 = end.z as i128 - start.z as i128;
    let ex: i128 = center.x as i128 - start.x as i128;
    let ez: i128 = center.y as i128 - start.z as i128;
    proof {
        lemma_product_bound(ex as int, dx as int, 0x1_0000_0000, 0x1_0000_0000);
        lemma_product_bound(ez as int, dz as int, 0x1_0000_0000, 0x1_0000_0000);
        lemma_product_bound(ex as int, dz as int, 0x1_0000_0000, 0x1_0000_0000);
        lemma_product_bound(ez as int, dx as int, 0x1_0000_0000, 0x1_0000_0000);
        lemma_square_bound(dx as int, 0x1_0000_0000);
        lemma_square_bound(dz as int, 0x1_0000_0000);
    }
    let along: i128 = ex * dx + ez * dz;
    let len_sq: i128 = dx * dx + dz * dz;
    if along <= 0 || along >= len_sq {
        return false;
    }
    let across: i128 = ex * dz - ez * dx;
    let width: u128 = if across < 0 { (-across) as u128 } else { across as u128 };
    let r: u128 = radius as u128;
    proof {
        lemma_square_bound(r as int, 0x8000_0000);
        lemma_product_bound(
            (r * r) as int,
            len_sq as int,
            0x4000_0000_0000_0000,
            0x2_0000_0000_0000_0000,
        );
        assert(width * width == across * across) by (nonlinear_arith)
            requires
                width == across || width == -across,
        ;
    }
    let limit: u128 = r * r * (len_sq as u128);
    if width >= 0x1_0000_0000_0000_0000 {
        proof {
            lemma_square_bound(0x1_0000_0000_0000_0000, width as int);
        }
        false
    } else {
        proof {
            lemma_square_bound(width as int, 0xffff_ffff_ffff_ffff);
        }
        width * width < limit
    }
}

/// Whether the straight way from `start` to `end` leads through one of the
/// circular areas.
pub fn has_cross_to_safe(safe_areas: &Vec<SafeArea>, start: Vec3, end: Vec3) -> (blocked: bool)
    ensures
        blocked == way_is_blocked(safe_areas@, start, end),
{
    let mut k: usize = 0;
    while k < safe_areas.len()
        invariant
            k <= safe_areas.len(),
            forall|j: int|
                0 <= j < k ==> !(#[trigger] safe_areas@[j] matches SafeArea::Circle { pos, radius }
                    && crosses_circle(start, end, pos, radius as int)),
        decreases safe_areas.len() - k,
    {
        match safe_areas[k] {
            SafeArea::Circle { pos, radius } => {
                if segment_crosses_circle(start, end, pos, radius) {
                    return true;
                }
            },
            SafeArea::Rect { pos: _, size: _ } => {},
        }
        k += 1;
    }
    false
}

/// Where a wolf that comes for the sheep at `prey` enters: on the ray from
/// the origin through the sheep, twice the level's size out.
pub open spec fn spawn_point(prey: Vec3, level_size: int) -> Vec3 {
    prey.resized(2 * level_size)
}

/// A wolf as it enters, after the sheep with the id `target`.
pub open spec fn new_wolf(id: u64, at: Vec3, target: u64) -> Wolf {
    Wolf {
        id,
        translation: at,
        velocity: Velocity(Vec3 { x: 0, y: 0, z: 0 }),
        walk: WalkController {
            target_velocity: Vec3 { x: 0, y: 0, z: 0 },
            acceleration: WOLF_ACCEL,
            max_speed: WOLF_SPEED,
        },
        state: HuntState::SeekTarget(TryToCatchSheep { target, ignore_safe: false }),
    }
}

/// Whether a wolf may come for this sheep: the sheep is outside the safe
/// areas, no wolf is after it yet, and the straight way to it leads through
/// no circular safe area.
pub open spec fn invites_wolf(sheep: Sheep, areas: Seq<SafeArea>, level_size: int) -> bool {
    &&& sheep.out_of_safe_area
    &&& !sheep.under_hunting
    &&& !way_is_blocked(areas, spawn_point(sheep.translation, level_size), sheep.translation)
}

/// The wolves that enter for the first `n` sheep, in order, when `present`
/// wolves are there already and `next_id` is the first free id. A wolf
/// enters for each sheep that invites one, as long as there are fewer than
/// `MAX_WOLVES` wolves and ids are left.
pub open spec fn wolves_entering(
    sheep: Seq<Sheep>,
    areas: Seq<SafeArea>,
    level_size: int,
    present: int,
    next_id: int,
    n: int,
) -> Seq<Wolf>
    decreases n,
{
    if n <= 0 {
        Seq::empty()
    } else {
        let before = wolves_entering(sheep, areas, level_size, present, next_id, n - 1);
        if invites_wolf(sheep[n - 1], areas, level_size) && present + before.len() < MAX_WOLVES
            && next_id + before.len() < u64::MAX {
            before.push(
                new_wolf(
                    (next_id + before.len()) as u64,
                    spawn_point(sheep[n - 1].translation, level_size),
                    sheep[n - 1].id,
                ),
            )
        } else {
            before
        }
    }
}

/// Whether a wolf enters for the sheep in place `i`.
pub open spec fn wolf_enters_for(
    sheep: Seq<Sheep>,
    areas: Seq<SafeArea>,
    level_size: int,
    present: int,
    next_id: int,
    i: int,
) -> bool {
    wolves_entering(sheep, areas, level_size, present, next_id, i + 1).len() > wolves_entering(
        sheep,
        areas,
        level_size,
        present,
        next_id,
        i,
    ).len()
}

/// The wolves that enter never bring the pack over `MAX_WOLVES`.
pub proof fn lemma_pack_is_capped(
    sheep: Seq<Sheep>,
    areas: Seq<SafeArea>,
    level_size: int,
    present: int,
    next_id: int,
    n: int,
)
    requires
        0 <= present,
    ensures
        wolves_entering(sheep, areas, level_size, present, next_id, n).len() > 0 ==> present
            + wolves_entering(sheep, areas, level_size, present, next_id, n).len() <= MAX_WOLVES,
    decreases n,
{
    if n > 0 {
        lemma_pack_is_capped(sheep, areas, level_size, present, next_id, n - 1);
    }
}

/// Lets wolves enter for the sheep that stray: for each sheep that invites
/// one, in order, as long as the pack is not full. Each wolf that enters is
/// after its sheep, and the sheep is marked as hunted.
pub fn wolf_spawner(
    sheep: &mut Vec<Sheep>,
    wolfs: &mut Vec<Wolf>,
    next_id: &mut u64,
    safe_areas: &Vec<SafeArea>,
    level_size: &LevelSize,
)
    ensures
        final(sheep).len() == old(sheep).len(),
        final(wolfs)@ == old(wolfs)@ + wolves_entering(
            old(sheep)@,
            safe_areas@,
            level_size.0 as int,
            old(wolfs).len() as int,
            *old(next_id) as int,
            old(sheep).len() as int,
        ),
        *final(next_id) == *old(next_id) + (final(wolfs).len() - old(wolfs).len()),
        forall|i: int|
            0 <= i < old(sheep).len() ==> #[trigger] final(sheep)[i] == (Sheep {
                under_hunting: old(sheep)[i].under_hunting || wolf_enters_for(
                    old(sheep)@,
                    safe_areas@,
                    level_size.0 as int,
                    old(wolfs).len() as int,
                    *old(next_id) as int,
                    i,
                ),
                ..old(sheep)[i]
            }),
        old(wolfs).len() <= MAX_WOLVES ==> final(wolfs).len() <= MAX_WOLVES,
{
    let ghost present = old(wolfs).len() as int;
    let ghost first_id = *old(next_id) as int;
    let ghost level = level_size.0 as int;
    let mut i: usize = 0;
    while i < sheep.len()
        invariant
            i <= sheep.len(),
            sheep.len() == old(sheep).len(),
            present == old(wolfs).len(),
            first_id == *old(next_id),
            level == level_size.0,
            wolfs@ == old(wolfs)@ + wolves_entering(
                old(sheep)@,
                safe_areas@,
                level,
                present,
                first_id,
                i as int,
            ),
            *next_id == first_id + (wolfs.len() - present),
            forall|j: int|
                0 <= j < i ==> #[trigger] sheep[j] == (Sheep {
                    under_hunting: old(sheep)[j].under_hunting || wolf_enters_for(
                        old(sheep)@,
                        safe_areas@,
                        level,
                        present,
                        first_id,
                        j,
                    ),
                    ..old(sheep)[j]
                }),
            forall|j: int| i <= j < sheep.len() ==> sheep[j] == old(sheep)[j],
        decreases sheep.len() - i,
    {
        let ghost before = wolves_entering(old(sheep)@, safe_areas@, level, present, first_id, i as int);
        if sheep[i].out_of_safe_area && !sheep[i].under_hunting && wolfs.len() < MAX_WOLVES
            && *next_id < u64::MAX {
            let prey: Vec3 = sheep[i].translation;
            let start: Vec3 = prey.with_length(2 * (level_size.0 as i64));
            if !has_cross_to_safe(safe_areas, start, prey) {
                let wolf = Wolf {
                    id: *next_id,
                    translation: start,
                    velocity: Velocity(Vec3::zero()),
                    walk: WalkController {
                        target_velocity: Vec3::zero(),
                        acceleration: WOLF_ACCEL,
                        max_speed: WOLF_SPEED,
                    },
                    state: HuntState::SeekTarget(
                        TryToCatchSheep { target: sheep[i].id, ignore_safe: false },
                    ),
                };
                wolfs.push(wolf);
                *next_id = *next_id + 1;
                sheep[i].under_hunting = true;
                proof {
                    assert(wolfs@ =~= old(wolfs)@ + before.push(wolf));
                }
            }
        }
        i += 1;
    }
    proof {
        lemma_pack_is_capped(old(sheep)@, safe_areas@, level, present, first_id, sheep.len() as int);
    }
}

/// The speed of a wolf that is `dist` away from its prey: its top speed, but
/// no more than would take it to the prey in half a second, so that it does
/// not overshoot.
pub open spec fn chase_speed(dist: int) -> int {
    if 2 * dist < WOLF_SPEED {
        2 * dist
    } else {
        WOLF_SPEED as int
    }
}

/// The wolves and the sheep in the course of a round, and the places where
/// sheep were caught in it.
pub struct Hunt {
    pub wolves: Seq<Wolf>,
    pub sheep: Seq<Sheep>,
    pub corpses: Seq<Vec3>,
}

/// The hunt after wolf `i` has had its turn at chasing. A wolf that is
/// after a sheep and within `CATCH_RADIUS` of it catches it: the sheep is
/// gone, and the wolf eats for `EATING_TIME`. Farther away, the wolf heads
/// for the sheep. A wolf whose sheep is gone, and one that is not after any,
/// is left as it is.
pub open spec fn after_chase(hunt: Hunt, i: int) -> Hunt {
    let wolf = hunt.wolves[i];
    match wolf.state {
        HuntState::SeekTarget(chase) => match place_of(hunt.sheep, chase.target) {
            Some(j) => {
                let prey = hunt.sheep[j].translation;
                if wolf.translation.dist_sq(prey) < CATCH_RADIUS * CATCH_RADIUS {
                    Hunt {
                        wolves: hunt.wolves.update(
                            i,
                            Wolf { state: HuntState::Eating(Eating { time: EATING_TIME }), ..wolf },
                        ),
                        sheep: hunt.sheep.remove(j),
                        corpses: hunt.corpses.push(prey),
                    }
                } else {
                    let speed = chase_speed(crate::vector::sqrt_floor(wolf.translation.dist_sq(prey)));
                    Hunt {
                        wolves: hunt.wolves.update(
                            i,
                            Wolf {
                                walk: WalkController {
                                    target_velocity: prey.diff(wolf.translation).resized(speed),
                                    ..wolf.walk
                                },
                                ..wolf
                            },
                        ),
                        ..hunt
                    }
                }
            },
            None => hunt,
        },
        _ => hunt,
    }
}

/// The hunt after the first `n` wolves have had their turn at chasing.
pub open spec fn after_chases(hunt: Hunt, n: int) -> Hunt
    decreases n,
{
    if n <= 0 {
        hunt
    } else {
        after_chase(after_chases(hunt, n - 1), n - 1)
    }
}

/// A wolf that is within `CATCH_RADIUS` of the sheep it is after catches it:
/// the sheep is gone from the flock, the wolf stays and eats for
/// `EATING_TIME`, and one corpse is reported where the sheep stood. This
/// holds for every wolf in its turn, whatever the wolves before it did.
pub proof fn lemma_wolf_in_reach_catches(hunt: Hunt, i: int, j: int)
    requires
        0 <= i < hunt.wolves.len(),
        hunt.wolves[i].state is SeekTarget,
        crate::steering::is_place_of(hunt.sheep, hunt.wolves[i].state->SeekTarget_0.target, j),
        hunt.wolves[i].translation.dist_sq(hunt.sheep[j].translation) < CATCH_RADIUS
            * CATCH_RADIUS,
    ensures
        after_chase(hunt, i).sheep == hunt.sheep.remove(j),
        after_chase(hunt, i).wolves == hunt.wolves.update(
            i,
            Wolf { state: HuntState::Eating(Eating { time: EATING_TIME }), ..hunt.wolves[i] },
        ),
        after_chase(hunt, i).corpses == hunt.corpses.push(hunt.sheep[j].translation),
{
    let target = hunt.wolves[i].state->SeekTarget_0.target;
    let c = choose|c: int| crate::steering::is_place_of(hunt.sheep, target, c);
    assert(hunt.sheep[c].id == target && hunt.sheep[j].id == target);
    assert(c == j);
}

/// A wolf that is farther than `CATCH_RADIUS` from the sheep it is after
/// heads for it, no faster than its top speed and no faster than would take
/// it there in half a second; wolves and sheep stay as many as they were.
pub proof fn lemma_wolf_out_of_reach_chases(hunt: Hunt, i: int, j: int)
    requires
        0 <= i < hunt.wolves.len(),
        hunt.wolves[i].state is SeekTarget,
        crate::steering::is_place_of(hunt.sheep, hunt.wolves[i].state->SeekTarget_0.target, j),
        hunt.wolves[i].translation.dist_sq(hunt.sheep[j].translation) >= CATCH_RADIUS
            * CATCH_RADIUS,
    ensures
        after_chase(hunt, i).sheep == hunt.sheep,
        after_chase(hunt, i).corpses == hunt.corpses,
        after_chase(hunt, i).wolves[i].state == hunt.wolves[i].state,
        after_chase(hunt, i).wolves[i].walk.target_velocity.norm_sq() <= WOLF_SPEED * WOLF_SPEED,
{
    let wolf = hunt.wolves[i];
    let target = wolf.state->SeekTarget_0.target;
    let c = choose|c: int| crate::steering::is_place_of(hunt.sheep, target, c);
    assert(hunt.sheep[c].id == target && hunt.sheep[j].id == target);
    assert(c == j);
    let prey = hunt.sheep[j].translation;
    let speed = chase_speed(crate::vector::sqrt_floor(wolf.translation.dist_sq(prey)));
    crate::vector::lemma_resized_not_longer(prey.diff(wolf.translation), speed);
    let n = wolf.translation.dist_sq(prey);
    assert(n >= 0) by (nonlinear_arith)
        requires
            n == (wolf.translation.x - prey.x) * (wolf.translation.x - prey.x) + (
            wolf.translation.y - prey.y) * (wolf.translation.y - prey.y) + (wolf.translation.z
                - prey.z) * (wolf.translation.z - prey.z),
    ;
    crate::vector::lemma_sqrt_floor(n);
    assert(speed * speed <= WOLF_SPEED * WOLF_SPEED) by (nonlinear_arith)
        requires
            0 <= speed <= WOLF_SPEED,
    ;
}

/// One round of chasing: every wolf that is after a sheep heads for it,
/// or catches it if it is near enough. Returns where sheep were caught.
pub fn catch_system(wolfs: &mut Vec<Wolf>, sheep: &mut Vec<Sheep>) -> (corpses: Vec<Vec3>)
    ensures
        ({
            let hunt = after_chases(
                Hunt { wolves: old(wolfs)@, sheep: old(sheep)@, corpses: Seq::empty() },
                old(wolfs).len() as int,
            );
            &&& final(wolfs)@ == hunt.wolves
            &&& final(sheep)@ == hunt.sheep
            &&& corpses@ == hunt.corpses
        }),
        final(wolfs).len() == old(wolfs).len(),
{
    let mut corpses: Vec<Vec3> = Vec::new();
    let ghost start = Hunt { wolves: old(wolfs)@, sheep: old(sheep)@, corpses: Seq::empty() };
    let mut i: usize = 0;
    while i < wolfs.len()
        invariant
            i <= wolfs.len(),
            wolfs.len() == old(wolfs).len(),
            start == (Hunt { wolves: old(wolfs)@, sheep: old(sheep)@, corpses: Seq::empty() }),
            after_chases(start, i as int) == (Hunt {
                wolves: wolfs@,
                sheep: sheep@,
                corpses: corpses@,
            }),
        decreases wolfs.len() - i,
    {
        let ghost hunt = after_chases(start, i as int);
        let wolf: Wolf = wolfs[i];
        if let HuntState::SeekTarget(chase) = wolf.state {
            if let Some(j) = find_sheep(sheep, chase.target) {
                let prey: Vec3 = sheep[j].translation;
                if wolf.translation.distance_squared(prey) < squared(CATCH_RADIUS) {
                    wolfs[i].state = HuntState::Eating(Eating { time: EATING_TIME });
                    sheep.remove(j);
                    corpses.push(prey);
                } else {
                    let dist: u64 = wolf.translation.distance(prey);
                    let speed: u64 = if 2 * dist < WOLF_SPEED as u64 {
                        2 * dist
                    } else {
                        WOLF_SPEED as u64
                    };
                    wolfs[i].walk.target_velocity = prey.minus(wolf.translation).with_length(
                        speed as i64,
                    );
                }
            }
        }
        proof {
            assert(wolfs@ =~= after_chase(hunt, i as int).wolves);
            assert(sheep@ =~= after_chase(hunt, i as int).sheep);
            assert(corpses@ =~= after_chase(hunt, i as int).corpses);
        }
        i += 1;
    }
    corpses
}

/// Whether a wolf may pick this sheep as its next prey.
pub open spec fn is_prey(sheep: Sheep) -> bool {
    sheep.out_of_safe_area && !sheep.under_hunting
}

/// Whether the sheep in place `j` is the prey nearest to `p`; of several
/// equally near the first counts.
pub open spec fn is_nearest_prey(sheep: Seq<Sheep>, p: Vec3, j: int) -> bool {
    &&& 0 <= j < sheep.len()
    &&& is_prey(sheep[j])
    &&& forall|k: int|
        0 <= k < sheep.len() && is_prey(#[trigger] sheep[k]) ==> p.dist_sq(sheep[j].translation)
            <= p.dist_sq(sheep[k].translation)
    &&& forall|k: int|
        0 <= k < j && is_prey(#[trigger] sheep[k]) ==> p.dist_sq(sheep[j].translation) < p.dist_sq(
            sheep[k].translation,
        )
}

/// The place of the prey nearest to `p`, if there is any prey.
pub open spec fn nearest_prey(sheep: Seq<Sheep>, p: Vec3) -> Option<int> {
    if exists|j: int| is_nearest_prey(sheep, p, j) {
        Some(choose|j: int| is_nearest_prey(sheep, p, j))
    } else {
        None
    }
}

/// Finds the prey nearest to `p`.
pub fn find_nearest_prey(sheep: &Vec<Sheep>, p: Vec3) -> (found: Option<usize>)
    ensures
        found matches Some(j) ==> is_nearest_prey(sheep@, p, j as int) && nearest_prey(sheep@, p)
            == Some(j as int),
        found is None ==> nearest_prey(sheep@, p) is None,
        found is None ==> forall|k: int| 0 <= k < sheep.len() ==> !is_prey(#[trigger] sheep[k]),
{
    let mut found: Option<usize> = None;
    let mut best_dist: u128 = 0;
    let mut k: usize = 0;
    while k < sheep.len()
        invariant
            k <= sheep.len(),
            found is None ==> forall|a: int| 0 <= a < k ==> !is_prey(#[trigger] sheep[a]),
            found matches Some(j) ==> {
                &&& j < k
                &&& is_prey(sheep[j as int])
                &&& best_dist == p.dist_sq(sheep[j as int].translation)
                &&& forall|a: int|
                    0 <= a < k && is_prey(#[trigger] sheep[a]) ==> best_dist <= p.dist_sq(
                        sheep[a].translation,
                    )
                &&& forall|a: int|
                    0 <= a < j && is_prey(#[trigger] sheep[a]) ==> best_dist < p.dist_sq(
                        sheep[a].translation,
                    )
            },
        decreases sheep.len() - k,
    {
        if sheep[k].out_of_safe_area && !sheep[k].under_hunting {
            let dist: u128 = p.distance_squared(sheep[k].translation);
            if found.is_none() || dist < best_dist {
                found = Some(k);
                best_dist = dist;
            }
        }
        k += 1;
    }
    proof {
        match found {
            Some(j) => {
                assert(is_nearest_prey(sheep@, p, j as int));
                let c = choose|c: int| is_nearest_prey(sheep@, p, c);
                assert(is_prey(sheep[c]) && is_prey(sheep[j as int]));
                assert(c == j);
            },
            None => {
                assert forall|c: int| !is_nearest_prey(sheep@, p, c) by {
                    if 0 <= c < sheep.len() {
                        assert(!is_prey(sheep[c]));
                    }
                }
            },
        }
    }
    found
}

/// The sheep with the claim on the sheep with the id `target` lifted, if
/// that sheep is still there.
pub open spec fn released(sheep: Seq<Sheep>, target: u64) -> Seq<Sheep> {
    match place_of(sheep, target) {
        Some(j) => sheep.update(j, Sheep { under_hunting: false, ..sheep[j] }),
        None => sheep,
    }
}

/// Lifts the claim on the sheep with the id `target`.
pub fn release_claim(sheep: &mut Vec<Sheep>, target: u64)
    ensures
        final(sheep)@ == released(old(sheep)@, target),
{
    if let Some(j) = find_sheep(sheep, target) {
        sheep[j].under_hunting = false;
        proof {
            assert(sheep@ =~= released(old(sheep)@, target));
        }
    }
}

/// The hunt after wolf `i` has eaten for `dt` milliseconds, if it is
/// eating. While the meal lasts the wolf stands still. When it is over the
/// wolf goes after the nearest prey and claims it, or retreats if there is
/// none.
pub open spec fn after_meal(hunt: Hunt, i: int, dt: int) -> Hunt {
    let wolf = hunt.wolves[i];
    match wolf.state {
        HuntState::Eating(meal) => if meal.time <= dt {
            match nearest_prey(hunt.sheep, wolf.translation) {
                Some(j) => Hunt {
                    wolves: hunt.wolves.update(
                        i,
                        Wolf {
                            state: HuntState::SeekTarget(
                                TryToCatchSheep { target: hunt.sheep[j].id, ignore_safe: false },
                            ),
                            ..wolf
                        },
                    ),
                    sheep: hunt.sheep.update(j, Sheep { under_hunting: true, ..hunt.sheep[j] }),
                    ..hunt
                },
                None => Hunt {
                    wolves: hunt.wolves.update(
                        i,
                        Wolf { state: HuntState::Retreating(GoOut), ..wolf },
                    ),
                    ..hunt
                },
            }
        } else {
            Hunt {
                wolves: hunt.wolves.update(
                    i,
                    Wolf {
                        state: HuntState::Eating(Eating { time: (meal.time - dt) as u64 }),
                        walk: WalkController {
                            target_velocity: Vec3 { x: 0, y: 0, z: 0 },
                            ..wolf.walk
                        },
                        ..wolf
                    },
                ),
                ..hunt
            }
        },
        _ => hunt,
    }
}

/// The hunt after the first `n` wolves have eaten for `dt` milliseconds.
pub open spec fn after_meals(hunt: Hunt, n: int, dt: int) -> Hunt
    decreases n,
{
    if n <= 0 {
        hunt
    } else {
        after_meal(after_meals(hunt, n - 1, dt), n - 1, dt)
    }
}

/// `dt` milliseconds of eating for every wolf that eats.
pub fn eating_system(wolfs: &mut Vec<Wolf>, sheep: &mut Vec<Sheep>, dt: u32)
    ensures
        ({
            let hunt = after_meals(
                Hunt { wolves: old(wolfs)@, sheep: old(sheep)@, corpses: Seq::empty() },
                old(wolfs).len() as int,
                dt as int,
            );
            &&& final(wolfs)@ == hunt.wolves
            &&& final(sheep)@ == hunt.sheep
        }),
        final(wolfs).len() == old(wolfs).len(),
        final(sheep).len() == old(sheep).len(),
{
    let ghost start = Hunt { wolves: old(wolfs)@, sheep: old(sheep)@, corpses: Seq::empty() };
    let mut i: usize = 0;
    while i < wolfs.len()
        invariant
            i <= wolfs.len(),
            wolfs.len() == old(wolfs).len(),
            sheep.len() == old(sheep).len(),
            start == (Hunt { wolves: old(wolfs)@, sheep: old(sheep)@, corpses: Seq::empty() }),
            after_meals(start, i as int, dt as int) == (Hunt {
                wolves: wolfs@,
                sheep: sheep@,
                corpses: Seq::empty(),
            }),
        decreases wolfs.len() - i,
    {
        let ghost hunt = after_meals(start, i as int, dt as int);
        let wolf: Wolf = wolfs[i];
        if let HuntState::Eating(meal) = wolf.state {
            if meal.time <= dt as u64 {
                match find_nearest_prey(sheep, wolf.translation) {
                    Some(j) => {
                        wolfs[i].state = HuntState::SeekTarget(
                            TryToCatchSheep { target: sheep[j].id, ignore_safe: false },
                        );
                        sheep[j].under_hunting = true;
                    },
                    None => {
                        wolfs[i].state = HuntState::Retreating(GoOut);
                    },
                }
            } else {
                wolfs[i].state = HuntState::Eating(Eating { time: meal.time - dt as u64 });
                wolfs[i].walk.target_velocity = Vec3::zero();
            }
        }
        proof {
            assert(wolfs@ =~= after_meal(hunt, i as int, dt as int).wolves);
            assert(sheep@ =~= after_meal(hunt, i as int, dt as int).sheep);
        }
        i += 1;
    }
}

/// Whether a point is so far from the origin that a retreating wolf is gone
/// for good: farther than three times the level's size.
pub open spec fn is_far_out(p: Vec3, level_size: int) -> bool {
    level_size < 0 || p.norm_sq() > 9 * level_size * level_size
}

/// A retreating wolf as it runs: straight away from the origin at top
/// speed. Any other wolf is left as it is.
pub open spec fn retreating(wolf: Wolf) -> Wolf {
    match wolf.state {
        HuntState::Retreating(_) => Wolf {
            walk: WalkController {
                target_velocity: wolf.translation.resized(WOLF_SPEED as int),
                ..wolf.walk
            },
            ..wolf
        },
        _ => wolf,
    }
}

/// Whether a wolf leaves the field: it retreats and is far out.
pub open spec fn leaves(wolf: Wolf, level_size: int) -> bool {
    wolf.state is Retreating && is_far_out(wolf.translation, level_size)
}

/// Those of the first `n` wolves that stay on the field after a round of
/// retreat, in order.
pub open spec fn wolves_staying(wolves: Seq<Wolf>, level_size: int, n: int) -> Seq<Wolf>
    decreases n,
{
    if n <= 0 {
        Seq::empty()
    } else if leaves(wolves[n - 1], level_size) {
        wolves_staying(wolves, level_size, n - 1)
    } else {
        wolves_staying(wolves, level_size, n - 1).push(retreating(wolves[n - 1]))
    }
}

/// The ids of those of the first `n` wolves that leave the field, in order.
pub open spec fn wolves_leaving(wolves: Seq<Wolf>, level_size: int, n: int) -> Seq<u64>
    decreases n,
{
    if n <= 0 {
        Seq::empty()
    } else if leaves(wolves[n - 1], level_size) {
        wolves_leaving(wolves, level_size, n - 1).push(wolves[n - 1].id)
    } else {
        wolves_leaving(wolves, level_size, n - 1)
    }
}

/// Whether a point is far out.
pub fn far_out(p: Vec3, level_size: &LevelSize) -> (far: bool)
    ensures
        far == is_far_out(p, level_size.0 as int),
{
    if level_size.0 < 0 {
        true
    } else {
        let l: u128 = level_size.0 as u128;
        proof {
            lemma_square_bound(l as int, 0x8000_0000);
            assert(9 * (l * l) == 9 * l * l) by (nonlinear_arith);
        }
        p.length_squared() > 9 * (l * l)
    }
}

/// One round of retreat: every retreating wolf runs straight away from the
/// origin, and those that are far out leave the field. Returns the ids of
/// the wolves that left.
pub fn go_out_system(wolfs: &mut Vec<Wolf>, level_size: &LevelSize) -> (gone: Vec<u64>)
    ensures
        final(wolfs)@ == wolves_staying(old(wolfs)@, level_size.0 as int, old(wolfs).len() as int),
        gone@ == wolves_leaving(old(wolfs)@, level_size.0 as int, old(wolfs).len() as int),
{
    let mut staying: Vec<Wolf> = Vec::new();
    let mut gone: Vec<u64> = Vec::new();
    let mut i: usize = 0;
    while i < wolfs.len()
        invariant
            i <= wolfs.len(),
            wolfs@ == old(wolfs)@,
            staying@ == wolves_staying(old(wolfs)@, level_size.0 as int, i as int),
            gone@ == wolves_leaving(old(wolfs)@, level_size.0 as int, i as int),
        decreases wolfs.len() - i,
    {
        let mut wolf: Wolf = wolfs[i];
        match wolf.state {
            HuntState::Retreating(_) => {
                if far_out(wolf.translation, level_size) {
                    gone.push(wolf.id);
                } else {
                    wolf.walk.target_velocity = wolf.translation.with_length(WOLF_SPEED as i64);
                    staying.push(wolf);
                }
            },
            _ => {
                staying.push(wolf);
            },
        }
        i += 1;
    }
    *wolfs = staying;
    gone
}

/// Whether area `k` is the last of the areas that contains `p`.
pub open spec fn is_last_area_with(areas: Seq<SafeArea>, p: Vec2, k: int) -> bool {
    &&& 0 <= k < areas.len()
    &&& areas[k].contains(p)
    &&& forall|j: int| k < j < areas.len() ==> !(#[trigger] areas[j]).contains(p)
}

/// The last of the areas that contains `p`, if any does.
pub open spec fn last_area_with(areas: Seq<SafeArea>, p: Vec2) -> Option<int> {
    if exists|k: int| is_last_area_with(areas, p, k) {
        Some(choose|k: int| is_last_area_with(areas, p, k))
    } else {
        None
    }
}

/// Finds the last of the areas that contains `p`.
pub fn find_last_area_with(safe_areas: &Vec<SafeArea>, p: Vec2) -> (found: Option<usize>)
    ensures
        found matches Some(k) ==> is_last_area_with(safe_areas@, p, k as int) && last_area_with(
            safe_areas@,
            p,
        ) == Some(k as int),
        found is None ==> last_area_with(safe_areas@, p) is None,
        found is None ==> !in_any_area(safe_areas@, p),
{
    let mut found: Option<usize> = None;
    let mut k: usize = 0;
    while k < safe_areas.len()
        invariant
            k <= safe_areas.len(),
            found is None ==> forall|j: int| 0 <= j < k ==> !(#[trigger] safe_areas@[j]).contains(p),
            found matches Some(a) ==> {
                &&& a < k
                &&& safe_areas@[a as int].contains(p)
                &&& forall|j: int| a < j < k ==> !(#[trigger] safe_areas@[j]).contains(p)
            },
        decreases safe_areas.len() - k,
    {
        if safe_areas[k].in_area(p) {
            found = Some(k);
        }
        k += 1;
    }
    proof {
        match found {
            Some(a) => {
                assert(is_last_area_with(safe_areas@, p, a as int));
                let c = choose|c: int| is_last_area_with(safe_areas@, p, c);
                assert(safe_areas@[c].contains(p) && safe_areas@[a as int].contains(p));
                assert(c == a);
            },
            None => {
                assert forall|c: int| !is_last_area_with(safe_areas@, p, c) by {
                    if 0 <= c < safe_areas.len() {
                        assert(!safe_areas@[c].contains(p));
                    }
                }
            },
        }
    }
    found
}

/// Whether a wolf heeds the safe areas: it does not retreat yet, and is not
/// on a hunt that braves them.
pub open spec fn heeds_safe_areas(wolf: Wolf) -> bool {
    match wolf.state {
        HuntState::Retreating(_) => false,
        HuntState::SeekTarget(chase) => !chase.ignore_safe,
        HuntState::Eating(_) => true,
    }
}

/// The sheep after the wolf has given up what it was doing: if it was
/// after a sheep, the claim on that sheep is lifted.
pub open spec fn given_up(sheep: Seq<Sheep>, wolf: Wolf) -> Seq<Sheep> {
    match wolf.state {
        HuntState::SeekTarget(chase) => released(sheep, chase.target),
        _ => sheep,
    }
}

/// The hunt after wolf `i` has met the safe areas. A wolf that heeds them
/// and stands inside one is driven off: it retreats, straight away from the
/// centre of that area (the last, if it stands in several) at top speed, and
/// gives up its hunt.
pub open spec fn after_run_out(hunt: Hunt, i: int, areas: Seq<SafeArea>) -> Hunt {
    let wolf = hunt.wolves[i];
    let ground = Vec2 { x: wolf.translation.x, y: wolf.translation.z };
    if heeds_safe_areas(wolf) {
        match last_area_with(areas, ground) {
            Some(k) => Hunt {
                wolves: hunt.wolves.update(
                    i,
                    Wolf {
                        walk: WalkController {
                            target_velocity: wolf.translation.diff(
                                areas[k].center_on_ground(),
                            ).resized(WOLF_SPEED as int),
                            ..wolf.walk
                        },
                        state: HuntState::Retreating(GoOut),
                        ..wolf
                    },
                ),
                sheep: given_up(hunt.sheep, wolf),
                ..hunt
            },
            None => hunt,
        }
    } else {
        hunt
    }
}

/// The hunt after the first `n` wolves have met the safe areas.
pub open spec fn after_run_outs(hunt: Hunt, n: int, areas: Seq<SafeArea>) -> Hunt
    decreases n,
{
    if n <= 0 {
        hunt
    } else {
        after_run_out(after_run_outs(hunt, n - 1, areas), n - 1, areas)
    }
}

/// Drives off every wolf that stands in a safe area and heeds it.
pub fn run_out_system(wolfs: &mut Vec<Wolf>, sheep: &mut Vec<Sheep>, safe_areas: &Vec<SafeArea>)
    ensures
        ({
            let hunt = after_run_outs(
                Hunt { wolves: old(wolfs)@, sheep: old(sheep)@, corpses: Seq::empty() },
                old(wolfs).len() as int,
                safe_areas@,
            );
            &&& final(wolfs)@ == hunt.wolves
            &&& final(sheep)@ == hunt.sheep
        }),
        final(wolfs).len() == old(wolfs).len(),
        final(sheep).len() == old(sheep).len(),
{
    let ghost start = Hunt { wolves: old(wolfs)@, sheep: old(sheep)@, corpses: Seq::empty() };
    let mut i: usize = 0;
    while i < wolfs.len()
        invariant
            i <= wolfs.len(),
            wolfs.len() == old(wolfs).len(),
            sheep.len() == old(sheep).len(),
            start == (Hunt { wolves: old(wolfs)@, sheep: old(sheep)@, corpses: Seq::empty() }),
            after_run_outs(start, i as int, safe_areas@) == (Hunt {
                wolves: wolfs@,
                sheep: sheep@,
                corpses: Seq::empty(),
            }),
        decreases wolfs.len() - i,
    {
        let ghost hunt = after_run_outs(start, i as int, safe_areas@);
        let wolf: Wolf = wolfs[i];
        let heeds: bool = match wolf.state {
            HuntState::Retreating(_) => false,
            HuntState::SeekTarget(chase) => !chase.ignore_safe,
            HuntState::Eating(_) => true,
        };
        if heeds {
            let ground = Vec2 { x: wolf.translation.x, y: wolf.translation.z };
            if let Some(k) = find_last_area_with(safe_areas, ground) {
                wolfs[i].walk.target_velocity = wolf.translation.minus(
                    safe_areas[k].get_center(),
                ).with_length(WOLF_SPEED as i64);
                wolfs[i].state = HuntState::Retreating(GoOut);
                if let HuntState::SeekTarget(chase) = wolf.state {
                    release_claim(sheep, chase.target);
                }
            }
        }
        proof {
            assert(wolfs@ =~= after_run_out(hunt, i as int, safe_areas@).wolves);
            assert(sheep@ =~= after_run_out(hunt, i as int, safe_areas@).sheep);
        }
        i += 1;
    }
}

/// The hunt after wolf `i` has heard the bark, if it is within its reach:
/// whatever the wolf was doing, it retreats and gives up its hunt.
pub open spec fn after_bark(hunt: Hunt, i: int, bark: Bark) -> Hunt {
    let wolf = hunt.wolves[i];
    if wolf.translation.dist_sq(bark.position) < bark.radius * bark.radius {
        Hunt {
            wolves: hunt.wolves.update(i, Wolf { state: HuntState::Retreating(GoOut), ..wolf }),
            sheep: given_up(hunt.sheep, wolf),
            ..hunt
        }
    } else {
        hunt
    }
}

/// The hunt after the first `n` wolves have heard the bark.
pub open spec fn after_barks(hunt: Hunt, n: int, bark: Bark) -> Hunt
    decreases n,
{
    if n <= 0 {
        hunt
    } else {
        after_bark(after_barks(hunt, n - 1, bark), n - 1, bark)
    }
}

/// Drives off every wolf that hears the bark.
pub fn bark(wolfs: &mut Vec<Wolf>, sheep: &mut Vec<Sheep>, bark: &Bark)
    ensures
        ({
            let hunt = after_barks(
                Hunt { wolves: old(wolfs)@, sheep: old(sheep)@, corpses: Seq::empty() },
                old(wolfs).len() as int,
                *bark,
            );
            &&& final(wolfs)@ == hunt.wolves
            &&& final(sheep)@ == hunt.sheep
        }),
        final(wolfs).len() == old(wolfs).len(),
        final(sheep).len() == old(sheep).len(),
{
    let ghost start = Hunt { wolves: old(wolfs)@, sheep: old(sheep)@, corpses: Seq::empty() };
    let reach: u128 = squared(bark.radius);
    let mut i: usize = 0;
    while i < wolfs.len()
        invariant
            i <= wolfs.len(),
            wolfs.len() == old(wolfs).len(),
            sheep.len() == old(sheep).len(),
            reach == bark.radius * bark.radius,
            start == (Hunt { wolves: old(wolfs)@, sheep: old(sheep)@, corpses: Seq::empty() }),
            after_barks(start, i as int, *bark) == (Hunt {
                wolves: wolfs@,
                sheep: sheep@,
                corpses: Seq::empty(),
            }),
        decreases wolfs.len() - i,
    {
        let ghost hunt = after_barks(start, i as int, *bark);
        let wolf: Wolf = wolfs[i];
        if wolf.translation.distance_squared(bark.position) < reach {
            wolfs[i].state = HuntState::Retreating(GoOut);
            if let HuntState::SeekTarget(chase) = wolf.state {
                release_claim(sheep, chase.target);
            }
        }
        proof {
            assert(wolfs@ =~= after_bark(hunt, i as int, *bark).wolves);
            assert(sheep@ =~= after_bark(hunt, i as int, *bark).sheep);
        }
        i += 1;
    }
}

} // verus!
