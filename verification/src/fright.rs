//! Frightened sheep: how they run from the dog and when the fright ends.

use crate::sheep::{
    Decision, IsScared, Sheep, SheepTargetVel, FRIGHT_DURATION, SCARE_MAX_DIST, SHEEP_SPEED,
    WALK_SPEED,
};
use crate::vector::{
    clamp_i32, div_trunc, lemma_product_bound, lemma_resized_not_longer, saturate, trunc_div, Vec3,
};
use vstd::prelude::*;

verus! {

/// How fast a scared sheep runs with the dog `dog_distance` away: at walking
/// speed at the far end of the dog's reach and beyond, and the faster the
/// nearer the dog is.
pub open spec fn fright_speed(dog_distance: int) -> int {
    let speed = SHEEP_SPEED - SHEEP_SPEED * dog_distance / (SCARE_MAX_DIST as int) + WALK_SPEED;
    if speed > WALK_SPEED {
        speed
    } else {
        WALK_SPEED as int
    }
}

/// The dot product of the two displacements from `origin` to `a` and to `b`,
/// exactly.
pub open spec fn dot_from(origin: Vec3, a: Vec3, b: Vec3) -> int {
    (a.x - origin.x) * (b.x - origin.x) + (a.y - origin.y) * (b.y - origin.y) + (a.z - origin.z)
        * (b.z - origin.z)
}

/// Whether a neighbour at `neighbour` stands on the same side of the dog as
/// the sheep at `me`.
pub open spec fn is_fellow(dog: Vec3, me: Vec3, neighbour: Vec3) -> bool {
    dot_from(dog, neighbour, me) >= 0
}

/// A count of points and the sums of their coordinates.
pub struct Tally {
    pub count: int,
    pub x: int,
    pub y: int,
    pub z: int,
}

/// The tally of the fellows among the entries `1 .. n` of a list of nearest
/// sheep. Entry 0 is the sheep itself and is left out.
pub open spec fn fellows(list: Seq<(Vec3, Option<u64>)>, dog: Vec3, me: Vec3, n: int) -> Tally
    decreases n,
{
    if n <= 1 {
        Tally { count: 0, x: 0, y: 0, z: 0 }
    } else {
        let rest = fellows(list, dog, me, n - 1);
        let pos = list[n - 1].0;
        if is_fellow(dog, me, pos) {
            Tally {
                count: rest.count + 1,
                x: rest.x + pos.x,
                y: rest.y + pos.y,
                z: rest.z + pos.z,
            }
        } else {
            rest
        }
    }
}

/// The mean of the points of a tally that holds at least one.
pub open spec fn tally_mean(t: Tally) -> Vec3 {
    Vec3 {
        x: clamp_i32(trunc_div(t.x, t.count)) as i32,
        y: clamp_i32(trunc_div(t.y, t.count)) as i32,
        z: clamp_i32(trunc_div(t.z, t.count)) as i32,
    }
}

/// The velocity with which a scared sheep at `me` flees from the dog. Alone,
/// it runs straight away from the dog. With fellows, it runs the way their
/// mean position lies from the dog; and if that position is no nearer to the
/// dog than the sheep itself, it bears towards it as well.
pub open spec fn flee_velocity(me: Vec3, dog: Vec3, list: Seq<(Vec3, Option<u64>)>) -> Vec3 {
    let away = me.diff(dog);
    let speed = fright_speed(away.length_spec());
    let tally = fellows(list, dog, me, list.len() as int);
    if tally.count > 0 {
        let mean = tally_mean(tally);
        let heading = mean.diff(dog);
        if heading.norm_sq() < away.norm_sq() {
            heading.resized(speed)
        } else {
            heading.resized(1000).sum(mean.diff(me).resized(1500)).resized(speed)
        }
    } else {
        away.resized(speed)
    }
}

impl Sheep {
    /// The sheep after `dt` milliseconds of fright with the dog at `dog`. A
    /// fright that has lasted longer than `FRIGHT_DURATION` ends: the sheep
    /// stops and waits for its next decision. Until then the fright grows
    /// older by `dt`, and the sheep flees: from a dog within
    /// `SCARE_MAX_DIST` with a velocity worked out anew, from one farther
    /// away with the velocity it fled with last.
    pub open spec fn after_fright(self, dt: int, dog: Vec3) -> Sheep {
        match self.is_scared {
            None => self,
            Some(scare) => if scare.time > FRIGHT_DURATION {
                Sheep {
                    decision: Decision::Idle,
                    target_vel: SheepTargetVel(Vec3 { x: 0, y: 0, z: 0 }),
                    is_scared: None,
                    ..self
                }
            } else {
                let vel = if self.translation.diff(dog).length_spec() > SCARE_MAX_DIST {
                    scare.last_vel
                } else {
                    flee_velocity(self.translation, dog, self.nearest.0@)
                };
                Sheep {
                    target_vel: SheepTargetVel(vel),
                    is_scared: Some(IsScared { time: (scare.time + dt) as u64, last_vel: vel }),
                    ..self
                }
            },
        }
    }

    /// The sheep after one round of fright for each of the time steps, in
    /// order, with the dog where `dogs` has it in that round.
    pub open spec fn after_frights(self, dts: Seq<u32>, dogs: Seq<Vec3>) -> Sheep
        decreases dts.len(),
    {
        if dts.len() == 0 {
            self
        } else {
            self.after_frights(dts.drop_last(), dogs.drop_last()).after_fright(
                dts.last() as int,
                dogs.last(),
            )
        }
    }
}

/// The sum of the time steps.
pub open spec fn elapsed(dts: Seq<u32>) -> int
    decreases dts.len(),
{
    if dts.len() == 0 {
        0
    } else {
        elapsed(dts.drop_last()) + dts.last()
    }
}

/// A fright does not end early: a sheep whose fright has just begun is still
/// scared after any number of rounds that together take no longer than
/// `FRIGHT_DURATION`, and its fright is as old as those rounds took.
pub proof fn lemma_fright_lasts(sheep: Sheep, dts: Seq<u32>, dogs: Seq<Vec3>)
    requires
        sheep.is_scared matches Some(scare) && scare.time == 0,
        dts.len() == dogs.len(),
        elapsed(dts) <= FRIGHT_DURATION,
    ensures
        sheep.after_frights(dts, dogs).is_scared matches Some(scare) && scare.time == elapsed(dts),
        sheep.after_frights(dts, dogs).decision == sheep.decision,
    decreases dts.len(),
{
    if dts.len() > 0 {
        lemma_fright_lasts(sheep, dts.drop_last(), dogs.drop_last());
    }
}

/// A fright ends in the first round that finds it older than
/// `FRIGHT_DURATION`: the sheep is then idle, wants no velocity and carries
/// no fright.
pub proof fn lemma_fright_ends(sheep: Sheep, dt: int, dog: Vec3)
    requires
        sheep.is_scared matches Some(scare) && scare.time > FRIGHT_DURATION,
    ensures
        sheep.after_fright(dt, dog).decision == Decision::Idle,
        sheep.after_fright(dt, dog).is_scared is None,
        sheep.after_fright(dt, dog).target_vel == SheepTargetVel(Vec3 { x: 0, y: 0, z: 0 }),
{
}

/// How fast a scared sheep runs with the dog `dog_distance` away.
pub fn speed_of_fright(dog_distance: u64) -> (speed: u32)
    requires
        dog_distance <= 0x2_0000_0000,
    ensures
        speed as int == fright_speed(dog_distance as int),
        WALK_SPEED <= speed <= SHEEP_SPEED + WALK_SPEED,
{
    assert(SHEEP_SPEED * dog_distance <= 6_250 * 0x2_0000_0000) by (nonlinear_arith)
        requires
            SHEEP_SPEED == 6_250,
            0 <= dog_distance <= 0x2_0000_0000,
    ;
    let drop: u64 = SHEEP_SPEED as u64 * dog_distance / SCARE_MAX_DIST as u64;
    if drop >= SHEEP_SPEED as u64 {
        WALK_SPEED
    } else {
        SHEEP_SPEED - drop as u32 + WALK_SPEED
    }
}

/// Whether a neighbour stands on the same side of the dog as the sheep.
pub fn on_same_side(dog: Vec3, me: Vec3, neighbour: Vec3) -> (same: bool)
    ensures
        same == is_fellow(dog, me, neighbour),
{
    let ax: i128 = neighbour.x as i128 - dog.x as i128;
    let ay: i128 = neighbour.y as i128 - dog.y as i128;
    let az: i128 = neighbour.z as i128 - dog.z as i128;
    let bx: i128 = me.x as i128 - dog.x as i128;
    let by: i128 = me.y as i128 - dog.y as i128;
    let bz: i128 = me.z as i128 - dog.z as i128;
    proof {
        lemma_product_bound(ax as int, bx as int, 0x1_0000_0000, 0x1_0000_0000);
        lemma_product_bound(ay as int, by as int, 0x1_0000_0000, 0x1_0000_0000);
        lemma_product_bound(az as int, bz as int, 0x1_0000_0000, 0x1_0000_0000);
    }
    ax * bx + ay * by + az * bz >= 0
}

/// The velocity with which a scared sheep at `me` flees from the dog, given
/// the nearest sheep as it last knew them.
pub fn velocity_of_flight(me: Vec3, dog: Vec3, list: &Vec<(Vec3, Option<u64>)>) -> (vel: Vec3)
    ensures
        vel == flee_velocity(me, dog, list@),
{
    let away: Vec3 = me.minus(dog);
    let speed: u32 = speed_of_fright(away.length());
    let mut count: i128 = 0;
    let mut sx: i128 = 0;
    let mut sy: i128 = 0;
    let mut sz: i128 = 0;
    let mut n: usize = 1;
    while n < list.len()
        invariant
            1 <= n,
            n <= list.len() || n == 1,
            0 <= count <= n,
            -0x8000_0000 * n <= sx <= 0x8000_0000 * n,
            -0x8000_0000 * n <= sy <= 0x8000_0000 * n,
            -0x8000_0000 * n <= sz <= 0x8000_0000 * n,
            fellows(list@, dog, me, n as int) == (Tally {
                count: count as int,
                x: sx as int,
                y: sy as int,
                z: sz as int,
            }),
        decreases list.len() - n,
    {
        let pos: Vec3 = list[n].0;
        if on_same_side(dog, me, pos) {
            count = count + 1;
            sx = sx + pos.x as i128;
            sy = sy + pos.y as i128;
            sz = sz + pos.z as i128;
        }
        n += 1;
    }
    proof {
        if list.len() == 0 {
            assert(fellows(list@, dog, me, 0) == fellows(list@, dog, me, 1));
        }
    }
    let ghost tally = fellows(list@, dog, me, list.len() as int);
    assert(tally == (Tally { count: count as int, x: sx as int, y: sy as int, z: sz as int }));
    if count > 0 {
        let mean: Vec3 = Vec3 {
            x: saturate(div_trunc(sx, count)),
            y: saturate(div_trunc(sy, count)),
            z: saturate(div_trunc(sz, count)),
        };
        let heading: Vec3 = mean.minus(dog);
        if heading.length_squared() < away.length_squared() {
            heading.with_length(speed as i64)
        } else {
            heading.with_length(1000).plus(mean.minus(me).with_length(1500)).with_length(
                speed as i64,
            )
        }
    } else {
        away.with_length(speed as i64)
    }
}

impl Sheep {
    /// `dt` milliseconds of fright, if the sheep is scared.
    pub fn flee(&mut self, dt: u32, dog: Vec3)
        ensures
            *final(self) == old(self).after_fright(dt as int, dog),
    {
        if let Some(scare) = self.is_scared {
            if scare.time > FRIGHT_DURATION {
                self.decision = Decision::Idle;
                self.target_vel = SheepTargetVel(Vec3::zero());
                self.is_scared = None;
            } else {
                let vel: Vec3 = if self.translation.minus(dog).length() > SCARE_MAX_DIST as u64 {
                    scare.last_vel
                } else {
                    velocity_of_flight(self.translation, dog, &self.nearest.0)
                };
                self.target_vel = SheepTargetVel(vel);
                self.is_scared = Some(IsScared { time: scare.time + dt as u64, last_vel: vel });
            }
        }
    }
}

/// `dt` milliseconds of fright for every scared sheep, with the dog at
/// `dog`.
pub fn update_scared_sheeps(sheeps: &mut Vec<Sheep>, dt: u32, dog: Vec3)
    ensures
        final(sheeps).len() == old(sheeps).len(),
        forall|i: int|
            0 <= i < old(sheeps).len() ==> final(sheeps)[i] == #[trigger] old(
                sheeps,
            )[i].after_fright(dt as int, dog),
{
    let mut i: usize = 0;
    while i < sheeps.len()
        invariant
            i <= sheeps.len(),
            sheeps.len() == old(sheeps).len(),
            forall|j: int|
                0 <= j < i ==> sheeps[j] == #[trigger] old(sheeps)[j].after_fright(dt as int, dog),
            forall|j: int| i <= j < sheeps.len() ==> sheeps[j] == old(sheeps)[j],
        decreases sheeps.len() - i,
    {
        sheeps[i].flee(dt, dog);
        i += 1;
    }
}

/// What a sheep carries keeps matching what it is doing through a round of
/// fright.
pub proof fn lemma_fright_keeps_sheep_well_formed(sheep: Sheep, dt: int, dog: Vec3)
    requires
        sheep.wf(),
    ensures
        sheep.after_fright(dt, dog).wf(),
{
}

/// A sheep flees no faster than the speed of its fright allows, which is at
/// most its top speed and walking speed together.
pub proof fn lemma_flight_speed_is_kept(me: Vec3, dog: Vec3, list: Seq<(Vec3, Option<u64>)>)
    ensures
        flee_velocity(me, dog, list).norm_sq() <= fright_speed(me.diff(dog).length_spec())
            * fright_speed(me.diff(dog).length_spec()),
        WALK_SPEED <= fright_speed(me.diff(dog).length_spec()) <= SHEEP_SPEED + WALK_SPEED,
{
    let away = me.diff(dog);
    let speed = fright_speed(away.length_spec());
    let tally = fellows(list, dog, me, list.len() as int);
    let mean = tally_mean(tally);
    let heading = mean.diff(dog);
    lemma_resized_not_longer(heading, speed);
    lemma_resized_not_longer(heading.resized(1000).sum(mean.diff(me).resized(1500)), speed);
    lemma_resized_not_longer(away, speed);
    let n = away.norm_sq();
    assert(n >= 0) by (nonlinear_arith)
        requires
            n == away.x * away.x + away.y * away.y + away.z * away.z,
    ;
    crate::vector::lemma_sqrt_floor(n);
    let d = away.length_spec();
    assert(SHEEP_SPEED * d / (SCARE_MAX_DIST as int) >= 0) by (nonlinear_arith)
        requires
            d >= 0,
            SHEEP_SPEED == 6250,
            SCARE_MAX_DIST == 10000,
    ;
}

} // verus!
