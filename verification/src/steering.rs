//! How the flock shapes the way of each sheep: sheep keep their distance
//! from the nearest others and fall in with their pace.

use crate::sheep::{Decision, Sheep};
use crate::vector::{
    clamp_i32, div_trunc, lemma_product_bound, saturate, sqrt_floor, trunc_div, Vec3,
};
use vstd::prelude::*;

verus! {

/// The distance sheep like to keep from each other.
pub const PREFERED_DISTANCE: u32 = 1_000;

/// The distance in depth that sheep like to keep from each other, so that
/// they do not stand in one line.
pub const PREFERED_DY: u32 = 100;

/// Whether `i` is the place of the first sheep of the flock with this id.
pub open spec fn is_place_of(flock: Seq<Sheep>, id: u64, i: int) -> bool {
    &&& 0 <= i < flock.len()
    &&& flock[i].id == id
    &&& forall|j: int| 0 <= j < i ==> (#[trigger] flock[j]).id != id
}

/// The place of the sheep with this id in the flock, if it is still there.
pub open spec fn place_of(flock: Seq<Sheep>, id: u64) -> Option<int> {
    if exists|i: int| is_place_of(flock, id, i) {
        Some(choose|i: int| is_place_of(flock, id, i))
    } else {
        None
    }
}

/// Finds the sheep with this id.
pub fn find_sheep(flock: &Vec<Sheep>, id: u64) -> (place: Option<usize>)
    ensures
        place matches Some(i) ==> place_of(flock@, id) == Some(i as int) && is_place_of(
            flock@,
            id,
            i as int,
        ),
        place is None ==> place_of(flock@, id) is None,
        place is None ==> forall|j: int| 0 <= j < flock.len() ==> (#[trigger] flock[j]).id != id,
{
    let mut i: usize = 0;
    while i < flock.len()
        invariant
            i <= flock.len(),
            forall|j: int| 0 <= j < i ==> (#[trigger] flock[j]).id != id,
        decreases flock.len() - i,
    {
        if flock[i].id == id {
            proof {
                assert(is_place_of(flock@, id, i as int));
                let c = choose|c: int| is_place_of(flock@, id, c);
                assert(flock[c].id == id);
                assert(flock[i as int].id == id);
            }
            return Some(i);
        }
        i += 1;
    }
    proof {
        assert forall|c: int| !is_place_of(flock@, id, c) by {
            if 0 <= c < flock.len() {
                assert(flock[c].id != id);
            }
        }
    }
    None
}

/// What the neighbours of a sheep add up to. `push` is the sum of the
/// displacements away from the neighbours that are too near, each weighted
/// by how much too near, in permille; `lane` the sum of the pushes in depth;
/// `vel` the sum of the neighbours' velocities and `pace` that of their
/// speeds.
pub struct Crowd {
    pub count: int,
    pub push_x: int,
    pub push_y: int,
    pub push_z: int,
    pub lane: int,
    pub vel_x: int,
    pub vel_y: int,
    pub vel_z: int,
    pub pace: int,
}

/// The weight of the push away from a neighbour at distance `dist`, in
/// permille: one whole at distance zero, falling evenly to nothing at the
/// preferred distance.
pub open spec fn push_weight(dist: int) -> int {
    if dist < PREFERED_DISTANCE {
        (PREFERED_DISTANCE - dist) * 1000 / (PREFERED_DISTANCE as int)
    } else {
        0
    }
}

/// The push in depth away from a neighbour that stands `dz` behind, in
/// permille: one whole for a neighbour level with the sheep, falling evenly
/// to nothing at the preferred distance in depth. A neighbour that stands
/// level pushes forward.
pub open spec fn lane_push(dz: int) -> int {
    if vstd::math::abs(dz) < PREFERED_DY {
        let weight = (PREFERED_DY - vstd::math::abs(dz)) * 1000 / (PREFERED_DY as int);
        if dz >= 0 {
            weight
        } else {
            -weight
        }
    } else {
        0
    }
}

/// The crowd with one more neighbour, who stands at `pos` and moves with
/// `vel`, for a sheep at `me`.
pub open spec fn crowd_with(crowd: Crowd, me: Vec3, pos: Vec3, vel: Vec3) -> Crowd {
    let weight = push_weight(sqrt_floor(me.dist_sq(pos)));
    Crowd {
        count: crowd.count + 1,
        push_x: crowd.push_x + (me.x - pos.x) * weight,
        push_y: crowd.push_y + (me.y - pos.y) * weight,
        push_z: crowd.push_z + (me.z - pos.z) * weight,
        lane: crowd.lane + lane_push(me.z - pos.z),
        vel_x: crowd.vel_x + vel.x,
        vel_y: crowd.vel_y + vel.y,
        vel_z: crowd.vel_z + vel.z,
        pace: crowd.pace + vel.length_spec(),
    }
}

/// The crowd of the neighbours listed as entries `1 .. n` of `list`, for a
/// sheep at `me`. Entry 0 is the sheep itself. A neighbour counts with its
/// present position and velocity, and only if it is still in the flock.
pub open spec fn crowd_of(flock: Seq<Sheep>, me: Vec3, list: Seq<(Vec3, Option<u64>)>, n: int) -> Crowd
    decreases n,
{
    if n <= 1 {
        Crowd {
            count: 0,
            push_x: 0,
            push_y: 0,
            push_z: 0,
            lane: 0,
            vel_x: 0,
            vel_y: 0,
            vel_z: 0,
            pace: 0,
        }
    } else {
        let rest = crowd_of(flock, me, list, n - 1);
        match list[n - 1].1 {
            Some(id) => match place_of(flock, id) {
                Some(j) => crowd_with(rest, me, flock[j].translation, flock[j].velocity.0),
                None => rest,
            },
            None => rest,
        }
    }
}

/// The greatest of three numbers.
pub open spec fn max3(a: int, b: int, c: int) -> int {
    if a >= b && a >= c {
        a
    } else if b >= c {
        b
    } else {
        c
    }
}

/// The velocity a sheep is steered to: its own goal, pushed away from the
/// neighbours that are too near. The push counts tenfold; the sum of goal
/// and pushes is scaled so that it keeps the way it points but is about as
/// long as the longest of the goal, the push and the neighbours' common
/// heading. A sheep without neighbours follows its goal alone.
pub open spec fn blended(goal: Vec3, crowd: Crowd) -> Vec3 {
    if crowd.count == 0 {
        goal
    } else {
        let push = Vec3 {
            x: clamp_i32(trunc_div(crowd.push_x, 100)) as i32,
            y: clamp_i32(trunc_div(crowd.push_y, 100)) as i32,
            z: clamp_i32(trunc_div(crowd.push_z, 100)) as i32,
        };
        let lane = Vec3 { x: 0, y: 0, z: clamp_i32(crowd.lane) as i32 };
        let heading = if crowd.pace == 0 {
            Vec3 { x: 0, y: 0, z: 0 }
        } else {
            Vec3 {
                x: clamp_i32(trunc_div(crowd.vel_x * 1000, crowd.pace)) as i32,
                y: clamp_i32(trunc_div(crowd.vel_y * 1000, crowd.pace)) as i32,
                z: clamp_i32(trunc_div(crowd.vel_z * 1000, crowd.pace)) as i32,
            }
        };
        let weights = goal.length_spec() + push.length_spec() + lane.length_spec();
        let longest = max3(goal.length_spec(), heading.length_spec(), push.length_spec());
        if weights == 0 {
            Vec3 { x: 0, y: 0, z: 0 }
        } else {
            goal.sum(push).sum(lane).scaled(longest, weights)
        }
    }
}

impl Sheep {
    /// The velocity this sheep is steered to within `flock`: its goal and
    /// the push of its neighbours blended, and the whole cut down to the top
    /// speed of the sheep.
    pub open spec fn steering(self, flock: Seq<Sheep>) -> Vec3 {
        blended(
            self.target_vel.0,
            crowd_of(flock, self.translation, self.nearest.0@, self.nearest.0@.len() as int),
        ).capped(self.walk.max_speed as int)
    }

    /// The sheep after steering within `flock`: a sheep that is doing
    /// something is steered anew, one that waits for its next decision is
    /// left as it is.
    pub open spec fn after_steering(self, flock: Seq<Sheep>) -> Sheep {
        if self.decision != Decision::Idle {
            Sheep {
                walk: crate::physics::WalkController {
                    target_velocity: self.steering(flock),
                    ..self.walk
                },
                ..self
            }
        } else {
            self
        }
    }
}

/// However the flock pushes, no sheep is steered to more than its top speed.
pub proof fn lemma_steering_keeps_top_speed(sheep: Sheep, flock: Seq<Sheep>)
    ensures
        sheep.steering(flock).norm_sq() <= sheep.walk.max_speed * sheep.walk.max_speed,
        sheep.decision != Decision::Idle ==> sheep.after_steering(
            flock,
        ).walk.target_velocity.norm_sq() <= sheep.walk.max_speed * sheep.walk.max_speed,
{
    crate::vector::lemma_capped_not_longer(
        blended(
            sheep.target_vel.0,
            crowd_of(flock, sheep.translation, sheep.nearest.0@, sheep.nearest.0@.len() as int),
        ),
        sheep.walk.max_speed as int,
    );
}

/// The sums of a crowd as they are worked out.
pub struct CrowdSums {
    pub count: usize,
    pub push_x: i128,
    pub push_y: i128,
    pub push_z: i128,
    pub lane: i128,
    pub vel_x: i128,
    pub vel_y: i128,
    pub vel_z: i128,
    pub pace: i128,
}

impl CrowdSums {
    /// The crowd that these sums stand for.
    pub open spec fn view(self) -> Crowd {
        Crowd {
            count: self.count as int,
            push_x: self.push_x as int,
            push_y: self.push_y as int,
            push_z: self.push_z as int,
            lane: self.lane as int,
            vel_x: self.vel_x as int,
            vel_y: self.vel_y as int,
            vel_z: self.vel_z as int,
            pace: self.pace as int,
        }
    }

    /// The sums are those of at most `n` neighbours.
    pub open spec fn within(self, n: int) -> bool {
        &&& self.count <= n
        &&& -0x400_0000_0000 * n <= self.push_x <= 0x400_0000_0000 * n
        &&& -0x400_0000_0000 * n <= self.push_y <= 0x400_0000_0000 * n
        &&& -0x400_0000_0000 * n <= self.push_z <= 0x400_0000_0000 * n
        &&& -1000 * n <= self.lane <= 1000 * n
        &&& -0x8000_0000 * n <= self.vel_x <= 0x8000_0000 * n
        &&& -0x8000_0000 * n <= self.vel_y <= 0x8000_0000 * n
        &&& -0x8000_0000 * n <= self.vel_z <= 0x8000_0000 * n
        &&& 0 <= self.pace <= 0x1_0000_0000 * n
    }

    /// Adds a neighbour who stands at `pos` and moves with `vel`, for a
    /// sheep at `me`.
    fn add_neighbour(&mut self, me: Vec3, pos: Vec3, vel: Vec3, Ghost(n): Ghost<int>)
        requires
            old(self).within(n),
            0 <= n < usize::MAX,
        ensures
            final(self)@ == crowd_with(old(self)@, me, pos, vel),
            final(self).within(n + 1),
    {
        let dist: u64 = me.distance(pos);
        let weight: i128 = if dist < PREFERED_DISTANCE as u64 {
            ((PREFERED_DISTANCE as u64 - dist) * 1000 / PREFERED_DISTANCE as u64) as i128
        } else {
            0
        };
        let dx: i128 = me.x as i128 - pos.x as i128;
        let dy: i128 = me.y as i128 - pos.y as i128;
        let dz: i128 = me.z as i128 - pos.z as i128;
        let depth: i128 = if dz < 0 { -dz } else { dz };
        let lane: i128 = if depth < PREFERED_DY as i128 {
            let w: i128 = (PREFERED_DY as i128 - depth) * 1000 / PREFERED_DY as i128;
            if dz >= 0 { w } else { -w }
        } else {
            0
        };
        proof {
            lemma_product_bound(dx as int, weight as int, 0x1_0000_0000, 1000);
            lemma_product_bound(dy as int, weight as int, 0x1_0000_0000, 1000);
            lemma_product_bound(dz as int, weight as int, 0x1_0000_0000, 1000);
        }
        self.count = self.count + 1;
        self.push_x = self.push_x + dx * weight;
        self.push_y = self.push_y + dy * weight;
        self.push_z = self.push_z + dz * weight;
        self.lane = self.lane + lane;
        self.vel_x = self.vel_x + vel.x as i128;
        self.vel_y = self.vel_y + vel.y as i128;
        self.vel_z = self.vel_z + vel.z as i128;
        self.pace = self.pace + vel.length() as i128;
    }

    /// The velocity that a sheep with this crowd and the goal `goal` is
    /// steered to.
    pub fn blend(&self, goal: Vec3) -> (vel: Vec3)
        requires
            self.within(usize::MAX as int),
        ensures
            vel == blended(goal, self@),
    {
        if self.count == 0 {
            return goal;
        }
        let push: Vec3 = Vec3 {
            x: saturate(div_trunc(self.push_x, 100)),
            y: saturate(div_trunc(self.push_y, 100)),
            z: saturate(div_trunc(self.push_z, 100)),
        };
        let lane: Vec3 = Vec3 { x: 0, y: 0, z: saturate(self.lane) };
        let heading: Vec3 = if self.pace == 0 {
            Vec3::zero()
        } else {
            Vec3 {
                x: saturate(div_trunc(self.vel_x * 1000, self.pace)),
                y: saturate(div_trunc(self.vel_y * 1000, self.pace)),
                z: saturate(div_trunc(self.vel_z * 1000, self.pace)),
            }
        };
        let goal_len: u64 = goal.length();
        let push_len: u64 = push.length();
        let heading_len: u64 = heading.length();
        let weights: u64 = goal_len + push_len + lane.length();
        let longest: u64 = if goal_len >= heading_len && goal_len >= push_len {
            goal_len
        } else if heading_len >= push_len {
            heading_len
        } else {
            push_len
        };
        if weights == 0 {
            Vec3::zero()
        } else {
            goal.plus(push).plus(lane).times(longest as i64, weights as i64)
        }
    }
}

/// Adds up the crowd of the sheep in place `i` of the flock.
pub fn gather(flock: &Vec<Sheep>, i: usize) -> (sums: CrowdSums)
    requires
        i < flock.len(),
    ensures
        sums@ == crowd_of(
            flock@,
            flock[i as int].translation,
            flock[i as int].nearest.0@,
            flock[i as int].nearest.0@.len() as int,
        ),
        sums.within(usize::MAX as int),
{
    let me: Vec3 = flock[i].translation;
    let mut sums = CrowdSums {
        count: 0,
        push_x: 0,
        push_y: 0,
        push_z: 0,
        lane: 0,
        vel_x: 0,
        vel_y: 0,
        vel_z: 0,
        pace: 0,
    };
    let len: usize = flock[i].nearest.0.len();
    let mut n: usize = 1;
    while n < len
        invariant
            i < flock.len(),
            len == flock[i as int].nearest.0@.len(),
            me == flock[i as int].translation,
            1 <= n,
            n <= len || n == 1,
            sums.within(n - 1),
            sums@ == crowd_of(flock@, me, flock[i as int].nearest.0@, n as int),
        decreases len - n,
    {
        if let Some(id) = flock[i].nearest.0[n].1 {
            if let Some(j) = find_sheep(flock, id) {
                sums.add_neighbour(me, flock[j].translation, flock[j].velocity.0, Ghost(n - 1));
            }
        }
        n += 1;
    }
    proof {
        if len == 0 {
            assert(crowd_of(flock@, me, flock[i as int].nearest.0@, 0) == crowd_of(
                flock@,
                me,
                flock[i as int].nearest.0@,
                1,
            ));
        }
    }
    sums
}

/// Steers every sheep that is doing something: its own goal and the push of
/// the flock together, cut down to its top speed, give the velocity it is to
/// take up. All sheep are steered by the flock as it stood when the round
/// began.
pub fn collect_field(sheep: &mut Vec<Sheep>)
    ensures
        final(sheep).len() == old(sheep).len(),
        forall|i: int|
            0 <= i < old(sheep).len() ==> final(sheep)[i] == #[trigger] old(sheep)[i].after_steering(
                old(sheep)@,
            ),
{
    let mut wanted: Vec<Option<Vec3>> = Vec::new();
    let mut i: usize = 0;
    while i < sheep.len()
        invariant
            i <= sheep.len(),
            sheep@ == old(sheep)@,
            wanted@.len() == i,
            forall|j: int|
                0 <= j < i ==> #[trigger] wanted@[j] == if old(sheep)[j].decision != Decision::Idle {
                    Some(old(sheep)[j].steering(old(sheep)@))
                } else {
                    None
                },
        decreases sheep.len() - i,
    {
        if sheep[i].decision != Decision::Idle {
            let sums: CrowdSums = gather(sheep, i);
            wanted.push(
                Some(sums.blend(sheep[i].target_vel.0).clamp_length_max(sheep[i].walk.max_speed)),
            );
        } else {
            wanted.push(None);
        }
        i += 1;
    }
    let mut k: usize = 0;
    while k < sheep.len()
        invariant
            k <= sheep.len(),
            sheep.len() == old(sheep).len(),
            wanted@.len() == sheep.len(),
            forall|j: int|
                0 <= j < wanted@.len() ==> #[trigger] wanted@[j] == if old(sheep)[j].decision
                    != Decision::Idle {
                    Some(old(sheep)[j].steering(old(sheep)@))
                } else {
                    None
                },
            forall|j: int|
                0 <= j < k ==> sheep[j] == #[trigger] old(sheep)[j].after_steering(old(sheep)@),
            forall|j: int| k <= j < sheep.len() ==> sheep[j] == old(sheep)[j],
        decreases sheep.len() - k,
    {
        if let Some(vel) = wanted[k] {
            sheep[k].walk.target_velocity = vel;
        }
        k += 1;
    }
}

} // verus!
