//! The sheep: what each one is doing, how it decides what to do next, and
//! how it moves with the flock.

use crate::level::LevelSize;
use crate::physics::{Velocity, WalkController};
use crate::player::Bark;
use crate::safe_area::SafeArea;
use crate::random::random_range;
use crate::vector::{
    lemma_capped_not_longer, lemma_resized_not_longer, lemma_sum_stays_near, squared, Vec2, Vec3,
};
use rand::rngs::ThreadRng;
use vstd::prelude::*;

verus! {

/// The top speed of a sheep: half the dog's.
pub const SHEEP_SPEED: u32 = 6_250;

/// How fast a sheep changes its velocity.
pub const SHEEP_ACCELERATION: u32 = 18_750;

/// How far from where it stands a random walk may lead.
pub const RANDOM_WALK_RANGE: u32 = 2_000;

/// How near its target a sheep has to come to have arrived.
pub const RANDOM_WALK_ACCEPT_RADIUS: u32 = 500;

/// The share of its top speed a sheep walks with, in permille.
pub const RANDOM_WALK_SPEED_MULTIPLIER: u32 = 300;

/// The walking speed of a sheep.
pub const WALK_SPEED: u32 = 1_875;

/// The shortest time a sheep feeds, in milliseconds.
pub const IDLE_FEEDING_TIME: u64 = 2_500;

/// By how much the feeding time varies, in milliseconds.
pub const IDLE_FEEDING_TIME_RANGE: u64 = 1_000;

/// How far a sheep walks towards a safe area at a time.
pub const MOVE_IN_DIST: u32 = 11_000;

/// How far a sheep runs when it escapes from a safe area.
pub const MOVE_OUT_DIST: u32 = 10_000;

/// The distance beyond which the dog no longer drives a scared sheep.
pub const SCARE_MAX_DIST: u32 = 10_000;

/// How long a fright lasts, in milliseconds.
pub const FRIGHT_DURATION: u64 = 3_000;

/// What a sheep is doing.
#[derive(Clone, Copy, Debug, PartialEq, Eq, Structural)]
pub enum Decision {
    /// Waiting for its next decision, which the next round makes.
    Idle,
    /// Standing and feeding for a while.
    Feed,
    /// Walking to a point nearby.
    RandomWalk,
    /// Walking towards a safe area.
    MoveToSafeArea,
    /// Running away from the safe areas.
    Escape,
    /// Frightened: makes no decision until the fright is over.
    Scared,
}

impl Default for Decision {
    fn default() -> (d: Decision)
        ensures
            d == Decision::Idle,
    {
        Decision::Idle
    }
}

/// The relative weights with which an idle sheep picks what to do next.
/// Only their proportions count; an entry of weight zero is never picked.
#[derive(Clone, Debug)]
pub struct StateChance {
    pub next_state: Vec<(u32, Decision)>,
}

/// The sum of the first `n` weights of a table.
pub open spec fn weight_before(table: Seq<(u32, Decision)>, n: int) -> int
    decreases n,
{
    if n <= 0 {
        0
    } else {
        weight_before(table, n - 1) + table[n - 1].0
    }
}

/// The sum of all weights of a table.
pub open spec fn total_weight(table: Seq<(u32, Decision)>) -> int {
    weight_before(table, table.len() as int)
}

/// Whether ticket `p` falls to entry `i`: the entries divide the tickets
/// `0 .. total_weight` among themselves in order, each taking as many as its
/// weight.
pub open spec fn ticket_falls_to(table: Seq<(u32, Decision)>, p: int, i: int) -> bool {
    0 <= i < table.len() && weight_before(table, i) <= p < weight_before(table, i + 1)
}

/// The decision that ticket `p` selects: that of the entry it falls to, and
/// `Idle` if it falls to none.
pub open spec fn selected(table: Seq<(u32, Decision)>, p: int) -> Decision {
    if exists|i: int| ticket_falls_to(table, p, i) {
        table[choose|i: int| ticket_falls_to(table, p, i)].1
    } else {
        Decision::Idle
    }
}

/// The sums of the weights grow with the number of entries summed.
pub proof fn lemma_weight_monotonic(table: Seq<(u32, Decision)>, i: int, j: int)
    requires
        0 <= i <= j,
    ensures
        0 <= weight_before(table, i) <= weight_before(table, j),
    decreases j,
{
    if i < j {
        lemma_weight_monotonic(table, i, j - 1);
    } else if j > 0 {
        lemma_weight_monotonic(table, i - 1, j - 1);
    }
}

/// A ticket falls to at most one entry.
pub proof fn lemma_ticket_unique(table: Seq<(u32, Decision)>, p: int, i: int, j: int)
    requires
        ticket_falls_to(table, p, i),
        ticket_falls_to(table, p, j),
    ensures
        i == j,
{
    if i < j {
        lemma_weight_monotonic(table, i + 1, j);
    } else if j < i {
        lemma_weight_monotonic(table, j + 1, i);
    }
}

/// The tickets that select entry `i` are exactly the `weight` many from
/// `weight_before(i)` on, so a ticket drawn evenly from `0 .. total_weight`
/// selects each entry with a chance proportional to its weight.
pub proof fn lemma_selection_is_proportional(table: Seq<(u32, Decision)>, i: int, p: int)
    requires
        0 <= i < table.len(),
    ensures
        ticket_falls_to(table, p, i) <==> weight_before(table, i) <= p < weight_before(table, i)
            + table[i].0,
        ticket_falls_to(table, p, i) ==> selected(table, p) == table[i].1,
        ticket_falls_to(table, p, i) ==> 0 <= p < total_weight(table),
{
    if ticket_falls_to(table, p, i) {
        let k = choose|k: int| ticket_falls_to(table, p, k);
        lemma_ticket_unique(table, p, i, k);
        lemma_weight_monotonic(table, 0, i);
        lemma_weight_monotonic(table, i + 1, table.len() as int);
    }
}

/// A ticket outside `0 .. total_weight` falls to no entry and selects `Idle`.
pub proof fn lemma_no_ticket_no_entry(table: Seq<(u32, Decision)>, p: int)
    requires
        p < 0 || p >= total_weight(table),
    ensures
        selected(table, p) == Decision::Idle,
{
    assert forall|i: int| !ticket_falls_to(table, p, i) by {
        if 0 <= i < table.len() {
            lemma_weight_monotonic(table, 0, i);
            lemma_weight_monotonic(table, i + 1, table.len() as int);
        }
    }
}

/// A fright: for how long the sheep has been scared, in milliseconds, and the
/// velocity it last fled with.
#[derive(Clone, Copy, Debug, PartialEq, Eq, Structural)]
pub struct IsScared {
    pub time: u64,
    pub last_vel: Vec3,
}

impl Default for IsScared {
    fn default() -> (scare: IsScared)
        ensures
            scare == (IsScared { time: 0, last_vel: Vec3 { x: 0, y: 0, z: 0 } }),
    {
        IsScared { time: 0, last_vel: Vec3 { x: 0, y: 0, z: 0 } }
    }
}

/// The velocity a sheep wants for its own purpose, before the flock has its
/// say.
#[derive(Clone, Copy, Debug, PartialEq, Eq, Structural)]
pub struct SheepTargetVel(pub Vec3);

/// The point a sheep is walking to.
#[derive(Clone, Copy, Debug, PartialEq, Eq, Structural)]
pub struct GoTo {
    pub target: Vec3,
}

/// The time a feeding sheep still feeds, in milliseconds.
#[derive(Clone, Copy, Debug, PartialEq, Eq, Structural)]
pub struct IdleFeeding {
    pub time: u64,
}

/// The nearest sheep as the spatial index last reported them: position and
/// id, nearest first. The first entry is the sheep itself.
#[derive(Clone, Debug)]
pub struct NearestSheep(pub Vec<(Vec3, Option<u64>)>);

/// One sheep with all that belongs to it.
#[derive(Clone, Debug)]
pub struct Sheep {
    /// Tells this sheep from all others for as long as it lives.
    pub id: u64,
    /// Where it stands.
    pub translation: Vec3,
    pub velocity: Velocity,
    pub walk: WalkController,
    pub target_vel: SheepTargetVel,
    pub decision: Decision,
    /// Present while the sheep walks to a target.
    pub go_to: Option<GoTo>,
    /// Present while the sheep feeds.
    pub idle_feeding: Option<IdleFeeding>,
    /// Present while the sheep is scared.
    pub is_scared: Option<IsScared>,
    pub nearest: NearestSheep,
    /// Set once `nearest` has been refreshed in the current round.
    pub updated: bool,
    /// Set while the sheep is outside every safe area.
    pub out_of_safe_area: bool,
    /// Set while a wolf is after this sheep.
    pub under_hunting: bool,
    /// Set while the sheep takes part in an escape wave.
    pub escaping: bool,
}

/// Whether a decision has the sheep walk to a target.
pub open spec fn is_walking(d: Decision) -> bool {
    d == Decision::RandomWalk || d == Decision::MoveToSafeArea || d == Decision::Escape
}

/// The speed at which a sheep heads for its target: escaping sheep run,
/// all others walk.
pub open spec fn goal_speed(d: Decision) -> int {
    if d == Decision::Escape {
        SHEEP_SPEED as int
    } else {
        WALK_SPEED as int
    }
}

impl Sheep {
    /// What a sheep carries matches what it is doing: a feeding time exactly
    /// while it feeds, a target exactly while it walks, a fright exactly
    /// while it is scared; and only an escaping sheep takes part in a wave.
    pub open spec fn wf(self) -> bool {
        &&& (self.decision == Decision::Feed) == (self.idle_feeding is Some)
        &&& is_walking(self.decision) == (self.go_to is Some)
        &&& (self.decision == Decision::Scared) == (self.is_scared is Some)
        &&& self.escaping ==> self.decision == Decision::Escape
    }

    /// Where the sheep stands on the ground plane.
    pub open spec fn ground(self) -> Vec2 {
        Vec2 { x: self.translation.x, y: self.translation.z }
    }

    /// The sheep after a fright has struck it.
    pub open spec fn frightened(self) -> Sheep {
        Sheep {
            decision: Decision::Scared,
            is_scared: Some(IsScared { time: 0, last_vel: Vec3 { x: 0, y: 0, z: 0 } }),
            idle_feeding: None,
            go_to: None,
            escaping: false,
            ..self
        }
    }

    /// Whether the sheep has come within the accepted distance of `target`.
    pub open spec fn has_arrived(self, target: Vec3) -> bool {
        self.translation.dist_sq(target) <= RANDOM_WALK_ACCEPT_RADIUS * RANDOM_WALK_ACCEPT_RADIUS
    }

    /// The sheep after one round of walking to its target: arrived, it
    /// drops the target and waits for its next decision; else it heads for
    /// the target.
    pub open spec fn after_goto(self) -> Sheep {
        match self.go_to {
            None => self,
            Some(goto) => if self.has_arrived(goto.target) {
                Sheep {
                    target_vel: SheepTargetVel(Vec3 { x: 0, y: 0, z: 0 }),
                    go_to: None,
                    decision: Decision::Idle,
                    escaping: false,
                    ..self
                }
            } else {
                Sheep {
                    target_vel: SheepTargetVel(
                        goto.target.diff(self.translation).resized(goal_speed(self.decision)),
                    ),
                    ..self
                }
            },
        }
    }

    /// The sheep after feeding for `dt` milliseconds: when the time is up it
    /// waits for its next decision.
    pub open spec fn after_feeding(self, dt: int) -> Sheep {
        match self.idle_feeding {
            None => self,
            Some(feeding) => if feeding.time <= dt {
                Sheep { decision: Decision::Idle, idle_feeding: None, ..self }
            } else {
                Sheep {
                    idle_feeding: Some(IdleFeeding { time: (feeding.time - dt) as u64 }),
                    ..self
                }
            },
        }
    }

    /// A sheep as it is put on the field: standing at `translation`, idle.
    pub fn new(id: u64, translation: Vec3) -> (sheep: Sheep)
        ensures
            sheep.id == id,
            sheep.translation == translation,
            sheep.velocity == Velocity(Vec3 { x: 0, y: 0, z: 0 }),
            sheep.walk == (WalkController {
                target_velocity: Vec3 { x: 0, y: 0, z: 0 },
                acceleration: SHEEP_ACCELERATION,
                max_speed: SHEEP_SPEED,
            }),
            sheep.target_vel == SheepTargetVel(Vec3 { x: 0, y: 0, z: 0 }),
            sheep.decision == Decision::Idle,
            sheep.go_to is None,
            sheep.idle_feeding is None,
            sheep.is_scared is None,
            sheep.nearest.0@.len() == 0,
            !sheep.updated && !sheep.out_of_safe_area && !sheep.under_hunting && !sheep.escaping,
            sheep.wf(),
    {
        Sheep {
            id,
            translation,
            velocity: Velocity(Vec3::zero()),
            walk: WalkController {
                target_velocity: Vec3::zero(),
                acceleration: SHEEP_ACCELERATION,
                max_speed: SHEEP_SPEED,
            },
            target_vel: SheepTargetVel(Vec3::zero()),
            decision: Decision::Idle,
            go_to: None,
            idle_feeding: None,
            is_scared: None,
            nearest: NearestSheep(Vec::new()),
            updated: false,
            out_of_safe_area: false,
            under_hunting: false,
            escaping: false,
        }
    }

    /// Strikes the sheep with a fright: whatever it was doing, it is now
    /// scared, and its fright starts at zero.
    pub fn frighten(&mut self)
        ensures
            *final(self) == old(self).frightened(),
    {
        self.decision = Decision::Scared;
        self.is_scared = Some(IsScared::default());
        self.idle_feeding = None;
        self.go_to = None;
        self.escaping = false;
    }

    /// One round of walking to the target, if there is one.
    pub fn walk_to_target(&mut self)
        ensures
            *final(self) == old(self).after_goto(),
    {
        if let Some(goto) = self.go_to {
            let reach: u128 = squared(RANDOM_WALK_ACCEPT_RADIUS);
            if self.translation.distance_squared(goto.target) <= reach {
                self.target_vel = SheepTargetVel(Vec3::zero());
                self.go_to = None;
                self.decision = Decision::Idle;
                self.escaping = false;
            } else {
                let speed: u32 = match self.decision {
                    Decision::Escape => SHEEP_SPEED,
                    _ => WALK_SPEED,
                };
                self.target_vel = SheepTargetVel(
                    goto.target.minus(self.translation).with_length(speed as i64),
                );
            }
        }
    }

    /// Feeds for `dt` milliseconds, if the sheep is feeding.
    pub fn feed(&mut self, dt: u32)
        ensures
            *final(self) == old(self).after_feeding(dt as int),
    {
        if let Some(feeding) = self.idle_feeding {
            if feeding.time <= dt as u64 {
                self.decision = Decision::Idle;
                self.idle_feeding = None;
            } else {
                self.idle_feeding = Some(IdleFeeding { time: feeding.time - dt as u64 });
            }
        }
    }
}

/// What chance adds to the decision of one idle sheep.
#[derive(Clone, Copy, Debug, PartialEq, Eq, Structural)]
pub struct IdleDraw {
    /// What the sheep does next.
    pub next: Decision,
    /// By how much the feeding time exceeds the shortest, in milliseconds.
    pub feed_extra: u32,
    /// Where a random walk leads, seen from the sheep, before it is cut
    /// down to the range of a random walk.
    pub walk_offset: Vec2,
    /// A point of the safe area to walk towards.
    pub inside_point: Vec3,
}

/// Whether area `k` is the nearest to `p`, by its centre; of several equally
/// near the first counts.
pub open spec fn is_nearest_area(areas: Seq<SafeArea>, p: Vec3, k: int) -> bool {
    &&& 0 <= k < areas.len()
    &&& forall|j: int|
        0 <= j < areas.len() ==> p.dist_sq(areas[k].center_on_ground()) <= p.dist_sq(
            #[trigger] areas[j].center_on_ground(),
        )
    &&& forall|j: int|
        0 <= j < k ==> p.dist_sq(areas[k].center_on_ground()) < p.dist_sq(
            #[trigger] areas[j].center_on_ground(),
        )
}

/// The nearest area to `p`, if there is any area.
pub open spec fn nearest_area(areas: Seq<SafeArea>, p: Vec3) -> Option<int> {
    if exists|k: int| is_nearest_area(areas, p, k) {
        Some(choose|k: int| is_nearest_area(areas, p, k))
    } else {
        None
    }
}

/// At most one area is the nearest.
pub proof fn lemma_nearest_area_unique(areas: Seq<SafeArea>, p: Vec3, a: int, b: int)
    requires
        is_nearest_area(areas, p, a),
        is_nearest_area(areas, p, b),
    ensures
        a == b,
{
    if a < b {
        assert(p.dist_sq(areas[b].center_on_ground()) < p.dist_sq(areas[a].center_on_ground()));
        assert(p.dist_sq(areas[a].center_on_ground()) <= p.dist_sq(areas[b].center_on_ground()));
    } else if b < a {
        assert(p.dist_sq(areas[a].center_on_ground()) < p.dist_sq(areas[b].center_on_ground()));
        assert(p.dist_sq(areas[b].center_on_ground()) <= p.dist_sq(areas[a].center_on_ground()));
    }
}

/// Finds the area whose centre is nearest to `p`.
pub fn nearest_safe_area(safe_zones: &Vec<SafeArea>, p: Vec3) -> (nearest: Option<usize>)
    ensures
        nearest is None <==> safe_zones.len() == 0,
        nearest matches Some(k) ==> is_nearest_area(safe_zones@, p, k as int),
        nearest matches Some(k) ==> nearest_area(safe_zones@, p) == Some(k as int),
        nearest is None ==> nearest_area(safe_zones@, p) is None,
{
    if safe_zones.len() == 0 {
        return None;
    }
    let mut best: usize = 0;
    let mut best_dist: u128 = p.distance_squared(safe_zones[0].get_center());
    let mut j: usize = 1;
    while j < safe_zones.len()
        invariant
            1 <= j <= safe_zones.len(),
            best < j,
            best_dist == p.dist_sq(safe_zones@[best as int].center_on_ground()),
            forall|i: int|
                0 <= i < j ==> best_dist <= p.dist_sq(
                    #[trigger] safe_zones@[i].center_on_ground(),
                ),
            forall|i: int|
                0 <= i < best ==> best_dist < p.dist_sq(
                    #[trigger] safe_zones@[i].center_on_ground(),
                ),
        decreases safe_zones.len() - j,
    {
        let dist: u128 = p.distance_squared(safe_zones[j].get_center());
        if dist < best_dist {
            best = j;
            best_dist = dist;
        }
        j += 1;
    }
    proof {
        assert(is_nearest_area(safe_zones@, p, best as int));
        let k = choose|k: int| is_nearest_area(safe_zones@, p, k);
        lemma_nearest_area_unique(safe_zones@, p, k, best as int);
    }
    Some(best)
}

/// The target of a random walk from `from`: the offset away, cut down so
/// that it stays within the range of a random walk, the rim left out.
pub open spec fn random_walk_target(from: Vec3, offset: Vec2) -> Vec3 {
    from.sum((Vec3 { x: offset.x, y: 0, z: offset.y }).capped(RANDOM_WALK_RANGE - 1))
}

/// The target of a walk from `from` towards `inside_point`: a fixed distance
/// that way, whether or not that reaches the point.
pub open spec fn safe_walk_target(from: Vec3, inside_point: Vec3) -> Vec3 {
    from.sum(inside_point.diff(from).resized(MOVE_IN_DIST as int))
}

/// The target of an escape from `from`: a fixed distance straight away from
/// `center`.
pub open spec fn escape_target(from: Vec3, center: Vec3) -> Vec3 {
    from.sum(from.diff(center).resized(MOVE_OUT_DIST as int))
}

impl Sheep {
    /// The sheep with `target` to walk to.
    pub open spec fn heading_for(self, target: Vec3) -> Sheep {
        Sheep { go_to: Some(GoTo { target }), ..self }
    }

    /// The sheep after it has been given the target of an escape, if there
    /// is a safe area to escape from.
    pub open spec fn after_init_escape(self, areas: Seq<SafeArea>) -> Sheep {
        match nearest_area(areas, self.translation) {
            Some(k) => self.heading_for(
                escape_target(self.translation, areas[k].center_on_ground()),
            ),
            None => self,
        }
    }

    /// What an idle sheep that is not scared becomes by the decision
    /// `draw.next`; any other sheep is left as it is. A sheep starts for a
    /// safe area, and escapes from one, only if there is any; a decision
    /// that cannot be carried out, and one to be idle or scared, leaves the
    /// sheep idle.
    pub open spec fn after_decision(self, draw: IdleDraw, areas: Seq<SafeArea>) -> Sheep {
        if self.decision != Decision::Idle || self.is_scared is Some {
            self
        } else {
            match draw.next {
                Decision::Feed => Sheep {
                    decision: Decision::Feed,
                    idle_feeding: Some(
                        IdleFeeding { time: (IDLE_FEEDING_TIME + draw.feed_extra) as u64 },
                    ),
                    ..self
                },
                Decision::RandomWalk => Sheep {
                    decision: Decision::RandomWalk,
                    ..self.heading_for(random_walk_target(self.translation, draw.walk_offset))
                },
                Decision::MoveToSafeArea => if areas.len() > 0 {
                    Sheep {
                        decision: Decision::MoveToSafeArea,
                        ..self.heading_for(safe_walk_target(self.translation, draw.inside_point))
                    }
                } else {
                    self
                },
                Decision::Escape => if areas.len() > 0 {
                    Sheep { decision: Decision::Escape, ..self.after_init_escape(areas) }
                } else {
                    self
                },
                Decision::Idle => self,
                Decision::Scared => self,
            }
        }
    }

    /// Carries out the decision `draw.next` if the sheep is idle and not
    /// scared.
    pub fn decide(&mut self, draw: &IdleDraw, safe_areas: &Vec<SafeArea>)
        ensures
            *final(self) == old(self).after_decision(*draw, safe_areas@),
    {
        if self.decision == Decision::Idle && self.is_scared.is_none() {
            match draw.next {
                Decision::Feed => {
                    self.decision = Decision::Feed;
                    self.idle_feeding = Some(
                        IdleFeeding { time: IDLE_FEEDING_TIME + draw.feed_extra as u64 },
                    );
                },
                Decision::RandomWalk => {
                    self.decision = Decision::RandomWalk;
                    init_random_walk(self, draw.walk_offset);
                },
                Decision::MoveToSafeArea => {
                    if safe_areas.len() > 0 {
                        self.decision = Decision::MoveToSafeArea;
                        init_safeareawalk_walk(self, draw.inside_point);
                    }
                },
                Decision::Escape => {
                    if safe_areas.len() > 0 {
                        self.decision = Decision::Escape;
                        init_escape(self, safe_areas);
                    }
                },
                Decision::Idle => {},
                Decision::Scared => {},
            }
        }
    }
}

/// Gives the sheep the target of a random walk.
pub fn init_random_walk(sheep: &mut Sheep, offset: Vec2)
    ensures
        *final(sheep) == old(sheep).heading_for(
            random_walk_target(old(sheep).translation, offset),
        ),
{
    let step: Vec3 = Vec3::new(offset.x, 0, offset.y).clamp_length_max(RANDOM_WALK_RANGE - 1);
    sheep.go_to = Some(GoTo { target: sheep.translation.plus(step) });
}

/// Gives the sheep a target on the way to `inside_point`.
pub fn init_safeareawalk_walk(sheep: &mut Sheep, inside_point: Vec3)
    ensures
        *final(sheep) == old(sheep).heading_for(
            safe_walk_target(old(sheep).translation, inside_point),
        ),
{
    let dir: Vec3 = inside_point.minus(sheep.translation).with_length(MOVE_IN_DIST as i64);
    sheep.go_to = Some(GoTo { target: sheep.translation.plus(dir) });
}

/// Gives the sheep the target of an escape: away from the nearest safe
/// area. Without any safe area the sheep is left as it is.
pub fn init_escape(sheep: &mut Sheep, safe_zones: &Vec<SafeArea>)
    ensures
        *final(sheep) == old(sheep).after_init_escape(safe_zones@),
{
    if let Some(k) = nearest_safe_area(safe_zones, sheep.translation) {
        let center: Vec3 = safe_zones[k].get_center();
        let dir: Vec3 = sheep.translation.minus(center).with_length(MOVE_OUT_DIST as i64);
        sheep.go_to = Some(GoTo { target: sheep.translation.plus(dir) });
    }
}

/// Whether `p` is a point that sampling `area` within `extent` of the origin
/// can give: a point of the area on the ground within the extent, or the
/// centre. Within an extent of nothing only the centre is left.
pub open spec fn possible_inside_point(area: SafeArea, extent: int, p: Vec3) -> bool {
    &&& p.y == 0
    &&& p == area.center_on_ground() || {
        &&& area.contains(Vec2 { x: p.x, y: p.z })
        &&& -extent <= p.x < extent
        &&& -extent <= p.z < extent
    }
}

/// Whether chance can give `draw` to an idle sheep that stands at `from`:
/// a decision that the table allows, a feeding time and the offset of a
/// random walk within their ranges, and a point sampled from the safe area
/// nearest to the sheep, if there is any.
pub open spec fn possible_draw(
    draw: IdleDraw,
    table: Seq<(u32, Decision)>,
    areas: Seq<SafeArea>,
    level_size: int,
    from: Vec3,
) -> bool {
    &&& possible_next(table, draw.next)
    &&& draw.feed_extra < IDLE_FEEDING_TIME_RANGE
    &&& -RANDOM_WALK_RANGE < draw.walk_offset.x < RANDOM_WALK_RANGE
    &&& -RANDOM_WALK_RANGE < draw.walk_offset.y < RANDOM_WALK_RANGE
    &&& nearest_area(areas, from) matches Some(k) ==> possible_inside_point(
        areas[k],
        level_size / 3,
        draw.inside_point,
    )
}

/// Whether `after` is what `before` can become in one round of decisions.
pub open spec fn decided(
    before: Sheep,
    after: Sheep,
    table: Seq<(u32, Decision)>,
    areas: Seq<SafeArea>,
    level_size: int,
) -> bool {
    exists|draw: IdleDraw|
        possible_draw(draw, table, areas, level_size, before.translation) && after
            == #[trigger] before.after_decision(draw, areas)
}

/// Draws what chance adds to the decision of a sheep that stands at `from`.
/// The point to walk towards is sampled from the safe area nearest to the
/// sheep, within a third of the level's size of the origin.
pub fn draw_idle(
    state_matrix: &StateChance,
    safe_areas: &Vec<SafeArea>,
    level_size: &LevelSize,
    from: Vec3,
    rng: &mut ThreadRng,
) -> (draw: IdleDraw)
    requires
        total_weight(state_matrix.next_state@) <= i64::MAX,
    ensures
        possible_draw(draw, state_matrix.next_state@, safe_areas@, level_size.0 as int, from),
{
    let next: Decision = state_matrix.select_next(rng);
    let feed_extra: i64 = random_range(rng, 0, IDLE_FEEDING_TIME_RANGE as i64);
    let dx: i64 = random_range(rng, -(RANDOM_WALK_RANGE as i64) + 1, RANDOM_WALK_RANGE as i64);
    let dz: i64 = random_range(rng, -(RANDOM_WALK_RANGE as i64) + 1, RANDOM_WALK_RANGE as i64);
    let inside_point: Vec3 = match nearest_safe_area(safe_areas, from) {
        Some(k) => match next {
            Decision::MoveToSafeArea => if level_size.0 >= 3 {
                safe_areas[k].get_random_point_inside(level_size.0 / 3)
            } else {
                safe_areas[k].get_center()
            },
            _ => safe_areas[k].get_center(),
        },
        None => Vec3::zero(),
    };
    IdleDraw {
        next,
        feed_extra: feed_extra as u32,
        walk_offset: Vec2 { x: dx as i32, y: dz as i32 },
        inside_point,
    }
}

/// One round of decisions: every idle sheep that is not scared draws what
/// to do next and starts on it; the others are left as they are.
pub fn sheep_state(
    state_matrix: &StateChance,
    sheeps: &mut Vec<Sheep>,
    safe_areas: &Vec<SafeArea>,
    level_size: &LevelSize,
)
    requires
        total_weight(state_matrix.next_state@) <= i64::MAX,
    ensures
        final(sheeps).len() == old(sheeps).len(),
        forall|i: int|
            0 <= i < old(sheeps).len() ==> if old(sheeps)[i].decision == Decision::Idle && old(
                sheeps,
            )[i].is_scared is None {
                decided(
                    old(sheeps)[i],
                    #[trigger] final(sheeps)[i],
                    state_matrix.next_state@,
                    safe_areas@,
                    level_size.0 as int,
                )
            } else {
                final(sheeps)[i] == old(sheeps)[i]
            },
{
    let mut rng = rand::thread_rng();
    let mut i: usize = 0;
    while i < sheeps.len()
        invariant
            i <= sheeps.len(),
            sheeps.len() == old(sheeps).len(),
            total_weight(state_matrix.next_state@) <= i64::MAX,
            forall|j: int|
                0 <= j < i ==> if old(sheeps)[j].decision == Decision::Idle && old(
                    sheeps,
                )[j].is_scared is None {
                    decided(
                        old(sheeps)[j],
                        #[trigger] sheeps[j],
                        state_matrix.next_state@,
                        safe_areas@,
                        level_size.0 as int,
                    )
                } else {
                    sheeps[j] == old(sheeps)[j]
                },
            forall|j: int| i <= j < sheeps.len() ==> sheeps[j] == old(sheeps)[j],
        decreases sheeps.len() - i,
    {
        if sheeps[i].decision == Decision::Idle && sheeps[i].is_scared.is_none() {
            let draw: IdleDraw = draw_idle(
                state_matrix,
                safe_areas,
                level_size,
                sheeps[i].translation,
                &mut rng,
            );
            sheeps[i].decide(&draw, safe_areas);
            assert(sheeps[i as int] == old(sheeps)[i as int].after_decision(draw, safe_areas@));
        }
        i += 1;
    }
}

/// Every sheep that is not yet scared and hears the bark takes fright; the
/// others are left as they are.
pub fn scared_sheeps(bark: &Bark, sheeps: &mut Vec<Sheep>)
    ensures
        final(sheeps).len() == old(sheeps).len(),
        forall|i: int|
            0 <= i < old(sheeps).len() ==> final(sheeps)[i] == if old(sheeps)[i].is_scared is None
                && old(sheeps)[i].translation.dist_sq(bark.position) <= bark.radius * bark.radius {
                #[trigger] old(sheeps)[i].frightened()
            } else {
                old(sheeps)[i]
            },
{
    let reach: u128 = squared(bark.radius);
    let mut i: usize = 0;
    while i < sheeps.len()
        invariant
            i <= sheeps.len(),
            sheeps.len() == old(sheeps).len(),
            reach == bark.radius * bark.radius,
            forall|j: int|
                0 <= j < i ==> sheeps[j] == if old(sheeps)[j].is_scared is None && old(
                    sheeps,
                )[j].translation.dist_sq(bark.position) <= bark.radius * bark.radius {
                    #[trigger] old(sheeps)[j].frightened()
                } else {
                    old(sheeps)[j]
                },
            forall|j: int| i <= j < sheeps.len() ==> sheeps[j] == old(sheeps)[j],
        decreases sheeps.len() - i,
    {
        if sheeps[i].is_scared.is_none() && sheeps[i].translation.distance_squared(bark.position)
            <= reach {
            sheeps[i].frighten();
        }
        i += 1;
    }
}

/// One round of walking for every sheep that has a target.
pub fn goto_system(sheeps: &mut Vec<Sheep>)
    ensures
        final(sheeps).len() == old(sheeps).len(),
        forall|i: int|
            0 <= i < old(sheeps).len() ==> final(sheeps)[i] == #[trigger] old(sheeps)[i].after_goto(),
{
    let mut i: usize = 0;
    while i < sheeps.len()
        invariant
            i <= sheeps.len(),
            sheeps.len() == old(sheeps).len(),
            forall|j: int| 0 <= j < i ==> sheeps[j] == #[trigger] old(sheeps)[j].after_goto(),
            forall|j: int| i <= j < sheeps.len() ==> sheeps[j] == old(sheeps)[j],
        decreases sheeps.len() - i,
    {
        sheeps[i].walk_to_target();
        i += 1;
    }
}

/// `dt` milliseconds of feeding for every sheep that feeds.
pub fn idle_feeding_system(sheeps: &mut Vec<Sheep>, dt: u32)
    ensures
        final(sheeps).len() == old(sheeps).len(),
        forall|i: int|
            0 <= i < old(sheeps).len() ==> final(sheeps)[i] == #[trigger] old(
                sheeps,
            )[i].after_feeding(dt as int),
{
    let mut i: usize = 0;
    while i < sheeps.len()
        invariant
            i <= sheeps.len(),
            sheeps.len() == old(sheeps).len(),
            forall|j: int|
                0 <= j < i ==> sheeps[j] == #[trigger] old(sheeps)[j].after_feeding(dt as int),
            forall|j: int| i <= j < sheeps.len() ==> sheeps[j] == old(sheeps)[j],
        decreases sheeps.len() - i,
    {
        sheeps[i].feed(dt);
        i += 1;
    }
}

/// Whether chance can pick `next` from the table: by some ticket, if there
/// is any, and else only `Idle`.
pub open spec fn possible_next(table: Seq<(u32, Decision)>, next: Decision) -> bool {
    if total_weight(table) == 0 {
        next == Decision::Idle
    } else {
        exists|p: int| 0 <= p < total_weight(table) && next == selected(table, p)
    }
}

/// The share of a weight in the total weight of its table, in permille,
/// rounded to the nearest.
pub open spec fn normal_weight(weight: int, total: int) -> int {
    crate::vector::round_div(weight * 1000, total)
}

/// The table with its weights normalised: each is its share of the total in
/// permille, so that together they come to one whole but for the rounding.
/// A table without weight is left as it is.
pub open spec fn normalized(table: Seq<(u32, Decision)>) -> Seq<(u32, Decision)> {
    if total_weight(table) == 0 {
        table
    } else {
        Seq::new(
            table.len(),
            |i: int| (normal_weight(table[i].0 as int, total_weight(table)) as u32, table[i].1),
        )
    }
}

/// No weight of a table is greater than the total, and so no normalised
/// weight is greater than one whole.
pub proof fn lemma_normal_weight_is_a_share(table: Seq<(u32, Decision)>, i: int)
    requires
        0 <= i < table.len(),
        total_weight(table) > 0,
    ensures
        table[i].0 <= total_weight(table),
        0 <= normal_weight(table[i].0 as int, total_weight(table)) <= 1000,
{
    lemma_weight_monotonic(table, 0, i);
    lemma_weight_monotonic(table, i + 1, table.len() as int);
    let w = table[i].0 as int;
    let total = total_weight(table);
    assert(0 <= (2 * (w * 1000) + total) / (2 * total) <= 1000) by (nonlinear_arith)
        requires
            0 <= w <= total,
            total > 0,
    ;
}

impl Default for StateChance {
    /// Feeding is twice as likely as a random walk; nothing else is chosen.
    /// The weights are normalised.
    fn default() -> (chance: StateChance)
        ensures
            chance.next_state@ == seq![(667u32, Decision::Feed), (333u32, Decision::RandomWalk)],
            chance.next_state@ == normalized(
                seq![(1000u32, Decision::Feed), (500u32, Decision::RandomWalk)],
            ),
    {
        let mut next_state: Vec<(u32, Decision)> = Vec::new();
        next_state.push((1000, Decision::Feed));
        next_state.push((500, Decision::RandomWalk));
        let ghost raw = seq![(1000u32, Decision::Feed), (500u32, Decision::RandomWalk)];
        assert(next_state@ =~= raw);
        let mut chance = StateChance { next_state };
        chance.normalize();
        proof {
            reveal_with_fuel(weight_before, 3);
            assert(total_weight(raw) == 1500);
            assert(1000int * 1000 == 1_000_000 && 500int * 1000 == 500_000) by (nonlinear_arith);
            assert(2001500int / 3000 == 667 && 1001500int / 3000 == 333);
            assert(normal_weight(1000, 1500) == 667);
            assert(normal_weight(500, 1500) == 333);
            assert(chance.next_state@ =~= seq![
                (667u32, Decision::Feed),
                (333u32, Decision::RandomWalk),
            ]);
        }
        chance
    }
}

impl StateChance {
    /// Normalises the weights: each becomes its share of the total in
    /// permille. The chances of the decisions stay the same but for the
    /// rounding.
    pub fn normalize(&mut self)
        ensures
            final(self).next_state@ == normalized(old(self).next_state@),
    {
        let total: u128 = self.total();
        if total == 0 {
            return;
        }
        let ghost table = self.next_state@;
        let mut i: usize = 0;
        while i < self.next_state.len()
            invariant
                i <= self.next_state.len(),
                self.next_state@.len() == table.len(),
                total == total_weight(table),
                total > 0,
                total <= table.len() * 0xffff_ffff,
                forall|j: int|
                    0 <= j < i ==> #[trigger] self.next_state@[j] == (
                        normal_weight(table[j].0 as int, total as int) as u32,
                        table[j].1,
                    ),
                forall|j: int| i <= j < table.len() ==> self.next_state@[j] == table[j],
            decreases self.next_state.len() - i,
        {
            let weight: u128 = self.next_state[i].0 as u128;
            proof {
                lemma_normal_weight_is_a_share(table, i as int);
            }
            let share: u128 = (2 * (weight * 1000) + total) / (2 * total);
            self.next_state[i].0 = share as u32;
            i += 1;
        }
        assert(self.next_state@ =~= normalized(table));
    }

    /// The sum of all weights.
    pub fn total(&self) -> (sum: u128)
        ensures
            sum as int == total_weight(self.next_state@),
            sum <= self.next_state@.len() * 0xffff_ffff,
    {
        let mut sum: u128 = 0;
        let mut i: usize = 0;
        while i < self.next_state.len()
            invariant
                i <= self.next_state.len(),
                sum as int == weight_before(self.next_state@, i as int),
                sum <= i * 0xffff_ffff,
            decreases self.next_state.len() - i,
        {
            sum = sum + self.next_state[i].0 as u128;
            i += 1;
        }
        sum
    }

    /// The decision that ticket `p` selects.
    pub fn select_at(&self, p: u128) -> (d: Decision)
        ensures
            d == selected(self.next_state@, p as int),
    {
        let mut sum: u128 = 0;
        let mut i: usize = 0;
        while i < self.next_state.len()
            invariant
                i <= self.next_state.len(),
                sum as int == weight_before(self.next_state@, i as int),
                sum <= i * 0xffff_ffff,
                sum <= p,
            decreases self.next_state.len() - i,
        {
            sum = sum + self.next_state[i].0 as u128;
            if p < sum {
                proof {
                    lemma_selection_is_proportional(self.next_state@, i as int, p as int);
                }
                return self.next_state[i].1;
            }
            i += 1;
        }
        proof {
            lemma_no_ticket_no_entry(self.next_state@, p as int);
        }
        Decision::Idle
    }

    /// Picks the next decision by chance: each entry with a chance
    /// proportional to its weight, and `Idle` if all weights are zero.
    pub fn select_next(&self, rng: &mut ThreadRng) -> (d: Decision)
        requires
            total_weight(self.next_state@) <= i64::MAX,
        ensures
            possible_next(self.next_state@, d),
    {
        let total: u128 = self.total();
        if total == 0 {
            proof {
                lemma_no_ticket_no_entry(self.next_state@, 0);
            }
            self.select_at(0)
        } else {
            let p: i64 = random_range(rng, 0, total as i64);
            self.select_at(p as u128)
        }
    }
}

/// How many sheep the flock starts with.
pub const SHEEP_COUNT: usize = 1000;

/// How many points `setup` tries for one sheep before it puts the sheep at
/// the origin.
pub const MAX_SPAWN_ATTEMPTS: u32 = 256;

/// The number of sheep the flock started with.
#[derive(Clone, Copy, Debug, PartialEq, Eq, Structural)]
pub struct StartSheepCount(pub u32);

/// Whether a sheep is as it was put on the field: idle, at rest, carrying
/// nothing, and unmarked.
pub open spec fn is_newborn(sheep: Sheep) -> bool {
    &&& sheep.velocity == Velocity(Vec3 { x: 0, y: 0, z: 0 })
    &&& sheep.walk == (WalkController {
        target_velocity: Vec3 { x: 0, y: 0, z: 0 },
        acceleration: SHEEP_ACCELERATION,
        max_speed: SHEEP_SPEED,
    })
    &&& sheep.target_vel == SheepTargetVel(Vec3 { x: 0, y: 0, z: 0 })
    &&& sheep.decision == Decision::Idle
    &&& sheep.go_to is None
    &&& sheep.idle_feeding is None
    &&& sheep.is_scared is None
    &&& sheep.nearest.0@.len() == 0
    &&& !sheep.updated
    &&& !sheep.out_of_safe_area
    &&& !sheep.under_hunting
    &&& !sheep.escaping
}

/// The radius of the disc around the origin in which the flock starts: a
/// third of the level's size.
pub open spec fn spawn_radius(level_size: int) -> int {
    level_size / 3
}

/// The point on the ground, if it lies within `radius` of the origin.
pub fn point_if_in_disc(radius: u32, x: i32, z: i32) -> (p: Option<Vec3>)
    ensures
        p == if x * x + z * z <= radius * radius {
            Some(Vec3 { x, y: 0, z })
        } else {
            None
        },
{
    let point = Vec3 { x, y: 0, z };
    if point.length_squared() <= squared(radius) {
        Some(point)
    } else {
        None
    }
}

/// Picks by chance a point on the ground within `radius` of the origin.
/// Points are drawn evenly from the square around the disc until one lies in
/// the disc; after `MAX_SPAWN_ATTEMPTS` points outside, the origin is taken.
pub fn random_point_in_disc(radius: i32, rng: &mut ThreadRng) -> (p: Vec3)
    requires
        radius > 0,
    ensures
        p.y == 0,
        p.norm_sq() <= radius * radius,
{
    let mut attempt: u32 = 0;
    while attempt < MAX_SPAWN_ATTEMPTS
        invariant
            radius > 0,
        decreases MAX_SPAWN_ATTEMPTS - attempt,
    {
        let x: i64 = random_range(rng, -(radius as i64), radius as i64);
        let z: i64 = random_range(rng, -(radius as i64), radius as i64);
        if let Some(p) = point_if_in_disc(radius as u32, x as i32, z as i32) {
            return p;
        }
        attempt += 1;
    }
    assert(0 <= radius * radius) by (nonlinear_arith);
    Vec3::zero()
}

/// Puts the flock on the field: `SHEEP_COUNT` sheep, numbered from zero, each
/// newborn and somewhere in the disc around the origin in which the flock
/// starts.
pub fn setup(level_size: &LevelSize) -> (flock: (Vec<Sheep>, StartSheepCount))
    requires
        level_size.0 >= 3,
    ensures
        flock.0.len() == SHEEP_COUNT,
        flock.1 == StartSheepCount(SHEEP_COUNT as u32),
        forall|i: int|
            0 <= i < flock.0.len() ==> {
                &&& (#[trigger] flock.0[i]).id == i
                &&& is_newborn(flock.0[i])
                &&& flock.0[i].wf()
                &&& flock.0[i].translation.y == 0
                &&& flock.0[i].translation.norm_sq() <= spawn_radius(level_size.0 as int)
                    * spawn_radius(level_size.0 as int)
            },
{
    let radius: i32 = level_size.0 / 3;
    let mut rng = rand::thread_rng();
    let mut sheep: Vec<Sheep> = Vec::new();
    let mut i: usize = 0;
    while i < SHEEP_COUNT
        invariant
            i <= SHEEP_COUNT,
            sheep.len() == i,
            radius == spawn_radius(level_size.0 as int),
            radius > 0,
            forall|j: int|
                0 <= j < i ==> {
                    &&& (#[trigger] sheep[j]).id == j
                    &&& is_newborn(sheep[j])
                    &&& sheep[j].wf()
                    &&& sheep[j].translation.y == 0
                    &&& sheep[j].translation.norm_sq() <= radius * radius
                },
        decreases SHEEP_COUNT - i,
    {
        let pos: Vec3 = random_point_in_disc(radius, &mut rng);
        sheep.push(Sheep::new(i as u64, pos));
        i += 1;
    }
    (sheep, StartSheepCount(SHEEP_COUNT as u32))
}

/// A sheep that has come within the accepted distance of its target is idle
/// after the next round of walking, carries no target any more, and wants no
/// velocity.
pub proof fn lemma_arrival_ends_walk(sheep: Sheep, target: Vec3)
    requires
        sheep.go_to == Some(GoTo { target }),
        sheep.translation.dist_sq(target) <= RANDOM_WALK_ACCEPT_RADIUS * RANDOM_WALK_ACCEPT_RADIUS,
    ensures
        sheep.after_goto().decision == Decision::Idle,
        sheep.after_goto().go_to is None,
        sheep.after_goto().target_vel == SheepTargetVel(Vec3 { x: 0, y: 0, z: 0 }),
        !sheep.after_goto().escaping,
{
}

/// A sheep that is still farther from its target than the accepted distance
/// keeps its target and what it is doing.
pub proof fn lemma_walk_goes_on(sheep: Sheep, target: Vec3)
    requires
        sheep.go_to == Some(GoTo { target }),
        sheep.translation.dist_sq(target) > RANDOM_WALK_ACCEPT_RADIUS * RANDOM_WALK_ACCEPT_RADIUS,
    ensures
        sheep.after_goto().decision == sheep.decision,
        sheep.after_goto().go_to == sheep.go_to,
{
}

/// What a sheep carries keeps matching what it is doing through a fright, a
/// round of walking, a time of feeding and a decision.
pub proof fn lemma_rounds_keep_sheep_well_formed(
    sheep: Sheep,
    dt: int,
    draw: IdleDraw,
    areas: Seq<SafeArea>,
)
    requires
        sheep.wf(),
        0 <= dt,
    ensures
        sheep.frightened().wf(),
        sheep.after_goto().wf(),
        sheep.after_feeding(dt).wf(),
        sheep.after_decision(draw, areas).wf(),
{
    if areas.len() > 0 {
        lemma_nearest_area_exists(areas, sheep.translation);
    }
}

/// Where there is an area, one of them is the nearest.
pub proof fn lemma_nearest_area_exists(areas: Seq<SafeArea>, p: Vec3)
    requires
        areas.len() > 0,
    ensures
        nearest_area(areas, p) is Some,
        nearest_area(areas, p) matches Some(k) && is_nearest_area(areas, p, k),
{
    lemma_nearest_among(areas, p, areas.len() as int);
    let k = choose|k: int| is_nearest_among(areas, p, areas.len() as int, k);
    assert(is_nearest_area(areas, p, k));
}

/// Whether area `k` is the nearest to `p` among the first `n` areas.
pub open spec fn is_nearest_among(areas: Seq<SafeArea>, p: Vec3, n: int, k: int) -> bool {
    &&& 0 <= k < n
    &&& forall|j: int|
        0 <= j < n ==> p.dist_sq(areas[k].center_on_ground()) <= p.dist_sq(
            #[trigger] areas[j].center_on_ground(),
        )
    &&& forall|j: int|
        0 <= j < k ==> p.dist_sq(areas[k].center_on_ground()) < p.dist_sq(
            #[trigger] areas[j].center_on_ground(),
        )
}

/// Among any number of areas, at least one, there is a nearest.
pub proof fn lemma_nearest_among(areas: Seq<SafeArea>, p: Vec3, n: int)
    requires
        1 <= n <= areas.len(),
    ensures
        exists|k: int| is_nearest_among(areas, p, n, k),
    decreases n,
{
    if n == 1 {
        assert(is_nearest_among(areas, p, 1, 0));
    } else {
        let m = n - 1;
        lemma_nearest_among(areas, p, m);
        let k = choose|k: int| is_nearest_among(areas, p, m, k);
        if p.dist_sq(areas[n - 1].center_on_ground()) < p.dist_sq(areas[k].center_on_ground()) {
            assert(is_nearest_among(areas, p, n, n - 1));
        } else {
            assert(is_nearest_among(areas, p, n, k));
        }
    }
}

/// Whether the table offers the decision `d`: some entry of positive weight
/// holds it.
pub open spec fn offers(table: Seq<(u32, Decision)>, d: Decision) -> bool {
    exists|i: int| 0 <= i < table.len() && (#[trigger] table[i]).0 > 0 && table[i].1 == d
}

/// Chance picks only what the table offers, or `Idle`.
pub proof fn lemma_only_offered_is_picked(table: Seq<(u32, Decision)>, next: Decision)
    requires
        possible_next(table, next),
    ensures
        next == Decision::Idle || offers(table, next),
{
    if total_weight(table) != 0 {
        let p = choose|p: int| 0 <= p < total_weight(table) && next == selected(table, p);
        if exists|i: int| ticket_falls_to(table, p, i) {
            let i = choose|i: int| ticket_falls_to(table, p, i);
            assert(table[i].0 > 0);
        }
    }
}

/// A decision leaves a sheep idle or has it take up what was drawn: of its
/// own accord a sheep takes up only what the table offers. In particular,
/// with a table that offers neither, no sheep escapes or takes fright by a
/// decision.
pub proof fn lemma_decision_follows_table(
    sheep: Sheep,
    after: Sheep,
    table: Seq<(u32, Decision)>,
    areas: Seq<SafeArea>,
    level_size: int,
)
    requires
        sheep.decision == Decision::Idle,
        decided(sheep, after, table, areas, level_size),
    ensures
        after.decision == Decision::Idle || offers(table, after.decision),
        after.decision != Decision::Scared,
{
    let draw = choose|draw: IdleDraw|
        possible_draw(draw, table, areas, level_size, sheep.translation) && after
            == #[trigger] sheep.after_decision(draw, areas);
    lemma_only_offered_is_picked(table, draw.next);
}

/// The targets a sheep is given lie within reach: that of a random walk
/// nearer than `RANDOM_WALK_RANGE` to where the sheep stands, that of a walk to a
/// safe area within `MOVE_IN_DIST`, that of an escape within `MOVE_OUT_DIST`.
pub proof fn lemma_targets_are_within_reach(from: Vec3, offset: Vec2, point: Vec3)
    ensures
        from.dist_sq(random_walk_target(from, offset)) < RANDOM_WALK_RANGE * RANDOM_WALK_RANGE,
        from.dist_sq(safe_walk_target(from, point)) <= MOVE_IN_DIST * MOVE_IN_DIST,
        from.dist_sq(escape_target(from, point)) <= MOVE_OUT_DIST * MOVE_OUT_DIST,
{
    let step = (Vec3 { x: offset.x, y: 0, z: offset.y }).capped(RANDOM_WALK_RANGE - 1);
    lemma_capped_not_longer(Vec3 { x: offset.x, y: 0, z: offset.y }, RANDOM_WALK_RANGE - 1);
    assert((RANDOM_WALK_RANGE - 1) * (RANDOM_WALK_RANGE - 1) < RANDOM_WALK_RANGE
        * RANDOM_WALK_RANGE) by (nonlinear_arith)
        requires
            RANDOM_WALK_RANGE == 2000,
    ;
    lemma_sum_stays_near(from, step);
    lemma_resized_not_longer(point.diff(from), MOVE_IN_DIST as int);
    lemma_sum_stays_near(from, point.diff(from).resized(MOVE_IN_DIST as int));
    lemma_resized_not_longer(from.diff(point), MOVE_OUT_DIST as int);
    lemma_sum_stays_near(from, from.diff(point).resized(MOVE_OUT_DIST as int));
}

/// A sheep on its way wants to go no faster than its kind of walk allows:
/// an escaping sheep at most its top speed, any other at most walking speed.
pub proof fn lemma_goal_speed_is_kept(sheep: Sheep)
    requires
        sheep.go_to is Some,
    ensures
        sheep.after_goto().target_vel.0.norm_sq() <= goal_speed(sheep.decision) * goal_speed(
            sheep.decision,
        ),
{
    let target = sheep.go_to->0.target;
    lemma_resized_not_longer(target.diff(sheep.translation), goal_speed(sheep.decision));
}

impl Sheep {
    /// The sheep after one round on its own: an idle sheep decides, a sheep
    /// with a target walks, and a feeding sheep feeds for `dt` milliseconds.
    pub open spec fn advanced(self, dt: int, draw: IdleDraw, areas: Seq<SafeArea>) -> Sheep {
        self.after_decision(draw, areas).after_goto().after_feeding(dt)
    }

    /// One round of the sheep on its own, with what chance adds given.
    pub fn advance(&mut self, dt: u32, draw: &IdleDraw, safe_areas: &Vec<SafeArea>)
        ensures
            *final(self) == old(self).advanced(dt as int, *draw, safe_areas@),
    {
        self.decide(draw, safe_areas);
        self.walk_to_target();
        self.feed(dt);
    }
}

/// A round keeps a sheep well-formed.
pub proof fn lemma_advance_keeps_sheep_well_formed(
    sheep: Sheep,
    dt: int,
    draw: IdleDraw,
    areas: Seq<SafeArea>,
)
    requires
        sheep.wf(),
        0 <= dt,
    ensures
        sheep.advanced(dt, draw, areas).wf(),
{
    lemma_rounds_keep_sheep_well_formed(sheep, dt, draw, areas);
    let decided = sheep.after_decision(draw, areas);
    lemma_rounds_keep_sheep_well_formed(decided, dt, draw, areas);
    lemma_rounds_keep_sheep_well_formed(decided.after_goto(), dt, draw, areas);
}

} // verus!
