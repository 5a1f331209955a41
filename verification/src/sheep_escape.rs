//! Escape waves: now and then a part of the flock breaks out together.

use crate::level::LevelSize;
use crate::random::random_range;
use crate::ranking::{is_lowest_order, k_lowest, lemma_lowest_order_unique, places, ranks_before};
use crate::sheep::{Decision, GoTo, Sheep};
use crate::steering::find_sheep;
use crate::sunday::{DayState, EpisodeTime};
use crate::vector::{div_trunc, sqrt_floor, trunc_div, Vec3};
use rand::rngs::ThreadRng;
use vstd::prelude::*;

verus! {

/// The key of a sheep that cannot join a wave: it ranks behind every sheep
/// that can.
pub const OUT_OF_WAVE: i128 = i128::MAX;

/// A wave that is to come: how many sheep break out, in how many beams, and
/// when, in milliseconds of game time.
#[derive(Clone, Copy, Debug, PartialEq, Eq, Structural)]
pub struct SheepWave {
    pub count: usize,
    pub beams: usize,
    pub time: u64,
}

/// The wave that comes next, if one is planned.
#[derive(Clone, Copy, Debug, PartialEq, Eq, Structural)]
pub struct NextWave(pub Option<SheepWave>);

/// The wave that is under way: how many sheep broke out, and their ids.
#[derive(Clone, Debug)]
pub struct SheepWaveStatus {
    pub start_count: usize,
    pub sheep: Vec<u64>,
}

impl Default for SheepWaveStatus {
    fn default() -> (status: SheepWaveStatus)
        ensures
            status.start_count == 0,
            status.sheep@.len() == 0,
    {
        SheepWaveStatus { start_count: 0, sheep: Vec::new() }
    }
}

/// Whether a sheep can join a wave: it is neither scared nor on its way
/// somewhere.
pub open spec fn may_join_wave(sheep: Sheep) -> bool {
    sheep.is_scared is None && sheep.go_to is None
}

/// Where a sheep at `from` is sent by a wave that goes the way of
/// `direction`, a vector of length one whole: twice the level's size that
/// way.
pub open spec fn wave_target(from: Vec3, direction: Vec3, level_size: int) -> Vec3 {
    from.sum(direction.scaled(2 * level_size, 1000))
}

/// How much a sheep at `pos` is drawn into a wave: how far out it stands in
/// the direction of the wave, and how far it is from the dog.
pub open spec fn wave_score(pos: Vec3, dog: Vec3, direction: Vec3) -> int {
    trunc_div(pos.dot_spec(direction), 1000) + sqrt_floor(pos.dist_sq(dog))
}

/// The key by which a sheep is ranked for a wave: the sheep drawn most come
/// first, and those that cannot join last.
pub open spec fn wave_key(sheep: Sheep, dog: Vec3, direction: Vec3) -> i128 {
    if may_join_wave(sheep) {
        (-wave_score(sheep.translation, dog, direction)) as i128
    } else {
        OUT_OF_WAVE
    }
}

/// The keys of all sheep.
pub open spec fn wave_keys(sheep: Seq<Sheep>, dog: Vec3, direction: Vec3) -> Seq<i128> {
    Seq::new(sheep.len(), |i: int| wave_key(sheep[i], dog, direction))
}

impl Sheep {
    /// The sheep sent away by a wave: it escapes towards `target`, whatever
    /// it did before, and is marked as part of the wave.
    pub open spec fn sent_away(self, target: Vec3) -> Sheep {
        Sheep {
            decision: Decision::Escape,
            go_to: Some(GoTo { target }),
            idle_feeding: None,
            escaping: true,
            ..self
        }
    }

    /// Sends the sheep away with a wave.
    pub fn send_away(&mut self, target: Vec3)
        ensures
            *final(self) == old(self).sent_away(target),
    {
        self.decision = Decision::Escape;
        self.go_to = Some(GoTo { target });
        self.idle_feeding = None;
        self.escaping = true;
    }
}

/// A sheep that is not scared is well-formed after a wave has sent it away.
pub proof fn lemma_wave_keeps_sheep_well_formed(sheep: Sheep, target: Vec3)
    requires
        sheep.wf(),
        sheep.is_scared is None,
    ensures
        sheep.sent_away(target).wf(),
        sheep.sent_away(target).decision == Decision::Escape,
        sheep.sent_away(target).go_to == Some(GoTo { target }),
{
}

/// The flock after a wave in the direction `direction` has called the sheep
/// with the given ids: each of them that is not scared escapes that way,
/// all others are left as they are.
pub open spec fn after_wave(
    sheep: Seq<Sheep>,
    ids: Seq<u64>,
    direction: Vec3,
    level_size: int,
) -> Seq<Sheep> {
    Seq::new(
        sheep.len(),
        |i: int|
            if ids.contains(sheep[i].id) && sheep[i].is_scared is None {
                sheep[i].sent_away(wave_target(sheep[i].translation, direction, level_size))
            } else {
                sheep[i]
            },
    )
}

/// Whether the list holds the id.
pub fn holds_id(ids: &Vec<u64>, id: u64) -> (held: bool)
    ensures
        held == ids@.contains(id),
{
    let mut k: usize = 0;
    while k < ids.len()
        invariant
            k <= ids.len(),
            forall|j: int| 0 <= j < k ==> ids@[j] != id,
        decreases ids.len() - k,
    {
        if ids[k] == id {
            return true;
        }
        k += 1;
    }
    false
}

/// Where a sheep at `from` is sent by a wave.
pub fn target_of_wave(from: Vec3, direction: Vec3, level_size: &LevelSize) -> (target: Vec3)
    ensures
        target == wave_target(from, direction, level_size.0 as int),
{
    from.plus(direction.times(2 * (level_size.0 as i64), 1000))
}

/// Whether a wave that calls `ids` sends this sheep away: it is called and
/// not scared.
pub open spec fn is_sent(sheep: Sheep, ids: Seq<u64>) -> bool {
    ids.contains(sheep.id) && sheep.is_scared is None
}

/// The ids of those of the first `n` sheep that a wave that calls `ids`
/// sends away, in the order of the flock.
pub open spec fn sent_by_wave(sheep: Seq<Sheep>, ids: Seq<u64>, n: int) -> Seq<u64>
    decreases n,
{
    if n <= 0 {
        Seq::empty()
    } else if is_sent(sheep[n - 1], ids) {
        sent_by_wave(sheep, ids, n - 1).push(sheep[n - 1].id)
    } else {
        sent_by_wave(sheep, ids, n - 1)
    }
}

/// Carries out a wave that calls the sheep with the given ids in the
/// direction `direction`: exactly those of them that are not scared escape
/// that way, twice the level's size far. The wave is then no longer planned,
/// and the status tells which sheep it sent away.
pub fn escape_wave(
    next_wave: &mut NextWave,
    sheep: &mut Vec<Sheep>,
    ids: &Vec<u64>,
    direction: Vec3,
    level_size: &LevelSize,
    sheep_wave_status: &mut SheepWaveStatus,
)
    ensures
        final(next_wave).0 is None,
        final(sheep)@ == after_wave(old(sheep)@, ids@, direction, level_size.0 as int),
        final(sheep_wave_status).sheep@ == sent_by_wave(
            old(sheep)@,
            ids@,
            old(sheep).len() as int,
        ),
        final(sheep_wave_status).start_count == final(sheep_wave_status).sheep@.len(),
{
    let mut sent: Vec<u64> = Vec::new();
    let mut i: usize = 0;
    while i < sheep.len()
        invariant
            i <= sheep.len(),
            sheep.len() == old(sheep).len(),
            sent@ == sent_by_wave(old(sheep)@, ids@, i as int),
            forall|j: int|
                0 <= j < i ==> sheep[j] == #[trigger] after_wave(
                    old(sheep)@,
                    ids@,
                    direction,
                    level_size.0 as int,
                )[j],
            forall|j: int| i <= j < sheep.len() ==> sheep[j] == old(sheep)[j],
        decreases sheep.len() - i,
    {
        if holds_id(ids, sheep[i].id) && sheep[i].is_scared.is_none() {
            let target: Vec3 = target_of_wave(sheep[i].translation, direction, level_size);
            sent.push(sheep[i].id);
            sheep[i].send_away(target);
        }
        i += 1;
    }
    assert(sheep@ =~= after_wave(old(sheep)@, ids@, direction, level_size.0 as int));
    next_wave.0 = None;
    sheep_wave_status.start_count = sent.len();
    sheep_wave_status.sheep = sent;
}

/// A wave sends exactly the sheep it calls. Every sheep that is called and
/// not scared escapes towards its place moved along the direction of the
/// wave, no longer feeds, and bears the mark of the wave; every other sheep
/// is left as it is. The status lists the ids of the sheep sent, and no
/// others.
pub proof fn lemma_wave_sends_the_called(
    sheep: Seq<Sheep>,
    ids: Seq<u64>,
    direction: Vec3,
    level_size: int,
    i: int,
)
    requires
        0 <= i < sheep.len(),
    ensures
        is_sent(sheep[i], ids) ==> {
            let after = after_wave(sheep, ids, direction, level_size)[i];
            &&& after.decision == Decision::Escape
            &&& after.go_to == Some(
                GoTo { target: wave_target(sheep[i].translation, direction, level_size) },
            )
            &&& after.idle_feeding is None
            &&& after.escaping
            &&& sent_by_wave(sheep, ids, sheep.len() as int).contains(sheep[i].id)
        },
        !is_sent(sheep[i], ids) ==> after_wave(sheep, ids, direction, level_size)[i] == sheep[i],
        forall|k: int|
            0 <= k < sent_by_wave(sheep, ids, sheep.len() as int).len() ==> ids.contains(
                #[trigger] sent_by_wave(sheep, ids, sheep.len() as int)[k],
            ),
{
    lemma_sent_ids(sheep, ids, sheep.len() as int);
}

/// The ids that the status lists after the first `n` sheep: those of the
/// sheep sent among them, each of which the wave called.
pub proof fn lemma_sent_ids(sheep: Seq<Sheep>, ids: Seq<u64>, n: int)
    requires
        0 <= n <= sheep.len(),
    ensures
        forall|i: int|
            0 <= i < n && is_sent(#[trigger] sheep[i], ids) ==> sent_by_wave(sheep, ids, n).contains(
                sheep[i].id,
            ),
        forall|k: int|
            0 <= k < sent_by_wave(sheep, ids, n).len() ==> ids.contains(
                #[trigger] sent_by_wave(sheep, ids, n)[k],
            ),
        sent_by_wave(sheep, ids, n).len() <= n,
    decreases n,
{
    if n > 0 {
        lemma_sent_ids(sheep, ids, n - 1);
        let before = sent_by_wave(sheep, ids, n - 1);
        let now = sent_by_wave(sheep, ids, n);
        assert forall|i: int| 0 <= i < n && is_sent(#[trigger] sheep[i], ids) implies now.contains(
            sheep[i].id,
        ) by {
            if i < n - 1 {
                let k = choose|k: int| 0 <= k < before.len() && before[k] == sheep[i].id;
                assert(now[k] == sheep[i].id);
            } else {
                assert(now[now.len() - 1] == sheep[i].id);
            }
        }
    }
}

/// In a flock without shared ids the status lists each sheep sent once.
pub proof fn lemma_sent_once(sheep: Seq<Sheep>, ids: Seq<u64>, n: int)
    requires
        0 <= n <= sheep.len(),
        crate::claims::distinct_ids(sheep),
    ensures
        sent_by_wave(sheep, ids, n).no_duplicates(),
        forall|k: int|
            0 <= k < sent_by_wave(sheep, ids, n).len() ==> exists|i: int|
                0 <= i < n && (#[trigger] sheep[i]).id == #[trigger] sent_by_wave(sheep, ids, n)[k],
    decreases n,
{
    if n > 0 {
        lemma_sent_once(sheep, ids, n - 1);
        let before = sent_by_wave(sheep, ids, n - 1);
        let now = sent_by_wave(sheep, ids, n);
        assert forall|k: int| 0 <= k < now.len() implies exists|i: int|
            0 <= i < n && (#[trigger] sheep[i]).id == #[trigger] now[k] by {
            if k < before.len() {
                let i = choose|i: int| 0 <= i < n - 1 && (#[trigger] sheep[i]).id == before[k];
                assert(sheep[i].id == now[k]);
            } else {
                assert(sheep[n - 1].id == now[k]);
            }
        }
        assert forall|a: int, b: int| 0 <= a < now.len() && 0 <= b < now.len() && a != b implies now[a]
            != now[b] by {
            if a < before.len() && b < before.len() {
                assert(before[a] != before[b]);
            } else if a < before.len() {
                let i = choose|i: int| 0 <= i < n - 1 && (#[trigger] sheep[i]).id == before[a];
                assert(sheep[i].id != sheep[n - 1].id);
            } else if b < before.len() {
                let i = choose|i: int| 0 <= i < n - 1 && (#[trigger] sheep[i]).id == before[b];
                assert(sheep[i].id != sheep[n - 1].id);
            }
        }
    }
}

/// The order in which a beam calls the sheep: the places of the `split`
/// sheep drawn most, most drawn first.
pub open spec fn beam_order(sheep: Seq<Sheep>, dog: Vec3, direction: Vec3, split: int) -> Seq<int> {
    choose|order: Seq<int>| is_lowest_order(wave_keys(sheep, dog, direction), split, order)
}

/// The flock after a beam has called the sheep in the places that `order`
/// lists: those that can join escape in the direction of the beam.
pub open spec fn after_beam(
    sheep: Seq<Sheep>,
    order: Seq<int>,
    direction: Vec3,
    level_size: int,
) -> Seq<Sheep> {
    Seq::new(
        sheep.len(),
        |i: int|
            if order.contains(i) && may_join_wave(sheep[i]) {
                sheep[i].sent_away(wave_target(sheep[i].translation, direction, level_size))
            } else {
                sheep[i]
            },
    )
}

/// The ids of the sheep that join the beam among the first `n` that `order`
/// lists, in that order.
pub open spec fn beam_ids(sheep: Seq<Sheep>, order: Seq<int>, n: int) -> Seq<u64>
    decreases n,
{
    if n <= 0 {
        Seq::empty()
    } else if may_join_wave(sheep[order[n - 1]]) {
        beam_ids(sheep, order, n - 1).push(sheep[order[n - 1]].id)
    } else {
        beam_ids(sheep, order, n - 1)
    }
}

/// The key by which a sheep is ranked for a wave.
pub fn key_for_wave(sheep: &Sheep, dog: Vec3, direction: Vec3) -> (key: i128)
    ensures
        key == wave_key(*sheep, dog, direction),
{
    if sheep.is_scared.is_none() && sheep.go_to.is_none() {
        let along: i128 = div_trunc(sheep.translation.dot(direction), 1000);
        -(along + sheep.translation.distance(dog) as i128)
    } else {
        OUT_OF_WAVE
    }
}

/// Sends one beam of a wave: the `split` sheep drawn most in the direction
/// of the beam are called, and those of them that can join escape that way.
/// Their ids are added to `sent`.
pub fn send_beam(
    sheep: &mut Vec<Sheep>,
    dog: Vec3,
    direction: Vec3,
    split: usize,
    level_size: &LevelSize,
    sent: &mut Vec<u64>,
)
    ensures
        is_lowest_order(
            wave_keys(old(sheep)@, dog, direction),
            split as int,
            beam_order(old(sheep)@, dog, direction, split as int),
        ),
        final(sheep)@ == after_beam(
            old(sheep)@,
            beam_order(old(sheep)@, dog, direction, split as int),
            direction,
            level_size.0 as int,
        ),
        final(sent)@ == old(sent)@ + beam_ids(
            old(sheep)@,
            beam_order(old(sheep)@, dog, direction, split as int),
            beam_order(old(sheep)@, dog, direction, split as int).len() as int,
        ),
{
    let mut keys: Vec<i128> = Vec::new();
    let mut i: usize = 0;
    while i < sheep.len()
        invariant
            i <= sheep.len(),
            sheep@ == old(sheep)@,
            keys@.len() == i,
            forall|j: int| 0 <= j < i ==> #[trigger] keys@[j] == wave_key(sheep[j], dog, direction),
        decreases sheep.len() - i,
    {
        keys.push(key_for_wave(&sheep[i], dog, direction));
        i += 1;
    }
    let order: Vec<usize> = k_lowest(&keys, split);
    let ghost listed = places(order@);
    let ghost before = old(sheep)@;
    let ghost level = level_size.0 as int;
    proof {
        assert(keys@ =~= wave_keys(before, dog, direction));
        lemma_lowest_order_unique(
            keys@,
            split as int,
            listed,
            beam_order(before, dog, direction, split as int),
        );
    }
    let mut r: usize = 0;
    while r < order.len()
        invariant
            r <= order.len(),
            sheep.len() == before.len(),
            before == old(sheep)@,
            level == level_size.0,
            listed == places(order@),
            is_lowest_order(keys@, split as int, listed),
            keys@.len() == before.len(),
            forall|i: int|
                0 <= i < sheep.len() ==> #[trigger] sheep[i] == if listed.take(r as int).contains(i)
                    && may_join_wave(before[i]) {
                    before[i].sent_away(wave_target(before[i].translation, direction, level))
                } else {
                    before[i]
                },
            sent@ == old(sent)@ + beam_ids(before, listed, r as int),
        decreases order.len() - r,
    {
        let e: usize = order[r];
        proof {
            assert(listed[r as int] == e as int);
            let done = listed.take(r as int);
            let next = listed.take(r as int + 1);
            assert(!done.contains(e as int)) by {
                if done.contains(e as int) {
                    let x = choose|x: int| 0 <= x < done.len() && done[x] == e as int;
                    assert(listed[x] == e as int);
                    assert(ranks_before(keys@, listed[x], listed[r as int]));
                }
            }
            assert forall|i: int| next.contains(i) <==> (done.contains(i) || i == e as int) by {
                if next.contains(i) {
                    let x = choose|x: int| 0 <= x < next.len() && next[x] == i;
                    if x < r {
                        assert(done[x] == i);
                    }
                }
                if done.contains(i) {
                    let x = choose|x: int| 0 <= x < done.len() && done[x] == i;
                    assert(next[x] == i);
                }
                if i == e as int {
                    assert(next[r as int] == i);
                }
            }
        }
        if sheep[e].is_scared.is_none() && sheep[e].go_to.is_none() {
            let target: Vec3 = target_of_wave(sheep[e].translation, direction, level_size);
            sent.push(sheep[e].id);
            sheep[e].send_away(target);
        }
        r += 1;
    }
    proof {
        assert(listed.take(order.len() as int) =~= listed);
        assert(sheep@ =~= after_beam(before, listed, direction, level));
    }
}

/// Half the side of the square from which the offset is drawn that gives a
/// beam its direction.
pub const DIRECTION_RANGE: i64 = 1_000_000;

/// Whether chance can give `d` as the direction of a beam: a vector on the
/// ground, one whole long, that points the way of an offset drawn from the
/// square around the origin; or zero, if the offset drawn is zero.
pub open spec fn possible_direction(d: Vec3) -> bool {
    exists|dx: int, dz: int|
        -DIRECTION_RANGE <= dx < DIRECTION_RANGE && -DIRECTION_RANGE <= dz < DIRECTION_RANGE && d
            == #[trigger] direction_of(dx, dz)
}

/// The direction in which the offset `(dx, dz)` points.
pub open spec fn direction_of(dx: int, dz: int) -> Vec3 {
    (Vec3 { x: dx as i32, y: 0, z: dz as i32 }).resized(1000)
}

/// Draws the direction of a beam.
pub fn random_direction(rng: &mut ThreadRng) -> (d: Vec3)
    ensures
        possible_direction(d),
{
    let dx: i64 = random_range(rng, -DIRECTION_RANGE, DIRECTION_RANGE);
    let dz: i64 = random_range(rng, -DIRECTION_RANGE, DIRECTION_RANGE);
    let d: Vec3 = Vec3::new(dx as i32, 0, dz as i32).with_length(1000);
    assert(d == direction_of(dx as int, dz as int));
    d
}

/// How many sheep each beam of a wave calls: an even share of the wave, and
/// at least one.
pub open spec fn beam_size(wave: SheepWave) -> int {
    if wave.beams > 0 && wave.count / wave.beams >= 1 {
        (wave.count / wave.beams) as int
    } else {
        1
    }
}

/// The flock in the course of a wave, and the ids of the sheep sent away so
/// far.
pub struct WaveRun {
    pub sheep: Seq<Sheep>,
    pub sent: Seq<u64>,
}

/// The wave after one beam for each of the directions, in order. A sheep
/// that one beam has sent away is on its way and joins no later beam.
pub open spec fn after_beams(
    start: WaveRun,
    directions: Seq<Vec3>,
    dog: Vec3,
    split: int,
    level_size: int,
) -> WaveRun
    decreases directions.len(),
{
    if directions.len() == 0 {
        start
    } else {
        let before = after_beams(start, directions.drop_last(), dog, split, level_size);
        let order = beam_order(before.sheep, dog, directions.last(), split);
        WaveRun {
            sheep: after_beam(before.sheep, order, directions.last(), level_size),
            sent: before.sent + beam_ids(before.sheep, order, order.len() as int),
        }
    }
}

/// Whether all of the directions are such as chance can give.
pub open spec fn possible_directions(directions: Seq<Vec3>) -> bool {
    forall|b: int| 0 <= b < directions.len() ==> possible_direction(#[trigger] directions[b])
}

/// Starts the planned wave once its time has come: each of its beams goes
/// in a direction of its own, drawn by chance, and sends away the sheep
/// drawn most that way. The wave is then no longer planned, and the status
/// tells which sheep it sent away. Before its time, and without a planned
/// wave, nothing happens.
pub fn wave_executor(
    next_wave: &mut NextWave,
    cur_time: u64,
    sheep: &mut Vec<Sheep>,
    dog: Vec3,
    level_size: &LevelSize,
    sheep_wave_status: &mut SheepWaveStatus,
)
    ensures
        match old(next_wave).0 {
            Some(wave) if wave.time <= cur_time => {
                &&& final(next_wave).0 is None
                &&& final(sheep_wave_status).start_count == final(sheep_wave_status).sheep@.len()
                &&& exists|directions: Seq<Vec3>|
                    {
                        &&& directions.len() == wave.beams
                        &&& possible_directions(directions)
                        &&& #[trigger] after_beams(
                            WaveRun { sheep: old(sheep)@, sent: Seq::empty() },
                            directions,
                            dog,
                            beam_size(wave),
                            level_size.0 as int,
                        ) == (WaveRun {
                            sheep: final(sheep)@,
                            sent: final(sheep_wave_status).sheep@,
                        })
                    }
            },
            _ => {
                &&& *final(next_wave) == *old(next_wave)
                &&& final(sheep)@ == old(sheep)@
                &&& *final(sheep_wave_status) == *old(sheep_wave_status)
            },
        },
{
    if let Some(wave) = next_wave.0 {
        if wave.time <= cur_time {
            next_wave.0 = None;
            let split: usize = if wave.beams > 0 && wave.count / wave.beams >= 1 {
                wave.count / wave.beams
            } else {
                1
            };
            let mut rng = rand::thread_rng();
            let mut sent: Vec<u64> = Vec::new();
            let ghost start = WaveRun { sheep: old(sheep)@, sent: Seq::empty() };
            let ghost mut directions: Seq<Vec3> = Seq::empty();
            let mut b: usize = 0;
            while b < wave.beams
                invariant
                    b <= wave.beams,
                    split == beam_size(wave),
                    directions.len() == b,
                    possible_directions(directions),
                    after_beams(start, directions, dog, split as int, level_size.0 as int) == (
                    WaveRun { sheep: sheep@, sent: sent@ }),
                decreases wave.beams - b,
            {
                let direction: Vec3 = random_direction(&mut rng);
                let ghost before = directions;
                send_beam(sheep, dog, direction, split, level_size, &mut sent);
                proof {
                    directions = directions.push(direction);
                    assert(directions.drop_last() =~= before);
                    assert(directions.last() == direction);
                }
                b += 1;
            }
            sheep_wave_status.start_count = sent.len();
            sheep_wave_status.sheep = sent;
        }
    }
}

/// How many of the first `n` sheep can join a wave.
pub open spec fn joiners_before(sheep: Seq<Sheep>, n: int) -> int
    decreases n,
{
    if n <= 0 {
        0
    } else {
        joiners_before(sheep, n - 1) + if may_join_wave(sheep[n - 1]) {
            1int
        } else {
            0int
        }
    }
}

/// A number brought into the range of a count.
pub open spec fn as_count(v: int) -> int {
    if v < 0 {
        0
    } else if v > usize::MAX {
        usize::MAX as int
    } else {
        v
    }
}

/// A number brought into the range of a point in time.
pub open spec fn as_time(v: int) -> int {
    if v < 0 {
        0
    } else if v > u64::MAX {
        u64::MAX as int
    } else {
        v
    }
}

/// The wave that is planned at the time `now` when `joiners` sheep can join.
/// By day a fifth of them break out by the end of the day, in ever more
/// beams; by night a tenth, in one beam. The farther the part of the day has
/// come, the sooner the wave follows; in the first five seconds of the
/// level it follows after five seconds. In the evening no wave is planned.
pub open spec fn planned_wave(
    day_state: DayState,
    episode_time: int,
    level_time: int,
    now: int,
    joiners: int,
) -> Option<SheepWave> {
    let wait = 15_000 - 3 * episode_time;
    match day_state {
        DayState::Day => Some(
            SheepWave {
                count: as_count(joiners * episode_time / 5000 + 1) as usize,
                beams: as_count(1 + episode_time / 1000) as usize,
                time: as_time(
                    now + if level_time < 5000 {
                        5000
                    } else {
                        wait
                    },
                ) as u64,
            },
        ),
        DayState::Evening => None,
        DayState::Night => Some(
            SheepWave {
                count: as_count(joiners * episode_time / 10_000 + 1) as usize,
                beams: 1,
                time: as_time(now + wait) as u64,
            },
        ),
    }
}

fn count_of(v: u128) -> (r: usize)
    ensures
        r == as_count(v as int),
{
    if v > usize::MAX as u128 {
        usize::MAX
    } else {
        v as usize
    }
}

fn time_of(v: i128) -> (r: u64)
    ensures
        r == as_time(v as int),
{
    if v < 0 {
        0
    } else if v > u64::MAX as i128 {
        u64::MAX
    } else {
        v as u64
    }
}

/// Plans the next wave. In the evening the plan is left as it is.
pub fn generate_new_wave(
    next_wave: &mut NextWave,
    now: u64,
    level_time: u64,
    day_state: DayState,
    episode_time: EpisodeTime,
    sheep: &Vec<Sheep>,
)
    ensures
        final(next_wave).0 == match planned_wave(
            day_state,
            episode_time.0 as int,
            level_time as int,
            now as int,
            joiners_before(sheep@, sheep.len() as int),
        ) {
            Some(wave) => Some(wave),
            None => old(next_wave).0,
        },
{
    let mut joiners: usize = 0;
    let mut i: usize = 0;
    while i < sheep.len()
        invariant
            i <= sheep.len(),
            joiners <= i,
            joiners == joiners_before(sheep@, i as int),
        decreases sheep.len() - i,
    {
        if sheep[i].is_scared.is_none() && sheep[i].go_to.is_none() {
            joiners += 1;
        }
        i += 1;
    }
    let episode: u128 = episode_time.0 as u128;
    proof {
        crate::vector::lemma_product_bound(
            joiners as int,
            episode as int,
            0xffff_ffff_ffff_ffff,
            0xffff_ffff,
        );
    }
    let wait: i128 = 15_000 - 3 * (episode_time.0 as i128);
    match day_state {
        DayState::Day => {
            next_wave.0 = Some(
                SheepWave {
                    count: count_of(joiners as u128 * episode / 5000 + 1),
                    beams: count_of(1 + episode / 1000),
                    time: time_of(now as i128 + if level_time < 5000 { 5000 } else { wait }),
                },
            );
        },
        DayState::Evening => {},
        DayState::Night => {
            next_wave.0 = Some(
                SheepWave {
                    count: count_of(joiners as u128 * episode / 10_000 + 1),
                    beams: 1,
                    time: time_of(now as i128 + wait),
                },
            );
        },
    }
}

/// How a wave stands.
#[derive(Clone, Copy, Debug, PartialEq, Eq, Structural)]
pub enum WaveReport {
    /// No wave is planned or under way.
    Quiet,
    /// A wave is planned.
    Worried,
    /// A wave is under way: so many sheep are escaping, and no more than
    /// `loose_limit` of the wave may be lost.
    Escaping { escapers: usize, loose_limit: usize },
    /// The wave is over; it is failed if more sheep of it were lost than the
    /// limit allows.
    Finished { failed: bool },
}

/// How many of the first `n` sheep are marked as escaping.
pub open spec fn escapers_before(sheep: Seq<Sheep>, n: int) -> int
    decreases n,
{
    if n <= 0 {
        0
    } else {
        escapers_before(sheep, n - 1) + if sheep[n - 1].escaping {
            1int
        } else {
            0int
        }
    }
}

/// How many of the first `n` ids belong to sheep that are still in the
/// flock.
pub open spec fn alive_before(sheep: Seq<Sheep>, ids: Seq<u64>, n: int) -> int
    decreases n,
{
    if n <= 0 {
        0
    } else {
        alive_before(sheep, ids, n - 1) + if crate::steering::place_of(sheep, ids[n - 1]) is Some {
            1int
        } else {
            0int
        }
    }
}

/// How many sheep of a wave of `start_count` may be lost: half of them, and
/// ten at least.
pub open spec fn loose_limit(start_count: int) -> int {
    if start_count / 2 >= 10 {
        start_count / 2
    } else {
        10
    }
}

/// How the wave stands, given the flock, the status of the wave and whether
/// another is planned.
pub open spec fn wave_report(sheep: Seq<Sheep>, status: SheepWaveStatus, planned: bool) -> WaveReport {
    let escapers = escapers_before(sheep, sheep.len() as int);
    if escapers == 0 && !planned && status.start_count != 0 {
        WaveReport::Finished {
            failed: status.start_count - alive_before(
                sheep,
                status.sheep@,
                status.sheep@.len() as int,
            ) > loose_limit(status.start_count as int),
        }
    } else if planned {
        WaveReport::Worried
    } else if status.start_count != 0 {
        WaveReport::Escaping {
            escapers: escapers as usize,
            loose_limit: loose_limit(status.start_count as int) as usize,
        }
    } else {
        WaveReport::Quiet
    }
}

/// Looks how the wave stands. A wave is over once none of its sheep is
/// escaping any more; its status is then cleared.
pub fn check_wave_finish(
    sheep: &Vec<Sheep>,
    sheep_wave_status: &mut SheepWaveStatus,
    next_wave: &NextWave,
) -> (report: WaveReport)
    ensures
        report == wave_report(sheep@, *old(sheep_wave_status), next_wave.0 is Some),
        report is Finished ==> final(sheep_wave_status).start_count == 0,
        report is Finished ==> final(sheep_wave_status).sheep@.len() == 0,
        !(report is Finished) ==> *final(sheep_wave_status) == *old(sheep_wave_status),
{
    let mut escapers: usize = 0;
    let mut i: usize = 0;
    while i < sheep.len()
        invariant
            i <= sheep.len(),
            escapers <= i,
            escapers == escapers_before(sheep@, i as int),
        decreases sheep.len() - i,
    {
        if sheep[i].escaping {
            escapers += 1;
        }
        i += 1;
    }
    let limit: usize = if sheep_wave_status.start_count / 2 >= 10 {
        sheep_wave_status.start_count / 2
    } else {
        10
    };
    if escapers == 0 && next_wave.0.is_none() && sheep_wave_status.start_count != 0 {
        let mut alive: usize = 0;
        let mut k: usize = 0;
        while k < sheep_wave_status.sheep.len()
            invariant
                k <= sheep_wave_status.sheep.len(),
                alive <= k,
                alive == alive_before(sheep@, sheep_wave_status.sheep@, k as int),
            decreases sheep_wave_status.sheep.len() - k,
        {
            if find_sheep(sheep, sheep_wave_status.sheep[k]).is_some() {
                alive += 1;
            }
            k += 1;
        }
        let failed: bool = sheep_wave_status.start_count as u128 > alive as u128 + limit as u128;
        sheep_wave_status.start_count = 0;
        sheep_wave_status.sheep = Vec::new();
        WaveReport::Finished { failed }
    } else if next_wave.0.is_some() {
        WaveReport::Worried
    } else if sheep_wave_status.start_count != 0 {
        WaveReport::Escaping { escapers, loose_limit: limit }
    } else {
        WaveReport::Quiet
    }
}

} // verus!
