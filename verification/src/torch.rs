//! Torches: a lit torch keeps a circle of ground safe, and a torch that gives
//! out lets that circle shrink to nothing.

use crate::random::random_range;
use crate::safe_area::SafeArea;
use crate::sheep::Sheep;
use crate::vector::{div_trunc, lemma_product_bound, squared, trunc_div, Vec2, Vec3};
use rand::rngs::ThreadRng;
use vstd::prelude::*;

verus! {

/// The radius of the ground that a torch keeps safe.
pub const TORCH_BASE_RADIUS: u32 = 10_000;

/// How long a torch takes to give out, in milliseconds.
pub const DELIGHT_DURATION: u64 = 10_000;

/// By how much later each further torch begins to give out, in milliseconds.
pub const DELIGHT_STAGGER: u64 = 5_000;

/// How long the player has to get the torches lit again, in milliseconds.
pub const MISSION_TIME: u64 = 40_000;

/// A torch: whether it burns, how much fuel it has and can hold, in
/// permille, and the radius of the ground it keeps safe.
#[derive(Clone, Copy, Debug, PartialEq, Eq, Structural)]
pub struct TorchBase {
    pub lit: bool,
    pub fuel: u32,
    pub max_fuel: u32,
    pub radius: u32,
}

/// A call to light the torches within `radius` of `position`.
#[derive(Clone, Copy, Debug, PartialEq, Eq, Structural)]
pub struct IgniteTorch {
    pub position: Vec3,
    pub radius: u32,
}

/// A torch that gives out: the time until it begins to, the time it still
/// burns after that, and how long giving out takes in all, in milliseconds.
#[derive(Clone, Copy, Debug, PartialEq, Eq, Structural)]
pub struct TorchDelight {
    pub be_scared_time: u64,
    pub rest_time: u64,
    pub change_duration: u64,
}

/// A torch on the field with all that belongs to it.
#[derive(Clone, Copy, Debug, PartialEq, Eq, Structural)]
pub struct Torch {
    pub id: u64,
    pub translation: Vec3,
    pub base: TorchBase,
    /// Present while the torch gives out.
    pub delight: Option<TorchDelight>,
    /// The ground the torch keeps safe, while it does.
    pub area: Option<SafeArea>,
}

/// A torch as it is put on the field: unlit, without fuel.
pub fn new_torch(id: u64, translation: Vec3) -> (torch: Torch)
    ensures
        torch == (Torch {
            id,
            translation,
            base: TorchBase { lit: false, fuel: 0, max_fuel: 1000, radius: TORCH_BASE_RADIUS },
            delight: None,
            area: None,
        }),
{
    Torch {
        id,
        translation,
        base: TorchBase { lit: false, fuel: 0, max_fuel: 1000, radius: TORCH_BASE_RADIUS },
        delight: None,
        area: None,
    }
}

impl Torch {
    /// The circle around the torch with the given radius.
    pub open spec fn circle(self, radius: int) -> SafeArea {
        SafeArea::Circle {
            pos: Vec2 { x: self.translation.x, y: self.translation.z },
            radius: crate::vector::clamp_i32(radius) as i32,
        }
    }

    /// The torch after a call to light torches: within reach of the call it
    /// burns with all the fuel it can hold, keeps its circle safe and no
    /// longer gives out.
    pub open spec fn ignited(self, event: IgniteTorch) -> Torch {
        if self.translation.dist_sq(event.position) < event.radius * event.radius {
            Torch {
                base: TorchBase { lit: true, fuel: self.base.max_fuel, ..self.base },
                delight: None,
                area: Some(self.circle(self.base.radius as int)),
                ..self
            }
        } else {
            self
        }
    }

    /// The torch after `dt` more milliseconds of giving out, if it does.
    /// First the time until it begins runs down. From the round in which
    /// that has run out, the time it still burns runs down, and its circle
    /// shrinks in step; when that time is overrun the torch is out and keeps
    /// no ground safe.
    pub open spec fn after_delight(self, dt: int) -> Torch {
        match self.delight {
            None => self,
            Some(delight) => if delight.be_scared_time > dt {
                Torch {
                    delight: Some(
                        TorchDelight {
                            be_scared_time: (delight.be_scared_time - dt) as u64,
                            ..delight
                        },
                    ),
                    ..self
                }
            } else if delight.rest_time < dt {
                Torch {
                    base: TorchBase { lit: false, ..self.base },
                    delight: None,
                    area: None,
                    ..self
                }
            } else {
                Torch {
                    delight: Some(
                        TorchDelight {
                            be_scared_time: 0,
                            rest_time: (delight.rest_time - dt) as u64,
                            ..delight
                        },
                    ),
                    area: Some(
                        self.circle(
                            trunc_div(
                                TORCH_BASE_RADIUS * (delight.rest_time - dt),
                                delight.change_duration as int,
                            ),
                        ),
                    ),
                    ..self
                }
            },
        }
    }

    /// Whether the torch needs the shepherd: it is out or gives out.
    pub open spec fn needs_light(self) -> bool {
        !self.base.lit || self.delight is Some
    }
}

fn circle_of(torch: &Torch, radius: i128) -> (area: SafeArea)
    ensures
        area == torch.circle(radius as int),
{
    SafeArea::Circle {
        pos: Vec2 { x: torch.translation.x, y: torch.translation.z },
        radius: crate::vector::saturate(radius),
    }
}

/// Lights the torch if it is within reach of the call.
pub fn ignite_torch(torch: &mut Torch, event: &IgniteTorch)
    ensures
        *final(torch) == old(torch).ignited(*event),
{
    if torch.translation.distance_squared(event.position) < squared(event.radius) {
        torch.base.lit = true;
        torch.base.fuel = torch.base.max_fuel;
        torch.delight = None;
        torch.area = Some(circle_of(torch, torch.base.radius as i128));
    }
}

/// Lets the torch give out for `dt` more milliseconds, if it does.
pub fn delight(torch: &mut Torch, dt: u32)
    requires
        old(torch).delight matches Some(d) ==> d.change_duration > 0,
    ensures
        *final(torch) == old(torch).after_delight(dt as int),
{
    if let Some(delight) = torch.delight {
        if delight.be_scared_time > dt as u64 {
            torch.delight = Some(
                TorchDelight { be_scared_time: delight.be_scared_time - dt as u64, ..delight },
            );
        } else if delight.rest_time < dt as u64 {
            torch.base.lit = false;
            torch.delight = None;
            torch.area = None;
        } else {
            let rest: u64 = delight.rest_time - dt as u64;
            proof {
                lemma_product_bound(
                    TORCH_BASE_RADIUS as int,
                    rest as int,
                    10_000,
                    0xffff_ffff_ffff_ffff,
                );
            }
            let radius: i128 = div_trunc(
                TORCH_BASE_RADIUS as i128 * rest as i128,
                delight.change_duration as i128,
            );
            torch.delight = Some(TorchDelight { be_scared_time: 0, rest_time: rest, ..delight });
            torch.area = Some(circle_of(torch, radius));
        }
    }
}

/// The trouble with the torches that is under way: the time left to deal
/// with it, in milliseconds, the number of sheep when it began, how many of
/// them may be lost, and the ids of the torches that have to be lit again.
#[derive(Clone, Debug)]
pub struct TorchDelightStatus {
    pub time_for_mission: u64,
    pub start_sheep_count: usize,
    pub max_dead_sheep: usize,
    pub torches_to_lit: Vec<u64>,
}

/// How many of the first `n` sheep stand within the ground that the torch
/// keeps safe.
pub open spec fn sheep_at_torch(torch: Torch, sheep: Seq<Sheep>, n: int) -> int
    decreases n,
{
    if n <= 0 {
        0
    } else {
        sheep_at_torch(torch, sheep, n - 1) + if torch.area matches Some(area) && area.contains(
            sheep[n - 1].ground(),
        ) {
            1int
        } else {
            0int
        }
    }
}

/// Counts the sheep that stand within the ground that the torch keeps safe.
pub fn count_sheep_at_torch(torch: &Torch, sheep: &Vec<Sheep>) -> (count: usize)
    ensures
        count == sheep_at_torch(*torch, sheep@, sheep.len() as int),
{
    let mut count: usize = 0;
    let mut i: usize = 0;
    while i < sheep.len()
        invariant
            i <= sheep.len(),
            count <= i,
            count == sheep_at_torch(*torch, sheep@, i as int),
        decreases sheep.len() - i,
    {
        if let Some(area) = torch.area {
            if area.in_area(Vec2 { x: sheep[i].translation.x, y: sheep[i].translation.z }) {
                count += 1;
            }
        }
        i += 1;
    }
    count
}

/// How the trouble with the torches stands.
#[derive(Clone, Copy, Debug, PartialEq, Eq, Structural)]
pub enum TorchReport {
    /// There is no trouble.
    Quiet,
    /// The time is up: the task is failed.
    TimeUp,
    /// All torches burn again: the task is done.
    AllLit,
    /// Too many sheep are lost: the task is failed.
    TooManyDead,
    /// The task goes on: so many torches of so many burn again.
    Running { lit: usize, of: usize },
}

/// Whether the torch with this id burns and does not give out.
pub open spec fn burns_well(torches: Seq<Torch>, id: u64) -> bool {
    exists|i: int|
        0 <= i < torches.len() && (#[trigger] torches[i]).id == id && is_first_torch(torches, id, i)
            && torches[i].base.lit && torches[i].delight is None
}

/// Whether `i` is the place of the first torch with this id.
pub open spec fn is_first_torch(torches: Seq<Torch>, id: u64, i: int) -> bool {
    &&& 0 <= i < torches.len()
    &&& torches[i].id == id
    &&& forall|j: int| 0 <= j < i ==> (#[trigger] torches[j]).id != id
}

/// How many of the first `n` ids belong to torches that burn well.
pub open spec fn lit_before(torches: Seq<Torch>, ids: Seq<u64>, n: int) -> int
    decreases n,
{
    if n <= 0 {
        0
    } else {
        lit_before(torches, ids, n - 1) + if burns_well(torches, ids[n - 1]) {
            1int
        } else {
            0int
        }
    }
}

/// Whether the torch with this id burns and does not give out.
pub fn torch_burns_well(torches: &Vec<Torch>, id: u64) -> (well: bool)
    ensures
        well == burns_well(torches@, id),
{
    let mut i: usize = 0;
    while i < torches.len()
        invariant
            i <= torches.len(),
            forall|j: int| 0 <= j < i ==> (#[trigger] torches[j]).id != id,
        decreases torches.len() - i,
    {
        if torches[i].id == id {
            let well: bool = torches[i].base.lit && torches[i].delight.is_none();
            proof {
                assert(is_first_torch(torches@, id, i as int));
                if burns_well(torches@, id) {
                    let k = choose|k: int|
                        0 <= k < torches.len() && (#[trigger] torches[k]).id == id
                            && is_first_torch(torches@, id, k) && torches[k].base.lit
                            && torches[k].delight is None;
                    assert(torches[k].id == id && torches[i as int].id == id);
                    assert(k == i);
                }
            }
            return well;
        }
        i += 1;
    }
    proof {
        if burns_well(torches@, id) {
            let k = choose|k: int|
                0 <= k < torches.len() && (#[trigger] torches[k]).id == id && is_first_torch(
                    torches@,
                    id,
                    k,
                ) && torches[k].base.lit && torches[k].delight is None;
            assert(torches[k].id != id);
        }
    }
    false
}

/// How the trouble stands after `dt` more milliseconds with `alive` sheep
/// left, for a status that lists torches.
pub open spec fn torch_report(
    status: TorchDelightStatus,
    torches: Seq<Torch>,
    alive: int,
    dt: int,
) -> TorchReport {
    let lit = lit_before(torches, status.torches_to_lit@, status.torches_to_lit@.len() as int);
    if status.torches_to_lit@.len() == 0 {
        TorchReport::Quiet
    } else if status.time_for_mission < dt {
        TorchReport::TimeUp
    } else if lit == status.torches_to_lit@.len() {
        TorchReport::AllLit
    } else if status.start_sheep_count - alive > status.max_dead_sheep {
        TorchReport::TooManyDead
    } else {
        TorchReport::Running { lit: lit as usize, of: status.torches_to_lit@.len() as usize }
    }
}

/// Looks how the trouble with the torches stands, and lets its time run
/// down by `dt`.
pub fn update_delight_system(
    status: &mut TorchDelightStatus,
    torches: &Vec<Torch>,
    alive: usize,
    dt: u32,
) -> (report: TorchReport)
    ensures
        report == torch_report(*old(status), torches@, alive as int, dt as int),
        *final(status) == (TorchDelightStatus {
            time_for_mission: if old(status).torches_to_lit@.len() == 0 {
                old(status).time_for_mission
            } else if old(status).time_for_mission < dt {
                0
            } else {
                (old(status).time_for_mission - dt) as u64
            },
            ..*old(status)
        }),
{
    if status.torches_to_lit.len() == 0 {
        return TorchReport::Quiet;
    }
    if status.time_for_mission < dt as u64 {
        status.time_for_mission = 0;
        return TorchReport::TimeUp;
    }
    status.time_for_mission = status.time_for_mission - dt as u64;
    let mut lit: usize = 0;
    let mut k: usize = 0;
    while k < status.torches_to_lit.len()
        invariant
            k <= status.torches_to_lit.len(),
            lit <= k,
            lit == lit_before(torches@, status.torches_to_lit@, k as int),
        decreases status.torches_to_lit.len() - k,
    {
        if torch_burns_well(torches, status.torches_to_lit[k]) {
            lit += 1;
        }
        k += 1;
    }
    if lit == status.torches_to_lit.len() {
        TorchReport::AllLit
    } else if status.start_sheep_count as u128 > alive as u128 + status.max_dead_sheep as u128 {
        TorchReport::TooManyDead
    } else {
        TorchReport::Running { lit, of: status.torches_to_lit.len() }
    }
}

/// Whether sheep stand within the ground that the torch keeps safe.
pub open spec fn holds_sheep(torch: Torch, sheep: Seq<Sheep>) -> bool {
    sheep_at_torch(torch, sheep, sheep.len() as int) > 0
}

/// The places of those of the first `n` torches that hold sheep, in order.
pub open spec fn troubled_before(torches: Seq<Torch>, sheep: Seq<Sheep>, n: int) -> Seq<usize>
    decreases n,
{
    if n <= 0 {
        Seq::empty()
    } else if holds_sheep(torches[n - 1], sheep) {
        troubled_before(torches, sheep, n - 1).push((n - 1) as usize)
    } else {
        troubled_before(torches, sheep, n - 1)
    }
}

/// How many of the first `n` torches keep ground safe.
pub open spec fn areas_before(torches: Seq<Torch>, n: int) -> int
    decreases n,
{
    if n <= 0 {
        0
    } else {
        areas_before(torches, n - 1) + if torches[n - 1].area is Some {
            1int
        } else {
            0int
        }
    }
}

/// How many torches may give out at a time: all that keep ground safe but
/// one, and one at least.
pub open spec fn trouble_limit(with_area: int) -> int {
    if with_area - 1 >= 1 {
        with_area - 1
    } else {
        1
    }
}

/// The list after the entries in the places `picks` have been taken out,
/// one after the other.
pub open spec fn thinned(list: Seq<usize>, picks: Seq<int>) -> Seq<usize>
    decreases picks.len(),
{
    if picks.len() == 0 {
        list
    } else {
        thinned(list, picks.drop_last()).remove(picks.last())
    }
}

/// Whether each of the picks names a place of the list as it then is.
pub open spec fn possible_picks(len: int, picks: Seq<int>) -> bool {
    forall|k: int| 0 <= k < picks.len() ==> 0 <= #[trigger] picks[k] < len - k
}

/// The torch as it begins to give out, as the one whose turn is `turn`:
/// each begins `DELIGHT_STAGGER` later than the one before.
pub open spec fn going_out(torch: Torch, turn: int) -> Torch {
    Torch {
        delight: Some(
            TorchDelight {
                be_scared_time: (turn * DELIGHT_STAGGER) as u64,
                rest_time: DELIGHT_DURATION,
                change_duration: DELIGHT_DURATION,
            },
        ),
        ..torch
    }
}

/// The torches after the first `n` of the chosen have begun to give out.
pub open spec fn with_trouble(torches: Seq<Torch>, chosen: Seq<usize>, n: int) -> Seq<Torch>
    decreases n,
{
    if n <= 0 {
        torches
    } else {
        let before = with_trouble(torches, chosen, n - 1);
        before.update(chosen[n - 1] as int, going_out(before[chosen[n - 1] as int], n - 1))
    }
}

/// How many sheep stand at the first `n` of the chosen torches, in all.
pub open spec fn sheep_at_chosen(
    torches: Seq<Torch>,
    sheep: Seq<Sheep>,
    chosen: Seq<usize>,
    n: int,
) -> int
    decreases n,
{
    if n <= 0 {
        0
    } else {
        sheep_at_chosen(torches, sheep, chosen, n - 1) + sheep_at_torch(
            torches[chosen[n - 1] as int],
            sheep,
            sheep.len() as int,
        )
    }
}

/// The ids of the chosen torches.
pub open spec fn ids_of(torches: Seq<Torch>, chosen: Seq<usize>) -> Seq<u64> {
    Seq::new(chosen.len(), |k: int| torches[chosen[k] as int].id)
}

/// How many sheep may be lost while the torches give out: half of those
/// that stand at them, and ten at least.
pub open spec fn max_dead(at_torches: int) -> int {
    if at_torches / 2 > usize::MAX {
        usize::MAX as int
    } else if at_torches / 2 >= 10 {
        at_torches / 2
    } else {
        10
    }
}

/// Whether `status` and `after` are what the trouble can begin with when
/// chance takes the torches in the places `picks` out of those that hold
/// sheep.
pub open spec fn trouble_begun(
    torches: Seq<Torch>,
    sheep: Seq<Sheep>,
    picks: Seq<int>,
    after: Seq<Torch>,
    status: TorchDelightStatus,
) -> bool {
    let troubled = troubled_before(torches, sheep, torches.len() as int);
    let limit = trouble_limit(areas_before(torches, torches.len() as int));
    let chosen = thinned(troubled, picks);
    &&& possible_picks(troubled.len() as int, picks)
    &&& picks.len() == if troubled.len() > limit {
        troubled.len() - limit
    } else {
        0
    }
    &&& after == with_trouble(torches, chosen, chosen.len() as int)
    &&& status.time_for_mission == MISSION_TIME
    &&& status.start_sheep_count == sheep.len()
    &&& status.max_dead_sheep == max_dead(
        sheep_at_chosen(torches, sheep, chosen, chosen.len() as int),
    )
    &&& status.torches_to_lit@ == ids_of(torches, chosen)
}

/// Whether `status` and `after` are what the trouble can begin with,
/// whatever chance picks.
pub open spec fn trouble_can_begin(
    torches: Seq<Torch>,
    sheep: Seq<Sheep>,
    after: Seq<Torch>,
    status: TorchDelightStatus,
) -> bool {
    exists|picks: Seq<int>| #[trigger] trouble_begun(torches, sheep, picks, after, status)
}

/// Begins the trouble with the torches. Of the torches that hold sheep, all
/// but one of those that keep ground safe at most begin to give out, one
/// after the other; which ones, chance decides. Without a torch that holds
/// sheep there is no trouble, and nothing comes back.
pub fn start_fire_problems(torches: &mut Vec<Torch>, sheep: &Vec<Sheep>, rng: &mut ThreadRng) -> (status:
    Option<TorchDelightStatus>)
    requires
        old(torches).len() <= 0xffff_ffff,
    ensures
        final(torches).len() == old(torches).len(),
        status is None <==> troubled_before(old(torches)@, sheep@, old(torches).len() as int).len()
            == 0,
        status is None ==> final(torches)@ == old(torches)@,
        status matches Some(begun) ==> trouble_can_begin(
            old(torches)@,
            sheep@,
            final(torches)@,
            begun,
        ),
{
    let ghost before = old(torches)@;
    let mut chosen: Vec<usize> = Vec::new();
    let mut with_area: usize = 0;
    let mut i: usize = 0;
    while i < torches.len()
        invariant
            i <= torches.len(),
            torches@ == before,
            with_area <= i,
            with_area == areas_before(before, i as int),
            chosen@ == troubled_before(before, sheep@, i as int),
            chosen@.len() <= i,
            forall|k: int| 0 <= k < chosen@.len() ==> #[trigger] chosen@[k] < before.len(),
        decreases torches.len() - i,
    {
        if torches[i].area.is_some() {
            with_area += 1;
        }
        if count_sheep_at_torch(&torches[i], sheep) > 0 {
            chosen.push(i);
        }
        i += 1;
    }
    if chosen.len() == 0 {
        return None;
    }
    let limit: usize = if with_area >= 2 { with_area - 1 } else { 1 };
    let ghost troubled = chosen@;
    assert(limit == trouble_limit(areas_before(before, before.len() as int)));
    let ghost mut picks: Seq<int> = Seq::empty();
    while chosen.len() > limit
        invariant
            torches@ == before,
            before.len() <= 0xffff_ffff,
            limit >= 1,
            troubled.len() >= 1,
            troubled.len() <= before.len(),
            chosen@.len() >= limit || picks.len() == 0,
            chosen@ == thinned(troubled, picks),
            chosen@.len() == troubled.len() - picks.len(),
            chosen@.len() >= 1,
            possible_picks(troubled.len() as int, picks),
            forall|k: int| 0 <= k < chosen@.len() ==> #[trigger] chosen@[k] < before.len(),
        decreases chosen.len(),
    {
        let pick: i64 = random_range(rng, 0, chosen.len() as i64);
        let ghost old_picks = picks;
        let ghost old_chosen = chosen@;
        chosen.remove(pick as usize);
        proof {
            picks = picks.push(pick as int);
            assert(picks.drop_last() =~= old_picks);
            assert forall|k: int| 0 <= k < chosen@.len() implies #[trigger] chosen@[k]
                < before.len() by {
                if k < pick {
                    assert(chosen@[k] == old_chosen[k]);
                } else {
                    assert(chosen@[k] == old_chosen[k + 1]);
                }
            }
        }
    }
    let ghost listed = chosen@;
    let mut ids: Vec<u64> = Vec::new();
    let mut at_torches: u128 = 0;
    let mut k: usize = 0;
    while k < chosen.len()
        invariant
            k <= chosen.len(),
            chosen@ == listed,
            torches@ == before,
            forall|a: int| 0 <= a < listed.len() ==> #[trigger] listed[a] < before.len(),
            ids@.len() == k,
            forall|a: int| 0 <= a < k ==> #[trigger] ids@[a] == before[listed[a] as int].id,
            at_torches == sheep_at_chosen(before, sheep@, listed, k as int),
            at_torches <= k * 0xffff_ffff_ffff_ffff,
        decreases chosen.len() - k,
    {
        let place: usize = chosen[k];
        at_torches = at_torches + count_sheep_at_torch(&torches[place], sheep) as u128;
        ids.push(torches[place].id);
        k += 1;
    }
    let mut turn: usize = 0;
    while turn < chosen.len()
        invariant
            turn <= chosen.len(),
            chosen@ == listed,
            listed.len() <= before.len(),
            before.len() <= 0xffff_ffff,
            torches.len() == before.len(),
            forall|a: int| 0 <= a < listed.len() ==> #[trigger] listed[a] < before.len(),
            torches@ == with_trouble(before, listed, turn as int),
        decreases chosen.len() - turn,
    {
        let place: usize = chosen[turn];
        torches[place].delight = Some(
            TorchDelight {
                be_scared_time: turn as u64 * DELIGHT_STAGGER,
                rest_time: DELIGHT_DURATION,
                change_duration: DELIGHT_DURATION,
            },
        );
        turn += 1;
    }
    let half: u128 = at_torches / 2;
    let status = TorchDelightStatus {
        time_for_mission: MISSION_TIME,
        start_sheep_count: sheep.len(),
        max_dead_sheep: if half > usize::MAX as u128 {
            usize::MAX
        } else if half >= 10 {
            half as usize
        } else {
            10
        },
        torches_to_lit: ids,
    };
    proof {
        assert(status.torches_to_lit@ =~= ids_of(before, listed));
        assert(trouble_begun(before, sheep@, picks, torches@, status));
        assert(trouble_can_begin(before, sheep@, torches@, status));
    }
    Some(status)
}

} // verus!
