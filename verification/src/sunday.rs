//! The course of the day, and what it does to the safe areas on the land.

use crate::random::random_range;
use crate::safe_area::{LandSafeArea, SafeArea};
use crate::storyteller::Storyteller;
use crate::vector::{saturate, clamp_i32, Vec2};
use rand::rngs::ThreadRng;
use vstd::prelude::*;

verus! {

/// The share of the level at which the day ends, in permille.
pub const DAY_TIME: u32 = 300;

/// The share of the level at which the evening ends, in permille.
pub const EVENING_TIME: u32 = 600;

/// The share of the level at which the night ends, in permille.
pub const NIGHT_TIME: u32 = 700;

/// By how much the land area shrinks when it splits by day, in permille.
pub const DAY_TIME_DOWNSCALE: i32 = 2_000;

/// The time of the level after which the land area splits, in milliseconds.
pub const DAYSHIFT_TIME: u64 = 25_000;

/// The part of the day.
#[derive(Clone, Copy, Debug, PartialEq, Eq, Structural)]
pub enum DayState {
    Day,
    Evening,
    Night,
}

impl Default for DayState {
    fn default() -> (state: DayState)
        ensures
            state == DayState::Day,
    {
        DayState::Day
    }
}

/// The share of the present part of the day that has passed, in permille.
#[derive(Clone, Copy, Debug, PartialEq, Eq, Structural)]
pub struct EpisodeTime(pub u32);

impl Default for EpisodeTime {
    fn default() -> (time: EpisodeTime)
        ensures
            time == EpisodeTime(0),
    {
        EpisodeTime(0)
    }
}

/// The part of the day at the share `uniform_time` of the level; none once
/// the night is over.
pub open spec fn day_state_at(uniform_time: int) -> Option<DayState> {
    if uniform_time < DAY_TIME {
        Some(DayState::Day)
    } else if uniform_time < EVENING_TIME {
        Some(DayState::Evening)
    } else if uniform_time < NIGHT_TIME {
        Some(DayState::Night)
    } else {
        None
    }
}

/// The part of the day to change to, if the time calls for another than the
/// present one.
pub fn set_day_state(current_state: DayState, uniform_time: u32) -> (next: Option<DayState>)
    ensures
        next == match day_state_at(uniform_time as int) {
            Some(state) => if state != current_state {
                Some(state)
            } else {
                None
            },
            None => None,
        },
{
    let due: DayState = if uniform_time < DAY_TIME {
        DayState::Day
    } else if uniform_time < EVENING_TIME {
        DayState::Evening
    } else if uniform_time < NIGHT_TIME {
        DayState::Night
    } else {
        return None;
    };
    if due != current_state {
        Some(due)
    } else {
        None
    }
}

/// The share of a part of the day that has passed when the level is at
/// `uniform_time`, if the part began at `begin` and lasts `length`, all in
/// permille: nothing before it began.
pub open spec fn share_of_part(uniform_time: int, begin: int, length: int) -> int {
    if uniform_time <= begin {
        0
    } else {
        (uniform_time - begin) * 1000 / length
    }
}

/// The share of the given part of the day that has passed at the share
/// `uniform_time` of the level.
pub open spec fn episode_time_at(day_state: DayState, uniform_time: int) -> int {
    let share = match day_state {
        DayState::Day => share_of_part(uniform_time, 0, DAY_TIME as int),
        DayState::Evening => share_of_part(
            uniform_time,
            DAY_TIME as int,
            EVENING_TIME - DAY_TIME,
        ),
        DayState::Night => share_of_part(
            uniform_time,
            EVENING_TIME as int,
            NIGHT_TIME - EVENING_TIME,
        ),
    };
    if share > u32::MAX {
        u32::MAX as int
    } else {
        share
    }
}

/// Works out how much of the present part of the day has passed.
pub fn set_episode_time(day_state: DayState, uniform_time: u32) -> (episode: EpisodeTime)
    ensures
        episode.0 == episode_time_at(day_state, uniform_time as int),
{
    let (begin, length): (u32, u32) = match day_state {
        DayState::Day => (0, DAY_TIME),
        DayState::Evening => (DAY_TIME, EVENING_TIME - DAY_TIME),
        DayState::Night => (EVENING_TIME, NIGHT_TIME - EVENING_TIME),
    };
    if uniform_time <= begin {
        EpisodeTime(0)
    } else {
        let share: u64 = (uniform_time - begin) as u64 * 1000 / length as u64;
        if share > u32::MAX as u64 {
            EpisodeTime(u32::MAX)
        } else {
            EpisodeTime(share as u32)
        }
    }
}

/// The scale of a land area in the evening, in permille: one whole when the
/// evening begins, falling evenly to nothing when it ends, and on below.
pub open spec fn evening_scale(uniform_time: int) -> int {
    clamp_i32(1000 - (uniform_time - DAY_TIME) * 1000 / ((EVENING_TIME - DAY_TIME) as int))
}

/// Shrinks a land area as the evening goes on: the area is its baseline,
/// scaled by how much of the evening is left.
pub fn safe_area_evening_decrease(
    area: &mut SafeArea,
    land_area: &LandSafeArea,
    uniform_time: u32,
)
    ensures
        *final(area) == land_area.start_area.scaled_by(evening_scale(uniform_time as int)),
{
    let passed: i128 = crate::vector::div_floor(
        (uniform_time as i128 - DAY_TIME as i128) * 1000,
        (EVENING_TIME - DAY_TIME) as i128,
    );
    *area = land_area.start_area.get_scaled(saturate(1000 - passed));
}

/// Whether the land area splits: the level has gone on for long enough, and
/// the area has not split before.
pub open spec fn dayshift_is_due(teller: Storyteller, level_time: int) -> bool {
    level_time > DAYSHIFT_TIME && teller.safearea_count <= 1
}

/// A land area after it has split: moved by `shift` along both axes and
/// shrunk.
pub open spec fn shifted_area(area: SafeArea, shift: int) -> SafeArea {
    area.moved_to(
        Vec2 {
            x: clamp_i32(area.center().x + shift) as i32,
            y: clamp_i32(area.center().y + shift) as i32,
        },
    ).shrunk_by(DAY_TIME_DOWNSCALE as int)
}

/// The area that splits off a land area: a circle moved by `shift` the
/// other way, a quarter as wide as the area.
pub open spec fn split_off_area(area: SafeArea, shift: int) -> SafeArea {
    SafeArea::Circle {
        pos: Vec2 {
            x: clamp_i32(area.center().x - shift) as i32,
            y: clamp_i32(area.center().y - shift) as i32,
        },
        radius: match area {
            SafeArea::Rect { pos, size } => crate::vector::trunc_div(size.x as int, 4) as i32,
            SafeArea::Circle { pos, radius } => crate::vector::trunc_div(radius as int, 4) as i32,
        },
    }
}

/// Splits a land area by day, once it is due: the area moves by `shift` and
/// shrinks, and a new circular area, which is returned, splits off to the
/// other side. The storyteller counts the new area.
pub fn safe_area_dayshift(
    area: &mut SafeArea,
    teller: &mut Storyteller,
    level_time: u64,
    shift: i32,
) -> (split_off: Option<SafeArea>)
    ensures
        dayshift_is_due(*old(teller), level_time as int) ==> {
            &&& split_off == Some(split_off_area(*old(area), shift as int))
            &&& *final(area) == shifted_area(*old(area), shift as int)
            &&& *final(teller) == (Storyteller {
                safearea_count: (old(teller).safearea_count + 1) as u8,
                ..*old(teller)
            })
        },
        !dayshift_is_due(*old(teller), level_time as int) ==> {
            &&& split_off is None
            &&& *final(area) == *old(area)
            &&& *final(teller) == *old(teller)
        },
{
    if level_time > DAYSHIFT_TIME && teller.safearea_count <= 1 {
        let center: Vec2 = area.get_center_2d();
        let width: i32 = area.get_width();
        let quarter: i128 = crate::vector::div_trunc(width as i128, 4);
        let new_area = SafeArea::Circle {
            pos: Vec2 {
                x: saturate(center.x as i128 - shift as i128),
                y: saturate(center.y as i128 - shift as i128),
            },
            radius: quarter as i32,
        };
        area.set_pos(
            Vec2 {
                x: saturate(center.x as i128 + shift as i128),
                y: saturate(center.y as i128 + shift as i128),
            },
        );
        area.downscale(DAY_TIME_DOWNSCALE);
        teller.safearea_count = teller.safearea_count + 1;
        Some(new_area)
    } else {
        None
    }
}

/// Whether chance can give `shift` as the distance by which areas move apart:
/// between 8 and 20 whole units.
pub open spec fn possible_shift(shift: int) -> bool {
    exists|units: int| 8 <= units <= 20 && shift == #[trigger] (units * 1000)
}

/// Draws the distance by which areas move apart.
pub fn random_shift(rng: &mut ThreadRng) -> (shift: i32)
    ensures
        possible_shift(shift as int),
{
    let units: i64 = random_range(rng, 8, 21);
    assert(possible_shift((units * 1000) as int));
    (units * 1000) as i32
}

} // verus!
