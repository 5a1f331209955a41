//! The wind changes: the safe areas on the land move and change their size
//! over a quarter of a minute.

use crate::level::LevelSize;
use crate::safe_area::SafeArea;
use crate::vector::{clamp_i32, div_trunc, lemma_product_bound, saturate, trunc_div, Vec2};
use vstd::prelude::*;

verus! {

/// How long a change takes, in milliseconds.
pub const CHANGE_DURATION: u64 = 15_000;

/// A change of a safe area that is under way: from which scale and place to
/// which, how long it takes and how long it has taken, in milliseconds, and
/// the area as it was when the change began. Scales are in permille.
#[derive(Clone, Copy, Debug, PartialEq, Eq, Structural)]
pub struct ChangeSafeArea {
    pub target_scale: i32,
    pub start_scale: i32,
    pub target_pos: Vec2,
    pub start_pos: Vec2,
    pub duration: u64,
    pub time: u64,
    pub start_area: SafeArea,
}

/// The value on the way from `from` to `to` when `time` of `duration` has
/// passed.
pub open spec fn on_the_way(from: int, to: int, time: int, duration: int) -> int {
    clamp_i32(from + trunc_div((to - from) * time, duration))
}

/// The change by which an area shrinks to half its size while it moves by
/// `shift` along both axes.
pub open spec fn shrinking_change(area: SafeArea, shift: int) -> ChangeSafeArea {
    ChangeSafeArea {
        target_scale: 500,
        start_scale: 1000,
        target_pos: Vec2 {
            x: clamp_i32(area.center().x + shift) as i32,
            y: clamp_i32(area.center().y + shift) as i32,
        },
        start_pos: area.center(),
        duration: CHANGE_DURATION,
        time: 0,
        start_area: area,
    }
}

/// The circular area that grows while the others shrink: `shift` from the
/// origin along both axes to the other side, a quarter of the level's size
/// in radius.
pub open spec fn growing_area(level_size: int, shift: int) -> SafeArea {
    SafeArea::Circle {
        pos: Vec2 { x: clamp_i32(-shift) as i32, y: clamp_i32(-shift) as i32 },
        radius: trunc_div(level_size, 4) as i32,
    }
}

/// The change by which an area grows from nothing to its size where it is.
pub open spec fn growing_change(area: SafeArea) -> ChangeSafeArea {
    ChangeSafeArea {
        target_scale: 1000,
        start_scale: 0,
        target_pos: area.center(),
        start_pos: area.center(),
        duration: CHANGE_DURATION,
        time: 0,
        start_area: area,
    }
}

/// Begins the change of an area on the land: it is to shrink to half its
/// size and to move by `shift`.
pub fn start_change_safe_area(area: &SafeArea, shift: i32) -> (change: ChangeSafeArea)
    ensures
        change == shrinking_change(*area, shift as int),
{
    let start_pos: Vec2 = area.get_center_2d();
    ChangeSafeArea {
        target_scale: 500,
        start_scale: 1000,
        target_pos: Vec2 {
            x: saturate(start_pos.x as i128 + shift as i128),
            y: saturate(start_pos.y as i128 + shift as i128),
        },
        start_pos,
        duration: CHANGE_DURATION,
        time: 0,
        start_area: *area,
    }
}

/// The new area that grows on the other side, and its change.
pub fn start_growing_area(level_size: &LevelSize, shift: i32) -> (grown: (SafeArea, ChangeSafeArea))
    ensures
        grown.0 == growing_area(level_size.0 as int, shift as int),
        grown.1 == growing_change(grown.0),
{
    let pos = Vec2 { x: saturate(-(shift as i128)), y: saturate(-(shift as i128)) };
    let area = SafeArea::Circle { pos, radius: div_trunc(level_size.0 as i128, 4) as i32 };
    (
        area,
        ChangeSafeArea {
            target_scale: 1000,
            start_scale: 0,
            target_pos: pos,
            start_pos: pos,
            duration: CHANGE_DURATION,
            time: 0,
            start_area: area,
        },
    )
}

impl ChangeSafeArea {
    /// The area as the change has it when `time` has passed: the area the
    /// change began with, scaled and moved as far as the time has come.
    pub open spec fn area_at(self, time: int) -> SafeArea {
        self.start_area.scaled_by(
            on_the_way(self.start_scale as int, self.target_scale as int, time, self.duration as int),
        ).moved_to(
            Vec2 {
                x: on_the_way(
                    self.start_pos.x as int,
                    self.target_pos.x as int,
                    time,
                    self.duration as int,
                ) as i32,
                y: on_the_way(
                    self.start_pos.y as int,
                    self.target_pos.y as int,
                    time,
                    self.duration as int,
                ) as i32,
            },
        )
    }

    /// The time the change has taken after `dt` more milliseconds.
    pub open spec fn time_after(self, dt: int) -> int {
        if self.time + dt > u64::MAX {
            u64::MAX as int
        } else {
            self.time + dt
        }
    }
}

fn way(from: i32, to: i32, time: u64, duration: u64) -> (r: i32)
    requires
        duration > 0,
    ensures
        r == on_the_way(from as int, to as int, time as int, duration as int),
{
    let span: i128 = to as i128 - from as i128;
    proof {
        lemma_product_bound(span as int, time as int, 0x1_0000_0000, 0xffff_ffff_ffff_ffff);
    }
    saturate(from as i128 + div_trunc(span * time as i128, duration as i128))
}

/// Carries a change on by `dt` milliseconds. While the change is under way
/// the area as it now is comes back; once the time is up the change is over,
/// and nothing comes back: the area stays as it was last.
pub fn change_area_system(change: &mut ChangeSafeArea, dt: u32) -> (area: Option<SafeArea>)
    ensures
        final(change).time == old(change).time_after(dt as int),
        *final(change) == (ChangeSafeArea { time: final(change).time, ..*old(change) }),
        area == if final(change).time >= old(change).duration {
            None
        } else {
            Some(old(change).area_at(final(change).time as int))
        },
{
    change.time = if change.time > u64::MAX - dt as u64 {
        u64::MAX
    } else {
        change.time + dt as u64
    };
    if change.time >= change.duration {
        None
    } else {
        let scale: i32 = way(change.start_scale, change.target_scale, change.time, change.duration);
        let pos = Vec2 {
            x: way(change.start_pos.x, change.target_pos.x, change.time, change.duration),
            y: way(change.start_pos.y, change.target_pos.y, change.time, change.duration),
        };
        let mut area: SafeArea = change.start_area.get_scaled(scale);
        area.set_pos(pos);
        Some(area)
    }
}

} // verus!
