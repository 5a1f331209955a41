//! Animations: which tiles of a sheet show what a creature is doing, and
//! which tile comes next.

use crate::sheep::Sheep;
use vstd::prelude::*;

verus! {

/// A run of tiles of a sheet, from `start` to `end`, both included.
#[derive(Clone, Copy, Debug, PartialEq, Eq, Structural)]
pub struct AnimRange {
    pub start: usize,
    pub end: usize,
}

impl AnimRange {
    pub fn new(start: usize, end: usize) -> (range: AnimRange)
        ensures
            range == (AnimRange { start, end }),
    {
        AnimRange { start, end }
    }
}

/// A set of animations that share a sheet of tiles.
pub trait AnimSet {
    /// How many tiles the sheet has.
    spec fn tiles() -> nat;

    /// The tiles of this animation.
    spec fn index_range(&self) -> AnimRange;

    /// The tiles of this animation: a run that is not empty and lies on the
    /// sheet.
    fn get_index_range(&self) -> (range: AnimRange)
        ensures
            range == self.index_range(),
            range.start <= range.end < Self::tiles(),
    ;

    /// How many tiles the sheet has.
    fn get_tile_count() -> (count: usize)
        ensures
            count == Self::tiles(),
    ;
}

/// What a sheep is seen doing.
#[derive(Clone, Copy, Debug, PartialEq, Eq, Structural)]
pub enum SheepAnim {
    Idle,
    Walk,
    Feed,
}

/// What a wolf is seen doing.
#[derive(Clone, Copy, Debug, PartialEq, Eq, Structural)]
pub enum WolfAnim {
    Eat,
    Run,
}

/// What the shepherd is seen doing.
#[derive(Clone, Copy, Debug, PartialEq, Eq, Structural)]
pub enum ShepherdAnim {
    Sleep,
    Walk,
}

impl Default for SheepAnim {
    fn default() -> (anim: SheepAnim)
        ensures
            anim == SheepAnim::Idle,
    {
        SheepAnim::Idle
    }
}

impl Default for WolfAnim {
    fn default() -> (anim: WolfAnim)
        ensures
            anim == WolfAnim::Run,
    {
        WolfAnim::Run
    }
}

impl Default for ShepherdAnim {
    fn default() -> (anim: ShepherdAnim)
        ensures
            anim == ShepherdAnim::Sleep,
    {
        ShepherdAnim::Sleep
    }
}

impl AnimSet for SheepAnim {
    open spec fn tiles() -> nat {
        40
    }

    open spec fn index_range(&self) -> AnimRange {
        match *self {
            SheepAnim::Idle => AnimRange { start: 28, end: 39 },
            SheepAnim::Walk => AnimRange { start: 23, end: 28 },
            SheepAnim::Feed => AnimRange { start: 13, end: 16 },
        }
    }

    fn get_index_range(&self) -> (range: AnimRange) {
        match self {
            SheepAnim::Idle => AnimRange::new(28, 39),
            SheepAnim::Walk => AnimRange::new(23, 28),
            SheepAnim::Feed => AnimRange::new(13, 16),
        }
    }

    fn get_tile_count() -> (count: usize) {
        40
    }
}

impl AnimSet for WolfAnim {
    open spec fn tiles() -> nat {
        20
    }

    open spec fn index_range(&self) -> AnimRange {
        match *self {
            WolfAnim::Eat => AnimRange { start: 0, end: 5 },
            WolfAnim::Run => AnimRange { start: 6, end: 11 },
        }
    }

    fn get_index_range(&self) -> (range: AnimRange) {
        match self {
            WolfAnim::Eat => AnimRange::new(0, 5),
            WolfAnim::Run => AnimRange::new(6, 11),
        }
    }

    fn get_tile_count() -> (count: usize) {
        20
    }
}

impl AnimSet for ShepherdAnim {
    open spec fn tiles() -> nat {
        37
    }

    open spec fn index_range(&self) -> AnimRange {
        match *self {
            ShepherdAnim::Sleep => AnimRange { start: 0, end: 19 },
            ShepherdAnim::Walk => AnimRange { start: 20, end: 27 },
        }
    }

    fn get_index_range(&self) -> (range: AnimRange) {
        match self {
            ShepherdAnim::Sleep => AnimRange::new(0, 19),
            ShepherdAnim::Walk => AnimRange::new(20, 27),
        }
    }

    fn get_tile_count() -> (count: usize) {
        37
    }
}

impl AnimSet for crate::player::PlayerAnim {
    open spec fn tiles() -> nat {
        16
    }

    open spec fn index_range(&self) -> AnimRange {
        match *self {
            crate::player::PlayerAnim::BigBark => AnimRange { start: 0, end: 2 },
            crate::player::PlayerAnim::Bark => AnimRange { start: 3, end: 5 },
            crate::player::PlayerAnim::WalkAndBark => AnimRange { start: 6, end: 7 },
            crate::player::PlayerAnim::Walk => AnimRange { start: 9, end: 11 },
            crate::player::PlayerAnim::Idle => AnimRange { start: 12, end: 15 },
        }
    }

    fn get_index_range(&self) -> (range: AnimRange) {
        match self {
            crate::player::PlayerAnim::BigBark => AnimRange::new(0, 2),
            crate::player::PlayerAnim::Bark => AnimRange::new(3, 5),
            crate::player::PlayerAnim::WalkAndBark => AnimRange::new(6, 7),
            crate::player::PlayerAnim::Walk => AnimRange::new(9, 11),
            crate::player::PlayerAnim::Idle => AnimRange::new(12, 15),
        }
    }

    fn get_tile_count() -> (count: usize) {
        16
    }
}

/// The frame that follows `current_frame` in a run of `length` tiles: the
/// next, and the first after the last.
pub open spec fn frame_after(current_frame: int, length: int) -> int {
    (current_frame + 1) % length
}

/// Steps an animation on by one frame. Returns the new frame, counted from
/// the start of the run, and the tile of the sheet that shows it.
pub fn auto_anim<T: AnimSet>(set: &T, current_frame: usize) -> (next: (usize, usize))
    requires
        current_frame < usize::MAX,
    ensures
        next.0 == frame_after(
            current_frame as int,
            set.index_range().end + 1 - set.index_range().start,
        ),
        next.1 == set.index_range().start + next.0,
        set.index_range().start <= next.1 <= set.index_range().end < T::tiles(),
{
    let range: AnimRange = set.get_index_range();
    let count: usize = T::get_tile_count();
    assert(range.end < count);
    let frame: usize = (current_frame + 1) % (range.end + 1 - range.start);
    (frame, range.start + frame)
}

/// What a sheep is seen doing: it walks while it has a target or is scared,
/// and feeds while it feeds.
pub fn set_anim_state(sheep: &Sheep) -> (anim: SheepAnim)
    ensures
        anim == if sheep.go_to is Some {
            SheepAnim::Walk
        } else if sheep.idle_feeding is Some {
            SheepAnim::Feed
        } else if sheep.is_scared is Some {
            SheepAnim::Walk
        } else {
            SheepAnim::Idle
        },
{
    if sheep.go_to.is_some() {
        SheepAnim::Walk
    } else if sheep.idle_feeding.is_some() {
        SheepAnim::Feed
    } else if sheep.is_scared.is_some() {
        SheepAnim::Walk
    } else {
        SheepAnim::Idle
    }
}

} // verus!
