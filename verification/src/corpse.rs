//! What is left of a sheep that a wolf has caught.

use vstd::prelude::*;

verus! {

/// How long a corpse lies on the field, in milliseconds.
pub const CORPSE_TIME: u64 = 20_000;

/// A corpse: the time it still lies there, in milliseconds.
#[derive(Clone, Copy, Debug, PartialEq, Eq, Structural)]
pub struct Corpse {
    pub time: u64,
}

impl Default for Corpse {
    fn default() -> (corpse: Corpse)
        ensures
            corpse.time == CORPSE_TIME,
    {
        Corpse { time: CORPSE_TIME }
    }
}

/// Lets `dt` milliseconds pass for a corpse. Returns whether it is gone:
/// its time is up.
pub fn corpse_system(corpse: &mut Corpse, dt: u32) -> (gone: bool)
    ensures
        gone == (old(corpse).time <= dt),
        final(corpse).time == if old(corpse).time <= dt {
            0
        } else {
            (old(corpse).time - dt) as u64
        },
{
    if corpse.time <= dt as u64 {
        corpse.time = 0;
        true
    } else {
        corpse.time = corpse.time - dt as u64;
        false
    }
}

} // verus!
