//! An integer-only core for a herding simulation: a flock of sheep, the
//! wolves that hunt them, the safe areas that protect them, and the dog that
//! keeps them together.
//!
//! All quantities are fixed-point integers in thousandths: lengths in
//! thousandths of a world unit, times in milliseconds, speeds in thousandths
//! of a world unit per second, and factors and weights in permille. Sums of
//! positions and velocities saturate at the ends of the range; distances are
//! compared exactly.
//!
//! The state is plain data that the caller owns: a `Vec` of sheep, a `Vec`
//! of wolves, a `Vec` of safe areas. Each system is a function that takes
//! what it reads and changes, and states in its contract what it does.
//! Chance comes from the thread-local generator of the `rand` crate; a
//! function that draws states what holds of every outcome, and stands
//! beside a function that takes what was drawn and is exact.

pub mod auto_anim;
pub mod change_safe_area_size;
pub mod claims;
pub mod corpse;
pub mod fright;
pub mod level;
pub mod physics;
pub mod player;
pub mod random;
pub mod ranking;
pub mod safe_area;
pub mod sheep;
pub mod sheep_escape;
pub mod shepherd;
pub mod spatial;
pub mod steering;
pub mod storyteller;
pub mod sunday;
pub mod torch;
pub mod vector;
pub mod wolf;
