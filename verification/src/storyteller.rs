//! The storyteller keeps the time of the level and decides which trouble
//! comes next.

use crate::random::random_range;
use crate::sunday::{DayState, EpisodeTime};
use rand::rngs::ThreadRng;
use vstd::prelude::*;

verus! {

/// The time between the end of one task and the start of the next, in
/// milliseconds.
pub const TASK_DELAY: u64 = 10_000;

/// The length of a level, in milliseconds.
pub const LEVEL_DURATION: u64 = 360_000;

/// The state of the game as a whole.
#[derive(Clone, Copy, Debug, PartialEq, Eq, Structural)]
pub enum GameState {
    Loading,
    Playing,
    Menu,
    Finish,
}

/// The trouble the player is dealing with.
#[derive(Clone, Copy, Debug, PartialEq, Eq, Structural)]
pub enum GlobalTask {
    /// No task is under way.
    NoTask,
    SheepEscape,
    WolfAttack,
    CollectSheepInArea,
    TorchProblem,
    ChangeSafeArea,
}

/// When the level began and how long it lasts, in milliseconds of game time,
/// and what has happened in it so far.
#[derive(Clone, Copy, Debug, PartialEq, Eq, Structural)]
pub struct Storyteller {
    pub level_start_time: u64,
    pub level_duration: u64,
    pub safearea_count: u8,
    pub change_safe_area_was_spanwed: bool,
}

/// The score: the time played, in milliseconds, weighted by the share of the
/// flock that is still alive.
#[derive(Clone, Copy, Debug, PartialEq, Eq, Structural)]
pub struct Score(pub u64);

/// The time until the next task may start, in milliseconds.
#[derive(Clone, Copy, Debug, PartialEq, Eq, Structural)]
pub struct NextTaskDelay(pub u64);

impl Default for Score {
    fn default() -> (score: Score)
        ensures
            score == Score(0),
    {
        Score(0)
    }
}

impl Default for NextTaskDelay {
    fn default() -> (delay: NextTaskDelay)
        ensures
            delay == NextTaskDelay(TASK_DELAY),
    {
        NextTaskDelay(TASK_DELAY)
    }
}

impl Default for Storyteller {
    fn default() -> (teller: Storyteller)
        ensures
            teller == (Storyteller {
                level_start_time: 0,
                level_duration: LEVEL_DURATION,
                safearea_count: 1,
                change_safe_area_was_spanwed: false,
            }),
    {
        Storyteller {
            level_start_time: 0,
            level_duration: LEVEL_DURATION,
            safearea_count: 1,
            change_safe_area_was_spanwed: false,
        }
    }
}

/// The time since the level began: nothing before it began.
pub open spec fn level_time(start: int, now: int) -> int {
    if now >= start {
        now - start
    } else {
        0
    }
}

/// The share of the level that has passed, in permille; it goes on beyond
/// one whole when the level is over time, as far as the number reaches.
pub open spec fn uniform_time(start: int, duration: int, now: int) -> int {
    let share = level_time(start, now) * 1000 / duration;
    if share > u32::MAX {
        u32::MAX as int
    } else {
        share
    }
}

impl Storyteller {
    /// The time since the level began.
    pub fn get_level_time(&self, now: u64) -> (time: u64)
        ensures
            time == level_time(self.level_start_time as int, now as int),
    {
        if now >= self.level_start_time {
            now - self.level_start_time
        } else {
            0
        }
    }

    /// The share of the level that has passed, in permille.
    pub fn get_level_unfirom_time(&self, now: u64) -> (share: u32)
        requires
            self.level_duration > 0,
        ensures
            share == uniform_time(
                self.level_start_time as int,
                self.level_duration as int,
                now as int,
            ),
    {
        let share: u128 = self.get_level_time(now) as u128 * 1000 / self.level_duration as u128;
        if share > u32::MAX as u128 {
            u32::MAX
        } else {
            share as u32
        }
    }

    /// The time the level still lasts, in whole minutes and seconds; `None`
    /// once the level is over.
    pub fn time_left(&self, now: u64) -> (left: Option<(u64, u64)>)
        ensures
            left is None <==> level_time(self.level_start_time as int, now as int)
                >= self.level_duration,
            left matches Some((minutes, seconds)) ==> {
                let rest = (self.level_duration - level_time(
                    self.level_start_time as int,
                    now as int,
                )) / 1000;
                minutes == rest / 60 && seconds == rest % 60
            },
    {
        let passed: u64 = self.get_level_time(now);
        if passed >= self.level_duration {
            None
        } else {
            let rest: u64 = (self.level_duration - passed) / 1000;
            Some((rest / 60, rest % 60))
        }
    }
}

/// The task that comes next once the delay is over. By day the safe area
/// changes once, after half the day; otherwise sheep escape. In the evening
/// nothing comes. By night a coin decides between an escape and trouble with
/// the torches.
pub open spec fn task_after_delay(
    day_state: DayState,
    episode_time: int,
    change_was_spawned: bool,
    coin: bool,
) -> Option<GlobalTask> {
    match day_state {
        DayState::Day => if episode_time > 500 && !change_was_spawned {
            Some(GlobalTask::ChangeSafeArea)
        } else {
            Some(GlobalTask::SheepEscape)
        },
        DayState::Evening => None,
        DayState::Night => if coin {
            Some(GlobalTask::TorchProblem)
        } else {
            Some(GlobalTask::SheepEscape)
        },
    }
}

/// The delay after `dt` more milliseconds.
pub open spec fn delay_after(delay: int, dt: int) -> int {
    if delay >= dt {
        delay - dt
    } else {
        0
    }
}

/// Decides on the next task, given the coin that the night needs. While a
/// task is under way nothing is decided. Else the delay runs down by `dt`,
/// and once it has run out the next task is picked; picking the change of
/// the safe area is noted, since it happens only once.
pub fn next_task(
    teller: &mut Storyteller,
    delay: &mut NextTaskDelay,
    dt: u32,
    current_task: GlobalTask,
    day_state: DayState,
    episode_time: EpisodeTime,
    coin: bool,
) -> (next: Option<GlobalTask>)
    ensures
        final(delay).0 == if current_task == GlobalTask::NoTask {
            delay_after(old(delay).0 as int, dt as int)
        } else {
            old(delay).0 as int
        },
        next == if current_task == GlobalTask::NoTask && final(delay).0 == 0 {
            task_after_delay(
                day_state,
                episode_time.0 as int,
                old(teller).change_safe_area_was_spanwed,
                coin,
            )
        } else {
            None
        },
        *final(teller) == (Storyteller {
            change_safe_area_was_spanwed: old(teller).change_safe_area_was_spanwed || next == Some(
                GlobalTask::ChangeSafeArea,
            ),
            ..*old(teller)
        }),
{
    if current_task != GlobalTask::NoTask {
        return None;
    }
    delay.0 = if delay.0 >= dt as u64 {
        delay.0 - dt as u64
    } else {
        0
    };
    if delay.0 > 0 {
        return None;
    }
    match day_state {
        DayState::Day => {
            if episode_time.0 > 500 && !teller.change_safe_area_was_spanwed {
                teller.change_safe_area_was_spanwed = true;
                Some(GlobalTask::ChangeSafeArea)
            } else {
                Some(GlobalTask::SheepEscape)
            }
        },
        DayState::Evening => None,
        DayState::Night => {
            if coin {
                Some(GlobalTask::TorchProblem)
            } else {
                Some(GlobalTask::SheepEscape)
            }
        },
    }
}

/// Decides on the next task, tossing the coin itself.
pub fn storyteller_system(
    teller: &mut Storyteller,
    delay: &mut NextTaskDelay,
    dt: u32,
    current_task: GlobalTask,
    day_state: DayState,
    episode_time: EpisodeTime,
    rng: &mut ThreadRng,
) -> (next: Option<GlobalTask>)
    ensures
        final(delay).0 == if current_task == GlobalTask::NoTask {
            delay_after(old(delay).0 as int, dt as int)
        } else {
            old(delay).0 as int
        },
        exists|coin: bool|
            next == if current_task == GlobalTask::NoTask && final(delay).0 == 0 {
                #[trigger] task_after_delay(
                    day_state,
                    episode_time.0 as int,
                    old(teller).change_safe_area_was_spanwed,
                    coin,
                )
            } else {
                None
            },
        *final(teller) == (Storyteller {
            change_safe_area_was_spanwed: old(teller).change_safe_area_was_spanwed || next == Some(
                GlobalTask::ChangeSafeArea,
            ),
            ..*old(teller)
        }),
{
    let toss: i64 = random_range(rng, 0, 2);
    let coin: bool = toss == 1;
    let next = next_task(teller, delay, dt, current_task, day_state, episode_time, coin);
    next
}

/// The score of a flock of which `alive` of `start_count` sheep are alive
/// after `elapsed` milliseconds; nothing for a flock that started empty.
pub open spec fn score_of(alive: int, start_count: int, elapsed: int) -> int {
    if start_count == 0 {
        0
    } else {
        let score = alive * elapsed / start_count;
        if score > u64::MAX {
            u64::MAX as int
        } else {
            score
        }
    }
}

/// Works out the score.
pub fn score_system(alive: usize, start_count: u32, elapsed: u64) -> (score: Score)
    ensures
        score.0 == score_of(alive as int, start_count as int, elapsed as int),
{
    if start_count == 0 {
        Score(0)
    } else {
        proof {
            crate::vector::lemma_product_bound(
                alive as int,
                elapsed as int,
                0xffff_ffff_ffff_ffff,
                0xffff_ffff_ffff_ffff,
            );
        }
        let score: u128 = alive as u128 * elapsed as u128 / start_count as u128;
        if score > u64::MAX as u128 {
            Score(u64::MAX)
        } else {
            Score(score as u64)
        }
    }
}

/// Whether the game is lost: fewer than half of the sheep are alive.
pub fn fail_system(alive: usize, start_count: u32) -> (lost: bool)
    ensures
        lost == (2 * alive < start_count),
{
    (alive as u128) * 2 < start_count as u128
}

} // verus!
