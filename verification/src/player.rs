//! The dog: how it moves, how it barks and how long its breath lasts.

use crate::physics::{steered, walk_system, Velocity, WalkController};
use crate::vector::{lemma_product_bound, Vec3};
use vstd::prelude::*;

verus! {

/// The top speed of the dog at a trot.
pub const DOG_SPEED: u32 = 12_500;

/// How fast the dog changes its velocity.
pub const DOG_ACCELERATION: u32 = 50_000;

/// How much faster the dog is at a run, in permille.
pub const RUN_K: u32 = 2_000;

/// How much stamina the dog regains in a second, in permille.
pub const STAMINA_INCREASE: u32 = 400;

/// How much stamina a second of running costs, in permille.
pub const STAMINA_DECREASE: u32 = 600;

/// How far a bark carries.
pub const BARK_RADIUS: u32 = 10_000;

/// How far a big bark carries.
pub const BIG_BARK_RADIUS: u32 = 15_000;

/// A bark of the dog: where it sounded and how far it carries.
#[derive(Clone, Copy, Debug, PartialEq, Eq, Structural)]
pub struct Bark {
    pub radius: u32,
    pub position: Vec3,
}

/// How the dog is steered.
#[derive(Clone, Copy, Debug, PartialEq, Eq, Structural)]
pub enum MovementStyle {
    Mouse,
    WASD,
}

impl Default for MovementStyle {
    fn default() -> (style: MovementStyle)
        ensures
            style == MovementStyle::WASD,
    {
        MovementStyle::WASD
    }
}

/// The stamina of the dog, in permille, and whether the dog is out of
/// breath: it then cannot run or bark big until its stamina is full again.
#[derive(Clone, Copy, Debug, PartialEq, Eq, Structural)]
pub struct Stamina {
    pub value: i32,
    pub blocked: bool,
}

/// What the dog is seen doing.
#[derive(Clone, Copy, Debug, PartialEq, Eq, Structural)]
pub enum PlayerAnim {
    BigBark,
    Bark,
    WalkAndBark,
    Walk,
    Idle,
}

impl Default for PlayerAnim {
    fn default() -> (anim: PlayerAnim)
        ensures
            anim == PlayerAnim::Idle,
    {
        PlayerAnim::Idle
    }
}

/// The other style of steering.
pub fn change_movement_style(current: MovementStyle) -> (next: MovementStyle)
    ensures
        next != current,
{
    match current {
        MovementStyle::Mouse => MovementStyle::WASD,
        MovementStyle::WASD => MovementStyle::Mouse,
    }
}

/// What stamina is spent or gained in `dt` milliseconds at `rate` permille a
/// second.
pub open spec fn stamina_step(rate: int, dt: int) -> int {
    rate * dt / 1000
}

/// The stamina after `dt` milliseconds of rest: it grows, and once it is
/// over one whole it is cut to one whole and the dog has its breath back.
pub open spec fn rested(stamina: Stamina, dt: int) -> Stamina {
    if stamina.value + stamina_step(STAMINA_INCREASE as int, dt) > 1000 {
        Stamina { value: 1000, blocked: false }
    } else {
        Stamina {
            value: (stamina.value + stamina_step(STAMINA_INCREASE as int, dt)) as i32,
            ..stamina
        }
    }
}

/// The stamina after `cost` has been spent: it falls, no farther than the
/// number reaches, and below nothing the dog is out of breath.
pub open spec fn spent(stamina: Stamina, cost: int) -> Stamina {
    let value = crate::vector::clamp_i32(stamina.value - cost);
    Stamina { value: value as i32, blocked: stamina.blocked || value < 0 }
}

/// Lets the dog regain stamina for `dt` milliseconds.
pub fn stamina_increse(stamina: &mut Stamina, dt: u32)
    ensures
        *final(stamina) == rested(*old(stamina), dt as int),
{
    let gain: u64 = STAMINA_INCREASE as u64 * dt as u64 / 1000;
    if stamina.value as i64 + gain as i64 > 1000 {
        stamina.value = 1000;
        stamina.blocked = false;
    } else {
        stamina.value = (stamina.value as i64 + gain as i64) as i32;
    }
}

fn spend(stamina: &mut Stamina, rate: u32, dt: u32)
    requires
        rate <= 10_000,
    ensures
        *final(stamina) == spent(*old(stamina), stamina_step(rate as int, dt as int)),
{
    proof {
        lemma_product_bound(rate as int, dt as int, 10_000, 0xffff_ffff);
    }
    let cost: u64 = rate as u64 * dt as u64 / 1000;
    stamina.value = crate::vector::saturate(stamina.value as i128 - cost as i128);
    if stamina.value < 0 {
        stamina.blocked = true;
    }
}

/// Whether the dog barks big: the player asks for it and the dog has the
/// breath.
pub open spec fn barks_big(stamina: Stamina, big: bool) -> bool {
    big && !stamina.blocked
}

/// The barks of one round. A big bark carries half as far again and costs
/// stamina, three times what running costs; a plain bark in the same round
/// carries as far as the big one.
pub open spec fn barks_of(stamina: Stamina, position: Vec3, big: bool, plain: bool) -> Seq<Bark> {
    let radius = if barks_big(stamina, big) {
        BIG_BARK_RADIUS
    } else {
        BARK_RADIUS
    };
    let first = if barks_big(stamina, big) {
        seq![Bark { radius, position }]
    } else {
        Seq::empty()
    };
    if plain {
        first.push(Bark { radius, position })
    } else {
        first
    }
}

/// Lets the dog bark as the player asks: `big` for a big bark, `plain` for
/// a plain one. Returns the barks of this round.
pub fn bark(stamina: &mut Stamina, position: Vec3, big: bool, plain: bool, dt: u32) -> (barks: Vec<
    Bark,
>)
    ensures
        barks@ == barks_of(*old(stamina), position, big, plain),
        *final(stamina) == if barks_big(*old(stamina), big) {
            spent(*old(stamina), stamina_step(3 * STAMINA_DECREASE, dt as int))
        } else {
            *old(stamina)
        },
{
    let mut barks: Vec<Bark> = Vec::new();
    let mut radius: u32 = BARK_RADIUS;
    if big && !stamina.blocked {
        radius = BIG_BARK_RADIUS;
        spend(stamina, 3 * STAMINA_DECREASE, dt);
        barks.push(Bark { radius, position });
    }
    if plain {
        barks.push(Bark { radius, position });
    }
    assert(barks@ =~= barks_of(*old(stamina), position, big, plain));
    barks
}

/// The keys that steer the dog.
#[derive(Clone, Copy, Debug, PartialEq, Eq, Structural)]
pub struct MoveKeys {
    pub up: bool,
    pub down: bool,
    pub left: bool,
    pub right: bool,
    pub run: bool,
}

/// One step for a key that is held down.
pub open spec fn key_step(held: bool) -> int {
    if held {
        1
    } else {
        0
    }
}

/// The way the keys point: up is towards lesser depth, left towards lesser
/// `x`; opposite keys cancel.
pub open spec fn key_direction(keys: MoveKeys) -> Vec3 {
    Vec3 {
        x: (key_step(keys.right) - key_step(keys.left)) as i32,
        y: 0,
        z: (key_step(keys.down) - key_step(keys.up)) as i32,
    }
}

/// Whether the dog runs: the player asks for it and the dog has the breath.
pub open spec fn runs(stamina: Stamina, run: bool) -> bool {
    run && !stamina.blocked
}

/// The top speed of the dog, running or not.
pub open spec fn dog_speed(running: bool) -> int {
    if running {
        DOG_SPEED * RUN_K / 1000
    } else {
        DOG_SPEED as int
    }
}

/// The controller that steers the dog towards `target`.
pub open spec fn dog_controller(target: Vec3, running: bool) -> WalkController {
    WalkController {
        target_velocity: target,
        acceleration: DOG_ACCELERATION,
        max_speed: dog_speed(running) as u32,
    }
}

/// Steers the dog by the keys for `dt` milliseconds: it heads the way the
/// keys point, at a run if it is asked to and has the breath, which costs
/// stamina.
pub fn player_movemnt_by_wasd(
    velocity: &mut Velocity,
    stamina: &mut Stamina,
    keys: MoveKeys,
    dt: u32,
)
    ensures
        *final(stamina) == if runs(*old(stamina), keys.run) {
            spent(*old(stamina), stamina_step(STAMINA_DECREASE as int, dt as int))
        } else {
            *old(stamina)
        },
        final(velocity).0 == steered(
            old(velocity).0,
            dog_controller(
                key_direction(keys).resized(dog_speed(runs(*old(stamina), keys.run))),
                runs(*old(stamina), keys.run),
            ),
            dt as int,
        ),
{
    let mut x: i32 = 0;
    let mut z: i32 = 0;
    if keys.up {
        z = z - 1;
    }
    if keys.down {
        z = z + 1;
    }
    if keys.left {
        x = x - 1;
    }
    if keys.right {
        x = x + 1;
    }
    let running: bool = keys.run && !stamina.blocked;
    if running {
        spend(stamina, STAMINA_DECREASE, dt);
    }
    let speed: u32 = if running { DOG_SPEED * RUN_K / 1000 } else { DOG_SPEED };
    let controller = WalkController {
        target_velocity: Vec3::new(x, 0, z).with_length(speed as i64),
        acceleration: DOG_ACCELERATION,
        max_speed: speed,
    };
    walk_system(velocity, &controller, dt);
}

/// The speed with which the dog heads for a point `dist` away: its top
/// speed, but no more than would take it there in a tenth of a second.
pub open spec fn approach_speed(dist: int, running: bool) -> int {
    if dist * 10 < dog_speed(running) {
        dist * 10
    } else {
        dog_speed(running)
    }
}

/// Steers the dog towards the point `cursor` on the ground for `dt`
/// milliseconds, at a run if it is asked to and has the breath.
pub fn player_movemnt_by_mouse(
    translation: Vec3,
    velocity: &mut Velocity,
    stamina: &mut Stamina,
    cursor: Vec3,
    run: bool,
    dt: u32,
)
    ensures
        *final(stamina) == if runs(*old(stamina), run) {
            spent(*old(stamina), stamina_step(STAMINA_DECREASE as int, dt as int))
        } else {
            *old(stamina)
        },
        final(velocity).0 == steered(
            old(velocity).0,
            dog_controller(
                cursor.diff(translation).resized(
                    approach_speed(
                        cursor.diff(translation).length_spec(),
                        runs(*old(stamina), run),
                    ),
                ),
                runs(*old(stamina), run),
            ),
            dt as int,
        ),
{
    let running: bool = run && !stamina.blocked;
    if running {
        spend(stamina, STAMINA_DECREASE, dt);
    }
    let speed: u32 = if running { DOG_SPEED * RUN_K / 1000 } else { DOG_SPEED };
    let way: Vec3 = cursor.minus(translation);
    let dist: u64 = way.length();
    let approach: u64 = if dist * 10 < speed as u64 { dist * 10 } else { speed as u64 };
    let controller = WalkController {
        target_velocity: way.with_length(approach as i64),
        acceleration: DOG_ACCELERATION,
        max_speed: speed,
    };
    walk_system(velocity, &controller, dt);
}

/// What the dog is seen doing, by what the player asks of it.
pub fn set_anim_state(big_bark: bool, barking: bool, moving: bool) -> (anim: PlayerAnim)
    ensures
        anim == if big_bark {
            PlayerAnim::BigBark
        } else if barking && moving {
            PlayerAnim::WalkAndBark
        } else if barking {
            PlayerAnim::Bark
        } else if moving {
            PlayerAnim::Walk
        } else {
            PlayerAnim::Idle
        },
{
    if big_bark {
        PlayerAnim::BigBark
    } else if barking && moving {
        PlayerAnim::WalkAndBark
    } else if barking {
        PlayerAnim::Bark
    } else if moving {
        PlayerAnim::Walk
    } else {
        PlayerAnim::Idle
    }
}

} // verus!
