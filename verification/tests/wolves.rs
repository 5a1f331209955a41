use herding::level::LevelSize;
use herding::physics::{apply_velocity, Velocity, WalkController};
use herding::safe_area::SafeArea;
use herding::player::Bark;
use herding::sheep::Sheep;
use herding::vector::{Vec2, Vec3};
use herding::wolf::{
    bark, catch_system, eating_system, far_out, find_last_area_with, find_nearest_prey,
    go_out_system, has_cross_to_safe, release_claim, run_out_system, segment_crosses_circle,
    wolf_spawner, Eating, GoOut, HuntState, TryToCatchSheep, Wolf,
};

fn wolf(id: u64, at: Vec3, state: HuntState) -> Wolf {
    Wolf {
        id,
        translation: at,
        velocity: Velocity(Vec3::zero()),
        walk: WalkController { target_velocity: Vec3::zero(), acceleration: 32_500, max_speed: 16_250 },
        state,
    }
}

fn seeking(target: u64) -> HuntState {
    HuntState::SeekTarget(TryToCatchSheep { target, ignore_safe: false })
}

fn stray(id: u64, at: Vec3) -> Sheep {
    let mut sheep = Sheep::new(id, at);
    sheep.out_of_safe_area = true;
    sheep
}

#[test]
fn a_safe_area_between_wolf_and_prey_blocks_the_way() {
    let start = Vec3::new(-100_000, 0, 0);
    let prey = Vec3::new(100_000, 0, 0);
    assert!(segment_crosses_circle(start, prey, Vec2::new(0, 0), 20_000));
    assert!(!segment_crosses_circle(start, prey, Vec2::new(0, 50_000), 20_000));
    let on_axis = vec![SafeArea::Circle { pos: Vec2::new(0, 0), radius: 20_000 }];
    let off_axis = vec![SafeArea::Circle { pos: Vec2::new(0, 50_000), radius: 20_000 }];
    assert!(has_cross_to_safe(&on_axis, start, prey));
    assert!(!has_cross_to_safe(&off_axis, start, prey));
}

#[test]
fn only_a_circle_strictly_between_the_ends_blocks() {
    let start = Vec3::new(0, 0, 0);
    let prey = Vec3::new(10_000, 0, 0);
    // Beyond the prey, behind the start, and level with either end.
    assert!(!segment_crosses_circle(start, prey, Vec2::new(12_000, 0), 1000));
    assert!(!segment_crosses_circle(start, prey, Vec2::new(-2000, 0), 1000));
    assert!(!segment_crosses_circle(start, prey, Vec2::new(10_000, 500), 1000));
    assert!(!segment_crosses_circle(start, prey, Vec2::new(0, 500), 1000));
    assert!(segment_crosses_circle(start, prey, Vec2::new(1, 500), 1000));
    // A circle that the line only touches does not block.
    assert!(!segment_crosses_circle(start, prey, Vec2::new(5000, 1000), 1000));
    assert!(segment_crosses_circle(start, prey, Vec2::new(5000, 999), 1000));
    assert!(!segment_crosses_circle(start, prey, Vec2::new(5000, 0), 0));
    assert!(!segment_crosses_circle(start, start, Vec2::new(0, 0), 1000));
    // The height does not count.
    assert!(segment_crosses_circle(Vec3::new(0, 700, 0), prey, Vec2::new(5000, 0), 10));
}

#[test]
fn the_ends_of_the_range_do_not_overflow() {
    let start = Vec3::new(i32::MIN, 0, i32::MIN);
    let prey = Vec3::new(i32::MAX, 0, i32::MAX);
    assert!(segment_crosses_circle(start, prey, Vec2::new(0, 0), i32::MAX));
    assert!(!segment_crosses_circle(start, prey, Vec2::new(i32::MAX, i32::MIN), i32::MAX));
    assert!(!segment_crosses_circle(start, prey, Vec2::new(i32::MIN, i32::MAX), 5));
}

#[test]
fn rectangles_do_not_block_the_way() {
    let areas = vec![SafeArea::Rect { pos: Vec2::new(0, 0), size: Vec2::new(75_000, 75_000) }];
    assert!(!has_cross_to_safe(&areas, Vec3::new(-100_000, 0, 0), Vec3::new(100_000, 0, 0)));
    assert!(!has_cross_to_safe(&Vec::new(), Vec3::new(-100_000, 0, 0), Vec3::new(100_000, 0, 0)));
}

#[test]
fn a_wolf_enters_for_a_sheep_that_strays() {
    let level = LevelSize(50_000);
    let mut sheep = vec![
        Sheep::new(10, Vec3::new(1000, 0, 0)),
        stray(11, Vec3::new(30_000, 0, 40_000)),
        stray(12, Vec3::new(-60_000, 0, 0)),
    ];
    sheep[2].under_hunting = true;
    let mut wolves: Vec<Wolf> = Vec::new();
    let mut next_id = 5;
    wolf_spawner(&mut sheep, &mut wolves, &mut next_id, &Vec::new(), &level);
    assert_eq!(next_id, 6);
    assert_eq!(wolves, vec![wolf(5, Vec3::new(60_000, 0, 80_000), seeking(11))]);
    assert!(!sheep[0].under_hunting);
    assert!(sheep[1].under_hunting);
    assert!(sheep[2].under_hunting);
    // The sheep is hunted now: no second wolf comes for it.
    wolf_spawner(&mut sheep, &mut wolves, &mut next_id, &Vec::new(), &level);
    assert_eq!(wolves.len(), 1);
    assert_eq!(next_id, 6);
}

#[test]
fn no_wolf_enters_where_a_circle_blocks_the_way() {
    let level = LevelSize(50_000);
    let mut sheep = vec![stray(1, Vec3::new(-30_000, 0, 0)), stray(2, Vec3::new(0, 0, 30_000))];
    let areas = vec![SafeArea::Circle { pos: Vec2::new(-60_000, 0), radius: 5000 }];
    let mut wolves: Vec<Wolf> = Vec::new();
    let mut next_id = 0;
    wolf_spawner(&mut sheep, &mut wolves, &mut next_id, &areas, &level);
    assert_eq!(wolves, vec![wolf(0, Vec3::new(0, 0, 100_000), seeking(2))]);
    assert!(!sheep[0].under_hunting);
    assert!(sheep[1].under_hunting);
}

#[test]
fn the_pack_never_grows_beyond_twenty() {
    let level = LevelSize(50_000);
    let mut sheep = Vec::new();
    for i in 0..30 {
        sheep.push(stray(i, Vec3::new(30_000 + (i as i32), 0, 0)));
    }
    let mut wolves = vec![wolf(100, Vec3::zero(), HuntState::Retreating(GoOut))];
    let mut next_id = 101;
    wolf_spawner(&mut sheep, &mut wolves, &mut next_id, &Vec::new(), &level);
    assert_eq!(wolves.len(), 20);
    assert_eq!(next_id, 120);
    assert_eq!(sheep.iter().filter(|s| s.under_hunting).count(), 19);
    assert!(sheep[18].under_hunting && !sheep[19].under_hunting);
    assert_eq!(wolves[19].id, 119);
    assert_eq!(wolves[19].state, seeking(18));
    wolf_spawner(&mut sheep, &mut wolves, &mut next_id, &Vec::new(), &level);
    assert_eq!(wolves.len(), 20);
}

#[test]
fn a_wolf_heads_for_its_prey_and_slows_down_near_it() {
    let mut sheep = vec![stray(1, Vec3::new(5000, 0, 0)), stray(2, Vec3::new(0, 0, 50_000))];
    let mut wolves = vec![
        wolf(1, Vec3::zero(), seeking(1)),
        wolf(2, Vec3::zero(), seeking(2)),
        wolf(3, Vec3::zero(), seeking(77)),
        wolf(4, Vec3::zero(), HuntState::Retreating(GoOut)),
    ];
    let corpses = catch_system(&mut wolves, &mut sheep);
    assert!(corpses.is_empty());
    assert_eq!(sheep.len(), 2);
    assert_eq!(wolves[0].walk.target_velocity, Vec3::new(10_000, 0, 0));
    assert_eq!(wolves[1].walk.target_velocity, Vec3::new(0, 0, 16_250));
    assert_eq!(wolves[2].walk.target_velocity, Vec3::zero());
    assert_eq!(wolves[3].walk.target_velocity, Vec3::zero());
    assert_eq!(wolves[0].state, seeking(1));
}

#[test]
fn a_wolf_catches_the_sheep_it_reaches() {
    let mut sheep = vec![
        stray(1, Vec3::new(999, 0, 0)),
        stray(2, Vec3::new(1000, 0, 0)),
        stray(3, Vec3::new(0, 0, 600)),
    ];
    let mut wolves = vec![
        wolf(1, Vec3::zero(), seeking(2)),
        wolf(2, Vec3::zero(), seeking(1)),
        wolf(3, Vec3::zero(), seeking(1)),
    ];
    let corpses = catch_system(&mut wolves, &mut sheep);
    assert_eq!(corpses, vec![Vec3::new(999, 0, 0)]);
    assert_eq!(sheep.len(), 2);
    assert_eq!(sheep[0].id, 2);
    assert_eq!(sheep[1].id, 3);
    assert_eq!(wolves[0].state, seeking(2));
    assert_eq!(wolves[0].walk.target_velocity, Vec3::new(2000, 0, 0));
    assert_eq!(wolves[1].state, HuntState::Eating(Eating { time: 2000 }));
    // The third wolf was after the same sheep, which is gone.
    assert_eq!(wolves[2].state, seeking(1));
    assert_eq!(wolves[2].walk.target_velocity, Vec3::zero());
}

#[test]
fn a_wolf_chases_down_a_sheep_that_stands_still() {
    let mut sheep = vec![stray(1, Vec3::new(5000, 0, 0))];
    sheep[0].under_hunting = true;
    let mut wolves = vec![wolf(1, Vec3::zero(), seeking(1))];
    // The wolf moves with the velocity it is steered to, cut to its top speed.
    let dt = 10;
    let mut elapsed = 0;
    let mut corpses = Vec::new();
    while corpses.is_empty() {
        assert!(elapsed < 5000);
        corpses = catch_system(&mut wolves, &mut sheep);
        if corpses.is_empty() {
            let speed = wolves[0].walk.target_velocity.clamp_length_max(wolves[0].walk.max_speed);
            assert!(speed.length() <= 10_000);
            apply_velocity(&Velocity(speed), &mut wolves[0].translation, dt);
            elapsed += dt;
        }
    }
    assert_eq!(corpses, vec![Vec3::new(5000, 0, 0)]);
    assert!(sheep.is_empty());
    assert_eq!(wolves[0].state, HuntState::Eating(Eating { time: 2000 }));
    assert!(wolves[0].translation.distance_squared(Vec3::new(5000, 0, 0)) < 1000 * 1000);
    // No sooner than the way takes at top speed, and slowed down near the prey.
    assert!(elapsed >= 4000 * 1000 / 16_250);
    assert!(elapsed > 700 && elapsed < 900);
}

#[test]
fn an_eating_wolf_stands_still_until_it_is_done() {
    let mut sheep = vec![stray(1, Vec3::new(5000, 0, 0))];
    let mut wolves = vec![wolf(1, Vec3::zero(), HuntState::Eating(Eating { time: 2000 }))];
    wolves[0].walk.target_velocity = Vec3::new(9, 0, 9);
    eating_system(&mut wolves, &mut sheep, 1999);
    assert_eq!(wolves[0].state, HuntState::Eating(Eating { time: 1 }));
    assert_eq!(wolves[0].walk.target_velocity, Vec3::zero());
    assert!(!sheep[0].under_hunting);
    eating_system(&mut wolves, &mut sheep, 1);
    assert_eq!(wolves[0].state, seeking(1));
    assert!(sheep[0].under_hunting);
}

#[test]
fn after_its_meal_a_wolf_goes_for_the_nearest_prey() {
    let mut sheep = vec![
        Sheep::new(1, Vec3::new(100, 0, 0)),
        stray(2, Vec3::new(9000, 0, 0)),
        stray(3, Vec3::new(0, 0, -3000)),
        stray(4, Vec3::new(0, 0, 3000)),
        stray(5, Vec3::new(200, 0, 0)),
    ];
    sheep[4].under_hunting = true;
    assert_eq!(find_nearest_prey(&sheep, Vec3::zero()), Some(2));
    let mut wolves = vec![
        wolf(1, Vec3::zero(), HuntState::Eating(Eating { time: 10 })),
        wolf(2, Vec3::zero(), HuntState::Eating(Eating { time: 10 })),
    ];
    eating_system(&mut wolves, &mut sheep, 16);
    assert_eq!(wolves[0].state, seeking(3));
    // The first wolf has claimed the nearest, so the second takes the next.
    assert_eq!(wolves[1].state, seeking(4));
    assert!(sheep[2].under_hunting && sheep[3].under_hunting && !sheep[1].under_hunting);
}

#[test]
fn without_prey_a_wolf_retreats_after_its_meal() {
    let mut sheep = vec![Sheep::new(1, Vec3::new(100, 0, 0))];
    assert_eq!(find_nearest_prey(&sheep, Vec3::zero()), None);
    let mut wolves = vec![wolf(1, Vec3::zero(), HuntState::Eating(Eating { time: 2000 }))];
    eating_system(&mut wolves, &mut sheep, 2000);
    assert_eq!(wolves[0].state, HuntState::Retreating(GoOut));
}

#[test]
fn a_retreating_wolf_runs_from_the_origin_and_leaves_when_far_out() {
    let level = LevelSize(50_000);
    assert!(!far_out(Vec3::new(150_000, 0, 0), &level));
    assert!(far_out(Vec3::new(150_000, 0, 1), &level));
    assert!(far_out(Vec3::zero(), &LevelSize(-1)));
    let mut wolves = vec![
        wolf(1, Vec3::new(30_000, 0, -40_000), HuntState::Retreating(GoOut)),
        wolf(2, Vec3::new(150_001, 0, 0), HuntState::Retreating(GoOut)),
        wolf(3, Vec3::new(200_000, 0, 0), seeking(1)),
        wolf(4, Vec3::new(0, 0, -900_000), HuntState::Retreating(GoOut)),
    ];
    let gone = go_out_system(&mut wolves, &level);
    assert_eq!(gone, vec![2, 4]);
    assert_eq!(wolves.len(), 2);
    assert_eq!(wolves[0].id, 1);
    assert_eq!(wolves[0].walk.target_velocity, Vec3::new(9750, 0, -13_000));
    assert_eq!(wolves[1].id, 3);
    assert_eq!(wolves[1].walk.target_velocity, Vec3::zero());
}

#[test]
fn a_safe_area_drives_a_wolf_off() {
    let areas = vec![
        SafeArea::Circle { pos: Vec2::new(0, 0), radius: 10_000 },
        SafeArea::Rect { pos: Vec2::new(3000, 0), size: Vec2::new(8000, 8000) },
    ];
    assert_eq!(find_last_area_with(&areas, Vec2::new(0, 0)), Some(1));
    assert_eq!(find_last_area_with(&areas, Vec2::new(-5000, 0)), Some(0));
    assert_eq!(find_last_area_with(&areas, Vec2::new(-50_000, 0)), None);
    let mut sheep = vec![stray(1, Vec3::new(20_000, 0, 0)), stray(2, Vec3::new(30_000, 0, 0))];
    sheep[0].under_hunting = true;
    sheep[1].under_hunting = true;
    let mut wolves = vec![
        wolf(1, Vec3::new(0, 0, 0), seeking(1)),
        wolf(2, Vec3::new(-5000, 0, 0), HuntState::Eating(Eating { time: 500 })),
        wolf(3, Vec3::new(50_000, 0, 0), seeking(2)),
        wolf(
            4,
            Vec3::new(1, 0, 1),
            HuntState::SeekTarget(TryToCatchSheep { target: 2, ignore_safe: true }),
        ),
        wolf(5, Vec3::new(1, 0, 1), HuntState::Retreating(GoOut)),
    ];
    run_out_system(&mut wolves, &mut sheep, &areas);
    assert_eq!(wolves[0].state, HuntState::Retreating(GoOut));
    // Away from the centre of the last area that holds the wolf, at (3000, 0).
    assert_eq!(wolves[0].walk.target_velocity, Vec3::new(-16_250, 0, 0));
    assert!(!sheep[0].under_hunting);
    assert_eq!(wolves[1].state, HuntState::Retreating(GoOut));
    assert_eq!(wolves[1].walk.target_velocity, Vec3::new(-16_250, 0, 0));
    assert_eq!(wolves[2].state, seeking(2));
    assert!(sheep[1].under_hunting);
    assert_eq!(
        wolves[3].state,
        HuntState::SeekTarget(TryToCatchSheep { target: 2, ignore_safe: true })
    );
    assert_eq!(wolves[4].walk.target_velocity, Vec3::zero());
}

#[test]
fn a_bark_drives_off_the_wolves_that_hear_it() {
    let mut sheep = vec![stray(1, Vec3::new(20_000, 0, 0)), stray(2, Vec3::new(30_000, 0, 0))];
    sheep[0].under_hunting = true;
    sheep[1].under_hunting = true;
    let mut wolves = vec![
        wolf(1, Vec3::new(9999, 0, 0), seeking(1)),
        wolf(2, Vec3::new(10_000, 0, 0), seeking(2)),
        wolf(3, Vec3::new(0, 0, 5), HuntState::Eating(Eating { time: 500 })),
    ];
    bark(&mut wolves, &mut sheep, &Bark { radius: 10_000, position: Vec3::zero() });
    assert_eq!(wolves[0].state, HuntState::Retreating(GoOut));
    assert_eq!(wolves[1].state, seeking(2));
    assert_eq!(wolves[2].state, HuntState::Retreating(GoOut));
    assert!(!sheep[0].under_hunting);
    assert!(sheep[1].under_hunting);
}

#[test]
fn releasing_a_claim_on_a_sheep_that_is_gone_does_nothing() {
    let mut sheep = vec![stray(1, Vec3::zero())];
    sheep[0].under_hunting = true;
    release_claim(&mut sheep, 9);
    assert!(sheep[0].under_hunting);
    release_claim(&mut sheep, 1);
    assert!(!sheep[0].under_hunting);
}

#[test]
fn no_two_wolves_are_after_the_same_sheep() {
    let level = LevelSize(50_000);
    let areas = vec![SafeArea::Circle { pos: Vec2::new(0, 0), radius: 10_000 }];
    let mut sheep = Vec::new();
    for i in 0..12 {
        sheep.push(stray(i, Vec3::new(20_000 + 3000 * (i as i32), 0, 500 * (i as i32))));
    }
    let mut wolves: Vec<Wolf> = Vec::new();
    let mut next_id = 0;
    for round in 0..400 {
        wolf_spawner(&mut sheep, &mut wolves, &mut next_id, &areas, &level);
        catch_system(&mut wolves, &mut sheep);
        eating_system(&mut wolves, &mut sheep, 50);
        go_out_system(&mut wolves, &level);
        run_out_system(&mut wolves, &mut sheep, &areas);
        if round % 97 == 5 {
            bark(&mut wolves, &mut sheep, &Bark { radius: 40_000, position: Vec3::new(30_000, 0, 0) });
        }
        for wolf in wolves.iter_mut() {
            let speed = wolf.walk.target_velocity.clamp_length_max(wolf.walk.max_speed);
            apply_velocity(&Velocity(speed), &mut wolf.translation, 50);
        }
        let mut sought: Vec<u64> = Vec::new();
        for wolf in &wolves {
            if let HuntState::SeekTarget(chase) = wolf.state {
                assert!(!sought.contains(&chase.target));
                sought.push(chase.target);
            }
        }
        for s in &sheep {
            if sought.contains(&s.id) {
                assert!(s.under_hunting);
            }
        }
        assert!(wolves.len() <= 20);
    }
    assert!(sheep.len() < 12);
}
