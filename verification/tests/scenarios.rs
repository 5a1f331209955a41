use herding::fright::update_scared_sheeps;
use herding::level::LevelSize;
use herding::physics::{apply_velocity, walk_system};
use herding::safe_area::{count_sheeps, SafeArea, SheepCounter};
use herding::sheep::{
    goto_system, idle_feeding_system, sheep_state, Decision, Sheep, StateChance,
};
use herding::spatial::{update_nearest, SpatialIndex};
use herding::steering::collect_field;
use herding::vector::{Vec2, Vec3};
use herding::wolf::{wolf_spawner, Wolf};

fn round(
    flock: &mut Vec<Sheep>,
    index: &mut SpatialIndex,
    chance: &StateChance,
    areas: &Vec<SafeArea>,
    level: &LevelSize,
    counter: &mut SheepCounter,
    dt: u32,
) {
    count_sheeps(areas, flock, counter);
    index.refresh(flock, dt);
    update_nearest(flock, index);
    update_scared_sheeps(flock, dt, Vec3::new(1_000_000, 0, 0));
    sheep_state(chance, flock, areas, level);
    goto_system(flock);
    idle_feeding_system(flock, dt);
    collect_field(flock);
    for sheep in flock.iter_mut() {
        walk_system(&mut sheep.velocity, &sheep.walk, dt);
        apply_velocity(&sheep.velocity, &mut sheep.translation, dt);
    }
}

#[test]
fn a_flock_left_alone_in_a_wide_safe_area_stays_calm_and_safe() {
    let level = LevelSize(50_000);
    let chance = StateChance::default();
    let areas = vec![SafeArea::Rect { pos: Vec2::new(0, 0), size: Vec2::new(400_000, 400_000) }];
    let mut rng = rand::thread_rng();
    let mut flock: Vec<Sheep> = Vec::new();
    for i in 0..100 {
        flock.push(Sheep::new(i, herding::sheep::random_point_in_disc(16_666, &mut rng)));
    }
    let mut index = SpatialIndex::new();
    let mut counter = SheepCounter::default();
    let mut wolves: Vec<Wolf> = Vec::new();
    let mut next_wolf = 0;
    let dt = 50;
    let mut fed = 0;
    let mut walked = 0;
    for _ in 0..1200 {
        round(&mut flock, &mut index, &chance, &areas, &level, &mut counter, dt);
        wolf_spawner(&mut flock, &mut wolves, &mut next_wolf, &areas, &level);
        assert_eq!(counter.count, 100);
        assert!(wolves.is_empty());
        for sheep in &flock {
            assert!(matches!(
                sheep.decision,
                Decision::Idle | Decision::Feed | Decision::RandomWalk | Decision::MoveToSafeArea
            ));
            assert!(!sheep.out_of_safe_area);
            assert!(!sheep.escaping);
            assert_eq!(sheep.is_scared, None);
            assert_eq!(sheep.decision == Decision::Feed, sheep.idle_feeding.is_some());
            assert_eq!(sheep.decision == Decision::RandomWalk, sheep.go_to.is_some());
            assert!(sheep.velocity.0.length_squared() <= 6250 * 6250);
            assert_eq!(sheep.translation.y, 0);
            match sheep.decision {
                Decision::Feed => fed += 1,
                Decision::RandomWalk => walked += 1,
                _ => {}
            }
        }
    }
    assert_eq!(flock.len(), 100);
    assert!(fed > 0 && walked > 0);
    // Every sheep has had its neighbours looked up.
    assert!(flock.iter().all(|s| s.nearest.0.len() == 7));
}

#[test]
fn sheep_that_stray_are_counted_out_and_draw_wolves() {
    let level = LevelSize(50_000);
    let areas = vec![SafeArea::Circle { pos: Vec2::new(0, 0), radius: 10_000 }];
    let mut flock = vec![
        Sheep::new(0, Vec3::new(0, 0, 0)),
        Sheep::new(1, Vec3::new(0, 0, 9999)),
        Sheep::new(2, Vec3::new(0, 0, 10_000)),
        Sheep::new(3, Vec3::new(-40_000, 0, 0)),
    ];
    let mut counter = SheepCounter::default();
    count_sheeps(&areas, &mut flock, &mut counter);
    assert_eq!(counter.count, 2);
    let mut wolves: Vec<Wolf> = Vec::new();
    let mut next_wolf = 0;
    wolf_spawner(&mut flock, &mut wolves, &mut next_wolf, &areas, &level);
    assert_eq!(wolves.len(), 2);
    assert_eq!(wolves[0].translation, Vec3::new(0, 0, 100_000));
    assert_eq!(wolves[1].translation, Vec3::new(-100_000, 0, 0));
    assert!(!flock[0].under_hunting && !flock[1].under_hunting);
    assert!(flock[2].under_hunting && flock[3].under_hunting);
}
