use herding::physics::{apply_velocity, walk_system, Velocity, WalkController};
use herding::sheep::{Decision, NearestSheep, Sheep, SheepTargetVel};
use herding::spatial::{update_nearest, SpatialIndex};
use herding::steering::{collect_field, find_sheep, gather};
use herding::vector::Vec3;

fn flock_on_a_line(n: u64) -> Vec<Sheep> {
    let mut flock = Vec::new();
    for i in 0..n {
        flock.push(Sheep::new(100 + i, Vec3::new((i as i32) * 1000, 0, 0)));
    }
    flock
}

fn index_of(flock: &Vec<Sheep>) -> SpatialIndex {
    let mut index = SpatialIndex::new();
    index.rebuild(flock);
    index
}

#[test]
fn a_query_at_a_sheep_reports_that_sheep_first() {
    let flock = flock_on_a_line(20);
    let index = index_of(&flock);
    for sheep in &flock {
        let found = index.k_nearest_neighbour(sheep.translation, 7);
        assert_eq!(found.len(), 7);
        assert_eq!(found[0], (sheep.translation, Some(sheep.id)));
    }
}

#[test]
fn neighbours_are_reported_nearest_first() {
    let flock = flock_on_a_line(10);
    let index = index_of(&flock);
    let found = index.k_nearest_neighbour(Vec3::new(3400, 0, 0), 4);
    assert_eq!(
        found,
        vec![
            (Vec3::new(3000, 0, 0), Some(103)),
            (Vec3::new(4000, 0, 0), Some(104)),
            (Vec3::new(2000, 0, 0), Some(102)),
            (Vec3::new(5000, 0, 0), Some(105)),
        ]
    );
}

#[test]
fn of_equally_near_sheep_the_one_entered_first_is_reported_first() {
    let flock = flock_on_a_line(5);
    let index = index_of(&flock);
    let found = index.k_nearest_neighbour(Vec3::new(2000, 0, 0), 3);
    assert_eq!(
        found,
        vec![
            (Vec3::new(2000, 0, 0), Some(102)),
            (Vec3::new(1000, 0, 0), Some(101)),
            (Vec3::new(3000, 0, 0), Some(103)),
        ]
    );
    let mut twins = flock_on_a_line(2);
    twins[1].translation = twins[0].translation;
    let found = index_of(&twins).k_nearest_neighbour(Vec3::zero(), 7);
    assert_eq!(found, vec![(Vec3::zero(), Some(100)), (Vec3::zero(), Some(101))]);
}

#[test]
fn a_query_reports_no_more_than_there_is() {
    let index = index_of(&flock_on_a_line(3));
    assert_eq!(index.k_nearest_neighbour(Vec3::zero(), 7).len(), 3);
    assert_eq!(index.k_nearest_neighbour(Vec3::zero(), 3).len(), 3);
    assert_eq!(index.k_nearest_neighbour(Vec3::zero(), 0).len(), 0);
    assert_eq!(SpatialIndex::new().k_nearest_neighbour(Vec3::zero(), 7).len(), 0);
}

#[test]
fn the_index_is_rebuilt_every_quarter_of_a_second() {
    let mut flock = flock_on_a_line(2);
    let mut index = SpatialIndex::new();
    assert!(index.refresh(&flock, 250));
    assert_eq!(index.entries.len(), 2);
    flock[0].translation = Vec3::new(0, 0, 500);
    assert!(!index.refresh(&flock, 100));
    assert!(!index.refresh(&flock, 100));
    assert_eq!(index.age, 200);
    // The index is stale: it still reports the sheep where it stood.
    assert_eq!(index.k_nearest_neighbour(Vec3::zero(), 1), vec![(Vec3::zero(), Some(100))]);
    assert!(!index.refresh(&flock, 49));
    assert!(index.refresh(&flock, 1));
    assert_eq!(index.age, 0);
    assert_eq!(
        index.k_nearest_neighbour(Vec3::zero(), 1),
        vec![(Vec3::new(0, 0, 500), Some(100))]
    );
    assert!(index.refresh(&flock, u32::MAX));
}

#[test]
fn at_most_a_hundred_sheep_are_looked_up_in_a_round() {
    let mut flock = flock_on_a_line(250);
    let index = index_of(&flock);
    let updated = |flock: &Vec<Sheep>| flock.iter().filter(|s| s.updated).count();
    update_nearest(&mut flock, &index);
    assert_eq!(updated(&flock), 100);
    assert!(flock[99].updated && !flock[100].updated);
    assert_eq!(flock[99].nearest.0.len(), 7);
    assert_eq!(flock[99].nearest.0[0], (Vec3::new(99_000, 0, 0), Some(199)));
    assert!(flock[100].nearest.0.is_empty());
    update_nearest(&mut flock, &index);
    assert_eq!(updated(&flock), 200);
    update_nearest(&mut flock, &index);
    assert_eq!(updated(&flock), 250);
    assert_eq!(flock[249].nearest.0[0], (Vec3::new(249_000, 0, 0), Some(349)));
    // All are done: the next round only clears the marks.
    flock[0].nearest = NearestSheep(Vec::new());
    update_nearest(&mut flock, &index);
    assert_eq!(updated(&flock), 0);
    assert!(flock[0].nearest.0.is_empty());
    assert_eq!(flock[1].nearest.0.len(), 7);
    update_nearest(&mut flock, &index);
    assert_eq!(updated(&flock), 100);
    assert_eq!(flock[0].nearest.0.len(), 7);
}

#[test]
fn an_empty_flock_is_refreshed_without_ado() {
    let mut flock: Vec<Sheep> = Vec::new();
    update_nearest(&mut flock, &SpatialIndex::new());
    assert!(flock.is_empty());
}

#[test]
fn sheep_are_found_by_their_id() {
    let flock = flock_on_a_line(4);
    assert_eq!(find_sheep(&flock, 102), Some(2));
    assert_eq!(find_sheep(&flock, 100), Some(0));
    assert_eq!(find_sheep(&flock, 2), None);
}

fn walking(id: u64, at: Vec3, goal: Vec3) -> Sheep {
    let mut sheep = Sheep::new(id, at);
    sheep.decision = Decision::RandomWalk;
    sheep.target_vel = SheepTargetVel(goal);
    sheep
}

#[test]
fn a_sheep_without_neighbours_follows_its_goal() {
    let mut flock = vec![walking(1, Vec3::zero(), Vec3::new(1875, 0, 0))];
    collect_field(&mut flock);
    assert_eq!(flock[0].walk.target_velocity, Vec3::new(1875, 0, 0));
    flock[0].nearest = NearestSheep(vec![(Vec3::zero(), Some(1))]);
    flock[0].target_vel = SheepTargetVel(Vec3::new(0, 0, -1875));
    collect_field(&mut flock);
    assert_eq!(flock[0].walk.target_velocity, Vec3::new(0, 0, -1875));
}

#[test]
fn an_idle_sheep_is_not_steered() {
    let mut flock = vec![Sheep::new(1, Vec3::zero())];
    flock[0].target_vel = SheepTargetVel(Vec3::new(1875, 0, 0));
    flock[0].walk.target_velocity = Vec3::new(7, 0, 7);
    collect_field(&mut flock);
    assert_eq!(flock[0].walk.target_velocity, Vec3::new(7, 0, 7));
}

#[test]
fn a_neighbour_that_is_gone_is_passed_over() {
    let mut flock = vec![walking(1, Vec3::zero(), Vec3::new(1875, 0, 0))];
    flock[0].nearest = NearestSheep(vec![
        (Vec3::zero(), Some(1)),
        (Vec3::new(100, 0, 100), Some(99)),
        (Vec3::new(100, 0, 100), None),
    ]);
    assert_eq!(gather(&flock, 0).count, 0);
    collect_field(&mut flock);
    assert_eq!(flock[0].walk.target_velocity, Vec3::new(1875, 0, 0));
}

#[test]
fn a_neighbour_that_is_too_near_pushes_the_sheep_away() {
    let mut flock = vec![
        walking(1, Vec3::zero(), Vec3::new(1875, 0, 0)),
        Sheep::new(2, Vec3::new(-500, 0, -500)),
    ];
    // The list holds an old position of the neighbour; its present one counts.
    flock[0].nearest = NearestSheep(vec![(Vec3::zero(), Some(1)), (Vec3::new(9, 0, 9), Some(2))]);
    let sums = gather(&flock, 0);
    assert_eq!(sums.count, 1);
    assert_eq!((sums.push_x, sums.push_y, sums.push_z), (146_500, 0, 146_500));
    assert_eq!(sums.lane, 0);
    assert_eq!(sums.pace, 0);
    collect_field(&mut flock);
    assert_eq!(flock[0].walk.target_velocity, Vec3::new(1752, 0, 768));
    assert_eq!(flock[1].walk.target_velocity, Vec3::zero());
}

#[test]
fn a_neighbour_at_the_preferred_distance_does_not_push() {
    let mut flock = vec![
        walking(1, Vec3::zero(), Vec3::new(1875, 0, 0)),
        Sheep::new(2, Vec3::new(1000, 0, 200)),
    ];
    flock[0].nearest = NearestSheep(vec![(Vec3::zero(), Some(1)), (Vec3::new(1000, 0, 200), Some(2))]);
    let sums = gather(&flock, 0);
    assert_eq!((sums.count, sums.push_x, sums.push_z, sums.lane), (1, 0, 0, 0));
    collect_field(&mut flock);
    // Goal and longest term agree, so the goal comes out as it went in.
    assert_eq!(flock[0].walk.target_velocity, Vec3::new(1875, 0, 0));
}

#[test]
fn neighbours_level_in_depth_push_out_of_line() {
    let mut flock = vec![
        walking(1, Vec3::zero(), Vec3::new(1000, 0, 0)),
        Sheep::new(2, Vec3::new(5000, 0, 40)),
        Sheep::new(3, Vec3::new(-5000, 0, 0)),
        Sheep::new(4, Vec3::new(0, 0, -99)),
    ];
    flock[1].velocity = Velocity(Vec3::new(3000, 0, 4000));
    flock[0].nearest = NearestSheep(vec![
        (Vec3::zero(), Some(1)),
        (Vec3::zero(), Some(2)),
        (Vec3::zero(), Some(3)),
    ]);
    let sums = gather(&flock, 0);
    assert_eq!(sums.count, 2);
    // The one 40 behind pushes back by 600, the one level pushes forward by 1000.
    assert_eq!(sums.lane, 400);
    assert_eq!((sums.vel_x, sums.vel_y, sums.vel_z), (3000, 0, 4000));
    assert_eq!(sums.pace, 5000);
    assert_eq!(sums.blend(Vec3::new(1000, 0, 0)), Vec3::new(714, 0, 285));
}

#[test]
fn steering_uses_the_flock_as_it_stood() {
    let mut flock = vec![
        walking(1, Vec3::zero(), Vec3::new(1875, 0, 0)),
        walking(2, Vec3::new(600, 0, 0), Vec3::new(-1875, 0, 0)),
    ];
    flock[0].nearest = NearestSheep(vec![(Vec3::zero(), Some(1)), (Vec3::zero(), Some(2))]);
    flock[1].nearest = NearestSheep(vec![(Vec3::zero(), Some(2)), (Vec3::zero(), Some(1))]);
    collect_field(&mut flock);
    let a = flock[0].walk.target_velocity;
    let b = flock[1].walk.target_velocity;
    assert_eq!(a.x, -b.x);
    assert_eq!((a.y, a.z, b.y), (0, b.z, 0));
    assert!(a.x < 1875);
}

#[test]
fn a_body_speeds_up_towards_its_target_velocity() {
    let controller = WalkController {
        target_velocity: Vec3::new(6250, 0, 0),
        acceleration: 18_750,
        max_speed: 6250,
    };
    let mut velocity = Velocity(Vec3::zero());
    walk_system(&mut velocity, &controller, 100);
    assert_eq!(velocity, Velocity(Vec3::new(1875, 0, 0)));
    walk_system(&mut velocity, &controller, 100);
    assert_eq!(velocity, Velocity(Vec3::new(3750, 0, 0)));
    walk_system(&mut velocity, &controller, 1000);
    assert_eq!(velocity, Velocity(Vec3::new(6250, 0, 0)));
}

#[test]
fn a_small_error_is_not_overshot() {
    let controller = WalkController {
        target_velocity: Vec3::new(100, 0, 0),
        acceleration: 18_750,
        max_speed: 6250,
    };
    let mut velocity = Velocity(Vec3::new(90, 0, 0));
    // The error is 10, so the acceleration is 1000, and 5 ms give a step of 5.
    walk_system(&mut velocity, &controller, 5);
    assert_eq!(velocity, Velocity(Vec3::new(95, 0, 0)));
    walk_system(&mut velocity, &controller, 0);
    assert_eq!(velocity, Velocity(Vec3::new(95, 0, 0)));
}

#[test]
fn a_body_never_passes_its_top_speed() {
    let controller = WalkController {
        target_velocity: Vec3::new(30_000, 0, 40_000),
        acceleration: 4_000_000_000,
        max_speed: 5000,
    };
    let mut velocity = Velocity(Vec3::zero());
    walk_system(&mut velocity, &controller, 1000);
    assert_eq!(velocity, Velocity(Vec3::new(3000, 0, 4000)));
    let mut fast = Velocity(Vec3::new(0, 0, 9000));
    let still = WalkController { target_velocity: Vec3::new(0, 0, 9000), acceleration: 1, max_speed: 100 };
    walk_system(&mut fast, &still, 16);
    assert_eq!(fast, Velocity(Vec3::new(0, 0, 100)));
}

#[test]
fn a_body_moves_with_its_velocity() {
    let mut at = Vec3::new(1000, 0, -1000);
    apply_velocity(&Velocity(Vec3::new(6250, 0, -1875)), &mut at, 16);
    assert_eq!(at, Vec3::new(1100, 0, -1030));
    apply_velocity(&Velocity(Vec3::new(6250, 0, -1875)), &mut at, 0);
    assert_eq!(at, Vec3::new(1100, 0, -1030));
    apply_velocity(&Velocity(Vec3::new(i32::MAX, 0, 0)), &mut at, u32::MAX);
    assert_eq!(at, Vec3::new(i32::MAX, 0, -1030));
}

#[test]
fn no_sheep_is_steered_to_more_than_its_top_speed() {
    // A scared sheep may want to go faster than it can.
    let mut flock = vec![
        walking(1, Vec3::zero(), Vec3::new(8125, 0, 0)),
        Sheep::new(2, Vec3::new(0, 0, 5000)),
    ];
    flock[0].nearest = NearestSheep(vec![(Vec3::zero(), Some(1)), (Vec3::zero(), Some(2))]);
    assert_eq!(gather(&flock, 0).blend(Vec3::new(8125, 0, 0)), Vec3::new(8125, 0, 0));
    collect_field(&mut flock);
    assert_eq!(flock[0].walk.max_speed, 6250);
    assert_eq!(flock[0].walk.target_velocity, Vec3::new(6250, 0, 0));
    // Alone it is cut down as well.
    let mut lone = vec![walking(1, Vec3::zero(), Vec3::new(0, 0, -8125))];
    collect_field(&mut lone);
    assert_eq!(lone[0].walk.target_velocity, Vec3::new(0, 0, -6250));
    lone[0].walk.max_speed = 0;
    collect_field(&mut lone);
    assert_eq!(lone[0].walk.target_velocity, Vec3::zero());
}
