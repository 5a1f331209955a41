use herding::level::LevelSize;
use herding::player::Bark;
use herding::safe_area::SafeArea;
use herding::sheep::{
    goto_system, idle_feeding_system, init_escape, init_random_walk, init_safeareawalk_walk,
    nearest_safe_area, scared_sheeps, setup, sheep_state, Decision, GoTo, IdleDraw,
    IdleFeeding, IsScared, Sheep, SheepTargetVel, StartSheepCount, StateChance,
};
use herding::vector::{Vec2, Vec3};

fn draw(next: Decision) -> IdleDraw {
    IdleDraw {
        next,
        feed_extra: 400,
        walk_offset: Vec2::new(300, -400),
        inside_point: Vec3::new(30_000, 0, 40_000),
    }
}

fn one_area() -> Vec<SafeArea> {
    vec![SafeArea::Circle { pos: Vec2::new(0, 0), radius: 5000 }]
}

#[test]
fn default_chance_prefers_feeding() {
    let chance = StateChance::default();
    assert_eq!(chance.next_state, vec![(667, Decision::Feed), (333, Decision::RandomWalk)]);
    assert_eq!(chance.total(), 1000);
    assert_eq!(chance.select_at(0), Decision::Feed);
    assert_eq!(chance.select_at(666), Decision::Feed);
    assert_eq!(chance.select_at(667), Decision::RandomWalk);
    assert_eq!(chance.select_at(999), Decision::RandomWalk);
    assert_eq!(chance.select_at(1000), Decision::Idle);
    assert_eq!(Decision::default(), Decision::Idle);
}

#[test]
fn normalising_turns_weights_into_shares_of_one_whole() {
    let mut chance = StateChance {
        next_state: vec![(1000, Decision::Feed), (500, Decision::RandomWalk)],
    };
    chance.normalize();
    assert_eq!(chance.next_state, vec![(667, Decision::Feed), (333, Decision::RandomWalk)]);
    chance.normalize();
    assert_eq!(chance.next_state, vec![(667, Decision::Feed), (333, Decision::RandomWalk)]);
    let mut wide = StateChance {
        next_state: vec![
            (u32::MAX, Decision::Feed),
            (0, Decision::Escape),
            (u32::MAX, Decision::RandomWalk),
            (1, Decision::MoveToSafeArea),
        ],
    };
    wide.normalize();
    assert_eq!(
        wide.next_state,
        vec![
            (500, Decision::Feed),
            (0, Decision::Escape),
            (500, Decision::RandomWalk),
            (0, Decision::MoveToSafeArea),
        ]
    );
    let mut odd = StateChance { next_state: vec![(1, Decision::Feed), (2, Decision::Escape)] };
    odd.normalize();
    assert_eq!(odd.next_state, vec![(333, Decision::Feed), (667, Decision::Escape)]);
    // A table without weight has no shares.
    let mut zero = StateChance { next_state: vec![(0, Decision::Feed), (0, Decision::Escape)] };
    zero.normalize();
    assert_eq!(zero.next_state, vec![(0, Decision::Feed), (0, Decision::Escape)]);
    let mut empty = StateChance { next_state: Vec::new() };
    empty.normalize();
    assert!(empty.next_state.is_empty());
}

#[test]
fn each_entry_gets_as_many_tickets_as_its_weight() {
    let chance = StateChance {
        next_state: vec![
            (0, Decision::Escape),
            (5, Decision::Feed),
            (0, Decision::Scared),
            (3, Decision::MoveToSafeArea),
            (2, Decision::RandomWalk),
        ],
    };
    let mut feed = 0;
    let mut walk = 0;
    let mut safe = 0;
    for p in 0..10 {
        match chance.select_at(p) {
            Decision::Feed => feed += 1,
            Decision::RandomWalk => walk += 1,
            Decision::MoveToSafeArea => safe += 1,
            other => panic!("ticket {} selects {:?}", p, other),
        }
    }
    assert_eq!((feed, safe, walk), (5, 3, 2));
    assert_eq!(chance.select_at(4), Decision::Feed);
    assert_eq!(chance.select_at(5), Decision::MoveToSafeArea);
    assert_eq!(chance.select_at(8), Decision::RandomWalk);
    assert_eq!(chance.select_at(10), Decision::Idle);
}

#[test]
fn a_table_without_weight_leaves_the_sheep_idle() {
    let mut rng = rand::thread_rng();
    let empty = StateChance { next_state: Vec::new() };
    assert_eq!(empty.total(), 0);
    assert_eq!(empty.select_next(&mut rng), Decision::Idle);
    let zero = StateChance { next_state: vec![(0, Decision::Feed), (0, Decision::Escape)] };
    assert_eq!(zero.select_next(&mut rng), Decision::Idle);
}

#[test]
fn draws_follow_the_weights() {
    let mut rng = rand::thread_rng();
    let chance = StateChance {
        next_state: vec![
            (1000, Decision::Feed),
            (500, Decision::RandomWalk),
            (0, Decision::Escape),
            (500, Decision::MoveToSafeArea),
        ],
    };
    let trials = 40_000;
    let mut feed = 0;
    let mut walk = 0;
    let mut safe = 0;
    for _ in 0..trials {
        match chance.select_next(&mut rng) {
            Decision::Feed => feed += 1,
            Decision::RandomWalk => walk += 1,
            Decision::MoveToSafeArea => safe += 1,
            other => panic!("drew {:?}", other),
        }
    }
    let share = |n: i32| (n as f64) / (trials as f64);
    assert!((share(feed) - 0.5).abs() < 0.02);
    assert!((share(walk) - 0.25).abs() < 0.02);
    assert!((share(safe) - 0.25).abs() < 0.02);
}

#[test]
fn a_new_sheep_is_idle_and_carries_nothing() {
    let sheep = Sheep::new(7, Vec3::new(1, 0, 2));
    assert_eq!(sheep.id, 7);
    assert_eq!(sheep.translation, Vec3::new(1, 0, 2));
    assert_eq!(sheep.decision, Decision::Idle);
    assert_eq!(sheep.go_to, None);
    assert_eq!(sheep.idle_feeding, None);
    assert_eq!(sheep.is_scared, None);
    assert_eq!(sheep.walk.max_speed, 6250);
    assert_eq!(sheep.walk.acceleration, 18_750);
    assert!(sheep.nearest.0.is_empty());
    assert!(!sheep.updated && !sheep.out_of_safe_area && !sheep.under_hunting && !sheep.escaping);
}

#[test]
fn deciding_to_feed_sets_the_feeding_time() {
    let mut sheep = Sheep::new(0, Vec3::zero());
    sheep.decide(&draw(Decision::Feed), &one_area());
    assert_eq!(sheep.decision, Decision::Feed);
    assert_eq!(sheep.idle_feeding, Some(IdleFeeding { time: 2900 }));
    assert_eq!(sheep.go_to, None);
}

#[test]
fn deciding_on_a_random_walk_sets_a_target_in_range() {
    let mut sheep = Sheep::new(0, Vec3::new(10_000, 0, 10_000));
    sheep.decide(&draw(Decision::RandomWalk), &one_area());
    assert_eq!(sheep.decision, Decision::RandomWalk);
    assert_eq!(sheep.go_to, Some(GoTo { target: Vec3::new(10_300, 0, 9600) }));

    let mut far = Sheep::new(1, Vec3::new(10_000, 0, 10_000));
    let mut wide = draw(Decision::RandomWalk);
    wide.walk_offset = Vec2::new(3000, 4000);
    far.decide(&wide, &one_area());
    // The offset of length 5000 is cut down to 1999: the rim is out of range.
    assert_eq!(far.go_to, Some(GoTo { target: Vec3::new(11_199, 0, 11_599) }));
    let mut rim = Sheep::new(2, Vec3::zero());
    let mut on_rim = draw(Decision::RandomWalk);
    on_rim.walk_offset = Vec2::new(2000, 0);
    rim.decide(&on_rim, &one_area());
    assert_eq!(rim.go_to, Some(GoTo { target: Vec3::new(1999, 0, 0) }));
    on_rim.walk_offset = Vec2::new(0, -1999);
    let mut inside = Sheep::new(3, Vec3::zero());
    inside.decide(&on_rim, &one_area());
    assert_eq!(inside.go_to, Some(GoTo { target: Vec3::new(0, 0, -1999) }));
}

#[test]
fn deciding_for_the_safe_area_heads_towards_it() {
    let mut sheep = Sheep::new(0, Vec3::zero());
    sheep.decide(&draw(Decision::MoveToSafeArea), &one_area());
    assert_eq!(sheep.decision, Decision::MoveToSafeArea);
    assert_eq!(sheep.go_to, Some(GoTo { target: Vec3::new(6600, 0, 8800) }));
}

#[test]
fn without_an_area_no_sheep_starts_for_one() {
    let mut sheep = Sheep::new(0, Vec3::zero());
    sheep.decide(&draw(Decision::MoveToSafeArea), &Vec::new());
    assert_eq!(sheep.decision, Decision::Idle);
    assert_eq!(sheep.go_to, None);
}

#[test]
fn with_several_areas_a_sheep_still_starts_for_one() {
    let two = vec![
        SafeArea::Circle { pos: Vec2::new(0, 0), radius: 5000 },
        SafeArea::Circle { pos: Vec2::new(9000, 0), radius: 5000 },
    ];
    let mut sheep = Sheep::new(0, Vec3::zero());
    sheep.decide(&draw(Decision::MoveToSafeArea), &two);
    assert_eq!(sheep.decision, Decision::MoveToSafeArea);
    assert_eq!(sheep.go_to, Some(GoTo { target: Vec3::new(6600, 0, 8800) }));
}

#[test]
fn sheep_head_for_the_area_nearest_to_them() {
    let chance = StateChance { next_state: vec![(1, Decision::MoveToSafeArea)] };
    let areas = vec![
        SafeArea::Circle { pos: Vec2::new(-10_000, 0), radius: 2000 },
        SafeArea::Circle { pos: Vec2::new(10_000, 0), radius: 2000 },
    ];
    let mut flock = vec![
        Sheep::new(0, Vec3::new(-3000, 0, 0)),
        Sheep::new(1, Vec3::new(3000, 0, 0)),
    ];
    for _ in 0..50 {
        flock[0].decision = Decision::Idle;
        flock[0].go_to = None;
        flock[1].decision = Decision::Idle;
        flock[1].go_to = None;
        sheep_state(&chance, &mut flock, &areas, &LevelSize(50_000));
        assert_eq!(flock[0].decision, Decision::MoveToSafeArea);
        assert_eq!(flock[1].decision, Decision::MoveToSafeArea);
        // Each walks towards a point of the area on its own side.
        assert!(flock[0].go_to.unwrap().target.x < -10_000);
        assert!(flock[1].go_to.unwrap().target.x > 10_000);
    }
}

#[test]
fn escaping_leads_away_from_the_nearest_area() {
    let areas = vec![
        SafeArea::Rect { pos: Vec2::new(10_000, 0), size: Vec2::new(100, 100) },
        SafeArea::Circle { pos: Vec2::new(0, 0), radius: 5000 },
    ];
    let mut sheep = Sheep::new(0, Vec3::new(3000, 0, 0));
    assert_eq!(nearest_safe_area(&areas, sheep.translation), Some(1));
    sheep.decide(&draw(Decision::Escape), &areas);
    assert_eq!(sheep.decision, Decision::Escape);
    assert_eq!(sheep.go_to, Some(GoTo { target: Vec3::new(13_000, 0, 0) }));
}

#[test]
fn of_two_equally_near_areas_the_first_counts() {
    let areas = vec![
        SafeArea::Circle { pos: Vec2::new(-1000, 0), radius: 10 },
        SafeArea::Circle { pos: Vec2::new(1000, 0), radius: 10 },
    ];
    assert_eq!(nearest_safe_area(&areas, Vec3::zero()), Some(0));
    assert_eq!(nearest_safe_area(&Vec::new(), Vec3::zero()), None);
}

#[test]
fn without_an_area_no_sheep_escapes() {
    let mut sheep = Sheep::new(0, Vec3::new(3000, 0, 0));
    sheep.decide(&draw(Decision::Escape), &Vec::new());
    assert_eq!(sheep.decision, Decision::Idle);
    assert_eq!(sheep.go_to, None);
    init_escape(&mut sheep, &Vec::new());
    assert_eq!(sheep.go_to, None);
}

#[test]
fn a_sheep_at_the_center_escapes_nowhere() {
    let mut sheep = Sheep::new(0, Vec3::new(0, 0, 0));
    init_escape(&mut sheep, &one_area());
    assert_eq!(sheep.go_to, Some(GoTo { target: Vec3::zero() }));
}

#[test]
fn a_decision_to_idle_or_to_be_scared_changes_nothing() {
    let mut sheep = Sheep::new(0, Vec3::zero());
    sheep.decide(&draw(Decision::Idle), &one_area());
    assert_eq!(sheep.decision, Decision::Idle);
    sheep.decide(&draw(Decision::Scared), &one_area());
    assert_eq!(sheep.decision, Decision::Idle);
    assert_eq!(sheep.is_scared, None);
}

#[test]
fn only_idle_sheep_decide() {
    let mut feeding = Sheep::new(0, Vec3::zero());
    feeding.decide(&draw(Decision::Feed), &one_area());
    feeding.decide(&draw(Decision::RandomWalk), &one_area());
    assert_eq!(feeding.decision, Decision::Feed);
    assert_eq!(feeding.go_to, None);

    let mut scared = Sheep::new(1, Vec3::zero());
    scared.frighten();
    scared.decide(&draw(Decision::Feed), &one_area());
    assert_eq!(scared.decision, Decision::Scared);
    assert_eq!(scared.idle_feeding, None);
}

#[test]
fn init_functions_set_only_the_target() {
    let mut sheep = Sheep::new(0, Vec3::new(1000, 0, 1000));
    init_random_walk(&mut sheep, Vec2::new(-2000, 0));
    assert_eq!(sheep.go_to, Some(GoTo { target: Vec3::new(-999, 0, 1000) }));
    assert_eq!(sheep.decision, Decision::Idle);
    init_safeareawalk_walk(&mut sheep, Vec3::new(1000, 0, 101_000));
    assert_eq!(sheep.go_to, Some(GoTo { target: Vec3::new(1000, 0, 12_000) }));
    // A point nearer than the step is overshot: the step has a fixed length.
    init_safeareawalk_walk(&mut sheep, Vec3::new(1000, 0, 2000));
    assert_eq!(sheep.go_to, Some(GoTo { target: Vec3::new(1000, 0, 12_000) }));
}

#[test]
fn a_sheep_within_the_accepted_distance_has_arrived() {
    let mut sheep = Sheep::new(0, Vec3::zero());
    sheep.decision = Decision::RandomWalk;
    sheep.go_to = Some(GoTo { target: Vec3::new(300, 0, 400) });
    sheep.target_vel = SheepTargetVel(Vec3::new(5, 0, 5));
    sheep.walk_to_target();
    assert_eq!(sheep.decision, Decision::Idle);
    assert_eq!(sheep.go_to, None);
    assert_eq!(sheep.target_vel, SheepTargetVel(Vec3::zero()));
}

#[test]
fn a_sheep_on_its_target_has_arrived() {
    let mut sheep = Sheep::new(0, Vec3::new(7, 0, 7));
    sheep.decision = Decision::Escape;
    sheep.escaping = true;
    sheep.go_to = Some(GoTo { target: Vec3::new(7, 0, 7) });
    sheep.walk_to_target();
    assert_eq!(sheep.decision, Decision::Idle);
    assert_eq!(sheep.go_to, None);
    assert!(!sheep.escaping);
}

#[test]
fn a_sheep_beyond_the_accepted_distance_walks_on() {
    let mut sheep = Sheep::new(0, Vec3::zero());
    sheep.decision = Decision::RandomWalk;
    sheep.go_to = Some(GoTo { target: Vec3::new(501, 0, 0) });
    sheep.walk_to_target();
    assert_eq!(sheep.decision, Decision::RandomWalk);
    assert_eq!(sheep.go_to, Some(GoTo { target: Vec3::new(501, 0, 0) }));
    assert_eq!(sheep.target_vel, SheepTargetVel(Vec3::new(1875, 0, 0)));

    sheep.decision = Decision::MoveToSafeArea;
    sheep.go_to = Some(GoTo { target: Vec3::new(3000, 0, -4000) });
    sheep.walk_to_target();
    assert_eq!(sheep.target_vel, SheepTargetVel(Vec3::new(1125, 0, -1500)));
}

#[test]
fn an_escaping_sheep_runs_at_top_speed() {
    let mut sheep = Sheep::new(0, Vec3::zero());
    sheep.decision = Decision::Escape;
    sheep.go_to = Some(GoTo { target: Vec3::new(0, 0, 100_000) });
    sheep.walk_to_target();
    assert_eq!(sheep.target_vel, SheepTargetVel(Vec3::new(0, 0, 6250)));
}

#[test]
fn goto_system_walks_every_sheep_with_a_target() {
    let mut flock = vec![
        Sheep::new(0, Vec3::zero()),
        Sheep::new(1, Vec3::zero()),
        Sheep::new(2, Vec3::zero()),
    ];
    flock[0].decision = Decision::RandomWalk;
    flock[0].go_to = Some(GoTo { target: Vec3::new(100, 0, 0) });
    flock[1].decision = Decision::RandomWalk;
    flock[1].go_to = Some(GoTo { target: Vec3::new(0, 0, -2000) });
    goto_system(&mut flock);
    assert_eq!(flock[0].decision, Decision::Idle);
    assert_eq!(flock[1].decision, Decision::RandomWalk);
    assert_eq!(flock[1].target_vel, SheepTargetVel(Vec3::new(0, 0, -1875)));
    assert_eq!(flock[2].decision, Decision::Idle);
    assert_eq!(flock[2].target_vel, SheepTargetVel(Vec3::zero()));
}

#[test]
fn feeding_ends_when_the_time_is_up() {
    let mut flock = vec![Sheep::new(0, Vec3::zero()), Sheep::new(1, Vec3::zero())];
    flock[0].decide(&draw(Decision::Feed), &one_area());
    idle_feeding_system(&mut flock, 1000);
    assert_eq!(flock[0].idle_feeding, Some(IdleFeeding { time: 1900 }));
    assert_eq!(flock[0].decision, Decision::Feed);
    idle_feeding_system(&mut flock, 1899);
    assert_eq!(flock[0].idle_feeding, Some(IdleFeeding { time: 1 }));
    idle_feeding_system(&mut flock, 1);
    assert_eq!(flock[0].idle_feeding, None);
    assert_eq!(flock[0].decision, Decision::Idle);
    assert_eq!(flock[1].decision, Decision::Idle);
}

#[test]
fn feeding_ends_at_once_on_a_long_step() {
    let mut sheep = Sheep::new(0, Vec3::zero());
    sheep.decide(&draw(Decision::Feed), &one_area());
    sheep.feed(u32::MAX);
    assert_eq!(sheep.idle_feeding, None);
    assert_eq!(sheep.decision, Decision::Idle);
}

#[test]
fn a_bark_scares_the_sheep_in_its_reach() {
    let mut flock = vec![
        Sheep::new(0, Vec3::new(10_000, 0, 0)),
        Sheep::new(1, Vec3::new(10_001, 0, 0)),
        Sheep::new(2, Vec3::new(0, 0, -3000)),
        Sheep::new(3, Vec3::new(1, 0, 1)),
    ];
    flock[2].decide(&draw(Decision::Feed), &one_area());
    flock[3].frighten();
    flock[3].is_scared = Some(IsScared { time: 1234, last_vel: Vec3::new(1, 0, 1) });
    flock[0].decision = Decision::Escape;
    flock[0].escaping = true;
    flock[0].go_to = Some(GoTo { target: Vec3::new(90_000, 0, 0) });
    let bark = Bark { radius: 10_000, position: Vec3::zero() };
    scared_sheeps(&bark, &mut flock);
    assert_eq!(flock[0].decision, Decision::Scared);
    assert_eq!(flock[0].is_scared, Some(IsScared { time: 0, last_vel: Vec3::zero() }));
    assert_eq!(flock[0].go_to, None);
    assert!(!flock[0].escaping);
    assert_eq!(flock[1].decision, Decision::Idle);
    assert_eq!(flock[1].is_scared, None);
    assert_eq!(flock[2].decision, Decision::Scared);
    assert_eq!(flock[2].idle_feeding, None);
    assert_eq!(flock[3].is_scared, Some(IsScared { time: 1234, last_vel: Vec3::new(1, 0, 1) }));
    assert_eq!(IsScared::default(), IsScared { time: 0, last_vel: Vec3::zero() });
}

#[test]
fn a_round_of_decisions_gives_every_idle_sheep_something_allowed() {
    let chance = StateChance {
        next_state: vec![
            (1000, Decision::Feed),
            (1000, Decision::RandomWalk),
            (1000, Decision::MoveToSafeArea),
            (1000, Decision::Escape),
        ],
    };
    let areas = one_area();
    let level = LevelSize::default();
    assert_eq!(level, LevelSize(50_000));
    let mut flock: Vec<Sheep> = Vec::new();
    for i in 0..400 {
        flock.push(Sheep::new(i, Vec3::new(20_000, 0, (i as i32) * 10)));
    }
    flock[5].frighten();
    sheep_state(&chance, &mut flock, &areas, &level);
    let mut seen = [0; 4];
    for (i, sheep) in flock.iter().enumerate() {
        let from = Vec3::new(20_000, 0, (i as i32) * 10);
        assert_eq!(sheep.translation, from);
        match sheep.decision {
            Decision::Feed => {
                seen[0] += 1;
                let time = sheep.idle_feeding.unwrap().time;
                assert!(time >= 2500 && time < 3500);
                assert_eq!(sheep.go_to, None);
            }
            Decision::RandomWalk => {
                seen[1] += 1;
                let target = sheep.go_to.unwrap().target;
                assert!(from.distance_squared(target) < 2000 * 2000);
                assert_eq!(target.y, 0);
            }
            Decision::MoveToSafeArea => {
                seen[2] += 1;
                let target = sheep.go_to.unwrap().target;
                assert!(from.distance_squared(target) <= 11_000 * 11_000);
                assert!(from.distance_squared(target) >= 10_900 * 10_900);
                // The area lies towards the origin.
                assert!(target.x < from.x);
            }
            Decision::Escape => {
                seen[3] += 1;
                let target = sheep.go_to.unwrap().target;
                assert!(from.distance_squared(target) <= 10_000 * 10_000);
                assert!(target.x > from.x);
            }
            Decision::Scared => assert_eq!(i, 5),
            Decision::Idle => panic!("sheep {} stayed idle", i),
        }
    }
    for n in seen {
        assert!(n > 40);
    }
}

#[test]
fn setup_puts_a_thousand_sheep_into_the_disc() {
    let level = LevelSize(50_000);
    let (flock, count) = setup(&level);
    assert_eq!(count, StartSheepCount(1000));
    assert_eq!(flock.len(), 1000);
    let mut off_center = 0;
    for (i, sheep) in flock.iter().enumerate() {
        assert_eq!(sheep.id, i as u64);
        assert_eq!(sheep.decision, Decision::Idle);
        assert_eq!(sheep.translation.y, 0);
        assert!(sheep.translation.length_squared() <= 16_666 * 16_666);
        if sheep.translation != Vec3::zero() {
            off_center += 1;
        }
    }
    assert!(off_center > 990);
}

#[test]
fn a_round_decides_walks_and_feeds() {
    let areas = one_area();
    let mut sheep = Sheep::new(0, Vec3::zero());
    sheep.advance(100, &draw(Decision::Feed), &areas);
    assert_eq!(sheep.decision, Decision::Feed);
    assert_eq!(sheep.idle_feeding, Some(IdleFeeding { time: 2800 }));
    sheep.advance(2800, &draw(Decision::RandomWalk), &areas);
    assert_eq!(sheep.decision, Decision::Idle);
    sheep.advance(100, &draw(Decision::RandomWalk), &areas);
    // The target lies at the accepted distance, so the sheep has arrived at once.
    assert_eq!(sheep.decision, Decision::Idle);
    assert_eq!(sheep.go_to, None);
    let mut far = draw(Decision::RandomWalk);
    far.walk_offset = Vec2::new(0, 1500);
    sheep.advance(100, &far, &areas);
    assert_eq!(sheep.decision, Decision::RandomWalk);
    assert_eq!(sheep.go_to, Some(GoTo { target: Vec3::new(0, 0, 1500) }));
    assert_eq!(sheep.target_vel, SheepTargetVel(Vec3::new(0, 0, 1875)));
}

#[test]
fn on_a_level_without_size_sheep_head_for_the_center_of_the_area() {
    let chance = StateChance { next_state: vec![(1, Decision::MoveToSafeArea)] };
    let areas = vec![SafeArea::Circle { pos: Vec2::new(0, 50_000), radius: 5000 }];
    let mut flock = vec![Sheep::new(0, Vec3::zero())];
    sheep_state(&chance, &mut flock, &areas, &LevelSize(0));
    assert_eq!(flock[0].decision, Decision::MoveToSafeArea);
    assert_eq!(flock[0].go_to, Some(GoTo { target: Vec3::new(0, 0, 11_000) }));
}
