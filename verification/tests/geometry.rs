use herding::safe_area::{any_area_contains, count_sheeps, SafeArea, SheepCounter};
use herding::sheep::Sheep;
use herding::vector::{div_floor, div_round, div_trunc, isqrt, saturate, squared, Vec2, Vec3};

#[test]
fn isqrt_rounds_down() {
    assert_eq!(isqrt(0), 0);
    assert_eq!(isqrt(1), 1);
    assert_eq!(isqrt(2), 1);
    assert_eq!(isqrt(3), 1);
    assert_eq!(isqrt(4), 2);
    assert_eq!(isqrt(99), 9);
    assert_eq!(isqrt(100), 10);
    assert_eq!(isqrt(1_000_000), 1000);
    assert_eq!(isqrt(999_999), 999);
    assert_eq!(isqrt(u128::MAX), u64::MAX);
}

#[test]
fn division_helpers_round_as_named() {
    assert_eq!(div_trunc(7, 2), 3);
    assert_eq!(div_trunc(-7, 2), -3);
    assert_eq!(div_floor(7, 2), 3);
    assert_eq!(div_floor(-7, 2), -4);
    assert_eq!(div_floor(-8, 2), -4);
    assert_eq!(div_round(7, 2), 4);
    assert_eq!(div_round(5, 10), 1);
    assert_eq!(div_round(4, 10), 0);
    assert_eq!(div_round(-5, 10), 0);
    assert_eq!(div_round(-6, 10), -1);
    assert_eq!(saturate(5_000_000_000), i32::MAX);
    assert_eq!(saturate(-5_000_000_000), i32::MIN);
    assert_eq!(saturate(-17), -17);
    assert_eq!(squared(70_000), 4_900_000_000);
}

#[test]
fn vector_arithmetic_is_exact() {
    let a = Vec3::new(3000, 0, 4000);
    let b = Vec3::new(1000, 0, 1000);
    assert_eq!(a.plus(b), Vec3::new(4000, 0, 5000));
    assert_eq!(a.minus(b), Vec3::new(2000, 0, 3000));
    assert_eq!(a.length_squared(), 25_000_000);
    assert_eq!(a.length(), 5000);
    assert_eq!(a.length_fine(), 5000 << 30);
    assert_eq!(b.length(), 1414);
    assert_eq!(b.length_fine(), 1_518_500_249_989);
    assert_eq!(a.distance_squared(b), 13_000_000);
    assert_eq!(a.distance(b), 3605);
    assert_eq!(a.dot(b), 7_000_000);
    assert_eq!(a.times(1, 2), Vec3::new(1500, 0, 2000));
    assert_eq!(Vec3::new(-7, 0, 7).times(1, 2), Vec3::new(-3, 0, 3));
    assert_eq!(Vec3::zero(), Vec3::new(0, 0, 0));
    assert_eq!(Vec2::new(0, 0).distance_squared(Vec2::new(3, 4)), 25);
}

#[test]
fn vector_sums_saturate() {
    let far = Vec3::new(i32::MAX, 0, i32::MIN);
    assert_eq!(far.plus(Vec3::new(10, 0, -10)), Vec3::new(i32::MAX, 0, i32::MIN));
    assert_eq!(Vec3::new(i32::MIN, 0, 0).minus(Vec3::new(1, 0, 0)), Vec3::new(i32::MIN, 0, 0));
    assert_eq!(far.distance_squared(Vec3::new(i32::MIN, 0, i32::MAX)), 2 * 4294967295u128 * 4294967295u128);
}

#[test]
fn with_length_keeps_direction_and_never_exceeds() {
    let a = Vec3::new(3000, 0, 4000);
    assert_eq!(a.with_length(1000), Vec3::new(600, 0, 800));
    assert_eq!(a.with_length(-1000), Vec3::new(-600, 0, -800));
    assert_eq!(Vec3::zero().with_length(1000), Vec3::zero());
    // Even the shortest vectors keep their direction.
    assert_eq!(Vec3::new(1, 0, 1).with_length(1000), Vec3::new(707, 0, 707));
    assert_eq!(Vec3::new(0, 0, -1).with_length(12_500), Vec3::new(0, 0, -12_500));
    let odd = Vec3::new(123, -456, 789).with_length(6250);
    assert_eq!(odd, Vec3::new(835, -3099, 5362));
    assert!(odd.length_squared() <= 6250 * 6250);
    assert_eq!(odd.length(), 6249);
    let far = Vec3::new(i32::MAX, i32::MIN, i32::MAX).with_length(i64::MAX);
    assert_eq!(far, Vec3::new(i32::MAX, i32::MIN, i32::MAX));
}

#[test]
fn clamp_length_max_cuts_only_longer_vectors() {
    let a = Vec3::new(3000, 0, 4000);
    assert_eq!(a.clamp_length_max(5000), a);
    assert_eq!(a.clamp_length_max(6000), a);
    assert_eq!(a.clamp_length_max(2500), Vec3::new(1500, 0, 2000));
    assert_eq!(a.clamp_length_max(0), Vec3::zero());
}

#[test]
fn rect_contains_strictly_inside() {
    let area = SafeArea::Rect { pos: Vec2::new(1000, 2000), size: Vec2::new(4000, 2000) };
    assert!(area.in_area(Vec2::new(1000, 2000)));
    assert!(area.in_area(Vec2::new(2999, 2999)));
    assert!(area.in_area(Vec2::new(-999, 1001)));
    assert!(!area.in_area(Vec2::new(3000, 2000)));
    assert!(!area.in_area(Vec2::new(-1000, 2000)));
    assert!(!area.in_area(Vec2::new(1000, 3000)));
    assert!(!area.in_area(Vec2::new(1000, 1000)));
}

#[test]
fn rect_of_odd_size_has_no_half_unit_error() {
    let area = SafeArea::Rect { pos: Vec2::new(0, 0), size: Vec2::new(3, 3) };
    assert!(area.in_area(Vec2::new(1, -1)));
    assert!(!area.in_area(Vec2::new(2, 0)));
}

#[test]
fn circle_contains_strictly_inside() {
    let area = SafeArea::Circle { pos: Vec2::new(0, 0), radius: 5000 };
    assert!(area.in_area(Vec2::new(0, 0)));
    assert!(area.in_area(Vec2::new(3000, 3999)));
    assert!(!area.in_area(Vec2::new(3000, 4000)));
    assert!(!area.in_area(Vec2::new(5000, 0)));
    assert!(area.in_area(Vec2::new(4999, 0)));
}

#[test]
fn empty_areas_contain_nothing() {
    let p = Vec2::new(0, 0);
    assert!(!SafeArea::Circle { pos: p, radius: 0 }.in_area(p));
    assert!(!SafeArea::Circle { pos: p, radius: -5 }.in_area(p));
    assert!(!SafeArea::Rect { pos: p, size: Vec2::new(0, 10) }.in_area(p));
    assert!(!SafeArea::Rect { pos: p, size: Vec2::new(10, -1) }.in_area(p));
}

#[test]
fn areas_at_the_ends_of_the_range_do_not_overflow() {
    let area = SafeArea::Circle { pos: Vec2::new(i32::MIN, i32::MIN), radius: i32::MAX };
    assert!(!area.in_area(Vec2::new(i32::MAX, i32::MAX)));
    assert!(area.in_area(Vec2::new(i32::MIN + 5, i32::MIN)));
    let rect = SafeArea::Rect { pos: Vec2::new(i32::MIN, 0), size: Vec2::new(i32::MAX, i32::MAX) };
    assert!(!rect.in_area(Vec2::new(i32::MAX, 0)));
}

#[test]
fn scaling_by_one_changes_nothing() {
    let rect = SafeArea::Rect { pos: Vec2::new(5, -7), size: Vec2::new(75_001, 3) };
    let circle = SafeArea::Circle { pos: Vec2::new(5, -7), radius: 12_501 };
    assert_eq!(rect.get_scaled(1000), rect);
    assert_eq!(circle.get_scaled(1000), circle);
    for x in -3..4 {
        for y in -3..4 {
            let p = Vec2::new(5 + x, -7 + y);
            assert_eq!(rect.get_scaled(1000).in_area(p), rect.in_area(p));
        }
    }
}

#[test]
fn scaling_by_half_keeps_the_center() {
    for size in 0..6 {
        let rect = SafeArea::Rect { pos: Vec2::new(9, 9), size: Vec2::new(size, size) };
        let circle = SafeArea::Circle { pos: Vec2::new(9, 9), radius: size };
        assert_eq!(rect.get_scaled(500).in_area(Vec2::new(9, 9)), rect.in_area(Vec2::new(9, 9)));
        assert_eq!(circle.get_scaled(500).in_area(Vec2::new(9, 9)), circle.in_area(Vec2::new(9, 9)));
        assert_eq!(rect.in_area(Vec2::new(9, 9)), size > 0);
    }
}

#[test]
fn scaling_rounds_to_the_nearest() {
    let rect = SafeArea::Rect { pos: Vec2::new(1, 2), size: Vec2::new(75_000, 1001) };
    assert_eq!(
        rect.get_scaled(500),
        SafeArea::Rect { pos: Vec2::new(1, 2), size: Vec2::new(37_500, 501) }
    );
    assert_eq!(
        rect.get_scaled(333),
        SafeArea::Rect { pos: Vec2::new(1, 2), size: Vec2::new(24_975, 333) }
    );
    let circle = SafeArea::Circle { pos: Vec2::new(1, 2), radius: 12_500 };
    assert_eq!(circle.get_scaled(0), SafeArea::Circle { pos: Vec2::new(1, 2), radius: 0 });
    assert_eq!(circle.get_scaled(2000), SafeArea::Circle { pos: Vec2::new(1, 2), radius: 25_000 });
    assert_eq!(
        SafeArea::Circle { pos: Vec2::new(0, 0), radius: i32::MAX }.get_scaled(2000),
        SafeArea::Circle { pos: Vec2::new(0, 0), radius: i32::MAX }
    );
}

#[test]
fn downscale_divides_the_size() {
    let mut rect = SafeArea::Rect { pos: Vec2::new(1, 2), size: Vec2::new(75_000, 1001) };
    rect.downscale(2000);
    assert_eq!(rect, SafeArea::Rect { pos: Vec2::new(1, 2), size: Vec2::new(37_500, 501) });
    let mut circle = SafeArea::Circle { pos: Vec2::new(1, 2), radius: 12_500 };
    circle.downscale(500);
    assert_eq!(circle, SafeArea::Circle { pos: Vec2::new(1, 2), radius: 25_000 });
    // A negative scale turns the sign, and the area holds nothing any more.
    circle.downscale(-2000);
    assert_eq!(circle, SafeArea::Circle { pos: Vec2::new(1, 2), radius: -12_500 });
    assert!(!circle.in_area(Vec2::new(1, 2)));
    let mut rect = SafeArea::Rect { pos: Vec2::new(0, 0), size: Vec2::new(3, -3) };
    rect.downscale(-2000);
    assert_eq!(rect, SafeArea::Rect { pos: Vec2::new(0, 0), size: Vec2::new(-1, 2) });
    let mut wide = SafeArea::Circle { pos: Vec2::new(0, 0), radius: i32::MIN };
    wide.downscale(i32::MIN);
    assert_eq!(wide, SafeArea::Circle { pos: Vec2::new(0, 0), radius: 1000 });
    wide.downscale(-1);
    assert_eq!(wide, SafeArea::Circle { pos: Vec2::new(0, 0), radius: -1_000_000 });
}

#[test]
fn set_pos_moves_the_center_only() {
    let mut rect = SafeArea::Rect { pos: Vec2::new(1, 2), size: Vec2::new(10, 20) };
    rect.set_pos(Vec2::new(-5, 6));
    assert_eq!(rect, SafeArea::Rect { pos: Vec2::new(-5, 6), size: Vec2::new(10, 20) });
    assert_eq!(rect.get_center(), Vec3::new(-5, 0, 6));
    assert_eq!(rect.get_center_2d(), Vec2::new(-5, 6));
    assert_eq!(rect.get_width(), 10);
    let mut circle = SafeArea::Circle { pos: Vec2::new(1, 2), radius: 7 };
    circle.set_pos(Vec2::new(3, 4));
    assert_eq!(circle, SafeArea::Circle { pos: Vec2::new(3, 4), radius: 7 });
    assert_eq!(circle.get_center(), Vec3::new(3, 0, 4));
    assert_eq!(circle.get_width(), 7);
}

#[test]
fn random_points_lie_inside_the_area() {
    let circle = SafeArea::Circle { pos: Vec2::new(3000, -2000), radius: 4000 };
    for _ in 0..200 {
        let p = circle.get_random_point_inside(16_666);
        assert_eq!(p.y, 0);
        assert!(circle.in_area(Vec2::new(p.x, p.z)));
        assert!(p.x >= -16_666 && p.x < 16_666 && p.z >= -16_666 && p.z < 16_666);
    }
}

#[test]
fn random_point_falls_back_to_the_center() {
    // The area lies wholly outside the square that is sampled.
    let circle = SafeArea::Circle { pos: Vec2::new(100_000, 100_000), radius: 10 };
    assert_eq!(circle.get_random_point_inside(1000), Vec3::new(100_000, 0, 100_000));
    let empty = SafeArea::Rect { pos: Vec2::new(5, 5), size: Vec2::new(0, 0) };
    assert_eq!(empty.get_random_point_inside(1000), Vec3::new(5, 0, 5));
}

#[test]
fn count_sheeps_marks_and_counts() {
    let areas = vec![
        SafeArea::Circle { pos: Vec2::new(0, 0), radius: 1000 },
        SafeArea::Rect { pos: Vec2::new(10_000, 0), size: Vec2::new(2000, 2000) },
    ];
    let mut sheep = vec![
        Sheep::new(0, Vec3::new(0, 0, 0)),
        Sheep::new(1, Vec3::new(10_500, 0, 500)),
        Sheep::new(2, Vec3::new(5000, 0, 0)),
        Sheep::new(3, Vec3::new(1000, 0, 0)),
    ];
    sheep[0].out_of_safe_area = true;
    let mut counter = SheepCounter::default();
    count_sheeps(&areas, &mut sheep, &mut counter);
    assert_eq!(counter.count, 2);
    assert!(!sheep[0].out_of_safe_area);
    assert!(!sheep[1].out_of_safe_area);
    assert!(sheep[2].out_of_safe_area);
    assert!(sheep[3].out_of_safe_area);
    assert!(any_area_contains(&areas, Vec2::new(10_999, 999)));
    assert!(!any_area_contains(&areas, Vec2::new(11_000, 0)));
    assert!(!any_area_contains(&Vec::new(), Vec2::new(0, 0)));
}

#[test]
fn a_candidate_point_is_taken_only_inside_the_area() {
    let circle = SafeArea::Circle { pos: Vec2::new(3000, -2000), radius: 4000 };
    assert_eq!(circle.point_if_inside(Vec2::new(3000, 1999)), Some(Vec3::new(3000, 0, 1999)));
    assert_eq!(circle.point_if_inside(Vec2::new(3000, 2000)), None);
    assert_eq!(herding::sheep::point_if_in_disc(5000, 3000, -4000), Some(Vec3::new(3000, 0, -4000)));
    assert_eq!(herding::sheep::point_if_in_disc(5000, 3000, -4001), None);
}
