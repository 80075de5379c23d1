use printctl::metric::{ActivePlane, Distance, Position, Speed, Units};

#[test]
fn inch_conversion_is_exact_on_whole_inches() {
    // one inch, in hundred-thousandths of an inch
    let d = Distance::from_inches_e5(100_000);
    assert_eq!(d.as_um(), 25_400);
    assert_eq!(d.as_inches_e5(), 100_000);
}

#[test]
fn inch_round_trip_stays_within_tolerance() {
    for v in [0i64, 1, 3, 7, 12_345, -9_999, 250_000, -100_001] {
        let back = Distance::from_inches_e5(v).as_inches_e5();
        assert!((back - v).abs() <= 10, "v={} back={}", v, back);
    }
}

#[test]
fn millimetre_values_pass_through() {
    let d = Distance::from_mm_e3(10_500);
    assert_eq!(d.as_um(), 10_500);
    assert_eq!(d.as_mm_e3(), 10_500);
    assert!(!d.is_zero());
    assert!(Distance::from_mm_e3(0).is_zero());
}

#[test]
fn distance_new_follows_units() {
    assert_eq!(Distance::new(10_000, &Units::Millimeters).as_um(), 10_000);
    assert_eq!(Distance::new(1_000, &Units::Inches).as_um(), 25_400);
}

#[test]
fn position_addition_is_commutative_and_has_origin_identity() {
    let a = Position::from_um(1_000, -2_000, 3_000);
    let b = Position::from_um(40, 50, -60);
    assert_eq!(a.add(b), b.add(a));
    assert_eq!(a.add(Position::origin()), a);
}

#[test]
fn position_addition_is_associative_within_range() {
    let a = Position::from_um(1_000, 2_000, 3_000);
    let b = Position::from_um(-500, 700, 900);
    let c = Position::from_um(10, 20, 30);
    assert_eq!(a.add(b).add(c), a.add(b.add(c)));
}

#[test]
fn euclidean_distance_of_a_three_four_triangle() {
    let a = Position::from_um(0, 0, 0);
    let b = Position::from_um(3_000, 4_000, 0);
    assert_eq!(a.distance(&b).as_um(), 5_000);
}

#[test]
fn planar_distance_uses_the_active_plane() {
    let a = Position::from_um(0, 0, 0);
    let b = Position::from_um(3_000, 4_000, 12_000);
    assert_eq!(a.planar_distance(&b, &ActivePlane::XY).as_um(), 5_000);
    assert_eq!(a.planar_distance(&b, &ActivePlane::YZ).as_um(), 12_649);
}

#[test]
fn speed_from_distance_and_time() {
    let d = Distance::from_mm_e3(30_000);
    let s = Speed::from_distance_time(d, 60_000);
    assert_eq!(s.as_um_per_s(), 500);
    let zero = Speed::from_distance_time(d, 0);
    assert!(zero.is_zero());
}

#[test]
fn duration_of_a_move() {
    let d = Distance::from_mm_e3(10_000);
    let s = Speed::from_um_per_s(1_000);
    assert_eq!(printctl::metric::duration_ms(d, s), 10_000);
    assert_eq!(printctl::metric::duration_ms(d, Speed::from_um_per_s(0)), 0);
}
