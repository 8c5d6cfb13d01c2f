use hexagon::{Axis, HexPosition, InvalidCoordinate, Vector};

fn cube(x: i32, y: i32, z: i32) -> HexPosition {
    HexPosition::new(x, y, z)
}

#[test]
fn origin_is_all_zero() {
    assert_eq!(HexPosition::origin(), cube(0, 0, 0));
    assert_eq!(HexPosition::origin().as_axial(), (0, 0));
}

#[test]
fn new_keeps_the_coordinates() {
    let p = HexPosition::new(3, -5, 2);
    assert_eq!(p.as_axial(), (3, 2));
    assert_eq!(p, HexPosition::from_axial(3, 2));
}

#[test]
fn try_new_accepts_the_plane() {
    assert_eq!(HexPosition::try_new(3, -5, 2), Ok(cube(3, -5, 2)));
    assert_eq!(HexPosition::try_new(0, 0, 0), Ok(HexPosition::origin()));
    assert_eq!(
        HexPosition::try_new(i32::MAX, i32::MIN + 1, 0),
        Ok(cube(i32::MAX, i32::MIN + 1, 0))
    );
}

#[test]
fn try_new_rejects_what_lies_off_the_plane() {
    assert_eq!(
        HexPosition::try_new(1, 1, 1),
        Err(InvalidCoordinate { x: 1, y: 1, z: 1 })
    );
    assert_eq!(
        HexPosition::try_new(0, 0, -1),
        Err(InvalidCoordinate { x: 0, y: 0, z: -1 })
    );
    assert_eq!(
        HexPosition::try_new(i32::MAX, i32::MAX, i32::MAX),
        Err(InvalidCoordinate { x: i32::MAX, y: i32::MAX, z: i32::MAX })
    );
    assert_eq!(
        HexPosition::try_new(i32::MIN, i32::MIN, 0),
        Err(InvalidCoordinate { x: i32::MIN, y: i32::MIN, z: 0 })
    );
}

#[test]
fn from_axial_derives_y() {
    assert_eq!(HexPosition::from_axial(1, 2), cube(1, -3, 2));
    assert_eq!(HexPosition::from_axial(-4, 1), cube(-4, 3, 1));
    assert_eq!(HexPosition::from_axial(0, 0), HexPosition::origin());
}

#[test]
fn axial_round_trip() {
    for x in -7..8 {
        for z in -7..8 {
            assert_eq!(HexPosition::from_axial(x, z).as_axial(), (x, z));
        }
    }
    assert_eq!(HexPosition::from_axial(1_000_000, -2_000_000).as_axial(), (1_000_000, -2_000_000));
    assert_eq!(HexPosition::from_axial(i32::MAX, i32::MIN + 1).as_axial(), (i32::MAX, i32::MIN + 1));
}

#[test]
fn neighbors_come_in_the_canonical_order() {
    let all = HexPosition::origin().neighbors();
    assert_eq!(all[0], cube(1, -1, 0));
    assert_eq!(all[1], cube(1, 0, -1));
    assert_eq!(all[2], cube(0, 1, -1));
    assert_eq!(all[3], cube(-1, 1, 0));
    assert_eq!(all[4], cube(-1, 0, 1));
    assert_eq!(all[5], cube(0, -1, 1));

    let all = cube(2, -3, 1).neighbors();
    assert_eq!(all[0], cube(3, -4, 1));
    assert_eq!(all[1], cube(3, -3, 0));
    assert_eq!(all[2], cube(2, -2, 0));
    assert_eq!(all[3], cube(1, -2, 1));
    assert_eq!(all[4], cube(1, -3, 2));
    assert_eq!(all[5], cube(2, -4, 2));
}

#[test]
fn neighbor_takes_the_direction_modulo_six() {
    let p = cube(2, -3, 1);
    let all = p.neighbors();
    for d in 0..6u32 {
        assert_eq!(p.neighbor(d), all[d as usize]);
        assert_eq!(p.neighbor(d + 6), all[d as usize]);
        assert_eq!(p.neighbor(d + 600), all[d as usize]);
    }
    assert_eq!(p.neighbor(u32::MAX), all[(u32::MAX % 6) as usize]);
}

#[test]
fn each_neighbor_lies_one_step_away() {
    for x in -3..4 {
        for z in -3..4 {
            let p = HexPosition::from_axial(x, z);
            for d in 0..6 {
                assert_eq!(p.neighbor(d).distance_to(&p), 1);
                assert_eq!(p.distance_to(&p.neighbor(d)), 1);
            }
        }
    }
}

#[test]
fn distance_is_half_the_sum_of_the_differences() {
    let o = HexPosition::origin();
    assert_eq!(o.distance_to(&o), 0);
    assert_eq!(o.distance_to(&cube(3, -3, 0)), 3);
    assert_eq!(o.distance_to(&cube(2, 1, -3)), 3);
    assert_eq!(cube(1, -3, 2).distance_to(&cube(-2, 4, -2)), 7);
    assert_eq!(cube(-2, 4, -2).distance_to(&cube(1, -3, 2)), 7);
    assert_eq!(cube(5, -5, 0).distance_to(&cube(5, -5, 0)), 0);
}

#[test]
fn distance_between_the_far_ends_fits() {
    let a = cube(i32::MAX, i32::MIN + 1, 0);
    let b = cube(i32::MIN + 1, i32::MAX, 0);
    assert_eq!(a.distance_to(&b), 4_294_967_294);
    let c = cube(i32::MIN, i32::MAX, 1);
    assert_eq!(a.distance_to(&c), u32::MAX);
}

#[test]
fn vector_unit_follows_the_directions() {
    let o = HexPosition::origin();
    for d in 0..12u32 {
        assert_eq!(o + Vector::unit(d), o.neighbor(d));
    }
    assert_eq!(Vector::unit(0), Vector::new(1, -1, 0));
    assert_eq!(Vector::unit(4), Vector::new(-1, 0, 1));
}

#[test]
fn vector_scale_multiplies_each_component() {
    assert_eq!(Vector::new(1, -3, 2).scale(4), Vector::new(4, -12, 8));
    assert_eq!(Vector::new(1, -3, 2).scale(-2), Vector::new(-2, 6, -4));
    assert_eq!(Vector::new(1, -3, 2).scale(0), Vector::new(0, 0, 0));
    assert_eq!(Vector::new(1, -3, 2).scale(1), Vector::new(1, -3, 2));
}

#[test]
fn positions_differ_by_a_vector() {
    let a = cube(4, -1, -3);
    let b = cube(1, 1, -2);
    assert_eq!(a - b, Vector::new(3, -2, -1));
    assert_eq!(b - a, Vector::new(-3, 2, 1));
    assert_eq!(b + (a - b), a);
    assert_eq!(a - (a - b), b);
    assert_eq!(a + Vector::new(0, 0, 0), a);
}

#[test]
fn positions_are_ordered_by_x_then_y_then_z() {
    assert!(cube(0, 5, -5) < cube(1, -5, 4));
    assert!(cube(1, -5, 4) < cube(1, -3, 2));
    assert!(cube(1, -3, 2) > cube(1, -4, 3));
    assert!(cube(1, -3, 2) <= cube(1, -3, 2));
    assert!(cube(1, -3, 2) >= cube(1, -3, 2));
    assert!(!(cube(1, -3, 2) < cube(1, -3, 2)));
    assert_eq!(cube(1, -3, 2).partial_cmp(&cube(1, -3, 2)), Some(std::cmp::Ordering::Equal));
    assert_eq!(cube(-1, 0, 1).partial_cmp(&cube(0, 0, 0)), Some(std::cmp::Ordering::Less));
    assert_eq!(cube(0, 1, -1).partial_cmp(&cube(0, 0, 0)), Some(std::cmp::Ordering::Greater));
    assert_eq!(cube(0, 1, -1).cmp(&cube(0, 0, 0)), std::cmp::Ordering::Greater);

    let mut all = vec![cube(1, 0, -1), cube(-1, 1, 0), cube(0, 0, 0), cube(-1, 0, 1)];
    all.sort();
    assert_eq!(all, vec![cube(-1, 0, 1), cube(-1, 1, 0), cube(0, 0, 0), cube(1, 0, -1)]);
}

#[test]
fn equal_positions_hash_alike() {
    let mut seen = std::collections::HashSet::new();
    assert!(seen.insert(cube(1, -3, 2)));
    assert!(!seen.insert(HexPosition::from_axial(1, 2)));
    assert!(seen.insert(cube(1, -2, 1)));
    assert_eq!(seen.len(), 2);
}

#[test]
fn from_rounded_recomputes_the_chosen_coordinate() {
    assert_eq!(HexPosition::from_rounded(2, -1, 0, Axis::X), cube(1, -1, 0));
    assert_eq!(HexPosition::from_rounded(2, -1, 0, Axis::Y), cube(2, -2, 0));
    assert_eq!(HexPosition::from_rounded(2, -1, 0, Axis::Z), cube(2, -1, -1));
    assert_eq!(HexPosition::from_rounded(0, 0, 0, Axis::Z), HexPosition::origin());
    assert_eq!(
        HexPosition::from_rounded(i32::MAX, i32::MIN, 0, Axis::Y),
        cube(i32::MAX, i32::MIN + 1, 0)
    );
}

#[test]
fn from_rounded_keeps_what_lies_on_the_plane() {
    for &axis in &[Axis::X, Axis::Y, Axis::Z] {
        assert_eq!(HexPosition::from_rounded(3, -5, 2, axis), cube(3, -5, 2));
        assert_eq!(HexPosition::from_rounded(-7, 0, 7, axis), cube(-7, 0, 7));
    }
}
