use hexagon::{HexPosition, RayIterator, RingIterator, SpiralIterator};

fn cube(x: i32, y: i32, z: i32) -> HexPosition {
    HexPosition::new(x, y, z)
}

fn drain_ring(mut it: RingIterator) -> Vec<HexPosition> {
    let mut all = Vec::new();
    while let Some(p) = it.next() {
        all.push(p);
    }
    assert_eq!(it.next(), None);
    all
}

fn drain_spiral(mut it: SpiralIterator) -> Vec<HexPosition> {
    let mut all = Vec::new();
    while let Some(p) = it.next() {
        all.push(p);
    }
    assert_eq!(it.next(), None);
    all
}

fn take_ray(mut it: RayIterator, n: usize) -> Vec<HexPosition> {
    let mut all = Vec::new();
    for _ in 0..n {
        all.push(it.next().unwrap());
    }
    all
}

#[test]
fn ring_of_radius_zero_is_the_center_once() {
    let c = cube(3, -4, 1);
    let mut it = c.ring_with_radius(0);
    assert_eq!(it.next(), Some(c));
    assert_eq!(it.next(), None);
    assert_eq!(it.next(), None);
}

#[test]
fn ring_of_radius_one_round_the_origin() {
    let all = drain_ring(HexPosition::origin().ring_with_radius(1));
    assert_eq!(
        all,
        vec![
            cube(0, -1, 1),
            cube(1, -1, 0),
            cube(1, 0, -1),
            cube(0, 1, -1),
            cube(-1, 1, 0),
            cube(-1, 0, 1),
        ]
    );
}

#[test]
fn ring_of_radius_two_round_the_origin() {
    let all = drain_ring(HexPosition::origin().ring_with_radius(2));
    assert_eq!(
        all,
        vec![
            cube(-1, -1, 2),
            cube(0, -2, 2),
            cube(1, -2, 1),
            cube(2, -2, 0),
            cube(2, -1, -1),
            cube(2, 0, -2),
            cube(1, 1, -2),
            cube(0, 2, -2),
            cube(-1, 2, -1),
            cube(-2, 2, 0),
            cube(-2, 1, 1),
            cube(-2, 0, 2),
        ]
    );
}

#[test]
fn ring_is_centered_on_its_position() {
    let c = cube(10, -4, -6);
    let all = drain_ring(c.ring_with_radius(1));
    assert_eq!(
        all,
        vec![
            cube(10, -5, -5),
            cube(11, -5, -6),
            cube(11, -4, -7),
            cube(10, -3, -7),
            cube(9, -3, -6),
            cube(9, -4, -5),
        ]
    );
}

#[test]
fn ring_ends_on_its_start_corner() {
    let c = cube(2, -1, -1);
    for r in 1..6u32 {
        let all = drain_ring(c.ring_with_radius(r));
        let start = c + hexagon::Vector::unit(4).scale(r as i32);
        assert_eq!(*all.last().unwrap(), start);
        assert_eq!(all[0], start.neighbor(0));
    }
}

#[test]
fn ring_has_six_times_the_radius_positions_at_that_distance() {
    for &(x, z) in &[(0, 0), (5, -2), (-7, 3)] {
        let c = HexPosition::from_axial(x, z);
        assert_eq!(drain_ring(c.ring_with_radius(0)).len(), 1);
        for r in 1..9u32 {
            let all = drain_ring(c.ring_with_radius(r));
            assert_eq!(all.len(), 6 * r as usize);
            for p in &all {
                assert_eq!(p.distance_to(&c), r);
            }
            let mut sorted = all.clone();
            sorted.sort();
            sorted.dedup();
            assert_eq!(sorted.len(), all.len());
        }
    }
}

#[test]
fn ring_walks_each_side_along_its_direction() {
    let c = cube(1, 1, -2);
    let r = 4u32;
    let all = drain_ring(c.ring_with_radius(r));
    let mut at = c + hexagon::Vector::unit(4).scale(r as i32);
    let mut k = 0;
    for side in 0..6u32 {
        for _ in 0..r {
            at = at.neighbor(side);
            assert_eq!(all[k], at);
            k += 1;
        }
    }
    assert_eq!(k, all.len());
}

#[test]
fn spiral_to_radius_zero_is_the_center() {
    let c = cube(3, -4, 1);
    assert_eq!(drain_spiral(c.spiral_to_radius(0)), vec![c]);
}

#[test]
fn spiral_is_the_rings_in_order_of_radius() {
    let c = cube(-2, 5, -3);
    let all = drain_spiral(c.spiral_to_radius(4));
    let mut rings = Vec::new();
    for r in 0..5u32 {
        rings.extend(drain_ring(c.ring_with_radius(r)));
    }
    assert_eq!(all, rings);
}

#[test]
fn spiral_to_radius_one_round_the_origin() {
    let all = drain_spiral(HexPosition::origin().spiral_to_radius(1));
    assert_eq!(
        all,
        vec![
            cube(0, 0, 0),
            cube(0, -1, 1),
            cube(1, -1, 0),
            cube(1, 0, -1),
            cube(0, 1, -1),
            cube(-1, 1, 0),
            cube(-1, 0, 1),
        ]
    );
}

#[test]
fn spiral_has_one_plus_three_r_r_plus_one_distinct_positions() {
    let expected = [1usize, 7, 19, 37, 61, 91, 127];
    for &(x, z) in &[(0, 0), (4, -9)] {
        let c = HexPosition::from_axial(x, z);
        for r in 0..7u32 {
            let all = drain_spiral(c.spiral_to_radius(r));
            assert_eq!(all.len(), expected[r as usize]);
            assert_eq!(all.len(), 1 + 3 * (r as usize) * (r as usize + 1));
            let mut sorted = all.clone();
            sorted.sort();
            sorted.dedup();
            assert_eq!(sorted.len(), all.len());
            for p in &all {
                assert!(p.distance_to(&c) <= r);
            }
        }
    }
}

#[test]
fn spiral_holds_every_position_within_the_radius() {
    let c = cube(1, -1, 0);
    let all = drain_spiral(c.spiral_to_radius(3));
    for x in -6..7 {
        for z in -6..7 {
            let p = HexPosition::from_axial(x, z);
            assert_eq!(all.contains(&p), p.distance_to(&c) <= 3);
        }
    }
}

#[test]
fn spiral_without_a_last_ring_goes_on() {
    let c = cube(0, 2, -2);
    let mut it = c.spiral();
    let mut all = Vec::new();
    for _ in 0..200 {
        all.push(it.next().unwrap());
    }
    let bounded = drain_spiral(c.spiral_to_radius(8));
    assert_eq!(all[..], bounded[..200]);
    assert_eq!(all[0], c);
    assert_eq!(all[1], cube(0, 1, -1));
    assert_eq!(all[7], cube(-1, 1, 0));
}

#[test]
fn ray_starts_at_its_start_and_keeps_its_direction() {
    let s = cube(2, -3, 1);
    assert_eq!(
        take_ray(s.ray(0), 4),
        vec![cube(2, -3, 1), cube(3, -4, 1), cube(4, -5, 1), cube(5, -6, 1)]
    );
    assert_eq!(
        take_ray(s.ray(2), 3),
        vec![cube(2, -3, 1), cube(2, -2, 0), cube(2, -1, -1)]
    );
    assert_eq!(take_ray(s.ray(8), 3), take_ray(s.ray(2), 3));
}

#[test]
fn ray_steps_by_the_unit_of_its_direction() {
    let s = cube(-1, -1, 2);
    for d in 0..6u32 {
        let all = take_ray(s.ray(d), 10);
        let mut at = s;
        for p in all {
            assert_eq!(p, at);
            at = at.neighbor(d);
        }
    }
}

#[test]
fn rays_leave_in_the_six_directions() {
    let s = cube(4, 0, -4);
    let all = s.rays();
    for d in 0..6usize {
        assert_eq!(take_ray(all[d], 5), take_ray(s.ray(d as u32), 5));
        assert_eq!(take_ray(all[d], 2)[1], s.neighbor(d as u32));
    }
}

#[test]
fn bidirectional_ray_leaves_both_ways() {
    let s = cube(1, 2, -3);
    for d in 0..6u32 {
        let (there, back) = s.bidirectional_ray(d);
        let there = take_ray(there, 6);
        let back = take_ray(back, 6);
        assert_eq!(there[0], s);
        assert_eq!(back[0], s);
        assert_eq!(there, take_ray(s.ray(d), 6));
        assert_eq!(back, take_ray(s.ray(d + 3), 6));
        for k in 1..6 {
            assert_eq!(there[k] - s, (s - back[k]));
            assert_eq!(there[k].distance_to(&back[k]), 2 * k as u32);
        }
    }
    let (there, back) = s.bidirectional_ray(4);
    assert_eq!(take_ray(there, 3), vec![s, cube(0, 2, -2), cube(-1, 2, -1)]);
    assert_eq!(take_ray(back, 3), vec![s, cube(2, 2, -4), cube(3, 2, -5)]);
}

#[test]
fn cursors_are_independent_values() {
    let c = cube(0, 0, 0);
    let mut a = c.ring_with_radius(2);
    a.next();
    a.next();
    let mut b = a;
    assert_eq!(a.next(), b.next());
    assert_eq!(drain_ring(a), drain_ring(b));
    assert_eq!(drain_ring(c.ring_with_radius(2)).len(), 12);
}
