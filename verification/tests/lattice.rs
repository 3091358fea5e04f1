use splitscreen::scene::lattice;

#[test]
fn lattice_of_half_width_two_has_sixty_four_points() {
    let points = lattice(2);
    assert_eq!(points.len(), 64);
    assert_eq!(points[0], (-2, -2, -2));
    assert_eq!(points[1], (-2, -2, -1));
    assert_eq!(points[4], (-2, -1, -2));
    assert_eq!(points[16], (-1, -2, -2));
    assert_eq!(points[27], (-1, 0, 1));
    assert_eq!(points[63], (1, 1, 1));
}

#[test]
fn lattice_matches_three_nested_ranges() {
    for h in 0..5 {
        let mut expected = Vec::new();
        for x in -h..h {
            for y in -h..h {
                for z in -h..h {
                    expected.push((x, y, z));
                }
            }
        }
        assert_eq!(lattice(h), expected);
    }
}

#[test]
fn lattice_of_one_is_the_eight_corners() {
    assert_eq!(
        lattice(1),
        vec![
            (-1, -1, -1),
            (-1, -1, 0),
            (-1, 0, -1),
            (-1, 0, 0),
            (0, -1, -1),
            (0, -1, 0),
            (0, 0, -1),
            (0, 0, 0),
        ]
    );
}

#[test]
fn lattice_of_zero_or_less_is_empty() {
    assert!(lattice(0).is_empty());
    assert!(lattice(-1).is_empty());
    assert!(lattice(i32::MIN).is_empty());
}

#[test]
fn lattice_index_formula_finds_each_point() {
    let h = 3;
    let side = 2 * h;
    let points = lattice(h);
    for (i, p) in points.iter().enumerate() {
        let i = i as i32;
        assert_eq!(*p, (i / (side * side) - h, (i / side) % side - h, i % side - h));
        assert_eq!(((p.0 + h) * side + (p.1 + h)) * side + (p.2 + h), i);
    }
}
