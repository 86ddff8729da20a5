use tetris::rotation::Rotation;

#[test]
fn rotate_formulas_match_reference() {
    // 0 degrees: row-major offset
    assert_eq!(Rotation::rotate(0, 0, &Rotation::R0), 0);
    assert_eq!(Rotation::rotate(3, 0, &Rotation::R0), 3);
    assert_eq!(Rotation::rotate(2, 1, &Rotation::R0), 6);
    assert_eq!(Rotation::rotate(3, 3, &Rotation::R0), 15);
    // 90 degrees
    assert_eq!(Rotation::rotate(0, 0, &Rotation::R90), 12);
    assert_eq!(Rotation::rotate(3, 0, &Rotation::R90), 0);
    assert_eq!(Rotation::rotate(0, 3, &Rotation::R90), 15);
    assert_eq!(Rotation::rotate(3, 3, &Rotation::R90), 3);
    // 180 degrees
    assert_eq!(Rotation::rotate(0, 0, &Rotation::R180), 15);
    assert_eq!(Rotation::rotate(3, 3, &Rotation::R180), 0);
    // 270 degrees
    assert_eq!(Rotation::rotate(0, 0, &Rotation::R270), 3);
    assert_eq!(Rotation::rotate(3, 0, &Rotation::R270), 15);
    assert_eq!(Rotation::rotate(0, 3, &Rotation::R270), 0);
    assert_eq!(Rotation::rotate(3, 3, &Rotation::R270), 12);
}

#[test]
fn rotate_is_a_bijection_for_each_orientation() {
    let orientations = [Rotation::R0, Rotation::R90, Rotation::R180, Rotation::R270];
    for o in orientations.iter() {
        let mut seen = [false; 16];
        for col in 0..4i16 {
            for row in 0..4i16 {
                let idx = Rotation::rotate(col, row, o);
                assert!((0..16).contains(&idx));
                assert!(!seen[idx as usize], "two cells mapped to the same offset");
                seen[idx as usize] = true;
            }
        }
        assert!(seen.iter().all(|&s| s));
    }
}

#[test]
fn four_quarter_turns_return_to_the_original_index() {
    for col in 0..4i16 {
        for row in 0..4i16 {
            let original = Rotation::rotate(col, row, &Rotation::R0);
            // one quarter turn moves (col, row) to (row, 3 - col)
            let (mut c, mut r) = (col, row);
            for _ in 0..4 {
                let t = c;
                c = r;
                r = 3 - t;
            }
            assert_eq!((c, r), (col, row));
            assert_eq!(Rotation::rotate(c, r, &Rotation::R0), original);
        }
    }
}

#[test]
fn quarter_turn_matches_the_next_orientation_formula() {
    // reading the turned cell under one orientation equals reading the fixed
    // cell under the next orientation
    let orientations = [Rotation::R0, Rotation::R90, Rotation::R180, Rotation::R270];
    for (i, o) in orientations.iter().enumerate() {
        let next = &orientations[(i + 1) % 4];
        for col in 0..4i16 {
            for row in 0..4i16 {
                let turned = Rotation::rotate(row, 3 - col, o);
                assert_eq!(turned, Rotation::rotate(col, row, next));
            }
        }
    }
}

#[test]
fn clockwise_cycles_through_the_four_orientations() {
    let r1 = Rotation::rotate_clockwise(&Rotation::R0);
    assert!(matches!(r1, Rotation::R90));
    let r2 = Rotation::rotate_clockwise(&r1);
    assert!(matches!(r2, Rotation::R180));
    let r3 = Rotation::rotate_clockwise(&r2);
    assert!(matches!(r3, Rotation::R270));
    let r4 = Rotation::rotate_clockwise(&r3);
    assert!(matches!(r4, Rotation::R0));
}

#[test]
fn counter_clockwise_undoes_clockwise() {
    let turned = Rotation::rotate_clockwise(&Rotation::R180);
    let back = Rotation::_rotate_counter_clockwise(&turned);
    assert!(matches!(back, Rotation::R180));
    let back0 = Rotation::_rotate_counter_clockwise(&Rotation::R0);
    assert!(matches!(back0, Rotation::R270));
}
