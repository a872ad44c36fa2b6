use embedded_game_of_life::Plane;

#[test]
fn randomize_and_point() {
    let mut plane = Plane::<256>::new(4, 4).unwrap();
    plane.randomize(1);
    println!("{:?}", plane.picture());
    assert_eq!(plane.point(0, 0), true);
    assert_eq!(plane.point(1, 0), false);
    assert_eq!(plane.point(2, 0), false);
    assert_eq!(plane.point(3, 0), false);

    assert_eq!(plane.point(0, 1), false);
    assert_eq!(plane.point(1, 1), true);
    assert_eq!(plane.point(2, 1), false);
    assert_eq!(plane.point(3, 1), false);

    assert_eq!(plane.point(0, 2), false);
    assert_eq!(plane.point(1, 2), true);
    assert_eq!(plane.point(2, 2), true);
    assert_eq!(plane.point(3, 2), true);

    assert_eq!(plane.point(0, 3), true);
    assert_eq!(plane.point(1, 3), false);
    assert_eq!(plane.point(2, 3), true);
    assert_eq!(plane.point(3, 3), false);
}

#[test]
fn around_indices() {
    let plane = Plane::<256>::new(4, 4).unwrap();
    assert_eq!(plane.around_indices(0, 0), [0, 1, 2, 6, 8, 12, 13, 14]);
    assert_eq!(plane.around_indices(1, 0), [1, 2, 3, 7, 9, 13, 14, 15]);
}

#[test]
fn tick_static_box() {
    let mut plane = Plane::<256>::new(4, 4).unwrap();
    plane.set(0, 0, true);
    plane.set(0, 1, true);
    plane.set(1, 0, true);
    plane.set(1, 1, true);

    plane.tick();
    assert_eq!(plane.point(0, 0), true);
    assert_eq!(plane.point(0, 1), true);
    assert_eq!(plane.point(1, 0), true);
    assert_eq!(plane.point(1, 1), true);
}

#[test]
fn tick_blinker() {
    let mut plane = Plane::<256>::new(6, 6).unwrap();
    plane.set(0, 1, true);
    plane.set(1, 1, true);
    plane.set(2, 1, true);

    plane.tick();
    assert_eq!(plane.point(0, 0), false);
    assert_eq!(plane.point(0, 1), false);
    assert_eq!(plane.point(0, 2), false);

    assert_eq!(plane.point(1, 0), true);
    assert_eq!(plane.point(1, 1), true);
    assert_eq!(plane.point(1, 2), true);

    assert_eq!(plane.point(2, 0), false);
    assert_eq!(plane.point(2, 1), false);
    assert_eq!(plane.point(2, 2), false);

    plane.tick();

    assert_eq!(plane.point(0, 0), false);
    assert_eq!(plane.point(0, 1), true);
    assert_eq!(plane.point(0, 2), false);

    assert_eq!(plane.point(1, 0), false);
    assert_eq!(plane.point(1, 1), true);
    assert_eq!(plane.point(1, 2), false);

    assert_eq!(plane.point(2, 0), false);
    assert_eq!(plane.point(2, 1), true);
    assert_eq!(plane.point(2, 2), false);
}

fn cells<const N: usize>(plane: &Plane<N>) -> Vec<Vec<bool>> {
    let mut rows = Vec::new();
    for y in 0..plane.height() {
        let mut row = Vec::new();
        for x in 0..plane.width() {
            row.push(plane.point(x, y));
        }
        rows.push(row);
    }
    rows
}

#[test]
fn capacity_is_one_more_each_way() {
    assert!(Plane::<25>::new(4, 4).is_some());
    assert!(Plane::<24>::new(4, 4).is_none());
    assert!(Plane::<1>::new(0, 0).is_some());
    assert!(Plane::<0>::new(0, 0).is_none());
    assert!(Plane::<12>::new(2, 3).is_some());
    assert!(Plane::<11>::new(2, 3).is_none());
    assert!(Plane::<12>::new(3, 2).is_some());
    assert!(Plane::<11>::new(3, 2).is_none());
    assert!(Plane::<25>::from_magnification(4, 4, 3).is_some());
    assert!(Plane::<24>::from_magnification(4, 4, 3).is_none());
}

#[test]
fn capacity_of_a_huge_grid_is_never_enough() {
    assert!(Plane::<256>::new(usize::MAX, 0).is_none());
    assert!(Plane::<256>::new(0, usize::MAX).is_none());
    assert!(Plane::<256>::new(usize::MAX, usize::MAX).is_none());
    assert!(Plane::<256>::new(usize::MAX / 2, 3).is_none());
}

#[test]
fn new_plane_is_dead_everywhere() {
    let plane = Plane::<256>::new(5, 3).unwrap();
    assert_eq!(plane.width(), 5);
    assert_eq!(plane.height(), 3);
    assert_eq!(plane.magnification(), 1);
    assert_eq!(cells(&plane), vec![vec![false; 5]; 3]);
    for y in 0..3 {
        for x in 0..5 {
            assert_eq!(plane.changed(x, y), None);
        }
    }
}

#[test]
fn padded_needs_two_more_each_way() {
    assert!(Plane::<36>::new(4, 4).unwrap().is_padded());
    assert!(!Plane::<35>::new(4, 4).unwrap().is_padded());
    assert!(!Plane::<25>::new(4, 4).unwrap().is_padded());
    assert!(Plane::<20>::new(2, 3).unwrap().is_padded());
    assert!(!Plane::<19>::new(2, 3).unwrap().is_padded());
    assert!(Plane::<8>::new(0, 7).unwrap().is_padded());
    assert!(Plane::<8>::new(7, 0).unwrap().is_padded());
}

#[test]
fn index_is_padded_row_major() {
    let plane = Plane::<256>::new(4, 4).unwrap();
    assert_eq!(plane.index(0, 0), 7);
    assert_eq!(plane.index(3, 0), 10);
    assert_eq!(plane.index(0, 1), 13);
    assert_eq!(plane.index(3, 3), 28);
    let wide = Plane::<256>::new(10, 2).unwrap();
    assert_eq!(wide.index(0, 0), 13);
    assert_eq!(wide.index(9, 1), 34);
}

#[test]
fn around_indices_of_the_last_cell() {
    let plane = Plane::<36>::new(4, 4).unwrap();
    assert_eq!(plane.around_indices(3, 3), [21, 22, 23, 27, 29, 33, 34, 35]);
    let wide = Plane::<256>::new(10, 2).unwrap();
    assert_eq!(wide.around_indices(9, 1), [21, 22, 23, 33, 35, 45, 46, 47]);
}

#[test]
fn reads_outside_the_grid_are_dead() {
    let mut plane = Plane::<256>::new(4, 3).unwrap();
    for y in 0..3 {
        for x in 0..4 {
            plane.set(x, y, true);
        }
    }
    assert_eq!(plane.point(4, 0), false);
    assert_eq!(plane.point(0, 3), false);
    assert_eq!(plane.point(4, 3), false);
    assert_eq!(plane.point(usize::MAX, 0), false);
    assert_eq!(plane.point(0, usize::MAX), false);
    assert_eq!(plane.point(usize::MAX, usize::MAX), false);
    assert_eq!(plane.point(3, 2), true);
}

#[test]
fn reads_outside_the_grid_need_no_padding() {
    let plane = Plane::<25>::new(4, 4).unwrap();
    assert_eq!(plane.point(4, 0), false);
    assert_eq!(plane.point(0, 4), false);
    assert_eq!(plane.changed(4, 4), Some(false));
}

#[test]
fn writes_outside_the_grid_do_nothing() {
    let mut plane = Plane::<256>::new(4, 3).unwrap();
    plane.set(4, 0, true);
    plane.set(0, 3, true);
    plane.set(4, 3, true);
    plane.set(usize::MAX, usize::MAX, true);
    assert_eq!(cells(&plane), vec![vec![false; 4]; 3]);
    plane.tick();
    assert_eq!(cells(&plane), vec![vec![false; 4]; 3]);
}

#[test]
fn set_writes_one_cell() {
    let mut plane = Plane::<256>::new(4, 3).unwrap();
    plane.set(3, 2, true);
    plane.set(0, 1, true);
    assert_eq!(
        cells(&plane),
        vec![
            vec![false, false, false, false],
            vec![true, false, false, false],
            vec![false, false, false, true],
        ]
    );
    plane.set(3, 2, false);
    assert_eq!(plane.point(3, 2), false);
    assert_eq!(plane.point(0, 1), true);
}

#[test]
fn is_live_follows_the_rule() {
    let mut plane = Plane::<256>::new(5, 5).unwrap();
    plane.set(1, 1, true);
    plane.set(2, 1, true);
    plane.set(3, 1, true);
    plane.set(2, 2, true);
    // a live cell with three live neighbours stays
    assert_eq!(plane.is_live(2, 1), true);
    // a live cell with two live neighbours stays
    assert_eq!(plane.is_live(1, 1), true);
    // a dead cell with three live neighbours is born
    assert_eq!(plane.is_live(2, 0), true);
    assert_eq!(plane.is_live(1, 2), true);
    // a dead cell with two live neighbours stays dead
    assert_eq!(plane.is_live(0, 0), false);
    // a dead cell with one live neighbour stays dead
    assert_eq!(plane.is_live(4, 0), false);
    // a dead cell without live neighbours stays dead
    assert_eq!(plane.is_live(4, 4), false);
    plane.set(1, 2, true);
    plane.set(3, 2, true);
    // a live cell with five live neighbours dies
    assert_eq!(plane.is_live(2, 2), false);
    // a live cell with four live neighbours dies
    assert_eq!(plane.is_live(2, 1), false);
    // asking changes nothing
    assert_eq!(plane.point(2, 2), true);
}

#[test]
fn lonely_cell_dies() {
    let mut plane = Plane::<256>::new(3, 3).unwrap();
    plane.set(1, 1, true);
    assert_eq!(plane.is_live(1, 1), false);
    plane.tick();
    assert_eq!(cells(&plane), vec![vec![false; 3]; 3]);
}

#[test]
fn tick_reads_the_old_generation_only() {
    // a glider, one generation on
    let mut plane = Plane::<256>::new(5, 5).unwrap();
    plane.set(1, 0, true);
    plane.set(2, 1, true);
    plane.set(0, 2, true);
    plane.set(1, 2, true);
    plane.set(2, 2, true);
    plane.tick();
    assert_eq!(
        cells(&plane),
        vec![
            vec![false, false, false, false, false],
            vec![true, false, true, false, false],
            vec![false, true, true, false, false],
            vec![false, true, false, false, false],
            vec![false, false, false, false, false],
        ]
    );
}

#[test]
fn block_at_the_far_corner_is_still() {
    let mut plane = Plane::<36>::new(4, 4).unwrap();
    plane.set(2, 2, true);
    plane.set(3, 2, true);
    plane.set(2, 3, true);
    plane.set(3, 3, true);
    let before = cells(&plane);
    plane.tick();
    assert_eq!(cells(&plane), before);
    plane.tick();
    assert_eq!(cells(&plane), before);
}

#[test]
fn full_grid_keeps_its_corners() {
    let mut plane = Plane::<256>::new(3, 3).unwrap();
    for y in 0..3 {
        for x in 0..3 {
            plane.set(x, y, true);
        }
    }
    plane.tick();
    assert_eq!(
        cells(&plane),
        vec![
            vec![true, false, true],
            vec![false, false, false],
            vec![true, false, true],
        ]
    );
}

#[test]
fn changed_tells_what_an_advance_did() {
    let mut plane = Plane::<256>::new(6, 6).unwrap();
    plane.set(0, 1, true);
    plane.set(1, 1, true);
    plane.set(2, 1, true);
    let before = cells(&plane);
    plane.tick();
    let after = cells(&plane);
    for y in 0..6 {
        for x in 0..6 {
            let want = if before[y][x] == after[y][x] { None } else { Some(after[y][x]) };
            assert_eq!(plane.changed(x, y), want);
        }
    }
    assert_eq!(plane.changed(1, 1), None);
    assert_eq!(plane.changed(0, 1), Some(false));
    assert_eq!(plane.changed(2, 1), Some(false));
    assert_eq!(plane.changed(1, 0), Some(true));
    assert_eq!(plane.changed(1, 2), Some(true));
    assert_eq!(plane.changed(5, 5), None);
}

#[test]
fn changed_outside_the_grid_is_dead() {
    let mut plane = Plane::<256>::new(4, 4).unwrap();
    plane.set(3, 3, true);
    plane.tick();
    assert_eq!(plane.changed(4, 0), Some(false));
    assert_eq!(plane.changed(0, 4), Some(false));
    assert_eq!(plane.changed(usize::MAX, usize::MAX), Some(false));
}

#[test]
fn changed_compares_with_the_generation_before() {
    let mut plane = Plane::<256>::new(4, 4).unwrap();
    plane.set(1, 1, true);
    // nothing was alive before the first advance
    assert_eq!(plane.changed(1, 1), Some(true));
    assert_eq!(plane.changed(0, 0), None);
    plane.tick();
    assert_eq!(plane.changed(1, 1), Some(false));
    plane.tick();
    assert_eq!(plane.changed(1, 1), None);
}
