use embedded_game_of_life::Plane;

fn row<const N: usize>(plane: &Plane<N>, y: usize) -> Vec<bool> {
    (0..plane.width()).map(|x| plane.point(x, y)).collect()
}

#[test]
fn same_seed_same_cells() {
    for seed in [0u64, 1, 42, u64::MAX] {
        let mut first = Plane::<256>::new(7, 5).unwrap();
        let mut second = Plane::<256>::new(7, 5).unwrap();
        second.set(3, 3, true);
        second.tick();
        first.randomize(seed);
        second.randomize(seed);
        for y in 0..5 {
            assert_eq!(row(&first, y), row(&second, y));
        }
    }
}

#[test]
fn seeding_again_starts_over() {
    let mut plane = Plane::<256>::new(4, 4).unwrap();
    plane.randomize(1);
    let first: Vec<Vec<bool>> = (0..4).map(|y| row(&plane, y)).collect();
    plane.randomize(42);
    plane.randomize(1);
    let again: Vec<Vec<bool>> = (0..4).map(|y| row(&plane, y)).collect();
    assert_eq!(first, again);
}

#[test]
fn other_seed_other_cells() {
    let mut plane = Plane::<256>::new(4, 4).unwrap();
    plane.randomize(42);
    assert_eq!(row(&plane, 0), vec![false, false, false, true]);
    assert_eq!(row(&plane, 1), vec![true, false, false, false]);
    assert_eq!(row(&plane, 2), vec![false, false, false, false]);
    assert_eq!(row(&plane, 3), vec![false, true, true, true]);
    plane.randomize(0);
    assert_eq!(row(&plane, 0), vec![false, false, true, false]);
    assert_eq!(row(&plane, 1), vec![true, true, true, false]);
    assert_eq!(row(&plane, 2), vec![false, true, false, true]);
    assert_eq!(row(&plane, 3), vec![true, false, true, false]);
}

#[test]
fn cells_are_filled_row_by_row() {
    // three columns, two rows: the fourth boolean drawn starts the second row
    let mut plane = Plane::<256>::new(3, 2).unwrap();
    plane.randomize(1);
    assert_eq!(row(&plane, 0), vec![true, false, false]);
    assert_eq!(row(&plane, 1), vec![false, false, true]);
    // two columns, three rows
    let mut plane = Plane::<256>::new(2, 3).unwrap();
    plane.randomize(1);
    assert_eq!(row(&plane, 0), vec![true, false]);
    assert_eq!(row(&plane, 1), vec![false, false]);
    assert_eq!(row(&plane, 2), vec![false, true]);
}

#[test]
fn seeding_keeps_the_generation_before() {
    let mut plane = Plane::<256>::new(4, 4).unwrap();
    plane.randomize(1);
    // nothing lived before: every live cell is a change, no dead cell is
    for y in 0..4 {
        for x in 0..4 {
            let want = if plane.point(x, y) { Some(true) } else { None };
            assert_eq!(plane.changed(x, y), want);
        }
    }
}

#[test]
fn seeding_leaves_the_border_dead() {
    let mut plane = Plane::<256>::new(4, 4).unwrap();
    plane.randomize(u64::MAX);
    assert_eq!(plane.point(4, 0), false);
    assert_eq!(plane.point(0, 4), false);
    assert_eq!(row(&plane, 0), vec![true, false, true, false]);
    assert_eq!(row(&plane, 1), vec![true, true, false, true]);
    // the live corner has two live neighbours, both inside the grid
    assert_eq!(plane.is_live(0, 0), true);
    // the dead corner has two as well: the border adds none
    assert_eq!(plane.is_live(3, 0), false);
}
