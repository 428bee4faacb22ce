use bingo::win::{bingos, calc_bingos, grid_size, walk, Direction};

#[test]
fn test_grid_size() {
    assert!(grid_size(0).is_err());
    assert!(grid_size(1).is_err());
    assert!(grid_size(2).is_err());
    assert!(grid_size(3).is_err());
    assert_eq!(grid_size(4).unwrap(), 2);
    assert!(grid_size(5).is_err());
    assert!(grid_size(6).is_err());
    assert!(grid_size(7).is_err());
    assert!(grid_size(8).is_err());
    assert_eq!(grid_size(9).unwrap(), 3);
    assert!(grid_size(10).is_err());
}

#[test]
fn test_bingos() {
    // invalid field amounts

    assert_eq!(bingos(vec![]), 0);
    assert_eq!(bingos(vec![false]), 0);
    assert_eq!(bingos(vec![false, false]), 0);
    assert_eq!(bingos(vec![false, false, false]), 0);
    assert_eq!(bingos(vec![false, false, false, false, false]), 0);
    assert_eq!(bingos(vec![false, false, false, false, false, false]), 0);
    assert_eq!(
        bingos(vec![false, false, false, false, false, false, false]),
        0
    );
    assert_eq!(
        bingos(vec![false, false, false, false, false, false, false, false]),
        0
    );

    // 2x2

    let fields = vec![
        false, false, //
        false, false, //
    ];
    assert_eq!(bingos(fields), 0);

    let fields = vec![
        true, true, //
        false, false, //
    ];
    assert_eq!(bingos(fields), 1);

    let fields = vec![
        false, false, //
        true, true, //
    ];
    assert_eq!(bingos(fields), 1);

    let fields = vec![
        true, false, //
        false, true, //
    ];
    assert_eq!(bingos(fields), 1);

    let fields = vec![
        false, true, //
        true, false, //
    ];
    assert_eq!(bingos(fields), 1);

    let fields = vec![
        true, false, //
        true, false, //
    ];
    assert_eq!(bingos(fields), 1);

    let fields = vec![
        false, true, //
        false, true, //
    ];
    assert_eq!(bingos(fields), 1);

    let fields = vec![
        true, true, //
        true, true, //
    ];
    assert_eq!(bingos(fields), 6);

    // 3x3
    let fields = vec![
        true, true, true, //
        true, true, true, //
        true, true, true, //
    ];
    assert_eq!(bingos(fields), 8);

    // 4x4
    let fields = vec![
        true, true, true, true, //
        true, true, true, true, //
        true, true, true, true, //
        true, true, true, true, //
    ];
    assert_eq!(bingos(fields), 10);

    // 5x5

    let fields = vec![
        true, true, true, true, true, //
        true, true, true, true, true, //
        true, true, true, true, true, //
        true, true, true, true, true, //
        true, true, true, true, true, //
    ];
    assert_eq!(bingos(fields), 12);

    let fields = vec![
        true, true, true, true, true, //
        true, true, true, true, true, //
        true, true, true, true, true, //
        true, false, true, true, true, //
        true, true, true, true, true, //
    ];
    assert_eq!(bingos(fields), 9);

    let fields = vec![
        true, true, true, true, true, //
        true, true, true, true, true, //
        true, true, false, true, true, //
        true, true, true, true, true, //
        true, true, true, true, true, //
    ];
    assert_eq!(bingos(fields), 8);

    // 6 x 6

    let fields = vec![
        true, true, true, true, true, true, //
        true, true, true, true, true, true, //
        true, true, true, true, true, true, //
        true, true, true, true, true, true, //
        true, true, true, true, true, true, //
        true, true, true, true, true, true, //
    ];
    assert_eq!(bingos(fields), 14);
}

#[test]
fn grid_size_accepts_every_square_up_to_nine() {
    for n in 2..10usize {
        assert_eq!(grid_size(n * n).unwrap(), n);
        assert!(grid_size(n * n + 1).is_err());
    }
    assert!(grid_size(100).is_err());
    assert!(grid_size(usize::MAX).is_err());
}

#[test]
fn all_checked_boards_of_every_size() {
    for n in 2..10usize {
        assert_eq!(bingos(vec![true; n * n]), 2 * n as i32 + 2);
        assert_eq!(bingos(vec![false; n * n]), 0);
    }
}

#[test]
fn single_cells_complete_nothing_on_larger_boards() {
    let mut fields = vec![false; 16];
    fields[5] = true;
    assert_eq!(bingos(fields), 0);
}

#[test]
fn walk_counts_checked_cells_and_stops_at_edges() {
    let all = vec![true; 9];
    assert_eq!(walk(&all, 3, 0, Direction::Right), 3);
    assert_eq!(walk(&all, 3, 1, Direction::Right), 2);
    assert_eq!(walk(&all, 3, 2, Direction::Right), 1);
    assert_eq!(walk(&all, 3, 0, Direction::Down), 3);
    assert_eq!(walk(&all, 3, 3, Direction::Down), 2);
    assert_eq!(walk(&all, 3, 0, Direction::RightDown), 3);
    assert_eq!(walk(&all, 3, 6, Direction::RightUp), 3);
    assert_eq!(walk(&all, 3, 2, Direction::RightUp), 1);
    assert_eq!(walk(&all, 3, 3, Direction::RightUp), 2);
    let mut gap = vec![true; 9];
    gap[4] = false;
    assert_eq!(walk(&gap, 3, 3, Direction::Right), 2);
    assert_eq!(walk(&gap, 3, 0, Direction::RightDown), 2);
}

#[test]
fn calc_bingos_scores_five_by_five_boards() {
    assert_eq!(calc_bingos(vec![true; 25]), 12);
    assert_eq!(calc_bingos(vec![false; 25]), 0);
    assert_eq!(calc_bingos(vec![true; 24]), 0);
    assert_eq!(calc_bingos(vec![true; 16]), 0);
    let mut row = vec![false; 25];
    for i in 5..10 {
        row[i] = true;
    }
    assert_eq!(calc_bingos(row), 1);
    let mut anti = vec![false; 25];
    for i in [4, 8, 12, 16, 20] {
        anti[i] = true;
    }
    assert_eq!(calc_bingos(anti), 1);
    let mut center_missing = vec![true; 25];
    center_missing[12] = false;
    assert_eq!(calc_bingos(center_missing), 8);
}
