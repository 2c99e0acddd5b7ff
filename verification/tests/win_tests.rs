use bingo_simulator::win::{check_diagonals, check_win};

fn mask_with(positions: &[usize]) -> [bool; 25] {
    let mut mask = [false; 25];
    for &p in positions {
        mask[p] = true;
    }
    mask
}

fn mask_without(positions: &[usize]) -> [bool; 25] {
    let mut mask = [true; 25];
    for &p in positions {
        mask[p] = false;
    }
    mask
}

#[test]
fn empty_mask_does_not_win() {
    assert!(!check_win(&[false; 25]));
    assert!(!check_diagonals(&[false; 25]));
}

#[test]
fn full_mask_wins() {
    assert!(check_win(&[true; 25]));
    assert!(check_diagonals(&[true; 25]));
}

#[test]
fn first_row_wins() {
    let mask = mask_with(&[0, 1, 2, 3, 4]);
    assert!(check_win(&mask));
    assert!(!check_diagonals(&mask));
}

#[test]
fn every_row_wins_alone() {
    for r in 0..5 {
        let row: Vec<usize> = (0..5).map(|c| 5 * r + c).collect();
        assert!(check_win(&mask_with(&row)), "row {}", r);
    }
}

#[test]
fn every_column_wins_alone() {
    for c in 0..5 {
        let column: Vec<usize> = (0..5).map(|r| 5 * r + c).collect();
        let mask = mask_with(&column);
        assert!(check_win(&mask), "column {}", c);
        assert!(!check_diagonals(&mask));
    }
}

#[test]
fn main_diagonal_alone_wins() {
    let mask = mask_with(&[0, 6, 12, 18, 24]);
    assert!(check_win(&mask));
    assert!(check_diagonals(&mask));
}

#[test]
fn anti_diagonal_alone_wins() {
    let mask = mask_with(&[4, 8, 12, 16, 20]);
    assert!(check_win(&mask));
    assert!(check_diagonals(&mask));
}

#[test]
fn four_of_a_line_do_not_win() {
    assert!(!check_win(&mask_with(&[0, 1, 2, 3])));
    assert!(!check_win(&mask_with(&[2, 7, 12, 17])));
    assert!(!check_win(&mask_with(&[0, 6, 12, 18])));
    assert!(!check_win(&mask_with(&[4, 8, 16, 20])));
}

#[test]
fn a_line_across_two_rows_does_not_win() {
    assert!(!check_win(&mask_with(&[3, 4, 5, 6, 7])));
}

#[test]
fn missing_centre_breaks_both_diagonals_but_leaves_rows() {
    let mask = mask_without(&[12]);
    assert!(!check_diagonals(&mask));
    assert!(check_win(&mask));
}

#[test]
fn one_gap_in_every_line_does_not_win() {
    // The main diagonal meets every row, every column and, at the centre,
    // the other diagonal.
    let mask = mask_without(&[0, 6, 12, 18, 24]);
    assert!(!check_win(&mask));
    assert!(!check_diagonals(&mask));
}

#[test]
fn gaps_off_the_diagonals_leave_the_diagonals() {
    // One gap in every row and column, none on the main diagonal.
    let mask = mask_without(&[1, 5, 13, 19, 22]);
    assert!(check_diagonals(&mask));
    assert!(check_win(&mask));
}
