//! Win detection on the 5x5 confirmation mask.
//!
//! Positions are numbered row by row: position `5 * r + c` is row `r`,
//! column `c`.

use vstd::prelude::*;

verus! {

/// Number of positions on a board.
pub const BOARD_SIZE: usize = 25;

/// The confirmation flag at row `r`, column `c`.
pub open spec fn cell(mask: Seq<bool>, r: int, c: int) -> bool {
    mask[5 * r + c]
}

/// Every position of row `r` is confirmed.
pub open spec fn row_complete(mask: Seq<bool>, r: int) -> bool {
    forall|c: int| 0 <= c < 5 ==> cell(mask, r, c)
}

/// Every position of column `c` is confirmed.
pub open spec fn column_complete(mask: Seq<bool>, c: int) -> bool {
    forall|r: int| 0 <= r < 5 ==> cell(mask, r, c)
}

/// Positions 0, 6, 12, 18 and 24 are all confirmed.
pub open spec fn main_diagonal_complete(mask: Seq<bool>) -> bool {
    mask[0] && mask[6] && mask[12] && mask[18] && mask[24]
}

/// Positions 4, 8, 12, 16 and 20 are all confirmed.
pub open spec fn anti_diagonal_complete(mask: Seq<bool>) -> bool {
    mask[4] && mask[8] && mask[12] && mask[16] && mask[20]
}

/// One of the two diagonals is fully confirmed.
pub open spec fn diagonal_win(mask: Seq<bool>) -> bool {
    main_diagonal_complete(mask) || anti_diagonal_complete(mask)
}

/// A win: some row, some column or one of the two diagonals is fully
/// confirmed.
pub open spec fn has_win(mask: Seq<bool>) -> bool {
    ||| exists|r: int| 0 <= r < 5 && row_complete(mask, r)
    ||| exists|c: int| 0 <= c < 5 && column_complete(mask, c)
    ||| diagonal_win(mask)
}

/// Decides whether the mask holds a win. Rows are tried first, then
/// columns, then the diagonals; the first complete line ends the search.
pub fn check_win(confirm_mask: &[bool; 25]) -> (won: bool)
    ensures
        won == has_win(confirm_mask@),
{
    let mut r: usize = 0;
    while r < 5
        invariant
            r <= 5,
            forall|q: int| 0 <= q < r ==> !row_complete(confirm_mask@, q),
        decreases 5 - r,
    {
        let mut row_ok = true;
        let mut c: usize = 0;
        while c < 5
            invariant
                r < 5,
                c <= 5,
                row_ok == (forall|k: int| 0 <= k < c ==> cell(confirm_mask@, r as int, k)),
            decreases 5 - c,
        {
            if !confirm_mask[r * 5 + c] {
                assert(!cell(confirm_mask@, r as int, c as int));
                row_ok = false;
            }
            c += 1;
        }
        if row_ok {
            assert(row_complete(confirm_mask@, r as int));
            return true;
        }
        r += 1;
    }
    let mut c: usize = 0;
    while c < 5
        invariant
            c <= 5,
            forall|q: int| 0 <= q < 5 ==> !row_complete(confirm_mask@, q),
            forall|q: int| 0 <= q < c ==> !column_complete(confirm_mask@, q),
        decreases 5 - c,
    {
        let mut col_ok = true;
        let mut r: usize = 0;
        while r < 5
            invariant_except_break
                col_ok,
            invariant
                c < 5,
                r <= 5,
                forall|k: int| 0 <= k < r ==> cell(confirm_mask@, k, c as int),
            ensures
                col_ok == column_complete(confirm_mask@, c as int),
            decreases 5 - r,
        {
            if !confirm_mask[r * 5 + c] {
                assert(!cell(confirm_mask@, r as int, c as int));
                col_ok = false;
                break ;
            }
            r += 1;
        }
        if col_ok {
            return true;
        }
        c += 1;
    }
    check_diagonals(confirm_mask)
}

/// Decides whether one of the two diagonals is fully confirmed.
pub fn check_diagonals(confirm_mask: &[bool; 25]) -> (won: bool)
    ensures
        won == diagonal_win(confirm_mask@),
{
    let main_diagonal: [usize; 5] = [0, 6, 12, 18, 24];
    let mut diag_ok = true;
    let mut k: usize = 0;
    while k < 5
        invariant_except_break
            diag_ok,
        invariant
            k <= 5,
            main_diagonal@ =~= seq![0usize, 6, 12, 18, 24],
            forall|j: int| 0 <= j < k ==> confirm_mask@[(#[trigger] main_diagonal@[j]) as int],
        ensures
            diag_ok == main_diagonal_complete(confirm_mask@),
        decreases 5 - k,
    {
        if !confirm_mask[main_diagonal[k]] {
            diag_ok = false;
            break ;
        }
        k += 1;
        proof {
            if k == 5 {
                assert(main_diagonal@[0] == 0 && main_diagonal@[1] == 6 && main_diagonal@[2] == 12
                    && main_diagonal@[3] == 18 && main_diagonal@[4] == 24);
            }
        }
    }
    if diag_ok {
        return true;
    }
    let anti_diagonal: [usize; 5] = [4, 8, 12, 16, 20];
    let mut adiag_ok = true;
    let mut k: usize = 0;
    while k < 5
        invariant_except_break
            adiag_ok,
        invariant
            k <= 5,
            anti_diagonal@ =~= seq![4usize, 8, 12, 16, 20],
            forall|j: int| 0 <= j < k ==> confirm_mask@[(#[trigger] anti_diagonal@[j]) as int],
        ensures
            adiag_ok == anti_diagonal_complete(confirm_mask@),
        decreases 5 - k,
    {
        if !confirm_mask[anti_diagonal[k]] {
            adiag_ok = false;
            break ;
        }
        k += 1;
        proof {
            if k == 5 {
                assert(anti_diagonal@[0] == 4 && anti_diagonal@[1] == 8 && anti_diagonal@[2] == 12
                    && anti_diagonal@[3] == 16 && anti_diagonal@[4] == 20);
            }
        }
    }
    adiag_ok
}

} // verus!
