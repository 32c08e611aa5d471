//! Squares of the board and where they are stored.
//!
//! A square is named by its file and its rank, both from 1 to 9. The board is
//! stored by rows from the top and by columns from the left; files are
//! counted from the right, so file 9 is column 0 and file 1 is column 8.

use vstd::prelude::*;

verus! {

/// Whether `square`, a file and a rank, lies on the board.
pub open spec fn on_board(square: (int, int)) -> bool {
    1 <= square.0 <= 9 && 1 <= square.1 <= 9
}

/// Whether `index`, a row and a column, lies in the stored grid.
pub open spec fn in_grid(index: (int, int)) -> bool {
    0 <= index.0 <= 8 && 0 <= index.1 <= 8
}

/// The row and column at which the square of a file and a rank is stored.
pub open spec fn index_of(square: (int, int)) -> (int, int) {
    (square.1 - 1, 9 - square.0)
}

/// The file and rank of the square stored at a row and a column.
pub open spec fn square_at(index: (int, int)) -> (int, int) {
    (9 - index.1, index.0 + 1)
}

/// A pair of machine integers as a pair of mathematical ones.
pub open spec fn pair_of(pair: (usize, usize)) -> (int, int) {
    (pair.0 as int, pair.1 as int)
}

/// Every square of the board is stored inside the grid, and the square at
/// its place is the square itself.
pub proof fn lemma_square_round_trip(square: (int, int))
    requires
        on_board(square),
    ensures
        in_grid(index_of(square)),
        square_at(index_of(square)) == square,
{
}

/// Every place of the grid stores a square of the board, and that square is
/// stored at this place.
pub proof fn lemma_index_round_trip(index: (int, int))
    requires
        in_grid(index),
    ensures
        on_board(square_at(index)),
        index_of(square_at(index)) == index,
{
}

/// Two squares of the board that are stored at the same place are the same
/// square.
pub proof fn lemma_index_injective(a: (int, int), b: (int, int))
    requires
        on_board(a),
        on_board(b),
        index_of(a) == index_of(b),
    ensures
        a == b,
{
}

/// Whether `square` lies on the board.
pub fn is_on_board(square: (usize, usize)) -> (b: bool)
    ensures
        b == on_board(pair_of(square)),
{
    1 <= square.0 && square.0 <= 9 && 1 <= square.1 && square.1 <= 9
}

/// The row and column at which `square` is stored.
pub fn to_index(square: (usize, usize)) -> (index: (usize, usize))
    requires
        on_board(pair_of(square)),
    ensures
        pair_of(index) == index_of(pair_of(square)),
        in_grid(pair_of(index)),
{
    (square.1 - 1, 8 - (square.0 - 1))
}

/// The square stored at the row and column `index`.
pub fn to_square(index: (usize, usize)) -> (square: (usize, usize))
    requires
        in_grid(pair_of(index)),
    ensures
        pair_of(square) == square_at(pair_of(index)),
        on_board(pair_of(square)),
{
    (9 - index.1, index.0 + 1)
}

} // verus!
