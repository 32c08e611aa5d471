use shogi::square::{is_on_board, to_index, to_square};

#[test]
fn file_nine_is_the_leftmost_column_and_rank_one_the_top_row() {
    assert_eq!(to_index((9, 1)), (0, 0));
    assert_eq!(to_index((1, 1)), (0, 8));
    assert_eq!(to_index((9, 9)), (8, 0));
    assert_eq!(to_index((1, 9)), (8, 8));
    assert_eq!(to_index((7, 6)), (5, 2));
}

#[test]
fn every_square_comes_back_from_its_index() {
    for file in 1..=9usize {
        for rank in 1..=9usize {
            let (row, col) = to_index((file, rank));
            assert!(row <= 8 && col <= 8);
            assert_eq!(to_square((row, col)), (file, rank));
        }
    }
}

#[test]
fn every_index_comes_back_from_its_square() {
    for row in 0..9usize {
        for col in 0..9usize {
            let square = to_square((row, col));
            assert!(is_on_board(square));
            assert_eq!(to_index(square), (row, col));
        }
    }
}

#[test]
fn no_two_squares_share_an_index() {
    let mut seen = [[false; 9]; 9];
    for file in 1..=9usize {
        for rank in 1..=9usize {
            let (row, col) = to_index((file, rank));
            assert!(!seen[row][col]);
            seen[row][col] = true;
        }
    }
    assert!(seen.iter().all(|row| row.iter().all(|cell| *cell)));
}

#[test]
fn the_board_ends_at_one_and_nine() {
    assert!(is_on_board((1, 1)));
    assert!(is_on_board((9, 9)));
    assert!(!is_on_board((0, 5)));
    assert!(!is_on_board((5, 0)));
    assert!(!is_on_board((10, 5)));
    assert!(!is_on_board((5, 10)));
    assert!(!is_on_board((usize::MAX, usize::MAX)));
}
