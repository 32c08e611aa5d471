use shogi::game::{Game, MoveError};
use shogi::piece::PieceType::{Bishop, Gold, King, Knight, Lance, Pawn, Rook, Silver};
use shogi::piece::{Piece, PieceType, Player};

fn first(kind: PieceType) -> Piece {
    Piece { piece: kind, owner: Player::First }
}

fn second(kind: PieceType) -> Piece {
    Piece { piece: kind, owner: Player::Second }
}

/// The opening layout, by rank from 1 to 9 and in each rank by file from 9
/// down to 1.
fn opening_layout() -> [[Piece; 9]; 9] {
    let e = Piece { piece: PieceType::Empty, owner: Player::Neutral };
    [
        [
            second(Lance),
            second(Knight),
            second(Silver),
            second(Gold),
            second(King),
            second(Gold),
            second(Silver),
            second(Knight),
            second(Lance),
        ],
        [e, second(Rook), e, e, e, e, e, second(Bishop), e],
        [second(Pawn); 9],
        [e; 9],
        [e; 9],
        [e; 9],
        [first(Pawn); 9],
        [e, first(Bishop), e, e, e, e, e, first(Rook), e],
        [
            first(Lance),
            first(Knight),
            first(Silver),
            first(Gold),
            first(King),
            first(Gold),
            first(Silver),
            first(Knight),
            first(Lance),
        ],
    ]
}

fn board_of(game: &Game) -> [[Piece; 9]; 9] {
    let mut board = [[Piece::empty(); 9]; 9];
    for rank in 1..=9usize {
        for file in 1..=9usize {
            board[rank - 1][9 - file] = game.piece_at((file, rank));
        }
    }
    board
}

fn count_on_board(game: &Game, piece: Piece) -> usize {
    board_of(game).iter().flatten().filter(|p| **p == piece).count()
}

#[test]
fn the_opening_position_has_every_piece_in_its_place() {
    let game = Game::new();
    let expected = opening_layout();
    let mut occupied = 0;
    let mut empty = 0;
    for rank in 1..=9usize {
        for file in 1..=9usize {
            let piece = game.piece_at((file, rank));
            assert_eq!(piece, expected[rank - 1][9 - file], "file {} rank {}", file, rank);
            if piece == Piece::empty() {
                empty += 1;
            } else {
                occupied += 1;
            }
        }
    }
    assert_eq!(occupied, 40);
    assert_eq!(empty, 41);
}

#[test]
fn the_opening_position_puts_rooks_and_bishops_on_their_files() {
    let game = Game::new();
    assert_eq!(game.piece_at((8, 2)), second(PieceType::Rook));
    assert_eq!(game.piece_at((2, 2)), second(PieceType::Bishop));
    assert_eq!(game.piece_at((8, 8)), first(PieceType::Bishop));
    assert_eq!(game.piece_at((2, 8)), first(PieceType::Rook));
    assert_eq!(game.piece_at((5, 1)), second(PieceType::King));
    assert_eq!(game.piece_at((5, 9)), first(PieceType::King));
}

#[test]
fn the_opening_position_has_empty_hands_and_the_first_player_to_move() {
    let game = Game::new();
    assert_eq!(game.first_player_hand(), [PieceType::Empty; 30]);
    assert_eq!(game.second_player_hand(), [PieceType::Empty; 30]);
    assert_eq!(game.turn(), Player::First);
}

#[test]
fn every_piece_of_the_opening_position_is_well_formed() {
    let game = Game::new();
    for row in board_of(&game).iter() {
        for piece in row.iter() {
            assert!(piece.is_well_formed());
        }
    }
}

#[test]
fn a_pawn_steps_forward() {
    let mut game = Game::new();
    game.update((7, 7), (7, 6), false);
    let mut expected = opening_layout();
    expected[6][2] = Piece::empty();
    expected[5][2] = first(PieceType::Pawn);
    assert_eq!(game.piece_at((7, 7)), Piece::empty());
    assert_eq!(game.piece_at((7, 6)), first(PieceType::Pawn));
    assert_eq!(board_of(&game), expected);
}

#[test]
fn a_move_changes_the_two_squares_and_no_other() {
    for from in [(7usize, 7usize), (5, 5), (1, 1), (9, 9), (2, 8)] {
        for to in [(7usize, 6usize), (5, 1), (9, 1), (1, 9), (4, 4)] {
            if from == to {
                continue;
            }
            let mut game = Game::new();
            let before = board_of(&game);
            game.update(from, to, false);
            for rank in 1..=9usize {
                for file in 1..=9usize {
                    let piece = game.piece_at((file, rank));
                    if (file, rank) == to {
                        assert_eq!(piece, before[from.1 - 1][9 - from.0]);
                    } else if (file, rank) == from {
                        assert_eq!(piece, Piece::empty());
                    } else {
                        assert_eq!(piece, before[rank - 1][9 - file]);
                    }
                }
            }
        }
    }
}

#[test]
fn a_move_in_place_changes_nothing() {
    let mut game = Game::new();
    game.update((5, 9), (5, 9), false);
    assert_eq!(board_of(&game), opening_layout());
    game.update((5, 5), (5, 5), false);
    assert_eq!(board_of(&game), opening_layout());
}

#[test]
fn a_move_from_an_empty_square_empties_the_target() {
    let mut game = Game::new();
    game.update((5, 5), (5, 7), false);
    assert_eq!(game.piece_at((5, 5)), Piece::empty());
    assert_eq!(game.piece_at((5, 7)), Piece::empty());
    assert_eq!(count_on_board(&game, first(PieceType::Pawn)), 8);
}

#[test]
fn a_piece_moved_onto_is_discarded() {
    let mut game = Game::new();
    assert_eq!(count_on_board(&game, second(PieceType::Bishop)), 1);
    game.update((8, 8), (2, 2), false);
    assert_eq!(game.piece_at((2, 2)), first(PieceType::Bishop));
    assert_eq!(game.piece_at((8, 8)), Piece::empty());
    assert_eq!(count_on_board(&game, second(PieceType::Bishop)), 0);
    assert_eq!(count_on_board(&game, first(PieceType::Bishop)), 1);
    assert_eq!(game.first_player_hand(), [PieceType::Empty; 30]);
    assert_eq!(game.second_player_hand(), [PieceType::Empty; 30]);
    let occupied = board_of(&game).iter().flatten().filter(|p| **p != Piece::empty()).count();
    assert_eq!(occupied, 39);
}

#[test]
fn a_piece_may_be_moved_onto_one_of_its_own_side() {
    let mut game = Game::new();
    game.update((7, 7), (6, 7), false);
    assert_eq!(game.piece_at((6, 7)), first(PieceType::Pawn));
    assert_eq!(game.piece_at((7, 7)), Piece::empty());
    assert_eq!(count_on_board(&game, first(PieceType::Pawn)), 8);
}

#[test]
fn moves_leave_hands_and_turn_alone() {
    let mut game = Game::new();
    let moves = [
        ((7, 7), (7, 6)),
        ((3, 3), (3, 4)),
        ((8, 8), (2, 2)),
        ((3, 1), (2, 2)),
        ((5, 5), (5, 1)),
        ((1, 9), (1, 1)),
    ];
    for (from, to) in moves {
        game.update(from, to, false);
        assert_eq!(game.first_player_hand(), [PieceType::Empty; 30]);
        assert_eq!(game.second_player_hand(), [PieceType::Empty; 30]);
        assert_eq!(game.turn(), Player::First);
    }
}

#[test]
fn the_promotion_flag_changes_nothing() {
    let mut plain = Game::new();
    let mut promoted = Game::new();
    plain.update((8, 8), (2, 2), false);
    promoted.update((8, 8), (2, 2), true);
    assert_eq!(board_of(&plain), board_of(&promoted));
    assert_eq!(promoted.piece_at((2, 2)), first(PieceType::Bishop));
    plain.update((2, 8), (2, 2), false);
    promoted.update((2, 8), (2, 2), true);
    assert_eq!(board_of(&plain), board_of(&promoted));
    assert_eq!(promoted.piece_at((2, 2)), first(PieceType::Rook));
}

#[test]
fn a_checked_move_on_the_board_is_made() {
    let mut checked = Game::new();
    let mut plain = Game::new();
    assert_eq!(checked.try_update((7, 7), (7, 6), false), Ok(()));
    plain.update((7, 7), (7, 6), false);
    assert_eq!(board_of(&checked), board_of(&plain));
    assert_eq!(checked.piece_at((7, 6)), first(PieceType::Pawn));
}

#[test]
fn a_checked_move_from_off_the_board_is_refused() {
    let mut game = Game::new();
    assert_eq!(game.try_update((0, 7), (7, 6), false), Err(MoveError::FromOffBoard));
    assert_eq!(game.try_update((7, 10), (7, 6), false), Err(MoveError::FromOffBoard));
    assert_eq!(game.try_update((0, 0), (0, 0), false), Err(MoveError::FromOffBoard));
    assert_eq!(board_of(&game), opening_layout());
}

#[test]
fn a_checked_move_to_off_the_board_is_refused() {
    let mut game = Game::new();
    assert_eq!(game.try_update((7, 7), (10, 6), false), Err(MoveError::ToOffBoard));
    assert_eq!(game.try_update((7, 7), (7, 0), true), Err(MoveError::ToOffBoard));
    assert_eq!(board_of(&game), opening_layout());
}

#[test]
fn a_game_is_a_value_that_can_be_copied() {
    let mut game = Game::new();
    let snapshot = game;
    game.update((7, 7), (7, 6), false);
    assert_eq!(board_of(&snapshot), opening_layout());
    assert_eq!(game.piece_at((7, 6)), first(PieceType::Pawn));
}
