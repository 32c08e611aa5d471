//! The game state as it is stored, and the operations on it.

use vstd::prelude::*;
use crate::piece::{Piece, PieceType, Player};
use crate::position::{opening_piece, Position, HAND_SLOTS};
use crate::square::{index_of, is_on_board, on_board, pair_of, to_index};

verus! {

/// A game of shogi: the board, both hands and the player to move.
#[derive(Clone, Copy)]
pub struct Game {
    first_player_hand: [PieceType; HAND_SLOTS],
    second_player_hand: [PieceType; HAND_SLOTS],
    turn: Player,
    field: [[Piece; 9]; 9],
}

/// Why a move was not made.
#[derive(Clone, Copy, Debug, PartialEq, Eq, Structural)]
pub enum MoveError {
    /// The square to move from is not on the board.
    FromOffBoard,
    /// The square to move to is not on the board.
    ToOffBoard,
}

/// Whether a move between two squares can be made, and if not, why.
pub open spec fn checked_move(from: (int, int), to: (int, int)) -> Result<(), MoveError> {
    if !on_board(from) {
        Err(MoveError::FromOffBoard)
    } else if !on_board(to) {
        Err(MoveError::ToOffBoard)
    } else {
        Ok(())
    }
}

/// A piece of the first player.
fn first(kind: PieceType) -> (p: Piece)
    ensures
        p == (Piece { piece: kind, owner: Player::First }),
{
    Piece { piece: kind, owner: Player::First }
}

/// A piece of the second player.
fn second(kind: PieceType) -> (p: Piece)
    ensures
        p == (Piece { piece: kind, owner: Player::Second }),
{
    Piece { piece: kind, owner: Player::Second }
}

impl View for Game {
    type V = Position;

    /// The position that the game is in.
    closed spec fn view(&self) -> Position {
        Position {
            squares: Map::new(
                |s: (int, int)| on_board(s),
                |s: (int, int)| self.field[index_of(s).0][index_of(s).1],
            ),
            first_hand: self.first_player_hand@,
            second_hand: self.second_player_hand@,
            turn: self.turn,
        }
    }
}

impl Game {
    /// Every stored piece is well formed.
    #[verifier::type_invariant]
    spec fn pieces_well_formed(self) -> bool {
        forall|i: int, j: int|
            0 <= i < 9 && 0 <= j < 9 ==> (#[trigger] self.field[i][j]).well_formed()
    }

    /// A game in the opening position.
    pub fn new() -> (game: Game)
        ensures
            game@ == Position::opening(),
            game@.well_formed(),
    {
        let e = Piece::empty();
        let game = Game {
            first_player_hand: [PieceType::Empty; HAND_SLOTS],
            second_player_hand: [PieceType::Empty; HAND_SLOTS],
            turn: Player::First,
            field: [
                [
                    second(PieceType::Lance),
                    second(PieceType::Knight),
                    second(PieceType::Silver),
                    second(PieceType::Gold),
                    second(PieceType::King),
                    second(PieceType::Gold),
                    second(PieceType::Silver),
                    second(PieceType::Knight),
                    second(PieceType::Lance),
                ],
                [e, second(PieceType::Rook), e, e, e, e, e, second(PieceType::Bishop), e],
                [
                    second(PieceType::Pawn),
                    second(PieceType::Pawn),
                    second(PieceType::Pawn),
                    second(PieceType::Pawn),
                    second(PieceType::Pawn),
                    second(PieceType::Pawn),
                    second(PieceType::Pawn),
                    second(PieceType::Pawn),
                    second(PieceType::Pawn),
                ],
                [e, e, e, e, e, e, e, e, e],
                [e, e, e, e, e, e, e, e, e],
                [e, e, e, e, e, e, e, e, e],
                [
                    first(PieceType::Pawn),
                    first(PieceType::Pawn),
                    first(PieceType::Pawn),
                    first(PieceType::Pawn),
                    first(PieceType::Pawn),
                    first(PieceType::Pawn),
                    first(PieceType::Pawn),
                    first(PieceType::Pawn),
                    first(PieceType::Pawn),
                ],
                [e, first(PieceType::Bishop), e, e, e, e, e, first(PieceType::Rook), e],
                [
                    first(PieceType::Lance),
                    first(PieceType::Knight),
                    first(PieceType::Silver),
                    first(PieceType::Gold),
                    first(PieceType::King),
                    first(PieceType::Gold),
                    first(PieceType::Silver),
                    first(PieceType::Knight),
                    first(PieceType::Lance),
                ],
            ],
        };
        proof {
            let opening = Position::opening();
            assert(game@.first_hand =~= opening.first_hand);
            assert(game@.second_hand =~= opening.second_hand);
            assert forall|s: (int, int)| on_board(s) implies game@.squares[s]
                == opening.squares[s] by {
                let (row, col) = index_of(s);
                assert(game.field[row][col] == opening_piece(s));
            }
            assert(game@.squares =~= opening.squares);
        }
        game
    }

    /// Moves whatever stands on `before` to `after` and leaves `before`
    /// empty. What stood on `after` is discarded; the hands and the turn are
    /// untouched. No rule of the game is checked, and `promote` changes
    /// nothing.
    pub fn update(&mut self, before: (usize, usize), after: (usize, usize), promote: bool)
        requires
            on_board(pair_of(before)),
            on_board(pair_of(after)),
        ensures
            final(self)@ == old(self)@.moved(pair_of(before), pair_of(after)),
            final(self)@.well_formed(),
    {
        proof {
            use_type_invariant(&*self);
        }
        let (from_row, from_col) = to_index(before);
        let (to_row, to_col) = to_index(after);
        let p = self.field[from_row][from_col];
        self.field[from_row][from_col] = Piece::empty();
        self.field[to_row][to_col] = p;
        proof {
            let moved = old(self)@.moved(pair_of(before), pair_of(after));
            assert forall|s: (int, int)| on_board(s) implies self@.squares[s]
                == moved.squares[s] by {
                let (row, col) = index_of(s);
                assert(self.field[row][col] == moved.squares[s]);
            }
            assert(self@.squares =~= moved.squares);
        }
        self.position_well_formed();
    }

    /// Makes the move of `update` where both squares lie on the board, and
    /// otherwise leaves the game as it is and says which square does not.
    pub fn try_update(
        &mut self,
        before: (usize, usize),
        after: (usize, usize),
        promote: bool,
    ) -> (done: Result<(), MoveError>)
        ensures
            done == checked_move(pair_of(before), pair_of(after)),
            done is Ok ==> final(self)@ == old(self)@.moved(pair_of(before), pair_of(after)),
            done is Err ==> *final(self) == *old(self),
            final(self)@.well_formed(),
    {
        self.position_well_formed();
        if !is_on_board(before) {
            Err(MoveError::FromOffBoard)
        } else if !is_on_board(after) {
            Err(MoveError::ToOffBoard)
        } else {
            self.update(before, after, promote);
            Ok(())
        }
    }

    /// The piece on `square`.
    pub fn piece_at(&self, square: (usize, usize)) -> (p: Piece)
        requires
            on_board(pair_of(square)),
        ensures
            p == self@.at(pair_of(square)),
            p.well_formed(),
    {
        proof {
            use_type_invariant(self);
        }
        let (row, col) = to_index(square);
        self.field[row][col]
    }

    /// The player to move.
    pub fn turn(&self) -> (player: Player)
        ensures
            player == self@.turn,
    {
        self.turn
    }

    /// The slots of the first player's hand.
    pub fn first_player_hand(&self) -> (hand: [PieceType; HAND_SLOTS])
        ensures
            hand@ == self@.first_hand,
    {
        self.first_player_hand
    }

    /// The slots of the second player's hand.
    pub fn second_player_hand(&self) -> (hand: [PieceType; HAND_SLOTS])
        ensures
            hand@ == self@.second_hand,
    {
        self.second_player_hand
    }

    /// Brings to the caller's knowledge that the position of a game is well
    /// formed, whatever was done to the game. It does nothing when run.
    pub fn position_well_formed(&self)
        ensures
            self@.well_formed(),
    {
        proof {
            use_type_invariant(self);
            assert forall|s: (int, int)| on_board(s) implies (#[trigger] self@.squares[s]).well_formed() by {
                assert(self.field[index_of(s).0][index_of(s).1].well_formed());
            }
        }
    }
}

} // verus!
