//! The position as a mathematical value, and the laws of moving a piece.

use vstd::prelude::*;
use vstd::set::{axiom_set_insert_len, axiom_set_remove_finite, axiom_set_remove_len};
use vstd::set_lib::{lemma_int_range, lemma_set_subset_finite, set_int_range};
use crate::piece::{Piece, PieceType, Player};
use crate::square::on_board;

verus! {

/// The number of slots in a hand.
pub const HAND_SLOTS: usize = 30;

/// A position: what stands on each square, what each player holds in hand,
/// and whose turn it is.
pub struct Position {
    /// The piece on each square of the board, by file and rank.
    pub squares: Map<(int, int), Piece>,
    /// The slots of the first player's hand.
    pub first_hand: Seq<PieceType>,
    /// The slots of the second player's hand.
    pub second_hand: Seq<PieceType>,
    /// The player to move.
    pub turn: Player,
}

/// The kind of piece that starts on `file` of a player's back rank.
pub open spec fn back_rank_kind(file: int) -> PieceType {
    if file == 1 || file == 9 {
        PieceType::Lance
    } else if file == 2 || file == 8 {
        PieceType::Knight
    } else if file == 3 || file == 7 {
        PieceType::Silver
    } else if file == 4 || file == 6 {
        PieceType::Gold
    } else {
        PieceType::King
    }
}

/// What stands on a square at the start of a game. The second player holds
/// ranks 1 to 3 and the first player ranks 7 to 9; each has the rook on
/// their right and the bishop on their left.
pub open spec fn opening_piece(square: (int, int)) -> Piece {
    let (file, rank) = square;
    if rank == 1 {
        Piece { piece: back_rank_kind(file), owner: Player::Second }
    } else if rank == 2 && file == 8 {
        Piece { piece: PieceType::Rook, owner: Player::Second }
    } else if rank == 2 && file == 2 {
        Piece { piece: PieceType::Bishop, owner: Player::Second }
    } else if rank == 3 {
        Piece { piece: PieceType::Pawn, owner: Player::Second }
    } else if rank == 7 {
        Piece { piece: PieceType::Pawn, owner: Player::First }
    } else if rank == 8 && file == 8 {
        Piece { piece: PieceType::Bishop, owner: Player::First }
    } else if rank == 8 && file == 2 {
        Piece { piece: PieceType::Rook, owner: Player::First }
    } else if rank == 9 {
        Piece { piece: back_rank_kind(file), owner: Player::First }
    } else {
        Piece::empty()
    }
}

impl Position {
    /// The position at the start of a game: the opening layout, empty hands,
    /// the first player to move.
    pub open spec fn opening() -> Position {
        Position {
            squares: Map::new(|s: (int, int)| on_board(s), |s: (int, int)| opening_piece(s)),
            first_hand: Seq::new(HAND_SLOTS as nat, |i: int| PieceType::Empty),
            second_hand: Seq::new(HAND_SLOTS as nat, |i: int| PieceType::Empty),
            turn: Player::First,
        }
    }

    /// A position is well formed when it has exactly the squares of the
    /// board, a well-formed piece on each, and hands of full length.
    pub open spec fn well_formed(self) -> bool {
        &&& forall|s: (int, int)| self.squares.dom().contains(s) <==> on_board(s)
        &&& forall|s: (int, int)| on_board(s) ==> (#[trigger] self.squares[s]).well_formed()
        &&& self.first_hand.len() == HAND_SLOTS
        &&& self.second_hand.len() == HAND_SLOTS
    }

    /// The piece on `square`.
    pub open spec fn at(self, square: (int, int)) -> Piece
        recommends
            on_board(square),
    {
        self.squares[square]
    }

    /// The position after the piece on `from` has been moved to `to`: `from`
    /// is left empty, and whatever stood on `to` is gone.
    pub open spec fn moved(self, from: (int, int), to: (int, int)) -> Position
        recommends
            on_board(from),
            on_board(to),
    {
        Position {
            squares: self.squares.insert(from, Piece::empty()).insert(to, self.squares[from]),
            ..self
        }
    }

    /// The squares of the board on which a piece equal to `piece` stands.
    pub open spec fn squares_holding(self, piece: Piece) -> Set<(int, int)> {
        Set::new(|s: (int, int)| on_board(s) && self.squares[s] == piece)
    }

    /// The position after each move of `moves`, a list of pairs of a square
    /// to move from and a square to move to, has been made in turn.
    pub open spec fn moved_all(self, moves: Seq<((int, int), (int, int))>) -> Position
        decreases moves.len(),
    {
        if moves.len() == 0 {
            self
        } else {
            self.moved_all(moves.drop_last()).moved(moves.last().0, moves.last().1)
        }
    }
}

/// The opening position is well formed.
pub proof fn lemma_opening_well_formed()
    ensures
        Position::opening().well_formed(),
{
}

/// A move between two squares of the board keeps a position well formed.
pub proof fn lemma_moved_well_formed(p: Position, from: (int, int), to: (int, int))
    requires
        p.well_formed(),
        on_board(from),
        on_board(to),
    ensures
        p.moved(from, to).well_formed(),
{
    let q = p.moved(from, to);
    assert forall|s: (int, int)| on_board(s) implies (#[trigger] q.squares[s]).well_formed() by {
        if s == to {
            assert(p.squares[from].well_formed());
        } else if s == from {
        } else {
            assert(p.squares[s].well_formed());
        }
    }
}

/// After a move between two different squares the square moved from is
/// empty, the square moved to holds what stood on the first, and every other
/// square holds what it held.
pub proof fn lemma_moved_squares(p: Position, from: (int, int), to: (int, int))
    requires
        on_board(from),
        on_board(to),
        from != to,
    ensures
        p.moved(from, to).at(from) == Piece::empty(),
        p.moved(from, to).at(to) == p.at(from),
        forall|s: (int, int)|
            on_board(s) && s != from && s != to ==> p.moved(from, to).at(s) == p.at(s),
{
}

/// A move from a square to itself changes nothing in a well-formed position.
pub proof fn lemma_moved_in_place(p: Position, square: (int, int))
    requires
        p.well_formed(),
        on_board(square),
    ensures
        p.moved(square, square) == p,
{
    assert(p.moved(square, square).squares =~= p.squares);
}

/// The squares of the board are finitely many.
proof fn lemma_board_finite()
    ensures
        Set::new(|s: (int, int)| on_board(s)).finite(),
{
    let board = Set::new(|s: (int, int)| on_board(s));
    let numbers = set_int_range(0, 81);
    let square = |i: int| (9 - i % 9, i / 9 + 1);
    lemma_int_range(0, 81);
    numbers.lemma_map_finite(square);
    assert forall|s: (int, int)| board.contains(s) implies numbers.map(square).contains(s) by {
        let i = (s.1 - 1) * 9 + (9 - s.0);
        assert(numbers.contains(i));
        assert(square(i) == s);
    }
    assert(board.subset_of(numbers.map(square)));
    lemma_set_subset_finite(numbers.map(square), board);
}

/// On a board there are finitely many squares that hold a given piece.
pub proof fn lemma_squares_holding_finite(p: Position, piece: Piece)
    ensures
        p.squares_holding(piece).finite(),
{
    let board = Set::new(|s: (int, int)| on_board(s));
    lemma_board_finite();
    assert(p.squares_holding(piece).subset_of(board));
    lemma_set_subset_finite(board, p.squares_holding(piece));
}

/// A move onto an occupied square discards the piece that stood there: the
/// board then holds one piece of its kind and owner fewer, and neither hand
/// has gained anything.
pub proof fn lemma_moved_discards(p: Position, from: (int, int), to: (int, int))
    requires
        on_board(from),
        on_board(to),
        from != to,
        p.at(to) != Piece::empty(),
    ensures
        p.moved(from, to).squares_holding(p.at(to)).len() + 1 == p.squares_holding(p.at(to)).len(),
        p.moved(from, to).first_hand == p.first_hand,
        p.moved(from, to).second_hand == p.second_hand,
{
    let taken = p.at(to);
    let before = p.squares_holding(taken);
    let after = p.moved(from, to).squares_holding(taken);
    lemma_squares_holding_finite(p, taken);
    if p.at(from) == taken {
        assert(before.contains(from));
        assert(after =~= before.remove(from));
        axiom_set_remove_len(before, from);
    } else {
        assert(before.contains(to));
        assert(after =~= before.remove(to));
        axiom_set_remove_len(before, to);
    }
}

/// A move changes the number of pieces of no kind and owner other than
/// that of the piece discarded.
pub proof fn lemma_moved_keeps_others(p: Position, from: (int, int), to: (int, int), piece: Piece)
    requires
        on_board(from),
        on_board(to),
        piece != Piece::empty(),
        piece != p.at(to),
    ensures
        p.moved(from, to).squares_holding(piece).len() == p.squares_holding(piece).len(),
{
    let before = p.squares_holding(piece);
    let after = p.moved(from, to).squares_holding(piece);
    lemma_squares_holding_finite(p, piece);
    if from == to || p.at(from) != piece {
        assert(after =~= before);
    } else {
        assert(before.contains(from));
        assert(!before.contains(to));
        assert(after =~= before.remove(from).insert(to));
        axiom_set_remove_len(before, from);
        axiom_set_remove_finite(before, from);
        axiom_set_insert_len(before.remove(from), to);
    }
}

/// No move touches a hand or the turn.
pub proof fn lemma_moved_keeps_hands_and_turn(p: Position, from: (int, int), to: (int, int))
    ensures
        p.moved(from, to).first_hand == p.first_hand,
        p.moved(from, to).second_hand == p.second_hand,
        p.moved(from, to).turn == p.turn,
{
}

/// No sequence of moves touches a hand or the turn.
pub proof fn lemma_moves_keep_hands_and_turn(p: Position, moves: Seq<((int, int), (int, int))>)
    ensures
        p.moved_all(moves).first_hand == p.first_hand,
        p.moved_all(moves).second_hand == p.second_hand,
        p.moved_all(moves).turn == p.turn,
    decreases moves.len(),
{
    if moves.len() > 0 {
        lemma_moves_keep_hands_and_turn(p, moves.drop_last());
    }
}

} // verus!
