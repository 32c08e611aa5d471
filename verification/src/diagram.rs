//! The text diagram of a position.
//!
//! From top to bottom: the sequence that clears the screen, the second
//! player's hand, the files from 9 down to 1, the nine ranks of the board
//! between two borders, each rank followed by its number, and the first
//! player's hand.

use vstd::prelude::*;
use crate::game::Game;
use crate::piece::PieceType;
use crate::position::{Position, HAND_SLOTS};
use crate::square::{on_board, to_square};

verus! {

/// One slot of a hand as it is listed: the glyph of the kind and a blank of
/// full width, or nothing for an empty slot.
pub open spec fn slot_text(kind: PieceType) -> Seq<char> {
    if kind == PieceType::Empty {
        seq![]
    } else {
        kind.glyph_text() + seq!['\u{3000}']
    }
}

/// The slots of a hand as they are listed, from the first to the last.
pub open spec fn hand_text(hand: Seq<PieceType>) -> Seq<char>
    decreases hand.len(),
{
    if hand.len() == 0 {
        seq![]
    } else {
        hand_text(hand.drop_last()) + slot_text(hand.last())
    }
}

/// The numeral that follows a rank of the board.
pub open spec fn rank_label(rank: int) -> Seq<char>
    recommends
        1 <= rank <= 9,
{
    if rank == 1 {
        seq!['一']
    } else if rank == 2 {
        seq!['二']
    } else if rank == 3 {
        seq!['三']
    } else if rank == 4 {
        seq!['四']
    } else if rank == 5 {
        seq!['五']
    } else if rank == 6 {
        seq!['六']
    } else if rank == 7 {
        seq!['七']
    } else if rank == 8 {
        seq!['八']
    } else {
        seq!['九']
    }
}

/// The first `n` cells of a rank from the left, which are those of the
/// files from 9 down to `10 - n`.
pub open spec fn cells_text(p: Position, rank: int, n: nat) -> Seq<char>
    recommends
        1 <= rank <= 9,
        n <= 9,
    decreases n,
{
    if n == 0 {
        seq![]
    } else {
        cells_text(p, rank, (n - 1) as nat) + p.at((10 - n, rank)).cell_text()
    }
}

/// The line of a rank: its nine cells between two bars, then its numeral.
pub open spec fn rank_line(p: Position, rank: int) -> Seq<char>
    recommends
        1 <= rank <= 9,
{
    seq!['｜'] + cells_text(p, rank, 9) + seq!['｜'] + rank_label(rank) + seq!['\n']
}

/// The lines of the ranks from 1 to `n`.
pub open spec fn ranks_text(p: Position, n: nat) -> Seq<char>
    recommends
        n <= 9,
    decreases n,
{
    if n == 0 {
        seq![]
    } else {
        ranks_text(p, (n - 1) as nat) + rank_line(p, n as int)
    }
}

/// The sequence that clears the screen and puts the cursor at its top.
pub open spec fn clear_text() -> Seq<char> {
    "\x1b[2J\x1b[0;0H"@
}

/// The digit of full width that names a file.
pub open spec fn file_label(file: int) -> char
    recommends
        1 <= file <= 9,
{
    ('０' as u32 + file) as char
}

/// The line that names the files above the board: over each column of
/// cells stands the number of its file, from 9 on the left down to 1.
pub open spec fn files_text() -> Seq<char> {
    seq!['\u{3000}'] + Seq::new(9, |col: int| file_label(9 - col)) + seq!['\n']
}

/// The line that borders the board above and below.
pub open spec fn border_text() -> Seq<char> {
    seq!['\u{3000}'] + Seq::new(9, |col: int| 'ー') + seq!['\u{3000}', '\n']
}

/// The diagram of a position.
pub open spec fn diagram_text(p: Position) -> Seq<char> {
    clear_text() + seq!['\n'] + "\u{3000}▽\u{3000}"@ + hand_text(p.second_hand) + seq!['\n', '\n']
        + files_text() + border_text() + ranks_text(p, 9) + border_text()
        + "\u{3000}▲\u{3000}"@ + hand_text(p.first_hand) + seq!['\n']
}

/// The cells of a rank are drawn alike in two positions that agree on the
/// squares of the rank.
pub proof fn lemma_cells_determined(a: Position, b: Position, rank: int, n: nat)
    requires
        1 <= rank <= 9,
        n <= 9,
        forall|s: (int, int)| on_board(s) ==> a.at(s) == b.at(s),
    ensures
        cells_text(a, rank, n) == cells_text(b, rank, n),
    decreases n,
{
    if n > 0 {
        lemma_cells_determined(a, b, rank, (n - 1) as nat);
        assert(on_board((10 - n, rank)));
    }
}

/// The ranks are drawn alike in two positions that agree on the squares of
/// the board.
pub proof fn lemma_ranks_determined(a: Position, b: Position, n: nat)
    requires
        n <= 9,
        forall|s: (int, int)| on_board(s) ==> a.at(s) == b.at(s),
    ensures
        ranks_text(a, n) == ranks_text(b, n),
    decreases n,
{
    if n > 0 {
        lemma_ranks_determined(a, b, (n - 1) as nat);
        lemma_cells_determined(a, b, n as int, 9);
    }
}

/// The diagram shows what stands on the board and in the hands, and nothing
/// else: two positions that agree there have the same diagram, whoever is
/// to move. So a game that is drawn twice with no move between is drawn the
/// same both times.
pub proof fn lemma_diagram_determined(a: Position, b: Position)
    requires
        forall|s: (int, int)| on_board(s) ==> a.at(s) == b.at(s),
        a.first_hand == b.first_hand,
        a.second_hand == b.second_hand,
    ensures
        diagram_text(a) == diagram_text(b),
{
    lemma_ranks_determined(a, b, 9);
}

/// The numeral that follows the rank `rank`.
fn rank_label_str(rank: usize) -> (s: &'static str)
    requires
        1 <= rank <= 9,
    ensures
        s@ == rank_label(rank as int),
{
    proof {
        reveal_strlit("一");
        reveal_strlit("二");
        reveal_strlit("三");
        reveal_strlit("四");
        reveal_strlit("五");
        reveal_strlit("六");
        reveal_strlit("七");
        reveal_strlit("八");
        reveal_strlit("九");
    }
    match rank {
        1 => "一",
        2 => "二",
        3 => "三",
        4 => "四",
        5 => "五",
        6 => "六",
        7 => "七",
        8 => "八",
        _ => "九",
    }
}

/// The line that names the files above the board.
fn files_line() -> (s: &'static str)
    ensures
        s@ == files_text(),
{
    proof {
        reveal_strlit("\u{3000}９８７６５４３２１\n");
        assert("\u{3000}９８７６５４３２１\n"@ =~= files_text());
    }
    "\u{3000}９８７６５４３２１\n"
}

/// The line that borders the board above and below.
fn border_line() -> (s: &'static str)
    ensures
        s@ == border_text(),
{
    proof {
        reveal_strlit("\u{3000}ーーーーーーーーー\u{3000}\n");
        assert("\u{3000}ーーーーーーーーー\u{3000}\n"@ =~= border_text());
    }
    "\u{3000}ーーーーーーーーー\u{3000}\n"
}

/// Lists the slots of a hand: the glyph of every slot that is not empty,
/// each followed by a blank of full width.
pub fn render_hand(hand: &[PieceType; HAND_SLOTS]) -> (s: String)
    ensures
        s@ == hand_text(hand@),
{
    let mut s = String::new();
    let mut i: usize = 0;
    while i < HAND_SLOTS
        invariant
            i <= HAND_SLOTS,
            s@ == hand_text(hand@.take(i as int)),
        decreases HAND_SLOTS - i,
    {
        let kind = hand[i];
        proof {
            assert(hand@.take(i + 1).drop_last() =~= hand@.take(i as int));
            assert(hand@.take(i + 1).last() == kind);
            reveal_strlit("\u{3000}");
        }
        if kind != PieceType::Empty {
            s.append(kind.glyph());
            s.append("\u{3000}");
        }
        assert(s@ =~= hand_text(hand@.take(i as int)) + slot_text(kind));
        i = i + 1;
    }
    proof {
        assert(hand@.take(HAND_SLOTS as int) =~= hand@);
    }
    s
}

impl Game {
    /// Draws the line of the rank `rank`.
    pub fn render_rank(&self, rank: usize) -> (s: String)
        requires
            1 <= rank <= 9,
        ensures
            s@ == rank_line(self@, rank as int),
    {
        proof {
            reveal_strlit("｜");
            reveal_strlit("\n");
        }
        let mut s = String::from_str("｜");
        let mut col: usize = 0;
        while col < 9
            invariant
                1 <= rank <= 9,
                col <= 9,
                s@ == seq!['｜'] + cells_text(self@, rank as int, col as nat),
            decreases 9 - col,
        {
            let square = to_square((rank - 1, col));
            let cell = self.piece_at(square).to_string();
            s.append(cell.as_str());
            assert(s@ =~= seq!['｜'] + cells_text(self@, rank as int, (col + 1) as nat));
            col = col + 1;
        }
        s.append("｜");
        s.append(rank_label_str(rank));
        s.append("\n");
        assert(s@ =~= rank_line(self@, rank as int));
        s
    }

    /// Draws the diagram of the game as it stands.
    pub fn render(&self) -> (s: String)
        ensures
            s@ == diagram_text(self@),
    {
        proof {
            reveal_strlit("\n");
        }
        let mut s = String::from_str("\x1b[2J\x1b[0;0H");
        s.append("\n");
        s.append("\u{3000}▽\u{3000}");
        let second = self.second_player_hand();
        s.append(render_hand(&second).as_str());
        s.append("\n");
        s.append("\n");
        s.append(files_line());
        s.append(border_line());
        let ghost head = s@;
        assert(head =~= clear_text() + seq!['\n'] + "\u{3000}▽\u{3000}"@ + hand_text(
            self@.second_hand,
        ) + seq!['\n', '\n'] + files_text() + border_text());
        let mut rank: usize = 1;
        while rank <= 9
            invariant
                1 <= rank <= 10,
                s@ == head + ranks_text(self@, (rank - 1) as nat),
            decreases 10 - rank,
        {
            s.append(self.render_rank(rank).as_str());
            assert(s@ =~= head + ranks_text(self@, rank as nat));
            rank = rank + 1;
        }
        s.append(border_line());
        s.append("\u{3000}▲\u{3000}");
        let first = self.first_player_hand();
        s.append(render_hand(&first).as_str());
        s.append("\n");
        assert(s@ =~= diagram_text(self@));
        s
    }
}

} // verus!
