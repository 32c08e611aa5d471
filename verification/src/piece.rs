//! Pieces: what kind they are and whom they belong to.

use vstd::prelude::*;

verus! {

/// The kind of a piece, or `Empty` for the absence of one.
#[derive(Clone, Copy, Debug, PartialEq, Eq, Structural)]
pub enum PieceType {
    King,
    Rook,
    Dragon,
    Bishop,
    Horse,
    Gold,
    Silver,
    Knight,
    Lance,
    Pawn,
    Empty,
}

/// The owner of a piece. `Neutral` owns nothing but empty squares.
#[derive(Clone, Copy, Debug, PartialEq, Eq, Structural)]
pub enum Player {
    First,
    Second,
    Neutral,
}

/// A piece as it stands on a square: a kind and an owner.
#[derive(Clone, Copy, Debug, PartialEq, Eq, Structural)]
pub struct Piece {
    pub piece: PieceType,
    pub owner: Player,
}

/// The character of a decimal digit.
pub open spec fn digit(d: nat) -> char
    recommends
        d < 10,
{
    (('0' as nat) + d) as char
}

/// The escape sequence that selects the foreground colour `code`, a number
/// of two decimal digits.
pub open spec fn foreground_text(code: nat) -> Seq<char>
    recommends
        10 <= code < 100,
{
    "\x1b["@ + seq![digit(code / 10), digit(code % 10)] + "m"@
}

/// The escape sequence that selects the light background of the board.
pub open spec fn background_text() -> Seq<char> {
    "\x1b[47m"@
}

/// The escape sequence that ends a cell and puts the colours back.
pub open spec fn reset_text() -> Seq<char> {
    "\x1b[m"@
}

impl PieceType {
    /// The glyph of this kind as a sequence of characters: one character for
    /// a piece, none for the absence of one.
    pub open spec fn glyph_text(self) -> Seq<char> {
        match self {
            PieceType::King => seq!['王'],
            PieceType::Rook => seq!['飛'],
            PieceType::Dragon => seq!['龍'],
            PieceType::Bishop => seq!['角'],
            PieceType::Horse => seq!['馬'],
            PieceType::Gold => seq!['金'],
            PieceType::Silver => seq!['銀'],
            PieceType::Knight => seq!['桂'],
            PieceType::Lance => seq!['香'],
            PieceType::Pawn => seq!['歩'],
            PieceType::Empty => seq![],
        }
    }

    /// The display glyph of this kind.
    pub fn glyph(self) -> (s: &'static str)
        ensures
            s@ == self.glyph_text(),
    {
        proof {
            reveal_strlit("王");
            reveal_strlit("飛");
            reveal_strlit("龍");
            reveal_strlit("角");
            reveal_strlit("馬");
            reveal_strlit("金");
            reveal_strlit("銀");
            reveal_strlit("桂");
            reveal_strlit("香");
            reveal_strlit("歩");
            reveal_strlit("");
        }
        match self {
            PieceType::King => "王",
            PieceType::Rook => "飛",
            PieceType::Dragon => "龍",
            PieceType::Bishop => "角",
            PieceType::Horse => "馬",
            PieceType::Gold => "金",
            PieceType::Silver => "銀",
            PieceType::Knight => "桂",
            PieceType::Lance => "香",
            PieceType::Pawn => "歩",
            PieceType::Empty => "",
        }
    }
}

impl Player {
    /// The foreground colour code in which this player's pieces are drawn.
    pub open spec fn color_code(self) -> nat {
        match self {
            Player::First => 30,
            Player::Second => 31,
            Player::Neutral => 30,
        }
    }
}

impl Piece {
    /// What stands on an empty square.
    pub open spec fn spec_empty() -> Piece {
        Piece { piece: PieceType::Empty, owner: Player::Neutral }
    }

    /// What stands on an empty square.
    #[verifier::when_used_as_spec(spec_empty)]
    pub fn empty() -> (p: Piece)
        ensures
            p == Piece::spec_empty(),
    {
        Piece { piece: PieceType::Empty, owner: Player::Neutral }
    }

    /// A piece is well formed when it has an owner exactly if it has a kind:
    /// `Neutral` goes with `Empty` and with nothing else.
    pub open spec fn well_formed(self) -> bool {
        (self.piece == PieceType::Empty) <==> (self.owner == Player::Neutral)
    }

    /// The glyph of the piece on the board. The king is drawn after its
    /// owner; an empty square is a blank of full width.
    pub open spec fn glyph_text(self) -> Seq<char> {
        match self.piece {
            PieceType::King => if self.owner == Player::First {
                seq!['王']
            } else {
                seq!['玉']
            },
            PieceType::Empty => seq!['\u{3000}'],
            kind => kind.glyph_text(),
        }
    }

    /// The piece as one cell of the diagram: the colour of its owner, the
    /// light background, its glyph, and the reset.
    pub open spec fn cell_text(self) -> Seq<char> {
        foreground_text(self.owner.color_code()) + background_text() + self.glyph_text()
            + reset_text()
    }

    /// Whether the piece is well formed.
    pub fn is_well_formed(self) -> (b: bool)
        ensures
            b == self.well_formed(),
    {
        (self.piece == PieceType::Empty) == (self.owner == Player::Neutral)
    }

    /// The glyph of the piece on the board.
    pub fn glyph(self) -> (s: &'static str)
        ensures
            s@ == self.glyph_text(),
    {
        match self.piece {
            PieceType::King => {
                proof {
                    reveal_strlit("王");
                    reveal_strlit("玉");
                }
                if self.owner == Player::First {
                    "王"
                } else {
                    "玉"
                }
            },
            PieceType::Empty => {
                proof {
                    reveal_strlit("\u{3000}");
                }
                "\u{3000}"
            },
            kind => kind.glyph(),
        }
    }

    /// The foreground colour code of the piece.
    pub fn color(self) -> (code: u8)
        ensures
            code == self.owner.color_code(),
    {
        match self.owner {
            Player::First => 30,
            Player::Second => 31,
            Player::Neutral => 30,
        }
    }

    /// The piece as one cell of the diagram.
    pub fn to_string(self) -> (s: String)
        ensures
            s@ == self.cell_text(),
    {
        let code = self.color();
        let mut s = String::from_str("\x1b[");
        s.append(digit_str(code / 10));
        s.append(digit_str(code % 10));
        s.append("m");
        assert(s@ =~= foreground_text(self.owner.color_code()));
        s.append("\x1b[47m");
        s.append(self.glyph());
        s.append("\x1b[m");
        s
    }
}

/// The decimal digit `d` as a string.
fn digit_str(d: u8) -> (s: &'static str)
    requires
        d < 10,
    ensures
        s@ == seq![digit(d as nat)],
{
    proof {
        reveal_strlit("0");
        reveal_strlit("1");
        reveal_strlit("2");
        reveal_strlit("3");
        reveal_strlit("4");
        reveal_strlit("5");
        reveal_strlit("6");
        reveal_strlit("7");
        reveal_strlit("8");
        reveal_strlit("9");
    }
    match d {
        0 => "0",
        1 => "1",
        2 => "2",
        3 => "3",
        4 => "4",
        5 => "5",
        6 => "6",
        7 => "7",
        8 => "8",
        _ => "9",
    }
}

} // verus!
