//! Colours, pieces and promotion choices.

use vstd::prelude::*;

verus! {

/// The two sides.
#[derive(Copy, Clone, PartialEq, Eq, Structural, Hash, Debug)]
pub enum Color {
    White,
    Black,
}

impl Color {
    /// The other side.
    pub open spec fn opposite(self) -> Color {
        match self {
            Color::White => Color::Black,
            Color::Black => Color::White,
        }
    }
}

impl vstd::std_specs::ops::NotSpecImpl for Color {
    open spec fn obeys_not_spec() -> bool {
        true
    }

    open spec fn not_req(self) -> bool {
        true
    }

    open spec fn not_spec(self) -> Color {
        self.opposite()
    }
}

impl std::ops::Not for Color {
    type Output = Color;

    /// `!color` is the other side.
    fn not(self) -> (other: Color) {
        match self {
            Color::White => Color::Black,
            Color::Black => Color::White,
        }
    }
}

/// What a pawn may become on the farthest rank.
#[derive(Copy, Clone, PartialEq, Eq, Structural, Hash, Debug)]
pub enum Promotion {
    Knight,
    Bishop,
    Rook,
    Queen,
}

/// The kind of a piece, without its colour.
#[derive(Copy, Clone, PartialEq, Eq, Structural, Hash, Debug)]
pub enum Kind {
    Pawn,
    Knight,
    Bishop,
    Rook,
    Queen,
    King,
}

/// A piece: one of six kinds in one of two colours.
#[derive(Copy, Clone, PartialEq, Eq, Structural, Hash, Debug)]
pub enum Piece {
    WPawn,
    WKnight,
    WBishop,
    WRook,
    WQueen,
    WKing,
    BPawn,
    BKnight,
    BBishop,
    BRook,
    BQueen,
    BKing,
}

/// Absolute value of a file or rank difference.
pub open spec fn abs(x: int) -> int {
    if x < 0 {
        -x
    } else {
        x
    }
}

impl Piece {
    /// The side a piece belongs to.
    pub open spec fn spec_color(self) -> Color {
        match self {
            Piece::WPawn | Piece::WKnight | Piece::WBishop | Piece::WRook | Piece::WQueen
            | Piece::WKing => Color::White,
            _ => Color::Black,
        }
    }

    /// The kind of a piece.
    pub open spec fn kind(self) -> Kind {
        match self {
            Piece::WPawn | Piece::BPawn => Kind::Pawn,
            Piece::WKnight | Piece::BKnight => Kind::Knight,
            Piece::WBishop | Piece::BBishop => Kind::Bishop,
            Piece::WRook | Piece::BRook => Kind::Rook,
            Piece::WQueen | Piece::BQueen => Kind::Queen,
            Piece::WKing | Piece::BKing => Kind::King,
        }
    }

    /// The piece of the given kind and colour.
    pub open spec fn of(kind: Kind, color: Color) -> Piece {
        match (kind, color) {
            (Kind::Pawn, Color::White) => Piece::WPawn,
            (Kind::Knight, Color::White) => Piece::WKnight,
            (Kind::Bishop, Color::White) => Piece::WBishop,
            (Kind::Rook, Color::White) => Piece::WRook,
            (Kind::Queen, Color::White) => Piece::WQueen,
            (Kind::King, Color::White) => Piece::WKing,
            (Kind::Pawn, Color::Black) => Piece::BPawn,
            (Kind::Knight, Color::Black) => Piece::BKnight,
            (Kind::Bishop, Color::Black) => Piece::BBishop,
            (Kind::Rook, Color::Black) => Piece::BRook,
            (Kind::Queen, Color::Black) => Piece::BQueen,
            (Kind::King, Color::Black) => Piece::BKing,
        }
    }

    /// Whether the piece is a king of either colour.
    pub open spec fn is_king(self) -> bool {
        self.kind() == Kind::King
    }

    /// Whether the piece is a pawn of either colour.
    pub open spec fn is_pawn(self) -> bool {
        self.kind() == Kind::Pawn
    }

    /// Whether the piece moves along lines: bishop, rook or queen.
    pub open spec fn is_slider(self) -> bool {
        self.kind() == Kind::Bishop || self.kind() == Kind::Rook || self.kind() == Kind::Queen
    }

    /// The movement pattern of a piece, for a move by `dx` files and `dy`
    /// ranks. Pawns are not judged here (every step passes), and a king's
    /// pattern is the single step only.
    pub open spec fn spec_can_move(self, dx: int, dy: int) -> bool {
        match self.kind() {
            Kind::Pawn => true,
            Kind::Knight => (abs(dx) == 2 && abs(dy) == 1) || (abs(dy) == 2 && abs(dx) == 1),
            Kind::Bishop => abs(dx) == abs(dy),
            Kind::Rook => (dx == 0 && dy != 0) || (dx != 0 && dy == 0),
            Kind::King => abs(dx) <= 1 && abs(dy) <= 1,
            Kind::Queen => (dx == 0 && dy != 0) || (dx != 0 && dy == 0) || abs(dx) == abs(dy),
        }
    }

    /// The kind a promotion choice stands for.
    pub open spec fn promotion_kind(prm: Promotion) -> Kind {
        match prm {
            Promotion::Knight => Kind::Knight,
            Promotion::Bishop => Kind::Bishop,
            Promotion::Rook => Kind::Rook,
            Promotion::Queen => Kind::Queen,
        }
    }

    /// The letter that stands for a piece in a position record: upper case
    /// for White, lower case for Black.
    pub open spec fn spec_letter(self) -> char {
        match self {
            Piece::BPawn => 'p',
            Piece::BKnight => 'n',
            Piece::BBishop => 'b',
            Piece::BRook => 'r',
            Piece::BQueen => 'q',
            Piece::BKing => 'k',
            Piece::WPawn => 'P',
            Piece::WKnight => 'N',
            Piece::WBishop => 'B',
            Piece::WRook => 'R',
            Piece::WQueen => 'Q',
            Piece::WKing => 'K',
        }
    }

    /// The piece a letter stands for, if any.
    pub open spec fn spec_from_letter(letter: char) -> Option<Piece> {
        if letter == 'p' {
            Some(Piece::BPawn)
        } else if letter == 'n' {
            Some(Piece::BKnight)
        } else if letter == 'b' {
            Some(Piece::BBishop)
        } else if letter == 'r' {
            Some(Piece::BRook)
        } else if letter == 'q' {
            Some(Piece::BQueen)
        } else if letter == 'k' {
            Some(Piece::BKing)
        } else if letter == 'P' {
            Some(Piece::WPawn)
        } else if letter == 'N' {
            Some(Piece::WKnight)
        } else if letter == 'B' {
            Some(Piece::WBishop)
        } else if letter == 'R' {
            Some(Piece::WRook)
        } else if letter == 'Q' {
            Some(Piece::WQueen)
        } else if letter == 'K' {
            Some(Piece::WKing)
        } else {
            None
        }
    }

    /// Whether a move by `relative_x` files and `relative_y` ranks fits the
    /// piece's movement pattern. Pawn moves and castling follow rules of
    /// their own and are not judged here.
    pub fn can_move(&self, relative_x: isize, relative_y: isize) -> (fits: bool)
        requires
            relative_x > isize::MIN,
            relative_y > isize::MIN,
        ensures
            fits == self.spec_can_move(relative_x as int, relative_y as int),
    {
        let ax: isize = if relative_x < 0 { -relative_x } else { relative_x };
        let ay: isize = if relative_y < 0 { -relative_y } else { relative_y };
        match self {
            Piece::WPawn | Piece::BPawn => true,
            Piece::WKnight | Piece::BKnight => (ax == 2 && ay == 1) || (ay == 2 && ax == 1),
            Piece::WBishop | Piece::BBishop => ax == ay,
            Piece::WRook | Piece::BRook => {
                (relative_x == 0 && relative_y != 0) || (relative_x != 0 && relative_y == 0)
            },
            Piece::WKing | Piece::BKing => ax <= 1 && ay <= 1,
            Piece::WQueen | Piece::BQueen => {
                (relative_x == 0 && relative_y != 0) || (relative_x != 0 && relative_y == 0)
                    || ax == ay
            },
        }
    }

    /// The side the piece belongs to.
    pub fn color(&self) -> (c: Color)
        ensures
            c == self.spec_color(),
    {
        match self {
            Piece::WPawn | Piece::WKnight | Piece::WBishop | Piece::WRook | Piece::WQueen
            | Piece::WKing => Color::White,
            Piece::BPawn | Piece::BKnight | Piece::BBishop | Piece::BRook | Piece::BQueen
            | Piece::BKing => Color::Black,
        }
    }

    /// The piece a pawn of `color` becomes under the promotion choice `prm`.
    pub fn from_promotion(prm: Promotion, color: Color) -> (piece: Piece)
        ensures
            piece == Piece::of(Piece::promotion_kind(prm), color),
    {
        match (prm, color) {
            (Promotion::Knight, Color::White) => Piece::WKnight,
            (Promotion::Bishop, Color::White) => Piece::WBishop,
            (Promotion::Rook, Color::White) => Piece::WRook,
            (Promotion::Queen, Color::White) => Piece::WQueen,
            (Promotion::Knight, Color::Black) => Piece::BKnight,
            (Promotion::Bishop, Color::Black) => Piece::BBishop,
            (Promotion::Rook, Color::Black) => Piece::BRook,
            (Promotion::Queen, Color::Black) => Piece::BQueen,
        }
    }

    /// Reads a piece letter; `None` for any other character.
    pub fn from_letter(letter: char) -> (piece: Option<Piece>)
        ensures
            piece == Piece::spec_from_letter(letter),
    {
        match letter {
            'p' => Some(Piece::BPawn),
            'n' => Some(Piece::BKnight),
            'b' => Some(Piece::BBishop),
            'r' => Some(Piece::BRook),
            'q' => Some(Piece::BQueen),
            'k' => Some(Piece::BKing),
            'P' => Some(Piece::WPawn),
            'N' => Some(Piece::WKnight),
            'B' => Some(Piece::WBishop),
            'R' => Some(Piece::WRook),
            'Q' => Some(Piece::WQueen),
            'K' => Some(Piece::WKing),
            _ => None,
        }
    }

    /// The letter of the piece.
    pub fn to_letter(self) -> (letter: char)
        ensures
            letter == self.spec_letter(),
    {
        match self {
            Piece::BPawn => 'p',
            Piece::BKnight => 'n',
            Piece::BBishop => 'b',
            Piece::BRook => 'r',
            Piece::BQueen => 'q',
            Piece::BKing => 'k',
            Piece::WPawn => 'P',
            Piece::WKnight => 'N',
            Piece::WBishop => 'B',
            Piece::WRook => 'R',
            Piece::WQueen => 'Q',
            Piece::WKing => 'K',
        }
    }

    /// Reading back the letter of a piece gives the piece.
    pub proof fn letter_round_trip(self)
        ensures
            Piece::spec_from_letter(self.spec_letter()) == Some(self),
    {
    }
}

} // verus!
