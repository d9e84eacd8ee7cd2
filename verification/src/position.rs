//! The position: board, side to move, castling rights, en-passant target
//! and the two clocks, with the mathematical view that the rules are
//! stated over.

use vstd::prelude::*;
use crate::piece::{Color, Kind, Piece};

verus! {

/// File of a square, 0 for the a-file.
pub open spec fn file_of(sq: int) -> int {
    sq % 8
}

/// Rank of a square, 0 for White's first rank.
pub open spec fn rank_of(sq: int) -> int {
    sq / 8
}

/// Whether a number names one of the 64 squares.
pub open spec fn on_board(sq: int) -> bool {
    0 <= sq < 64
}

/// The kind that stands on a given file of a back rank at the start.
pub open spec fn back_rank_kind(file: int) -> Kind {
    if file == 0 || file == 7 {
        Kind::Rook
    } else if file == 1 || file == 6 {
        Kind::Knight
    } else if file == 2 || file == 5 {
        Kind::Bishop
    } else if file == 3 {
        Kind::Queen
    } else {
        Kind::King
    }
}

/// What stands on a square in the standard starting position.
pub open spec fn initial_square(sq: int) -> Option<Piece> {
    if rank_of(sq) == 0 {
        Some(Piece::of(back_rank_kind(file_of(sq)), Color::White))
    } else if rank_of(sq) == 1 {
        Some(Piece::WPawn)
    } else if rank_of(sq) == 6 {
        Some(Piece::BPawn)
    } else if rank_of(sq) == 7 {
        Some(Piece::of(back_rank_kind(file_of(sq)), Color::Black))
    } else {
        None
    }
}

/// The standard starting position's board.
pub open spec fn initial_board() -> Seq<Option<Piece>> {
    Seq::new(64, |sq: int| initial_square(sq))
}

/// Sixty-four squares, each empty or holding one piece: no square ever
/// holds two. Square `i` has file `i % 8` and rank `i / 8`, rank 0 being
/// White's first rank.
#[derive(Copy, Clone, PartialEq, Eq, Hash, Debug)]
pub struct Board(pub [Option<Piece>; 64]);

impl View for Board {
    type V = Seq<Option<Piece>>;

    open spec fn view(&self) -> Seq<Option<Piece>> {
        self.0@
    }
}

impl Default for Board {
    /// The standard starting position.
    fn default() -> (board: Board)
        ensures
            board@ == initial_board(),
    {
        let board = Board(
            [
                Some(Piece::WRook),
                Some(Piece::WKnight),
                Some(Piece::WBishop),
                Some(Piece::WQueen),
                Some(Piece::WKing),
                Some(Piece::WBishop),
                Some(Piece::WKnight),
                Some(Piece::WRook),
                Some(Piece::WPawn),
                Some(Piece::WPawn),
                Some(Piece::WPawn),
                Some(Piece::WPawn),
                Some(Piece::WPawn),
                Some(Piece::WPawn),
                Some(Piece::WPawn),
                Some(Piece::WPawn),
                None,
                None,
                None,
                None,
                None,
                None,
                None,
                None,
                None,
                None,
                None,
                None,
                None,
                None,
                None,
                None,
                None,
                None,
                None,
                None,
                None,
                None,
                None,
                None,
                None,
                None,
                None,
                None,
                None,
                None,
                None,
                None,
                Some(Piece::BPawn),
                Some(Piece::BPawn),
                Some(Piece::BPawn),
                Some(Piece::BPawn),
                Some(Piece::BPawn),
                Some(Piece::BPawn),
                Some(Piece::BPawn),
                Some(Piece::BPawn),
                Some(Piece::BRook),
                Some(Piece::BKnight),
                Some(Piece::BBishop),
                Some(Piece::BQueen),
                Some(Piece::BKing),
                Some(Piece::BBishop),
                Some(Piece::BKnight),
                Some(Piece::BRook),
            ],
        );
        assert(board@ =~= initial_board());
        board
    }
}

impl Board {
    /// A board with no piece on it.
    pub fn empty() -> (board: Board)
        ensures
            board@ == Seq::new(64, |sq: int| None::<Piece>),
    {
        let board = Board([None;64]);
        assert(board@ =~= Seq::new(64, |sq: int| None::<Piece>));
        board
    }

    /// What stands on square `index`.
    pub fn index(&self, index: usize) -> (square: &Option<Piece>)
        requires
            index < 64,
        ensures
            *square == self@[index as int],
    {
        &self.0[index]
    }

    /// The square `index`, to be written.
    pub fn index_mut(&mut self, index: usize) -> (square: &mut Option<Piece>)
        requires
            index < 64,
        ensures
            *square == old(self)@[index as int],
            final(self)@ == old(self)@.update(index as int, *final(square)),
    {
        &mut self.0[index]
    }
}

/// The square a pawn skipped on a double step, where it can be taken in
/// passing for one reply. The first eight are the squares of rank 2
/// (skipped by White's pawns), the last eight those of rank 5 (skipped by
/// Black's), ranks counted from 0.
#[derive(Copy, Clone, PartialEq, Eq, Structural, Hash, Debug)]
pub enum EnPassant {
    A2,
    B2,
    C2,
    D2,
    E2,
    F2,
    G2,
    H2,
    A5,
    B5,
    C5,
    D5,
    E5,
    F5,
    G5,
    H5,
}

impl EnPassant {
    /// The target square itself.
    pub open spec fn spec_location(self) -> int {
        match self {
            EnPassant::A2 => 16,
            EnPassant::B2 => 17,
            EnPassant::C2 => 18,
            EnPassant::D2 => 19,
            EnPassant::E2 => 20,
            EnPassant::F2 => 21,
            EnPassant::G2 => 22,
            EnPassant::H2 => 23,
            EnPassant::A5 => 40,
            EnPassant::B5 => 41,
            EnPassant::C5 => 42,
            EnPassant::D5 => 43,
            EnPassant::E5 => 44,
            EnPassant::F5 => 45,
            EnPassant::G5 => 46,
            EnPassant::H5 => 47,
        }
    }

    /// The target with the given square, if the square lies on rank 2 or 5.
    pub open spec fn spec_from_take_location(location: int) -> Option<EnPassant> {
        if location == 16 {
            Some(EnPassant::A2)
        } else if location == 17 {
            Some(EnPassant::B2)
        } else if location == 18 {
            Some(EnPassant::C2)
        } else if location == 19 {
            Some(EnPassant::D2)
        } else if location == 20 {
            Some(EnPassant::E2)
        } else if location == 21 {
            Some(EnPassant::F2)
        } else if location == 22 {
            Some(EnPassant::G2)
        } else if location == 23 {
            Some(EnPassant::H2)
        } else if location == 40 {
            Some(EnPassant::A5)
        } else if location == 41 {
            Some(EnPassant::B5)
        } else if location == 42 {
            Some(EnPassant::C5)
        } else if location == 43 {
            Some(EnPassant::D5)
        } else if location == 44 {
            Some(EnPassant::E5)
        } else if location == 45 {
            Some(EnPassant::F5)
        } else if location == 46 {
            Some(EnPassant::G5)
        } else if location == 47 {
            Some(EnPassant::H5)
        } else {
            None
        }
    }

    /// The target that a pawn leaves behind when it double-steps from
    /// `location`: the square one rank ahead of a rank-1 square, one rank
    /// below a rank-6 square, and none from anywhere else.
    pub open spec fn spec_from_pawn_location(location: int) -> Option<EnPassant> {
        if 8 <= location < 16 {
            EnPassant::spec_from_take_location(location + 8)
        } else if 48 <= location < 56 {
            EnPassant::spec_from_take_location(location - 8)
        } else {
            None
        }
    }

    /// The square of the pawn that made the double step: one rank beyond
    /// the target, seen from the side that may capture.
    pub open spec fn spec_pawn_lost_pos(self) -> int {
        if self.spec_location() < 32 {
            self.spec_location() + 8
        } else {
            self.spec_location() - 8
        }
    }

    /// The target square.
    pub fn location(self) -> (square: usize)
        ensures
            square == self.spec_location(),
            16 <= square < 24 || 40 <= square < 48,
    {
        match self {
            EnPassant::A2 => 16,
            EnPassant::B2 => 17,
            EnPassant::C2 => 18,
            EnPassant::D2 => 19,
            EnPassant::E2 => 20,
            EnPassant::F2 => 21,
            EnPassant::G2 => 22,
            EnPassant::H2 => 23,
            EnPassant::A5 => 40,
            EnPassant::B5 => 41,
            EnPassant::C5 => 42,
            EnPassant::D5 => 43,
            EnPassant::E5 => 44,
            EnPassant::F5 => 45,
            EnPassant::G5 => 46,
            EnPassant::H5 => 47,
        }
    }

    /// The target left behind by a pawn that double-steps from `location`.
    pub fn from_pawn_location(location: usize) -> (target: Option<EnPassant>)
        ensures
            target == EnPassant::spec_from_pawn_location(location as int),
    {
        match location {
            8 => Some(EnPassant::A2),
            9 => Some(EnPassant::B2),
            10 => Some(EnPassant::C2),
            11 => Some(EnPassant::D2),
            12 => Some(EnPassant::E2),
            13 => Some(EnPassant::F2),
            14 => Some(EnPassant::G2),
            15 => Some(EnPassant::H2),
            48 => Some(EnPassant::A5),
            49 => Some(EnPassant::B5),
            50 => Some(EnPassant::C5),
            51 => Some(EnPassant::D5),
            52 => Some(EnPassant::E5),
            53 => Some(EnPassant::F5),
            54 => Some(EnPassant::G5),
            55 => Some(EnPassant::H5),
            _ => None,
        }
    }

    /// The target on square `location`, if there is one.
    pub fn from_take_location(location: usize) -> (target: Option<EnPassant>)
        ensures
            target == EnPassant::spec_from_take_location(location as int),
    {
        match location {
            16 => Some(EnPassant::A2),
            17 => Some(EnPassant::B2),
            18 => Some(EnPassant::C2),
            19 => Some(EnPassant::D2),
            20 => Some(EnPassant::E2),
            21 => Some(EnPassant::F2),
            22 => Some(EnPassant::G2),
            23 => Some(EnPassant::H2),
            40 => Some(EnPassant::A5),
            41 => Some(EnPassant::B5),
            42 => Some(EnPassant::C5),
            43 => Some(EnPassant::D5),
            44 => Some(EnPassant::E5),
            45 => Some(EnPassant::F5),
            46 => Some(EnPassant::G5),
            47 => Some(EnPassant::H5),
            _ => None,
        }
    }

    /// The square of the pawn that is lost when the target is taken.
    pub fn pawn_lost_pos(self) -> (square: usize)
        ensures
            square == self.spec_pawn_lost_pos(),
            24 <= square < 40,
    {
        let location = self.location();
        if location < 32 {
            location + 8
        } else {
            location - 8
        }
    }

    /// A target is found again from its own square, and from no other.
    pub proof fn take_location_round_trip(self, location: int)
        ensures
            EnPassant::spec_from_take_location(self.spec_location()) == Some(self),
            EnPassant::spec_from_take_location(location) == Some(self) <==> location
                == self.spec_location(),
    {
    }
}

/// One of the four castling rights.
#[derive(Copy, Clone, PartialEq, Eq, Structural, Hash, Debug)]
pub enum CastleSide {
    WhiteKing,
    WhiteQueen,
    BlackKing,
    BlackQueen,
}

/// The castling rights still held: a set over the four sides.
#[derive(Copy, Clone, PartialEq, Eq, Structural, Hash, Debug)]
pub struct CastleFlags {
    pub wk: bool,
    pub wq: bool,
    pub bk: bool,
    pub bq: bool,
}

impl CastleFlags {
    /// Whether the right for `side` is held.
    pub open spec fn has(self, side: CastleSide) -> bool {
        match side {
            CastleSide::WhiteKing => self.wk,
            CastleSide::WhiteQueen => self.wq,
            CastleSide::BlackKing => self.bk,
            CastleSide::BlackQueen => self.bq,
        }
    }

    /// The rights without the one for `side`.
    pub open spec fn without(self, side: CastleSide) -> CastleFlags {
        match side {
            CastleSide::WhiteKing => CastleFlags { wk: false, ..self },
            CastleSide::WhiteQueen => CastleFlags { wq: false, ..self },
            CastleSide::BlackKing => CastleFlags { bk: false, ..self },
            CastleSide::BlackQueen => CastleFlags { bq: false, ..self },
        }
    }

    /// The rights without both of `color`'s.
    pub open spec fn without_color(self, color: Color) -> CastleFlags {
        match color {
            Color::White => CastleFlags { wk: false, wq: false, ..self },
            Color::Black => CastleFlags { bk: false, bq: false, ..self },
        }
    }

    /// Whether no right is held.
    pub open spec fn is_none(self) -> bool {
        !self.wk && !self.wq && !self.bk && !self.bq
    }

    /// All four rights.
    pub fn all() -> (flags: CastleFlags)
        ensures
            flags == (CastleFlags { wk: true, wq: true, bk: true, bq: true }),
    {
        CastleFlags { wk: true, wq: true, bk: true, bq: true }
    }

    /// No right at all.
    pub fn none() -> (flags: CastleFlags)
        ensures
            flags == (CastleFlags { wk: false, wq: false, bk: false, bq: false }),
    {
        CastleFlags { wk: false, wq: false, bk: false, bq: false }
    }

    /// Whether the right for `side` is held.
    pub fn contains(&self, side: CastleSide) -> (held: bool)
        ensures
            held == self.has(side),
    {
        match side {
            CastleSide::WhiteKing => self.wk,
            CastleSide::WhiteQueen => self.wq,
            CastleSide::BlackKing => self.bk,
            CastleSide::BlackQueen => self.bq,
        }
    }

    /// Gives up the right for `side`. A right never comes back.
    pub fn revoke(&mut self, side: CastleSide)
        ensures
            *final(self) == old(self).without(side),
    {
        match side {
            CastleSide::WhiteKing => {
                self.wk = false;
            },
            CastleSide::WhiteQueen => {
                self.wq = false;
            },
            CastleSide::BlackKing => {
                self.bk = false;
            },
            CastleSide::BlackQueen => {
                self.bq = false;
            },
        }
    }

    /// Gives up both rights of `color`.
    pub fn revoke_color(&mut self, color: Color)
        ensures
            *final(self) == old(self).without_color(color),
    {
        match color {
            Color::White => {
                self.wk = false;
                self.wq = false;
            },
            Color::Black => {
                self.bk = false;
                self.bq = false;
            },
        }
    }
}

impl Default for CastleFlags {
    /// All four rights, as at the start of a game.
    fn default() -> (flags: CastleFlags)
        ensures
            flags == (CastleFlags { wk: true, wq: true, bk: true, bq: true }),
    {
        CastleFlags::all()
    }
}

/// A position as the rules see it: the mathematical content of a [`Game`].
pub ghost struct PositionView {
    pub board: Seq<Option<Piece>>,
    pub en_passant: Option<EnPassant>,
    pub castle: CastleFlags,
    pub turn: Color,
    pub hm_clock: nat,
    pub fm_clock: nat,
}

/// A complete snapshot of a game: the board, the side to move, the
/// castling rights, the en-passant target, the half-move clock (moves
/// since the last pawn move or capture) and the full-move counter.
#[derive(Copy, Clone, PartialEq, Eq, Hash, Debug)]
pub struct Game {
    pub board: Board,
    pub en_passant: Option<EnPassant>,
    pub castle: CastleFlags,
    pub turn: Color,
    pub hm_clock: u8,
    pub fm_clock: u16,
}

impl View for Game {
    type V = PositionView;

    open spec fn view(&self) -> PositionView {
        PositionView {
            board: self.board@,
            en_passant: self.en_passant,
            castle: self.castle,
            turn: self.turn,
            hm_clock: self.hm_clock as nat,
            fm_clock: self.fm_clock as nat,
        }
    }
}

/// The standard starting position, White to move.
pub open spec fn initial_position() -> PositionView {
    PositionView {
        board: initial_board(),
        en_passant: None,
        castle: CastleFlags { wk: true, wq: true, bk: true, bq: true },
        turn: Color::White,
        hm_clock: 0,
        fm_clock: 1,
    }
}

impl Default for Game {
    /// The standard starting position.
    fn default() -> (game: Game)
        ensures
            game@ == initial_position(),
    {
        Game {
            board: Board::default(),
            en_passant: None,
            castle: CastleFlags::all(),
            turn: Color::White,
            hm_clock: 0,
            fm_clock: 1,
        }
    }
}

/// Whether `color`'s king stands on square `sq` of `board`.
pub open spec fn king_at(board: Seq<Option<Piece>>, sq: int, color: Color) -> bool {
    on_board(sq) && board[sq] == Some(Piece::of(Kind::King, color))
}

/// The first square of `board`, in index order and below `below`, that
/// holds `color`'s king.
pub open spec fn first_king_below(board: Seq<Option<Piece>>, color: Color, below: int) -> Option<
    int,
>
    decreases below,
{
    if below <= 0 {
        None
    } else {
        match first_king_below(board, color, below - 1) {
            Some(sq) => Some(sq),
            None => if king_at(board, below - 1, color) {
                Some(below - 1)
            } else {
                None
            },
        }
    }
}

/// What the search of the squares below `below` finds: the least square
/// with `color`'s king, or nothing where there is none.
pub proof fn first_king_below_is_least(board: Seq<Option<Piece>>, color: Color, below: int)
    requires
        0 <= below <= 64,
    ensures
        match first_king_below(board, color, below) {
            Some(sq) => 0 <= sq < below && king_at(board, sq, color) && forall|other: int|
                0 <= other < sq ==> !king_at(board, other, color),
            None => forall|other: int| 0 <= other < below ==> !king_at(board, other, color),
        },
    decreases below,
{
    if below > 0 {
        first_king_below_is_least(board, color, below - 1);
    }
}

/// A king found among the squares below `below` is still the one found
/// when more squares are searched.
pub proof fn first_king_below_stable(
    board: Seq<Option<Piece>>,
    color: Color,
    below: int,
    more: int,
)
    requires
        below <= more,
        first_king_below(board, color, below) is Some,
    ensures
        first_king_below(board, color, more) == first_king_below(board, color, below),
    decreases more - below,
{
    if below < more {
        first_king_below_stable(board, color, below, more - 1);
    }
}

impl PositionView {
    /// A position has sixty-four squares, and clocks that a [`Game`] can hold.
    pub open spec fn wf(self) -> bool {
        &&& self.board.len() == 64
        &&& self.hm_clock <= u8::MAX
        &&& self.fm_clock <= u16::MAX
    }

    /// The square of `color`'s king: the first in index order, if the
    /// board holds more than one.
    pub open spec fn king_square(self, color: Color) -> Option<int> {
        first_king_below(self.board, color, 64)
    }

    /// The same position with `color` to move.
    pub open spec fn with_turn(self, color: Color) -> PositionView {
        PositionView { turn: color, ..self }
    }
}

impl Game {
    /// The square of `player`'s king, if there is one on the board.
    pub fn find_king(&self, player: Color) -> (square: Option<usize>)
        ensures
            match square {
                Some(sq) => self@.king_square(player) == Some(sq as int) && sq < 64 && king_at(
                    self@.board,
                    sq as int,
                    player,
                ),
                None => self@.king_square(player) is None,
            },
    {
        let mut p: usize = 0;
        while p < 64
            invariant
                p <= 64,
                first_king_below(self@.board, player, p as int) is None,
            decreases 64 - p,
        {
            if let Some(piece) = self.board.0[p] {
                if piece.color() == player && (piece == Piece::WKing || piece == Piece::BKing) {
                    proof {
                        assert(first_king_below(self@.board, player, p + 1) == Some(p as int));
                        first_king_below_stable(self@.board, player, p + 1, 64);
                    }
                    return Some(p);
                }
            }
            p += 1;
        }
        None
    }
}

} // verus!
