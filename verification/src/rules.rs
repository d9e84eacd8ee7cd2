//! The rules of chess, stated over [`PositionView`]: which moves fit, what
//! a move does to a position, and when a side is in check, mated,
//! stalemated or the game drawn. The executable functions of
//! [`crate::engine`] are proved against these definitions.

use vstd::prelude::*;
use crate::piece::{abs, Color, Kind, Piece, Promotion};
use crate::position::{file_of, on_board, rank_of, CastleFlags, CastleSide, EnPassant, PositionView};

verus! {

/// How a proposed move fares. The first five outcomes are those of a legal
/// move and differ in what the move leaves behind; the last three are the
/// ways a proposal fails.
#[derive(Copy, Clone, PartialEq, Eq, Structural, Hash, Debug)]
pub enum MoveResult {
    /// Legal, and the game goes on quietly.
    Valid,
    /// Legal, and the opponent is in check.
    Check,
    /// Legal, and the opponent is mated.
    Checkmate,
    /// Legal, and the opponent has no move though not in check.
    Stalemate,
    /// Legal, and the game is drawn by material or by the half-move clock.
    Draw,
    /// A pawn would reach the farthest rank and no promotion was named.
    MissingPromotion,
    /// The proposal breaks a rule.
    Illegal,
    /// The proposal names no move at all: a square off the board, an empty
    /// origin, or a piece of the side that is not to move.
    Impossible,
}

impl MoveResult {
    /// Whether the outcome is one of a legal move.
    pub open spec fn spec_is_ok(self) -> bool {
        self == MoveResult::Valid || self == MoveResult::Check || self == MoveResult::Checkmate
            || self == MoveResult::Stalemate || self == MoveResult::Draw
    }

    /// Whether the outcome is one of a legal move.
    pub fn is_ok(self) -> (ok: bool)
        ensures
            ok == self.spec_is_ok(),
    {
        match self {
            MoveResult::Valid => true,
            MoveResult::Check => true,
            MoveResult::Checkmate => true,
            MoveResult::Stalemate => true,
            MoveResult::Draw => true,
            MoveResult::MissingPromotion => false,
            MoveResult::Illegal => false,
            MoveResult::Impossible => false,
        }
    }
}

/// What a move does besides bringing a piece from one square to another.
#[derive(Copy, Clone, PartialEq, Eq, Structural, Hash, Debug)]
pub enum SideEffect {
    /// Nothing more: the destination was empty, or there was no move.
    Nothing,
    /// The piece on the destination is taken.
    Capture,
    /// A pawn takes in passing: `square`, one rank beyond the destination,
    /// is emptied.
    Passing { square: usize },
    /// The rook goes along, from `rook_from` to `rook_to`.
    Castle { rook_from: usize, rook_to: usize },
}

/// -1, 0 or 1 as `x` is negative, zero or positive.
pub open spec fn sign(x: int) -> int {
    if x > 0 {
        1
    } else if x < 0 {
        -1
    } else {
        0
    }
}

/// `k` steps in the direction `dir` (a sign).
pub open spec fn scaled(k: int, dir: int) -> int {
    if dir > 0 {
        k
    } else if dir < 0 {
        -k
    } else {
        0
    }
}

/// The larger of two numbers.
pub open spec fn larger(a: int, b: int) -> int {
    if a >= b {
        a
    } else {
        b
    }
}

/// The number of unit steps from `from` to `to` along a rank, file or
/// diagonal.
pub open spec fn steps_between(from: int, to: int) -> int {
    larger(abs(file_of(to) - file_of(from)), abs(rank_of(to) - rank_of(from)))
}

/// The square reached after `k` unit steps from `from` toward `to`.
pub open spec fn step_square(from: int, to: int, k: int) -> int {
    (rank_of(from) + scaled(k, sign(rank_of(to) - rank_of(from)))) * 8 + file_of(from) + scaled(
        k,
        sign(file_of(to) - file_of(from)),
    )
}

/// Whether `sq` lies strictly between `from` and `to` on their line.
pub open spec fn strictly_between(from: int, to: int, sq: int) -> bool {
    exists|k: int| 0 < k < steps_between(from, to) && sq == #[trigger] step_square(from, to, k)
}

/// The rank on which `color`'s pawns start.
pub open spec fn pawn_home_rank(color: Color) -> int {
    match color {
        Color::White => 1,
        Color::Black => 6,
    }
}

/// The rank on which `color`'s pawns promote.
pub open spec fn far_rank(color: Color) -> int {
    match color {
        Color::White => 7,
        Color::Black => 0,
    }
}

/// The square on which `color`'s king starts.
pub open spec fn king_home(color: Color) -> int {
    match color {
        Color::White => 4,
        Color::Black => 60,
    }
}

/// The castling right that a king of `color` uses when it moves two files
/// in the direction `toward` (positive: toward the h-file).
pub open spec fn castle_side(color: Color, toward: int) -> CastleSide {
    match color {
        Color::White => if toward > 0 {
            CastleSide::WhiteKing
        } else {
            CastleSide::WhiteQueen
        },
        Color::Black => if toward > 0 {
            CastleSide::BlackKing
        } else {
            CastleSide::BlackQueen
        },
    }
}

/// Whether `to` is one of the up to eight squares next to `from`.
pub open spec fn is_king_step(from: int, to: int) -> bool {
    &&& on_board(from)
    &&& on_board(to)
    &&& to != from
    &&& abs(file_of(to) - file_of(from)) <= 1
    &&& abs(rank_of(to) - rank_of(from)) <= 1
}

/// Where the rook stands before a king's two-file move from `from` to `to`.
pub open spec fn castle_rook_from(from: int, to: int) -> int {
    if file_of(to) > file_of(from) {
        from + 3
    } else {
        from - 4
    }
}

/// Where the rook stands after a king's two-file move to `to`: next to the
/// king, on the side the king came from.
pub open spec fn castle_rook_to(from: int, to: int) -> int {
    if file_of(to) > file_of(from) {
        to - 1
    } else {
        to + 1
    }
}

/// The occupied squares of `board` below `below`, in index order, each
/// with its piece.
pub open spec fn pieces_below(board: Seq<Option<Piece>>, below: int) -> Seq<(int, Piece)>
    decreases below,
{
    if below <= 0 {
        Seq::empty()
    } else {
        match board[below - 1] {
            Some(piece) => pieces_below(board, below - 1).push((below - 1, piece)),
            None => pieces_below(board, below - 1),
        }
    }
}

/// The squares of `board` below `below` that hold a piece other than a
/// king, in index order, each with its piece.
pub open spec fn others_below(board: Seq<Option<Piece>>, below: int) -> Seq<(int, Piece)>
    decreases below,
{
    if below <= 0 {
        Seq::empty()
    } else {
        match board[below - 1] {
            Some(piece) => if piece.is_king() {
                others_below(board, below - 1)
            } else {
                others_below(board, below - 1).push((below - 1, piece))
            },
            None => others_below(board, below - 1),
        }
    }
}

impl PositionView {
    // ------------------------------------------------------------------
    // Moves that fit, the mover's own king left aside
    // ------------------------------------------------------------------
    /// Whether what stands on `to` forbids landing there: a piece of the
    /// side to move, or, when `king_check` asks for it, a king.
    pub open spec fn destination_barred(self, to: int, king_check: bool) -> bool {
        match self.board[to] {
            Some(piece) => piece.spec_color() == self.turn || (king_check && piece.is_king()),
            None => false,
        }
    }

    /// Whether a pawn's move from `from` to `to` is one of the four pawn
    /// moves, made in the pawn's own direction: a diagonal step onto an
    /// occupied square, a diagonal step onto the en-passant target, a
    /// single step onto an empty square, or a double step from the home
    /// rank over an empty square onto an empty square.
    pub open spec fn pawn_move_fits(self, piece: Piece, from: int, to: int) -> bool {
        let dx = file_of(to) - file_of(from);
        let dy = rank_of(to) - rank_of(from);
        let forward = if piece.spec_color() == Color::White {
            dy > 0
        } else {
            dy < 0
        };
        let diagonal = abs(dx) == 1 && abs(dy) == 1;
        let take = diagonal && self.board[to] is Some;
        let passing = diagonal && (self.en_passant matches Some(target) && target.spec_location()
            == to);
        let single = dx == 0 && abs(dy) == 1 && self.board[to] is None;
        let double = dx == 0 && abs(dy) == 2 && rank_of(from) == pawn_home_rank(
            piece.spec_color(),
        ) && self.board[to] is None && self.board[(from + to) / 2] is None;
        forward && (take || passing || single || double)
    }

    /// Whether every square strictly between `from` and `to` is empty.
    pub open spec fn path_clear(self, from: int, to: int) -> bool {
        forall|k: int|
            0 < k < steps_between(from, to) ==> self.board[#[trigger] step_square(from, to, k)]
                is None
    }

    /// The outcome of a proposed move when castling is left aside and the
    /// mover's own king is not looked after: the squares must be on the
    /// board, the origin must hold a piece of the side to move, the
    /// destination must not be barred, the move must fit the piece, a
    /// slider's path must be clear, and a pawn that reaches the farthest
    /// rank must name its promotion.
    pub open spec fn plain_move_result(
        self,
        from: int,
        to: int,
        promotion: Option<Promotion>,
        king_check: bool,
    ) -> MoveResult {
        if !on_board(from) || !on_board(to) {
            MoveResult::Impossible
        } else {
            match self.board[from] {
                None => MoveResult::Impossible,
                Some(piece) => if piece.spec_color() != self.turn {
                    MoveResult::Impossible
                } else if self.destination_barred(to, king_check) {
                    MoveResult::Illegal
                } else if piece.is_pawn() {
                    if !self.pawn_move_fits(piece, from, to) {
                        MoveResult::Illegal
                    } else if rank_of(to) == far_rank(piece.spec_color()) && promotion is None {
                        MoveResult::MissingPromotion
                    } else {
                        MoveResult::Valid
                    }
                } else if !piece.spec_can_move(
                    file_of(to) - file_of(from),
                    rank_of(to) - rank_of(from),
                ) {
                    MoveResult::Illegal
                } else if piece.is_slider() && !self.path_clear(from, to) {
                    MoveResult::Illegal
                } else {
                    MoveResult::Valid
                },
            }
        }
    }

    /// Whether the proposal is a castling attempt: a king of the side to
    /// move going two files along its rank, to a square that is not barred.
    pub open spec fn is_castle_attempt(self, from: int, to: int, king_check: bool) -> bool {
        &&& on_board(from)
        &&& on_board(to)
        &&& self.board[from] matches Some(piece)
        &&& piece.spec_color() == self.turn
        &&& piece.is_king()
        &&& !self.destination_barred(to, king_check)
        &&& abs(file_of(to) - file_of(from)) == 2
        &&& rank_of(to) == rank_of(from)
    }

    /// Whether the squares between a king on its home square `from` and the
    /// rook on the side `toward` are all empty.
    pub open spec fn castle_lane_empty(self, from: int, toward: int) -> bool {
        if toward > 0 {
            self.board[from + 1] is None && self.board[from + 2] is None
        } else {
            self.board[from - 1] is None && self.board[from - 2] is None && self.board[from - 3]
                is None
        }
    }

    /// The outcome of a castling attempt from `from` to `to`: `Valid` when
    /// the mover is not in check, the king stands on its home square, the
    /// right for that side is still held, the squares between king and rook
    /// are empty, and the king would not be in check on the square it
    /// passes over; `Illegal` otherwise.
    pub open spec fn castle_result(self, from: int, to: int) -> MoveResult {
        let toward = sign(to - from);
        if !self.in_check(self.turn) && from == king_home(self.turn) && self.castle.has(
            castle_side(self.turn, toward),
        ) && self.castle_lane_empty(from, toward) && !self.apply_move(
            from,
            from + toward,
            None,
        ).in_check(self.turn) {
            MoveResult::Valid
        } else {
            MoveResult::Illegal
        }
    }

    /// The outcome of a proposed move when the mover's own king is not
    /// looked after (but for castling, which may not start in check nor
    /// pass over an attacked square). With `king_check` set, a move onto
    /// the enemy king is `Illegal`; attack detection clears it.
    pub open spec fn legal_checkless(
        self,
        from: int,
        to: int,
        promotion: Option<Promotion>,
        king_check: bool,
    ) -> MoveResult {
        if self.is_castle_attempt(from, to, king_check) {
            self.castle_result(from, to)
        } else {
            self.plain_move_result(from, to, promotion, king_check)
        }
    }

    // ------------------------------------------------------------------
    // What a move does
    // ------------------------------------------------------------------
    /// Whether `piece`, landing on `to`, takes in passing: it is a pawn and
    /// `to` is the en-passant target.
    pub open spec fn takes_in_passing(self, piece: Piece, to: int) -> bool {
        &&& piece.is_pawn()
        &&& self.en_passant matches Some(target)
        &&& target.spec_location() == to
    }

    /// The board before the moving piece is set down: where the move takes
    /// in passing, the square one rank beyond the target, on which the
    /// pawn that went past stands, is empty.
    pub open spec fn board_cleared(self, piece: Piece, to: int) -> Seq<Option<Piece>> {
        if self.takes_in_passing(piece, to) {
            self.board.update(self.en_passant->0.spec_pawn_lost_pos(), None)
        } else {
            self.board
        }
    }

    /// Whether the move of `piece` is a promotion: a pawn reaching its
    /// farthest rank with a promotion named.
    pub open spec fn promotes(piece: Piece, to: int, promotion: Option<Promotion>) -> bool {
        piece.is_pawn() && promotion is Some && rank_of(to) == far_rank(piece.spec_color())
    }

    /// Whether the move of `piece` takes the rook along: a king going two
    /// files.
    pub open spec fn carries_rook(piece: Piece, from: int, to: int) -> bool {
        piece.is_king() && abs(file_of(to) - file_of(from)) == 2
    }

    /// The board `cleared` once `piece` has gone from `from` to `to`: on
    /// `to` stands the piece, or what a pawn is promoted to; a king that
    /// goes two files has the rook brought to its other side; `from` is
    /// empty.
    pub open spec fn set_down(
        cleared: Seq<Option<Piece>>,
        piece: Piece,
        from: int,
        to: int,
        promotion: Option<Promotion>,
    ) -> Seq<Option<Piece>> {
        let placed = if Self::promotes(piece, to, promotion) {
            cleared.update(
                to,
                Some(Piece::of(Piece::promotion_kind(promotion->0), piece.spec_color())),
            )
        } else if Self::carries_rook(piece, from, to) {
            cleared.update(to, Some(piece)).update(
                castle_rook_to(from, to),
                cleared[castle_rook_from(from, to)],
            ).update(castle_rook_from(from, to), None)
        } else {
            cleared.update(to, Some(piece))
        };
        placed.update(from, None)
    }

    /// The board after `piece` has gone from `from` to `to`.
    pub open spec fn board_after(
        self,
        piece: Piece,
        from: int,
        to: int,
        promotion: Option<Promotion>,
    ) -> Seq<Option<Piece>> {
        Self::set_down(self.board_cleared(piece, to), piece, from, to, promotion)
    }

    /// The en-passant target after a move: the skipped square after a
    /// pawn's double step from its home rank, none after any other move.
    pub open spec fn en_passant_after(piece: Piece, from: int, to: int) -> Option<EnPassant> {
        if piece.is_pawn() && abs(to - from) == 16 {
            EnPassant::spec_from_pawn_location(from)
        } else {
            None
        }
    }

    /// The right that belongs to the rook's corner `sq`, if `sq` is one.
    pub open spec fn corner_side(sq: int) -> Option<CastleSide> {
        if sq == 0 {
            Some(CastleSide::WhiteQueen)
        } else if sq == 7 {
            Some(CastleSide::WhiteKing)
        } else if sq == 56 {
            Some(CastleSide::BlackQueen)
        } else if sq == 63 {
            Some(CastleSide::BlackKing)
        } else {
            None
        }
    }

    /// The rights that are left when `piece` leaves `from`: a king gives up
    /// both of its colour, a rook the one of its own corner.
    pub open spec fn castle_after_leaving(self, piece: Piece, from: int) -> CastleFlags {
        if piece.is_king() {
            self.castle.without_color(piece.spec_color())
        } else if piece == Piece::WRook && (from == 0 || from == 7) {
            self.castle.without(Self::corner_side(from)->0)
        } else if piece == Piece::BRook && (from == 56 || from == 63) {
            self.castle.without(Self::corner_side(from)->0)
        } else {
            self.castle
        }
    }

    /// The rights after a move: those left when the piece leaves `from`,
    /// less the right of the corner `to` when a rook is taken there.
    pub open spec fn castle_after(self, piece: Piece, from: int, to: int) -> CastleFlags {
        let left = self.castle_after_leaving(piece, from);
        match (self.board[to], Self::corner_side(to)) {
            (Some(taken), Some(side)) => if taken.kind() == Kind::Rook {
                left.without(side)
            } else {
                left
            },
            _ => left,
        }
    }

    /// Whether the squares that the move from `from` to `to` touches are
    /// on the board: both squares, and the square from which a king's
    /// two-file move takes the rook along.
    pub open spec fn move_in_reach(self, from: int, to: int) -> bool {
        &&& on_board(from)
        &&& on_board(to)
        &&& self.board[from] matches Some(piece) ==> (Self::carries_rook(piece, from, to)
            ==> on_board(castle_rook_from(from, to)))
    }

    /// Whether the clocks that the move from `from` to `to` advances have
    /// room on a [`crate::position::Game`].
    pub open spec fn clocks_allow(self, from: int, to: int) -> bool {
        self.board[from] matches Some(piece) ==> {
            &&& self.turn == Color::Black ==> self.fm_clock < u16::MAX
            &&& !piece.is_pawn() && self.board[to] is None ==> self.hm_clock < u8::MAX
        }
    }

    /// Whether the move from `from` to `to` can be carried out on a
    /// [`crate::position::Game`]: the squares it touches are on the board
    /// and the clocks it advances have room.
    pub open spec fn appliable(self, from: int, to: int) -> bool {
        self.move_in_reach(from, to) && self.clocks_allow(from, to)
    }

    /// Whether both clocks can still be advanced on a
    /// [`crate::position::Game`].
    pub open spec fn clocks_have_room(self) -> bool {
        self.hm_clock < u8::MAX && self.fm_clock < u16::MAX
    }

    /// The position after the piece on `from` has gone to `to`; the same
    /// position where `from` is empty. Nothing is asked of the move: that
    /// it is legal is the caller's affair.
    pub open spec fn apply_move(self, from: int, to: int, promotion: Option<Promotion>)
        -> PositionView {
        match self.board[from] {
            None => self,
            Some(piece) => PositionView {
                board: self.board_after(piece, from, to, promotion),
                en_passant: Self::en_passant_after(piece, from, to),
                castle: self.castle_after(piece, from, to),
                turn: self.turn.opposite(),
                hm_clock: if piece.is_pawn() || self.board[to] is Some {
                    0
                } else {
                    self.hm_clock + 1
                },
                fm_clock: if self.turn == Color::Black {
                    self.fm_clock + 1
                } else {
                    self.fm_clock
                },
            },
        }
    }

    /// What the move from `from` to `to` does besides bringing the piece
    /// to `to`.
    pub open spec fn side_effect(self, from: int, to: int) -> SideEffect {
        if !self.move_in_reach(from, to) {
            SideEffect::Nothing
        } else {
            match self.board[from] {
                None => SideEffect::Nothing,
                Some(piece) => if self.takes_in_passing(piece, to) {
                    SideEffect::Passing {
                        square: self.en_passant->0.spec_pawn_lost_pos() as usize,
                    }
                } else if Self::carries_rook(piece, from, to) {
                    SideEffect::Castle {
                        rook_from: castle_rook_from(from, to) as usize,
                        rook_to: castle_rook_to(from, to) as usize,
                    }
                } else if self.board[to] is Some {
                    SideEffect::Capture
                } else {
                    SideEffect::Nothing
                },
            }
        }
    }

    /// Whether two positions differ in their clocks at most.
    pub open spec fn same_placement(self, other: PositionView) -> bool {
        &&& self.board == other.board
        &&& self.en_passant == other.en_passant
        &&& self.castle == other.castle
        &&& self.turn == other.turn
    }

    // ------------------------------------------------------------------
    // Check
    // ------------------------------------------------------------------
    /// Whether the piece on `pos` attacks `target`, a square held by
    /// `player`: it is a piece of the other side, no king, and with that
    /// side to move its capture on `target` fits, kings not being spared.
    pub open spec fn attacks(self, pos: int, target: int, player: Color) -> bool {
        &&& on_board(pos)
        &&& self.board[pos] matches Some(piece)
        &&& piece.spec_color() != player
        &&& !piece.is_king()
        &&& self.with_turn(player.opposite()).plain_move_result(
            pos,
            target,
            Some(Promotion::Queen),
            false,
        ) == MoveResult::Valid
    }

    /// Whether some piece attacks `target`, a square held by `player`.
    pub open spec fn attacked(self, target: int, player: Color) -> bool {
        exists|pos: int| #[trigger] self.attacks(pos, target, player)
    }

    /// Whether `player` is in check: the king's square is attacked. A side
    /// without a king is never in check.
    pub open spec fn in_check(self, player: Color) -> bool {
        match self.king_square(player) {
            Some(king) => self.attacked(king, player),
            None => false,
        }
    }

    // ------------------------------------------------------------------
    // Destinations, stalemate, mate
    // ------------------------------------------------------------------
    /// Whether `sq` holds a piece of the side to move.
    pub open spec fn holds_own_piece(self, sq: int) -> bool {
        on_board(sq) && (self.board[sq] matches Some(piece) && piece.spec_color() == self.turn)
    }

    /// Whether the move from `from` to `to` fits (a pawn promoting to a
    /// queen where it must) and does not leave the mover's own king in
    /// check; `king_check` says whether the enemy king is spared.
    pub open spec fn fits_safely(self, from: int, to: int, king_check: bool) -> bool {
        &&& self.legal_checkless(from, to, Some(Promotion::Queen), king_check)
            == MoveResult::Valid
        &&& !self.apply_move(from, to, Some(Promotion::Queen)).in_check(self.turn)
    }

    /// Whether the side to move may go from `from` to `to` under the full
    /// rules, a pawn promoting to a queen where it must.
    pub open spec fn is_destination(self, from: int, to: int) -> bool {
        self.fits_safely(from, to, true)
    }

    /// Whether the move from `from` to `to` gets the side to move out of
    /// check as the escape search judges it: like a destination, but the
    /// enemy king is not spared.
    pub open spec fn is_escape(self, from: int, to: int) -> bool {
        self.fits_safely(from, to, false)
    }

    /// Whether the side to move has any legal move.
    pub open spec fn has_reply(self) -> bool {
        exists|from: int, to: int| #[trigger] self.is_destination(from, to)
    }

    /// Stalemate: the side to move is not in check and has no legal move.
    pub open spec fn is_stalemate(self) -> bool {
        !self.in_check(self.turn) && !self.has_reply()
    }

    /// Whether the piece on `pos` gives check to the king on `king` and
    /// `sq` is a square on which that check can be met by a capture or a
    /// block: `pos` itself, or, for a bishop, rook or queen, a square
    /// between it and the king.
    pub open spec fn threat_from(self, pos: int, king: int, player: Color, sq: int) -> bool {
        self.attacks(pos, king, player) && (sq == pos || (self.board[pos]->0.is_slider()
            && strictly_between(pos, king, sq)))
    }

    /// Whether `sq` is a threat square of some piece that gives check to
    /// `player`'s king on `king`.
    pub open spec fn threatens(self, king: int, player: Color, sq: int) -> bool {
        exists|pos: int| #[trigger] self.threat_from(pos, king, player, sq)
    }

    /// Whether `sq` is a threat square of some piece that gives check to
    /// `player`.
    pub open spec fn is_threat_square(self, player: Color, sq: int) -> bool {
        match self.king_square(player) {
            Some(king) => self.threatens(king, player, sq),
            None => false,
        }
    }

    /// Whether `sq` is tried as a destination for `player`'s pieces other
    /// than the king: a threat square or the en-passant target.
    pub open spec fn is_block_square(self, player: Color, sq: int) -> bool {
        self.is_threat_square(player, sq) || (self.en_passant matches Some(target)
            && target.spec_location() == sq)
    }

    /// Whether `from` holds a piece of `player` other than a king.
    pub open spec fn is_blocker(self, player: Color, from: int) -> bool {
        on_board(from) && (self.board[from] matches Some(piece) && piece.spec_color() == player
            && !piece.is_king())
    }

    /// Whether the side to move may take a king's step from `king`.
    pub open spec fn king_can_step(self, king: int) -> bool {
        exists|to: int| is_king_step(king, to) && #[trigger] self.is_escape(king, to)
    }

    /// Whether `player`, to move, gets out by a king's step.
    pub open spec fn king_escapes(self, player: Color) -> bool {
        match self.king_square(player) {
            Some(king) => self.with_turn(player).king_can_step(king),
            None => false,
        }
    }

    /// Whether `player`, to move, gets out by a move of another piece onto
    /// a block square.
    pub open spec fn block_escapes(self, player: Color) -> bool {
        exists|from: int, to: int|
            self.is_blocker(player, from) && self.is_block_square(player, to)
                && #[trigger] self.with_turn(player).is_escape(from, to)
    }

    /// Mate, by the escape search: neither a king's step nor a capture or
    /// block by another piece is a move that leaves `player` out of check.
    pub open spec fn in_checkmate(self, player: Color) -> bool {
        !self.king_escapes(player) && !self.block_escapes(player)
    }

    // ------------------------------------------------------------------
    // Draw by material or by the clock
    // ------------------------------------------------------------------
    /// All pieces on the board with their squares.
    pub open spec fn pieces(self) -> Seq<(int, Piece)> {
        pieces_below(self.board, 64)
    }

    /// All pieces other than kings with their squares.
    pub open spec fn others(self) -> Seq<(int, Piece)> {
        others_below(self.board, 64)
    }

    /// Whether a piece is a knight or a bishop.
    pub open spec fn is_minor(piece: Piece) -> bool {
        piece.kind() == Kind::Knight || piece.kind() == Kind::Bishop
    }

    /// Whether the material cannot mate: two pieces in all; three, the one
    /// that is no king being a knight or bishop; or four, the two that are
    /// no kings being bishops of opposite colours on squares of equal
    /// index parity.
    pub open spec fn material_draw(self) -> bool {
        let all = self.pieces();
        let others = self.others();
        ||| all.len() == 2
        ||| all.len() == 3 && others.len() == 1 && Self::is_minor(others[0].1)
        ||| all.len() == 4 && others.len() == 2 && others[0].1.kind() == Kind::Bishop
            && others[1].1.kind() == Kind::Bishop && others[0].1.spec_color()
            != others[1].1.spec_color() && others[0].0 % 2 == others[1].0 % 2
    }

    /// Draw: the half-move clock stands at 100, or the material cannot mate.
    pub open spec fn is_draw(self) -> bool {
        self.hm_clock == 100 || self.material_draw()
    }

    // ------------------------------------------------------------------
    // Full legality
    // ------------------------------------------------------------------
    /// How the position stands for the side to move: `Draw` first, then
    /// `Stalemate` or `Valid` when that side is not in check, `Checkmate`
    /// or `Check` when it is.
    pub open spec fn outcome(self) -> MoveResult {
        if self.is_draw() {
            MoveResult::Draw
        } else if !self.in_check(self.turn) {
            if self.is_stalemate() {
                MoveResult::Stalemate
            } else {
                MoveResult::Valid
            }
        } else if self.in_checkmate(self.turn) {
            MoveResult::Checkmate
        } else {
            MoveResult::Check
        }
    }

    /// The outcome of a proposed move under the full rules. A proposal that
    /// does not fit keeps its outcome; one that leaves the mover's own king
    /// in check is `Illegal`; a legal one is classified by how the position
    /// that it leaves stands for the opponent.
    pub open spec fn legal_move(self, from: int, to: int, promotion: Option<Promotion>)
        -> MoveResult {
        let fits = self.legal_checkless(from, to, promotion, true);
        let next = self.apply_move(from, to, promotion);
        if fits != MoveResult::Valid {
            fits
        } else if next.in_check(self.turn) {
            MoveResult::Illegal
        } else {
            next.outcome()
        }
    }
}

} // verus!
