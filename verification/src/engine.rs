//! The executable engine: each function computes what the definition of
//! the same name in [`crate::rules`] states.

use std::collections::HashSet;
use std::ops::Not;
use vstd::prelude::*;
use crate::laws::{
    checkmate_ignores_clocks,
    destination_is_legal_move,
    in_check_ignores_clocks,
    stalemate_ignores_clocks,
};
use crate::piece::{Color, Piece, Promotion};
use crate::position::{CastleSide, EnPassant, Game, PositionView};
use crate::rules::{
    castle_rook_from,
    others_below,
    pieces_below,
    scaled,
    sign,
    step_square,
    steps_between,
    MoveResult,
    SideEffect,
};

verus! {

impl Game {
    /// Whether what stands on `to` bars a move there.
    fn destination_barred(&self, to: usize, king_check: bool) -> (barred: bool)
        requires
            to < 64,
        ensures
            barred == self@.destination_barred(to as int, king_check),
    {
        match self.board.0[to] {
            Some(piece) => {
                let king = matches!(piece, Piece::WKing | Piece::BKing);
                piece.color() == self.turn || (king_check && king)
            },
            None => false,
        }
    }

    /// Whether a pawn's move is one of the four pawn moves.
    fn pawn_move_fits(&self, piece: Piece, from: usize, to: usize) -> (fits: bool)
        requires
            from < 64,
            to < 64,
        ensures
            fits == self@.pawn_move_fits(piece, from as int, to as int),
    {
        let dx: isize = (to % 8) as isize - (from % 8) as isize;
        let dy: isize = (to / 8) as isize - (from / 8) as isize;
        let white = matches!(piece.color(), Color::White);
        let forward = if white {
            dy > 0
        } else {
            dy < 0
        };
        if !forward {
            return false;
        }
        let occupied = self.board.0[to].is_some();
        let sideways = dx == 1 || dx == -1;
        let one = dy == 1 || dy == -1;
        let two = dy == 2 || dy == -2;
        if sideways && one {
            if occupied {
                return true;
            }
            return match self.en_passant {
                Some(target) => target.location() == to,
                None => false,
            };
        }
        if dx != 0 || occupied {
            return false;
        }
        if one {
            return true;
        }
        if two {
            let home = if white {
                from / 8 == 1
            } else {
                from / 8 == 6
            };
            return home && self.board.0[(from + to) / 2].is_none();
        }
        false
    }

    /// Whether the squares strictly between `from` and `to` are empty,
    /// the two lying on one rank, file or diagonal.
    fn path_is_clear(&self, from: usize, to: usize) -> (clear: bool)
        requires
            from < 64,
            to < 64,
            Piece::WQueen.spec_can_move(
                (to % 8) as int - (from % 8) as int,
                (to / 8) as int - (from / 8) as int,
            ),
        ensures
            clear == self@.path_clear(from as int, to as int),
    {
        let ox: isize = (from % 8) as isize;
        let oy: isize = (from / 8) as isize;
        let dx: isize = (to % 8) as isize - ox;
        let dy: isize = (to / 8) as isize - oy;
        let rx: isize = if dx > 0 {
            1
        } else if dx < 0 {
            -1
        } else {
            0
        };
        let ry: isize = if dy > 0 {
            1
        } else if dy < 0 {
            -1
        } else {
            0
        };
        let ax: isize = if dx < 0 {
            -dx
        } else {
            dx
        };
        let ay: isize = if dy < 0 {
            -dy
        } else {
            dy
        };
        let steps: isize = if ax >= ay {
            ax
        } else {
            ay
        };
        let mut k: isize = 1;
        let mut cx: isize = ox + rx;
        let mut cy: isize = oy + ry;
        while k < steps
            invariant
                from < 64,
                to < 64,
                ox == (from % 8) as int,
                oy == (from / 8) as int,
                dx == (to % 8) as int - ox,
                dy == (to / 8) as int - oy,
                rx == sign(dx as int),
                ry == sign(dy as int),
                steps == steps_between(from as int, to as int),
                dx == 0 || dy == 0 || ax == ay,
                ax == crate::piece::abs(dx as int),
                ay == crate::piece::abs(dy as int),
                1 <= k,
                cx == ox + scaled(k as int, rx as int),
                cy == oy + scaled(k as int, ry as int),
                forall|j: int|
                    0 < j < k ==> self@.board[#[trigger] step_square(from as int, to as int, j)]
                        is None,
            decreases steps - k,
        {
            let sq = (cy * 8 + cx) as usize;
            assert(sq == step_square(from as int, to as int, k as int));
            if self.board.0[sq].is_some() {
                return false;
            }
            k += 1;
            cx += rx;
            cy += ry;
        }
        true
    }

    /// The outcome of a proposed move, castling left aside.
    fn plain_move_result(
        &self,
        from: usize,
        to: usize,
        promotion: Option<Promotion>,
        king_check: bool,
    ) -> (result: MoveResult)
        ensures
            result == self@.plain_move_result(from as int, to as int, promotion, king_check),
    {
        if from > 63 || to > 63 {
            return MoveResult::Impossible;
        }
        let piece = match self.board.0[from] {
            Some(piece) => piece,
            None => {
                return MoveResult::Impossible;
            },
        };
        if piece.color() != self.turn {
            return MoveResult::Impossible;
        }
        if self.destination_barred(to, king_check) {
            return MoveResult::Illegal;
        }
        if matches!(piece, Piece::WPawn | Piece::BPawn) {
            if !self.pawn_move_fits(piece, from, to) {
                return MoveResult::Illegal;
            }
            let far = match piece {
                Piece::WPawn => to / 8 == 7,
                _ => to / 8 == 0,
            };
            if far && promotion.is_none() {
                return MoveResult::MissingPromotion;
            }
            return MoveResult::Valid;
        }
        let dx: isize = (to % 8) as isize - (from % 8) as isize;
        let dy: isize = (to / 8) as isize - (from / 8) as isize;
        if !piece.can_move(dx, dy) {
            return MoveResult::Illegal;
        }
        let slider = matches!(
            piece,
            Piece::WBishop | Piece::BBishop | Piece::WRook | Piece::BRook | Piece::WQueen
                | Piece::BQueen
        );
        if slider && !self.path_is_clear(from, to) {
            return MoveResult::Illegal;
        }
        MoveResult::Valid
    }

    /// Whether `player` is in check: some piece of the other side, its
    /// king left out, could capture on the square of `player`'s king if it
    /// were that side's turn. A side with no king on the board is not in
    /// check.
    pub fn is_in_check(&self, player: Color) -> (in_check: bool)
        ensures
            in_check == self@.in_check(player),
    {
        let king = match self.find_king(player) {
            Some(king) => king,
            None => {
                return false;
            },
        };
        let mut game = *self;
        game.turn = player.not();
        let mut pos: usize = 0;
        while pos < 64
            invariant
                pos <= 64,
                king < 64,
                self@.king_square(player) == Some(king as int),
                game@ == self@.with_turn(player.opposite()),
                forall|p: int| 0 <= p < pos ==> !self@.attacks(p, king as int, player),
            decreases 64 - pos,
        {
            if let Some(piece) = self.board.0[pos] {
                let is_king = matches!(piece, Piece::WKing | Piece::BKing);
                if piece.color() != player && !is_king {
                    let result = game.plain_move_result(pos, king, Some(Promotion::Queen), false);
                    if matches!(result, MoveResult::Valid) {
                        assert(self@.attacks(pos as int, king as int, player));
                        return true;
                    }
                }
            }
            pos += 1;
        }
        false
    }

    /// The position after a move, for looking ahead: placement, rights and
    /// turn are those after the move; the clocks are not kept.
    fn after_move(&self, from: usize, to: usize, promotion: Option<Promotion>) -> (next: Game)
        requires
            self@.move_in_reach(from as int, to as int),
        ensures
            next@.same_placement(self@.apply_move(from as int, to as int, promotion)),
    {
        let mut next = *self;
        next.hm_clock = 0;
        next.fm_clock = 0;
        next.move_unchecked(from, to, promotion);
        next
    }

    /// The outcome of a proposed move when the mover's own king is not
    /// looked after: every rule but the one that a move may not leave the
    /// mover's king in check. Castling is judged in full here: it may not
    /// start in check nor pass over an attacked square. With `king_check`
    /// set a move onto the enemy king is `Illegal`; attack detection
    /// clears it.
    pub fn is_legal_checkless(
        &self,
        from: usize,
        to: usize,
        promotion: Option<Promotion>,
        king_check: bool,
    ) -> (result: MoveResult)
        ensures
            result == self@.legal_checkless(from as int, to as int, promotion, king_check),
    {
        if from > 63 || to > 63 {
            return MoveResult::Impossible;
        }
        let piece = match self.board.0[from] {
            Some(piece) => piece,
            None => {
                return MoveResult::Impossible;
            },
        };
        if piece.color() != self.turn {
            return MoveResult::Impossible;
        }
        if self.destination_barred(to, king_check) {
            return MoveResult::Illegal;
        }
        let is_king = matches!(piece, Piece::WKing | Piece::BKing);
        let two_files = to % 8 == from % 8 + 2 || from % 8 == to % 8 + 2;
        if !(is_king && two_files && to / 8 == from / 8) {
            return self.plain_move_result(from, to, promotion, king_check);
        }
        assert(self@.is_castle_attempt(from as int, to as int, king_check));
        if self.is_in_check(self.turn) {
            return MoveResult::Illegal;
        }
        let home: usize = match self.turn {
            Color::White => 4,
            Color::Black => 60,
        };
        if from != home {
            return MoveResult::Illegal;
        }
        let kingside = to > from;
        let side = match (self.turn, kingside) {
            (Color::White, true) => CastleSide::WhiteKing,
            (Color::White, false) => CastleSide::WhiteQueen,
            (Color::Black, true) => CastleSide::BlackKing,
            (Color::Black, false) => CastleSide::BlackQueen,
        };
        if !self.castle.contains(side) {
            return MoveResult::Illegal;
        }
        let lane_empty = if kingside {
            self.board.0[from + 1].is_none() && self.board.0[from + 2].is_none()
        } else {
            self.board.0[from - 1].is_none() && self.board.0[from - 2].is_none()
                && self.board.0[from - 3].is_none()
        };
        if !lane_empty {
            return MoveResult::Illegal;
        }
        let transit = if kingside {
            from + 1
        } else {
            from - 1
        };
        let next = self.after_move(from, transit, None);
        proof {
            in_check_ignores_clocks(
                next@,
                self@.apply_move(from as int, transit as int, None),
                self.turn,
            );
        }
        if next.is_in_check(self.turn) {
            return MoveResult::Illegal;
        }
        MoveResult::Valid
    }

    /// Whether the move from `from` to `to` fits and leaves the mover's own
    /// king out of check.
    fn fits_safely(&self, from: usize, to: usize, king_check: bool) -> (allowed: bool)
        ensures
            allowed == self@.fits_safely(from as int, to as int, king_check),
    {
        let fits = self.is_legal_checkless(from, to, Some(Promotion::Queen), king_check);
        if !matches!(fits, MoveResult::Valid) {
            return false;
        }
        let next = self.after_move(from, to, Some(Promotion::Queen));
        proof {
            in_check_ignores_clocks(
                next@,
                self@.apply_move(from as int, to as int, Some(Promotion::Queen)),
                self.turn,
            );
        }
        !next.is_in_check(self.turn)
    }

    /// The squares to which the piece on `loc` may go, in ascending order:
    /// every square for which the full rules, with a queen named for a
    /// promotion, give one of the outcomes of a legal move. The list is
    /// empty where `loc` holds no piece of the side to move.
    pub fn all_legal_moves(&self, loc: usize) -> (list: Vec<usize>)
        ensures
            forall|to: usize|
                list@.contains(to) <==> self@.legal_move(
                    loc as int,
                    to as int,
                    Some(Promotion::Queen),
                ).spec_is_ok(),
            forall|to: usize| list@.contains(to) <==> self@.is_destination(loc as int, to as int),
            forall|i: int, j: int| 0 <= i < j < list.len() ==> list[i] < list[j],
            !self@.holds_own_piece(loc as int) ==> list.len() == 0,
    {
        let mut list: Vec<usize> = Vec::new();
        let mut to: usize = 0;
        while to < 64
            invariant
                to <= 64,
                forall|t: usize|
                    list@.contains(t) <==> t < to && self@.is_destination(loc as int, t as int),
                forall|i: int, j: int| 0 <= i < j < list.len() ==> list[i] < list[j],
                forall|i: int| 0 <= i < list.len() ==> list[i] < to,
            decreases 64 - to,
        {
            if self.fits_safely(loc, to, true) {
                let ghost before = list@;
                list.push(to);
                assert forall|t: usize| list@.contains(t) <==> t < to + 1 && self@.is_destination(
                    loc as int,
                    t as int,
                ) by {
                    if before.contains(t) {
                        let i = choose|i: int| 0 <= i < before.len() && before[i] == t;
                        assert(list@[i] == t);
                    }
                    if t == to {
                        assert(list@[before.len() as int] == t);
                    }
                    if list@.contains(t) && t != to {
                        let i = choose|i: int| 0 <= i < list@.len() && list@[i] == t;
                        assert(before[i] == t);
                    }
                }
            }
            to += 1;
        }
        proof {
            if list.len() > 0 {
                assert(list@.contains(list@[0]));
            }
            assert forall|t: usize|
                self@.is_destination(loc as int, t as int) == self@.legal_move(
                    loc as int,
                    t as int,
                    Some(Promotion::Queen),
                ).spec_is_ok() by {
                destination_is_legal_move(self@, loc as int, t as int);
            }
        }
        list
    }

    /// Whether the side to move is stalemated: not in check, and without a
    /// move.
    pub fn is_stalemate(&self) -> (stalemate: bool)
        ensures
            stalemate == self@.is_stalemate(),
    {
        if self.is_in_check(self.turn) {
            return false;
        }
        let mut pos: usize = 0;
        while pos < 64
            invariant
                pos <= 64,
                forall|from: int, to: int| 0 <= from < pos ==> !self@.is_destination(from, to),
            decreases 64 - pos,
        {
            let list = self.all_legal_moves(pos);
            if list.len() > 0 {
                proof {
                    assert(list@.contains(list@[0]));
                    assert(self@.is_destination(pos as int, list@[0] as int));
                }
                return false;
            }
            assert forall|to: int| !self@.is_destination(pos as int, to) by {
                if 0 <= to < 64 {
                    assert(!list@.contains(to as usize));
                }
            }
            pos += 1;
        }
        assert forall|from: int, to: int| !self@.is_destination(from, to) by {}
        true
    }

    /// Whether the game is drawn: the half-move clock stands at 100, or
    /// the material on the board cannot mate.
    pub fn is_draw(&self) -> (draw: bool)
        ensures
            draw == self@.is_draw(),
    {
        self.hm_clock == 100 || self.material_draw()
    }

    /// Whether the material on the board cannot mate.
    fn material_draw(&self) -> (draw: bool)
        ensures
            draw == self@.material_draw(),
    {
        let mut count: usize = 0;
        let mut others: Vec<(usize, Piece)> = Vec::new();
        let mut pos: usize = 0;
        while pos < 64
            invariant
                pos <= 64,
                count <= pos,
                count == pieces_below(self@.board, pos as int).len(),
                others.len() == others_below(self@.board, pos as int).len(),
                forall|i: int|
                    0 <= i < others.len() ==> others[i].0 == others_below(
                        self@.board,
                        pos as int,
                    )[i].0 && others[i].1 == others_below(self@.board, pos as int)[i].1,
            decreases 64 - pos,
        {
            if let Some(piece) = self.board.0[pos] {
                count += 1;
                if !matches!(piece, Piece::WKing | Piece::BKing) {
                    others.push((pos, piece));
                }
            }
            pos += 1;
        }
        if count == 2 {
            true
        } else if count == 3 {
            others.len() == 1 && matches!(
                others[0].1,
                Piece::WKnight | Piece::WBishop | Piece::BKnight | Piece::BBishop
            )
        } else if count == 4 {
            others.len() == 2 && matches!(others[0].1, Piece::WBishop | Piece::BBishop) && matches!(
                others[1].1,
                Piece::WBishop | Piece::BBishop
            ) && others[0].1.color() != others[1].1.color() && others[0].0 % 2 == others[1].0 % 2
        } else {
            false
        }
    }

    /// Whether the side to move may take a king's step from `king`.
    fn king_can_step(&self, king: usize) -> (can: bool)
        requires
            king < 64,
        ensures
            can == self@.king_can_step(king as int),
    {
        let mut to: usize = 0;
        while to < 64
            invariant
                to <= 64,
                king < 64,
                forall|t: int|
                    0 <= t < to ==> !(crate::rules::is_king_step(king as int, t)
                        && self@.is_escape(king as int, t)),
            decreases 64 - to,
        {
            let fx = king % 8;
            let fy = king / 8;
            let tx = to % 8;
            let ty = to / 8;
            let near = to != king && tx + 1 >= fx && fx + 1 >= tx && ty + 1 >= fy && fy + 1 >= ty;
            if near && self.fits_safely(king, to, false) {
                assert(self@.is_escape(king as int, to as int));
                return true;
            }
            to += 1;
        }
        false
    }

    /// The squares on which a check on `player` can be met by a piece
    /// other than the king, and the en-passant target with them.
    fn block_squares(&self, player: Color) -> (marks: HashSet<usize>)
        ensures
            forall|sq: usize| marks@.contains(sq) <==> self@.is_block_square(player, sq as int),
    {
        broadcast use vstd::std_specs::hash::group_hash_axioms;

        let mut marks: HashSet<usize> = HashSet::new();
        if let Some(target) = self.en_passant {
            marks.insert(target.location());
        }
        let king = match self.find_king(player) {
            Some(king) => king,
            None => {
                return marks;
            },
        };
        let mut game = *self;
        game.turn = player.not();
        let mut pos: usize = 0;
        while pos < 64
            invariant
                pos <= 64,
                king < 64,
                self@.king_square(player) == Some(king as int),
                game@ == self@.with_turn(player.opposite()),
                forall|sq: usize| marks@.contains(sq) ==> self@.is_block_square(player, sq as int),
                forall|sq: usize|
                    (self@.en_passant matches Some(target) && target.spec_location() == sq)
                        ==> marks@.contains(sq),
                forall|p: int, sq: usize|
                    0 <= p < pos && #[trigger] self@.threat_from(p, king as int, player, sq as int)
                        ==> marks@.contains(sq),
            decreases 64 - pos,
        {
            if let Some(piece) = self.board.0[pos] {
                let is_king = matches!(piece, Piece::WKing | Piece::BKing);
                if piece.color() != player && !is_king {
                    let result = game.plain_move_result(pos, king, Some(Promotion::Queen), false);
                    if matches!(result, MoveResult::Valid) {
                        assert(self@.attacks(pos as int, king as int, player));
                        assert(self@.threat_from(pos as int, king as int, player, pos as int));
                        assert(self@.is_threat_square(player, pos as int));
                        marks.insert(pos);
                        let slider = matches!(
                            piece,
                            Piece::WBishop | Piece::BBishop | Piece::WRook | Piece::BRook
                                | Piece::WQueen | Piece::BQueen
                        );
                        if slider {
                            self.mark_between(&mut marks, pos, king, player);
                        }
                    }
                }
            }
            pos += 1;
        }
        assert forall|sq: usize| self@.is_block_square(player, sq as int) implies marks@.contains(
            sq,
        ) by {
            if self@.is_threat_square(player, sq as int) {
                let p = choose|p: int|
                    #[trigger] self@.threat_from(p, king as int, player, sq as int);
                assert(0 <= p < 64);
            }
        }
        marks
    }

    /// Adds the squares strictly between the checking slider on `pos` and
    /// the king on `king`.
    fn mark_between(&self, marks: &mut HashSet<usize>, pos: usize, king: usize, player: Color)
        requires
            pos < 64,
            king < 64,
            self@.king_square(player) == Some(king as int),
            self@.attacks(pos as int, king as int, player),
            self@.board[pos as int]->0.is_slider(),
            forall|sq: usize| old(marks)@.contains(sq) ==> self@.is_block_square(player, sq as int),
        ensures
            forall|sq: usize|
                final(marks)@.contains(sq) ==> self@.is_block_square(player, sq as int),
            forall|sq: usize| old(marks)@.contains(sq) ==> final(marks)@.contains(sq),
            forall|sq: usize|
                crate::rules::strictly_between(pos as int, king as int, sq as int)
                    ==> final(marks)@.contains(sq),
    {
        broadcast use vstd::std_specs::hash::group_hash_axioms;

        let ox: isize = (pos % 8) as isize;
        let oy: isize = (pos / 8) as isize;
        let dx: isize = (king % 8) as isize - ox;
        let dy: isize = (king / 8) as isize - oy;
        let rx: isize = if dx > 0 {
            1
        } else if dx < 0 {
            -1
        } else {
            0
        };
        let ry: isize = if dy > 0 {
            1
        } else if dy < 0 {
            -1
        } else {
            0
        };
        let ax: isize = if dx < 0 {
            -dx
        } else {
            dx
        };
        let ay: isize = if dy < 0 {
            -dy
        } else {
            dy
        };
        let steps: isize = if ax >= ay {
            ax
        } else {
            ay
        };
        let mut k: isize = 1;
        let mut cx: isize = ox + rx;
        let mut cy: isize = oy + ry;
        while k < steps
            invariant
                pos < 64,
                king < 64,
                self@.king_square(player) == Some(king as int),
                self@.attacks(pos as int, king as int, player),
                self@.board[pos as int]->0.is_slider(),
                ox == (pos % 8) as int,
                oy == (pos / 8) as int,
                dx == (king % 8) as int - ox,
                dy == (king / 8) as int - oy,
                rx == sign(dx as int),
                ry == sign(dy as int),
                steps == steps_between(pos as int, king as int),
                dx == 0 || dy == 0 || ax == ay,
                ax == crate::piece::abs(dx as int),
                ay == crate::piece::abs(dy as int),
                1 <= k,
                cx == ox + scaled(k as int, rx as int),
                cy == oy + scaled(k as int, ry as int),
                forall|sq: usize| marks@.contains(sq) ==> self@.is_block_square(player, sq as int),
                forall|sq: usize| old(marks)@.contains(sq) ==> marks@.contains(sq),
                forall|j: int|
                    0 < j < k ==> marks@.contains(
                        #[trigger] step_square(pos as int, king as int, j) as usize,
                    ),
            decreases steps - k,
        {
            let sq = (cy * 8 + cx) as usize;
            assert(sq == step_square(pos as int, king as int, k as int));
            assert(crate::rules::strictly_between(pos as int, king as int, sq as int));
            assert(self@.threat_from(pos as int, king as int, player, sq as int));
            assert(self@.is_threat_square(player, sq as int));
            marks.insert(sq);
            k += 1;
            cx += rx;
            cy += ry;
        }
        assert forall|sq: usize|
            crate::rules::strictly_between(pos as int, king as int, sq as int) implies marks@.contains(
            sq,
        ) by {
            let j = choose|j: int|
                0 < j < steps_between(pos as int, king as int) && sq as int == #[trigger] step_square(
                    pos as int,
                    king as int,
                    j,
                );
            assert(marks@.contains(step_square(pos as int, king as int, j) as usize));
        }
    }

    /// Whether `player` is mated, by the escape search: no step of the
    /// king, and no move of another piece onto the square of a checking
    /// piece, onto a square between a checking bishop, rook or queen and
    /// the king, or onto the en-passant target, leaves `player` out of
    /// check. The moves are judged as if it were `player`'s turn, and the
    /// enemy king is not spared.
    pub fn is_in_checkmate(&self, player: Color) -> (mate: bool)
        ensures
            mate == self@.in_checkmate(player),
    {
        broadcast use vstd::std_specs::hash::group_hash_axioms;

        let mut game = *self;
        game.turn = player;
        if let Some(king) = self.find_king(player) {
            if game.king_can_step(king) {
                return false;
            }
        }
        let marks = self.block_squares(player);
        let mut from: usize = 0;
        while from < 64
            invariant
                from <= 64,
                game@ == self@.with_turn(player),
                forall|sq: usize| marks@.contains(sq) <==> self@.is_block_square(player, sq as int),
                forall|f: int, t: int|
                    0 <= f < from && 0 <= t < 64 ==> !(self@.is_blocker(player, f)
                        && self@.is_block_square(player, t) && #[trigger] game@.is_escape(f, t)),
            decreases 64 - from,
        {
            let blocker = match self.board.0[from] {
                Some(piece) => piece.color() == player && !matches!(
                    piece,
                    Piece::WKing | Piece::BKing
                ),
                None => false,
            };
            if blocker {
                let mut to: usize = 0;
                while to < 64
                    invariant
                        to <= 64,
                        from < 64,
                        self@.is_blocker(player, from as int),
                        game@ == self@.with_turn(player),
                        forall|sq: usize|
                            marks@.contains(sq) <==> self@.is_block_square(player, sq as int),
                        forall|t: int|
                            0 <= t < to ==> !(self@.is_block_square(player, t)
                                && #[trigger] game@.is_escape(from as int, t)),
                    decreases 64 - to,
                {
                    if marks.contains(&to) && game.fits_safely(from, to, false) {
                        assert(game@.is_escape(from as int, to as int));
                        return false;
                    }
                    assert(!(self@.is_block_square(player, to as int) && game@.is_escape(
                        from as int,
                        to as int,
                    )));
                    to += 1;
                }
            }
            from += 1;
        }
        assert forall|f: int, t: int|
            !(self@.is_blocker(player, f) && self@.is_block_square(player, t)
                && #[trigger] game@.is_escape(f, t)) by {}
        true
    }

    /// How the position stands for the side to move: `Draw`, `Stalemate`,
    /// `Checkmate`, `Check`, or plain `Valid`. A draw is reported before
    /// anything else.
    pub fn outcome(&self) -> (result: MoveResult)
        ensures
            result == self@.outcome(),
    {
        if self.is_draw() {
            return MoveResult::Draw;
        }
        if !self.is_in_check(self.turn) {
            if self.is_stalemate() {
                return MoveResult::Stalemate;
            }
            MoveResult::Valid
        } else {
            if self.is_in_checkmate(self.turn) {
                return MoveResult::Checkmate;
            }
            MoveResult::Check
        }
    }

    /// The outcome of a proposed move under the full rules: what
    /// [`Game::is_legal_checkless`] says of a move that does not fit;
    /// `Illegal` for one that leaves the mover's own king in check; and
    /// for a legal move what it brings about: `Draw`, `Stalemate`,
    /// `Checkmate`, `Check`, or plain `Valid`.
    pub fn is_legal_move(&self, from: usize, to: usize, promotion: Option<Promotion>) -> (result:
        MoveResult)
        ensures
            result == self@.legal_move(from as int, to as int, promotion),
    {
        let fits = self.is_legal_checkless(from, to, promotion, true);
        if !matches!(fits, MoveResult::Valid) {
            return fits;
        }
        let next = self.after_move(from, to, promotion);
        let other = self.turn.not();
        proof {
            let after = self@.apply_move(from as int, to as int, promotion);
            in_check_ignores_clocks(next@, after, self.turn);
            in_check_ignores_clocks(next@, after, other);
            stalemate_ignores_clocks(next@, after);
            checkmate_ignores_clocks(next@, after, other);
        }
        if next.is_in_check(self.turn) {
            return MoveResult::Illegal;
        }
        let quiet = self.board.0[to].is_none() && !matches!(
            self.board.0[from],
            Some(Piece::WPawn) | Some(Piece::BPawn)
        );
        if (quiet && self.hm_clock == 99) || next.material_draw() {
            return MoveResult::Draw;
        }
        if !next.is_in_check(other) {
            if next.is_stalemate() {
                return MoveResult::Stalemate;
            }
            MoveResult::Valid
        } else {
            if next.is_in_checkmate(other) {
                return MoveResult::Checkmate;
            }
            MoveResult::Check
        }
    }

    /// Judges a proposed move under the full rules and, where it is
    /// legal, plays it. An outcome that is not one of a legal move leaves
    /// the position as it was.
    pub fn move_checked(&mut self, from: usize, to: usize, promotion: Option<Promotion>) -> (result:
        MoveResult)
        requires
            old(self)@.legal_move(from as int, to as int, promotion).spec_is_ok() ==> old(
                self,
            )@.clocks_allow(from as int, to as int),
        ensures
            result == old(self)@.legal_move(from as int, to as int, promotion),
            final(self)@ == if result.spec_is_ok() {
                old(self)@.apply_move(from as int, to as int, promotion)
            } else {
                old(self)@
            },
    {
        let result = self.is_legal_move(from, to, promotion);
        if matches!(
            result,
            MoveResult::Illegal | MoveResult::Impossible | MoveResult::MissingPromotion
        ) {
            return result;
        }
        self.move_unchecked(from, to, promotion);
        result
    }

    /// What the move from `from` to `to` would do besides bringing the
    /// piece to `to`: take the piece that stands there, take a pawn in
    /// passing, or bring the rook along with the king.
    pub fn side_effect(&self, from: usize, to: usize) -> (effect: SideEffect)
        ensures
            effect == self@.side_effect(from as int, to as int),
    {
        if from > 63 || to > 63 {
            return SideEffect::Nothing;
        }
        let piece = match self.board.0[from] {
            Some(piece) => piece,
            None => {
                return SideEffect::Nothing;
            },
        };
        let is_king = matches!(piece, Piece::WKing | Piece::BKing);
        let two_files = to % 8 == from % 8 + 2 || from % 8 == to % 8 + 2;
        let castle = is_king && two_files;
        if castle && ((to % 8 > from % 8 && from > 60) || (to % 8 < from % 8 && from < 4)) {
            return SideEffect::Nothing;
        }
        if matches!(piece, Piece::WPawn | Piece::BPawn) {
            if let Some(target) = self.en_passant {
                if target.location() == to {
                    return SideEffect::Passing { square: target.pawn_lost_pos() };
                }
            }
        }
        if castle {
            if to % 8 > from % 8 {
                SideEffect::Castle { rook_from: from + 3, rook_to: to - 1 }
            } else {
                SideEffect::Castle { rook_from: from - 4, rook_to: to + 1 }
            }
        } else if self.board.0[to].is_some() {
            SideEffect::Capture
        } else {
            SideEffect::Nothing
        }
    }

    /// Empties the square beyond the target where `piece`, landing on `to`,
    /// takes in passing.
    fn clear_passed_pawn(&mut self, piece: Piece, to: usize)
        requires
            to < 64,
        ensures
            final(self)@ == (PositionView {
                board: old(self)@.board_cleared(piece, to as int),
                ..old(self)@
            }),
    {
        let is_pawn = matches!(piece, Piece::WPawn | Piece::BPawn);
        if is_pawn {
            if let Some(target) = self.en_passant {
                if target.location() == to {
                    self.board.0[target.pawn_lost_pos()] = None;
                }
            }
        }
        assert(self.board@ =~= old(self)@.board_cleared(piece, to as int));
    }

    /// The castling rights that are left after `piece` has gone from
    /// `from` to `to`.
    fn rights_after(&self, piece: Piece, from: usize, to: usize) -> (rights: crate::position::CastleFlags)
        requires
            to < 64,
        ensures
            rights == self@.castle_after(piece, from as int, to as int),
    {
        let mut rights = self.castle;
        match piece {
            Piece::WRook => {
                if from == 0 {
                    rights.revoke(CastleSide::WhiteQueen);
                } else if from == 7 {
                    rights.revoke(CastleSide::WhiteKing);
                }
            },
            Piece::WKing => {
                rights.revoke_color(Color::White);
            },
            Piece::BRook => {
                if from == 56 {
                    rights.revoke(CastleSide::BlackQueen);
                } else if from == 63 {
                    rights.revoke(CastleSide::BlackKing);
                }
            },
            Piece::BKing => {
                rights.revoke_color(Color::Black);
            },
            _ => {},
        }
        assert(rights == self@.castle_after_leaving(piece, from as int));
        if matches!(self.board.0[to], Some(Piece::WRook) | Some(Piece::BRook)) {
            if to == 0 {
                rights.revoke(CastleSide::WhiteQueen);
            } else if to == 7 {
                rights.revoke(CastleSide::WhiteKing);
            } else if to == 56 {
                rights.revoke(CastleSide::BlackQueen);
            } else if to == 63 {
                rights.revoke(CastleSide::BlackKing);
            }
        }
        rights
    }

    /// Sets `piece` down on `to` and empties `from`.
    fn set_down(&mut self, piece: Piece, from: usize, to: usize, promotion: Option<Promotion>)
        requires
            from < 64,
            to < 64,
            PositionView::carries_rook(piece, from as int, to as int) ==> 0 <= castle_rook_from(
                from as int,
                to as int,
            ) < 64,
        ensures
            final(self)@ == (PositionView {
                board: PositionView::set_down(
                    old(self)@.board,
                    piece,
                    from as int,
                    to as int,
                    promotion,
                ),
                ..old(self)@
            }),
    {
        let color = piece.color();
        let is_pawn = matches!(piece, Piece::WPawn | Piece::BPawn);
        let is_king = matches!(piece, Piece::WKing | Piece::BKing);
        let far = match color {
            Color::White => to / 8 == 7,
            Color::Black => to / 8 == 0,
        };
        let file_from = from % 8;
        let file_to = to % 8;
        if is_pawn && promotion.is_some() && far {
            self.board.0[to] = Some(Piece::from_promotion(promotion.unwrap(), color));
        } else if is_king && (file_to == file_from + 2 || file_from == file_to + 2) {
            let (rook_from, rook_to) = if file_to > file_from {
                (from + 3, to - 1)
            } else {
                (from - 4, to + 1)
            };
            self.board.0[to] = Some(piece);
            self.board.0[rook_to] = self.board.0[rook_from];
            self.board.0[rook_from] = None;
        } else {
            self.board.0[to] = Some(piece);
        }
        self.board.0[from] = None;
        assert(self.board@ =~= PositionView::set_down(
            old(self)@.board,
            piece,
            from as int,
            to as int,
            promotion,
        ));
    }

    /// Applies the move of the piece on `from` to `to` without asking
    /// whether it is legal, and says whether there was a piece to move. It
    /// takes the pawn that is captured in passing, sets or clears the
    /// en-passant target, updates the clocks and the castling rights,
    /// promotes a pawn on its farthest rank if a promotion is named,
    /// brings the rook along when a king goes two files, and hands the
    /// turn over. With no piece on `from` nothing changes.
    pub fn move_unchecked(&mut self, from: usize, to: usize, promotion: Option<Promotion>) -> (moved:
        bool)
        requires
            old(self)@.appliable(from as int, to as int),
        ensures
            moved == (old(self)@.board[from as int] is Some),
            final(self)@ == old(self)@.apply_move(from as int, to as int, promotion),
    {
        let piece = match self.board.0[from] {
            Some(piece) => piece,
            None => {
                return false;
            },
        };
        let capture = self.board.0[to].is_some();
        let is_pawn = matches!(piece, Piece::WPawn | Piece::BPawn);
        let rights = self.rights_after(piece, from, to);

        if matches!(self.turn, Color::Black) {
            self.fm_clock += 1;
        }
        if is_pawn || capture {
            self.hm_clock = 0;
        } else {
            self.hm_clock += 1;
        }
        self.clear_passed_pawn(piece, to);
        let offering = is_pawn && ((to >= from && to - from == 16) || (from >= to && from - to
            == 16));
        self.en_passant = if offering {
            EnPassant::from_pawn_location(from)
        } else {
            None
        };
        self.castle = rights;
        self.set_down(piece, from, to, promotion);
        self.turn = self.turn.not();
        true
    }
}

} // verus!
