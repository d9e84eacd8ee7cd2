//! What holds of the rules: relations between the definitions of
//! [`crate::rules`] that every position obeys.

use vstd::prelude::*;
use crate::piece::{abs, Color, Kind, Piece, Promotion};
use crate::position::{file_of, first_king_below, first_king_below_is_least, king_at, on_board, rank_of, CastleSide, PositionView};
use crate::rules::{
    castle_rook_from,
    castle_rook_to,
    is_king_step,
    others_below,
    pieces_below,
    sign,
    step_square,
    steps_between,
    strictly_between,
    MoveResult,
};

verus! {

/// The clocks play no part in whether a side is in check.
pub proof fn in_check_ignores_clocks(a: PositionView, b: PositionView, player: Color)
    requires
        a.board == b.board,
        a.en_passant == b.en_passant,
    ensures
        a.in_check(player) == b.in_check(player),
        forall|king: int, sq: int|
            a.threatens(king, player, sq) == b.threatens(king, player, sq),
        forall|sq: int| a.is_block_square(player, sq) == b.is_block_square(player, sq),
{
    assert forall|pos: int, king: int|
        a.attacks(pos, king, player) == b.attacks(pos, king, player) by {
        let x = a.with_turn(player.opposite());
        let y = b.with_turn(player.opposite());
        assert(x.path_clear(pos, king) == y.path_clear(pos, king));
    }
    assert forall|king: int, sq: int|
        a.threatens(king, player, sq) == b.threatens(king, player, sq) by {
        assert forall|pos: int|
            a.threat_from(pos, king, player, sq) == b.threat_from(pos, king, player, sq) by {}
    }
    match a.king_square(player) {
        Some(king) => {
            assert(a.attacked(king, player) == b.attacked(king, player));
        },
        None => {},
    }
}

/// The clocks play no part in whether a move fits and is safe.
pub proof fn fits_safely_ignores_clocks(
    a: PositionView,
    b: PositionView,
    from: int,
    to: int,
    king_check: bool,
)
    requires
        a.same_placement(b),
    ensures
        a.fits_safely(from, to, king_check) == b.fits_safely(from, to, king_check),
{
    let queen = Some(Promotion::Queen);
    let toward = sign(to - from);
    in_check_ignores_clocks(a, b, a.turn);
    in_check_ignores_clocks(
        a.apply_move(from, from + toward, None),
        b.apply_move(from, from + toward, None),
        a.turn,
    );
    in_check_ignores_clocks(a.apply_move(from, to, queen), b.apply_move(from, to, queen), a.turn);
    assert(a.path_clear(from, to) == b.path_clear(from, to));
    assert(a.legal_checkless(from, to, queen, king_check) == b.legal_checkless(
        from,
        to,
        queen,
        king_check,
    ));
}

/// The clocks play no part in whether the side to move is stalemated.
pub proof fn stalemate_ignores_clocks(a: PositionView, b: PositionView)
    requires
        a.same_placement(b),
    ensures
        a.is_stalemate() == b.is_stalemate(),
{
    in_check_ignores_clocks(a, b, a.turn);
    assert forall|from: int, to: int| a.is_destination(from, to) == b.is_destination(from, to) by {
        fits_safely_ignores_clocks(a, b, from, to, true);
    }
}

/// The clocks play no part in whether a side is mated.
pub proof fn checkmate_ignores_clocks(a: PositionView, b: PositionView, player: Color)
    requires
        a.same_placement(b),
    ensures
        a.in_checkmate(player) == b.in_checkmate(player),
{
    let x = a.with_turn(player);
    let y = b.with_turn(player);
    in_check_ignores_clocks(a, b, player);
    assert forall|from: int, to: int| x.is_escape(from, to) == y.is_escape(from, to) by {
        fits_safely_ignores_clocks(x, y, from, to, false);
    }
    match a.king_square(player) {
        Some(king) => {
            assert(x.king_can_step(king) == y.king_can_step(king));
        },
        None => {},
    }
    assert(a.block_escapes(player) == b.block_escapes(player));
}

/// Whether `board` holds at most one king of `color`.
pub open spec fn at_most_one_king(board: Seq<Option<Piece>>, color: Color) -> bool {
    forall|a: int, b: int|
        king_at(board, a, color) && king_at(board, b, color) ==> a == b
}

/// The destinations are the legal moves: the side to move may go from
/// `from` to `to` exactly when the full rules give the move, with a queen
/// named for a promotion, one of the outcomes of a legal move.
pub proof fn destination_is_legal_move(v: PositionView, from: int, to: int)
    ensures
        v.is_destination(from, to) == v.legal_move(
            from,
            to,
            Some(Promotion::Queen),
        ).spec_is_ok(),
{
}

/// A destination is an escape: what the full rules allow, the escape
/// search allows too.
pub proof fn destination_is_escape(v: PositionView, from: int, to: int)
    requires
        v.is_destination(from, to),
    ensures
        v.is_escape(from, to),
{
    assert(!v.destination_barred(to, true));
    assert(!v.destination_barred(to, false));
    assert(v.is_castle_attempt(from, to, true) == v.is_castle_attempt(from, to, false));
}

/// An escape that takes no king is a destination.
pub proof fn escape_is_destination(v: PositionView, from: int, to: int)
    requires
        v.is_escape(from, to),
        !(v.board[to] matches Some(piece) && piece.is_king()),
    ensures
        v.is_destination(from, to),
{
    assert(v.destination_barred(to, true) == v.destination_barred(to, false));
    assert(v.is_castle_attempt(from, to, true) == v.is_castle_attempt(from, to, false));
}

/// A square that holds no piece of the side to move has no destination.
pub proof fn no_destination_without_own_piece(v: PositionView, from: int, to: int)
    requires
        !v.holds_own_piece(from),
    ensures
        !v.is_destination(from, to),
{
}

/// A move that fits starts and ends on the board, and where it takes a
/// rook along, the rook starts on the board too.
pub proof fn fitting_move_is_in_reach(
    v: PositionView,
    from: int,
    to: int,
    promotion: Option<Promotion>,
    king_check: bool,
)
    requires
        v.legal_checkless(from, to, promotion, king_check) == MoveResult::Valid,
    ensures
        v.move_in_reach(from, to),
        v.board[from] is Some,
{
}

/// A move that fits can be carried out on a game whose clocks have room.
pub proof fn fitting_move_is_appliable(
    v: PositionView,
    from: int,
    to: int,
    promotion: Option<Promotion>,
    king_check: bool,
)
    requires
        v.legal_checkless(from, to, promotion, king_check) == MoveResult::Valid,
        v.clocks_have_room(),
    ensures
        v.appliable(from, to),
{
}

/// A move that fits leaves its origin empty and sets the piece down on
/// its destination: the piece itself, or what a pawn is promoted to on
/// its farthest rank.
pub proof fn fitting_move_settles_the_piece(
    v: PositionView,
    from: int,
    to: int,
    promotion: Option<Promotion>,
    king_check: bool,
)
    requires
        v.board.len() == 64,
        v.legal_checkless(from, to, promotion, king_check) == MoveResult::Valid,
    ensures
        from != to,
        v.apply_move(from, to, promotion).board.len() == 64,
        v.apply_move(from, to, promotion).board[from] is None,
        v.apply_move(from, to, promotion).board[to] == Some(
            if PositionView::promotes(v.board[from]->0, to, promotion) {
                Piece::of(Piece::promotion_kind(promotion->0), v.turn)
            } else {
                v.board[from]->0
            },
        ),
{
    let piece = v.board[from]->0;
    assert(!v.destination_barred(to, king_check));
    assert(from != to);
    if PositionView::carries_rook(piece, from, to) {
        assert(v.is_castle_attempt(from, to, king_check));
    }
}

/// 1 for an occupied square, 0 for an empty one.
pub open spec fn occupied(square: Option<Piece>) -> int {
    if square is Some {
        1
    } else {
        0
    }
}

/// What a change of one square does to the number of pieces.
proof fn count_after_update(board: Seq<Option<Piece>>, sq: int, square: Option<Piece>, below: int)
    requires
        0 <= sq < board.len(),
        0 <= below <= board.len(),
    ensures
        pieces_below(board.update(sq, square), below).len() == pieces_below(board, below).len()
            + if sq < below {
            occupied(square) - occupied(board[sq])
        } else {
            0
        },
    decreases below,
{
    if below > 0 {
        count_after_update(board, sq, square, below - 1);
    }
}

/// A move adds no piece: after a move the board holds no more pieces
/// than before it.
pub proof fn move_adds_no_piece(
    v: PositionView,
    from: int,
    to: int,
    promotion: Option<Promotion>,
)
    requires
        v.board.len() == 64,
        v.move_in_reach(from, to),
    ensures
        v.apply_move(from, to, promotion).pieces().len() <= v.pieces().len(),
{
    match v.board[from] {
        None => {},
        Some(piece) => {
            let cleared = v.board_cleared(piece, to);
            if v.takes_in_passing(piece, to) {
                count_after_update(v.board, v.en_passant->0.spec_pawn_lost_pos(), None, 64);
            }
            let rook_from = castle_rook_from(from, to);
            let rook_to = castle_rook_to(from, to);
            if PositionView::promotes(piece, to, promotion) {
                let placed = Some(Piece::of(Piece::promotion_kind(promotion->0), piece.spec_color()));
                count_after_update(cleared, to, placed, 64);
                count_after_update(cleared.update(to, placed), from, None, 64);
            } else if PositionView::carries_rook(piece, from, to) {
                let one = cleared.update(to, Some(piece));
                let two = one.update(rook_to, cleared[rook_from]);
                let three = two.update(rook_from, None);
                count_after_update(cleared, to, Some(piece), 64);
                count_after_update(one, rook_to, cleared[rook_from], 64);
                count_after_update(two, rook_from, None, 64);
                count_after_update(three, from, None, 64);
            } else {
                count_after_update(cleared, to, Some(piece), 64);
                count_after_update(cleared.update(to, Some(piece)), from, None, 64);
            }
        },
    }
}

/// Clocks with room allow every move.
pub proof fn clocks_with_room_allow(v: PositionView, from: int, to: int)
    requires
        v.clocks_have_room(),
    ensures
        v.clocks_allow(from, to),
{
}

/// Checkmate leaves no reply: where the full rules give `Checkmate` and
/// the side that is mated has at most one king, that side is in check
/// and has no move at all in the position that the move leaves.
pub proof fn checkmate_leaves_no_reply(
    v: PositionView,
    from: int,
    to: int,
    promotion: Option<Promotion>,
)
    requires
        v.board.len() == 64,
        at_most_one_king(v.board, v.turn.opposite()),
        v.legal_move(from, to, promotion) == MoveResult::Checkmate,
    ensures
        v.apply_move(from, to, promotion).in_check(v.turn.opposite()),
        !v.apply_move(from, to, promotion).has_reply(),
{
    let next = v.apply_move(from, to, promotion);
    let other = v.turn.opposite();
    fitting_move_is_in_reach(v, from, to, promotion, true);
    move_keeps_kings_single(v, from, to, promotion, other);
    assert(next.board.len() == 64);
    assert(next.with_turn(other) == next);
    mate_leaves_no_reply(next, other);
}

/// The half-move clock after a move: 0 after a pawn's move or a capture,
/// one more than before after any other move.
pub proof fn half_move_clock_after_move(
    v: PositionView,
    from: int,
    to: int,
    promotion: Option<Promotion>,
)
    requires
        v.board[from] is Some,
    ensures
        v.apply_move(from, to, promotion).hm_clock == if v.board[from]->0.is_pawn()
            || v.board[to] is Some {
            0
        } else {
            v.hm_clock + 1
        },
{
}

/// A move makes no second king: a board with at most one king of a
/// colour has at most one after any move.
pub proof fn move_keeps_kings_single(
    v: PositionView,
    from: int,
    to: int,
    promotion: Option<Promotion>,
    color: Color,
)
    requires
        v.board.len() == 64,
        v.move_in_reach(from, to),
        at_most_one_king(v.board, color),
    ensures
        at_most_one_king(v.apply_move(from, to, promotion).board, color),
{
    let next = v.apply_move(from, to, promotion).board;
    match v.board[from] {
        None => {},
        Some(piece) => {
            let cleared = v.board_cleared(piece, to);
            assert forall|sq: int| king_at(cleared, sq, color) implies king_at(
                v.board,
                sq,
                color,
            ) by {}
            let king = Some(Piece::of(Kind::King, color));
            let rook_from = castle_rook_from(from, to);
            assert forall|a: int, b: int|
                king_at(next, a, color) && king_at(next, b, color) implies a == b by {
                if piece == Piece::of(Kind::King, color) {
                    assert(king_at(v.board, from, color));
                    assert(!king_at(v.board, rook_from, color));
                    assert forall|sq: int| sq != from && on_board(sq) implies cleared[sq]
                        != king by {
                        if cleared[sq] == king {
                            assert(king_at(v.board, sq, color));
                        }
                    }
                } else {
                    if king_at(v.board, rook_from, color) {
                        assert forall|sq: int| sq != rook_from && on_board(sq) implies cleared[sq]
                            != king by {
                            if cleared[sq] == king {
                                assert(king_at(v.board, sq, color));
                            }
                        }
                    } else {
                        if next[a] == king && next[b] == king {
                            assert(king_at(v.board, a, color));
                            assert(king_at(v.board, b, color));
                        }
                    }
                }
            }
        },
    }
}

/// A move that fits makes no second king: a board with at most one king
/// of each colour has at most one of each after the move.
pub proof fn fitting_move_keeps_kings_single(
    v: PositionView,
    from: int,
    to: int,
    promotion: Option<Promotion>,
    king_check: bool,
)
    requires
        v.board.len() == 64,
        v.legal_checkless(from, to, promotion, king_check) == MoveResult::Valid,
        at_most_one_king(v.board, Color::White),
        at_most_one_king(v.board, Color::Black),
    ensures
        at_most_one_king(v.apply_move(from, to, promotion).board, Color::White),
        at_most_one_king(v.apply_move(from, to, promotion).board, Color::Black),
{
    fitting_move_is_in_reach(v, from, to, promotion, king_check);
    move_keeps_kings_single(v, from, to, promotion, Color::White);
    move_keeps_kings_single(v, from, to, promotion, Color::Black);
}

/// A legal move takes no king: a side that has a king before a legal
/// move has one after it. It is stated of positions in which no king
/// stands on the square beyond the en-passant target, where a pawn that
/// takes in passing would remove it.
pub proof fn legal_move_keeps_the_kings(
    v: PositionView,
    from: int,
    to: int,
    promotion: Option<Promotion>,
    color: Color,
)
    requires
        v.board.len() == 64,
        v.legal_move(from, to, promotion).spec_is_ok(),
        v.king_square(color) is Some,
        v.en_passant matches Some(target) ==> !(v.board[target.spec_pawn_lost_pos()] matches Some(
            piece,
        ) && piece.is_king()),
    ensures
        v.apply_move(from, to, promotion).king_square(color) is Some,
{
    let next = v.apply_move(from, to, promotion).board;
    let piece = v.board[from]->0;
    let king = v.king_square(color)->0;
    let rook_from = castle_rook_from(from, to);
    let rook_to = castle_rook_to(from, to);
    first_king_below_is_least(v.board, color, 64);
    first_king_below_is_least(next, color, 64);
    fitting_move_is_in_reach(v, from, to, promotion, true);
    assert(v.legal_checkless(from, to, promotion, true) == MoveResult::Valid);
    assert(!v.destination_barred(to, true));
    let cleared = v.board_cleared(piece, to);
    assert(cleared[king] == v.board[king]);
    if king == from {
        assert(king_at(next, to, color));
    } else if PositionView::carries_rook(piece, from, to) && king == rook_from {
        assert(v.is_castle_attempt(from, to, true));
        assert(king_at(next, rook_to, color));
    } else {
        assert(king != to);
        if PositionView::carries_rook(piece, from, to) {
            assert(v.is_castle_attempt(from, to, true));
            assert(king != rook_to);
        }
        assert(king_at(next, king, color));
    }
}

/// Castling over or onto an attacked square is illegal: where a king
/// would be in check on the square it passes over, or on the square it
/// castles to, the full rules give `Illegal`.
pub proof fn castling_through_attack_is_illegal(
    v: PositionView,
    from: int,
    to: int,
    promotion: Option<Promotion>,
)
    requires
        v.is_castle_attempt(from, to, true),
        v.apply_move(from, (from + to) / 2, None).in_check(v.turn) || v.apply_move(
            from,
            to,
            promotion,
        ).in_check(v.turn),
    ensures
        v.legal_move(from, to, promotion) == MoveResult::Illegal,
{
    assert(from + sign(to - from) == (from + to) / 2);
}

/// Castling while in check is illegal.
pub proof fn castling_out_of_check_is_illegal(
    v: PositionView,
    from: int,
    to: int,
    promotion: Option<Promotion>,
)
    requires
        v.is_castle_attempt(from, to, true),
        v.in_check(v.turn),
    ensures
        v.legal_move(from, to, promotion) == MoveResult::Illegal,
{
}

/// A side without any escape is mated by the escape search.
pub proof fn no_escape_is_mate(v: PositionView, player: Color)
    requires
        forall|from: int, to: int| !v.with_turn(player).is_escape(from, to),
    ensures
        v.in_checkmate(player),
{
}

/// Two pieces alone are a draw.
pub proof fn two_pieces_are_a_draw(v: PositionView)
    requires
        v.pieces().len() == 2,
    ensures
        v.is_draw(),
{
}

/// The pieces counted below a bound are no more than those counted below
/// a higher one.
proof fn counts_grow(v: PositionView, below: int, more: int)
    requires
        below <= more,
    ensures
        pieces_below(v.board, below).len() <= pieces_below(v.board, more).len(),
        others_below(v.board, below).len() <= others_below(v.board, more).len(),
    decreases more - below,
{
    if below < more {
        counts_grow(v, below, more - 1);
    }
}

/// What a piece that is no king adds to the count when it is put on an
/// empty square of a board without other such pieces.
proof fn counts_with_one_more(v: PositionView, sq: int, piece: Piece, below: int)
    requires
        v.board.len() == 64,
        0 <= below <= 64,
        on_board(sq),
        v.board[sq] is None,
        !piece.is_king(),
        v.others().len() == 0,
    ensures
        ({
            let w = PositionView { board: v.board.update(sq, Some(piece)), ..v };
            &&& pieces_below(w.board, below).len() == pieces_below(v.board, below).len() + if sq
                < below {
                1int
            } else {
                0int
            }
            &&& others_below(w.board, below) == if sq < below {
                seq![(sq, piece)]
            } else {
                Seq::empty()
            }
        }),
    decreases below,
{
    let w = PositionView { board: v.board.update(sq, Some(piece)), ..v };
    if below > 0 {
        counts_with_one_more(v, sq, piece, below - 1);
        counts_grow(v, below, 64);
        counts_grow(v, below - 1, below);
        if below - 1 == sq {
            assert(others_below(w.board, below) =~= seq![(sq, piece)]);
        } else {
            assert(w.board[below - 1] == v.board[below - 1]);
        }
    }
}

/// A third piece that is neither king, knight nor bishop ends the draw:
/// put on an empty square beside two kings, with the half-move clock not
/// at 100, it leaves a position that is no draw.
pub proof fn third_piece_ends_the_draw(v: PositionView, sq: int, piece: Piece)
    requires
        v.board.len() == 64,
        v.pieces().len() == 2,
        v.others().len() == 0,
        on_board(sq),
        v.board[sq] is None,
        !piece.is_king(),
        !PositionView::is_minor(piece),
        v.hm_clock != 100,
    ensures
        !(PositionView { board: v.board.update(sq, Some(piece)), ..v }).is_draw(),
{
    counts_with_one_more(v, sq, piece, 64);
}

/// The castling rights only shrink: a right held after a move was held
/// before it.
pub proof fn rights_never_come_back(
    v: PositionView,
    from: int,
    to: int,
    promotion: Option<Promotion>,
    side: CastleSide,
)
    ensures
        v.apply_move(from, to, promotion).castle.has(side) ==> v.castle.has(side),
{
}

/// The en-passant target lasts one reply: after a move there is a target
/// only if a pawn has just gone two ranks from its home rank, and the
/// target is then the square between.
pub proof fn en_passant_target_is_fresh(
    v: PositionView,
    from: int,
    to: int,
    promotion: Option<Promotion>,
)
    requires
        on_board(from),
        on_board(to),
        v.board[from] is Some,
    ensures
        v.apply_move(from, to, promotion).en_passant matches Some(target) ==> v.board[from]->0.is_pawn()
            && (rank_of(from) == 1 || rank_of(from) == 6) && abs(to - from) == 16
            && target.spec_location() == (from + to) / 2,
{
}

/// A double step offers the pawn: after a pawn has gone two ranks, an
/// enemy pawn that stands beside it may step onto the square that was
/// skipped, and that step takes the pawn that went past, leaving the
/// square on which it stood empty.
pub proof fn double_step_can_be_taken_in_passing(
    v: PositionView,
    from: int,
    to: int,
    beside: int,
)
    requires
        v.board.len() == 64,
        v.board[from] matches Some(piece) && piece.is_pawn(),
        v.plain_move_result(from, to, None, true) == MoveResult::Valid,
        abs(to - from) == 16,
        on_board(beside),
        rank_of(beside) == rank_of(to),
        abs(file_of(beside) - file_of(to)) == 1,
        v.board[beside] == Some(Piece::of(Kind::Pawn, v.turn.opposite())),
    ensures
        ({
            let next = v.apply_move(from, to, None);
            let skipped = (from + to) / 2;
            &&& next.en_passant matches Some(target) && target.spec_location() == skipped
            &&& next.plain_move_result(beside, skipped, None, true) == MoveResult::Valid
            &&& next.apply_move(beside, skipped, None).board[to] is None
            &&& next.apply_move(beside, skipped, None).board[skipped] == v.board[beside]
        }),
{
    let next = v.apply_move(from, to, None);
    let skipped = (from + to) / 2;
    let piece = v.board[from]->0;
    let taker = v.board[beside]->0;
    assert(v.pawn_move_fits(piece, from, to));
    assert(next.board[to] == Some(piece));
    assert(next.board[beside] == Some(taker));
    assert(next.board[skipped] is None);
    assert(next.pawn_move_fits(taker, beside, skipped));
    assert(next.takes_in_passing(taker, skipped));
}

/// A move hands the turn over.
pub proof fn move_hands_the_turn_over(
    v: PositionView,
    from: int,
    to: int,
    promotion: Option<Promotion>,
)
    requires
        v.board[from] is Some,
    ensures
        v.apply_move(from, to, promotion).turn == v.turn.opposite(),
        v.apply_move(from, to, promotion).fm_clock == v.fm_clock + if v.turn == Color::Black {
            1int
        } else {
            0int
        },
{
}

/// A proposal is `Impossible` exactly when it names no move of the side
/// to move: a square off the board, or an origin without a piece of that
/// side.
pub proof fn impossible_means_no_own_piece(
    v: PositionView,
    from: int,
    to: int,
    promotion: Option<Promotion>,
)
    ensures
        v.legal_move(from, to, promotion) == MoveResult::Impossible <==> !(on_board(to)
            && v.holds_own_piece(from)),
{
}

/// What stands on a square after a piece other than a king has moved.
proof fn board_after_plain_move(
    v: PositionView,
    piece: Piece,
    from: int,
    to: int,
    promotion: Option<Promotion>,
    sq: int,
)
    requires
        v.board.len() == 64,
        on_board(from),
        on_board(to),
        on_board(sq),
        from != to,
        !piece.is_king(),
    ensures
        v.board_after(piece, from, to, promotion)[sq] == if sq == from {
            None
        } else if sq == to {
            v.board_after(piece, from, to, promotion)[to]
        } else if v.takes_in_passing(piece, to) && sq == v.en_passant->0.spec_pawn_lost_pos() {
            None
        } else {
            v.board[sq]
        },
        v.board_after(piece, from, to, promotion)[to] matches Some(placed) && !placed.is_king()
            && placed.spec_color() == piece.spec_color(),
{
}

/// Whether `next` is `board` after a piece of `player` has come to `to`
/// from `from` and the piece on `lost`, if any, has gone.
spec fn moved_on(
    board: Seq<Option<Piece>>,
    next: Seq<Option<Piece>>,
    player: Color,
    from: int,
    to: int,
    lost: Option<int>,
) -> bool {
    &&& board.len() == 64
    &&& next.len() == 64
    &&& on_board(from)
    &&& on_board(to)
    &&& from != to
    &&& next[from] is None
    &&& next[to] matches Some(placed) && !placed.is_king() && placed.spec_color() == player
    &&& forall|sq: int|
        on_board(sq) && sq != from && sq != to ==> #[trigger] next[sq] == if lost == Some(sq) {
            None
        } else {
            board[sq]
        }
}

/// The board after a move of a piece other than a king, square by square.
proof fn plain_move_moves_on(v: PositionView, from: int, to: int, promotion: Option<Promotion>)
    requires
        v.board.len() == 64,
        on_board(from),
        on_board(to),
        from != to,
        v.board[from] matches Some(piece) && !piece.is_king() && piece.spec_color() == v.turn,
    ensures
        moved_on(
            v.board,
            v.apply_move(from, to, promotion).board,
            v.turn,
            from,
            to,
            if v.takes_in_passing(v.board[from]->0, to) {
                Some(v.en_passant->0.spec_pawn_lost_pos())
            } else {
                None
            },
        ),
{
    let piece = v.board[from]->0;
    let next = v.apply_move(from, to, promotion).board;
    assert forall|sq: int| on_board(sq) && sq != from && sq != to implies #[trigger] next[sq]
        == if v.takes_in_passing(piece, to) && v.en_passant->0.spec_pawn_lost_pos() == sq {
        None
    } else {
        v.board[sq]
    } by {
        board_after_plain_move(v, piece, from, to, promotion, sq);
    }
    board_after_plain_move(v, piece, from, to, promotion, to);
    board_after_plain_move(v, piece, from, to, promotion, from);
}

/// A king that did not move, was not taken and got no fellow is found
/// where it was.
proof fn king_stays_put(
    board: Seq<Option<Piece>>,
    next: Seq<Option<Piece>>,
    player: Color,
    from: int,
    to: int,
    lost: Option<int>,
    king: int,
)
    requires
        moved_on(board, next, player, from, to, lost),
        at_most_one_king(board, player),
        king_at(board, king, player),
        king != from,
        king != to,
        lost != Some(king),
    ensures
        first_king_below(next, player, 64) == Some(king),
{
    first_king_below_is_least(next, player, 64);
    assert(king_at(next, king, player));
    assert forall|sq: int| king_at(next, sq, player) implies sq == king by {
        assert(king_at(board, sq, player));
    }
}

/// An attack that a move has broken was broken on a block square: where
/// a piece gave check before a move and, still standing, gives none
/// after it, the piece is a bishop, rook or queen and the move ended
/// between it and the king.
proof fn broken_attack_was_blocked(
    v: PositionView,
    after: PositionView,
    player: Color,
    from: int,
    to: int,
    lost: Option<int>,
    king: int,
    assailant: int,
)
    requires
        moved_on(v.board, after.board, player, from, to, lost),
        king_at(v.board, king, player),
        king != from,
        king != to,
        lost != Some(king),
        v.attacks(assailant, king, player),
        !after.attacks(assailant, king, player),
        assailant != from,
        assailant != to,
        lost != Some(assailant),
    ensures
        v.board[assailant]->0.is_slider(),
        strictly_between(assailant, king, to),
{
    let queen = Some(Promotion::Queen);
    let next = after.board;
    let attacker = v.board[assailant]->0;
    let y = v.with_turn(player.opposite());
    let z = after.with_turn(player.opposite());
    assert(next[assailant] == v.board[assailant]);
    assert(next[king] == v.board[king]);
    assert(y.plain_move_result(assailant, king, queen, false) == MoveResult::Valid);
    assert(z.plain_move_result(assailant, king, queen, false) != MoveResult::Valid);
    assert(z.destination_barred(king, false) == y.destination_barred(king, false));
    if attacker.is_pawn() {
        assert(y.pawn_move_fits(attacker, assailant, king));
        assert(z.pawn_move_fits(attacker, assailant, king));
    } else {
        assert(attacker.is_slider());
        assert(y.path_clear(assailant, king));
        assert(!z.path_clear(assailant, king));
        let k = choose|k: int|
            0 < k < steps_between(assailant, king) && !(next[#[trigger] step_square(
                assailant,
                king,
                k,
            )] is None);
        let sq = step_square(assailant, king, k);
        assert(v.board[sq] is None);
        assert(on_board(sq));
        assert(sq == to);
    }
}

/// In check, the escape search misses no move: a move that gets the
/// side in check out of it is a step of its king or a move of another
/// piece onto a block square. It is stated of boards with at most one
/// king of that side.
pub proof fn escape_search_is_complete(v: PositionView, player: Color, from: int, to: int)
    requires
        v.board.len() == 64,
        at_most_one_king(v.board, player),
        v.in_check(player),
        v.with_turn(player).is_escape(from, to),
    ensures
        !v.in_checkmate(player),
{
    let x = v.with_turn(player);
    let queen = Some(Promotion::Queen);
    let king = v.king_square(player)->0;
    first_king_below_is_least(v.board, player, 64);
    in_check_ignores_clocks(v, x, player);
    let piece = x.board[from]->0;
    assert(!x.is_castle_attempt(from, to, false));
    assert(x.plain_move_result(from, to, queen, false) == MoveResult::Valid);
    assert(from != to);
    if piece.is_king() {
        assert(king_at(v.board, from, player));
        assert(is_king_step(king, to));
        assert(x.king_can_step(king));
    } else {
        assert(v.is_blocker(player, from));
        if !x.takes_in_passing(piece, to) {
            let after = x.apply_move(from, to, queen);
            plain_move_moves_on(x, from, to, queen);
            king_stays_put(v.board, after.board, player, from, to, None, king);
            assert(!after.attacked(king, player));
            let assailant = choose|pos: int| v.attacks(pos, king, player);
            assert(!after.attacks(assailant, king, player));
            if assailant != to {
                broken_attack_was_blocked(v, after, player, from, to, None, king, assailant);
            }
            assert(v.threat_from(assailant, king, player, to));
        }
        assert(v.is_block_square(player, to));
        assert(v.block_escapes(player));
    }
}

/// Mate is check without an escape: for a side in check, on a board with
/// at most one king of that side, the escape search finds mate exactly
/// when no move gets the side out of check.
pub proof fn mate_is_check_without_escape(v: PositionView, player: Color)
    requires
        v.board.len() == 64,
        at_most_one_king(v.board, player),
        v.in_check(player),
    ensures
        v.in_checkmate(player) <==> forall|from: int, to: int|
            !v.with_turn(player).is_escape(from, to),
{
    if exists|from: int, to: int| v.with_turn(player).is_escape(from, to) {
        let (from, to) = choose|from: int, to: int|
            #[trigger] v.with_turn(player).is_escape(from, to);
        escape_search_is_complete(v, player, from, to);
    }
}

/// Mate leaves no reply: a side in check that the escape search finds
/// mated, on a board with at most one king of that side, has no legal
/// move.
pub proof fn mate_leaves_no_reply(v: PositionView, player: Color)
    requires
        v.board.len() == 64,
        at_most_one_king(v.board, player),
        v.in_check(player),
        v.in_checkmate(player),
    ensures
        !v.with_turn(player).has_reply(),
{
    let x = v.with_turn(player);
    if x.has_reply() {
        let (from, to) = choose|from: int, to: int| #[trigger] x.is_destination(from, to);
        destination_is_escape(x, from, to);
        escape_search_is_complete(v, player, from, to);
    }
}

/// Mate is check without a reply: for a side in check that can take no
/// king, on a board with at most one king of that side, the escape
/// search finds mate exactly when the side has no legal move.
pub proof fn mate_is_check_without_reply(v: PositionView, player: Color)
    requires
        v.board.len() == 64,
        at_most_one_king(v.board, player),
        v.in_check(player),
        forall|from: int, to: int|
            #[trigger] v.with_turn(player).is_escape(from, to) ==> !(v.board[to] matches Some(
                piece,
            ) && piece.is_king()),
    ensures
        v.in_checkmate(player) <==> !v.with_turn(player).has_reply(),
{
    let x = v.with_turn(player);
    if v.in_checkmate(player) {
        mate_leaves_no_reply(v, player);
    } else {
        mate_is_check_without_escape(v, player);
        let (from, to) = choose|from: int, to: int| #[trigger] x.is_escape(from, to);
        escape_is_destination(x, from, to);
    }
}

} // verus!
