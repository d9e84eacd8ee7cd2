//! What holds of the text form of positions: a record that was written is
//! read back as the position it was written from.

use vstd::prelude::*;
use crate::piece::Piece;
use crate::position::{CastleFlags, EnPassant, PositionView};
use crate::fen::{
    board_rank,
    castle_text,
    cell_squares,
    decode,
    decode_board,
    decode_castle,
    decode_en_passant,
    decode_turn,
    empties,
    en_passant_text,
    encode,
    encode_board,
    expand,
    is_board_text,
    is_right_letter,
    letter_if,
    names_right,
    rank_text,
    ranks_text,
    rows_reversed,
    run_text,
    turn_text,
};
use crate::text::{
    decimal,
    decimal_is_digits,
    digit_char,
    free_of,
    is_digit,
    parse_decimal_is_within,
    parse_decimal_of_decimal,
    split,
    split_of_appended_field,
    split_of_field,
};

verus! {

/// One character stands for its own squares.
proof fn expand_of_one(c: char)
    ensures
        expand(seq![c]) == cell_squares(c),
{
    assert(seq![c].drop_last() =~= Seq::<char>::empty());
    assert(expand(Seq::<char>::empty()) =~= Seq::empty());
    assert(seq![c].last() == c);
    assert(expand(seq![c]) =~= cell_squares(c));
}

/// Two rows of characters end to end stand for their squares end to end.
pub proof fn expand_of_concat(a: Seq<char>, b: Seq<char>)
    ensures
        expand(a + b) == expand(a) + expand(b),
    decreases b.len(),
{
    if b.len() == 0 {
        assert(a + b =~= a);
        assert(expand(a) + expand(b) =~= expand(a));
    } else {
        expand_of_concat(a, b.drop_last());
        assert((a + b).drop_last() =~= a + b.drop_last());
        assert((a + b).last() == b.last());
        assert(expand(a + b) =~= expand(a) + expand(b));
    }
}

/// The text of a rank holds digits from 1 to 8 and piece letters only.
pub proof fn rank_text_is_plain(cells: Seq<Option<Piece>>, run: int)
    requires
        0 <= run,
        run + cells.len() <= 8,
    ensures
        free_of(rank_text(cells, run), '/'),
        free_of(rank_text(cells, run), ' '),
        is_board_text(rank_text(cells, run)),
    decreases cells.len(),
{
    if cells.len() > 0 {
        match cells[0] {
            None => {
                rank_text_is_plain(cells.drop_first(), run + 1);
            },
            Some(piece) => {
                rank_text_is_plain(cells.drop_first(), 0);
                piece.letter_round_trip();
            },
        }
    }
}

/// The text of a rank stands for the rank's squares.
pub proof fn expand_of_rank_text(cells: Seq<Option<Piece>>, run: int)
    requires
        0 <= run,
        run + cells.len() <= 8,
    ensures
        expand(rank_text(cells, run)) == empties(run) + cells,
    decreases cells.len(),
{
    if run > 0 {
        expand_of_one(digit_char(run));
        assert(is_digit(digit_char(run)));
    } else {
        assert(empties(0) =~= Seq::empty());
    }
    assert(expand(run_text(run)) =~= empties(run));
    if cells.len() == 0 {
        assert(empties(run) + cells =~= empties(run));
    } else {
        let rest = cells.drop_first();
        match cells[0] {
            None => {
                expand_of_rank_text(rest, run + 1);
                assert(empties(run + 1) + rest =~= empties(run) + cells);
            },
            Some(piece) => {
                expand_of_rank_text(rest, 0);
                let letter = piece.spec_letter();
                piece.letter_round_trip();
                expand_of_one(letter);
                assert(!is_digit(letter));
                expand_of_concat(run_text(run) + seq![letter], rank_text(rest, 0));
                expand_of_concat(run_text(run), seq![letter]);
                assert(empties(run) + seq![Some(piece)] + (empties(0) + rest) =~= empties(run)
                    + cells);
            },
        }
    }
}

/// The board field holds no space.
pub proof fn ranks_text_has_no_space(board: Seq<Option<Piece>>, down_to: int)
    requires
        board.len() == 64,
        0 <= down_to <= 7,
    ensures
        free_of(ranks_text(board, down_to), ' '),
        is_board_text(ranks_text(board, down_to)),
    decreases 7 - down_to,
{
    rank_text_is_plain(board_rank(board, down_to), 0);
    if down_to < 7 {
        ranks_text_has_no_space(board, down_to + 1);
    }
}

/// The text of the ranks from 7 down to `down_to` is read back as the
/// squares of those ranks.
pub proof fn ranks_text_read_back(board: Seq<Option<Piece>>, down_to: int)
    requires
        board.len() == 64,
        0 <= down_to <= 7,
    ensures
        expand(rows_reversed(split(ranks_text(board, down_to), '/'))) == board.subrange(
            8 * down_to,
            64,
        ),
    decreases 7 - down_to,
{
    let row = rank_text(board_rank(board, down_to), 0);
    rank_text_is_plain(board_rank(board, down_to), 0);
    expand_of_rank_text(board_rank(board, down_to), 0);
    assert(empties(0) + board_rank(board, down_to) =~= board_rank(board, down_to));
    if down_to >= 7 {
        split_of_field(row, '/');
        let rows = seq![row];
        assert(rows.drop_last() =~= Seq::<Seq<char>>::empty());
        assert(rows_reversed(Seq::<Seq<char>>::empty()) =~= Seq::empty());
        assert(rows.last() == row);
        assert(rows_reversed(rows) =~= row);
        assert(board_rank(board, 7) =~= board.subrange(56, 64));
    } else {
        let above = ranks_text(board, down_to + 1);
        ranks_text_read_back(board, down_to + 1);
        split_of_appended_field(above, row, '/');
        let rows = split(above, '/').push(row);
        assert(rows.drop_last() =~= split(above, '/'));
        assert(rows.last() == row);
        expand_of_concat(row, rows_reversed(split(above, '/')));
        assert(board_rank(board, down_to) + board.subrange(8 * (down_to + 1), 64)
            =~= board.subrange(8 * down_to, 64));
    }
}

/// A board field that was written is read back as the board.
pub proof fn board_round_trip(board: Seq<Option<Piece>>)
    requires
        board.len() == 64,
    ensures
        decode_board(encode_board(board)) == Some(board),
{
    ranks_text_read_back(board, 0);
    ranks_text_has_no_space(board, 0);
    assert(board.subrange(0, 64) =~= board);
}

/// A castling field that was written is read back as the rights, and
/// holds no space.
pub proof fn castle_round_trip(castle: CastleFlags)
    ensures
        decode_castle(castle_text(castle)) == Some(castle),
        free_of(castle_text(castle), ' '),
{
    let text = castle_text(castle);
    let k = letter_if(castle.wk, 'K');
    let q = letter_if(castle.wq, 'Q');
    let bk = letter_if(castle.bk, 'k');
    let bq = letter_if(castle.bq, 'q');
    let dash = letter_if(castle.is_none(), '-');
    assert(text == k + q + bk + bq + dash);
    if castle.is_none() {
        assert(text =~= seq!['-']);
    } else {
        assert(dash =~= Seq::<char>::empty());
        assert(text.len() > 0);
        assert(!(text =~= seq!['-'])) by {
            if text.len() == 1 {
                assert(text[0] != '-');
                assert(seq!['-'][0] == '-');
            }
        }
        assert forall|i: int| 0 <= i < text.len() implies is_right_letter(#[trigger] text[i]) by {}
        if castle.wk {
            assert(text[0] == 'K');
        }
        if castle.wq {
            assert(text[k.len() as int] == 'Q');
        }
        if castle.bk {
            assert(text[(k.len() + q.len()) as int] == 'k');
        }
        if castle.bq {
            assert(text[(k.len() + q.len() + bk.len()) as int] == 'q');
        }
        assert(names_right(text, 'K') == castle.wk);
        assert(names_right(text, 'Q') == castle.wq);
        assert(names_right(text, 'k') == castle.bk);
        assert(names_right(text, 'q') == castle.bq);
    }
}

/// An en-passant field that was written is read back as the target, and
/// holds no space.
pub proof fn en_passant_round_trip(en_passant: Option<EnPassant>)
    ensures
        decode_en_passant(en_passant_text(en_passant)) == Some(en_passant),
        free_of(en_passant_text(en_passant), ' '),
{
    match en_passant {
        None => {},
        Some(target) => {
            target.take_location_round_trip(target.spec_location());
            let text = en_passant_text(en_passant);
            assert(!(text =~= seq!['-']));
        },
    }
}

/// A number in decimal holds no space.
pub proof fn decimal_has_no_space(n: nat)
    ensures
        free_of(decimal(n), ' '),
{
    decimal_is_digits(n);
    assert forall|i: int| 0 <= i < decimal(n).len() implies decimal(n)[i] != ' ' by {
        assert(is_digit(decimal(n)[i]));
    }
}

/// Round trip: the record of a position is read back as that position,
/// with the same board, side to move, castling rights, en-passant target
/// and clocks.
pub proof fn record_round_trip(v: PositionView)
    requires
        v.wf(),
    ensures
        decode(encode(v)) == Some(v),
{
    let f0 = encode_board(v.board);
    let f1 = turn_text(v.turn);
    let f2 = castle_text(v.castle);
    let f3 = en_passant_text(v.en_passant);
    let f4 = decimal(v.hm_clock);
    let f5 = decimal(v.fm_clock);
    ranks_text_has_no_space(v.board, 0);
    castle_round_trip(v.castle);
    en_passant_round_trip(v.en_passant);
    decimal_has_no_space(v.hm_clock);
    decimal_has_no_space(v.fm_clock);
    split_of_field(f0, ' ');
    split_of_appended_field(f0, f1, ' ');
    split_of_appended_field(f0 + seq![' '] + f1, f2, ' ');
    split_of_appended_field(f0 + seq![' '] + f1 + seq![' '] + f2, f3, ' ');
    split_of_appended_field(f0 + seq![' '] + f1 + seq![' '] + f2 + seq![' '] + f3, f4, ' ');
    split_of_appended_field(
        f0 + seq![' '] + f1 + seq![' '] + f2 + seq![' '] + f3 + seq![' '] + f4,
        f5,
        ' ',
    );
    let fields = split(encode(v), ' ');
    assert(fields =~= seq![f0, f1, f2, f3, f4, f5]);
    board_round_trip(v.board);
    parse_decimal_of_decimal(v.hm_clock, u8::MAX as nat);
    parse_decimal_of_decimal(v.fm_clock, u16::MAX as nat);
    assert(decode_turn(f1) == Some(v.turn)) by {
        assert(seq!['b'][0] != seq!['w'][0]);
    }
}

/// Round trip, from the text: where a record is read as a position, the
/// record written from that position is read as the same position.
pub proof fn reread_gives_same_position(record: Seq<char>)
    requires
        decode(record) is Some,
    ensures
        decode(encode(decode(record)->0)) == decode(record),
{
    let v = decode(record)->0;
    let fields = split(record, ' ');
    assert(v.board == decode_board(fields[0])->0);
    assert(v.board.len() == 64);
    if fields.len() > 4 {
        parse_decimal_is_within(fields[4], u8::MAX as nat);
    }
    if fields.len() > 5 {
        parse_decimal_is_within(fields[5], u16::MAX as nat);
    }
    record_round_trip(v);
}

} // verus!
