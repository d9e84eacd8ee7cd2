//! Positions as text: six fields separated by single spaces, in the
//! manner of Forsyth and Edwards. The board comes first, rank 8 down to
//! rank 1 with `/` between ranks, a digit for a run of empty squares and
//! a letter for a piece; then the side to move, the castling rights, the
//! en-passant target, the half-move clock and the full-move counter.

use vstd::prelude::*;
use crate::piece::{Color, Piece};
use crate::position::{Board, CastleFlags, EnPassant, Game, PositionView};
use crate::text::{
    chars_of,
    decimal,
    digit_char,
    digit_value,
    is_digit,
    parse_decimal,
    push_decimal,
    read_decimal,
    split,
    split_fields,
};

verus! {

// ----------------------------------------------------------------------
// The board field
// ----------------------------------------------------------------------
/// `n` empty squares.
pub open spec fn empties(n: int) -> Seq<Option<Piece>> {
    Seq::new(n as nat, |i: int| None::<Piece>)
}

/// Whether a character may stand in a row of a board field: a digit or
/// one of the twelve piece letters.
pub open spec fn is_cell(c: char) -> bool {
    is_digit(c) || Piece::spec_from_letter(c) is Some
}

/// Whether a board field holds nothing but rows of digits and piece
/// letters with `/` between them.
pub open spec fn is_board_text(field: Seq<char>) -> bool {
    forall|i: int| 0 <= i < field.len() ==> #[trigger] field[i] == '/' || is_cell(field[i])
}

/// The squares that one character of a board field stands for: a digit
/// for that many empty squares, a piece letter for its piece.
pub open spec fn cell_squares(c: char) -> Seq<Option<Piece>> {
    if is_digit(c) {
        empties(digit_value(c))
    } else {
        match Piece::spec_from_letter(c) {
            Some(piece) => seq![Some(piece)],
            None => Seq::empty(),
        }
    }
}

/// The squares that a row of characters stands for.
pub open spec fn expand(cs: Seq<char>) -> Seq<Option<Piece>>
    decreases cs.len(),
{
    if cs.len() == 0 {
        Seq::empty()
    } else {
        expand(cs.drop_last()) + cell_squares(cs.last())
    }
}

/// The rows of a board field put end to end, the last row first.
pub open spec fn rows_reversed(rows: Seq<Seq<char>>) -> Seq<char>
    decreases rows.len(),
{
    if rows.len() == 0 {
        Seq::empty()
    } else {
        rows.last() + rows_reversed(rows.drop_last())
    }
}

/// The board that a board field stands for: the rows between `/`, the
/// last first, expanded to squares. There is none where the field holds a
/// character that is neither `/`, a digit nor a piece letter, or where
/// the squares are not exactly 64.
pub open spec fn decode_board(field: Seq<char>) -> Option<Seq<Option<Piece>>> {
    let squares = expand(rows_reversed(split(field, '/')));
    if is_board_text(field) && squares.len() == 64 {
        Some(squares)
    } else {
        None
    }
}

/// The digit for a run of empty squares, nothing for no run.
pub open spec fn run_text(run: int) -> Seq<char> {
    if run == 0 {
        Seq::empty()
    } else {
        seq![digit_char(run)]
    }
}

/// The text for `cells`, with `run` empty squares already counted before
/// them.
pub open spec fn rank_text(cells: Seq<Option<Piece>>, run: int) -> Seq<char>
    decreases cells.len(),
{
    if cells.len() == 0 {
        run_text(run)
    } else {
        match cells[0] {
            None => rank_text(cells.drop_first(), run + 1),
            Some(piece) => run_text(run) + seq![piece.spec_letter()] + rank_text(
                cells.drop_first(),
                0,
            ),
        }
    }
}

/// The eight squares of rank `y`.
pub open spec fn board_rank(board: Seq<Option<Piece>>, y: int) -> Seq<Option<Piece>> {
    board.subrange(8 * y, 8 * y + 8)
}

/// The text of ranks 7 down to `down_to`, with `/` between ranks.
pub open spec fn ranks_text(board: Seq<Option<Piece>>, down_to: int) -> Seq<char>
    decreases 7 - down_to,
{
    if down_to >= 7 {
        rank_text(board_rank(board, 7), 0)
    } else {
        ranks_text(board, down_to + 1) + seq!['/'] + rank_text(board_rank(board, down_to), 0)
    }
}

/// The board field of a board.
pub open spec fn encode_board(board: Seq<Option<Piece>>) -> Seq<char> {
    ranks_text(board, 0)
}

// ----------------------------------------------------------------------
// The other fields
// ----------------------------------------------------------------------
/// The field for the side to move.
pub open spec fn turn_text(turn: Color) -> Seq<char> {
    match turn {
        Color::White => seq!['w'],
        Color::Black => seq!['b'],
    }
}

/// The side that a turn field names: White for `w`, Black for `b`, and
/// none for anything else.
pub open spec fn decode_turn(field: Seq<char>) -> Option<Color> {
    if field == seq!['w'] {
        Some(Color::White)
    } else if field == seq!['b'] {
        Some(Color::Black)
    } else {
        None
    }
}

/// `c` if `present`, nothing otherwise.
pub open spec fn letter_if(present: bool, c: char) -> Seq<char> {
    if present {
        seq![c]
    } else {
        Seq::empty()
    }
}

/// The field for castling rights: the letters `K`, `Q`, `k`, `q` of the
/// rights held, in that order, or `-` for none.
pub open spec fn castle_text(castle: CastleFlags) -> Seq<char> {
    letter_if(castle.wk, 'K') + letter_if(castle.wq, 'Q') + letter_if(castle.bk, 'k') + letter_if(
        castle.bq,
        'q',
    ) + letter_if(castle.is_none(), '-')
}

/// Whether `c` is one of the four letters that name a castling right.
pub open spec fn is_right_letter(c: char) -> bool {
    c == 'K' || c == 'Q' || c == 'k' || c == 'q'
}

/// Whether `c` occurs in `field`.
pub open spec fn names_right(field: Seq<char>, c: char) -> bool {
    exists|i: int| 0 <= i < field.len() && #[trigger] field[i] == c
}

/// The rights that a castling field names: none for `-`; otherwise the
/// field must be one or more of the letters `K`, `Q`, `k`, `q` and names
/// the rights whose letters occur. Any other field is malformed.
pub open spec fn decode_castle(field: Seq<char>) -> Option<CastleFlags> {
    if field == seq!['-'] {
        Some(CastleFlags { wk: false, wq: false, bk: false, bq: false })
    } else if field.len() > 0 && (forall|i: int|
        0 <= i < field.len() ==> is_right_letter(#[trigger] field[i])) {
        Some(
            CastleFlags {
                wk: names_right(field, 'K'),
                wq: names_right(field, 'Q'),
                bk: names_right(field, 'k'),
                bq: names_right(field, 'q'),
            },
        )
    } else {
        None
    }
}

/// The field for the en-passant target: file letter and rank digit of the
/// target square, or `-` for none.
pub open spec fn en_passant_text(en_passant: Option<EnPassant>) -> Seq<char> {
    match en_passant {
        None => seq!['-'],
        Some(target) => seq![
            (target.spec_location() % 8 + 97) as char,
            (target.spec_location() / 8 + 49) as char,
        ],
    }
}

/// What an en-passant field names. `-` names no target. Otherwise the
/// field must be a file letter from `a` to `h` and the rank digit `3` or
/// `6`, and names the target on that square. Any other field is
/// malformed.
pub open spec fn decode_en_passant(field: Seq<char>) -> Option<Option<EnPassant>> {
    if field == seq!['-'] {
        Some(None)
    } else if field.len() == 2 && 'a' <= field[0] <= 'h' && (field[1] == '3' || field[1] == '6') {
        Some(
            EnPassant::spec_from_take_location(
                (field[1] as int - 49) * 8 + (field[0] as int - 97),
            ),
        )
    } else {
        None
    }
}

// ----------------------------------------------------------------------
// The record
// ----------------------------------------------------------------------
/// The record of a position.
pub open spec fn encode(v: PositionView) -> Seq<char> {
    encode_board(v.board) + seq![' '] + turn_text(v.turn) + seq![' '] + castle_text(v.castle)
        + seq![' '] + en_passant_text(v.en_passant) + seq![' '] + decimal(v.hm_clock) + seq![' ']
        + decimal(v.fm_clock)
}

/// The clock in field `index` of `fields`, or `default` where the record
/// has no such field.
pub open spec fn decode_clock(fields: Seq<Seq<char>>, index: int, default: nat, max: nat)
    -> Option<nat> {
    if fields.len() > index {
        parse_decimal(fields[index], max)
    } else {
        Some(default)
    }
}

/// The position that a record stands for. A record has four to six
/// fields: the clocks may be missing and are then 0 and 1. There is no
/// position where the number of fields is another or any field is
/// malformed: a board field that does not make 64 squares or holds a
/// foreign character, a turn field that is neither `w` nor `b`, a
/// castling or en-passant field of another form, a clock that is no
/// number that fits.
pub open spec fn decode(record: Seq<char>) -> Option<PositionView> {
    let fields = split(record, ' ');
    if fields.len() < 4 || fields.len() > 6 {
        None
    } else {
        match (
            decode_board(fields[0]),
            decode_turn(fields[1]),
            decode_castle(fields[2]),
            decode_en_passant(fields[3]),
            decode_clock(fields, 4, 0, u8::MAX as nat),
            decode_clock(fields, 5, 1, u16::MAX as nat),
        ) {
            (
                Some(board),
                Some(turn),
                Some(castle),
                Some(en_passant),
                Some(hm_clock),
                Some(fm_clock),
            ) => Some(PositionView { board, en_passant, castle, turn, hm_clock, fm_clock }),
            _ => None,
        }
    }
}

// ----------------------------------------------------------------------
// Reading
// ----------------------------------------------------------------------
/// Appends to `squares` what the characters of `row` stand for.
fn expand_row(squares: &mut Vec<Option<Piece>>, row: &Vec<char>, Ghost(done): Ghost<Seq<char>>)
    requires
        old(squares)@ == expand(done),
    ensures
        final(squares)@ == expand(done + row@),
{
    let mut j: usize = 0;
    assert(done + row@.take(0) =~= done);
    while j < row.len()
        invariant
            j <= row.len(),
            squares@ == expand(done + row@.take(j as int)),
        decreases row.len() - j,
    {
        let c = row[j];
        let ghost so_far = done + row@.take(j as int);
        let ghost next = done + row@.take(j + 1);
        assert(next.drop_last() =~= so_far);
        assert(next.last() == c);
        if c >= '0' && c <= '9' {
            let n: u32 = c as u32 - 48;
            let mut k: u32 = 0;
            while k < n
                invariant
                    k <= n,
                    squares@ == expand(so_far) + empties(k as int),
                decreases n - k,
            {
                squares.push(None);
                assert(squares@ =~= expand(so_far) + empties(k + 1));
                k += 1;
            }
        } else {
            match Piece::from_letter(c) {
                Some(piece) => {
                    squares.push(Some(piece));
                },
                None => {},
            }
        }
        assert(squares@ =~= expand(next));
        j += 1;
    }
    assert(done + row@.take(j as int) =~= done + row@);
}

/// The board that the characters of a board field stand for.
fn board_from_chars(field: &Vec<char>) -> (board: Option<Board>)
    ensures
        match board {
            Some(b) => decode_board(field@) == Some(b@),
            None => decode_board(field@) is None,
        },
{
    let mut at: usize = 0;
    while at < field.len()
        invariant
            at <= field.len(),
            forall|i: int| 0 <= i < at ==> #[trigger] field[i] == '/' || is_cell(field[i]),
        decreases field.len() - at,
    {
        let c = field[at];
        if c != '/' && !(c >= '0' && c <= '9') && Piece::from_letter(c).is_none() {
            return None;
        }
        at += 1;
    }
    let rows = split_fields(field, '/');
    let ghost row_texts = split(field@, '/');
    let mut squares: Vec<Option<Piece>> = Vec::new();
    let mut done: Ghost<Seq<char>> = Ghost(Seq::empty());
    let mut r: usize = rows.len();
    assert(row_texts.take(r as int) =~= row_texts);
    while r > 0
        invariant
            r <= rows.len(),
            rows.len() == row_texts.len(),
            forall|i: int| 0 <= i < rows.len() ==> rows[i]@ == row_texts[i],
            squares@ == expand(done@),
            done@ + rows_reversed(row_texts.take(r as int)) == rows_reversed(row_texts),
        decreases r,
    {
        r -= 1;
        proof {
            let upto = row_texts.take(r + 1);
            assert(upto.last() == rows[r as int]@);
            assert(upto.drop_last() =~= row_texts.take(r as int));
            assert((done@ + rows[r as int]@) + rows_reversed(row_texts.take(r as int)) =~= done@
                + rows_reversed(upto));
        }
        expand_row(&mut squares, &rows[r], Ghost(done@));
        proof {
            done@ = done@ + rows[r as int]@;
        }
    }
    assert(row_texts.take(0) =~= Seq::empty());
    assert(done@ =~= rows_reversed(row_texts));
    if squares.len() != 64 {
        return None;
    }
    let mut cells: [Option<Piece>; 64] = [None;64];
    let mut i: usize = 0;
    while i < 64
        invariant
            i <= 64,
            squares.len() == 64,
            forall|j: int| 0 <= j < i ==> cells[j] == squares[j],
        decreases 64 - i,
    {
        cells[i] = squares[i];
        i += 1;
    }
    let board = Board(cells);
    assert(board@ =~= squares@);
    Some(board)
}

/// The rights that a castling field names; `None` where it is malformed.
fn castle_from_chars(field: &Vec<char>) -> (castle: Option<CastleFlags>)
    ensures
        castle == decode_castle(field@),
{
    if field.len() == 1 && field[0] == '-' {
        assert(field@ =~= seq!['-']);
        return Some(CastleFlags::none());
    }
    if field.len() == 0 {
        return None;
    }
    let mut castle = CastleFlags::none();
    let mut i: usize = 0;
    while i < field.len()
        invariant
            i <= field.len(),
            field.len() > 0,
            !(field.len() == 1 && field[0] == '-'),
            forall|j: int| 0 <= j < i ==> is_right_letter(#[trigger] field[j]),
            castle.wk == (exists|j: int| 0 <= j < i && #[trigger] field[j] == 'K'),
            castle.wq == (exists|j: int| 0 <= j < i && #[trigger] field[j] == 'Q'),
            castle.bk == (exists|j: int| 0 <= j < i && #[trigger] field[j] == 'k'),
            castle.bq == (exists|j: int| 0 <= j < i && #[trigger] field[j] == 'q'),
        decreases field.len() - i,
    {
        let c = field[i];
        if c == 'K' {
            castle.wk = true;
        } else if c == 'Q' {
            castle.wq = true;
        } else if c == 'k' {
            castle.bk = true;
        } else if c == 'q' {
            castle.bq = true;
        } else {
            assert(!is_right_letter(field@[i as int]));
            assert(seq!['-'].len() == 1 && seq!['-'][0] == '-');
            return None;
        }
        i += 1;
    }
    assert(is_right_letter(field@[0]));
    assert(seq!['-'][0] == '-');
    Some(castle)
}

/// What an en-passant field names; `None` where it is malformed.
fn en_passant_from_chars(field: &Vec<char>) -> (target: Option<Option<EnPassant>>)
    ensures
        target == decode_en_passant(field@),
{
    if field.len() == 1 && field[0] == '-' {
        assert(field@ =~= seq!['-']);
        return Some(None);
    }
    if field.len() != 2 {
        return None;
    }
    let file = field[0];
    let rank = field[1];
    if !(file >= 'a' && file <= 'h' && (rank == '3' || rank == '6')) {
        return None;
    }
    let x: usize = (file as u32 - 97) as usize;
    let y: usize = (rank as u32 - 49) as usize;
    Some(EnPassant::from_take_location(y * 8 + x))
}

/// Appends the field for the side to move.
fn push_turn(out: &mut String, turn: Color)
    ensures
        final(out)@ == old(out)@ + turn_text(turn),
{
    match turn {
        Color::White => {
            out.push('w');
        },
        Color::Black => {
            out.push('b');
        },
    }
    assert(out@ =~= old(out)@ + turn_text(turn));
}

/// Appends the field for the castling rights.
fn push_castle(out: &mut String, castle: CastleFlags)
    ensures
        final(out)@ == old(out)@ + castle_text(castle),
{
    let ghost base = out@;
    if castle.wk {
        out.push('K');
    }
    let ghost one = base + letter_if(castle.wk, 'K');
    assert(out@ =~= one);
    if castle.wq {
        out.push('Q');
    }
    let ghost two = one + letter_if(castle.wq, 'Q');
    assert(out@ =~= two);
    if castle.bk {
        out.push('k');
    }
    let ghost three = two + letter_if(castle.bk, 'k');
    assert(out@ =~= three);
    if castle.bq {
        out.push('q');
    }
    let ghost four = three + letter_if(castle.bq, 'q');
    assert(out@ =~= four);
    if !castle.wk && !castle.wq && !castle.bk && !castle.bq {
        out.push('-');
    }
    assert(out@ =~= four + letter_if(castle.is_none(), '-'));
    assert(out@ =~= base + castle_text(castle));
}

/// Appends the field for the en-passant target.
fn push_en_passant(out: &mut String, en_passant: Option<EnPassant>)
    ensures
        final(out)@ == old(out)@ + en_passant_text(en_passant),
{
    match en_passant {
        Some(target) => {
            let location = target.location();
            let x = ((location % 8) as u8 + 97u8) as char;
            let y = ((location / 8) as u8 + 49u8) as char;
            out.push(x);
            out.push(y);
        },
        None => {
            out.push('-');
        },
    }
    assert(out@ =~= old(out)@ + en_passant_text(en_passant));
}

impl Board {
    /// Reads a board field. There is no board unless the field stands for
    /// exactly 64 squares.
    pub fn from_fen_board(fen_board: &str) -> (board: Option<Board>)
        ensures
            match board {
                Some(b) => decode_board(fen_board@) == Some(b@),
                None => decode_board(fen_board@) is None,
            },
    {
        let chars = chars_of(fen_board);
        board_from_chars(&chars)
    }

    /// Appends the text of rank `y` to `out`.
    fn push_rank(&self, out: &mut String, y: usize)
        requires
            y < 8,
        ensures
            final(out)@ == old(out)@ + rank_text(board_rank(self@, y as int), 0),
    {
        let ghost cells = board_rank(self@, y as int);
        let ghost start = out@;
        let mut run: u8 = 0;
        let mut x: usize = 0;
        let mut written: Ghost<Seq<char>> = Ghost(Seq::empty());
        assert(cells.skip(0) =~= cells);
        assert(start + written@ =~= start);
        while x < 8
            invariant
                x <= 8,
                y < 8,
                run <= x,
                cells == board_rank(self@, y as int),
                out@ == start + written@,
                written@ + rank_text(cells.skip(x as int), run as int) == rank_text(cells, 0),
            decreases 8 - x,
        {
            let ghost rest = cells.skip(x as int);
            assert(rest[0] == self@[y * 8 + x]);
            assert(rest.drop_first() =~= cells.skip(x + 1));
            match self.0[y * 8 + x] {
                Some(piece) => {
                    let ghost mut added = Seq::<char>::empty();
                    if run != 0 {
                        let digit = (run + 48u8) as char;
                        out.push(digit);
                        proof {
                            added = seq![digit];
                        }
                    }
                    assert(added =~= run_text(run as int));
                    let letter = piece.to_letter();
                    out.push(letter);
                    proof {
                        let more = added + seq![letter];
                        assert(out@ =~= start + (written@ + more));
                        assert((written@ + more) + rank_text(cells.skip(x + 1), 0) =~= written@
                            + rank_text(rest, run as int));
                        written@ = written@ + more;
                    }
                    run = 0;
                },
                None => {
                    run += 1;
                },
            }
            x += 1;
        }
        assert(cells.skip(8).len() == 0);
        if run != 0 {
            let digit = (run + 48u8) as char;
            out.push(digit);
            assert(out@ =~= start + (written@ + seq![digit]));
        } else {
            assert(written@ + Seq::<char>::empty() =~= written@);
        }
    }

    /// Writes the board field: rank 8 first, `/` between ranks, a digit
    /// for each run of empty squares and a letter for each piece.
    pub fn into_fen_board(self) -> (text: String)
        ensures
            text@ == encode_board(self@),
    {
        let mut text = String::new();
        self.push_rank(&mut text, 7);
        assert(text@ =~= ranks_text(self@, 7));
        let mut y: usize = 7;
        while y > 0
            invariant
                y <= 7,
                text@ == ranks_text(self@, y as int),
            decreases y,
        {
            y -= 1;
            let ghost before = text@;
            text.push('/');
            self.push_rank(&mut text, y);
            assert(text@ =~= before + seq!['/'] + rank_text(board_rank(self@, y as int), 0));
        }
        text
    }
}

impl Game {
    /// Writes the record of the position.
    pub fn as_fen(&self) -> (fen: String)
        ensures
            fen@ == encode(self@),
    {
        let mut fen = self.board.into_fen_board();
        fen.push(' ');
        push_turn(&mut fen, self.turn);
        fen.push(' ');
        push_castle(&mut fen, self.castle);
        fen.push(' ');
        push_en_passant(&mut fen, self.en_passant);
        fen.push(' ');
        push_decimal(&mut fen, self.hm_clock as u64);
        fen.push(' ');
        push_decimal(&mut fen, self.fm_clock as u64);
        assert(fen@ =~= encode(self@));
        fen
    }

    /// Reads the record of a position. The clocks may be missing and are
    /// then 0 and 1; the other four fields must be there, and nothing may
    /// follow the clocks. There is no result where any field is
    /// malformed.
    pub fn from_fen(fen: &str) -> (game: Option<Game>)
        ensures
            match game {
                Some(g) => decode(fen@) == Some(g@),
                None => decode(fen@) is None,
            },
    {
        let chars = chars_of(fen);
        let fields = split_fields(&chars, ' ');
        let ghost texts = split(fen@, ' ');
        if fields.len() < 4 || fields.len() > 6 {
            return None;
        }
        assert(fields[0]@ == texts[0] && fields[1]@ == texts[1] && fields[2]@ == texts[2]
            && fields[3]@ == texts[3]);
        let board = match board_from_chars(&fields[0]) {
            Some(board) => board,
            None => {
                return None;
            },
        };
        let turn = if fields[1].len() == 1 && fields[1][0] == 'w' {
            assert(fields[1]@ =~= seq!['w']);
            Color::White
        } else if fields[1].len() == 1 && fields[1][0] == 'b' {
            assert(fields[1]@ =~= seq!['b']);
            Color::Black
        } else {
            assert(seq!['w'].len() == 1 && seq!['w'][0] == 'w');
            assert(seq!['b'].len() == 1 && seq!['b'][0] == 'b');
            return None;
        };
        let castle = match castle_from_chars(&fields[2]) {
            Some(castle) => castle,
            None => {
                return None;
            },
        };
        let en_passant = match en_passant_from_chars(&fields[3]) {
            Some(en_passant) => en_passant,
            None => {
                return None;
            },
        };
        let hm: u32 = if fields.len() > 4 {
            match read_decimal(&fields[4], 255) {
                Some(hm) => hm,
                None => {
                    return None;
                },
            }
        } else {
            0
        };
        let fm: u32 = if fields.len() > 5 {
            match read_decimal(&fields[5], 65535) {
                Some(fm) => fm,
                None => {
                    return None;
                },
            }
        } else {
            1
        };
        assert(decode_clock(texts, 4, 0, u8::MAX as nat) == Some(hm as nat));
        assert(decode_clock(texts, 5, 1, u16::MAX as nat) == Some(fm as nat));
        assert(Some(turn) == decode_turn(texts[1]));
        let game = Game { board, en_passant, castle, turn, hm_clock: hm as u8, fm_clock: fm as u16 };
        assert(game@.board == decode_board(texts[0])->0);
        assert(decode(fen@) == Some(game@));
        Some(game)
    }
}

} // verus!
