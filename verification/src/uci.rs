//! What is said to and heard from a move-recommending engine that speaks
//! the Universal Chess Interface: the search limits of a `go` command,
//! and the move named by a `bestmove` line.

use vstd::prelude::*;
use vstd::string::StringExecFns;
use crate::piece::Promotion;
use crate::text::{chars_of, decimal, push_decimal, split, split_fields};

verus! {

/// The limit that a number sets: none for zero.
pub open spec fn limit_of(n: int) -> Option<u64> {
    if n == 0 {
        None
    } else {
        Some(n as u64)
    }
}

/// The depth limit that a number sets: none for zero.
pub open spec fn depth_of(n: int) -> Option<u8> {
    if n == 0 {
        None
    } else {
        Some(n as u8)
    }
}

/// Whether a limit is set: it holds a number other than zero.
pub open spec fn is_set(limit: Option<u64>) -> bool {
    limit matches Some(n) && n != 0
}

/// The text of one limit: the label and the number, or nothing where the
/// limit is not set.
pub open spec fn limit_text(label: Seq<char>, limit: Option<u64>) -> Seq<char> {
    if is_set(limit) {
        label + decimal(limit->0 as nat)
    } else {
        Seq::empty()
    }
}

/// The limits of a search. A limit that is not set is left to the engine;
/// a limit of zero counts as not set.
#[derive(Copy, Clone, Debug, PartialEq, Eq)]
pub struct Limits {
    /// Time for the move, in milliseconds.
    pub time: Option<u64>,
    /// Depth of the search, in plies.
    pub depth: Option<u8>,
    /// White's remaining time, in milliseconds.
    pub w_time: Option<u64>,
    /// Black's remaining time, in milliseconds.
    pub b_time: Option<u64>,
    /// White's increment per move, in milliseconds.
    pub w_inc: Option<u64>,
    /// Black's increment per move, in milliseconds.
    pub b_inc: Option<u64>,
}

impl Default for Limits {
    /// No limit set.
    fn default() -> (limits: Limits)
        ensures
            limits == (Limits {
                time: None,
                depth: None,
                w_time: None,
                b_time: None,
                w_inc: None,
                b_inc: None,
            }),
    {
        Limits { time: None, depth: None, w_time: None, b_time: None, w_inc: None, b_inc: None }
    }
}

impl Limits {
    /// Whether no limit is set.
    pub open spec fn is_unset(self) -> bool {
        !is_set(self.time) && !is_set(self.depth_limit()) && !is_set(self.w_time) && !is_set(
            self.b_time,
        ) && !is_set(self.w_inc) && !is_set(self.b_inc)
    }

    /// The depth limit as a limit of the common width.
    pub open spec fn depth_limit(self) -> Option<u64> {
        match self.depth {
            Some(d) => Some(d as u64),
            None => None,
        }
    }

    /// The limits as they follow `go` in the command: each limit that is
    /// set, with its name before it and a space before the name; and
    /// `depth 20` where none is set. A limit of zero is not written.
    pub open spec fn spec_limit_string(self) -> Seq<char> {
        if self.is_unset() {
            "depth 20"@
        } else {
            limit_text(" movetime "@, self.time) + limit_text(" depth "@, self.depth_limit())
                + limit_text(" wtime "@, self.w_time) + limit_text(" btime "@, self.b_time)
                + limit_text(" winc "@, self.w_inc) + limit_text(" binc "@, self.b_inc)
        }
    }

    /// Sets the time for the move; zero takes the limit away.
    pub fn time(self, time: u64) -> (limits: Limits)
        ensures
            limits == (Limits { time: limit_of(time as int), ..self }),
    {
        Limits { time: nonzero(time), ..self }
    }

    /// Sets the depth of the search; zero takes the limit away.
    pub fn depth(self, depth: u8) -> (limits: Limits)
        ensures
            limits == (Limits { depth: depth_of(depth as int), ..self }),
    {
        Limits {
            depth: if depth == 0 {
                None
            } else {
                Some(depth)
            },
            ..self
        }
    }

    /// Sets White's remaining time; zero takes the limit away.
    pub fn w_time(self, w_time: u64) -> (limits: Limits)
        ensures
            limits == (Limits { w_time: limit_of(w_time as int), ..self }),
    {
        Limits { w_time: nonzero(w_time), ..self }
    }

    /// Sets Black's remaining time; zero takes the limit away.
    pub fn b_time(self, b_time: u64) -> (limits: Limits)
        ensures
            limits == (Limits { b_time: limit_of(b_time as int), ..self }),
    {
        Limits { b_time: nonzero(b_time), ..self }
    }

    /// Sets the remaining time of both sides; zero takes a limit away.
    pub fn set_time(&mut self, w_time: u64, b_time: u64)
        ensures
            *final(self) == (Limits {
                w_time: limit_of(w_time as int),
                b_time: limit_of(b_time as int),
                ..*old(self)
            }),
    {
        self.w_time = nonzero(w_time);
        self.b_time = nonzero(b_time);
    }

    /// Sets White's increment; zero takes the limit away.
    pub fn w_inc(self, w_inc: u64) -> (limits: Limits)
        ensures
            limits == (Limits { w_inc: limit_of(w_inc as int), ..self }),
    {
        Limits { w_inc: nonzero(w_inc), ..self }
    }

    /// Sets Black's increment; zero takes the limit away.
    pub fn b_inc(self, b_inc: u64) -> (limits: Limits)
        ensures
            limits == (Limits { b_inc: limit_of(b_inc as int), ..self }),
    {
        Limits { b_inc: nonzero(b_inc), ..self }
    }

    /// The limits as they follow `go` in the command.
    pub fn into_limit_string(self) -> (text: String)
        ensures
            text@ == self.spec_limit_string(),
    {
        let mut text = String::new();
        push_limit(&mut text, " movetime ", self.time);
        push_limit(
            &mut text,
            " depth ",
            match self.depth {
                Some(d) => Some(d as u64),
                None => None,
            },
        );
        push_limit(&mut text, " wtime ", self.w_time);
        push_limit(&mut text, " btime ", self.b_time);
        push_limit(&mut text, " winc ", self.w_inc);
        push_limit(&mut text, " binc ", self.b_inc);
        let unset = !holds(self.time) && !holds(
            match self.depth {
                Some(d) => Some(d as u64),
                None => None,
            },
        ) && !holds(self.w_time) && !holds(self.b_time) && !holds(self.w_inc) && !holds(self.b_inc);
        if unset {
            assert(text@ =~= Seq::<char>::empty());
            text.append("depth 20");
            assert(text@ =~= "depth 20"@);
        } else {
            assert(text@ =~= self.spec_limit_string());
        }
        text
    }
}

/// The limit that `n` sets: none for zero.
fn nonzero(n: u64) -> (limit: Option<u64>)
    ensures
        limit == limit_of(n as int),
{
    if n == 0 {
        None
    } else {
        Some(n)
    }
}

/// Whether a limit is set.
fn holds(limit: Option<u64>) -> (set: bool)
    ensures
        set == is_set(limit),
{
    match limit {
        Some(n) => n != 0,
        None => false,
    }
}

/// Appends the text of one limit.
fn push_limit(out: &mut String, label: &str, limit: Option<u64>)
    ensures
        final(out)@ == old(out)@ + limit_text(label@, limit),
{
    if holds(limit) {
        out.append(label);
        push_decimal(out, limit.unwrap());
    }
    assert(out@ =~= old(out)@ + limit_text(label@, limit));
}

// ----------------------------------------------------------------------
// The engine's answer
// ----------------------------------------------------------------------
/// The promotion that a letter names.
pub open spec fn spec_promotion_of_letter(c: char) -> Option<Promotion> {
    if c == 'q' {
        Some(Promotion::Queen)
    } else if c == 'n' {
        Some(Promotion::Knight)
    } else if c == 'r' {
        Some(Promotion::Rook)
    } else if c == 'b' {
        Some(Promotion::Bishop)
    } else {
        None
    }
}

/// Whether the first two characters of `s` from `at` name a square: a
/// file letter from `a` to `h` and a rank digit from `1` to `8`.
pub open spec fn names_square(s: Seq<char>, at: int) -> bool {
    at + 1 < s.len() && 'a' <= s[at] <= 'h' && '1' <= s[at + 1] <= '8'
}

/// The square that the two characters of `s` from `at` name.
pub open spec fn square_named(s: Seq<char>, at: int) -> int {
    (s[at + 1] as int - 49) * 8 + (s[at] as int - 97)
}

/// The move that a move text names: origin square, destination square
/// and, from a fifth character, the promotion; a fifth character that is
/// no promotion letter names none. There is no move where the first four
/// characters do not name two squares.
pub open spec fn spec_decode_move(s: Seq<char>) -> Option<(usize, usize, Option<Promotion>)> {
    if names_square(s, 0) && names_square(s, 2) {
        Some(
            (
                square_named(s, 0) as usize,
                square_named(s, 2) as usize,
                if s.len() > 4 {
                    spec_promotion_of_letter(s[4])
                } else {
                    None
                },
            ),
        )
    } else {
        None
    }
}

/// The move text of an engine's line: the second of the fields between
/// spaces, where the line begins with `bestmove` and has a second field.
pub open spec fn spec_best_move_notation(line: Seq<char>) -> Option<Seq<char>> {
    if "bestmove"@.is_prefix_of(line) && split(line, ' ').len() > 1 {
        Some(split(line, ' ')[1])
    } else {
        None
    }
}

/// The promotion that a letter names: `q`, `n`, `r` or `b`.
pub fn promotion_of_letter(c: char) -> (promotion: Option<Promotion>)
    ensures
        promotion == spec_promotion_of_letter(c),
{
    match c {
        'q' => Some(Promotion::Queen),
        'n' => Some(Promotion::Knight),
        'r' => Some(Promotion::Rook),
        'b' => Some(Promotion::Bishop),
        _ => None,
    }
}

/// The square that two characters name, if they name one.
fn square_of(file: char, rank: char) -> (square: Option<usize>)
    ensures
        match square {
            Some(sq) => 'a' <= file <= 'h' && '1' <= rank <= '8' && sq == (rank as int - 49) * 8
                + (file as int - 97) && sq < 64,
            None => !('a' <= file <= 'h' && '1' <= rank <= '8'),
        },
{
    if file >= 'a' && file <= 'h' && rank >= '1' && rank <= '8' {
        let x: usize = (file as u32 - 97) as usize;
        let y: usize = (rank as u32 - 49) as usize;
        Some(y * 8 + x)
    } else {
        None
    }
}

/// Reads a move in the engine's notation: two squares, each a file letter
/// and a rank digit, and after them, where a pawn promotes, the letter of
/// the piece. A fifth character that is no promotion letter names no
/// promotion.
pub fn decode_move(notation: &str) -> (decoded: Option<(usize, usize, Option<Promotion>)>)
    ensures
        decoded == spec_decode_move(notation@),
        decoded matches Some((from, to, _)) ==> from < 64 && to < 64,
{
    let chars = chars_of(notation);
    if chars.len() < 4 {
        return None;
    }
    let from = match square_of(chars[0], chars[1]) {
        Some(from) => from,
        None => {
            return None;
        },
    };
    let to = match square_of(chars[2], chars[3]) {
        Some(to) => to,
        None => {
            return None;
        },
    };
    let promotion = if chars.len() > 4 {
        promotion_of_letter(chars[4])
    } else {
        None
    };
    Some((from, to, promotion))
}

/// The move text of a line from the engine: the second field of a line
/// that begins with `bestmove`. Any other line has none.
pub fn best_move_notation(line: &str) -> (notation: Option<String>)
    ensures
        match notation {
            Some(text) => spec_best_move_notation(line@) == Some(text@),
            None => spec_best_move_notation(line@) is None,
        },
{
    let chars = chars_of(line);
    let word = chars_of("bestmove");
    if chars.len() < word.len() {
        return None;
    }
    let mut i: usize = 0;
    while i < word.len()
        invariant
            i <= word.len() <= chars.len(),
            word@ == "bestmove"@,
            chars@ == line@,
            forall|j: int| 0 <= j < i ==> chars[j] == word[j],
        decreases word.len() - i,
    {
        if chars[i] != word[i] {
            assert(line@.take(word.len() as int)[i as int] != word@[i as int]);
            return None;
        }
        i += 1;
    }
    assert(line@.take(word.len() as int) =~= word@);
    let fields = split_fields(&chars, ' ');
    if fields.len() < 2 {
        return None;
    }
    let mut text = String::new();
    let mut k: usize = 0;
    while k < fields[1].len()
        invariant
            k <= fields[1].len(),
            fields.len() >= 2,
            text@ == fields[1]@.take(k as int),
        decreases fields[1].len() - k,
    {
        text.push(fields[1][k]);
        assert(text@ =~= fields[1]@.take(k + 1));
        k += 1;
    }
    assert(text@ =~= fields[1]@);
    Some(text)
}

} // verus!
