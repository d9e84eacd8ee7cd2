//! Text helpers: characters of a string, fields between separators, and
//! numbers in decimal.

use vstd::prelude::*;

verus! {

/// Trusted, of `std`: `String::push` appends the character to the end of
/// the string and changes nothing else of it.
pub assume_specification[ String::push ](s: &mut String, c: char)
    ensures
        final(s)@ == old(s)@.push(c),
;

/// The characters of a string, one by one.
pub fn chars_of(s: &str) -> (chars: Vec<char>)
    ensures
        chars@ == s@,
{
    let mut chars: Vec<char> = Vec::new();
    for c in it: s.chars()
        invariant
            chars@ == it.seq().take(it.index() as int),
            it.seq() == s@,
    {
        chars.push(c);
    }
    chars
}

// ----------------------------------------------------------------------
// Fields
// ----------------------------------------------------------------------
/// The fields of `s` between occurrences of `sep`. There is always at
/// least one field; two separators in a row hold an empty field between
/// them.
pub open spec fn split(s: Seq<char>, sep: char) -> Seq<Seq<char>>
    decreases s.len(),
{
    if s.len() == 0 {
        seq![Seq::empty()]
    } else {
        let before = split(s.drop_last(), sep);
        if s.last() == sep {
            before.push(Seq::empty())
        } else {
            before.update(before.len() - 1, before.last().push(s.last()))
        }
    }
}

/// Whether `sep` does not occur in `s`.
pub open spec fn free_of(s: Seq<char>, sep: char) -> bool {
    forall|i: int| 0 <= i < s.len() ==> s[i] != sep
}

/// A split has at least one field.
pub proof fn split_is_nonempty(s: Seq<char>, sep: char)
    ensures
        split(s, sep).len() >= 1,
    decreases s.len(),
{
    if s.len() > 0 {
        split_is_nonempty(s.drop_last(), sep);
    }
}

/// Text without the separator is one field.
pub proof fn split_of_field(s: Seq<char>, sep: char)
    requires
        free_of(s, sep),
    ensures
        split(s, sep) == seq![s],
    decreases s.len(),
{
    if s.len() > 0 {
        split_of_field(s.drop_last(), sep);
        assert(s[s.len() - 1] != sep);
        assert(s.drop_last().push(s.last()) =~= s);
        let before = seq![s.drop_last()];
        assert(before.last() == s.drop_last());
        assert(before.update(0, s) =~= seq![s]);
    } else {
        assert(s =~= Seq::empty());
    }
}

/// A separator and a field behind a text add the field to the text's
/// fields.
pub proof fn split_of_appended_field(head: Seq<char>, field: Seq<char>, sep: char)
    requires
        free_of(field, sep),
    ensures
        split(head + seq![sep] + field, sep) == split(head, sep).push(field),
    decreases field.len(),
{
    let whole = head + seq![sep] + field;
    split_is_nonempty(head, sep);
    if field.len() == 0 {
        assert(whole.drop_last() =~= head);
        assert(field =~= Seq::empty());
    } else {
        let shorter = field.drop_last();
        split_of_appended_field(head, shorter, sep);
        assert(whole.drop_last() =~= head + seq![sep] + shorter);
        assert(whole.last() == field.last());
        assert(shorter.push(field.last()) =~= field);
        let before = split(head, sep).push(shorter);
        assert(before.update(before.len() - 1, before.last().push(field.last())) =~= split(
            head,
            sep,
        ).push(field));
    }
}

/// Cuts `s` into its fields between occurrences of `sep`.
pub fn split_fields(s: &Vec<char>, sep: char) -> (fields: Vec<Vec<char>>)
    ensures
        fields.len() == split(s@, sep).len(),
        forall|i: int| 0 <= i < fields.len() ==> fields[i]@ == split(s@, sep)[i],
{
    let mut fields: Vec<Vec<char>> = Vec::new();
    let mut current: Vec<char> = Vec::new();
    let mut i: usize = 0;
    assert(s@.take(0) =~= Seq::empty());
    while i < s.len()
        invariant
            i <= s.len(),
            split(s@.take(i as int), sep).len() == fields.len() + 1,
            forall|j: int|
                0 <= j < fields.len() ==> fields[j]@ == split(s@.take(i as int), sep)[j],
            current@ == split(s@.take(i as int), sep).last(),
        decreases s.len() - i,
    {
        let c = s[i];
        assert(s@.take(i + 1).drop_last() =~= s@.take(i as int));
        assert(s@.take(i + 1).last() == c);
        if c == sep {
            fields.push(current);
            current = Vec::new();
        } else {
            current.push(c);
        }
        i += 1;
    }
    assert(s@.take(i as int) =~= s@);
    fields.push(current);
    fields
}

// ----------------------------------------------------------------------
// Decimal numbers
// ----------------------------------------------------------------------
/// Whether `c` is one of the ten digits.
pub open spec fn is_digit(c: char) -> bool {
    '0' <= c <= '9'
}

/// The digit that stands for `d`, a number below ten.
pub open spec fn digit_char(d: int) -> char {
    (d + 48) as char
}

/// The number a digit stands for.
pub open spec fn digit_value(c: char) -> int {
    c as int - 48
}

/// A number in decimal, without sign or leading zeros.
pub open spec fn decimal(n: nat) -> Seq<char>
    decreases n,
{
    if n < 10 {
        seq![digit_char(n as int)]
    } else {
        decimal(n / 10).push(digit_char((n % 10) as int))
    }
}

/// Whether `s` consists of digits only.
pub open spec fn all_digits(s: Seq<char>) -> bool {
    forall|i: int| 0 <= i < s.len() ==> is_digit(#[trigger] s[i])
}

/// The number that a row of digits stands for.
pub open spec fn digits_value(s: Seq<char>) -> int
    decreases s.len(),
{
    if s.len() == 0 {
        0
    } else {
        digits_value(s.drop_last()) * 10 + digit_value(s.last())
    }
}

/// The digits of a number text: the text itself, or what follows a
/// leading `+`.
pub open spec fn unsigned_part(s: Seq<char>) -> Seq<char> {
    if s.len() > 0 && s[0] == '+' {
        s.drop_first()
    } else {
        s
    }
}

/// Reads a number of at most `max`: an optional `+`, then one or more
/// digits and nothing else. Leading zeros are read; a value above `max`
/// is not.
pub open spec fn parse_decimal(s: Seq<char>, max: nat) -> Option<nat> {
    let digits = unsigned_part(s);
    if digits.len() > 0 && all_digits(digits) && digits_value(digits) <= max {
        Some(digits_value(digits) as nat)
    } else {
        None
    }
}

/// A number in decimal is one or more digits that stand for the number.
pub proof fn decimal_is_digits(n: nat)
    ensures
        decimal(n).len() >= 1,
        all_digits(decimal(n)),
        digits_value(decimal(n)) == n,
    decreases n,
{
    if n < 10 {
        assert(decimal(n).drop_last() =~= Seq::empty());
        assert(digits_value(decimal(n).drop_last()) == 0);
    } else {
        decimal_is_digits(n / 10);
        assert(decimal(n).drop_last() =~= decimal(n / 10));
    }
}

/// Reading a number written in decimal gives the number back.
pub proof fn parse_decimal_of_decimal(n: nat, max: nat)
    requires
        n <= max,
    ensures
        parse_decimal(decimal(n), max) == Some(n),
{
    decimal_is_digits(n);
    assert(is_digit(decimal(n)[0]));
}

/// Among digits, a longer row stands for no smaller number than its
/// beginning.
pub proof fn digits_value_grows(s: Seq<char>, i: int)
    requires
        all_digits(s),
        0 <= i <= s.len(),
    ensures
        0 <= digits_value(s.take(i)) <= digits_value(s),
    decreases s.len(),
{
    if s.len() == 0 {
        assert(s.take(i) =~= s);
    } else if i == s.len() {
        assert(s.take(i) =~= s);
        digits_value_grows(s.drop_last(), i - 1);
        assert(is_digit(s[s.len() - 1]));
    } else {
        digits_value_grows(s.drop_last(), i);
        assert(s.drop_last().take(i) =~= s.take(i));
        assert(is_digit(s[s.len() - 1]));
    }
}

/// A number that was read is at most `max`.
pub proof fn parse_decimal_is_within(s: Seq<char>, max: nat)
    ensures
        parse_decimal(s, max) matches Some(n) ==> n <= max,
{
    let digits = unsigned_part(s);
    if all_digits(digits) {
        digits_value_grows(digits, digits.len() as int);
        assert(digits.take(digits.len() as int) =~= digits);
    }
}

/// Appends `n` in decimal to `out`.
pub fn push_decimal(out: &mut String, n: u64)
    ensures
        final(out)@ == old(out)@ + decimal(n as nat),
    decreases n,
{
    if n >= 10 {
        push_decimal(out, n / 10);
    }
    let digit = ((n % 10) as u8 + 48u8) as char;
    out.push(digit);
    proof {
        if n < 10 {
            assert(old(out)@.push(digit) =~= old(out)@ + decimal(n as nat));
        } else {
            assert((old(out)@ + decimal((n / 10) as nat)).push(digit) =~= old(out)@ + decimal(
                n as nat,
            ));
        }
    }
}

/// Reads a number of at most `max` from `s`: an optional `+`, then one
/// or more digits and nothing else.
pub fn read_decimal(s: &Vec<char>, max: u32) -> (value: Option<u32>)
    requires
        max <= 400_000_000,
    ensures
        match value {
            Some(v) => parse_decimal(s@, max as nat) == Some(v as nat) && v <= max,
            None => parse_decimal(s@, max as nat) is None,
        },
{
    let start: usize = if s.len() > 0 && s[0] == '+' {
        1
    } else {
        0
    };
    let ghost digits = unsigned_part(s@);
    assert(digits =~= s@.skip(start as int));
    if start >= s.len() {
        return None;
    }
    let mut acc: u32 = 0;
    let mut i: usize = start;
    assert(digits.take(0) =~= Seq::empty());
    while i < s.len()
        invariant
            start <= i <= s.len(),
            max <= 400_000_000,
            digits == s@.skip(start as int),
            digits == unsigned_part(s@),
            all_digits(digits.take(i - start)),
            acc == digits_value(digits.take(i - start)),
            acc <= max,
        decreases s.len() - i,
    {
        let c = s[i];
        let ghost upto = digits.take(i - start + 1);
        assert(upto.drop_last() =~= digits.take(i - start));
        assert(upto.last() == c);
        if !(c >= '0' && c <= '9') {
            assert(!is_digit(digits[i - start]));
            return None;
        }
        let d: u32 = c as u32 - 48;
        assert(all_digits(upto)) by {
            assert forall|j: int| 0 <= j < upto.len() implies is_digit(#[trigger] upto[j]) by {
                if j < upto.len() - 1 {
                    assert(upto[j] == digits.take(i - start)[j]);
                }
            }
        }
        if acc * 10 + d > max {
            proof {
                if all_digits(digits) {
                    digits_value_grows(digits, i - start + 1);
                }
            }
            return None;
        }
        acc = acc * 10 + d;
        i += 1;
    }
    assert(digits.take(i - start) =~= digits);
    Some(acc)
}

} // verus!
