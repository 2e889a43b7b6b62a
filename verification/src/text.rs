//! Small string and character utilities shared across the crate: classifying
//! and upper-casing ASCII characters, rendering integers in decimal, and
//! parsing decimal port numbers.

use vstd::prelude::*;

verus! {

/// A character that survives environment-variable-name sanitization
/// unchanged: ASCII letters, digits and the underscore.
pub open spec fn is_word_char(c: char) -> bool {
    ('a' <= c && c <= 'z') || ('A' <= c && c <= 'Z') || ('0' <= c && c <= '9') || c == '_'
}

/// ASCII upper-casing of a single character; anything outside `a`..`z` is
/// left alone.
pub open spec fn spec_upper_char(c: char) -> char {
    if 'a' <= c && c <= 'z' {
        ((c as int) - 32) as char
    } else {
        c
    }
}

/// Relies on `String::push` (std): appends one character at the end.
#[verifier::external_body]
pub fn push_char(s: &mut String, c: char)
    ensures
        final(s)@ == old(s)@.push(c),
{
    s.push(c);
}

/// Upper-cases one ASCII letter, leaving every other character unchanged.
pub fn upper_char(c: char) -> (r: char)
    ensures
        r == spec_upper_char(c),
{
    match c {
        'a' => 'A',
        'b' => 'B',
        'c' => 'C',
        'd' => 'D',
        'e' => 'E',
        'f' => 'F',
        'g' => 'G',
        'h' => 'H',
        'i' => 'I',
        'j' => 'J',
        'k' => 'K',
        'l' => 'L',
        'm' => 'M',
        'n' => 'N',
        'o' => 'O',
        'p' => 'P',
        'q' => 'Q',
        'r' => 'R',
        's' => 'S',
        't' => 'T',
        'u' => 'U',
        'v' => 'V',
        'w' => 'W',
        'x' => 'X',
        'y' => 'Y',
        'z' => 'Z',
        _ => c,
    }
}

/// The numeric value of a decimal digit character (meaningful only when
/// `'0' <= c <= '9'`).
pub open spec fn digit_val(c: char) -> int {
    (c as int) - 48
}

/// The decimal digit character for a value in `0..=9`.
pub open spec fn spec_digit_char(d: int) -> char {
    if d == 0 {
        '0'
    } else if d == 1 {
        '1'
    } else if d == 2 {
        '2'
    } else if d == 3 {
        '3'
    } else if d == 4 {
        '4'
    } else if d == 5 {
        '5'
    } else if d == 6 {
        '6'
    } else if d == 7 {
        '7'
    } else if d == 8 {
        '8'
    } else {
        '9'
    }
}

/// The decimal rendering of a non-negative integer, most significant digit
/// first, with no leading zeroes.
pub open spec fn spec_nat_string(n: nat) -> Seq<char>
    decreases n,
{
    if n < 10 {
        seq![spec_digit_char(n as int)]
    } else {
        spec_nat_string(n / 10) + seq![spec_digit_char((n % 10) as int)]
    }
}

/// The decimal rendering of an integer: a minus sign for negative values,
/// then the magnitude.
pub open spec fn spec_int_string(n: int) -> Seq<char> {
    if n >= 0 {
        spec_nat_string(n as nat)
    } else {
        seq!['-'] + spec_nat_string((-n) as nat)
    }
}

fn digit_char(d: u64) -> (r: char)
    requires
        d < 10,
    ensures
        r == spec_digit_char(d as int),
{
    match d {
        0 => '0',
        1 => '1',
        2 => '2',
        3 => '3',
        4 => '4',
        5 => '5',
        6 => '6',
        7 => '7',
        8 => '8',
        _ => '9',
    }
}

/// Renders a `u64` in decimal.
pub fn u64_to_string(n: u64) -> (r: String)
    ensures
        r@ == spec_nat_string(n as nat),
    decreases n,
{
    let mut r = String::new();
    if n < 10 {
        push_char(&mut r, digit_char(n));
        assert(r@ =~= spec_nat_string(n as nat));
        r
    } else {
        let mut r = u64_to_string(n / 10);
        push_char(&mut r, digit_char(n % 10));
        assert(r@ =~= spec_nat_string(n as nat));
        r
    }
}

/// Renders an `i64` in decimal, with a leading minus sign when negative.
pub fn i64_to_string(n: i64) -> (r: String)
    ensures
        r@ == spec_int_string(n as int),
{
    if n >= 0 {
        u64_to_string(n as u64)
    } else {
        let magnitude: u64 = ((-(n + 1)) as u64) + 1;
        assert(magnitude as int == -(n as int));
        let mut r = "-".to_owned();
        let digits = u64_to_string(magnitude);
        proof {
            reveal_strlit("-");
        }
        let r = r.concat(digits.as_str());
        assert(r@ =~= spec_int_string(n as int));
        r
    }
}

/// The value of a decimal digit string read most significant digit first.
pub open spec fn dec_value(s: Seq<char>) -> int
    decreases s.len(),
{
    if s.len() == 0 {
        0
    } else {
        dec_value(s.drop_last()) * 10 + digit_val(s.last())
    }
}

/// Whether every character of `s` is a decimal digit.
pub open spec fn all_digits(s: Seq<char>) -> bool {
    forall|i: int| 0 <= i < s.len() ==> '0' <= #[trigger] s[i] && s[i] <= '9'
}

/// The digit part of a decimal number string: an optional leading `+` is
/// allowed, as `str::parse` allows one.
pub open spec fn number_body(s: Seq<char>) -> Seq<char> {
    if s.len() > 0 && s[0] == '+' {
        s.drop_first()
    } else {
        s
    }
}

/// Whether `s` parses as a `u16`: at least one digit (after an optional
/// leading `+`), all digits, and a value within range.
pub open spec fn is_u16_string(s: Seq<char>) -> bool {
    let body = number_body(s);
    body.len() > 0 && all_digits(body) && dec_value(body) <= 65535
}

fn digit_of_char(c: char) -> (r: Option<u16>)
    ensures
        r is Some <==> ('0' <= c && c <= '9'),
        r is Some ==> r->0 as int == digit_val(c),
{
    match c {
        '0' => Some(0),
        '1' => Some(1),
        '2' => Some(2),
        '3' => Some(3),
        '4' => Some(4),
        '5' => Some(5),
        '6' => Some(6),
        '7' => Some(7),
        '8' => Some(8),
        '9' => Some(9),
        _ => Option::None,
    }
}

/// Parses a decimal `u16`, accepting exactly the strings `is_u16_string`
/// accepts, and returning their value.
pub fn parse_u16(s: &str) -> (r: Option<u16>)
    ensures
        r is Some <==> is_u16_string(s@),
        r is Some ==> r->0 as int == dec_value(number_body(s@)),
{
    let len = s.unicode_len();
    let start: usize = if len > 0 && s.get_char(0) == '+' {
        1
    } else {
        0
    };
    assert(s@.subrange(start as int, len as int) =~= number_body(s@).skip(0));
    if start == len {
        return Option::None;
    }
    let mut value: u16 = 0;
    let mut i: usize = start;
    while i < len
        invariant
            start <= i <= len,
            len == s@.len(),
            start == 0 || start == 1,
            start == 1 ==> s@.len() > 0 && s@[0] == '+',
            start == 0 ==> s@.len() == 0 || s@[0] != '+',
            all_digits(number_body(s@).take(i - start)),
            value as int == dec_value(number_body(s@).take(i - start)),
        decreases len - i,
    {
        let c = s.get_char(i);
        assert(number_body(s@)[i - start] == s@[i as int]);
        match digit_of_char(c) {
            Some(d) => {
                if value > 6553 || (value == 6553 && d > 5) {
                    // The remaining digits can only push the value past
                    // the largest u16, so the string does not parse.
                    proof {
                        let body = number_body(s@);
                        let k = i - start;
                        assert(body.take(k + 1).drop_last() =~= body.take(k));
                        assert(body.take(k + 1).last() == body[k]);
                        assert(dec_value(body.take(k + 1)) > 65535);
                        if all_digits(body) {
                            lemma_dec_value_monotonic(body, k + 1);
                        }
                    }
                    return Option::None;
                }
                value = value * 10 + d;
                proof {
                    let body = number_body(s@);
                    let k = i - start;
                    assert(body.take(k + 1).drop_last() =~= body.take(k));
                    assert(body.take(k + 1).last() == body[k]);
                }
                i = i + 1;
            },
            None => {
                assert(!all_digits(number_body(s@)));
                return Option::None;
            },
        }
    }
    assert(number_body(s@).take(i - start) =~= number_body(s@));
    Some(value)
}

/// The pieces of `s` from position `i` on, split at `sep`, with `cur` the
/// piece collected so far.
pub open spec fn split_from(s: Seq<char>, sep: char, i: int, cur: Seq<char>) -> Seq<Seq<char>>
    decreases s.len() - i,
{
    if i < 0 || i >= s.len() {
        seq![cur]
    } else if s[i] == sep {
        seq![cur] + split_from(s, sep, i + 1, Seq::empty())
    } else {
        split_from(s, sep, i + 1, cur.push(s[i]))
    }
}

/// The pieces of `s` split at every occurrence of `sep`, as `str::split`
/// yields them: an empty input gives one empty piece, and adjacent
/// separators give empty pieces.
pub open spec fn spec_split(s: Seq<char>, sep: char) -> Seq<Seq<char>> {
    split_from(s, sep, 0, Seq::empty())
}

/// Splits `s` at every occurrence of the character `sep`.
pub fn split_char(s: &str, sep: char) -> (r: Vec<String>)
    ensures
        r@.len() == spec_split(s@, sep).len(),
        r@.len() >= 1,
        forall|i: int| 0 <= i < r@.len() ==> (#[trigger] r@[i])@ == spec_split(s@, sep)[i],
{
    let len = s.unicode_len();
    let mut pieces: Vec<String> = Vec::new();
    let mut cur = String::new();
    let mut i: usize = 0;
    while i < len
        invariant
            0 <= i <= len,
            len == s@.len(),
            spec_split(s@, sep) == pieces@.map_values(|p: String| p@) + split_from(
                s@,
                sep,
                i as int,
                cur@,
            ),
        decreases len - i,
    {
        let c = s.get_char(i);
        if c == sep {
            let ghost old_pieces = pieces@;
            pieces.push(cur);
            cur = String::new();
            proof {
                assert(pieces@.map_values(|p: String| p@) =~= old_pieces.map_values(
                    |p: String| p@,
                ).push(pieces@.last()@));
            }
        } else {
            push_char(&mut cur, c);
        }
        i = i + 1;
    }
    let ghost old_pieces = pieces@;
    pieces.push(cur);
    proof {
        assert(pieces@.map_values(|p: String| p@) =~= old_pieces.map_values(|p: String| p@).push(
            pieces@.last()@,
        ));
        assert(pieces@.map_values(|p: String| p@) =~= spec_split(s@, sep));
        assert(pieces@.map_values(|p: String| p@).len() == pieces@.len());
        assert(forall|i: int|
            0 <= i < pieces@.len() ==> (#[trigger] pieces@[i])@ == pieces@.map_values(
                |p: String| p@,
            )[i]);
    }
    pieces
}

/// A digit string's value only grows as more digits are read: if some prefix
/// already exceeds the largest u16, the whole string does.
proof fn lemma_dec_value_monotonic(s: Seq<char>, from: int)
    requires
        0 <= from <= s.len(),
        all_digits(s),
        dec_value(s.take(from)) > 65535,
    ensures
        dec_value(s) > 65535,
    decreases s.len() - from,
{
    if from == s.len() {
        assert(s.take(from) =~= s);
    } else {
        assert(s.take(from + 1).drop_last() =~= s.take(from));
        assert('0' <= s[from] && s[from] <= '9');
        lemma_dec_value_monotonic(s, from + 1);
    }
}

} // verus!
