//! Character classes and the fixed tables every other module reads.

use vstd::prelude::*;

verus! {

/// `c` is one of the 52 ASCII letters.
pub open spec fn is_letter(c: char) -> bool {
    ('A' <= c && c <= 'Z') || ('a' <= c && c <= 'z')
}

/// `c` is one of the 10 ASCII digits.
pub open spec fn is_digit(c: char) -> bool {
    '0' <= c && c <= '9'
}

/// `c` is an ASCII letter or an ASCII digit.
pub open spec fn is_alphanumeric(c: char) -> bool {
    is_letter(c) || is_digit(c)
}

/// The ASCII upper-case form of `c`: `a`..`z` move to `A`..`Z`, every other
/// character stays.
pub open spec fn upper(c: char) -> char {
    if 'a' <= c && c <= 'z' {
        ((c as u8) - 32) as char
    } else {
        c
    }
}

/// `s` with every character replaced by its ASCII upper-case form.
pub open spec fn upper_seq(s: Seq<char>) -> Seq<char> {
    Seq::new(s.len(), |i: int| upper(s[i]))
}

/// `c` is one of `A E I O U`, in either case.
pub open spec fn vowel(c: char) -> bool {
    let u = upper(c);
    u == 'A' || u == 'E' || u == 'I' || u == 'O' || u == 'U'
}

/// `c` is an ASCII letter that is no vowel.
pub open spec fn consonant(c: char) -> bool {
    is_letter(c) && !vowel(c)
}

/// The 26 letters `A`..`Z`, in order.
pub open spec fn alphabet() -> Seq<char> {
    seq![
        'A', 'B', 'C', 'D', 'E', 'F', 'G', 'H', 'I', 'J', 'K', 'L', 'M',
        'N', 'O', 'P', 'Q', 'R', 'S', 'T', 'U', 'V', 'W', 'X', 'Y', 'Z',
    ]
}

/// The letters that stand for January to December, in that order.
pub open spec fn month_codes() -> Seq<char> {
    seq!['A', 'B', 'C', 'D', 'E', 'H', 'L', 'M', 'P', 'R', 'S', 'T']
}

/// The decimal digit character for `d`, for `0 <= d <= 9`.
pub open spec fn digit_char(d: int) -> char {
    (('0' as u8) + d) as u8 as char
}

/// Every entry of the alphabet is the letter `index` places after `A`.
pub proof fn alphabet_entries(index: int)
    requires
        0 <= index < 26,
    ensures
        alphabet()[index] == (65 + index) as u8 as char,
        'A' <= alphabet()[index] <= 'Z',
        alphabet().len() == 26,
{
}

/// Whether `c` is an ASCII letter.
pub fn is_ascii_alphabetic(c: char) -> (b: bool)
    ensures
        b == is_letter(c),
{
    ('A' <= c && c <= 'Z') || ('a' <= c && c <= 'z')
}

/// Whether `c` is an ASCII digit.
pub fn is_ascii_digit(c: char) -> (b: bool)
    ensures
        b == is_digit(c),
{
    '0' <= c && c <= '9'
}

/// The ASCII upper-case form of `c`.
pub fn to_ascii_uppercase(c: char) -> (u: char)
    ensures
        u == upper(c),
{
    if 'a' <= c && c <= 'z' {
        ((c as u8) - 32) as char
    } else {
        c
    }
}

/// Whether `letter` is a vowel, in either case.
pub fn is_vowel(letter: &char) -> (b: bool)
    ensures
        b == vowel(*letter),
{
    let u = to_ascii_uppercase(*letter);
    u == 'A' || u == 'E' || u == 'I' || u == 'O' || u == 'U'
}

/// Whether `letter` is a consonant, in either case.
pub fn is_consonant(letter: &char) -> (b: bool)
    ensures
        b == consonant(*letter),
{
    is_ascii_alphabetic(*letter) && !is_vowel(letter)
}

/// The letter at `index` in the alphabet, counted from 0.
pub fn to_alphabet(index: usize) -> (c: char)
    requires
        index < 26,
    ensures
        c == alphabet()[index as int],
        'A' <= c <= 'Z',
{
    proof {
        alphabet_entries(index as int);
    }
    (65 + index) as u8 as char
}

/// The letter of the month at `index`, counted from 0 for January.
pub fn to_month_codes(index: usize) -> (c: char)
    requires
        index < 12,
    ensures
        c == month_codes()[index as int],
        month_codes().contains(c),
{
    let c = match index {
        0 => 'A',
        1 => 'B',
        2 => 'C',
        3 => 'D',
        4 => 'E',
        5 => 'H',
        6 => 'L',
        7 => 'M',
        8 => 'P',
        9 => 'R',
        10 => 'S',
        _ => 'T',
    };
    assert(month_codes()[index as int] == c);
    c
}

/// Whether `letter` stands for a month. Only upper-case letters do.
pub fn is_month_code(letter: &char) -> (b: bool)
    ensures
        b == month_codes().contains(*letter),
{
    let c = *letter;
    let b = c == 'A' || c == 'B' || c == 'C' || c == 'D' || c == 'E' || c == 'H' || c == 'L'
        || c == 'M' || c == 'P' || c == 'R' || c == 'S' || c == 'T';
    proof {
        if b {
            let i: int = if c == 'A' {
                0
            } else if c == 'B' {
                1
            } else if c == 'C' {
                2
            } else if c == 'D' {
                3
            } else if c == 'E' {
                4
            } else if c == 'H' {
                5
            } else if c == 'L' {
                6
            } else if c == 'M' {
                7
            } else if c == 'P' {
                8
            } else if c == 'R' {
                9
            } else if c == 'S' {
                10
            } else {
                11
            };
            assert(month_codes()[i] == c);
        }
    }
    b
}

} // verus!
