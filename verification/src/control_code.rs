//! The control character: the sixteenth character of a code, computed from
//! the fifteen before it.

use vstd::prelude::*;
use vstd::utf8::is_ascii_chars;
use crate::common::{
    alphabet, alphabet_entries, to_alphabet, to_ascii_uppercase, upper, upper_seq,
};
use crate::text::{chars_of, to_uppercase, uppercased};

verus! {

/// Computes control characters.
pub struct ControlCode {}

/// What a character counts for in the sum, by the parity of its place
/// (counted from one). A digit counts what the letter with its number counts
/// (`0` as `A`, `9` as `J`). A character that is neither an upper-case letter
/// nor a digit has no entry.
pub open spec fn conversion_value(c: char, even: bool) -> Option<int> {
    let n: int = if 'A' <= c && c <= 'Z' {
        c as int - 'A' as int
    } else if '0' <= c && c <= '9' {
        c as int - '0' as int
    } else {
        -1
    };
    if n < 0 {
        None
    } else if even {
        Some(n)
    } else {
        Some(
            seq![
                1int, 0, 5, 7, 9, 13, 15, 17, 19, 21, 2, 4, 18,
                20, 11, 3, 6, 8, 12, 14, 16, 10, 22, 25, 24, 23,
            ][n],
        )
    }
}

/// What the character at index `i` of `s` adds to the sum; nothing where the
/// table has no entry for it.
pub open spec fn term(s: Seq<char>, i: int) -> int {
    match conversion_value(s[i], (i + 1) % 2 == 0) {
        Some(v) => v,
        None => 0,
    }
}

/// The sum of the terms of the first `n` characters of `s`.
pub open spec fn weighted_sum(s: Seq<char>, n: nat) -> int
    decreases n,
{
    if n == 0 {
        0
    } else {
        weighted_sum(s, (n - 1) as nat) + term(s, n - 1)
    }
}

/// How many characters enter the sum: fifteen, or all where there are fewer.
pub open spec fn summed_len(s: Seq<char>) -> nat {
    if s.len() < 15 {
        s.len()
    } else {
        15
    }
}

/// The control character of text that is already in upper case.
pub open spec fn control_character(upper: Seq<char>) -> char {
    alphabet()[weighted_sum(upper, summed_len(upper)) % 26]
}

/// The control character of text in either case.
pub open spec fn control_of(code: Seq<char>) -> char {
    control_character(uppercased(code))
}

/// Each term lies between 0 and 25.
pub proof fn term_bounds(s: Seq<char>, i: int)
    ensures
        0 <= term(s, i) <= 25,
{
}

/// The sum of `n` terms lies between 0 and `25 * n`.
pub proof fn weighted_sum_bounds(s: Seq<char>, n: nat)
    ensures
        0 <= weighted_sum(s, n) <= 25 * n,
    decreases n,
{
    if n > 0 {
        weighted_sum_bounds(s, (n - 1) as nat);
        term_bounds(s, n - 1);
    }
}

/// The sum reads the first `n` characters and nothing else.
pub proof fn weighted_sum_of_prefix(a: Seq<char>, b: Seq<char>, n: nat)
    requires
        n <= a.len(),
        n <= b.len(),
        forall|i: int| 0 <= i < n ==> a[i] == b[i],
    ensures
        weighted_sum(a, n) == weighted_sum(b, n),
    decreases n,
{
    if n > 0 {
        weighted_sum_of_prefix(a, b, (n - 1) as nat);
    }
}

/// The control character is an upper-case letter.
pub proof fn control_character_is_upper(upper: Seq<char>)
    ensures
        'A' <= control_character(upper) <= 'Z',
{
    weighted_sum_bounds(upper, summed_len(upper));
    alphabet_entries(weighted_sum(upper, summed_len(upper)) % 26);
}

/// Two ASCII texts that agree on their first fifteen characters have the
/// same control character.
pub proof fn control_reads_fifteen(a: Seq<char>, b: Seq<char>)
    requires
        a.len() >= 15,
        b.len() >= 15,
        forall|i: int| 0 <= i < 15 ==> a[i] == b[i],
        is_ascii_chars(a),
        is_ascii_chars(b),
    ensures
        control_of(a) == control_of(b),
{
    weighted_sum_of_prefix(upper_seq(a), upper_seq(b), 15);
}

impl ControlCode {
    /// The control character of `codice_fiscale`, whatever its case: the
    /// text is put into upper case first.
    pub fn compute(codice_fiscale: &str) -> (c: char)
        ensures
            c == control_of(codice_fiscale@),
            'A' <= c <= 'Z',
    {
        if codice_fiscale.is_ascii() {
            let mut partial_code = chars_of(codice_fiscale);
            let mut i: usize = 0;
            while i < partial_code.len()
                invariant
                    i <= partial_code.len(),
                    partial_code@.len() == codice_fiscale@.len(),
                    forall|j: int| 0 <= j < i ==> partial_code@[j] == upper(codice_fiscale@[j]),
                    forall|j: int|
                        i <= j < partial_code.len() ==> partial_code@[j] == codice_fiscale@[j],
                decreases partial_code.len() - i,
            {
                let c = to_ascii_uppercase(partial_code[i]);
                partial_code.set(i, c);
                i += 1;
            }
            assert(partial_code@ =~= upper_seq(codice_fiscale@));
            control_character_of(&partial_code)
        } else {
            let upper = to_uppercase(codice_fiscale);
            Self::compute_upper(upper.as_str())
        }
    }

    /// The control character of text that is already in upper case.
    pub fn compute_upper(upper: &str) -> (c: char)
        ensures
            c == control_character(upper@),
            'A' <= c <= 'Z',
    {
        control_character_of(&chars_of(upper))
    }
}

/// The control character of characters that are already in upper case.
fn control_character_of(partial_code: &Vec<char>) -> (c: char)
    ensures
        c == control_character(partial_code@),
        'A' <= c <= 'Z',
{
    let count: usize = if partial_code.len() < 15 {
        partial_code.len()
    } else {
        15
    };
    let mut control_code: i32 = 0;
    let mut n: usize = 0;
    while n < count
        invariant
            n <= count,
            count == summed_len(partial_code@),
            control_code == weighted_sum(partial_code@, n as nat),
        decreases count - n,
    {
        proof {
            weighted_sum_bounds(partial_code@, n as nat);
        }
        if let Some(val) = get_conversion_table_value(&partial_code[n], (n + 1) % 2 == 0) {
            control_code += val;
        }
        n += 1;
    }
    proof {
        weighted_sum_bounds(partial_code@, count as nat);
        control_character_is_upper(partial_code@);
    }
    let index_alphabet = (control_code % 26) as usize;
    to_alphabet(index_alphabet)
}

/// The entry of the conversion table for `character` at an even or an odd
/// place.
pub fn get_conversion_table_value(character: &char, even: bool) -> (r: Option<i32>)
    ensures
        match r {
            Some(v) => conversion_value(*character, even) == Some(v as int),
            None => conversion_value(*character, even) is None,
        },
{
    let pair: Option<(i32, i32)> = match *character {
        'A' | '0' => Some((0, 1)),
        'B' | '1' => Some((1, 0)),
        'C' | '2' => Some((2, 5)),
        'D' | '3' => Some((3, 7)),
        'E' | '4' => Some((4, 9)),
        'F' | '5' => Some((5, 13)),
        'G' | '6' => Some((6, 15)),
        'H' | '7' => Some((7, 17)),
        'I' | '8' => Some((8, 19)),
        'J' | '9' => Some((9, 21)),
        'K' => Some((10, 2)),
        'L' => Some((11, 4)),
        'M' => Some((12, 18)),
        'N' => Some((13, 20)),
        'O' => Some((14, 11)),
        'P' => Some((15, 3)),
        'Q' => Some((16, 6)),
        'R' => Some((17, 8)),
        'S' => Some((18, 12)),
        'T' => Some((19, 14)),
        'U' => Some((20, 16)),
        'V' => Some((21, 10)),
        'W' => Some((22, 22)),
        'X' => Some((23, 25)),
        'Y' => Some((24, 24)),
        'Z' => Some((25, 23)),
        _ => None,
    };
    match pair {
        Some((even_value, odd_value)) => if even {
            Some(even_value)
        } else {
            Some(odd_value)
        },
        None => None,
    }
}

} // verus!
