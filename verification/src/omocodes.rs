//! The omocode substitution: seven places of a code hold digits, each of
//! which may be swapped for a letter.

use vstd::prelude::*;
use crate::common::{is_ascii_alphabetic, is_digit, is_letter};
use crate::text::{chars_of, string_of};

verus! {

/// Turns codes into omocodes and back.
pub struct Omocodes {}

/// The places that can hold a substituted letter, in the order in which they
/// are walked: from the rightmost inward.
pub open spec fn positions() -> Seq<int> {
    seq![14, 13, 12, 10, 9, 7, 6]
}

/// Where index `i` stands in `positions()`; 7 for an index that is not there.
pub open spec fn rank(i: int) -> int {
    if i == 14 {
        0
    } else if i == 13 {
        1
    } else if i == 12 {
        2
    } else if i == 10 {
        3
    } else if i == 9 {
        4
    } else if i == 7 {
        5
    } else if i == 6 {
        6
    } else {
        7
    }
}

/// The digit that a substituted letter stands for: `L M N P Q R S T U V`, in
/// either case, stand for `0` to `9`.
pub open spec fn letter_to_digit(c: char) -> Option<char> {
    if c == 'L' || c == 'l' {
        Some('0')
    } else if c == 'M' || c == 'm' {
        Some('1')
    } else if c == 'N' || c == 'n' {
        Some('2')
    } else if c == 'P' || c == 'p' {
        Some('3')
    } else if c == 'Q' || c == 'q' {
        Some('4')
    } else if c == 'R' || c == 'r' {
        Some('5')
    } else if c == 'S' || c == 's' {
        Some('6')
    } else if c == 'T' || c == 't' {
        Some('7')
    } else if c == 'U' || c == 'u' {
        Some('8')
    } else if c == 'V' || c == 'v' {
        Some('9')
    } else {
        None
    }
}

/// The upper-case letter that takes the place of a digit.
pub open spec fn digit_to_letter(c: char) -> Option<char> {
    if is_digit(c) {
        Some(seq!['L', 'M', 'N', 'P', 'Q', 'R', 'S', 'T', 'U', 'V'][c as int - '0' as int])
    } else {
        None
    }
}

/// `c`, or the digit it stands for where it is a substituted letter.
pub open spec fn as_digit(c: char) -> char {
    match letter_to_digit(c) {
        Some(d) => d,
        None => c,
    }
}

/// `c`, or the letter that takes its place where it is a digit.
pub open spec fn as_letter(c: char) -> char {
    match digit_to_letter(c) {
        Some(l) => l,
        None => c,
    }
}

/// `s` with the digits restored at the first `n` places of `positions()`:
/// every substituted letter there is turned back into its digit, and nothing
/// else is changed.
pub open spec fn restored(s: Seq<char>, n: nat) -> Seq<char> {
    Seq::new(s.len(), |i: int| if rank(i) < n { as_digit(s[i]) } else { s[i] })
}

/// The place at index `k` of `positions()` holds a letter that stands for
/// no digit.
pub open spec fn stray_letter(s: Seq<char>, k: int) -> bool {
    is_letter(s[positions()[k]]) && letter_to_digit(s[positions()[k]]) is None
}

/// One of the seven eligible places holds a letter that stands for no
/// digit.
pub open spec fn has_stray_letter(s: Seq<char>) -> bool {
    exists|k: int| 0 <= k < 7 && #[trigger] stray_letter(s, k)
}

/// The canonical form of a code of at least 15 characters: every
/// substituted letter at an eligible place is turned back into its digit.
/// Where an eligible place holds a letter that stands for no digit, the text
/// comes back as it is.
pub open spec fn normalized(s: Seq<char>) -> Seq<char> {
    if has_stray_letter(s) {
        s
    } else {
        restored(s, 7)
    }
}

/// `s` with a letter in the place of the digit at index `k` of
/// `positions()`, and nothing else changed.
pub open spec fn substituted(s: Seq<char>, k: int) -> Seq<char> {
    s.update(positions()[k], as_letter(s[positions()[k]]))
}

/// All seven eligible places of `s` hold digits.
pub open spec fn digits_at_positions(s: Seq<char>) -> bool {
    forall|k: int| 0 <= k < 7 ==> is_digit(#[trigger] s[positions()[k]])
}

/// Normalizing twice gives what normalizing once gives.
pub proof fn normalized_is_idempotent(s: Seq<char>)
    requires
        s.len() >= 15,
    ensures
        normalized(normalized(s)) == normalized(s),
{
    let once = normalized(s);
    if !has_stray_letter(s) {
        assert forall|k: int| 0 <= k < 7 implies !#[trigger] stray_letter(once, k) by {
            assert(rank(positions()[k]) == k);
            assert(!stray_letter(s, k));
        }
        assert(restored(once, 7) =~= once);
    }
}

/// The canonical forms of two texts of one length that agree on their first
/// fifteen characters agree there too. What follows those characters is
/// never changed.
pub proof fn normalized_reads_fifteen(a: Seq<char>, b: Seq<char>)
    requires
        a.len() >= 15,
        a.len() == b.len(),
        forall|i: int| 0 <= i < 15 ==> a[i] == b[i],
    ensures
        normalized(a).len() == a.len(),
        normalized(b).len() == b.len(),
        forall|i: int| 0 <= i < 15 ==> normalized(a)[i] == normalized(b)[i],
        forall|i: int| 15 <= i < a.len() ==> normalized(a)[i] == a[i],
{
    if has_stray_letter(a) {
        let k = choose|k: int| 0 <= k < 7 && #[trigger] stray_letter(a, k);
        assert(stray_letter(b, k));
    }
    if has_stray_letter(b) {
        let k = choose|k: int| 0 <= k < 7 && #[trigger] stray_letter(b, k);
        assert(stray_letter(a, k));
    }
}

/// A digit that has been swapped for its letter is found again behind the
/// letter, which is one of the upper-case letters that stand for digits.
pub proof fn letter_stands_for_digit(d: char)
    requires
        is_digit(d),
    ensures
        letter_to_digit(as_letter(d)) == Some(d),
        as_digit(as_letter(d)) == d,
        'L' <= as_letter(d) <= 'V',
        letter_to_digit(d) is None,
        as_digit(d) == d,
{
}

/// A text with digits at the seven eligible places is its own canonical
/// form, and so is the canonical form of each of its seven variants.
pub proof fn substitution_is_undone(s: Seq<char>, k: int)
    requires
        s.len() >= 15,
        digits_at_positions(s),
        0 <= k < 7,
    ensures
        normalized(s) == s,
        normalized(substituted(s, k)) == s,
{
    assert forall|j: int| 0 <= j < 7 implies !#[trigger] stray_letter(s, j) by {
        assert(is_digit(s[positions()[j]]));
    }
    assert(restored(s, 7) =~= s) by {
        assert forall|i: int| 0 <= i < s.len() implies restored(s, 7)[i] == s[i] by {
            if rank(i) < 7 {
                assert(positions()[rank(i)] == i);
                assert(is_digit(s[positions()[rank(i)]]));
                letter_stands_for_digit(s[i]);
            }
        }
    }
    let variant = substituted(s, k);
    let place = positions()[k];
    assert(is_digit(s[place]));
    letter_stands_for_digit(s[place]);
    assert forall|j: int| 0 <= j < 7 implies !#[trigger] stray_letter(variant, j) by {
        assert(is_digit(s[positions()[j]]));
    }
    assert(restored(variant, 7) =~= s) by {
        assert forall|i: int| 0 <= i < s.len() implies restored(variant, 7)[i] == s[i] by {
            if rank(i) < 7 {
                assert(positions()[rank(i)] == i);
                assert(is_digit(s[positions()[rank(i)]]));
                letter_stands_for_digit(s[i]);
            }
        }
    }
}

/// The place at index `k` of the order.
fn position(k: usize) -> (p: usize)
    requires
        k < 7,
    ensures
        p == positions()[k as int],
        rank(p as int) == k,
        6 <= p <= 14,
{
    let omocodes_letter_indices: [usize; 7] = [14, 13, 12, 10, 9, 7, 6];
    omocodes_letter_indices[k]
}

impl Omocodes {
    /// The seven variants of a code in canonical form, before their control
    /// characters are set: the variant at index `k` carries a letter at the
    /// place at index `k` of `positions()` and is the code everywhere else.
    pub fn generate(codice_fiscale: &str) -> (omocodes: Vec<Vec<char>>)
        requires
            codice_fiscale@.len() >= 15,
            digits_at_positions(codice_fiscale@),
        ensures
            omocodes@.len() == 7,
            forall|k: int|
                0 <= k < 7 ==> (#[trigger] omocodes@[k])@ == codice_fiscale@.update(
                    positions()[k],
                    as_letter(codice_fiscale@[positions()[k]]),
                ),
    {
        let starting_codice_fiscale = chars_of(codice_fiscale);
        let mut omocodes: Vec<Vec<char>> = Vec::new();
        let mut k: usize = 0;
        while k < 7
            invariant
                k <= 7,
                starting_codice_fiscale@ == codice_fiscale@,
                codice_fiscale@.len() >= 15,
                digits_at_positions(codice_fiscale@),
                omocodes@.len() == k,
                forall|j: int|
                    0 <= j < k ==> (#[trigger] omocodes@[j])@ == substituted(codice_fiscale@, j),
            decreases 7 - k,
        {
            let index = position(k);
            assert(is_digit(codice_fiscale@[positions()[k as int]]));
            let letter = inverse_map_omocodes(starting_codice_fiscale[index]).unwrap();
            let mut omocode = starting_codice_fiscale.clone();
            omocode.set(index, letter);
            assert(omocode@ =~= substituted(codice_fiscale@, k as int));
            omocodes.push(omocode);
            k += 1;
        }
        omocodes
    }

    /// The canonical form of `value`: see `normalized`.
    pub fn replace_omocodes_characters(value: &str) -> (purified: String)
        requires
            value@.len() >= 15,
        ensures
            purified@ == normalized(value@),
    {
        let mut purified_value = chars_of(value);
        let mut k: usize = 0;
        while k < 7
            invariant
                k <= 7,
                value@.len() >= 15,
                purified_value@ == restored(value@, k as nat),
                forall|i: int| 0 <= i < k ==> !#[trigger] stray_letter(value@, i),
            decreases 7 - k,
        {
            let index = position(k);
            let current_letter = purified_value[index];
            if is_ascii_alphabetic(current_letter) {
                match map_omocodes(current_letter) {
                    None => {
                        assert(stray_letter(value@, k as int));
                        return value.to_owned();
                    },
                    Some(digit) => {
                        purified_value.set(index, digit);
                    },
                }
            }
            assert(purified_value@ =~= restored(value@, (k + 1) as nat));
            k += 1;
        }
        string_of(&purified_value)
    }
}

/// The digit that a substituted letter stands for.
pub fn map_omocodes(letter: char) -> (r: Option<char>)
    ensures
        r == letter_to_digit(letter),
{
    match letter {
        'L' | 'l' => Some('0'),
        'M' | 'm' => Some('1'),
        'N' | 'n' => Some('2'),
        'P' | 'p' => Some('3'),
        'Q' | 'q' => Some('4'),
        'R' | 'r' => Some('5'),
        'S' | 's' => Some('6'),
        'T' | 't' => Some('7'),
        'U' | 'u' => Some('8'),
        'V' | 'v' => Some('9'),
        _ => None,
    }
}

/// The letter that takes the place of a digit.
pub fn inverse_map_omocodes(letter: char) -> (r: Option<char>)
    ensures
        r == digit_to_letter(letter),
{
    match letter {
        '0' => Some('L'),
        '1' => Some('M'),
        '2' => Some('N'),
        '3' => Some('P'),
        '4' => Some('Q'),
        '5' => Some('R'),
        '6' => Some('S'),
        '7' => Some('T'),
        '8' => Some('U'),
        '9' => Some('V'),
        _ => None,
    }
}

} // verus!
