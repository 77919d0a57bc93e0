//! The checks that a candidate code goes through, in their fixed order.

use vstd::prelude::*;
use vstd::utf8::{encode_utf8, is_ascii_chars};
use crate::common::{
    is_alphanumeric, is_ascii_alphabetic, is_ascii_digit, is_digit, is_letter, is_month_code,
    month_codes,
};
use crate::control_code::{control_of, ControlCode};
use crate::errors::{Rejection, VerifierError};
use crate::omocodes::{
    digits_at_positions, normalized, normalized_reads_fifteen, positions, rank,
    substitution_is_undone, Omocodes,
};
use crate::text::{ascii_bytes_ascii_chars, ascii_chars_bytes, chars_of};

verus! {

/// Checks candidate codes.
pub struct Verifier {}

/// A code that has passed every check, as it was given.
#[derive(Debug, PartialEq, Eq)]
pub struct VerifierOutcome {
    codice_fiscale: String,
}

impl View for VerifierOutcome {
    type V = Seq<char>;

    closed spec fn view(&self) -> Seq<char> {
        self.codice_fiscale@
    }
}

impl VerifierOutcome {
    #[verifier::type_invariant]
    closed spec fn well_formed(&self) -> bool {
        is_valid(self@)
    }

    /// The code that was checked.
    pub fn get(&self) -> (text: String)
        ensures
            text@ == self@,
            is_valid(text@),
    {
        proof {
            use_type_invariant(self);
        }
        self.codice_fiscale.clone()
    }
}

/// `b` is the byte of an ASCII letter or digit.
pub open spec fn alphanumeric_byte(b: u8) -> bool {
    (0x30 <= b && b <= 0x39) || (0x41 <= b && b <= 0x5a) || (0x61 <= b && b <= 0x7a)
}

/// How many bytes from index `from` on are alphanumeric before the first
/// that is not.
pub open spec fn alphanumeric_run(bytes: Seq<u8>, from: int) -> int
    decreases bytes.len() - from,
{
    if 0 <= from < bytes.len() && alphanumeric_byte(bytes[from]) {
        1 + alphanumeric_run(bytes, from + 1)
    } else {
        0
    }
}

/// A field of exactly three letters.
pub open spec fn three_letters(field: Seq<char>) -> bool {
    field.len() == 3 && is_letter(field[0]) && is_letter(field[1]) && is_letter(field[2])
}

/// A field of one letter and three digits.
pub open spec fn place_shape(field: Seq<char>) -> bool {
    field.len() == 4 && is_letter(field[0]) && is_digit(field[1]) && is_digit(field[2])
        && is_digit(field[3])
}

/// Every character of the field is a month letter.
pub open spec fn month_letters(field: Seq<char>) -> bool {
    forall|i: int| 0 <= i < field.len() ==> month_codes().contains(#[trigger] field[i])
}

/// Every character of `digits` is a decimal digit.
pub open spec fn all_digits(digits: Seq<char>) -> bool {
    forall|i: int| 0 <= i < digits.len() ==> is_digit(#[trigger] digits[i])
}

/// The number that a run of decimal digits writes.
pub open spec fn digits_value(digits: Seq<char>) -> nat
    decreases digits.len(),
{
    if digits.len() == 0 {
        0
    } else {
        (10 * digits_value(digits.drop_last()) + (digits.last() as int - '0' as int)) as nat
    }
}

/// The digits of a field: the field itself, or what follows one leading `+`.
pub open spec fn unsigned_digits(field: Seq<char>) -> Seq<char> {
    if field.len() > 0 && field[0] == '+' {
        field.drop_first()
    } else {
        field
    }
}

/// The number that a field writes, where it is an unsigned decimal number
/// that fits 32 bits: one or more digits, after at most one `+`.
pub open spec fn number_of(field: Seq<char>) -> Option<u32> {
    let digits = unsigned_digits(field);
    if digits.len() > 0 && all_digits(digits) && digits_value(digits) <= u32::MAX {
        Some(digits_value(digits) as u32)
    } else {
        None
    }
}

/// A day of the month as the code holds it: the day itself for a man, the
/// day plus 40 for a woman.
pub open spec fn day_in_range(value: u32) -> bool {
    (1 <= value && value <= 31) || (41 <= value && value <= 71)
}

/// The first rule that the fields of `raw` break, for a text of 16 ASCII
/// letters and digits; `None` where they break no rule. The fields are read
/// from the canonical form, the control character from the text as given.
pub open spec fn field_violation(raw: Seq<char>) -> Option<Rejection> {
    let pure = normalized(raw);
    let surname = pure.subrange(0, 3);
    let name = pure.subrange(3, 6);
    let year = pure.subrange(6, 8);
    let month = pure.subrange(8, 9);
    let day = pure.subrange(9, 11);
    let place = pure.subrange(11, 15);
    if !three_letters(surname) {
        Some(Rejection::InvalidSurname(surname))
    } else if !three_letters(name) {
        Some(Rejection::InvalidName(name))
    } else if number_of(year) is None {
        Some(Rejection::InvalidBirthYear(year))
    } else if !month_letters(month) {
        Some(Rejection::InvalidBirthMonth(month))
    } else if number_of(day) is None {
        Some(Rejection::InvalidBirthDayAndGender(day))
    } else if !day_in_range(number_of(day)->0) {
        Some(Rejection::InvalidBirthDayAndGenderRange(number_of(day)->0))
    } else if !place_shape(place) {
        Some(Rejection::InvalidBirthPlace(place))
    } else if raw[15] != control_of(raw) {
        Some(Rejection::InvalidControlCharacter(raw[15], control_of(raw)))
    } else {
        None
    }
}

/// The first rule that `raw` breaks; `None` where it is a valid code.
pub open spec fn first_violation(raw: Seq<char>) -> Option<Rejection> {
    let bytes = encode_utf8(raw);
    if bytes.len() != 16 {
        Some(Rejection::InvalidLength(bytes.len() as usize))
    } else if alphanumeric_run(bytes, 0) < 16 {
        Some(Rejection::NonAlphanumericCharacter(alphanumeric_run(bytes, 0) as usize))
    } else {
        field_violation(raw)
    }
}

/// `raw` is a valid code.
pub open spec fn is_valid(raw: Seq<char>) -> bool {
    first_violation(raw) is None
}

/// `raw` is 16 characters long, each an ASCII letter or digit.
pub open spec fn sixteen_alphanumeric(raw: Seq<char>) -> bool {
    raw.len() == 16 && forall|i: int| 0 <= i < 16 ==> is_alphanumeric(#[trigger] raw[i])
}

/// The run from `from` ends at the first byte that is not alphanumeric.
pub proof fn alphanumeric_run_ends(bytes: Seq<u8>, from: int, end: int)
    requires
        0 <= from <= end <= bytes.len(),
        forall|i: int| from <= i < end ==> alphanumeric_byte(#[trigger] bytes[i]),
        end < bytes.len() ==> !alphanumeric_byte(bytes[end]),
    ensures
        alphanumeric_run(bytes, from) == end - from,
    decreases end - from,
{
    if from < end {
        alphanumeric_run_ends(bytes, from + 1, end);
    }
}

/// The first two checks pass exactly the texts of 16 ASCII letters and
/// digits.
pub proof fn shape_accepted(raw: Seq<char>)
    ensures
        sixteen_alphanumeric(raw) <==> (encode_utf8(raw).len() == 16 && alphanumeric_run(
            encode_utf8(raw),
            0,
        ) == 16),
        sixteen_alphanumeric(raw) ==> first_violation(raw) == field_violation(raw),
        is_valid(raw) ==> sixteen_alphanumeric(raw),
{
    let bytes = encode_utf8(raw);
    if sixteen_alphanumeric(raw) {
        assert(is_ascii_chars(raw)) by {
            assert forall|i: int| 0 <= i < raw.len() implies '\0' <= #[trigger] raw[i]
                <= '\u{7f}' by {
                assert(is_alphanumeric(raw[i]));
            }
        }
        ascii_chars_bytes(raw);
        assert forall|i: int| 0 <= i < 16 implies alphanumeric_byte(#[trigger] bytes[i]) by {
            assert(is_alphanumeric(raw[i]));
        }
        alphanumeric_run_ends(bytes, 0, 16);
    }
    if bytes.len() == 16 && alphanumeric_run(bytes, 0) == 16 {
        alphanumeric_run_all(bytes, 0);
        ascii_bytes_ascii_chars(raw);
        ascii_chars_bytes(raw);
        assert forall|i: int| 0 <= i < 16 implies is_alphanumeric(#[trigger] raw[i]) by {
            assert(alphanumeric_byte(bytes[i]));
            vstd::utf8::char_u32_cast(raw[i], raw[i] as u32);
        }
    }
    if bytes.len() == 16 {
        alphanumeric_run_bound(bytes, 0);
    }
}

/// A run that reaches the end has met alphanumeric bytes only.
pub proof fn alphanumeric_run_all(bytes: Seq<u8>, from: int)
    requires
        0 <= from <= bytes.len(),
        alphanumeric_run(bytes, from) == bytes.len() - from,
    ensures
        forall|i: int| from <= i < bytes.len() ==> alphanumeric_byte(#[trigger] bytes[i]),
    decreases bytes.len() - from,
{
    if from < bytes.len() {
        alphanumeric_run_bound(bytes, from + 1);
        alphanumeric_run_all(bytes, from + 1);
    }
}

/// A run is no longer than what is left of the bytes.
pub proof fn alphanumeric_run_bound(bytes: Seq<u8>, from: int)
    requires
        0 <= from <= bytes.len(),
    ensures
        0 <= alphanumeric_run(bytes, from) <= bytes.len() - from,
    decreases bytes.len() - from,
{
    if from < bytes.len() && alphanumeric_byte(bytes[from]) {
        alphanumeric_run_bound(bytes, from + 1);
    }
}

/// A longer run of digits writes no smaller number than its beginning.
pub proof fn digits_value_grows(digits: Seq<char>, n: int)
    requires
        0 <= n <= digits.len(),
        all_digits(digits),
    ensures
        digits_value(digits.take(n)) <= digits_value(digits),
    decreases digits.len() - n,
{
    if n < digits.len() {
        digits_value_grows(digits, n + 1);
        assert(digits.take(n + 1).drop_last() =~= digits.take(n));
        assert(is_digit(digits[n]));
    } else {
        assert(digits.take(n) =~= digits);
    }
}

/// The field checks, as one condition on the canonical form of a code.
pub open spec fn fields_accepted(pure: Seq<char>) -> bool {
    &&& three_letters(pure.subrange(0, 3))
    &&& three_letters(pure.subrange(3, 6))
    &&& number_of(pure.subrange(6, 8)) is Some
    &&& month_letters(pure.subrange(8, 9))
    &&& number_of(pure.subrange(9, 11)) matches Some(day) && day_in_range(day)
    &&& place_shape(pure.subrange(11, 15))
}

/// The number that two digit characters write.
pub open spec fn two_digit_value(tens: char, units: char) -> int {
    10 * (tens as int - '0' as int) + (units as int - '0' as int)
}

/// The first fifteen characters of `code` have the shape of a code without
/// substituted letters: six letters, two digits, a month letter, two digits
/// that write a day, a letter and three digits.
pub open spec fn plain_fields(code: Seq<char>) -> bool {
    &&& code.len() >= 15
    &&& forall|i: int| 0 <= i < 6 ==> is_letter(#[trigger] code[i])
    &&& is_digit(code[6])
    &&& is_digit(code[7])
    &&& month_codes().contains(code[8])
    &&& is_digit(code[9])
    &&& is_digit(code[10])
    &&& day_in_range(two_digit_value(code[9], code[10]) as u32)
    &&& is_letter(code[11])
    &&& is_digit(code[12])
    &&& is_digit(code[13])
    &&& is_digit(code[14])
}

/// A text of 16 ASCII letters and digits is valid exactly where the fields
/// of its canonical form are accepted and its last character is its control
/// character.
pub proof fn validity_unfolded(raw: Seq<char>)
    requires
        sixteen_alphanumeric(raw),
    ensures
        is_valid(raw) <==> fields_accepted(normalized(raw)) && raw[15] == control_of(raw),
{
    shape_accepted(raw);
}

/// A field of two digits writes the number that its digits give.
pub proof fn two_digits_read(field: Seq<char>)
    requires
        field.len() == 2,
        is_digit(field[0]),
        is_digit(field[1]),
    ensures
        number_of(field) == Some(two_digit_value(field[0], field[1]) as u32),
        0 <= two_digit_value(field[0], field[1]) <= 99,
{
    reveal_with_fuel(digits_value, 3);
    assert(unsigned_digits(field) == field);
    assert(field.drop_last() =~= seq![field[0]]);
    assert(seq![field[0]].drop_last() =~= Seq::<char>::empty());
    assert(field.last() == field[1]);
    assert(seq![field[0]].last() == field[0]);
    assert(digits_value(field) == two_digit_value(field[0], field[1]));
}

/// The rule of the day field, for a field of two ASCII letters and digits.
/// Where both are digits the field writes a number up to 99, which is
/// accepted from 1 to 31 and from 41 to 71 and so turned down at 0, from 32
/// to 40 and from 72 to 99. Where one of them is a letter the field writes no
/// number.
pub proof fn day_field_rule(field: Seq<char>)
    requires
        field.len() == 2,
        is_alphanumeric(field[0]),
        is_alphanumeric(field[1]),
    ensures
        match number_of(field) {
            Some(day) => {
                &&& is_digit(field[0]) && is_digit(field[1])
                &&& day == two_digit_value(field[0], field[1])
                &&& day <= 99
                &&& !day_in_range(day) <==> day == 0 || (32 <= day <= 40) || (72 <= day <= 99)
            },
            None => is_letter(field[0]) || is_letter(field[1]),
        },
{
    assert(unsigned_digits(field) == field);
    if is_digit(field[0]) && is_digit(field[1]) {
        two_digits_read(field);
    }
}

/// In a field of two ASCII letters and digits that writes a number, both
/// characters are digits.
pub proof fn number_field_digits(field: Seq<char>)
    requires
        field.len() == 2,
        is_alphanumeric(field[0]),
        is_alphanumeric(field[1]),
        number_of(field) is Some,
    ensures
        is_digit(field[0]),
        is_digit(field[1]),
{
    assert(unsigned_digits(field) == field);
}

/// A code whose fields have the plain shape and whose sixteenth character
/// is its control character is valid, and is its own canonical form.
pub proof fn plain_code_is_valid(code: Seq<char>)
    requires
        code.len() == 16,
        plain_fields(code),
        code[15] == control_of(code),
    ensures
        is_valid(code),
        normalized(code) == code,
{
    crate::control_code::control_character_is_upper(crate::text::uppercased(code));
    assert(sixteen_alphanumeric(code)) by {
        assert forall|i: int| 0 <= i < 16 implies is_alphanumeric(#[trigger] code[i]) by {
            if i == 8 {
                month_code_is_letter(code[8]);
            }
        }
    }
    assert(digits_at_positions(code)) by {
        assert forall|k: int| 0 <= k < 7 implies is_digit(#[trigger] code[positions()[k]]) by {
            assert(rank(positions()[k]) == k);
        }
    }
    substitution_is_undone(code, 0);
    validity_unfolded(code);
    two_digits_read(code.subrange(6, 8));
    two_digits_read(code.subrange(9, 11));
    assert(month_letters(code.subrange(8, 9)));
    assert(three_letters(code.subrange(0, 3)));
    assert(three_letters(code.subrange(3, 6)));
    assert(place_shape(code.subrange(11, 15)));
}

/// Every month letter is an upper-case letter.
pub proof fn month_code_is_letter(c: char)
    requires
        month_codes().contains(c),
    ensures
        'A' <= c <= 'Z',
{
    let i = choose|i: int| 0 <= i < month_codes().len() && month_codes()[i] == c;
    assert(month_codes().len() == 12);
}

/// The canonical form of a text of 16 ASCII letters and digits is such a
/// text.
pub proof fn normalized_keeps_shape(raw: Seq<char>)
    requires
        sixteen_alphanumeric(raw),
    ensures
        sixteen_alphanumeric(normalized(raw)),
{
    let pure = normalized(raw);
    assert forall|i: int| 0 <= i < 16 implies is_alphanumeric(#[trigger] pure[i]) by {
        assert(is_alphanumeric(raw[i]));
    }
}

/// In a valid code, any letter in the place of the control character but
/// the right one is reported, with the right one beside it.
pub proof fn wrong_control_character_is_reported(code: Seq<char>, letter: char)
    requires
        is_valid(code),
        is_letter(letter),
        letter != code[15],
    ensures
        first_violation(code.update(15, letter)) == Some(
            Rejection::InvalidControlCharacter(letter, code[15]),
        ),
{
    let changed = code.update(15, letter);
    shape_accepted(code);
    validity_unfolded(code);
    assert(sixteen_alphanumeric(changed)) by {
        assert forall|i: int| 0 <= i < 16 implies is_alphanumeric(#[trigger] changed[i]) by {
            if i < 15 {
                assert(is_alphanumeric(code[i]));
            }
        }
    }
    shape_accepted(changed);
    normalized_reads_fifteen(code, changed);
    let pure = normalized(code);
    let pure_changed = normalized(changed);
    assert(pure_changed.subrange(0, 3) =~= pure.subrange(0, 3));
    assert(pure_changed.subrange(3, 6) =~= pure.subrange(3, 6));
    assert(pure_changed.subrange(6, 8) =~= pure.subrange(6, 8));
    assert(pure_changed.subrange(8, 9) =~= pure.subrange(8, 9));
    assert(pure_changed.subrange(9, 11) =~= pure.subrange(9, 11));
    assert(pure_changed.subrange(11, 15) =~= pure.subrange(11, 15));
    crate::text::alphanumeric_is_ascii(code);
    crate::text::alphanumeric_is_ascii(changed);
    crate::control_code::control_reads_fifteen(code, changed);
}

impl Verifier {
    /// Checks `codice_fiscale` against every rule, in order, and stops at
    /// the first that it breaks. A valid code comes back as it was given.
    pub fn verify(codice_fiscale: &str) -> (r: Result<VerifierOutcome, VerifierError>)
        ensures
            match r {
                Ok(outcome) => is_valid(codice_fiscale@) && outcome@ == codice_fiscale@,
                Err(e) => first_violation(codice_fiscale@) == Some(e@),
            },
    {
        let length = codice_fiscale.as_bytes().len();
        if length != 16 {
            return Err(VerifierError::InvalidLength(length));
        }
        match verify_characters(codice_fiscale) {
            Err(e) => {
                return Err(e);
            },
            Ok(()) => {},
        }
        proof {
            shape_accepted(codice_fiscale@);
        }
        let purified = Omocodes::replace_omocodes_characters(codice_fiscale);
        let purified_codice_fiscale = purified.as_str();

        match verify_surname_part(purified_codice_fiscale.substring_char(0, 3)) {
            Err(e) => {
                return Err(e);
            },
            Ok(()) => {},
        }
        match verify_name_part(purified_codice_fiscale.substring_char(3, 6)) {
            Err(e) => {
                return Err(e);
            },
            Ok(()) => {},
        }
        match verify_birth_year_part(purified_codice_fiscale.substring_char(6, 8)) {
            Err(e) => {
                return Err(e);
            },
            Ok(()) => {},
        }
        match verify_birth_month_part(purified_codice_fiscale.substring_char(8, 9)) {
            Err(e) => {
                return Err(e);
            },
            Ok(()) => {},
        }
        match verify_birth_day_and_gender_part(purified_codice_fiscale.substring_char(9, 11)) {
            Err(e) => {
                return Err(e);
            },
            Ok(()) => {},
        }
        match verify_birth_place_part(purified_codice_fiscale.substring_char(11, 15)) {
            Err(e) => {
                return Err(e);
            },
            Ok(()) => {},
        }
        assert(codice_fiscale@.last() == codice_fiscale@[15]);
        match verify_control_code(codice_fiscale) {
            Err(e) => {
                return Err(e);
            },
            Ok(()) => {},
        }
        Ok(VerifierOutcome { codice_fiscale: codice_fiscale.to_owned() })
    }
}

/// Accepts text whose bytes are all ASCII letters and digits, and names the
/// first byte that is neither.
pub fn verify_characters(codice_fiscale: &str) -> (r: Result<(), VerifierError>)
    ensures
        match r {
            Ok(()) => alphanumeric_run(encode_utf8(codice_fiscale@), 0) == encode_utf8(
                codice_fiscale@,
            ).len(),
            Err(e) => {
                &&& alphanumeric_run(encode_utf8(codice_fiscale@), 0) < encode_utf8(
                    codice_fiscale@,
                ).len()
                &&& e@ == Rejection::NonAlphanumericCharacter(
                    alphanumeric_run(encode_utf8(codice_fiscale@), 0) as usize,
                )
            },
        },
{
    let bytes = codice_fiscale.as_bytes();
    let mut position: usize = 0;
    while position < bytes.len()
        invariant
            position <= bytes.len(),
            bytes@ == encode_utf8(codice_fiscale@),
            forall|i: int| 0 <= i < position ==> alphanumeric_byte(#[trigger] bytes@[i]),
        decreases bytes.len() - position,
    {
        let c = bytes[position];
        if !((0x30 <= c && c <= 0x39) || (0x41 <= c && c <= 0x5a) || (0x61 <= c && c <= 0x7a)) {
            proof {
                alphanumeric_run_ends(bytes@, 0, position as int);
            }
            return Err(VerifierError::NonAlphanumericCharacter(position));
        }
        position += 1;
    }
    proof {
        alphanumeric_run_ends(bytes@, 0, bytes@.len() as int);
    }
    Ok(())
}

/// Accepts a surname field of three ASCII letters.
pub fn verify_surname_part(surname_part: &str) -> (r: Result<(), VerifierError>)
    ensures
        match r {
            Ok(()) => three_letters(surname_part@),
            Err(e) => !three_letters(surname_part@) && e@ == Rejection::InvalidSurname(
                surname_part@,
            ),
        },
{
    if is_three_letters(surname_part) {
        Ok(())
    } else {
        Err(VerifierError::InvalidSurname(surname_part.to_owned()))
    }
}

/// Accepts a name field of three ASCII letters.
pub fn verify_name_part(name_part: &str) -> (r: Result<(), VerifierError>)
    ensures
        match r {
            Ok(()) => three_letters(name_part@),
            Err(e) => !three_letters(name_part@) && e@ == Rejection::InvalidName(name_part@),
        },
{
    if is_three_letters(name_part) {
        Ok(())
    } else {
        Err(VerifierError::InvalidName(name_part.to_owned()))
    }
}

fn is_three_letters(part: &str) -> (b: bool)
    ensures
        b == three_letters(part@),
{
    let chars = chars_of(part);
    chars.len() == 3 && is_ascii_alphabetic(chars[0]) && is_ascii_alphabetic(chars[1])
        && is_ascii_alphabetic(chars[2])
}

/// Reads an unsigned decimal number that fits 32 bits.
pub fn parse_number(field: &str) -> (r: Option<u32>)
    ensures
        r == number_of(field@),
{
    let chars = chars_of(field);
    let start: usize = if chars.len() > 0 && chars[0] == '+' {
        1
    } else {
        0
    };
    let ghost digits = unsigned_digits(field@);
    assert(digits =~= chars@.skip(start as int));
    if chars.len() == start {
        return None;
    }
    let mut value: u64 = 0;
    let mut i: usize = start;
    while i < chars.len()
        invariant
            start <= i <= chars.len(),
            digits == unsigned_digits(field@),
            digits == chars@.skip(start as int),
            all_digits(digits.take(i - start)),
            value == digits_value(digits.take(i - start)),
            value <= u32::MAX,
        decreases chars.len() - i,
    {
        let c = chars[i];
        assert(digits[i - start] == c);
        if !is_ascii_digit(c) {
            return None;
        }
        assert(digits.take(i - start + 1).drop_last() =~= digits.take(i - start));
        assert(all_digits(digits.take(i - start + 1))) by {
            assert forall|j: int| 0 <= j < i - start + 1 implies is_digit(
                #[trigger] digits.take(i - start + 1)[j],
            ) by {
                if j < i - start {
                    assert(digits.take(i - start)[j] == digits[j]);
                }
            }
        }
        value = value * 10 + ((c as u8 - '0' as u8) as u64);
        if value > u32::MAX as u64 {
            proof {
                if all_digits(digits) {
                    digits_value_grows(digits, i - start + 1);
                }
            }
            return None;
        }
        i += 1;
    }
    assert(digits.take(i - start) =~= digits);
    Some(value as u32)
}

/// Accepts a year field that writes a number.
pub fn verify_birth_year_part(birth_year_part: &str) -> (r: Result<(), VerifierError>)
    ensures
        match r {
            Ok(()) => number_of(birth_year_part@) is Some,
            Err(e) => number_of(birth_year_part@) is None && e@ == Rejection::InvalidBirthYear(
                birth_year_part@,
            ),
        },
{
    match parse_number(birth_year_part) {
        Some(_) => Ok(()),
        None => Err(VerifierError::InvalidBirthYear(birth_year_part.to_owned())),
    }
}

/// Accepts a month field made of month letters.
pub fn verify_birth_month_part(birth_month_part: &str) -> (r: Result<(), VerifierError>)
    ensures
        match r {
            Ok(()) => month_letters(birth_month_part@),
            Err(e) => !month_letters(birth_month_part@) && e@ == Rejection::InvalidBirthMonth(
                birth_month_part@,
            ),
        },
{
    let chars = chars_of(birth_month_part);
    let mut i: usize = 0;
    while i < chars.len()
        invariant
            i <= chars.len(),
            chars@ == birth_month_part@,
            forall|j: int| 0 <= j < i ==> month_codes().contains(#[trigger] chars@[j]),
        decreases chars.len() - i,
    {
        if !is_month_code(&chars[i]) {
            return Err(VerifierError::InvalidBirthMonth(birth_month_part.to_owned()));
        }
        i += 1;
    }
    Ok(())
}

/// Accepts a day field that writes a number from 1 to 31 or from 41 to 71.
/// A field that writes no number and a number outside both ranges are told
/// apart.
pub fn verify_birth_day_and_gender_part(birth_day_and_gender_part: &str) -> (r: Result<
    (),
    VerifierError,
>)
    ensures
        match r {
            Ok(()) => number_of(birth_day_and_gender_part@) matches Some(v) && day_in_range(v),
            Err(e) => match number_of(birth_day_and_gender_part@) {
                None => e@ == Rejection::InvalidBirthDayAndGender(birth_day_and_gender_part@),
                Some(v) => !day_in_range(v) && e@ == Rejection::InvalidBirthDayAndGenderRange(v),
            },
        },
{
    match parse_number(birth_day_and_gender_part) {
        None => Err(
            VerifierError::InvalidBirthDayAndGender(birth_day_and_gender_part.to_owned()),
        ),
        Some(birth_day) => {
            if (1 <= birth_day && birth_day <= 31) || (41 <= birth_day && birth_day <= 71) {
                Ok(())
            } else {
                Err(VerifierError::InvalidBirthDayAndGenderRange(birth_day))
            }
        },
    }
}

/// Accepts a place field of one ASCII letter and three ASCII digits.
pub fn verify_birth_place_part(birth_place_part: &str) -> (r: Result<(), VerifierError>)
    ensures
        match r {
            Ok(()) => place_shape(birth_place_part@),
            Err(e) => !place_shape(birth_place_part@) && e@ == Rejection::InvalidBirthPlace(
                birth_place_part@,
            ),
        },
{
    let chars = chars_of(birth_place_part);
    if chars.len() == 4 && is_ascii_alphabetic(chars[0]) && is_ascii_digit(chars[1])
        && is_ascii_digit(chars[2]) && is_ascii_digit(chars[3]) {
        Ok(())
    } else {
        Err(VerifierError::InvalidBirthPlace(birth_place_part.to_owned()))
    }
}

/// Compares the last character of the text with the control character of
/// the text. Empty text is reported with a blank in place of the character
/// found.
pub fn verify_control_code(codice_fiscale: &str) -> (r: Result<(), VerifierError>)
    ensures
        match r {
            Ok(()) => codice_fiscale@.len() > 0 && codice_fiscale@.last() == control_of(
                codice_fiscale@,
            ),
            Err(e) => {
                &&& !(codice_fiscale@.len() > 0 && codice_fiscale@.last() == control_of(
                    codice_fiscale@,
                ))
                &&& e@ == Rejection::InvalidControlCharacter(
                    if codice_fiscale@.len() > 0 {
                        codice_fiscale@.last()
                    } else {
                        ' '
                    },
                    control_of(codice_fiscale@),
                )
            },
        },
{
    let expected_control_code = ControlCode::compute(codice_fiscale);
    let chars = chars_of(codice_fiscale);
    if chars.len() == 0 {
        Err(VerifierError::InvalidControlCharacter(' ', expected_control_code))
    } else {
        let value = chars[chars.len() - 1];
        if expected_control_code == value {
            Ok(())
        } else {
            Err(VerifierError::InvalidControlCharacter(value, expected_control_code))
        }
    }
}

} // verus!
