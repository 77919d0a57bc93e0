//! Making codes: from the data of a person, from random draws, and the
//! omocode variants of a code.

use rand::distributions::{Distribution, Uniform};
use rand::rngs::StdRng;
use rand::SeedableRng;
use vstd::prelude::*;
use crate::common::{
    alphabet, alphabet_entries, consonant, digit_char, is_alphanumeric, is_consonant, is_digit,
    is_letter, is_vowel, month_codes, to_alphabet, to_ascii_uppercase, to_month_codes, upper,
    upper_seq, vowel,
};
use crate::control_code::{
    control_character_is_upper, control_of, control_reads_fifteen, ControlCode,
};
use crate::omocodes::{
    as_letter, digits_at_positions, letter_stands_for_digit, normalized,
    normalized_reads_fifteen, positions, rank, substituted, substitution_is_undone, Omocodes,
};
use crate::person_data::{BirthDate, Date, Gender, Person, PersonData};
use crate::text::{alphanumeric_is_ascii, chars_of, push_char, string_of, uppercased};
use crate::verify::{
    is_valid, month_code_is_letter, normalized_keeps_shape, number_field_digits,
    plain_code_is_valid, plain_fields, shape_accepted, two_digit_value, validity_unfolded,
};

verus! {

/// Makes codes.
pub struct Generator {}

/// `rand::rngs::StdRng`, the generator that the draws are taken from.
#[verifier::external_type_specification]
#[verifier::external_body]
pub struct ExStdRng(StdRng);

/// The consonants of `value`, in their order.
pub open spec fn consonants(value: Seq<char>) -> Seq<char> {
    value.filter(|c: char| consonant(c))
}

/// The vowels of `value`, in their order.
pub open spec fn vowels(value: Seq<char>) -> Seq<char> {
    value.filter(|c: char| vowel(c))
}

/// The three letters that stand for a name or a surname: its consonants,
/// then its vowels, then as many `X` as are needed, cut after the third; all
/// in upper case.
pub open spec fn name_part(value: Seq<char>) -> Seq<char> {
    (upper_seq(consonants(value)) + upper_seq(vowels(value)) + seq!['X', 'X', 'X']).take(3)
}

/// The two decimal digits of `n`, for `0 <= n < 100`.
pub open spec fn two_digits(n: int) -> Seq<char> {
    seq![digit_char(n / 10), digit_char(n % 10)]
}

/// The last two digits of a year.
pub open spec fn year_in_century(year: int) -> int {
    (if year < 0 {
        -year
    } else {
        year
    }) % 100
}

/// The number in the day field: the day for a man, the day plus 40 for a
/// woman.
pub open spec fn day_number(day: int, gender: Gender) -> int {
    match gender {
        Gender::F => day + 40,
        Gender::M => day,
    }
}

/// The five characters that stand for a date of birth and a gender: two
/// digits of the year, the letter of the month, two digits of the day.
pub open spec fn date_part(date: Date, gender: Gender) -> Seq<char> {
    two_digits(year_in_century(date.year)) + seq![month_codes()[date.month - 1]] + two_digits(
        day_number(date.day, gender),
    )
}

/// The first fifteen characters of the code of a person: the parts of the
/// surname, of the name and of the date, and the place code in upper case.
pub open spec fn code_body(person: Person) -> Seq<char> {
    name_part(person.surname) + name_part(person.name) + date_part(
        person.birthdate,
        person.gender,
    ) + upper_seq(person.place_of_birth)
}

/// The code of a person: the fifteen characters and their control character.
pub open spec fn fiscal_code(person: Person) -> Seq<char> {
    code_body(person).push(control_of(code_body(person)))
}

/// An omocode with its control character set: the character is computed
/// from the text as it stands, and takes the place of the sixteenth
/// character where the text has exactly sixteen, else it is added at the end.
pub open spec fn with_control(omocode: Seq<char>) -> Seq<char> {
    let body = if omocode.len() == 16 {
        omocode.drop_last()
    } else {
        omocode
    };
    body.push(control_of(omocode))
}

/// The omocode of `code` at index `k`: the canonical form of the code with
/// a letter at the place at index `k` of `positions()`, and its control
/// character set.
pub open spec fn omocode_of(code: Seq<char>, k: int) -> Seq<char> {
    with_control(substituted(normalized(code), k))
}

/// The least value of the draw at index `i`, of the sixteen that make a
/// random code.
pub open spec fn draw_low(i: int) -> int {
    if (0 <= i < 6) || i == 9 || i == 12 {
        1
    } else {
        0
    }
}

/// The bound that the draw at index `i` stays below. The draws are, in
/// order: six places in the alphabet, two digits, a place in the month
/// table, two draws that choose the first digit of the day, its second
/// digit, a place in the alphabet and three digits.
pub open spec fn draw_high(i: int) -> int {
    if (0 <= i < 6) || i == 12 {
        26
    } else if i == 8 {
        12
    } else if i == 9 || i == 10 {
        2
    } else {
        10
    }
}

/// Sixteen draws, each within its range.
pub open spec fn valid_draws(draws: Seq<u32>) -> bool {
    draws.len() == 16 && forall|i: int|
        0 <= i < 16 ==> draw_low(i) <= #[trigger] draws[i] < draw_high(i)
}

/// The fifteen characters that sixteen draws choose. The first digit of the
/// day is the tenth draw plus four times the eleventh: 1 or 5.
pub open spec fn random_body(draws: Seq<u32>) -> Seq<char> {
    seq![
        alphabet()[draws[0] as int],
        alphabet()[draws[1] as int],
        alphabet()[draws[2] as int],
        alphabet()[draws[3] as int],
        alphabet()[draws[4] as int],
        alphabet()[draws[5] as int],
        digit_char(draws[6] as int),
        digit_char(draws[7] as int),
        month_codes()[draws[8] as int],
        digit_char(draws[9] + 4 * draws[10]),
        digit_char(draws[11] as int),
        alphabet()[draws[12] as int],
        digit_char(draws[13] as int),
        digit_char(draws[14] as int),
        digit_char(draws[15] as int),
    ]
}

/// The code that sixteen draws choose: the fifteen characters and their
/// control character.
pub open spec fn random_code(draws: Seq<u32>) -> Seq<char> {
    random_body(draws).push(control_of(random_body(draws)))
}

/// The consonants and vowels of a text grow with the text, one character at
/// a time.
pub proof fn letters_step(value: Seq<char>, i: int)
    requires
        0 <= i < value.len(),
    ensures
        consonants(value.take(i + 1)) == if consonant(value[i]) {
            consonants(value.take(i)).push(value[i])
        } else {
            consonants(value.take(i))
        },
        vowels(value.take(i + 1)) == if vowel(value[i]) {
            vowels(value.take(i)).push(value[i])
        } else {
            vowels(value.take(i))
        },
{
    reveal(Seq::filter);
    assert(value.take(i + 1).drop_last() =~= value.take(i));
}

/// The part of a name is three upper-case letters.
pub proof fn name_part_letters(value: Seq<char>)
    ensures
        name_part(value).len() == 3,
        forall|i: int| 0 <= i < 3 ==> 'A' <= #[trigger] name_part(value)[i] <= 'Z',
{
    let found_consonants = consonants(value);
    let found_vowels = vowels(value);
    assert forall|j: int| 0 <= j < found_consonants.len() implies consonant(
        #[trigger] found_consonants[j],
    ) by {
        value.lemma_filter_pred(|c: char| consonant(c), j);
    }
    assert forall|j: int| 0 <= j < found_vowels.len() implies vowel(#[trigger] found_vowels[j]) by {
        value.lemma_filter_pred(|c: char| vowel(c), j);
    }
    let all = upper_seq(found_consonants) + upper_seq(found_vowels) + seq!['X', 'X', 'X'];
    assert forall|i: int| 0 <= i < 3 implies 'A' <= #[trigger] name_part(value)[i] <= 'Z' by {
        assert(name_part(value)[i] == all[i]);
        if i < found_consonants.len() {
            assert(all[i] == upper(found_consonants[i]));
        } else if i - found_consonants.len() < found_vowels.len() {
            assert(all[i] == upper(found_vowels[i - found_consonants.len()]));
        } else {
            assert(all[i] == 'X');
        }
    }
}

/// The two digits of a number below 100 write that number.
pub proof fn two_digits_write(n: int)
    requires
        0 <= n < 100,
    ensures
        two_digits(n).len() == 2,
        is_digit(two_digits(n)[0]),
        is_digit(two_digits(n)[1]),
        two_digit_value(two_digits(n)[0], two_digits(n)[1]) == n,
{
}

/// The code of every valid person is a valid code, with no substituted
/// letter and no lower-case letter in it.
pub proof fn generated_code_is_valid(person: Person)
    requires
        person.valid(),
    ensures
        fiscal_code(person).len() == 16,
        is_valid(fiscal_code(person)),
        normalized(fiscal_code(person)) == fiscal_code(person),
        upper_seq(fiscal_code(person)) == fiscal_code(person),
{
    let body = code_body(person);
    let code = fiscal_code(person);
    let date = person.birthdate;
    name_part_letters(person.surname);
    name_part_letters(person.name);
    two_digits_write(year_in_century(date.year));
    two_digits_write(day_number(date.day, person.gender));
    let year = two_digits(year_in_century(date.year));
    let day = two_digits(day_number(date.day, person.gender));
    assert(body.len() == 15);
    assert forall|i: int| 0 <= i < 6 implies is_letter(#[trigger] code[i]) by {
        if i < 3 {
            assert(code[i] == name_part(person.surname)[i]);
        } else {
            assert(code[i] == name_part(person.name)[i - 3]);
        }
    }
    assert(code[6] == year[0]);
    assert(code[7] == year[1]);
    assert(code[8] == month_codes()[date.month - 1]);
    assert(code[9] == day[0]);
    assert(code[10] == day[1]);
    assert(code[11] == upper(person.place_of_birth[0]));
    assert(code[12] == upper(person.place_of_birth[1]));
    assert(code[13] == upper(person.place_of_birth[2]));
    assert(code[14] == upper(person.place_of_birth[3]));
    assert(plain_fields(body));
    plain_code_has_control(body);
    control_character_is_upper(uppercased(body));
    month_code_is_letter(code[8]);
    assert(upper_seq(code) =~= code);
}

/// Fifteen characters of the plain shape, followed by their control
/// character, make a valid code with no substituted letter in it.
pub proof fn plain_code_has_control(body: Seq<char>)
    requires
        body.len() == 15,
        plain_fields(body),
    ensures
        is_valid(body.push(control_of(body))),
        normalized(body.push(control_of(body))) == body.push(control_of(body)),
{
    let code = body.push(control_of(body));
    control_character_is_upper(uppercased(body));
    assert forall|i: int| 0 <= i < 16 implies is_alphanumeric(#[trigger] code[i]) by {
        if i == 8 {
            month_code_is_letter(code[8]);
        }
    }
    assert forall|i: int| 0 <= i < 15 implies is_alphanumeric(#[trigger] body[i]) by {
        assert(body[i] == code[i]);
    }
    alphanumeric_is_ascii(code);
    alphanumeric_is_ascii(body);
    control_reads_fifteen(code, body);
    assert(plain_fields(code));
    plain_code_is_valid(code);
}

/// Whatever is drawn within the ranges, the code that the draws choose is
/// valid.
pub proof fn random_code_is_valid(draws: Seq<u32>)
    requires
        valid_draws(draws),
    ensures
        random_code(draws).len() == 16,
        is_valid(random_code(draws)),
{
    let body = random_body(draws);
    assert forall|i: int| 0 <= i < 6 implies is_letter(#[trigger] body[i]) by {
        assert(draw_low(i) <= draws[i] < draw_high(i));
        alphabet_entries(draws[i] as int);
    }
    assert(draw_low(6) <= draws[6] < draw_high(6));
    assert(draw_low(7) <= draws[7] < draw_high(7));
    assert(draw_low(8) <= draws[8] < draw_high(8));
    assert(draw_low(9) <= draws[9] < draw_high(9));
    assert(draw_low(10) <= draws[10] < draw_high(10));
    assert(draw_low(11) <= draws[11] < draw_high(11));
    assert(draw_low(12) <= draws[12] < draw_high(12));
    assert(draw_low(13) <= draws[13] < draw_high(13));
    assert(draw_low(14) <= draws[14] < draw_high(14));
    assert(draw_low(15) <= draws[15] < draw_high(15));
    alphabet_entries(draws[12] as int);
    assert(month_codes().contains(body[8]));
    assert(plain_fields(body));
    plain_code_has_control(body);
}

/// The canonical form of a valid code holds digits at the seven eligible
/// places. Each of its seven omocodes is a valid code that differs from the
/// canonical form at one of those places only, apart from the control
/// character, and has the same canonical form up to that character.
pub proof fn omocode_is_valid(code: Seq<char>, k: int)
    requires
        is_valid(code),
        0 <= k < 7,
    ensures
        digits_at_positions(normalized(code)),
        omocode_of(code, k).len() == 16,
        is_valid(omocode_of(code, k)),
        omocode_of(code, k)[positions()[k]] == as_letter(normalized(code)[positions()[k]]),
        forall|i: int|
            0 <= i < 15 && i != positions()[k] ==> omocode_of(code, k)[i] == normalized(code)[i],
        forall|i: int| 0 <= i < 15 ==> normalized(omocode_of(code, k))[i] == normalized(code)[i],
{
    let pure = normalized(code);
    shape_accepted(code);
    validity_unfolded(code);
    normalized_keeps_shape(code);
    number_field_digits(pure.subrange(6, 8));
    number_field_digits(pure.subrange(9, 11));
    let place = pure.subrange(11, 15);
    assert(is_digit(pure[6]) && is_digit(pure[7])) by {
        assert(pure.subrange(6, 8)[0] == pure[6] && pure.subrange(6, 8)[1] == pure[7]);
    }
    assert(is_digit(pure[9]) && is_digit(pure[10])) by {
        assert(pure.subrange(9, 11)[0] == pure[9] && pure.subrange(9, 11)[1] == pure[10]);
    }
    assert(is_digit(pure[12]) && is_digit(pure[13]) && is_digit(pure[14])) by {
        assert(place[1] == pure[12] && place[2] == pure[13] && place[3] == pure[14]);
    }
    assert(digits_at_positions(pure)) by {
        assert forall|j: int| 0 <= j < 7 implies is_digit(#[trigger] pure[positions()[j]]) by {
            assert(rank(positions()[j]) == j);
        }
    }
    let variant = substituted(pure, k);
    let omocode = omocode_of(code, k);
    assert(omocode == variant.drop_last().push(control_of(variant)));
    control_character_is_upper(uppercased(variant));
    assert(is_digit(pure[positions()[k]]));
    letter_stands_for_digit(pure[positions()[k]]);
    assert forall|i: int| 0 <= i < 16 implies is_alphanumeric(#[trigger] variant[i]) by {
        assert(is_alphanumeric(pure[i]));
    }
    assert forall|i: int| 0 <= i < 16 implies is_alphanumeric(#[trigger] omocode[i]) by {
        if i < 15 {
            assert(omocode[i] == variant[i]);
        }
    }
    substitution_is_undone(pure, k);
    normalized_reads_fifteen(omocode, variant);
    let again = normalized(omocode);
    assert forall|i: int| 0 <= i < 15 implies again[i] == pure[i] by {
        assert(again[i] == normalized(variant)[i]);
    }
    assert(again.subrange(0, 3) =~= pure.subrange(0, 3));
    assert(again.subrange(3, 6) =~= pure.subrange(3, 6));
    assert(again.subrange(6, 8) =~= pure.subrange(6, 8));
    assert(again.subrange(8, 9) =~= pure.subrange(8, 9));
    assert(again.subrange(9, 11) =~= pure.subrange(9, 11));
    assert(again.subrange(11, 15) =~= pure.subrange(11, 15));
    alphanumeric_is_ascii(variant);
    alphanumeric_is_ascii(omocode);
    control_reads_fifteen(omocode, variant);
    validity_unfolded(omocode);
}

/// The seven omocodes of a valid code differ from one another, and each
/// differs from the canonical form of the code.
pub proof fn omocodes_differ(code: Seq<char>, m: int, n: int)
    requires
        is_valid(code),
        0 <= m < n < 7,
    ensures
        omocode_of(code, m) != omocode_of(code, n),
        omocode_of(code, m) != normalized(code),
        omocode_of(code, n) != normalized(code),
{
    omocode_is_valid(code, m);
    omocode_is_valid(code, n);
    let pure = normalized(code);
    assert(is_digit(pure[positions()[m]]));
    assert(is_digit(pure[positions()[n]]));
    letter_stands_for_digit(pure[positions()[m]]);
    letter_stands_for_digit(pure[positions()[n]]);
    assert(omocode_of(code, n)[positions()[m]] == pure[positions()[m]]);
}

/// The code of a person depends on the data of the person alone: two
/// persons with the same data have the same code.
pub proof fn generate_is_deterministic(first: PersonData, second: PersonData)
    requires
        first@ == second@,
    ensures
        fiscal_code(first@) == fiscal_code(second@),
{
}

/// The three letters that stand for a name or a surname.
pub fn generate_name_or_surname_part(value: String) -> (result: Vec<char>)
    ensures
        result@ == name_part(value@),
{
    let chars = chars_of(value.as_str());
    let mut found_consonants: Vec<char> = Vec::new();
    let mut found_vowels: Vec<char> = Vec::new();
    let mut i: usize = 0;
    proof {
        reveal(Seq::filter);
        assert(chars@.take(0) =~= Seq::<char>::empty());
    }
    while i < chars.len()
        invariant
            i <= chars.len(),
            chars@ == value@,
            found_consonants@ == upper_seq(consonants(chars@.take(i as int))),
            found_vowels@ == upper_seq(vowels(chars@.take(i as int))),
        decreases chars.len() - i,
    {
        let c = chars[i];
        proof {
            letters_step(chars@, i as int);
        }
        let ghost before_consonants = consonants(chars@.take(i as int));
        let ghost before_vowels = vowels(chars@.take(i as int));
        if is_consonant(&c) {
            found_consonants.push(to_ascii_uppercase(c));
            assert(found_consonants@ =~= upper_seq(before_consonants.push(c)));
        } else if is_vowel(&c) {
            found_vowels.push(to_ascii_uppercase(c));
            assert(found_vowels@ =~= upper_seq(before_vowels.push(c)));
        }
        i += 1;
    }
    assert(chars@.take(i as int) =~= chars@);
    let mut result: Vec<char> = Vec::new();
    let mut k: usize = 0;
    let ghost all = found_consonants@ + found_vowels@ + seq!['X', 'X', 'X'];
    while k < 3
        invariant
            k <= 3,
            all == found_consonants@ + found_vowels@ + seq!['X', 'X', 'X'],
            result@ == all.take(k as int),
        decreases 3 - k,
    {
        let next = if k < found_consonants.len() {
            found_consonants[k]
        } else if k - found_consonants.len() < found_vowels.len() {
            found_vowels[k - found_consonants.len()]
        } else {
            'X'
        };
        result.push(next);
        assert(result@ =~= all.take(k + 1));
        k += 1;
    }
    result
}

/// The two characters that write `n` in decimal.
fn push_two_digits(out: &mut Vec<char>, n: u8)
    requires
        n < 100,
    ensures
        final(out)@ == old(out)@ + two_digits(n as int),
{
    out.push(('0' as u8 + n / 10) as char);
    out.push(('0' as u8 + n % 10) as char);
    assert(out@ =~= old(out)@ + two_digits(n as int));
}

/// The five characters that stand for a date of birth and a gender.
pub fn generate_birth_day_and_gender_parts(birthday: BirthDate, gender: Gender) -> (result: Vec<
    char,
>)
    ensures
        result@ == date_part(birthday@, gender),
{
    let year = birthday.year() as i64;
    let magnitude: i64 = if year < 0 {
        -year
    } else {
        year
    };
    let mut result: Vec<char> = Vec::new();
    push_two_digits(&mut result, (magnitude % 100) as u8);
    result.push(to_month_codes((birthday.month() - 1) as usize));
    let day: u32 = match gender {
        Gender::F => birthday.day() + 40,
        Gender::M => birthday.day(),
    };
    push_two_digits(&mut result, day as u8);
    assert(result@ =~= date_part(birthday@, gender));
    result
}

/// Adds the characters of `part` to `out`.
fn extend(out: &mut Vec<char>, part: &Vec<char>)
    ensures
        final(out)@ == old(out)@ + part@,
{
    let mut i: usize = 0;
    while i < part.len()
        invariant
            i <= part.len(),
            out@ == old(out)@ + part@.take(i as int),
        decreases part.len() - i,
    {
        out.push(part[i]);
        assert(out@ =~= old(out)@ + part@.take(i + 1));
        i += 1;
    }
    assert(part@.take(i as int) =~= part@);
}

/// Calls `SeedableRng::seed_from_u64` for `StdRng`: a generator whose
/// sequence the seed fixes.
#[verifier::external_body]
fn seeded_generator(seed: u64) -> (rng: StdRng) {
    StdRng::seed_from_u64(seed)
}

/// Calls `SeedableRng::from_entropy` for `StdRng`: a generator seeded from
/// the operating system. It panics where the system has no random bytes to
/// give.
#[verifier::external_body]
fn entropy_generator() -> (rng: StdRng) {
    StdRng::from_entropy()
}

/// Calls `Uniform::from` on the range `low..high` and `Distribution::sample`
/// on what it returns: a value of the range, `high` excluded. `Uniform::from`
/// panics on an empty range, which `requires` leaves out. The sampler draws
/// again for as long as a draw falls into the part of the generator's range
/// that it rejects.
#[verifier::external_body]
fn sample_index(rng: &mut StdRng, low: usize, high: usize) -> (value: usize)
    requires
        low < high,
    ensures
        low <= value < high,
{
    Uniform::from(low..high).sample(rng)
}

/// Calls `Uniform::from` on the range `low..high` and `Distribution::sample`
/// on what it returns: a value of the range, `high` excluded. `Uniform::from`
/// panics on an empty range, which `requires` leaves out. The sampler draws
/// again for as long as a draw falls into the part of the generator's range
/// that it rejects.
#[verifier::external_body]
fn sample_number(rng: &mut StdRng, low: u32, high: u32) -> (value: u32)
    requires
        low < high,
    ensures
        low <= value < high,
{
    Uniform::from(low..high).sample(rng)
}

/// The range of the draw at index `i`, and whether it is drawn as an index
/// into a table.
fn draw_range(i: usize) -> (range: (u32, u32, bool))
    requires
        i < 16,
    ensures
        range.0 == draw_low(i as int),
        range.1 == draw_high(i as int),
        range.0 < range.1,
        range.2 == (i < 6 || i == 8 || i == 12),
{
    if i < 6 || i == 12 {
        (1, 26, true)
    } else if i == 8 {
        (0, 12, true)
    } else if i == 9 {
        (1, 2, false)
    } else if i == 10 {
        (0, 2, false)
    } else {
        (0, 10, false)
    }
}

/// The character of a decimal digit.
fn to_digit(d: u32) -> (c: char)
    requires
        d < 10,
    ensures
        c == digit_char(d as int),
{
    ('0' as u8 + d as u8) as char
}

impl Generator {
    /// A random code. With a seed the draws, and so the code, are the same
    /// at every call; without one the generator is seeded from the operating
    /// system, and the call panics where the system has no random bytes to
    /// give. Either way the code is one that sixteen draws within their
    /// ranges choose, and it is valid.
    pub fn generate_random(seed: Option<u64>) -> (code: String)
        ensures
            exists|draws: Seq<u32>| valid_draws(draws) && code@ == random_code(draws),
            is_valid(code@),
    {
        let mut rng = match seed {
            Some(value) => seeded_generator(value),
            None => entropy_generator(),
        };
        let mut draws: Vec<u32> = Vec::new();
        let mut i: usize = 0;
        while i < 16
            invariant
                i <= 16,
                draws@.len() == i,
                forall|j: int| 0 <= j < i ==> draw_low(j) <= #[trigger] draws@[j] < draw_high(j),
            decreases 16 - i,
        {
            let (low, high, index) = draw_range(i);
            let value = if index {
                sample_index(&mut rng, low as usize, high as usize) as u32
            } else {
                sample_number(&mut rng, low, high)
            };
            draws.push(value);
            i += 1;
        }
        Self::code_from_draws(&draws).unwrap()
    }

    /// The code that `draws` choose, where they are sixteen and each is
    /// within its range.
    pub fn code_from_draws(draws: &Vec<u32>) -> (r: Option<String>)
        ensures
            match r {
                Some(code) => valid_draws(draws@) && code@ == random_code(draws@) && is_valid(
                    code@,
                ),
                None => !valid_draws(draws@),
            },
    {
        if draws.len() != 16 {
            return None;
        }
        let mut i: usize = 0;
        while i < 16
            invariant
                i <= 16,
                draws@.len() == 16,
                forall|j: int| 0 <= j < i ==> draw_low(j) <= #[trigger] draws@[j] < draw_high(j),
            decreases 16 - i,
        {
            let (low, high, _) = draw_range(i);
            if draws[i] < low || draws[i] >= high {
                return None;
            }
            i += 1;
        }
        assert(draw_low(9) <= draws@[9] < draw_high(9));
        assert(draw_low(10) <= draws@[10] < draw_high(10));
        let mut codice_fiscale: Vec<char> = Vec::new();
        let mut k: usize = 0;
        while k < 6
            invariant
                k <= 6,
                valid_draws(draws@),
                codice_fiscale@ == random_body(draws@).take(k as int),
            decreases 6 - k,
        {
            codice_fiscale.push(to_alphabet(draws[k] as usize));
            assert(codice_fiscale@ =~= random_body(draws@).take(k + 1));
            k += 1;
        }
        codice_fiscale.push(to_digit(draws[6]));
        codice_fiscale.push(to_digit(draws[7]));
        codice_fiscale.push(to_month_codes(draws[8] as usize));
        codice_fiscale.push(to_digit(draws[9] + 4 * draws[10]));
        codice_fiscale.push(to_digit(draws[11]));
        codice_fiscale.push(to_alphabet(draws[12] as usize));
        codice_fiscale.push(to_digit(draws[13]));
        codice_fiscale.push(to_digit(draws[14]));
        codice_fiscale.push(to_digit(draws[15]));
        assert(codice_fiscale@ =~= random_body(draws@));
        proof {
            random_code_is_valid(draws@);
        }
        let mut code = string_of(&codice_fiscale);
        let control_code = ControlCode::compute(code.as_str());
        push_char(&mut code, control_code);
        Some(code)
    }

    /// The code of a person.
    pub fn generate(person_data: &PersonData) -> (code: String)
        ensures
            code@ == fiscal_code(person_data@),
            is_valid(code@),
            upper_seq(code@) == code@,
    {
        let surname_part = generate_name_or_surname_part(person_data.surname());
        let name_part = generate_name_or_surname_part(person_data.name());
        let birth_day_and_gender_part = generate_birth_day_and_gender_parts(
            person_data.birthdate(),
            person_data.gender(),
        );
        let mut place = chars_of(person_data.birth_place().as_str());
        let letter = to_ascii_uppercase(place[0]);
        place.set(0, letter);
        assert(place@ =~= upper_seq(person_data@.place_of_birth));

        let mut body: Vec<char> = Vec::new();
        extend(&mut body, &surname_part);
        extend(&mut body, &name_part);
        extend(&mut body, &birth_day_and_gender_part);
        extend(&mut body, &place);
        assert(body@ =~= code_body(person_data@));
        proof {
            generated_code_is_valid(person_data@);
        }

        let mut codice_fiscale = string_of(&body);
        let control = ControlCode::compute(codice_fiscale.as_str());
        push_char(&mut codice_fiscale, control);
        codice_fiscale
    }

    /// The seven omocodes of a code whose canonical form holds digits at
    /// the seven eligible places, each with its control character. The
    /// omocode at index `k` carries a letter at one place only: the one at
    /// index `k` of `positions()`, counted from the rightmost inward.
    pub fn generate_omocodes(starting_codice_fiscale: &str) -> (omocodes: Vec<String>)
        requires
            starting_codice_fiscale@.len() >= 15,
            digits_at_positions(normalized(starting_codice_fiscale@)),
        ensures
            omocodes@.len() == 7,
            forall|k: int|
                0 <= k < 7 ==> (#[trigger] omocodes@[k])@ == omocode_of(
                    starting_codice_fiscale@,
                    k,
                ),
    {
        let purified = Omocodes::replace_omocodes_characters(starting_codice_fiscale);
        let variants = Omocodes::generate(purified.as_str());
        let mut omocodes: Vec<String> = Vec::new();
        let mut k: usize = 0;
        while k < 7
            invariant
                k <= 7,
                variants@.len() == 7,
                forall|j: int|
                    0 <= j < 7 ==> (#[trigger] variants@[j])@ == substituted(
                        normalized(starting_codice_fiscale@),
                        j,
                    ),
                omocodes@.len() == k,
                forall|j: int|
                    0 <= j < k ==> (#[trigger] omocodes@[j])@ == omocode_of(
                        starting_codice_fiscale@,
                        j,
                    ),
            decreases 7 - k,
        {
            let mut omocode = variants[k].clone();
            let ghost text = omocode@;
            let control_code = ControlCode::compute(string_of(&omocode).as_str());
            if omocode.len() == 16 {
                omocode.pop();
            }
            omocode.push(control_code);
            assert(omocode@ =~= with_control(text));
            omocodes.push(string_of(&omocode));
            k += 1;
        }
        omocodes
    }
}

} // verus!
