//! The data of a person from which a code is made.

use chrono::{Datelike, NaiveDate};
use vstd::prelude::*;
use crate::common::{is_ascii_alphabetic, is_letter};
use crate::errors::PersonDataError;
use crate::text::chars_of;
use crate::verify::{place_shape, verify_birth_place_part};

verus! {

/// `chrono::NaiveDate`, a calendar date, of which nothing is seen but what
/// its accessors return.
#[verifier::external_type_specification]
#[verifier::external_body]
pub struct ExNaiveDate(NaiveDate);

/// The gender that a code records.
#[derive(Debug, Clone, Copy, PartialEq, Eq, Structural)]
pub enum Gender {
    M,
    F,
}

/// A date as the encoder reads it: three numbers.
pub struct Date {
    pub year: int,
    pub month: int,
    pub day: int,
}

impl Date {
    /// The month is one of the twelve and the day one of the 31 that a
    /// month can have. Whether the month has that day is not asked: the code
    /// has a place for every day up to 31 in every month.
    pub open spec fn in_range(self) -> bool {
        1 <= self.month <= 12 && 1 <= self.day <= 31
    }
}

/// A date of birth, with its month in 1..=12 and its day in 1..=31.
#[derive(Debug, Clone, Copy, PartialEq, Eq)]
pub struct BirthDate {
    year: i32,
    month: u32,
    day: u32,
}

impl View for BirthDate {
    type V = Date;

    closed spec fn view(&self) -> Date {
        Date { year: self.year as int, month: self.month as int, day: self.day as int }
    }
}

/// Calls `Datelike::year` on a `NaiveDate`: the year of the date, of which
/// nothing is claimed.
#[verifier::external_body]
fn date_year(date: &NaiveDate) -> (year: i32) {
    date.year()
}

/// Calls `Datelike::month` on a `NaiveDate`: the month of the date, counted
/// from 1, so a number from 1 to 12.
#[verifier::external_body]
fn date_month(date: &NaiveDate) -> (month: u32)
    ensures
        1 <= month <= 12,
{
    date.month()
}

/// Calls `Datelike::day` on a `NaiveDate`: the day of the month, counted from
/// 1, so a number from 1 to 31.
#[verifier::external_body]
fn date_day(date: &NaiveDate) -> (day: u32)
    ensures
        1 <= day <= 31,
{
    date.day()
}

impl BirthDate {
    #[verifier::type_invariant]
    closed spec fn well_formed(&self) -> bool {
        self@.in_range()
    }

    /// The date with these three numbers, where the month and the day are
    /// in range.
    pub fn new(year: i32, month: u32, day: u32) -> (r: Option<BirthDate>)
        ensures
            match r {
                Some(date) => date@ == (Date {
                    year: year as int,
                    month: month as int,
                    day: day as int,
                }) && date@.in_range(),
                None => !(Date { year: year as int, month: month as int, day: day as int })
                    .in_range(),
            },
    {
        if 1 <= month && month <= 12 && 1 <= day && day <= 31 {
            Some(BirthDate { year, month, day })
        } else {
            None
        }
    }

    /// The year, the month and the day that `chrono` reads from a calendar
    /// date. The contract says only that the month and the day are in range:
    /// the date itself is not visible to the proof.
    pub fn from_naive_date(date: &NaiveDate) -> (r: BirthDate)
        ensures
            r@.in_range(),
    {
        BirthDate { year: date_year(date), month: date_month(date), day: date_day(date) }
    }

    /// The year.
    pub fn year(&self) -> (year: i32)
        ensures
            year == self@.year,
    {
        self.year
    }

    /// The month, from 1 to 12.
    pub fn month(&self) -> (month: u32)
        ensures
            month == self@.month,
            1 <= month <= 12,
    {
        proof {
            use_type_invariant(self);
        }
        self.month
    }

    /// The day of the month, from 1 to 31.
    pub fn day(&self) -> (day: u32)
        ensures
            day == self@.day,
            1 <= day <= 31,
    {
        proof {
            use_type_invariant(self);
        }
        self.day
    }
}

/// The data of a person as the encoder reads it.
pub struct Person {
    pub name: Seq<char>,
    pub surname: Seq<char>,
    pub birthdate: Date,
    pub gender: Gender,
    pub place_of_birth: Seq<char>,
}

/// Every character of `text` is an ASCII letter.
pub open spec fn all_letters(text: Seq<char>) -> bool {
    forall|i: int| 0 <= i < text.len() ==> is_letter(#[trigger] text[i])
}

impl Person {
    /// The name and the surname are made of ASCII letters, the place code is
    /// a letter and three digits, and the date has a month and a day in
    /// range.
    pub open spec fn valid(self) -> bool {
        &&& all_letters(self.name)
        &&& all_letters(self.surname)
        &&& place_shape(self.place_of_birth)
        &&& self.birthdate.in_range()
    }
}

/// The data of a person, checked when it is made.
#[derive(Debug, PartialEq, Eq)]
pub struct PersonData {
    name: String,
    surname: String,
    birthdate: BirthDate,
    gender: Gender,
    place_of_birth: String,
}

impl View for PersonData {
    type V = Person;

    closed spec fn view(&self) -> Person {
        Person {
            name: self.name@,
            surname: self.surname@,
            birthdate: self.birthdate@,
            gender: self.gender,
            place_of_birth: self.place_of_birth@,
        }
    }
}

impl Clone for PersonData {
    fn clone(&self) -> (copy: Self)
        ensures
            copy@ == self@,
    {
        proof {
            use_type_invariant(self);
        }
        PersonData {
            name: self.name.clone(),
            surname: self.surname.clone(),
            birthdate: self.birthdate,
            gender: self.gender,
            place_of_birth: self.place_of_birth.clone(),
        }
    }
}

/// Whether `text` is made of ASCII letters alone.
pub fn is_all_letters(text: &str) -> (b: bool)
    ensures
        b == all_letters(text@),
{
    let chars = chars_of(text);
    let mut i: usize = 0;
    while i < chars.len()
        invariant
            i <= chars.len(),
            chars@ == text@,
            forall|j: int| 0 <= j < i ==> is_letter(#[trigger] chars@[j]),
        decreases chars.len() - i,
    {
        if !is_ascii_alphabetic(chars[i]) {
            return false;
        }
        i += 1;
    }
    true
}

impl PersonData {
    #[verifier::type_invariant]
    closed spec fn well_formed(&self) -> bool {
        self@.valid()
    }

    /// Takes the data where the name, the surname and the place code have
    /// their shape, and says which of them is the first that has not.
    pub fn new(
        name: String,
        surname: String,
        birthdate: BirthDate,
        gender: Gender,
        place_of_birth: String,
    ) -> (r: Result<PersonData, PersonDataError>)
        ensures
            match r {
                Ok(person) => {
                    &&& person@ == (Person {
                        name: name@,
                        surname: surname@,
                        birthdate: birthdate@,
                        gender: gender,
                        place_of_birth: place_of_birth@,
                    })
                    &&& person@.valid()
                },
                Err(PersonDataError::InvalidName()) => !all_letters(name@),
                Err(PersonDataError::InvalidSurname()) => all_letters(name@) && !all_letters(
                    surname@,
                ),
                Err(PersonDataError::InvalidBirthPlace()) => all_letters(name@) && all_letters(
                    surname@,
                ) && !place_shape(place_of_birth@),
            },
    {
        if !is_all_letters(name.as_str()) {
            return Err(PersonDataError::InvalidName());
        }
        if !is_all_letters(surname.as_str()) {
            return Err(PersonDataError::InvalidSurname());
        }
        if verify_birth_place_part(place_of_birth.as_str()).is_err() {
            return Err(PersonDataError::InvalidBirthPlace());
        }
        proof {
            use_type_invariant(&birthdate);
        }
        Ok(PersonData { name, surname, birthdate, gender, place_of_birth })
    }

    /// The name.
    pub fn name(&self) -> (name: String)
        ensures
            name@ == self@.name,
            all_letters(name@),
    {
        proof {
            use_type_invariant(self);
        }
        self.name.clone()
    }

    /// The surname.
    pub fn surname(&self) -> (surname: String)
        ensures
            surname@ == self@.surname,
            all_letters(surname@),
    {
        proof {
            use_type_invariant(self);
        }
        self.surname.clone()
    }

    /// The gender.
    pub fn gender(&self) -> (gender: Gender)
        ensures
            gender == self@.gender,
    {
        self.gender
    }

    /// The date of birth.
    pub fn birthdate(&self) -> (birthdate: BirthDate)
        ensures
            birthdate@ == self@.birthdate,
            birthdate@.in_range(),
    {
        proof {
            use_type_invariant(self);
        }
        self.birthdate
    }

    /// The code of the place of birth.
    pub fn birth_place(&self) -> (place: String)
        ensures
            place@ == self@.place_of_birth,
            place_shape(place@),
    {
        proof {
            use_type_invariant(self);
        }
        self.place_of_birth.clone()
    }
}

} // verus!
