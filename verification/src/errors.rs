//! Why a code, or the data of a person, is turned down.

use vstd::prelude::*;

verus! {

/// The first rule that a candidate code breaks, with what was found there.
#[derive(Debug, PartialEq, Eq)]
pub enum VerifierError {
    /// The text is not 16 bytes long; holds its length.
    InvalidLength(usize),
    /// The surname field is not three letters; holds the field.
    InvalidSurname(String),
    /// The name field is not three letters; holds the field.
    InvalidName(String),
    /// The year field is no number; holds the field.
    InvalidBirthYear(String),
    /// The month field is no month letter; holds the field.
    InvalidBirthMonth(String),
    /// The day field is no number; holds the field.
    InvalidBirthDayAndGender(String),
    /// The day field is a number outside 1..=31 and 41..=71; holds the number.
    InvalidBirthDayAndGenderRange(u32),
    /// The place field is not a letter and three digits; holds the field.
    InvalidBirthPlace(String),
    /// The last character is not the control character; holds the character
    /// found and the one expected.
    InvalidControlCharacter(char, char),
    /// A byte is neither an ASCII letter nor an ASCII digit; holds the index
    /// of the first such byte.
    NonAlphanumericCharacter(usize),
}

/// A `VerifierError` with each text as a sequence of characters.
pub enum Rejection {
    InvalidLength(usize),
    InvalidSurname(Seq<char>),
    InvalidName(Seq<char>),
    InvalidBirthYear(Seq<char>),
    InvalidBirthMonth(Seq<char>),
    InvalidBirthDayAndGender(Seq<char>),
    InvalidBirthDayAndGenderRange(u32),
    InvalidBirthPlace(Seq<char>),
    InvalidControlCharacter(char, char),
    NonAlphanumericCharacter(usize),
}

impl View for VerifierError {
    type V = Rejection;

    open spec fn view(&self) -> Rejection {
        match self {
            VerifierError::InvalidLength(n) => Rejection::InvalidLength(*n),
            VerifierError::InvalidSurname(s) => Rejection::InvalidSurname(s@),
            VerifierError::InvalidName(s) => Rejection::InvalidName(s@),
            VerifierError::InvalidBirthYear(s) => Rejection::InvalidBirthYear(s@),
            VerifierError::InvalidBirthMonth(s) => Rejection::InvalidBirthMonth(s@),
            VerifierError::InvalidBirthDayAndGender(s) => Rejection::InvalidBirthDayAndGender(s@),
            VerifierError::InvalidBirthDayAndGenderRange(v) => {
                Rejection::InvalidBirthDayAndGenderRange(*v)
            },
            VerifierError::InvalidBirthPlace(s) => Rejection::InvalidBirthPlace(s@),
            VerifierError::InvalidControlCharacter(found, expected) => {
                Rejection::InvalidControlCharacter(*found, *expected)
            },
            VerifierError::NonAlphanumericCharacter(i) => Rejection::NonAlphanumericCharacter(*i),
        }
    }
}

/// Which part of a person's data is turned down.
#[derive(Debug, PartialEq, Eq, Structural, Clone, Copy)]
pub enum PersonDataError {
    /// The name holds a character that is no ASCII letter.
    InvalidName(),
    /// The surname holds a character that is no ASCII letter.
    InvalidSurname(),
    /// The place code is not a letter and three digits.
    InvalidBirthPlace(),
}

} // verus!
