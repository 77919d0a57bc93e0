//! Italian fiscal codes: a code is made from the data of a person, or drawn
//! at random, and any text is checked against the rules of the code,
//! omocodes included.

use vstd::prelude::*;
use crate::errors::{Rejection, VerifierError};
use crate::generator::{
    fiscal_code, omocode_is_valid, omocode_of, random_code, valid_draws, Generator,
};
use crate::omocodes::{normalized, Omocodes};
use crate::person_data::PersonData;
use crate::verify::{first_violation, is_valid, shape_accepted, Verifier};

pub mod common;
pub mod control_code;
pub mod errors;
pub mod generator;
pub mod omocodes;
pub mod person_data;
pub mod text;
pub mod verify;

verus! {

/// A valid fiscal code.
#[derive(Debug, PartialEq, Eq)]
pub struct CodiceFiscale {
    codice_fiscale: String,
}

impl View for CodiceFiscale {
    type V = Seq<char>;

    closed spec fn view(&self) -> Seq<char> {
        self.codice_fiscale@
    }
}

impl CodiceFiscale {
    #[verifier::type_invariant]
    closed spec fn well_formed(&self) -> bool {
        is_valid(self@)
    }

    /// Checks `raw_codice_fiscale` and keeps it as it is where it is valid;
    /// else tells the first rule that it breaks.
    pub fn new(raw_codice_fiscale: &str) -> (r: Result<CodiceFiscale, VerifierError>)
        ensures
            match r {
                Ok(code) => is_valid(raw_codice_fiscale@) && code@ == raw_codice_fiscale@,
                Err(e) => first_violation(raw_codice_fiscale@) == Some(e@),
            },
    {
        match Verifier::verify(raw_codice_fiscale) {
            Ok(outcome) => Ok(CodiceFiscale { codice_fiscale: outcome.get() }),
            Err(e) => Err(e),
        }
    }

    /// The code of a person, in upper case.
    pub fn generate(person_data: &PersonData) -> (code: CodiceFiscale)
        ensures
            code@ == fiscal_code(person_data@),
            is_valid(code@),
    {
        let codice_fiscale = Generator::generate(person_data);
        CodiceFiscale { codice_fiscale }
    }

    /// A random code: one that sixteen draws within their ranges choose.
    /// With a seed the draws are the same at every call. Without one the
    /// generator is seeded from the operating system, and the call panics
    /// where the system has no random bytes to give.
    pub fn generate_random(seed: Option<u64>) -> (code: CodiceFiscale)
        ensures
            exists|draws: Seq<u32>| valid_draws(draws) && code@ == random_code(draws),
            is_valid(code@),
    {
        let codice_fiscale = Generator::generate_random(seed);
        CodiceFiscale { codice_fiscale }
    }

    /// Whether the code holds a substituted letter, that is, differs from
    /// its canonical form.
    pub fn is_omocode(&self) -> (b: bool)
        ensures
            b == (self@ != normalized(self@)),
    {
        proof {
            use_type_invariant(self);
            shape_accepted(self@);
        }
        let purified = Omocodes::replace_omocodes_characters(self.codice_fiscale.as_str());
        !(self.codice_fiscale == purified)
    }

    /// The seven omocodes of the code, each a valid code: the one at index
    /// `k` is the canonical form of the code with a letter at one eligible
    /// place, the one at index `k` counted from the rightmost inward, and
    /// with its own control character.
    pub fn omocodes(&self) -> (omocodes: Vec<CodiceFiscale>)
        ensures
            omocodes@.len() == 7,
            forall|k: int|
                0 <= k < 7 ==> (#[trigger] omocodes@[k])@ == omocode_of(self@, k),
            forall|k: int| 0 <= k < 7 ==> is_valid((#[trigger] omocodes@[k])@),
    {
        proof {
            use_type_invariant(self);
            shape_accepted(self@);
            omocode_is_valid(self@, 0);
        }
        let texts = Generator::generate_omocodes(self.codice_fiscale.as_str());
        let mut omocodes: Vec<CodiceFiscale> = Vec::new();
        let mut k: usize = 0;
        while k < 7
            invariant
                k <= 7,
                is_valid(self@),
                texts@.len() == 7,
                forall|j: int|
                    0 <= j < 7 ==> (#[trigger] texts@[j])@ == omocode_of(self@, j),
                omocodes@.len() == k,
                forall|j: int|
                    0 <= j < k ==> (#[trigger] omocodes@[j])@ == omocode_of(self@, j),
                forall|j: int| 0 <= j < k ==> is_valid((#[trigger] omocodes@[j])@),
            decreases 7 - k,
        {
            proof {
                omocode_is_valid(self@, k as int);
            }
            let omocode = CodiceFiscale::new(texts[k].as_str()).unwrap();
            omocodes.push(omocode);
            k += 1;
        }
        omocodes
    }

    /// The text of the code.
    pub fn get(&self) -> (text: String)
        ensures
            text@ == self@,
            is_valid(text@),
    {
        proof {
            use_type_invariant(self);
        }
        self.codice_fiscale.clone()
    }
}

} // verus!
