use chrono::NaiveDate;
use codice_fiscale_rs::generator::{
    generate_birth_day_and_gender_parts, generate_name_or_surname_part, Generator,
};
use codice_fiscale_rs::person_data::{BirthDate, Gender, PersonData};
use codice_fiscale_rs::verify::Verifier;
use codice_fiscale_rs::CodiceFiscale;

fn birth(year: i32, month: u32, day: u32) -> BirthDate {
    BirthDate::from_naive_date(&NaiveDate::from_ymd_opt(year, month, day).unwrap())
}

#[test]
fn generate_valid_random_codice_fiscale() {
    for _i in 0..10_000 {
        let codice_fiscale = Generator::generate_random(None);
        assert!(CodiceFiscale::new(&codice_fiscale).is_ok());
    }
}

#[test]
fn generate_valid_codice_fiscale_from_person_data_female() {
    let person_data = PersonData::new(
        "PI".to_string(),
        "SUCCHIO".to_string(),
        birth(1998, 7, 8),
        Gender::F,
        "M256".to_string(),
    )
    .unwrap();
    let codice_fiscale = Generator::generate(&person_data);

    assert_eq!(codice_fiscale, "SCCPIX98L48M256N");
    assert!(CodiceFiscale::new(&codice_fiscale).is_ok());
}

#[test]
fn generate_valid_codice_fiscale_from_person_data_male() {
    let person_data = PersonData::new(
        "PI".to_string(),
        "SUCCHIO".to_string(),
        birth(1998, 7, 8),
        Gender::M,
        "M256".to_string(),
    )
    .unwrap();
    let codice_fiscale = Generator::generate(&person_data);

    assert_eq!(codice_fiscale, "SCCPIX98L08M256J");
    assert!(CodiceFiscale::new(&codice_fiscale).is_ok());
}

fn part(value: &str) -> String {
    generate_name_or_surname_part(value.to_string()).iter().collect()
}

#[test]
fn name_part_takes_consonants_first() {
    assert_eq!(part("SUCCHIO"), "SCC");
    assert_eq!(part("PLUTO"), "PLT");
    assert_eq!(part("PIPPO"), "PPP");
    assert_eq!(part("ROSSI"), "RSS");
}

#[test]
fn name_part_fills_up_with_vowels() {
    assert_eq!(part("ANNA"), "NNA");
    assert_eq!(part("LEO"), "LEO");
    assert_eq!(part("AIEB"), "BAI");
    assert_eq!(part("AIUOLA"), "LAI");
}

#[test]
fn name_part_pads_with_x() {
    assert_eq!(part("PI"), "PIX");
    assert_eq!(part("FO"), "FOX");
    assert_eq!(part("A"), "AXX");
    assert_eq!(part("B"), "BXX");
    assert_eq!(part(""), "XXX");
}

#[test]
fn name_part_is_upper_case() {
    assert_eq!(part("succhio"), "SCC");
    assert_eq!(part("Pi"), "PIX");
    assert_eq!(part("aNnA"), "NNA");
}

fn date_part(year: i32, month: u32, day: u32, gender: Gender) -> String {
    generate_birth_day_and_gender_parts(birth(year, month, day), gender).iter().collect()
}

#[test]
fn date_part_of_men_and_women() {
    assert_eq!(date_part(1998, 7, 8, Gender::F), "98L48");
    assert_eq!(date_part(1998, 7, 8, Gender::M), "98L08");
    assert_eq!(date_part(2022, 10, 2, Gender::F), "22R42");
    assert_eq!(date_part(1974, 5, 5, Gender::M), "74E05");
}

#[test]
fn date_part_pads_year_and_day() {
    assert_eq!(date_part(2000, 1, 1, Gender::M), "00A01");
    assert_eq!(date_part(2005, 12, 31, Gender::M), "05T31");
    assert_eq!(date_part(2005, 12, 31, Gender::F), "05T71");
    assert_eq!(date_part(1900, 2, 1, Gender::F), "00B41");
}

#[test]
fn date_part_has_a_letter_for_every_month() {
    let letters: String = (1..=12)
        .map(|month| date_part(1980, month, 15, Gender::M).chars().nth(2).unwrap())
        .collect();
    assert_eq!(letters, "ABCDEHLMPRST");
}

#[test]
fn date_part_reads_the_last_two_digits_of_any_year() {
    assert_eq!(date_part(12345, 3, 9, Gender::M), "45C09");
    assert_eq!(date_part(7, 3, 9, Gender::M), "07C09");
    assert_eq!(date_part(-44, 3, 15, Gender::M), "44C15");
}

#[test]
fn generated_codes_are_valid() {
    let names = ["PI", "ANNA", "MARIA", "a", "", "Giovanni", "LEO", "QWRTY"];
    let places = ["M256", "B506", "Z111", "a000", "H501"];
    for (n, name) in names.iter().enumerate() {
        for (s, surname) in names.iter().rev().enumerate() {
            for gender in [Gender::M, Gender::F] {
                let date = birth(1900 + (n * 17 + s * 3) as i32, 1 + ((n + s) % 12) as u32, 1 + ((n * s) % 28) as u32);
                let person = PersonData::new(
                    name.to_string(),
                    surname.to_string(),
                    date,
                    gender,
                    places[(n + s) % places.len()].to_string(),
                )
                .unwrap();
                let code = Generator::generate(&person);
                assert_eq!(code.len(), 16);
                assert_eq!(Verifier::verify(&code).map(|o| o.get()), Ok(code.clone()));
            }
        }
    }
}

#[test]
fn generating_twice_gives_the_same_code() {
    let person = PersonData::new(
        "PIPPO".to_string(),
        "PLUTO".to_string(),
        birth(2023, 1, 7),
        Gender::M,
        "B544".to_string(),
    )
    .unwrap();
    let again = person.clone();
    assert_eq!(Generator::generate(&person), "PLTPPP23A07B544K");
    assert_eq!(Generator::generate(&person), Generator::generate(&again));
}

#[test]
fn generated_code_is_in_upper_case() {
    let person = PersonData::new(
        "pi".to_string(),
        "Succhio".to_string(),
        birth(1998, 7, 8),
        Gender::F,
        "m256".to_string(),
    )
    .unwrap();
    assert_eq!(person.birth_place(), "m256");
    let code = Generator::generate(&person);
    assert_eq!(code, "SCCPIX98L48M256N");
    assert!(Verifier::verify(&code).is_ok());
}

#[test]
fn seeded_random_code_is_reproducible() {
    assert_eq!(Generator::generate_random(Some(19)), "ZLKESP25B55Y463L");
    for seed in [0, 1, 19, 42, u64::MAX] {
        let first = Generator::generate_random(Some(seed));
        let second = Generator::generate_random(Some(seed));
        assert_eq!(first, second);
        assert!(Verifier::verify(&first).is_ok());
    }
    assert_ne!(
        Generator::generate_random(Some(1)),
        Generator::generate_random(Some(2))
    );
}

#[test]
fn random_codes_have_the_plain_shape() {
    for seed in 0..500 {
        let code = Generator::generate_random(Some(seed));
        let chars: Vec<char> = code.chars().collect();
        assert_eq!(chars.len(), 16);
        for i in [0, 1, 2, 3, 4, 5, 11] {
            assert!(('B'..='Z').contains(&chars[i]));
        }
        for i in [6, 7, 10, 12, 13, 14] {
            assert!(chars[i].is_ascii_digit());
        }
        assert!("ABCDEHLMPRST".contains(chars[8]));
        assert!(chars[9] == '1' || chars[9] == '5');
    }
}

#[test]
fn code_from_draws_follows_the_draws() {
    let draws = vec![25, 11, 10, 4, 18, 15, 2, 5, 1, 1, 1, 5, 24, 4, 6, 3];
    assert_eq!(
        Generator::code_from_draws(&draws),
        Some("ZLKESP25B55Y463L".to_string())
    );
    let least = vec![1, 1, 1, 1, 1, 1, 0, 0, 0, 1, 0, 0, 1, 0, 0, 0];
    let code = Generator::code_from_draws(&least).unwrap();
    assert_eq!(&code[..15], "BBBBBB00A10B000");
    assert!(Verifier::verify(&code).is_ok());
    let most = vec![25, 25, 25, 25, 25, 25, 9, 9, 11, 1, 1, 9, 25, 9, 9, 9];
    let code = Generator::code_from_draws(&most).unwrap();
    assert_eq!(&code[..15], "ZZZZZZ99T59Z999");
    assert!(Verifier::verify(&code).is_ok());
}

#[test]
fn code_from_draws_wants_every_draw_in_its_range() {
    let good = vec![25, 11, 10, 4, 18, 15, 2, 5, 1, 1, 1, 5, 24, 4, 6, 3];
    assert_eq!(Generator::code_from_draws(&good[..15].to_vec()), None);
    assert_eq!(Generator::code_from_draws(&Vec::new()), None);
    let mut long = good.clone();
    long.push(0);
    assert_eq!(Generator::code_from_draws(&long), None);
    let limits = [26, 26, 26, 26, 26, 26, 10, 10, 12, 2, 2, 10, 26, 10, 10, 10];
    for (i, limit) in limits.iter().enumerate() {
        let mut draws = good.clone();
        draws[i] = *limit;
        assert_eq!(Generator::code_from_draws(&draws), None);
    }
    for i in [0, 1, 2, 3, 4, 5, 9, 12] {
        let mut draws = good.clone();
        draws[i] = 0;
        assert_eq!(Generator::code_from_draws(&draws), None);
    }
}
