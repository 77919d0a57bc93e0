use chrono::{NaiveDate, Utc};
use codice_fiscale_rs::errors::PersonDataError;
use codice_fiscale_rs::person_data::{is_all_letters, BirthDate, Gender, PersonData};

#[test]
fn person_data_new() {
    let naive_now = Utc::now().date_naive();
    let birthdate = BirthDate::from_naive_date(&naive_now);
    let person_data = PersonData::new(
        "PIPPO".to_string(),
        "PLUTO".to_string(),
        birthdate,
        Gender::F,
        "T567".to_string(),
    );

    let person_data = person_data.unwrap();
    assert_eq!(person_data.name(), "PIPPO".to_string());
    assert_eq!(person_data.surname(), "PLUTO".to_string());
    assert_eq!(person_data.birthdate(), birthdate);
    assert_eq!(person_data.gender(), Gender::F);
    assert_eq!(person_data.birth_place(), "T567".to_string());
}

#[test]
fn person_data_invalid_name() {
    let naive_now = Utc::now().date_naive();
    let person_data = PersonData::new(
        "PÃ²PPO".to_string(),
        "PLUTO".to_string(),
        BirthDate::from_naive_date(&naive_now),
        Gender::F,
        "T567".to_string(),
    );

    assert_eq!(person_data, Err(PersonDataError::InvalidName()));
}

#[test]
fn person_data_invalid_surname() {
    let naive_now = Utc::now().date_naive();
    let person_data = PersonData::new(
        "PIPPO".to_string(),
        "@LUTO".to_string(),
        BirthDate::from_naive_date(&naive_now),
        Gender::F,
        "T567".to_string(),
    );

    assert_eq!(person_data, Err(PersonDataError::InvalidSurname()));
}

#[test]
fn person_data_invalid_birth_place() {
    let naive_now = Utc::now().date_naive();
    let person_data = PersonData::new(
        "PIPPO".to_string(),
        "PLUTO".to_string(),
        BirthDate::from_naive_date(&naive_now),
        Gender::F,
        "Ta67".to_string(),
    );

    assert_eq!(person_data, Err(PersonDataError::InvalidBirthPlace()));
}

#[test]
fn name_is_checked_before_surname_and_place() {
    let date = BirthDate::new(1990, 1, 1).unwrap();
    assert_eq!(
        PersonData::new("PIA7".to_string(), "L2".to_string(), date, Gender::M, "x".to_string()),
        Err(PersonDataError::InvalidName())
    );
    assert_eq!(
        PersonData::new("P".to_string(), "L2".to_string(), date, Gender::M, "x".to_string()),
        Err(PersonDataError::InvalidSurname())
    );
    assert_eq!(
        PersonData::new("P".to_string(), "L".to_string(), date, Gender::M, "x".to_string()),
        Err(PersonDataError::InvalidBirthPlace())
    );
}

#[test]
fn digits_and_blanks_are_no_part_of_a_name() {
    let date = BirthDate::new(1990, 1, 1).unwrap();
    for name in ["MARIA2", "DE LUCA", "D'ANGELO", "JOSÉ", "-"] {
        assert_eq!(
            PersonData::new(name.to_string(), "ROSSI".to_string(), date, Gender::F, "H501".to_string()),
            Err(PersonDataError::InvalidName())
        );
    }
    assert!(is_all_letters("Maria"));
    assert!(is_all_letters(""));
    assert!(!is_all_letters("Maria "));
}

#[test]
fn birth_date_reads_the_calendar_date() {
    let date = BirthDate::from_naive_date(&NaiveDate::from_ymd_opt(1998, 7, 8).unwrap());
    assert_eq!(date.year(), 1998);
    assert_eq!(date.month(), 7);
    assert_eq!(date.day(), 8);
    assert_eq!(Some(date), BirthDate::new(1998, 7, 8));
    let early = BirthDate::from_naive_date(&NaiveDate::from_ymd_opt(-308, 12, 31).unwrap());
    assert_eq!((early.year(), early.month(), early.day()), (-308, 12, 31));
}

#[test]
fn birth_date_wants_month_and_day_in_range() {
    assert!(BirthDate::new(2000, 1, 1).is_some());
    assert!(BirthDate::new(2000, 12, 31).is_some());
    assert_eq!(BirthDate::new(2000, 0, 1), None);
    assert_eq!(BirthDate::new(2000, 13, 1), None);
    assert_eq!(BirthDate::new(2000, 1, 0), None);
    assert_eq!(BirthDate::new(2000, 1, 32), None);
}

#[test]
fn person_data_keeps_what_it_was_given() {
    let date = BirthDate::new(1974, 5, 5).unwrap();
    let person = PersonData::new(
        "Tobia".to_string(),
        "Cotimo".to_string(),
        date,
        Gender::M,
        "b506".to_string(),
    )
    .unwrap();
    assert_eq!(person.name(), "Tobia");
    assert_eq!(person.surname(), "Cotimo");
    assert_eq!(person.birthdate(), date);
    assert_eq!(person.gender(), Gender::M);
    assert_eq!(person.birth_place(), "b506");
    assert_eq!(person.clone(), person);
}
