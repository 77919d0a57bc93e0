use chrono::NaiveDate;
use codice_fiscale_rs::errors::VerifierError;
use codice_fiscale_rs::person_data::{BirthDate, Gender, PersonData};
use codice_fiscale_rs::CodiceFiscale;

#[test]
fn test_display_trait() {
    let codice_fiscale = CodiceFiscale::new("PLTPPP23A47T567Q").unwrap();
    assert_eq!(format!("{}", codice_fiscale.get()), "PLTPPP23A47T567Q");
}

#[test]
fn test_verify() {
    assert!(CodiceFiscale::new("PLTPPP23A47T567Q").is_ok());
}

#[test]
fn test_generate() {
    let naive_now = NaiveDate::from_ymd_opt(2022, 10, 2).unwrap();
    let person_data = PersonData::new(
        "PIPPO".to_string(),
        "PLUTO".to_string(),
        BirthDate::from_naive_date(&naive_now),
        Gender::F,
        "T567".to_string(),
    )
    .unwrap();

    let codice_fiscale = CodiceFiscale::generate(&person_data);

    assert_eq!(codice_fiscale.get(), "PLTPPP22R42T567K".to_string());
}

#[test]
fn test_random_generator() {
    let codice_fiscale = CodiceFiscale::generate_random(Some(19));
    assert_eq!(codice_fiscale.get(), "ZLKESP25B55Y463L");
    assert!(CodiceFiscale::new(&codice_fiscale.get()).is_ok());
}

#[test]
fn test_is_omocode_yes() {
    assert!(CodiceFiscale::new("BRNPRZ72D52F83VC").unwrap().is_omocode());
}

#[test]
fn test_is_omocode_no() {
    assert!(!CodiceFiscale::new("ZLKESP25B55Y463L").unwrap().is_omocode());
}

#[test]
fn omocodes_from_normal_cf() {
    let omocodes = CodiceFiscale::new("ZLKESP25B55Y463L").unwrap().omocodes();
    assert_eq!(omocodes.len(), 7);
    assert_eq!(omocodes.first().unwrap().get(), "ZLKESP25B55Y46PH");
}

#[test]
fn omocodes_from_omocode_cf() {
    let omocodes = CodiceFiscale::new("BRNPRZ72D52F83VC").unwrap().omocodes();
    assert_eq!(omocodes.len(), 7);
    assert_eq!(omocodes.first().unwrap().get(), "BRNPRZ72D52F83VC");
}

#[test]
fn new_reports_what_the_check_reports() {
    assert_eq!(
        CodiceFiscale::new("BLTMHL77S04"),
        Err(VerifierError::InvalidLength(11))
    );
    assert_eq!(
        CodiceFiscale::new("BLTMHL77S04E889T"),
        Err(VerifierError::InvalidControlCharacter('T', 'G'))
    );
    assert_eq!(
        CodiceFiscale::new("BLTMHL77S04E889G").map(|code| code.get()),
        Ok("BLTMHL77S04E889G".to_string())
    );
}

#[test]
fn generated_code_of_a_man() {
    let person_data = PersonData::new(
        "PIPPO".to_string(),
        "PLUTO".to_string(),
        BirthDate::from_naive_date(&NaiveDate::from_ymd_opt(2023, 1, 7).unwrap()),
        Gender::M,
        "B544".to_string(),
    )
    .unwrap();
    let code = CodiceFiscale::generate(&person_data);
    assert_eq!(code.get(), "PLTPPP23A07B544K".to_string());
    assert!(!code.is_omocode());
    assert_eq!(CodiceFiscale::new(&code.get()), Ok(code));
}

#[test]
fn every_omocode_is_an_omocode_of_the_same_person() {
    let code = CodiceFiscale::new("ZLKESP25B55Y463L").unwrap();
    let omocodes = code.omocodes();
    let texts: Vec<String> = omocodes.iter().map(|omocode| omocode.get()).collect();
    assert_eq!(
        texts,
        vec![
            "ZLKESP25B55Y46PH",
            "ZLKESP25B55Y4S3X",
            "ZLKESP25B55YQ63I",
            "ZLKESP25B5RY463G",
            "ZLKESP25BR5Y463X",
            "ZLKESP2RB55Y463X",
            "ZLKESPN5B55Y463A",
        ]
    );
    for omocode in &omocodes {
        assert!(omocode.is_omocode());
        assert_eq!(omocode.omocodes(), omocodes);
    }
}

#[test]
fn omocode_with_several_letters_is_an_omocode() {
    let code = CodiceFiscale::new("CTMTBTTQELRBRLSO").unwrap();
    assert!(code.is_omocode());
    assert_eq!(
        code.omocodes(),
        CodiceFiscale::new("CTMTBT74E05B506W").unwrap().omocodes()
    );
}

#[test]
fn random_codes_without_a_seed_are_valid() {
    for _ in 0..100 {
        let code = CodiceFiscale::generate_random(None);
        assert!(!code.is_omocode());
        assert_eq!(CodiceFiscale::new(&code.get()), Ok(code));
    }
}
