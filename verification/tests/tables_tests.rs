use codice_fiscale_rs::common::{
    is_ascii_alphabetic, is_ascii_digit, is_consonant, is_month_code, is_vowel, to_alphabet,
    to_ascii_uppercase, to_month_codes,
};
use codice_fiscale_rs::control_code::{get_conversion_table_value, ControlCode};
use codice_fiscale_rs::text::{chars_of, string_of};

#[test]
fn vowels_in_either_case() {
    for c in "AEIOUaeiou".chars() {
        assert!(is_vowel(&c));
        assert!(!is_consonant(&c));
    }
    for c in "BCDFGHJKLMNPQRSTVWXYZbcdfghjklmnpqrstvwxyz".chars() {
        assert!(is_consonant(&c));
        assert!(!is_vowel(&c));
    }
    for c in "0129 @[`{\u{e8}".chars() {
        assert!(!is_vowel(&c));
        assert!(!is_consonant(&c));
    }
}

#[test]
fn character_classes_follow_the_standard_library() {
    for code in 0u32..0x250 {
        let c = char::from_u32(code).unwrap();
        assert_eq!(is_ascii_alphabetic(c), c.is_ascii_alphabetic());
        assert_eq!(is_ascii_digit(c), c.is_ascii_digit());
        assert_eq!(to_ascii_uppercase(c), c.to_ascii_uppercase());
    }
}

#[test]
fn alphabet_by_index() {
    let letters: String = (0..26).map(to_alphabet).collect();
    assert_eq!(letters, "ABCDEFGHIJKLMNOPQRSTUVWXYZ");
}

#[test]
fn month_codes_by_index() {
    let letters: String = (0..12).map(to_month_codes).collect();
    assert_eq!(letters, "ABCDEHLMPRST");
    for c in letters.chars() {
        assert!(is_month_code(&c));
    }
    assert!(!is_month_code(&'F'));
    assert!(!is_month_code(&'a'));
}

#[test]
fn conversion_table_values() {
    let letters = "ABCDEFGHIJKLMNOPQRSTUVWXYZ";
    let odd = [
        1, 0, 5, 7, 9, 13, 15, 17, 19, 21, 2, 4, 18, 20, 11, 3, 6, 8, 12, 14, 16, 10, 22, 25, 24,
        23,
    ];
    for (n, c) in letters.chars().enumerate() {
        assert_eq!(get_conversion_table_value(&c, true), Some(n as i32));
        assert_eq!(get_conversion_table_value(&c, false), Some(odd[n]));
    }
    for (n, c) in "0123456789".chars().enumerate() {
        assert_eq!(get_conversion_table_value(&c, true), Some(n as i32));
        assert_eq!(get_conversion_table_value(&c, false), Some(odd[n]));
    }
    assert_eq!(get_conversion_table_value(&'a', true), None);
    assert_eq!(get_conversion_table_value(&'?', false), None);
}

#[test]
fn control_character_of_known_codes() {
    assert_eq!(ControlCode::compute("CTMTBT74E05B506"), 'W');
    assert_eq!(ControlCode::compute("SCCPIX98L48M256"), 'N');
    assert_eq!(ControlCode::compute("SCCPIX98L08M256"), 'J');
    assert_eq!(ControlCode::compute("BRNPRZ72D52F83V"), 'C');
    assert_eq!(ControlCode::compute("PLTPPP22R42T567"), 'K');
}

#[test]
fn control_character_reads_fifteen_characters() {
    assert_eq!(ControlCode::compute("CTMTBT74E05B506W"), 'W');
    assert_eq!(ControlCode::compute("CTMTBT74E05B506Y"), 'W');
    assert_eq!(ControlCode::compute("CTMTBT74E05B506anything"), 'W');
}

#[test]
fn control_character_ignores_case() {
    assert_eq!(ControlCode::compute("ctmtbt74e05b506"), 'W');
    assert_eq!(ControlCode::compute("cTmTbT74e05B506"), 'W');
    // In upper case already, lower-case letters count for nothing.
    assert_eq!(ControlCode::compute_upper("CTMTBT74E05B506"), 'W');
    assert_ne!(ControlCode::compute_upper("ctmtbt74e05b506"), 'W');
}

#[test]
fn control_character_is_the_same_for_a_digit_and_its_letter() {
    assert_eq!(
        ControlCode::compute("0123456789AAAAA"),
        ControlCode::compute("ABCDEFGHIJAAAAA")
    );
}

#[test]
fn control_character_of_short_text() {
    // No character: the sum is 0. One `B` at an odd place: 0 as well.
    assert_eq!(ControlCode::compute(""), 'A');
    assert_eq!(ControlCode::compute("B"), 'A');
    assert_eq!(ControlCode::compute("A"), 'B');
    assert_eq!(ControlCode::compute("AB"), 'C');
    assert_eq!(ControlCode::compute("?"), 'A');
}

#[test]
fn control_character_of_text_beyond_ascii() {
    // The upper-case form of the long s is `S`, at an odd place worth 12.
    assert_eq!(ControlCode::compute("\u{17f}"), 'M');
    assert_eq!(ControlCode::compute_upper("\u{17f}"), 'A');
}

#[test]
fn text_goes_to_characters_and_back() {
    let text = "cTMTBT74E05B506W \u{e8}\u{1f600}";
    let chars = chars_of(text);
    assert_eq!(chars, text.chars().collect::<Vec<char>>());
    assert_eq!(string_of(&chars), text);
    assert_eq!(string_of(&Vec::new()), "");
}
