use password_store::PasswordPayload;
use password_store::ValidationError;
use password_store::validate_password;

fn payload(s: &str) -> PasswordPayload {
    PasswordPayload::new(String::from(s))
}

#[test]
fn short_value_fails_citing_length() {
    assert_eq!(validate_password(&payload("short")).unwrap_err(), ValidationError::TooShort);
    assert_eq!(validate_password(&payload("")).unwrap_err(), ValidationError::TooShort);
    assert_eq!(validate_password(&payload("Abcdef1")).unwrap_err(), ValidationError::TooShort);
}

#[test]
fn missing_uppercase_is_reported() {
    assert_eq!(
        validate_password(&payload("abcdefg1!")).unwrap_err(),
        ValidationError::NoUppercase
    );
}

#[test]
fn missing_lowercase_is_reported() {
    assert_eq!(
        validate_password(&payload("ABCDEFG1!")).unwrap_err(),
        ValidationError::NoLowercase
    );
}

#[test]
fn missing_digit_is_reported() {
    assert_eq!(validate_password(&payload("Abcdefgh!")).unwrap_err(), ValidationError::NoDigit);
}

#[test]
fn missing_special_is_reported() {
    assert_eq!(validate_password(&payload("Abcdefgh1")).unwrap_err(), ValidationError::NoSpecial);
}

#[test]
fn valid_password_passes() {
    assert!(validate_password(&payload("Abcdefg1!")).is_ok());
    assert!(validate_password(&payload("Xy0,aaaa")).is_ok());
}

#[test]
fn rules_are_checked_in_order() {
    // Too short and missing a digit: length is cited first.
    assert_eq!(validate_password(&payload("Ab!")).unwrap_err(), ValidationError::TooShort);
    // Missing both cases: uppercase is cited first.
    assert_eq!(validate_password(&payload("12345678")).unwrap_err(), ValidationError::NoUppercase);
}

#[test]
fn non_ascii_letters_count_for_their_class() {
    // A Greek capital followed by Latin lowercase: the uppercase rule is met
    // by the non-ASCII letter, the digit rule fails next.
    assert_eq!(
        validate_password(&payload("\u{0394}abcdefgh")).unwrap_err(),
        ValidationError::NoDigit
    );
    // All-uppercase Greek has no lowercase character.
    assert_eq!(
        validate_password(&payload("\u{0394}\u{0395}\u{0396}ABCDE1!")).unwrap_err(),
        ValidationError::NoLowercase
    );
}

#[test]
fn every_special_character_is_accepted() {
    let specials = "!@#$%^&*()_+-=[]{}|;:'\",.<>?/";
    for c in specials.chars() {
        let value = format!("Abcdefg1{}", c);
        assert!(validate_password(&payload(&value)).is_ok());
    }
}

#[test]
fn space_is_not_a_special_character() {
    assert_eq!(validate_password(&payload("Abcdefg1 ")).unwrap_err(), ValidationError::NoSpecial);
}
