use school_forum::store::{ChangeParamsError, Store};
use school_forum::types::{Class, Subject};
use school_forum::users::{ChangeQueryParam, UserRegistrationDTO, UserType};
use school_forum::validation::{
    validate_changes, validate_email, validate_name, validate_password, validate_phone_number,
    validate_registration, validate_username, InvalidPassword, InvalidPhoneNumber, InvalidUsername,
    UserValidationError, ValidatedChangeQueryParam, ValidationError,
};

fn dto(username: &str, specs: UserType) -> UserRegistrationDTO {
    UserRegistrationDTO {
        username: username.to_string(),
        last_name: "Karimova".to_string(),
        first_name: "Alice".to_string(),
        birth_date: 738000,
        user_specs: specs,
        about: "hello".to_string(),
        password: "secret123".to_string(),
        email: "alice@school.uz".to_string(),
        phone_number: "998901234567".to_string(),
    }
}

#[test]
fn password_lengths() {
    assert_eq!(validate_password("short"), vec![InvalidPassword::PasswordToShort]);
    assert_eq!(validate_password("12345678"), vec![]);
    assert_eq!(validate_password(&"x".repeat(24)), vec![]);
    assert_eq!(validate_password(&"x".repeat(25)), vec![InvalidPassword::PasswordToLong]);
}

#[test]
fn phone_rules() {
    assert_eq!(validate_phone_number(None), vec![]);
    assert_eq!(validate_phone_number(Some("998901234567")), vec![]);
    assert_eq!(validate_phone_number(Some("99890123")), vec![InvalidPhoneNumber::PhoneNumberToSmall]);
    assert_eq!(validate_phone_number(Some("9989012345678")), vec![InvalidPhoneNumber::PhoneNumberToLong]);
    assert_eq!(
        validate_phone_number(Some("99890123456a")),
        vec![InvalidPhoneNumber::PhoneNumberContainsOtherLiterals]
    );
    assert_eq!(
        validate_phone_number(Some("123")),
        vec![InvalidPhoneNumber::PhoneNumberToSmall, InvalidPhoneNumber::PhoneNumberContainsOtherLiterals]
    );
    assert_eq!(validate_phone_number(Some("998901234567890123456")), vec![InvalidPhoneNumber::PhoneNumberToLong]);
    let long_zeros = format!("998{}", "0".repeat(17));
    assert_eq!(validate_phone_number(Some(&long_zeros)), vec![InvalidPhoneNumber::PhoneNumberToLong]);
    assert_eq!(
        validate_phone_number(Some("+99890123456")),
        vec![InvalidPhoneNumber::PhoneNumberContainsOtherLiterals]
    );
}

#[test]
fn name_email_username() {
    assert!(validate_name(&"n".repeat(31)));
    assert!(!validate_name(&"n".repeat(32)));
    assert!(validate_email("alice@school.uz"));
    assert!(validate_email("a.b-c@mail.example.com"));
    assert!(!validate_email("alice@"));
    assert!(!validate_email("no-at-sign.com"));
    assert!(validate_username("alice"));
    assert!(!validate_username("алиса"));
}

#[test]
fn registration_collects_every_error() {
    let mut d = dto("алиса", UserType::Other);
    d.password = "x".to_string();
    d.email = "bad".to_string();
    d.phone_number = "1".to_string();
    d.about = "a".repeat(501);
    let errs = validate_registration(&d).unwrap_err();
    assert_eq!(
        errs,
        vec![
            UserValidationError::InvalidPassword(InvalidPassword::PasswordToShort),
            UserValidationError::InvalidEmail,
            UserValidationError::InvalidPhoneNumber(InvalidPhoneNumber::PhoneNumberToSmall),
            UserValidationError::InvalidPhoneNumber(InvalidPhoneNumber::PhoneNumberContainsOtherLiterals),
            UserValidationError::InvalidUsername(InvalidUsername::NotAscii),
            UserValidationError::InvalidAbout,
        ]
    );
    assert!(validate_registration(&dto("alice", UserType::Other)).is_ok());
}

#[test]
fn change_validation_depends_on_role() {
    let mut store = Store::new();
    let student = store
        .register_with(dto("alice", UserType::Student { class: Class::from(b'A', 9).unwrap() }), 1)
        .unwrap();
    let teacher = store
        .register_with(dto("tom", UserType::Teacher { subject: Subject::Physics }), 2)
        .unwrap();
    assert!(ValidatedChangeQueryParam::validate(ChangeQueryParam::Class(Class::from(b'B', 10).unwrap()), &student).is_ok());
    assert_eq!(
        ValidatedChangeQueryParam::validate(ChangeQueryParam::Class(Class::from(b'B', 10).unwrap()), &teacher)
            .unwrap_err(),
        vec![ValidationError::ChangingClassForNotStudent]
    );
    assert_eq!(
        ValidatedChangeQueryParam::validate(ChangeQueryParam::JobTitle("j".repeat(40)), &teacher).unwrap_err(),
        vec![ValidationError::InvalidJobTitle, ValidationError::ChangingJobTitleForNotAdministrator]
    );
    let errs = validate_changes(
        vec![
            ChangeQueryParam::Password("x".to_string()),
            ChangeQueryParam::FirstName("Bob".to_string()),
            ChangeQueryParam::Email("nope".to_string()),
            ChangeQueryParam::About("a".repeat(501)),
        ],
        &student,
    )
    .unwrap_err();
    assert_eq!(
        errs,
        vec![
            ValidationError::InvalidPassword(InvalidPassword::PasswordToShort),
            ValidationError::InvalidEmail,
            ValidationError::InvalidAbout,
        ]
    );
}

#[test]
fn change_parameters_applies_all_or_nothing() {
    let mut store = Store::new();
    store.register_with(dto("alice", UserType::Student { class: Class::from(b'A', 9).unwrap() }), 1).unwrap();
    let r = store.change_parameters(
        "alice",
        vec![ChangeQueryParam::FirstName("Alicia".to_string()), ChangeQueryParam::JobTitle("Boss".to_string())],
    );
    assert!(matches!(r, Err(ChangeParamsError::ValidationError(ref e)) if e == &vec![ValidationError::ChangingJobTitleForNotAdministrator]));
    assert_eq!(store.get_by_username("alice").unwrap().first_name, "Alice");
    store
        .change_parameters(
            "alice",
            vec![ChangeQueryParam::FirstName("Alicia".to_string()), ChangeQueryParam::PhoneNumber(None)],
        )
        .unwrap();
    let u = store.get_by_username("alice").unwrap();
    assert_eq!(u.first_name, "Alicia");
    assert_eq!(u.phone_number, None);
    assert!(matches!(store.change_parameters("nobody", vec![]), Err(ChangeParamsError::UserDoesntExist)));
}
