use school_forum::text::{decimal_string, has_prefix, str_eq};
use school_forum::types::{Class, ClassValidationError, EditedState, Subject};
use school_forum::users::{user_type_from_parts, UserType};

#[test]
fn class_accepts_number_and_letter() {
    let c = Class::from(b'A', 9).unwrap();
    assert_eq!(c.class_num(), 9);
    assert_eq!(c.class_char(), "A");
}

#[test]
fn class_rejects_number_out_of_range() {
    assert_eq!(Class::from(b'b', 12).unwrap_err(), ClassValidationError::WrongClassNumber { class_num: 12 });
    assert_eq!(Class::from(b'b', 0).unwrap_err(), ClassValidationError::WrongClassNumber { class_num: 0 });
}

#[test]
fn class_rejects_non_letter() {
    assert_eq!(Class::from(b'1', 5).unwrap_err(), ClassValidationError::WrongClassChar { class_char: b'1' });
}

#[test]
fn class_rejects_both() {
    assert_eq!(
        Class::from(b'#', 40).unwrap_err(),
        ClassValidationError::WrongClassCharEndNumber { class_char: b'#', class_num: 40 }
    );
}

#[test]
fn subject_round_trip_and_titles() {
    assert_eq!(Subject::from_str("ComputerScience"), Ok(Subject::ComputerScience));
    assert_eq!(Subject::from_str("Mathematics"), Ok(Subject::Mathematics));
    assert_eq!(Subject::from_str("Computer Science"), Err(()));
    assert_eq!(Subject::from_str(""), Err(()));
    assert_eq!(Subject::ComputerScience.to_string(), "Computer Science");
    assert_eq!(Subject::PhysicalEducation.to_string(), "Physical Education");
    assert_eq!(Subject::Law.to_string(), "Law");
}

#[test]
fn user_type_predicates() {
    let t = UserType::Teacher { subject: Subject::Physics };
    assert!(t.is_teacher() && t.is_school_member() && !t.is_student() && !t.is_administrator());
    let s = UserType::Student { class: Class::from(b'A', 9).unwrap() };
    assert!(s.is_student() && s.is_school_member());
    let a = UserType::Administrator { job_title: "Director".to_string() };
    assert!(a.is_administrator() && !a.is_teacher());
    assert!(!UserType::Other.is_school_member());
}

#[test]
fn user_type_from_stored_parts() {
    assert!(matches!(
        user_type_from_parts("Teacher", Some("Biology"), None, None, None),
        Some(UserType::Teacher { subject: Subject::Biology })
    ));
    match user_type_from_parts("Student", None, Some(b'B'), Some(7), None) {
        Some(UserType::Student { class }) => {
            assert_eq!(class.class_num(), 7);
            assert_eq!(class.class_char(), "B");
        }
        other => panic!("unexpected {:?}", other),
    }
    assert!(user_type_from_parts("Student", None, Some(b'B'), Some(70), None).is_none());
    assert!(user_type_from_parts("Teacher", None, None, None, None).is_none());
    assert!(matches!(
        user_type_from_parts("Administrator", None, None, None, Some("Head".to_string())),
        Some(UserType::Administrator { job_title }) if job_title == "Head"
    ));
    assert!(matches!(user_type_from_parts("Other", None, None, None, None), Some(UserType::Other)));
    assert!(user_type_from_parts("Janitor", None, None, None, None).is_none());
}

#[test]
fn edited_state_from_stored_parts() {
    assert_eq!(EditedState::from_parts(true, Some(5)), EditedState::Edited { edited_at: 5 });
    assert_eq!(EditedState::from_parts(false, Some(5)), EditedState::NotEdited);
    assert_eq!(EditedState::from_parts(true, None), EditedState::NotEdited);
    assert!(EditedState::Edited { edited_at: 1 }.is_edited());
    assert!(!EditedState::NotEdited.is_edited());
}

#[test]
fn decimal_and_string_helpers() {
    assert_eq!(decimal_string(0), "0");
    assert_eq!(decimal_string(25), "25");
    assert_eq!(decimal_string(u64::MAX), "18446744073709551615");
    assert!(str_eq("abc", "abc"));
    assert!(!str_eq("abc", "abd"));
    assert!(has_prefix("998901234567", "998"));
    assert!(!has_prefix("99", "998"));
}
