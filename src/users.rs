//! Users and what can be asked of them: sign-in and field changes.

use crate::filters::role_name;
use crate::types::{is_ascii_letter, subject_key, Class, Subject};
use crate::text::str_eq;
use vstd::prelude::*;

verus! {

/// The role of a user, which decides which of its fields may change.
#[derive(Debug)]
pub enum UserType {
    Teacher { subject: Subject },
    Student { class: Class },
    Administrator { job_title: String },
    Other,
}

impl Clone for UserType {
    fn clone(&self) -> (r: Self)
        ensures
            r == *self,
    {
        match self {
            UserType::Teacher { subject } => UserType::Teacher { subject: *subject },
            UserType::Student { class } => UserType::Student { class: *class },
            UserType::Administrator { job_title } => UserType::Administrator {
                job_title: job_title.clone(),
            },
            UserType::Other => UserType::Other,
        }
    }
}

/// Copies an optional string.
pub fn clone_opt_string(s: &Option<String>) -> (r: Option<String>)
    ensures
        r == *s,
{
    match s {
        Some(x) => Some(x.clone()),
        None => None,
    }
}

impl UserType {
    pub fn is_administrator(&self) -> (r: bool)
        ensures
            r == (*self is Administrator),
    {
        if let UserType::Administrator { job_title: _ } = self {
            return true;
        }
        false
    }

    pub fn is_student(&self) -> (r: bool)
        ensures
            r == (*self is Student),
    {
        if let UserType::Student { class: _ } = self {
            return true;
        }
        false
    }

    pub fn is_school_member(&self) -> (r: bool)
        ensures
            r == !(*self is Other),
    {
        if let UserType::Other = self {
            return false;
        }
        true
    }

    pub fn is_teacher(&self) -> (r: bool)
        ensures
            r == (*self is Teacher),
    {
        if let UserType::Teacher { subject: _ } = self {
            return true;
        }
        false
    }
}

/// A registered user. `birth_date` counts days from 0001-01-01 (day 1).
#[derive(Debug)]
pub struct UserModel {
    pub uuid: u128,
    pub username: String,
    pub about: String,
    pub first_name: String,
    pub last_name: String,
    pub password: String,
    pub email: String,
    pub phone_number: Option<String>,
    pub birth_date: i32,
    pub user_specs: UserType,
}

impl Clone for UserModel {
    fn clone(&self) -> (r: Self)
        ensures
            r == *self,
    {
        UserModel {
            uuid: self.uuid,
            username: self.username.clone(),
            about: self.about.clone(),
            first_name: self.first_name.clone(),
            last_name: self.last_name.clone(),
            password: self.password.clone(),
            email: self.email.clone(),
            phone_number: clone_opt_string(&self.phone_number),
            birth_date: self.birth_date,
            user_specs: self.user_specs.clone(),
        }
    }
}

impl UserModel {
    pub fn username(&self) -> (r: String)
        ensures
            r@ == self.username@,
    {
        self.username.clone()
    }

    pub fn user_specs(&self) -> (r: UserType)
        ensures
            r == self.user_specs,
    {
        self.user_specs.clone()
    }
}

/// Credentials given to sign in.
#[derive(Clone, Debug)]
pub struct SingDTO {
    pub username: String,
    pub password: String,
}

/// Why signing in failed.
#[derive(Clone, Copy, Debug, PartialEq, Eq)]
pub enum SingError {
    WrongUsername,
    WrongPassword,
}

/// Checks credentials against the user found under their username, if any.
pub fn check_credentials(found: Option<&UserModel>, credentials: &SingDTO) -> (r: Result<
    String,
    SingError,
>)
    ensures
        match found {
            None => r == Err::<String, SingError>(SingError::WrongUsername),
            Some(u) => if u.password@ == credentials.password@ {
                r matches Ok(name) && name@ == u.username@
            } else {
                r == Err::<String, SingError>(SingError::WrongPassword)
            },
        },
{
    match found {
        None => Err(SingError::WrongUsername),
        Some(u) => {
            if !str_eq(credentials.password.as_str(), u.password.as_str()) {
                return Err(SingError::WrongPassword);
            }
            Ok(u.username())
        },
    }
}

/// One field change that a user asks for.
#[derive(Debug)]
pub enum ChangeQueryParam {
    Password(String),
    About(String),
    Email(String),
    PhoneNumber(Option<String>),
    FirstName(String),
    LastName(String),
    JobTitle(String),
    Class(Class),
}

impl Clone for ChangeQueryParam {
    fn clone(&self) -> (r: Self)
        ensures
            r == *self,
    {
        match self {
            ChangeQueryParam::Password(s) => ChangeQueryParam::Password(s.clone()),
            ChangeQueryParam::About(s) => ChangeQueryParam::About(s.clone()),
            ChangeQueryParam::Email(s) => ChangeQueryParam::Email(s.clone()),
            ChangeQueryParam::PhoneNumber(s) => ChangeQueryParam::PhoneNumber(clone_opt_string(s)),
            ChangeQueryParam::FirstName(s) => ChangeQueryParam::FirstName(s.clone()),
            ChangeQueryParam::LastName(s) => ChangeQueryParam::LastName(s.clone()),
            ChangeQueryParam::JobTitle(s) => ChangeQueryParam::JobTitle(s.clone()),
            ChangeQueryParam::Class(c) => ChangeQueryParam::Class(*c),
        }
    }
}

/// What a new user gives to register. `birth_date` counts days as in
/// [`UserModel`].
#[derive(Debug)]
pub struct UserRegistrationDTO {
    pub username: String,
    pub last_name: String,
    pub first_name: String,
    pub birth_date: i32,
    pub user_specs: UserType,
    pub about: String,
    pub password: String,
    pub email: String,
    pub phone_number: String,
}

/// Why registration failed.
#[derive(Clone, Copy, Debug, PartialEq, Eq)]
pub enum RegistrationError {
    UsernameAlreadyExists,
    ProblemsWithDB,
    ErrorsOnRegisttrationUserType,
}

/// `t` is the role stored as the name `role` with the given role fields.
pub open spec fn decodes_to(
    role: Seq<char>,
    subject: Option<Seq<char>>,
    class_char: Option<u8>,
    class_num: Option<u8>,
    job_title: Option<Seq<char>>,
    t: UserType,
) -> bool {
    role == role_name(t) && match t {
        UserType::Teacher { subject: s } => subject == Some(subject_key(s)),
        UserType::Student { class } => class_char == Some(class.letter()) && class_num == Some(class.number())
            && 1 <= class.number() <= 11 && is_ascii_letter(class.letter()),
        UserType::Administrator { job_title: j } => job_title == Some(j@),
        UserType::Other => true,
    }
}

/// Rebuilds a role from its stored name and fields. Nothing is built from an
/// unknown name, a missing field, or a field out of range.
pub fn user_type_from_parts(
    role: &str,
    subject: Option<&str>,
    class_char: Option<u8>,
    class_num: Option<u8>,
    job_title: Option<String>,
) -> (r: Option<UserType>)
    ensures
        ({
            let subj = match subject {
                Some(s) => Some(s@),
                None => None,
            };
            let job = match job_title {
                Some(j) => Some(j@),
                None => None,
            };
            match r {
                Some(t) => decodes_to(role@, subj, class_char, class_num, job, t),
                None => forall|t: UserType| !decodes_to(role@, subj, class_char, class_num, job, t),
            }
        }),
{
    proof {
        reveal_strlit("Teacher");
        reveal_strlit("Student");
        reveal_strlit("Administrator");
        reveal_strlit("Other");
        assert("Teacher"@[0] != "Student"@[0]);
        assert("Teacher"@.len() != "Administrator"@.len());
        assert("Teacher"@.len() != "Other"@.len());
        assert("Student"@.len() != "Administrator"@.len());
        assert("Student"@.len() != "Other"@.len());
        assert("Administrator"@.len() != "Other"@.len());
    }
    if str_eq(role, "Teacher") {
        match subject {
            Some(s) => match Subject::from_str(s) {
                Ok(subject) => Some(UserType::Teacher { subject }),
                Err(_) => None,
            },
            None => None,
        }
    } else if str_eq(role, "Student") {
        match (class_char, class_num) {
            (Some(c), Some(n)) => match Class::from(c, n) {
                Ok(class) => Some(UserType::Student { class }),
                Err(_) => {
                    None
                },
            },
            _ => None,
        }
    } else if str_eq(role, "Administrator") {
        match job_title {
            Some(j) => Some(UserType::Administrator { job_title: j }),
            None => None,
        }
    } else if str_eq(role, "Other") {
        Some(UserType::Other)
    } else {
        None
    }
}

} // verus!
