//! Validation of user fields, for registration and for field changes.
//! Every violation of a request is reported, not only the first.

use crate::types::Class;
use crate::users::{ChangeQueryParam, UserModel, UserRegistrationDTO, UserType};
use vstd::prelude::*;
use vstd::string::*;
use vstd::utf8::{encode_utf8, is_ascii_chars};
use crate::text::{has_prefix, is_prefix};

verus! {

/// Length of a string in UTF-8 bytes.
pub open spec fn byte_len(s: Seq<char>) -> nat {
    encode_utf8(s).len()
}

/// Length of a string in UTF-8 bytes.
pub fn byte_length(s: &str) -> (n: usize)
    ensures
        n == byte_len(s@),
{
    let b = s.as_bytes();
    b.len()
}

/// One element when `cond` holds, none otherwise.
pub open spec fn when<T>(cond: bool, e: T) -> Seq<T> {
    if cond { seq![e] } else { seq![] }
}

pub open spec fn is_digit(c: char) -> bool {
    '0' <= c && c <= '9'
}

/// Every character is an ASCII digit.
pub open spec fn all_digits(s: Seq<char>) -> bool {
    forall|i: int| 0 <= i < s.len() ==> is_digit(#[trigger] s[i])
}

/// Checks that every character is an ASCII digit.
pub fn only_digits(s: &str) -> (r: bool)
    ensures
        r == all_digits(s@),
{
    let n = s.unicode_len();
    let mut i: usize = 0;
    while i < n
        invariant
            n == s@.len(),
            i <= n,
            forall|k: int| 0 <= k < i ==> is_digit(#[trigger] s@[k]),
        decreases n - i,
    {
        let c = s.get_char(i);
        if !('0' <= c && c <= '9') {
            return false;
        }
        i = i + 1;
    }
    true
}

/// What compiling `pattern` and matching it against `text` gives: `None`
/// when the pattern does not compile.
pub uninterp spec fn regex_verdict(pattern: Seq<char>, text: Seq<char>) -> Option<bool>;

/// Relies on `regex::Regex::new`, then `Regex::is_match`: the verdict depends
/// on the pattern and the text alone.
#[verifier::external_body]
fn regex_is_match(pattern: &str, text: &str) -> (r: Option<bool>)
    ensures
        r == regex_verdict(pattern@, text@),
{
    match regex::Regex::new(pattern) {
        Ok(re) => Some(re.is_match(text)),
        Err(_) => None,
    }
}

/// The shape an e-mail address must have.
pub const EMAIL_PATTERN: &'static str = "^[\\w.-]+@([\\w-]+\\.)+[\\w-]{2,4}$";

/// Whether an e-mail address has the accepted shape.
pub open spec fn email_accepted(email: Seq<char>) -> bool {
    regex_verdict(EMAIL_PATTERN@, email) == Some(true)
}

/// Checks the shape of an e-mail address.
pub fn validate_email(email: &str) -> (r: bool)
    ensures
        r == email_accepted(email@),
{
    match regex_is_match(EMAIL_PATTERN, email) {
        Some(b) => b,
        None => false,
    }
}

#[derive(Clone, Copy, Debug, PartialEq, Eq)]
pub enum InvalidPhoneNumber {
    PhoneNumberToLong,
    PhoneNumberToSmall,
    PhoneNumberContainsOtherLiterals,
}

#[derive(Clone, Copy, Debug, PartialEq, Eq)]
pub enum InvalidPassword {
    PasswordToLong,
    PasswordToShort,
}

#[derive(Clone, Copy, Debug, PartialEq, Eq)]
pub enum InvalidUsername {
    NotAscii,
    ToSmall,
    ToLarge,
}

/// What is wrong with a password: at least 8 and at most 24 bytes.
pub open spec fn password_issues(p: Seq<char>) -> Seq<InvalidPassword> {
    when(byte_len(p) < 8, InvalidPassword::PasswordToShort)
        + when(byte_len(p) > 24, InvalidPassword::PasswordToLong)
}

/// What is wrong with a phone number: 12 bytes, the prefix `998`, digits only.
/// No number at all is fine.
pub open spec fn phone_issues(p: Option<Seq<char>>) -> Seq<InvalidPhoneNumber> {
    match p {
        None => seq![],
        Some(p) => when(byte_len(p) < 12, InvalidPhoneNumber::PhoneNumberToSmall)
            + when(byte_len(p) > 12, InvalidPhoneNumber::PhoneNumberToLong)
            + when(
                !(is_prefix("998"@, p) && all_digits(p)),
                InvalidPhoneNumber::PhoneNumberContainsOtherLiterals,
            ),
    }
}

/// A first or last name holds at most 31 bytes.
pub open spec fn name_ok(n: Seq<char>) -> bool {
    byte_len(n) <= 31
}

/// A job title holds at most 31 bytes.
pub open spec fn job_title_ok(t: Seq<char>) -> bool {
    byte_len(t) <= 31
}

/// An "about me" text holds at most 500 bytes.
pub open spec fn about_ok(a: Seq<char>) -> bool {
    byte_len(a) <= 500
}

pub fn validate_password(password: &str) -> (r: Vec<InvalidPassword>)
    ensures
        r@ == password_issues(password@),
{
    let mut errors: Vec<InvalidPassword> = Vec::new();
    if byte_length(password) < 8 {
        errors.push(InvalidPassword::PasswordToShort);
    }
    if byte_length(password) > 24 {
        errors.push(InvalidPassword::PasswordToLong);
    }
    assert(errors@ =~= password_issues(password@));
    errors
}

pub fn validate_phone_number(phone_number: Option<&str>) -> (r: Vec<InvalidPhoneNumber>)
    ensures
        r@ == phone_issues(
            match phone_number {
                Some(p) => Some(p@),
                None => None,
            },
        ),
{
    let mut errors: Vec<InvalidPhoneNumber> = Vec::new();
    match phone_number {
        None => errors,
        Some(p) => {
            let n = byte_length(p);
            if n < 12 {
                errors.push(InvalidPhoneNumber::PhoneNumberToSmall);
            } else if n > 12 {
                errors.push(InvalidPhoneNumber::PhoneNumberToLong);
            }
            if !(has_prefix(p, "998") && only_digits(p)) {
                errors.push(InvalidPhoneNumber::PhoneNumberContainsOtherLiterals);
            }
            assert(errors@ =~= phone_issues(Some(p@)));
            errors
        },
    }
}

pub fn validate_name(name: &str) -> (r: bool)
    ensures
        r == name_ok(name@),
{
    byte_length(name) <= 31
}

pub fn validate_username(username: &str) -> (r: bool)
    ensures
        r == is_ascii_chars(username@),
{
    username.is_ascii()
}

/// Why a field change was refused.
#[derive(Clone, Copy, Debug, PartialEq, Eq)]
pub enum ValidationError {
    InvalidPhoneNumber(InvalidPhoneNumber),
    InvalidPassword(InvalidPassword),
    InvalidName,
    InvalidAbout,
    InvalidEmail,
    InvalidJobTitle,
    ChangingJobTitleForNotAdministrator,
    ChangingClassForNotStudent,
}

/// Why a registration was refused.
#[derive(Clone, Copy, Debug, PartialEq, Eq)]
pub enum UserValidationError {
    InvalidPhoneNumber(InvalidPhoneNumber),
    InvalidPassword(InvalidPassword),
    InvalidName,
    InvalidUsername(InvalidUsername),
    InvalidAbout,
    InvalidEmail,
}

pub open spec fn opt_view(o: Option<String>) -> Option<Seq<char>> {
    match o {
        Some(s) => Some(s@),
        None => None,
    }
}

/// Whether the e-mail of a change, if it is one, has the accepted shape.
pub open spec fn change_email_accepted(p: ChangeQueryParam) -> bool {
    match p {
        ChangeQueryParam::Email(e) => email_accepted(e@),
        _ => true,
    }
}

/// Everything wrong with one change asked by a user of the given role, where
/// `email_ok` says whether an e-mail in it has the accepted shape.
pub open spec fn change_errors(p: ChangeQueryParam, role: UserType, email_ok: bool) -> Seq<ValidationError> {
    match p {
        ChangeQueryParam::Password(s) => password_issues(s@).map_values(
            |e: InvalidPassword| ValidationError::InvalidPassword(e),
        ),
        ChangeQueryParam::Email(_) => when(!email_ok, ValidationError::InvalidEmail),
        ChangeQueryParam::PhoneNumber(o) => phone_issues(opt_view(o)).map_values(
            |e: InvalidPhoneNumber| ValidationError::InvalidPhoneNumber(e),
        ),
        ChangeQueryParam::FirstName(s) => when(!name_ok(s@), ValidationError::InvalidName),
        ChangeQueryParam::LastName(s) => when(!name_ok(s@), ValidationError::InvalidName),
        ChangeQueryParam::About(s) => when(!about_ok(s@), ValidationError::InvalidAbout),
        ChangeQueryParam::JobTitle(s) => when(!job_title_ok(s@), ValidationError::InvalidJobTitle)
            + when(
            !(role is Administrator),
            ValidationError::ChangingJobTitleForNotAdministrator,
        ),
        ChangeQueryParam::Class(_) => when(
            !(role is Student),
            ValidationError::ChangingClassForNotStudent,
        ),
    }
}

/// Everything wrong with a list of changes, in order.
pub open spec fn all_change_errors(ps: Seq<ChangeQueryParam>, role: UserType) -> Seq<ValidationError>
    decreases ps.len(),
{
    if ps.len() == 0 {
        seq![]
    } else {
        all_change_errors(ps.drop_last(), role) + change_errors(
            ps.last(),
            role,
            change_email_accepted(ps.last()),
        )
    }
}

fn push_password_issues(errors: &mut Vec<ValidationError>, password: &str)
    ensures
        final(errors)@ == old(errors)@ + password_issues(password@).map_values(
            |e: InvalidPassword| ValidationError::InvalidPassword(e),
        ),
{
    let issues = validate_password(password);
    let ghost start = errors@;
    let mut i: usize = 0;
    while i < issues.len()
        invariant
            i <= issues@.len(),
            issues@ == password_issues(password@),
            errors@ == start + issues@.subrange(0, i as int).map_values(
                |e: InvalidPassword| ValidationError::InvalidPassword(e),
            ),
        decreases issues@.len() - i,
    {
        errors.push(ValidationError::InvalidPassword(issues[i]));
        i = i + 1;
        assert(issues@.subrange(0, i as int).map_values(
            |e: InvalidPassword| ValidationError::InvalidPassword(e),
        ) =~= issues@.subrange(0, i - 1).map_values(
            |e: InvalidPassword| ValidationError::InvalidPassword(e),
        ).push(ValidationError::InvalidPassword(issues@[i - 1])));
    }
    assert(issues@.subrange(0, i as int) =~= issues@);
}

fn push_phone_issues(errors: &mut Vec<ValidationError>, phone: Option<&str>)
    ensures
        final(errors)@ == old(errors)@ + phone_issues(
            match phone {
                Some(p) => Some(p@),
                None => None,
            },
        ).map_values(|e: InvalidPhoneNumber| ValidationError::InvalidPhoneNumber(e)),
{
    let issues = validate_phone_number(phone);
    let ghost start = errors@;
    let mut i: usize = 0;
    while i < issues.len()
        invariant
            i <= issues@.len(),
            issues@ == phone_issues(
                match phone {
                    Some(p) => Some(p@),
                    None => None,
                },
            ),
            errors@ == start + issues@.subrange(0, i as int).map_values(
                |e: InvalidPhoneNumber| ValidationError::InvalidPhoneNumber(e),
            ),
        decreases issues@.len() - i,
    {
        errors.push(ValidationError::InvalidPhoneNumber(issues[i]));
        i = i + 1;
        assert(issues@.subrange(0, i as int).map_values(
            |e: InvalidPhoneNumber| ValidationError::InvalidPhoneNumber(e),
        ) =~= issues@.subrange(0, i - 1).map_values(
            |e: InvalidPhoneNumber| ValidationError::InvalidPhoneNumber(e),
        ).push(ValidationError::InvalidPhoneNumber(issues@[i - 1])));
    }
    assert(issues@.subrange(0, i as int) =~= issues@);
}

/// Appends everything wrong with one change, given whether an e-mail in it
/// has the accepted shape.
pub fn push_change_errors(
    errors: &mut Vec<ValidationError>,
    param: &ChangeQueryParam,
    role: &UserType,
    email_ok: bool,
)
    ensures
        final(errors)@ == old(errors)@ + change_errors(*param, *role, email_ok),
{
    match param {
        ChangeQueryParam::Password(s) => push_password_issues(errors, s.as_str()),
        ChangeQueryParam::Email(_) => {
            if !email_ok {
                errors.push(ValidationError::InvalidEmail);
            }
        },
        ChangeQueryParam::PhoneNumber(o) => {
            match o {
                Some(p) => push_phone_issues(errors, Some(p.as_str())),
                None => push_phone_issues(errors, None),
            }
        },
        ChangeQueryParam::FirstName(s) => {
            if !validate_name(s.as_str()) {
                errors.push(ValidationError::InvalidName);
            }
        },
        ChangeQueryParam::LastName(s) => {
            if !validate_name(s.as_str()) {
                errors.push(ValidationError::InvalidName);
            }
        },
        ChangeQueryParam::About(s) => {
            if byte_length(s.as_str()) > 500 {
                errors.push(ValidationError::InvalidAbout);
            }
        },
        ChangeQueryParam::JobTitle(s) => {
            if byte_length(s.as_str()) > 31 {
                errors.push(ValidationError::InvalidJobTitle);
            }
            if !role.is_administrator() {
                errors.push(ValidationError::ChangingJobTitleForNotAdministrator);
            }
        },
        ChangeQueryParam::Class(_) => {
            if !role.is_student() {
                errors.push(ValidationError::ChangingClassForNotStudent);
            }
        },
    }
    assert(final(errors)@ =~= old(errors)@ + change_errors(*param, *role, email_ok));
}

/// Checks the e-mail of a change, if it is one.
fn change_email_check(param: &ChangeQueryParam) -> (r: bool)
    ensures
        r == change_email_accepted(*param),
{
    match param {
        ChangeQueryParam::Email(e) => validate_email(e.as_str()),
        _ => true,
    }
}

/// A field change that passed validation for its target user.
#[derive(Debug)]
pub struct ValidatedChangeQueryParam(ChangeQueryParam);

impl ValidatedChangeQueryParam {
    pub closed spec fn spec_param(&self) -> ChangeQueryParam {
        self.0
    }

    /// Validates one change for the given user: every violation is reported.
    pub fn validate(param: ChangeQueryParam, target: &UserModel) -> (r: Result<
        ValidatedChangeQueryParam,
        Vec<ValidationError>,
    >)
        ensures
            ({
                let errs = change_errors(param, target.user_specs, change_email_accepted(param));
                match r {
                    Ok(v) => errs.len() == 0 && v.spec_param() == param,
                    Err(e) => errs.len() > 0 && e@ == errs,
                }
            }),
    {
        let mut errors: Vec<ValidationError> = Vec::new();
        let email_ok = change_email_check(&param);
        push_change_errors(&mut errors, &param, &target.user_specs, email_ok);
        if errors.len() == 0 {
            Ok(ValidatedChangeQueryParam(param))
        } else {
            Err(errors)
        }
    }

    pub fn param(&self) -> (r: ChangeQueryParam)
        ensures
            r == self.spec_param(),
    {
        self.0.clone()
    }
}

/// Validates a list of changes for the given user. Either all pass, or every
/// violation of every change is reported, in order.
pub fn validate_changes(params: Vec<ChangeQueryParam>, target: &UserModel) -> (r: Result<
    Vec<ValidatedChangeQueryParam>,
    Vec<ValidationError>,
>)
    ensures
        ({
            let errs = all_change_errors(params@, target.user_specs);
            match r {
                Ok(v) => errs.len() == 0 && v@.len() == params@.len() && forall|i: int|
                    0 <= i < v@.len() ==> (#[trigger] v@[i]).spec_param() == params@[i],
                Err(e) => errs.len() > 0 && e@ == errs,
            }
        }),
{
    let mut errors: Vec<ValidationError> = Vec::new();
    let mut i: usize = 0;
    while i < params.len()
        invariant
            i <= params@.len(),
            errors@ == all_change_errors(params@.subrange(0, i as int), target.user_specs),
        decreases params@.len() - i,
    {
        let email_ok = change_email_check(&params[i]);
        push_change_errors(&mut errors, &params[i], &target.user_specs, email_ok);
        i = i + 1;
        assert(params@.subrange(0, i as int).drop_last() =~= params@.subrange(0, i - 1));
    }
    assert(params@.subrange(0, i as int) =~= params@);
    if errors.len() > 0 {
        return Err(errors);
    }
    let mut validated: Vec<ValidatedChangeQueryParam> = Vec::new();
    let mut j: usize = 0;
    while j < params.len()
        invariant
            j <= params@.len(),
            validated@.len() == j,
            forall|k: int| 0 <= k < j ==> (#[trigger] validated@[k]).spec_param() == params@[k],
        decreases params@.len() - j,
    {
        validated.push(ValidatedChangeQueryParam(params[j].clone()));
        j = j + 1;
    }
    Ok(validated)
}

/// Everything wrong with a registration, in the order: password, first name,
/// last name, e-mail, phone number, username, about text. `email_ok` says
/// whether the e-mail has the accepted shape.
pub open spec fn registration_errors(dto: UserRegistrationDTO, email_ok: bool) -> Seq<UserValidationError> {
    password_issues(dto.password@).map_values(|e: InvalidPassword| UserValidationError::InvalidPassword(e))
        + when(!name_ok(dto.first_name@), UserValidationError::InvalidName)
        + when(!name_ok(dto.last_name@), UserValidationError::InvalidName)
        + when(!email_ok, UserValidationError::InvalidEmail)
        + phone_issues(Some(dto.phone_number@)).map_values(
            |e: InvalidPhoneNumber| UserValidationError::InvalidPhoneNumber(e),
        )
        + when(!is_ascii_chars(dto.username@), UserValidationError::InvalidUsername(InvalidUsername::NotAscii))
        + when(!about_ok(dto.about@), UserValidationError::InvalidAbout)
}

fn push_registration_password(errors: &mut Vec<UserValidationError>, password: &str)
    ensures
        final(errors)@ == old(errors)@ + password_issues(password@).map_values(
            |e: InvalidPassword| UserValidationError::InvalidPassword(e),
        ),
{
    let issues = validate_password(password);
    let ghost start = errors@;
    let mut i: usize = 0;
    while i < issues.len()
        invariant
            i <= issues@.len(),
            issues@ == password_issues(password@),
            errors@ == start + issues@.subrange(0, i as int).map_values(
                |e: InvalidPassword| UserValidationError::InvalidPassword(e),
            ),
        decreases issues@.len() - i,
    {
        errors.push(UserValidationError::InvalidPassword(issues[i]));
        i = i + 1;
        assert(issues@.subrange(0, i as int).map_values(
            |e: InvalidPassword| UserValidationError::InvalidPassword(e),
        ) =~= issues@.subrange(0, i - 1).map_values(
            |e: InvalidPassword| UserValidationError::InvalidPassword(e),
        ).push(UserValidationError::InvalidPassword(issues@[i - 1])));
    }
    assert(issues@.subrange(0, i as int) =~= issues@);
}

fn push_registration_phone(errors: &mut Vec<UserValidationError>, phone: &str)
    ensures
        final(errors)@ == old(errors)@ + phone_issues(Some(phone@)).map_values(
            |e: InvalidPhoneNumber| UserValidationError::InvalidPhoneNumber(e),
        ),
{
    let issues = validate_phone_number(Some(phone));
    let ghost start = errors@;
    let mut i: usize = 0;
    while i < issues.len()
        invariant
            i <= issues@.len(),
            issues@ == phone_issues(Some(phone@)),
            errors@ == start + issues@.subrange(0, i as int).map_values(
                |e: InvalidPhoneNumber| UserValidationError::InvalidPhoneNumber(e),
            ),
        decreases issues@.len() - i,
    {
        errors.push(UserValidationError::InvalidPhoneNumber(issues[i]));
        i = i + 1;
        assert(issues@.subrange(0, i as int).map_values(
            |e: InvalidPhoneNumber| UserValidationError::InvalidPhoneNumber(e),
        ) =~= issues@.subrange(0, i - 1).map_values(
            |e: InvalidPhoneNumber| UserValidationError::InvalidPhoneNumber(e),
        ).push(UserValidationError::InvalidPhoneNumber(issues@[i - 1])));
    }
    assert(issues@.subrange(0, i as int) =~= issues@);
}

/// Collects everything wrong with a registration, given whether its e-mail
/// has the accepted shape.
pub fn registration_errors_with(dto: &UserRegistrationDTO, email_ok: bool) -> (r: Vec<UserValidationError>)
    ensures
        r@ == registration_errors(*dto, email_ok),
{
    let mut errors: Vec<UserValidationError> = Vec::new();
    push_registration_password(&mut errors, dto.password.as_str());
    if !validate_name(dto.first_name.as_str()) {
        errors.push(UserValidationError::InvalidName);
    }
    if !validate_name(dto.last_name.as_str()) {
        errors.push(UserValidationError::InvalidName);
    }
    if !email_ok {
        errors.push(UserValidationError::InvalidEmail);
    }
    push_registration_phone(&mut errors, dto.phone_number.as_str());
    if !validate_username(dto.username.as_str()) {
        errors.push(UserValidationError::InvalidUsername(InvalidUsername::NotAscii));
    }
    if byte_length(dto.about.as_str()) > 500 {
        errors.push(UserValidationError::InvalidAbout);
    }
    assert(errors@ =~= registration_errors(*dto, email_ok));
    errors
}

/// Validates a registration: every violation is reported.
pub fn validate_registration(dto: &UserRegistrationDTO) -> (r: Result<(), Vec<UserValidationError>>)
    ensures
        ({
            let errs = registration_errors(*dto, email_accepted(dto.email@));
            match r {
                Ok(_) => errs.len() == 0,
                Err(e) => errs.len() > 0 && e@ == errs,
            }
        }),
{
    let email_ok = validate_email(dto.email.as_str());
    let errors = registration_errors_with(dto, email_ok);
    if errors.len() == 0 {
        Ok(())
    } else {
        Err(errors)
    }
}

} // verus!
