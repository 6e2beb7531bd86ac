//! Insert statements for registrations and update statements for validated
//! user changes, with their values bound as parameters.

use crate::query::{BuiltQuery, SqlArg, SqlValue};
use crate::filters::{role_name, role_name_of};
use crate::types::subject_key;
use crate::users::{ChangeQueryParam, UserModel, UserRegistrationDTO, UserType};
use crate::validation::ValidatedChangeQueryParam;
use vstd::prelude::*;
use vstd::string::*;

verus! {

/// The table that holds the field a change touches.
pub open spec fn change_table(p: ChangeQueryParam) -> Seq<char> {
    match p {
        ChangeQueryParam::JobTitle(_) => "administrators"@,
        ChangeQueryParam::Class(_) => "students"@,
        _ => "users"@,
    }
}

/// The assignments of an update for a change, with its placeholders.
pub open spec fn change_assignments(p: ChangeQueryParam) -> Seq<char> {
    match p {
        ChangeQueryParam::Password(_) => "password = $1"@,
        ChangeQueryParam::About(_) => "about = $1"@,
        ChangeQueryParam::Email(_) => "email = $1"@,
        ChangeQueryParam::PhoneNumber(_) => "phone_number = $1"@,
        ChangeQueryParam::FirstName(_) => "first_name = $1"@,
        ChangeQueryParam::LastName(_) => "last_name = $1"@,
        ChangeQueryParam::JobTitle(_) => "job_title = $1"@,
        ChangeQueryParam::Class(_) => "class_num = $1, class_char = $2"@,
    }
}

/// The values bound to the assignments of a change.
pub open spec fn change_values(p: ChangeQueryParam) -> Seq<SqlArg> {
    match p {
        ChangeQueryParam::Password(s) => seq![SqlArg::Text(s@)],
        ChangeQueryParam::About(s) => seq![SqlArg::Text(s@)],
        ChangeQueryParam::Email(s) => seq![SqlArg::Text(s@)],
        ChangeQueryParam::PhoneNumber(o) => match o {
            Some(s) => seq![SqlArg::Text(s@)],
            None => seq![SqlArg::Null],
        },
        ChangeQueryParam::FirstName(s) => seq![SqlArg::Text(s@)],
        ChangeQueryParam::LastName(s) => seq![SqlArg::Text(s@)],
        ChangeQueryParam::JobTitle(s) => seq![SqlArg::Text(s@)],
        ChangeQueryParam::Class(c) => seq![SqlArg::Int(c.number() as i64), SqlArg::Text(seq![c.letter() as char])],
    }
}

/// The placeholder of the username: after the values of the change.
pub open spec fn username_placeholder(p: ChangeQueryParam) -> Seq<char> {
    match p {
        ChangeQueryParam::Class(_) => "$3"@,
        _ => "$2"@,
    }
}

/// An update of one validated field of one user.
pub struct ChangeQuery {
    target_username: String,
    param: ValidatedChangeQueryParam,
}

impl ChangeQuery {
    pub closed spec fn spec_username(&self) -> Seq<char> {
        self.target_username@
    }

    pub closed spec fn spec_param(&self) -> ChangeQueryParam {
        self.param.spec_param()
    }

    pub fn new(target: &UserModel, param: ValidatedChangeQueryParam) -> (r: Self)
        ensures
            r.spec_username() == target.username@,
            r.spec_param() == param.spec_param(),
    {
        Self { target_username: target.username(), param }
    }

    /// `update <table> set <assignments> where username = $n;`, with the
    /// values of the change, then the username, bound in order.
    pub fn to_query(&self) -> (r: BuiltQuery)
        ensures
            r.sql@ == "update "@ + change_table(self.spec_param()) + " set "@ + change_assignments(
                self.spec_param(),
            ) + " where username = "@ + username_placeholder(self.spec_param()) + ";"@,
            r.binds@.map_values(|v: SqlValue| v@) == change_values(self.spec_param()).push(
                SqlArg::Text(self.spec_username()),
            ),
    {
        let p = self.param.param();
        let (table, assign, placeholder): (&str, &str, &str) = match &p {
            ChangeQueryParam::Password(_) => ("users", "password = $1", "$2"),
            ChangeQueryParam::About(_) => ("users", "about = $1", "$2"),
            ChangeQueryParam::Email(_) => ("users", "email = $1", "$2"),
            ChangeQueryParam::PhoneNumber(_) => ("users", "phone_number = $1", "$2"),
            ChangeQueryParam::FirstName(_) => ("users", "first_name = $1", "$2"),
            ChangeQueryParam::LastName(_) => ("users", "last_name = $1", "$2"),
            ChangeQueryParam::JobTitle(_) => ("administrators", "job_title = $1", "$2"),
            ChangeQueryParam::Class(_) => ("students", "class_num = $1, class_char = $2", "$3"),
        };
        let mut sql = String::from_str("update ");
        sql.append(table);
        sql.append(" set ");
        sql.append(assign);
        sql.append(" where username = ");
        sql.append(placeholder);
        sql.append(";");
        let mut binds: Vec<SqlValue> = Vec::new();
        match p {
            ChangeQueryParam::Password(s) => binds.push(SqlValue::Text(s)),
            ChangeQueryParam::About(s) => binds.push(SqlValue::Text(s)),
            ChangeQueryParam::Email(s) => binds.push(SqlValue::Text(s)),
            ChangeQueryParam::PhoneNumber(o) => match o {
                Some(s) => binds.push(SqlValue::Text(s)),
                None => binds.push(SqlValue::Null),
            },
            ChangeQueryParam::FirstName(s) => binds.push(SqlValue::Text(s)),
            ChangeQueryParam::LastName(s) => binds.push(SqlValue::Text(s)),
            ChangeQueryParam::JobTitle(s) => binds.push(SqlValue::Text(s)),
            ChangeQueryParam::Class(c) => {
                binds.push(SqlValue::Int(c.class_num() as i64));
                binds.push(SqlValue::Text(c.class_char()));
            },
        }
        binds.push(SqlValue::Text(self.target_username.clone()));
        proof {
            assert(binds@.map_values(|v: SqlValue| v@) =~= change_values(self.spec_param()).push(
                SqlArg::Text(self.spec_username()),
            ));
        }
        BuiltQuery { sql, binds }
    }
}

/// The statement that inserts a new user.
pub const USER_INSERT: &'static str = "insert into users (uuid, username, password, email, first_name, last_name, phone_number, user_specs, birth_date, about) values ($1, $2, $3, $4, $5, $6, $7, $8, $9, $10);";

/// Inserts the common fields of a registration, under identifier `id`.
pub fn user_insert_query(dto: &UserRegistrationDTO, id: u128) -> (r: BuiltQuery)
    ensures
        r.sql@ == USER_INSERT@,
        r.binds@.map_values(|v: SqlValue| v@) == seq![
            SqlArg::Uuid(id),
            SqlArg::Text(dto.username@),
            SqlArg::Text(dto.password@),
            SqlArg::Text(dto.email@),
            SqlArg::Text(dto.first_name@),
            SqlArg::Text(dto.last_name@),
            SqlArg::Text(dto.phone_number@),
            SqlArg::Text(role_name(dto.user_specs)),
            SqlArg::Int(dto.birth_date as i64),
            SqlArg::Text(dto.about@),
        ],
{
    let mut binds: Vec<SqlValue> = Vec::new();
    binds.push(SqlValue::Uuid(id));
    binds.push(SqlValue::Text(dto.username.clone()));
    binds.push(SqlValue::Text(dto.password.clone()));
    binds.push(SqlValue::Text(dto.email.clone()));
    binds.push(SqlValue::Text(dto.first_name.clone()));
    binds.push(SqlValue::Text(dto.last_name.clone()));
    binds.push(SqlValue::Text(dto.phone_number.clone()));
    binds.push(SqlValue::Text(role_name_of(&dto.user_specs)));
    binds.push(SqlValue::Int(dto.birth_date as i64));
    binds.push(SqlValue::Text(dto.about.clone()));
    proof {
        assert(binds@.map_values(|v: SqlValue| v@) =~= seq![
            SqlArg::Uuid(id),
            SqlArg::Text(dto.username@),
            SqlArg::Text(dto.password@),
            SqlArg::Text(dto.email@),
            SqlArg::Text(dto.first_name@),
            SqlArg::Text(dto.last_name@),
            SqlArg::Text(dto.phone_number@),
            SqlArg::Text(role_name(dto.user_specs)),
            SqlArg::Int(dto.birth_date as i64),
            SqlArg::Text(dto.about@),
        ]);
    }
    BuiltQuery { sql: String::from_str(USER_INSERT), binds }
}

pub const TEACHER_INSERT: &'static str = "insert into teachers (username, subject) values ($1, $2);";

pub const STUDENT_INSERT: &'static str = "insert into students (username, class_num, class_char) values ($1, $2, $3);";

pub const ADMINISTRATOR_INSERT: &'static str = "insert into administrators (username, job_title) values ($1, $2);";

/// Inserts the fields of a registration's role; a user of no role has none.
pub fn role_insert_query(dto: &UserRegistrationDTO) -> (r: Option<BuiltQuery>)
    ensures
        match dto.user_specs {
            UserType::Other => r is None,
            UserType::Teacher { subject } => r matches Some(q) && q.sql@ == TEACHER_INSERT@
                && q.binds@.map_values(|v: SqlValue| v@) == seq![
                SqlArg::Text(dto.username@),
                SqlArg::Text(subject_key(subject)),
            ],
            UserType::Student { class } => r matches Some(q) && q.sql@ == STUDENT_INSERT@
                && q.binds@.map_values(|v: SqlValue| v@) == seq![
                SqlArg::Text(dto.username@),
                SqlArg::Int(class.number() as i64),
                SqlArg::Text(seq![class.letter() as char]),
            ],
            UserType::Administrator { job_title } => r matches Some(q) && q.sql@ == ADMINISTRATOR_INSERT@
                && q.binds@.map_values(|v: SqlValue| v@) == seq![
                SqlArg::Text(dto.username@),
                SqlArg::Text(job_title@),
            ],
        },
{
    let mut binds: Vec<SqlValue> = Vec::new();
    binds.push(SqlValue::Text(dto.username.clone()));
    let sql = match &dto.user_specs {
        UserType::Other => {
            return None;
        },
        UserType::Teacher { subject } => {
            binds.push(SqlValue::Text(subject.key()));
            TEACHER_INSERT
        },
        UserType::Student { class } => {
            binds.push(SqlValue::Int(class.class_num() as i64));
            binds.push(SqlValue::Text(class.class_char()));
            STUDENT_INSERT
        },
        UserType::Administrator { job_title } => {
            binds.push(SqlValue::Text(job_title.clone()));
            ADMINISTRATOR_INSERT
        },
    };
    proof {
        let t = dto.user_specs;
        match t {
            UserType::Teacher { subject } => {
                assert(binds@.map_values(|v: SqlValue| v@) =~= seq![
                    SqlArg::Text(dto.username@),
                    SqlArg::Text(subject_key(subject)),
                ]);
            },
            UserType::Student { class } => {
                assert(binds@.map_values(|v: SqlValue| v@) =~= seq![
                    SqlArg::Text(dto.username@),
                    SqlArg::Int(class.number() as i64),
                    SqlArg::Text(seq![class.letter() as char]),
                ]);
            },
            UserType::Administrator { job_title } => {
                assert(binds@.map_values(|v: SqlValue| v@) =~= seq![
                    SqlArg::Text(dto.username@),
                    SqlArg::Text(job_title@),
                ]);
            },
            UserType::Other => {},
        }
    }
    Some(BuiltQuery { sql: String::from_str(sql), binds })
}

} // verus!
