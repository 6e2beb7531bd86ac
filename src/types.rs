//! Plain value types shared by the rest of the library.

use crate::text::str_eq;
use vstd::prelude::*;
use vstd::string::*;

verus! {

/// Whether a byte is an ASCII letter (`A`..=`Z` or `a`..=`z`).
pub open spec fn is_ascii_letter(c: u8) -> bool {
    (65 <= c && c <= 90) || (97 <= c && c <= 122)
}

/// A school class such as `9A`: a number in `1..=11` and an ASCII letter.
#[derive(Clone, Copy, Debug, PartialEq, Eq)]
pub struct Class {
    class_char: u8,
    class_num: u8,
}

/// Why a class could not be built.
#[derive(Clone, Copy, Debug, PartialEq, Eq)]
pub enum ClassValidationError {
    WrongClassNumber { class_num: u8 },
    WrongClassChar { class_char: u8 },
    WrongClassCharEndNumber { class_char: u8, class_num: u8 },
}

impl Class {
    #[verifier::type_invariant]
    spec fn inv(&self) -> bool {
        1 <= self.class_num <= 11 && is_ascii_letter(self.class_char)
    }

    /// The letter of the class, as its byte.
    pub closed spec fn letter(&self) -> u8 {
        self.class_char
    }

    /// The number of the class.
    pub closed spec fn number(&self) -> u8 {
        self.class_num
    }

    /// Builds a class, checking the number and the letter.
    pub fn from(class_char: u8, class_num: u8) -> (r: Result<Class, ClassValidationError>)
        ensures
            match r {
                Ok(c) => c.letter() == class_char && c.number() == class_num
                    && 1 <= class_num <= 11 && is_ascii_letter(class_char),
                Err(ClassValidationError::WrongClassNumber { class_num: n }) => n == class_num
                    && !(1 <= class_num <= 11) && is_ascii_letter(class_char),
                Err(ClassValidationError::WrongClassChar { class_char: ch }) => ch == class_char
                    && 1 <= class_num <= 11 && !is_ascii_letter(class_char),
                Err(ClassValidationError::WrongClassCharEndNumber { class_char: ch, class_num: n }) =>
                    ch == class_char && n == class_num && !(1 <= class_num <= 11)
                    && !is_ascii_letter(class_char),
            },
    {
        let num_ok = 1 <= class_num && class_num <= 11;
        let char_ok = (65 <= class_char && class_char <= 90) || (97 <= class_char && class_char <= 122);
        if num_ok && char_ok {
            Ok(Class { class_char, class_num })
        } else if char_ok {
            Err(ClassValidationError::WrongClassNumber { class_num })
        } else if num_ok {
            Err(ClassValidationError::WrongClassChar { class_char })
        } else {
            Err(ClassValidationError::WrongClassCharEndNumber { class_char, class_num })
        }
    }

    /// The letter of the class as a one-character string.
    pub fn class_char(&self) -> (r: String)
        ensures
            r@ == seq![self.letter() as char],
    {
        proof {
            use_type_invariant(self);
        }
        ascii_byte_to_string(self.class_char)
    }

    /// The number of the class.
    pub fn class_num(&self) -> (r: u8)
        ensures
            r == self.number(),
            1 <= r <= 11,
    {
        proof {
            use_type_invariant(self);
        }
        self.class_num
    }
}

/// Relies on `String::from_utf8`: a single ASCII byte decodes to the
/// one-character string of that code.
#[verifier::external_body]
fn ascii_byte_to_string(b: u8) -> (r: String)
    requires
        b < 128,
    ensures
        r@ == seq![b as char],
{
    match String::from_utf8(vec![b]) {
        Ok(s) => s,
        Err(_) => String::new(),
    }
}


/// A school subject taught by a teacher.
#[derive(Clone, Copy, Debug, PartialEq, Eq)]
pub enum Subject {
    Mathematics,
    Physics,
    Chemistry,
    Biology,
    Uzbek,
    Russian,
    English,
    History,
    Geography,
    Literature,
    PhysicalEducation,
    ComputerScience,
    Economics,
    Law,
    Education,
}

/// The identifier under which a subject is stored and parsed.
pub open spec fn subject_key(s: Subject) -> Seq<char> {
    match s {
        Subject::Mathematics => "Mathematics"@,
        Subject::Physics => "Physics"@,
        Subject::Chemistry => "Chemistry"@,
        Subject::Biology => "Biology"@,
        Subject::Uzbek => "Uzbek"@,
        Subject::Russian => "Russian"@,
        Subject::English => "English"@,
        Subject::History => "History"@,
        Subject::Geography => "Geography"@,
        Subject::Literature => "Literature"@,
        Subject::PhysicalEducation => "PhysicalEducation"@,
        Subject::ComputerScience => "ComputerScience"@,
        Subject::Economics => "Economics"@,
        Subject::Law => "Law"@,
        Subject::Education => "Education"@,
    }
}

/// The human-readable name of a subject.
pub open spec fn subject_title(s: Subject) -> Seq<char> {
    match s {
        Subject::Mathematics => "Mathematics"@,
        Subject::Physics => "Physics"@,
        Subject::Chemistry => "Chemistry"@,
        Subject::Biology => "Biology"@,
        Subject::Uzbek => "Uzbek"@,
        Subject::Russian => "Russian"@,
        Subject::English => "English"@,
        Subject::History => "History"@,
        Subject::Geography => "Geography"@,
        Subject::Literature => "Literature"@,
        Subject::PhysicalEducation => "Physical Education"@,
        Subject::ComputerScience => "Computer Science"@,
        Subject::Economics => "Economics"@,
        Subject::Law => "Law"@,
        Subject::Education => "Education"@,
    }
}

impl Subject {
    /// Parses a subject from its identifier (`"ComputerScience"`).
    pub fn from_str(s: &str) -> (r: Result<Subject, ()>)
        ensures
            match r {
                Ok(x) => s@ == subject_key(x),
                Err(_) => forall|x: Subject| s@ != #[trigger] subject_key(x),
            },
    {
        proof {
            reveal_strlit("Mathematics");
            reveal_strlit("Physics");
            reveal_strlit("Chemistry");
            reveal_strlit("Biology");
            reveal_strlit("Uzbek");
            reveal_strlit("Russian");
            reveal_strlit("English");
            reveal_strlit("History");
            reveal_strlit("Geography");
            reveal_strlit("Literature");
            reveal_strlit("PhysicalEducation");
            reveal_strlit("ComputerScience");
            reveal_strlit("Economics");
            reveal_strlit("Law");
            reveal_strlit("Education");
        }
        if str_eq(s, "Mathematics") {
            Ok(Subject::Mathematics)
        } else if str_eq(s, "Physics") {
            Ok(Subject::Physics)
        } else if str_eq(s, "Chemistry") {
            Ok(Subject::Chemistry)
        } else if str_eq(s, "Biology") {
            Ok(Subject::Biology)
        } else if str_eq(s, "Uzbek") {
            Ok(Subject::Uzbek)
        } else if str_eq(s, "Russian") {
            Ok(Subject::Russian)
        } else if str_eq(s, "English") {
            Ok(Subject::English)
        } else if str_eq(s, "History") {
            Ok(Subject::History)
        } else if str_eq(s, "Geography") {
            Ok(Subject::Geography)
        } else if str_eq(s, "Literature") {
            Ok(Subject::Literature)
        } else if str_eq(s, "PhysicalEducation") {
            Ok(Subject::PhysicalEducation)
        } else if str_eq(s, "ComputerScience") {
            Ok(Subject::ComputerScience)
        } else if str_eq(s, "Economics") {
            Ok(Subject::Economics)
        } else if str_eq(s, "Law") {
            Ok(Subject::Law)
        } else if str_eq(s, "Education") {
            Ok(Subject::Education)
        } else {
            Err(())
        }
    }

    /// The identifier of the subject (`"ComputerScience"`), as
    /// [`Subject::from_str`] reads it.
    pub fn key(&self) -> (r: String)
        ensures
            r@ == subject_key(*self),
    {
        let t: &str = match self {
            Subject::Mathematics => "Mathematics",
            Subject::Physics => "Physics",
            Subject::Chemistry => "Chemistry",
            Subject::Biology => "Biology",
            Subject::Uzbek => "Uzbek",
            Subject::Russian => "Russian",
            Subject::English => "English",
            Subject::History => "History",
            Subject::Geography => "Geography",
            Subject::Literature => "Literature",
            Subject::PhysicalEducation => "PhysicalEducation",
            Subject::ComputerScience => "ComputerScience",
            Subject::Economics => "Economics",
            Subject::Law => "Law",
            Subject::Education => "Education",
        };
        String::from_str(t)
    }

    /// The human-readable name of the subject (`"Computer Science"`).
    pub fn to_string(&self) -> (r: String)
        ensures
            r@ == subject_title(*self),
    {
        let t: &str = match self {
            Subject::Mathematics => "Mathematics",
            Subject::Physics => "Physics",
            Subject::Chemistry => "Chemistry",
            Subject::Biology => "Biology",
            Subject::Uzbek => "Uzbek",
            Subject::Russian => "Russian",
            Subject::English => "English",
            Subject::History => "History",
            Subject::Geography => "Geography",
            Subject::Literature => "Literature",
            Subject::PhysicalEducation => "Physical Education",
            Subject::ComputerScience => "Computer Science",
            Subject::Economics => "Economics",
            Subject::Law => "Law",
            Subject::Education => "Education",
        };
        String::from_str(t)
    }
}

/// Whether a resource was edited since it was published, and when last.
/// Times are seconds since the Unix epoch.
#[derive(Clone, Copy, Debug, PartialEq, Eq)]
pub enum EditedState {
    Edited { edited_at: i64 },
    NotEdited,
}

impl EditedState {
    /// The state as stored: an edited flag and the time of the last edit.
    /// A resource flagged edited without a time reads as not edited.
    pub fn from_parts(edited: bool, edited_at: Option<i64>) -> (r: EditedState)
        ensures
            r == if edited && edited_at is Some {
                EditedState::Edited { edited_at: edited_at->0 }
            } else {
                EditedState::NotEdited
            },
    {
        match (edited, edited_at) {
            (true, Some(t)) => EditedState::Edited { edited_at: t },
            _ => EditedState::NotEdited,
        }
    }

    pub fn is_edited(&self) -> (r: bool)
        ensures
            r == (*self is Edited),
    {
        match self {
            EditedState::Edited { .. } => true,
            EditedState::NotEdited => false,
        }
    }
}

/// A page of results: at most `limit` rows, after skipping `offset` rows.
#[derive(Clone, Copy, Debug, PartialEq, Eq)]
pub struct Limit {
    pub limit: u64,
    pub offset: Option<u64>,
}

} // verus!
