//! Character-level helpers and the field checks applied to student records.
use vstd::prelude::*;

verus! {

/// The longest name, in characters, that the checks accept.
pub const MAX_NAME_CHARS: usize = 100;

/// Why a field was refused, or why a record could not be created.
#[derive(Clone, Copy, Debug, PartialEq, Eq, Structural)]
pub enum StudentError {
    /// The name is empty or made of white space only.
    EmptyName,
    /// The name has more than `MAX_NAME_CHARS` characters.
    NameTooLong,
    /// The birth date is not three `/`-separated groups of digits, ten characters in all.
    BirthDateFormat,
    /// The day of the birth date is outside 1..=31.
    DayOutOfRange,
    /// The month of the birth date is outside 1..=12.
    MonthOutOfRange,
    /// The year of the birth date is outside 1900..=2100.
    YearOutOfRange,
    /// The score is outside 0..=100.
    CrOutOfRange,
    /// The id counter cannot advance any further.
    IdOverflow,
}

/// The text that `reason` gives for `e`.
pub open spec fn reason_text(e: StudentError) -> Seq<char> {
    match e {
        StudentError::EmptyName => "the name must not be empty"@,
        StudentError::NameTooLong => "the name must have at most 100 characters"@,
        StudentError::BirthDateFormat => "the birth date must be in the format dd/mm/yyyy"@,
        StudentError::DayOutOfRange => "the day must be between 1 and 31"@,
        StudentError::MonthOutOfRange => "the month must be between 1 and 12"@,
        StudentError::YearOutOfRange => "the year must be between 1900 and 2100"@,
        StudentError::CrOutOfRange => "the score must be between 0 and 100"@,
        StudentError::IdOverflow => "the id counter cannot advance any further"@,
    }
}

impl StudentError {
    /// Whether this error comes from a field check, as opposed to the id counter.
    pub fn is_validation(&self) -> (r: bool)
        ensures
            r <==> *self != StudentError::IdOverflow,
    {
        match self {
            StudentError::IdOverflow => false,
            _ => true,
        }
    }

    /// A human-readable reason for the error.
    pub fn reason(&self) -> (r: String)
        ensures
            r@ == reason_text(*self),
    {
        let s = match self {
            StudentError::EmptyName => "the name must not be empty",
            StudentError::NameTooLong => "the name must have at most 100 characters",
            StudentError::BirthDateFormat => "the birth date must be in the format dd/mm/yyyy",
            StudentError::DayOutOfRange => "the day must be between 1 and 31",
            StudentError::MonthOutOfRange => "the month must be between 1 and 12",
            StudentError::YearOutOfRange => "the year must be between 1900 and 2100",
            StudentError::CrOutOfRange => "the score must be between 0 and 100",
            StudentError::IdOverflow => "the id counter cannot advance any further",
        };
        s.to_owned()
    }
}

/// Copies the characters of `s` into a vector, in order.
pub fn chars_of(s: &str) -> (r: Vec<char>)
    ensures
        r@ == s@,
{
    let mut out: Vec<char> = Vec::new();
    for c in it: s.chars()
        invariant
            it.seq() == s@,
            out@ == s@.take(it.index() as int),
    {
        out.push(c);
    }
    assert(out@ == s@.take(s@.len() as int));
    out
}

/// Unicode's White_Space property, the set that `char::is_whitespace` tests.
pub open spec fn white_space(c: char) -> bool {
    ('\u{9}' <= c && c <= '\u{d}') || c == ' ' || c == '\u{85}' || c == '\u{a0}'
        || c == '\u{1680}' || ('\u{2000}' <= c && c <= '\u{200a}') || c == '\u{2028}'
        || c == '\u{2029}' || c == '\u{202f}' || c == '\u{205f}' || c == '\u{3000}'
}

/// Whether `c` is white space.
pub fn is_white_space(c: char) -> (r: bool)
    ensures
        r == white_space(c),
{
    ('\u{9}' <= c && c <= '\u{d}') || c == ' ' || c == '\u{85}' || c == '\u{a0}'
        || c == '\u{1680}' || ('\u{2000}' <= c && c <= '\u{200a}') || c == '\u{2028}'
        || c == '\u{2029}' || c == '\u{202f}' || c == '\u{205f}' || c == '\u{3000}'
}

/// A text is blank when trimming white space leaves nothing of it.
pub open spec fn blank(s: Seq<char>) -> bool {
    forall|i: int| 0 <= i < s.len() ==> white_space(#[trigger] s[i])
}

/// What the name check says of `name`.
pub open spec fn name_error(name: Seq<char>) -> Option<StudentError> {
    if blank(name) {
        Some(StudentError::EmptyName)
    } else if name.len() > MAX_NAME_CHARS {
        Some(StudentError::NameTooLong)
    } else {
        None
    }
}

/// Checks a name: not blank, and at most `MAX_NAME_CHARS` characters.
pub fn check_name(name: &str) -> (r: Result<(), StudentError>)
    ensures
        r == match name_error(name@) {
            Some(e) => Err(e),
            None => Ok(()),
        },
{
    let cs = chars_of(name);
    let mut all_space = true;
    let mut i: usize = 0;
    while i < cs.len()
        invariant
            cs@ == name@,
            i <= cs.len(),
            all_space <==> blank(cs@.take(i as int)),
        decreases cs.len() - i,
    {
        let sp = is_white_space(cs[i]);
        proof {
            assert(cs@.take(i + 1) == cs@.take(i as int).push(cs@[i as int]));
            if all_space && sp {
                assert forall|j: int| 0 <= j < i + 1 implies white_space(#[trigger] cs@.take(i + 1)[j]) by {
                    if j < i {
                        assert(cs@.take(i + 1)[j] == cs@.take(i as int)[j]);
                    }
                }
            }
            if !sp {
                assert(!white_space(cs@.take(i + 1)[i as int]));
            }
            if !all_space {
                let k = choose|k: int| 0 <= k < i && !white_space(#[trigger] cs@.take(i as int)[k]);
                assert(!white_space(cs@.take(i + 1)[k]));
            }
        }
        all_space = all_space && sp;
        i = i + 1;
    }
    assert(cs@.take(cs@.len() as int) == cs@);
    if all_space {
        Err(StudentError::EmptyName)
    } else if cs.len() > MAX_NAME_CHARS {
        Err(StudentError::NameTooLong)
    } else {
        Ok(())
    }
}

/// What the score check says of `cr`.
pub open spec fn cr_error(cr: Option<i32>) -> Option<StudentError> {
    match cr {
        Some(v) => if 0 <= v && v <= 100 { None } else { Some(StudentError::CrOutOfRange) },
        None => None,
    }
}

/// Checks a score: absent, or in 0..=100.
pub fn check_cr(cr: Option<i32>) -> (r: Result<(), StudentError>)
    ensures
        r == match cr_error(cr) {
            Some(e) => Err(e),
            None => Ok(()),
        },
{
    match cr {
        Some(v) => if 0 <= v && v <= 100 { Ok(()) } else { Err(StudentError::CrOutOfRange) },
        None => Ok(()),
    }
}

/// An ASCII decimal digit.
pub open spec fn digit(c: char) -> bool {
    '0' <= c && c <= '9'
}

/// The value of the ASCII digit `c`.
pub open spec fn digit_value(c: char) -> int {
    c as int - '0' as int
}

/// Whether `s` has the shape `dd/mm/yyyy`: ten characters, `/` at the third
/// and sixth places, ASCII digits everywhere else.
pub open spec fn date_shape(s: Seq<char>) -> bool {
    &&& s.len() == 10
    &&& s[2] == '/'
    &&& s[5] == '/'
    &&& forall|i: int| 0 <= i < 10 && i != 2 && i != 5 ==> digit(#[trigger] s[i])
}

/// The day written by the first two characters of a `dd/mm/yyyy` text.
pub open spec fn date_day(s: Seq<char>) -> int {
    digit_value(s[0]) * 10 + digit_value(s[1])
}

/// The month written by the fourth and fifth characters of a `dd/mm/yyyy` text.
pub open spec fn date_month(s: Seq<char>) -> int {
    digit_value(s[3]) * 10 + digit_value(s[4])
}

/// The year written by the last four characters of a `dd/mm/yyyy` text.
pub open spec fn date_year(s: Seq<char>) -> int {
    digit_value(s[6]) * 1000 + digit_value(s[7]) * 100 + digit_value(s[8]) * 10 + digit_value(s[9])
}

/// What the birth date check says of `s`: shape first, then day, month and year.
pub open spec fn date_error(s: Seq<char>) -> Option<StudentError> {
    if !date_shape(s) {
        Some(StudentError::BirthDateFormat)
    } else if !(1 <= date_day(s) <= 31) {
        Some(StudentError::DayOutOfRange)
    } else if !(1 <= date_month(s) <= 12) {
        Some(StudentError::MonthOutOfRange)
    } else if !(1900 <= date_year(s) <= 2100) {
        Some(StudentError::YearOutOfRange)
    } else {
        None
    }
}

/// The value of the ASCII digit `c`.
fn value_of_digit(c: char) -> (r: u32)
    requires
        digit(c),
    ensures
        r == digit_value(c),
        r <= 9,
{
    (c as u32) - ('0' as u32)
}

/// Checks a birth date of the form `dd/mm/yyyy`: day in 1..=31, month in
/// 1..=12, year in 1900..=2100.
pub fn check_birth_date(s: &str) -> (r: Result<(), StudentError>)
    ensures
        r == match date_error(s@) {
            Some(e) => Err(e),
            None => Ok(()),
        },
{
    let cs = chars_of(s);
    if cs.len() != 10 || cs[2] != '/' || cs[5] != '/' {
        return Err(StudentError::BirthDateFormat);
    }
    let mut i: usize = 0;
    while i < 10
        invariant
            cs@ == s@,
            cs@.len() == 10,
            i <= 10,
            forall|k: int| 0 <= k < i && k != 2 && k != 5 ==> digit(#[trigger] cs@[k]),
        decreases 10 - i,
    {
        if i != 2 && i != 5 {
            let c = cs[i];
            if !('0' <= c && c <= '9') {
                return Err(StudentError::BirthDateFormat);
            }
        }
        i = i + 1;
    }
    let day = value_of_digit(cs[0]) * 10 + value_of_digit(cs[1]);
    let month = value_of_digit(cs[3]) * 10 + value_of_digit(cs[4]);
    let year = value_of_digit(cs[6]) * 1000 + value_of_digit(cs[7]) * 100 + value_of_digit(cs[8])
        * 10 + value_of_digit(cs[9]);
    if !(1 <= day && day <= 31) {
        Err(StudentError::DayOutOfRange)
    } else if !(1 <= month && month <= 12) {
        Err(StudentError::MonthOutOfRange)
    } else if !(1900 <= year && year <= 2100) {
        Err(StudentError::YearOutOfRange)
    } else {
        Ok(())
    }
}

} // verus!
