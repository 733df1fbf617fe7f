//! The reminder time grammar: `<integer> <unit>`, two words, where the unit
//! is one of `minute`, `minutes`, `m`, `hour`, `hours`, `h`, `day`, `days`,
//! `d` in any ASCII letter case. The amount may be zero or negative.
use vstd::prelude::*;
use crate::clock::{utc_text, utc_text_of, now_timestamp, MIN_TIMESTAMP, MAX_TIMESTAMP};
use crate::text::{
    chars_of,
    eq_ignoring_ascii_case,
    occurs_at,
    parse_i64,
    same_ignoring_ascii_case,
    signed_decimal,
    split_words,
    words,
};

verus! {

/// Why a reminder time was refused.
#[derive(Clone, Copy, Debug, PartialEq, Eq, Structural)]
pub enum TimeParseError {
    /// The expression is not exactly two words.
    BadFormat,
    /// The first word is not an integer.
    BadNumber,
    /// The second word is not a known unit.
    UnknownUnit,
    /// The time falls outside the calendar.
    OutOfRange,
}

/// The sentence that describes the error `e`.
pub open spec fn error_text(e: TimeParseError) -> Seq<char> {
    match e {
        TimeParseError::BadFormat => "Time format should be 'X unit'"@,
        TimeParseError::BadNumber => "Invalid number"@,
        TimeParseError::UnknownUnit => "Unknown time unit"@,
        TimeParseError::OutOfRange => "Time out of range"@,
    }
}

impl TimeParseError {
    /// A sentence that describes the error.
    pub fn message(&self) -> (r: &'static str)
        ensures
            r@ == error_text(*self),
    {
        match self {
            TimeParseError::BadFormat => "Time format should be 'X unit'",
            TimeParseError::BadNumber => "Invalid number",
            TimeParseError::UnknownUnit => "Unknown time unit",
            TimeParseError::OutOfRange => "Time out of range",
        }
    }
}

/// The length in seconds of the unit that the word `w` names.
pub open spec fn unit_seconds(w: Seq<char>) -> Option<int> {
    if same_ignoring_ascii_case(w, "minute"@) || same_ignoring_ascii_case(w, "minutes"@)
        || same_ignoring_ascii_case(w, "m"@) {
        Some(60)
    } else if same_ignoring_ascii_case(w, "hour"@) || same_ignoring_ascii_case(w, "hours"@)
        || same_ignoring_ascii_case(w, "h"@) {
        Some(3600)
    } else if same_ignoring_ascii_case(w, "day"@) || same_ignoring_ascii_case(w, "days"@)
        || same_ignoring_ascii_case(w, "d"@) {
        Some(86400)
    } else {
        None
    }
}

/// The signed length in seconds that the expression `s` denotes, or why it
/// does not denote one.
pub open spec fn duration_of(s: Seq<char>) -> Result<int, TimeParseError> {
    let w = words(s);
    if w.len() != 2 {
        Err(TimeParseError::BadFormat)
    } else if signed_decimal(w[0]) is None {
        Err(TimeParseError::BadNumber)
    } else if unit_seconds(w[1]) is None {
        Err(TimeParseError::UnknownUnit)
    } else {
        Ok(signed_decimal(w[0])->0 * unit_seconds(w[1])->0)
    }
}

/// The timestamp that the expression `s` names when read at `now`, or why it
/// names none.
pub open spec fn due_time(s: Seq<char>, now: int) -> Result<int, TimeParseError> {
    match duration_of(s) {
        Err(e) => Err(e),
        Ok(d) => if MIN_TIMESTAMP <= now + d <= MAX_TIMESTAMP {
            Ok(now + d)
        } else {
            Err(TimeParseError::OutOfRange)
        },
    }
}

fn unit_of(w: &Vec<char>) -> (r: Option<i64>)
    ensures
        r is Some <==> unit_seconds(w@) is Some,
        r is Some ==> r->0 == unit_seconds(w@)->0,
{
    if eq_ignoring_ascii_case(w, "minute") || eq_ignoring_ascii_case(w, "minutes")
        || eq_ignoring_ascii_case(w, "m") {
        Some(60)
    } else if eq_ignoring_ascii_case(w, "hour") || eq_ignoring_ascii_case(w, "hours")
        || eq_ignoring_ascii_case(w, "h") {
        Some(3600)
    } else if eq_ignoring_ascii_case(w, "day") || eq_ignoring_ascii_case(w, "days")
        || eq_ignoring_ascii_case(w, "d") {
        Some(86400)
    } else {
        None
    }
}

/// Reads the expression `input` as a signed length of time in seconds.
pub fn parse_duration(input: &str) -> (r: Result<i128, TimeParseError>)
    ensures
        match r {
            Ok(d) => duration_of(input@) == Ok::<int, TimeParseError>(d as int),
            Err(e) => duration_of(input@) == Err::<int, TimeParseError>(e),
        },
{
    let chars = chars_of(input);
    let parts = split_words(&chars);
    if parts.len() != 2 {
        return Err(TimeParseError::BadFormat);
    }
    let amount = match parse_i64(&parts[0]) {
        Some(a) => a,
        None => return Err(TimeParseError::BadNumber),
    };
    let unit = match unit_of(&parts[1]) {
        Some(u) => u,
        None => return Err(TimeParseError::UnknownUnit),
    };
    proof {
        assert(amount * unit <= 86400 * 0x8000_0000_0000_0000) by (nonlinear_arith)
            requires
                -0x8000_0000_0000_0000 <= amount <= 0x7fff_ffff_ffff_ffff,
                0 < unit <= 86400,
        ;
        assert(amount * unit >= -86400 * 0x8000_0000_0000_0000) by (nonlinear_arith)
            requires
                -0x8000_0000_0000_0000 <= amount <= 0x7fff_ffff_ffff_ffff,
                0 < unit <= 86400,
        ;
    }
    Ok(amount as i128 * unit as i128)
}

/// Reads the expression `input` at time `now` as the timestamp it names.
pub fn resolve_due_time(input: &str, now: i64) -> (r: Result<i64, TimeParseError>)
    ensures
        match r {
            Ok(t) => due_time(input@, now as int) == Ok::<int, TimeParseError>(t as int),
            Err(e) => due_time(input@, now as int) == Err::<int, TimeParseError>(e),
        },
{
    let d = parse_duration(input)?;
    let due = now as i128 + d;
    if MIN_TIMESTAMP as i128 <= due && due <= MAX_TIMESTAMP as i128 {
        Ok(due as i64)
    } else {
        Err(TimeParseError::OutOfRange)
    }
}

/// Reads the expression `input` at time `now` and writes the timestamp it
/// names as UTC text.
pub fn parse_time_string_at(input: &str, now: i64) -> (r: Result<String, TimeParseError>)
    ensures
        match r {
            Ok(text) => due_time(input@, now as int) is Ok && text@ == utc_text_of(
                due_time(input@, now as int)->Ok_0,
            ),
            Err(e) => due_time(input@, now as int) == Err::<int, TimeParseError>(e),
        },
{
    let due = resolve_due_time(input, now)?;
    match utc_text(due) {
        Some(text) => Ok(text),
        None => Err(TimeParseError::OutOfRange),
    }
}

/// Reads the expression `input` now and writes the timestamp it names as UTC
/// text. A malformed expression gives the same error whatever the time; a
/// well-formed one gives the text of `now + duration` for the time `now` that
/// was read, or `OutOfRange`. Since the time read lies in
/// `0..=MAX_TIMESTAMP`, a duration in `MIN_TIMESTAMP..=0` (one that does not
/// lie in the future) always succeeds.
pub fn parse_time_string(input: &str) -> (r: Result<String, TimeParseError>)
    ensures
        duration_of(input@) is Err ==> r == Err::<String, TimeParseError>(
            duration_of(input@)->Err_0,
        ),
        duration_of(input@) is Ok ==> match r {
            Ok(text) => exists|now: i64|
                #[trigger] due_time(input@, now as int) is Ok && text@ == utc_text_of(
                    due_time(input@, now as int)->Ok_0,
                ),
            Err(e) => e == TimeParseError::OutOfRange,
        },
        duration_of(input@) is Ok && MIN_TIMESTAMP <= duration_of(input@)->Ok_0 <= 0 ==> r is Ok,
{
    let now = now_timestamp();
    parse_time_string_at(input, now)
}


/// The separator between a reminder's text and its time: `" in "`.
pub open spec fn separator() -> Seq<char> {
    seq![' ', 'i', 'n', ' ']
}

/// Whether the separator starts at position `i` of `s`.
pub open spec fn separator_at(s: Seq<char>, i: int) -> bool {
    occurs_at(s, separator(), i)
}

/// Splits the body of a reminder command, `<text> in <time>`, at the first
/// `" in "`: returns the text before it and the time expression after it, or
/// `None` where there is no `" in "`.
pub fn split_reminder_command(full: &str) -> (r: Option<(String, String)>)
    ensures
        r is None <==> forall|i: int| !#[trigger] separator_at(full@, i),
        match r {
            Some((text, time)) => exists|i: int|
                {
                    &&& #[trigger] separator_at(full@, i)
                    &&& forall|j: int| 0 <= j < i ==> !separator_at(full@, j)
                    &&& text@ == full@.take(i)
                    &&& time@ == full@.skip(i + 4)
                },
            None => true,
        },
{
    let chars = chars_of(full);
    let n = chars.len();
    let mut i: usize = 0;
    while n >= 4 && i <= n - 4
        invariant
            i <= n,
            chars@ == full@,
            n == chars.len(),
            forall|j: int| 0 <= j < i ==> !#[trigger] separator_at(full@, j),
        decreases n - i,
    {
        if chars[i] == ' ' && chars[i + 1] == 'i' && chars[i + 2] == 'n' && chars[i + 3] == ' ' {
            assert(full@.subrange(i as int, i + 4) =~= separator());
            let text = String::from_str(full.substring_char(0, i));
            let time = String::from_str(full.substring_char(i + 4, n));
            assert(full@.subrange(0, i as int) == full@.take(i as int));
            assert(full@.subrange(i + 4, n as int) == full@.skip(i + 4));
            assert(separator_at(full@, i as int));
            return Some((text, time));
        }
        assert(!separator_at(full@, i as int)) by {
            if separator_at(full@, i as int) {
                assert(full@.subrange(i as int, i + 4)[0] == full@[i as int]);
                assert(full@.subrange(i as int, i + 4)[1] == full@[i + 1]);
                assert(full@.subrange(i as int, i + 4)[2] == full@[i + 2]);
                assert(full@.subrange(i as int, i + 4)[3] == full@[i + 3]);
            }
        }
        i = i + 1;
    }
    assert forall|j: int| !#[trigger] separator_at(full@, j) by {
        if 0 <= j < i {
        }
    }
    None
}

} // verus!
