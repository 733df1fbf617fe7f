use rust_discord_bot::clock::{MAX_TIMESTAMP, MIN_TIMESTAMP};
use rust_discord_bot::reminder_time::{
    parse_duration, parse_time_string, parse_time_string_at, resolve_due_time,
    split_reminder_command, TimeParseError,
};

#[test]
fn accepted_expressions_parse() {
    for input in ["10 minutes", "2 h", "1 day", "-5 m"] {
        assert!(parse_time_string(input).is_ok(), "{input}");
    }
}

#[test]
fn rejected_expressions_fail() {
    assert_eq!(parse_time_string("ten minutes"), Err(TimeParseError::BadNumber));
    assert_eq!(parse_time_string("5 fortnights"), Err(TimeParseError::UnknownUnit));
    assert_eq!(parse_time_string("5"), Err(TimeParseError::BadFormat));
    assert_eq!(parse_time_string(""), Err(TimeParseError::BadFormat));
    assert_eq!(parse_time_string("1 2 3"), Err(TimeParseError::BadFormat));
}

#[test]
fn durations_in_seconds() {
    assert_eq!(parse_duration("10 minutes"), Ok(600));
    assert_eq!(parse_duration("2 h"), Ok(7_200));
    assert_eq!(parse_duration("1 day"), Ok(86_400));
    assert_eq!(parse_duration("-5 m"), Ok(-300));
    assert_eq!(parse_duration("0 days"), Ok(0));
    assert_eq!(parse_duration("+3 hours"), Ok(10_800));
    assert_eq!(parse_duration("1 minute"), Ok(60));
    assert_eq!(parse_duration("4 d"), Ok(345_600));
    assert_eq!(parse_duration("1 hour"), Ok(3_600));
    assert_eq!(parse_duration("3 days"), Ok(259_200));
}

#[test]
fn units_ignore_letter_case_and_spacing() {
    assert_eq!(parse_duration("2 HOURS"), Ok(7_200));
    assert_eq!(parse_duration("  3\tMinutes \n"), Ok(180));
    assert_eq!(parse_duration("1 Day"), Ok(86_400));
}

#[test]
fn malformed_numbers() {
    assert_eq!(parse_duration("1_000 m"), Err(TimeParseError::BadNumber));
    assert_eq!(parse_duration("- m"), Err(TimeParseError::BadNumber));
    assert_eq!(parse_duration("9223372036854775808 m"), Err(TimeParseError::BadNumber));
    assert_eq!(parse_duration("-9223372036854775808 m"), Ok(-9223372036854775808i128 * 60));
    assert_eq!(parse_duration("5 minutess"), Err(TimeParseError::UnknownUnit));
}

#[test]
fn due_time_is_now_plus_duration() {
    assert_eq!(resolve_due_time("10 minutes", 1_000), Ok(1_600));
    assert_eq!(resolve_due_time("-5 m", 1_000), Ok(700));
    assert_eq!(resolve_due_time("0 d", 42), Ok(42));
}

#[test]
fn due_time_out_of_calendar() {
    assert_eq!(
        resolve_due_time("9223372036854775807 d", 0),
        Err(TimeParseError::OutOfRange)
    );
    assert_eq!(resolve_due_time("1 m", MAX_TIMESTAMP), Err(TimeParseError::OutOfRange));
    assert_eq!(resolve_due_time("-1 m", MIN_TIMESTAMP), Err(TimeParseError::OutOfRange));
    assert_eq!(resolve_due_time("0 m", MAX_TIMESTAMP), Ok(MAX_TIMESTAMP));
}

#[test]
fn due_time_text() {
    assert_eq!(
        parse_time_string_at("10 minutes", 0),
        Ok("1970-01-01 00:10:00".to_string())
    );
    assert_eq!(parse_time_string_at("-5 m", 0), Ok("1969-12-31 23:55:00".to_string()));
    assert_eq!(
        parse_time_string_at("1 day", 1_431_648_000),
        Ok("2015-05-16 00:00:00".to_string())
    );
    assert_eq!(parse_time_string_at("5", 0), Err(TimeParseError::BadFormat));
}

#[test]
fn error_messages() {
    assert_eq!(TimeParseError::BadFormat.message(), "Time format should be 'X unit'");
    assert_eq!(TimeParseError::BadNumber.message(), "Invalid number");
    assert_eq!(TimeParseError::UnknownUnit.message(), "Unknown time unit");
    assert_eq!(TimeParseError::OutOfRange.message(), "Time out of range");
}

#[test]
fn reminder_command_splits_at_first_in() {
    assert_eq!(
        split_reminder_command("\"stand up\" in 10 minutes"),
        Some(("\"stand up\"".to_string(), "10 minutes".to_string()))
    );
    assert_eq!(
        split_reminder_command("log in in 2 h"),
        Some(("log".to_string(), "in 2 h".to_string()))
    );
    assert_eq!(split_reminder_command("stand up"), None);
    assert_eq!(split_reminder_command("walk in"), None);
    assert_eq!(split_reminder_command(" in "), Some((String::new(), String::new())));
}
