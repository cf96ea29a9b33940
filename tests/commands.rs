use event_scheduler::bot::{new_event, parse_args, CommandError};
use event_scheduler::events_db::{subscribe_result, unsubscribe_result, StoreError, WriteOutcome, DUPLICATE_KEY_CODE};
use event_scheduler::interval::{find_long_exponent, interval_from_parsed, next_due, parse_interval, IntervalError};
use event_scheduler::timezone::{check_timezone, checked_timezone, resolve_timezone, resolved_timezone};

#[test]
fn two_arguments_give_channel_and_date() {
    let (a, b, c) = parse_args("alerts,tomorrow 9am").expect("two parts");
    assert_eq!(a, "alerts");
    assert_eq!(b, "tomorrow 9am");
    assert!(c.is_none());
}

#[test]
fn three_arguments_add_an_interval() {
    let (a, b, c) = parse_args("alerts,friday,1 week").expect("three parts");
    assert_eq!(a, "alerts");
    assert_eq!(b, "friday");
    assert_eq!(c.as_deref(), Some("1 week"));
}

#[test]
fn empty_parts_are_kept() {
    let (a, b, c) = parse_args(",,").expect("three empty parts");
    assert_eq!(a, "");
    assert_eq!(b, "");
    assert_eq!(c.as_deref(), Some(""));
}

#[test]
fn other_argument_counts_are_refused() {
    assert_eq!(parse_args("alerts").err(), Some(0));
    assert_eq!(parse_args("").err(), Some(0));
    assert_eq!(parse_args("a,b,c,d").err(), Some(3));
    assert_eq!(parse_args("a,b,c,d,e,f").err(), Some(5));
}

#[test]
fn non_ascii_arguments_split_by_character() {
    let (a, b, _) = parse_args("новости,завтра").expect("two parts");
    assert_eq!(a, "новости");
    assert_eq!(b, "завтра");
}

#[test]
fn intervals_are_read_in_milliseconds() {
    assert_eq!(parse_interval("1h"), Ok(3_600_000));
    assert_eq!(parse_interval("90 min"), Ok(5_400_000));
    assert_eq!(parse_interval("2 days"), Ok(172_800_000));
    assert_eq!(parse_interval("15"), Ok(15_000));
}

#[test]
fn bad_intervals_are_refused() {
    assert_eq!(parse_interval(""), Err(IntervalError::Unparsable));
    assert_eq!(parse_interval("soon"), Err(IntervalError::Unparsable));
    assert_eq!(parse_interval("0s"), Err(IntervalError::NotPositive));
    assert_eq!(parse_interval("1e999999999 s"), Err(IntervalError::Unparsable));
    assert_eq!(parse_interval("1e+100 s"), Err(IntervalError::Unparsable));
}

#[test]
fn long_exponents_are_found() {
    assert!(find_long_exponent("1e100s"));
    assert!(find_long_exponent("1E-123 ns"));
    assert!(!find_long_exponent("1e10s"));
    assert!(!find_long_exponent("1 week"));
}

#[test]
fn parsed_durations_are_checked() {
    assert_eq!(interval_from_parsed(None), Err(IntervalError::Unparsable));
    assert_eq!(interval_from_parsed(Some(0)), Err(IntervalError::NotPositive));
    assert_eq!(interval_from_parsed(Some(1)), Ok(1));
    assert_eq!(interval_from_parsed(Some(i64::MAX as u128)), Ok(i64::MAX));
    assert_eq!(interval_from_parsed(Some(i64::MAX as u128 + 1)), Err(IntervalError::TooLarge));
}

#[test]
fn next_due_adds_the_interval() {
    assert_eq!(next_due(1_000, 3_600_000), Some(3_601_000));
    assert_eq!(next_due(i64::MAX, 1), None);
}

#[test]
fn schedule_builds_the_event() {
    let e = new_event(42, "alerts".to_string(), Some("ping".to_string()), Some(2_000), 1_000, Some("1h".to_string()))
        .ok()
        .expect("valid");
    assert_eq!(e.id, 42);
    assert_eq!(e.channel, "alerts");
    assert_eq!(e.message, "ping");
    assert_eq!(e.notify_at, 2_000);
    assert_eq!(e.interval.as_deref(), Some("1h"));
    let once = new_event(1, "c".to_string(), Some("m".to_string()), Some(1_000), 1_000, None).ok().expect("valid");
    assert!(once.interval.is_none());
}

#[test]
fn schedule_errors() {
    let r = new_event(1, "c".to_string(), None, Some(2_000), 1_000, None);
    assert!(matches!(r, Err(CommandError::MissingReplyText)));
    let r = new_event(1, "c".to_string(), Some("m".to_string()), None, 1_000, None);
    assert!(matches!(r, Err(CommandError::InvalidDate)));
    let r = new_event(1, "c".to_string(), Some("m".to_string()), Some(999), 1_000, None);
    assert!(matches!(r, Err(CommandError::PastDueTime)));
    let r = new_event(1, "c".to_string(), Some("m".to_string()), Some(2_000), 1_000, Some("0 min".to_string()));
    assert!(matches!(r, Err(CommandError::InvalidInterval(IntervalError::NotPositive))));
    let r = new_event(1, "c".to_string(), Some("m".to_string()), Some(2_000), 1_000, Some("never".to_string()));
    assert!(matches!(r, Err(CommandError::InvalidInterval(IntervalError::Unparsable))));
}

#[test]
fn known_zones_are_accepted() {
    assert!(matches!(check_timezone("Europe/London".to_string()), Ok(z) if z == "Europe/London"));
    assert!(matches!(check_timezone("Asia/Tokyo".to_string()), Ok(z) if z == "Asia/Tokyo"));
}

#[test]
fn unknown_zones_are_echoed_back() {
    assert!(matches!(check_timezone("Mars/Olympus".to_string()), Err(CommandError::InvalidTimezone(z)) if z == "Mars/Olympus"));
    assert!(matches!(checked_timezone("x".to_string(), false), Err(CommandError::InvalidTimezone(z)) if z == "x"));
    assert!(matches!(checked_timezone("x".to_string(), true), Ok(z) if z == "x"));
}

#[test]
fn stored_zone_or_default() {
    assert_eq!(resolve_timezone(None), "Europe/Kiev");
    assert_eq!(resolve_timezone(Some("America/New_York".to_string())), "America/New_York");
    assert_eq!(resolve_timezone(Some("Nowhere/Atall".to_string())), "Europe/Kiev");
    assert_eq!(resolved_timezone(Some("a".to_string()), true), "a");
    assert_eq!(resolved_timezone(Some("a".to_string()), false), "Europe/Kiev");
}

#[test]
fn subscribing_twice_is_a_success() {
    assert_eq!(subscribe_result(WriteOutcome::Written), Ok(()));
    assert_eq!(subscribe_result(WriteOutcome::WriteError(DUPLICATE_KEY_CODE)), Ok(()));
    assert_eq!(subscribe_result(WriteOutcome::WriteError(2)), Err(StoreError::Write(2)));
    assert_eq!(subscribe_result(WriteOutcome::OtherError), Err(StoreError::Unreachable));
}

#[test]
fn unsubscribing_a_non_member_is_a_success() {
    assert_eq!(unsubscribe_result(WriteOutcome::Written), Ok(()));
    assert_eq!(unsubscribe_result(WriteOutcome::WriteError(DUPLICATE_KEY_CODE)), Err(StoreError::Write(11000)));
    assert_eq!(unsubscribe_result(WriteOutcome::OtherError), Err(StoreError::Unreachable));
}
