use into_duration::action::action;
use into_duration::span::Span;
use into_duration::value::InputValue;

const NS_PER_SEC: i64 = 1_000_000_000;

fn test_string(phrase: &str) -> InputValue {
    InputValue::String { val: phrase.to_string(), span: Span::unknown() }
}

fn turns_string_to_duration(phrase: &str, expected_duration_val: i64) {
    let actual = action(&test_string(phrase), Span::new(0, phrase.len()));
    match actual {
        InputValue::Duration { val: observed_val, .. } => {
            assert_eq!(expected_duration_val, observed_val, "expected != observed")
        }
        other => {
            panic!("Expected Value::Duration, observed {other:?}");
        }
    }
}

#[test]
fn turns_string_to_duration_nanoseconds() {
    turns_string_to_duration("3ns", 3);
}

#[test]
fn turns_string_to_duration_microseconds() {
    turns_string_to_duration("4us", 4 * 1000);
}

#[test]
fn turns_string_to_duration_micro_sign() {
    turns_string_to_duration("4\u{00B5}s", 4 * 1000);
}

#[test]
fn turns_string_to_duration_mu_symbol() {
    turns_string_to_duration("4\u{03BC}s", 4 * 1000);
}

#[test]
fn turns_string_to_duration_milliseconds() {
    turns_string_to_duration("5ms", 5 * 1000 * 1000);
}

#[test]
fn turns_string_to_duration_seconds() {
    turns_string_to_duration("1sec", 1 * NS_PER_SEC);
}

#[test]
fn turns_string_to_duration_minutes() {
    turns_string_to_duration("7min", 7 * 60 * NS_PER_SEC);
}

#[test]
fn turns_string_to_duration_hours() {
    turns_string_to_duration("42hr", 42 * 60 * 60 * NS_PER_SEC);
}

#[test]
fn turns_string_to_duration_days() {
    turns_string_to_duration("123day", 123 * 24 * 60 * 60 * NS_PER_SEC);
}

#[test]
fn turns_string_to_duration_weeks() {
    turns_string_to_duration("3wk", 3 * 7 * 24 * 60 * 60 * NS_PER_SEC);
}

#[test]
fn turns_string_to_duration_compound() {
    turns_string_to_duration("86hr 26ns", 86 * 3600 * NS_PER_SEC + 26);
}

#[test]
fn turns_string_to_duration_compound_in_any_order() {
    turns_string_to_duration("14ns 3hr 17sec", 14 + 3 * 3600 * NS_PER_SEC + 17 * NS_PER_SEC);
}
