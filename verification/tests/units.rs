use into_duration::units::{lookup_unit, DurationUnit};

#[test]
fn every_spelling_is_found_with_its_multiplier() {
    assert_eq!(lookup_unit("ns"), Some((DurationUnit::Nanosecond, 1)));
    assert_eq!(lookup_unit("us"), Some((DurationUnit::Microsecond, 1_000)));
    assert_eq!(lookup_unit("\u{00B5}s"), Some((DurationUnit::Microsecond, 1_000)));
    assert_eq!(lookup_unit("\u{03BC}s"), Some((DurationUnit::Microsecond, 1_000)));
    assert_eq!(lookup_unit("ms"), Some((DurationUnit::Millisecond, 1_000_000)));
    assert_eq!(lookup_unit("sec"), Some((DurationUnit::Second, 1_000_000_000)));
    assert_eq!(lookup_unit("min"), Some((DurationUnit::Minute, 60_000_000_000)));
    assert_eq!(lookup_unit("hr"), Some((DurationUnit::Hour, 3_600_000_000_000)));
    assert_eq!(lookup_unit("day"), Some((DurationUnit::Day, 86_400_000_000_000)));
    assert_eq!(lookup_unit("wk"), Some((DurationUnit::Week, 604_800_000_000_000)));
}

#[test]
fn multipliers_are_exact() {
    assert_eq!(DurationUnit::Nanosecond.multiplier(), 1);
    assert_eq!(DurationUnit::Microsecond.multiplier(), 1_000);
    assert_eq!(DurationUnit::Millisecond.multiplier(), 1_000 * 1_000);
    assert_eq!(DurationUnit::Second.multiplier(), 1_000_000_000);
    assert_eq!(DurationUnit::Minute.multiplier(), 60 * 1_000_000_000);
    assert_eq!(DurationUnit::Hour.multiplier(), 60 * 60 * 1_000_000_000);
    assert_eq!(DurationUnit::Day.multiplier(), 24 * 60 * 60 * 1_000_000_000);
    assert_eq!(DurationUnit::Week.multiplier(), 7 * 24 * 60 * 60 * 1_000_000_000);
}

#[test]
fn single_letters_are_no_units() {
    assert_eq!(lookup_unit("s"), None);
    assert_eq!(lookup_unit("m"), None);
    assert_eq!(lookup_unit("h"), None);
    assert_eq!(lookup_unit("d"), None);
    assert_eq!(lookup_unit("w"), None);
}

#[test]
fn lookup_is_exact_and_minds_case() {
    assert_eq!(lookup_unit(""), None);
    assert_eq!(lookup_unit("NS"), None);
    assert_eq!(lookup_unit("Sec"), None);
    assert_eq!(lookup_unit("secs"), None);
    assert_eq!(lookup_unit("mins"), None);
    assert_eq!(lookup_unit("hour"), None);
    assert_eq!(lookup_unit("days"), None);
    assert_eq!(lookup_unit("week"), None);
    assert_eq!(lookup_unit(" ns"), None);
    assert_eq!(lookup_unit("ns "), None);
    assert_eq!(lookup_unit("xx"), None);
    assert_eq!(lookup_unit("mo"), None);
    assert_eq!(lookup_unit("yr"), None);
    assert_eq!(lookup_unit("\u{00B5}"), None);
    assert_eq!(lookup_unit("\u{00B5}sec"), None);
}
