//! The units a duration literal may carry, and what each is worth in nanoseconds.

use crate::text::chars_of;
use vstd::prelude::*;

verus! {

/// A unit of time that a duration literal can be written in.
#[derive(Clone, Copy, Debug, PartialEq, Eq, Structural)]
pub enum DurationUnit {
    Nanosecond,
    Microsecond,
    Millisecond,
    Second,
    Minute,
    Hour,
    Day,
    Week,
}

impl DurationUnit {
    /// The number of nanoseconds in one of this unit.
    pub open spec fn nanos(self) -> int {
        match self {
            DurationUnit::Nanosecond => 1,
            DurationUnit::Microsecond => 1_000,
            DurationUnit::Millisecond => 1_000_000,
            DurationUnit::Second => 1_000_000_000,
            DurationUnit::Minute => 60_000_000_000,
            DurationUnit::Hour => 3_600_000_000_000,
            DurationUnit::Day => 86_400_000_000_000,
            DurationUnit::Week => 604_800_000_000_000,
        }
    }

    /// The number of nanoseconds in one of this unit.
    pub fn multiplier(self) -> (m: i64)
        ensures
            m == self.nanos(),
            1 <= m <= 604_800_000_000_000,
    {
        match self {
            DurationUnit::Nanosecond => 1,
            DurationUnit::Microsecond => 1_000,
            DurationUnit::Millisecond => 1_000_000,
            DurationUnit::Second => 1_000_000_000,
            DurationUnit::Minute => 60_000_000_000,
            DurationUnit::Hour => 3_600_000_000_000,
            DurationUnit::Day => 86_400_000_000_000,
            DurationUnit::Week => 604_800_000_000_000,
        }
    }
}

/// The unit that `suffix` spells, if it spells one. The spellings are `ns`,
/// `us`, `µs` (micro sign), `μs` (Greek mu), `ms`, `sec`, `min`, `hr`, `day`
/// and `wk`; they are matched exactly and with regard to case.
pub open spec fn unit_named(suffix: Seq<char>) -> Option<DurationUnit> {
    if suffix == seq!['n', 's'] {
        Some(DurationUnit::Nanosecond)
    } else if suffix == seq!['u', 's'] || suffix == seq!['\u{b5}', 's'] || suffix == seq![
        '\u{3bc}',
        's',
    ] {
        Some(DurationUnit::Microsecond)
    } else if suffix == seq!['m', 's'] {
        Some(DurationUnit::Millisecond)
    } else if suffix == seq!['s', 'e', 'c'] {
        Some(DurationUnit::Second)
    } else if suffix == seq!['m', 'i', 'n'] {
        Some(DurationUnit::Minute)
    } else if suffix == seq!['h', 'r'] {
        Some(DurationUnit::Hour)
    } else if suffix == seq!['d', 'a', 'y'] {
        Some(DurationUnit::Day)
    } else if suffix == seq!['w', 'k'] {
        Some(DurationUnit::Week)
    } else {
        None
    }
}

/// Each spelling names its unit; the three spellings of the microsecond name
/// the same one.
pub proof fn lemma_unit_names()
    ensures
        unit_named(seq!['n', 's']) == Some(DurationUnit::Nanosecond),
        unit_named(seq!['u', 's']) == Some(DurationUnit::Microsecond),
        unit_named(seq!['\u{b5}', 's']) == Some(DurationUnit::Microsecond),
        unit_named(seq!['\u{3bc}', 's']) == Some(DurationUnit::Microsecond),
        unit_named(seq!['m', 's']) == Some(DurationUnit::Millisecond),
        unit_named(seq!['s', 'e', 'c']) == Some(DurationUnit::Second),
        unit_named(seq!['m', 'i', 'n']) == Some(DurationUnit::Minute),
        unit_named(seq!['h', 'r']) == Some(DurationUnit::Hour),
        unit_named(seq!['d', 'a', 'y']) == Some(DurationUnit::Day),
        unit_named(seq!['w', 'k']) == Some(DurationUnit::Week),
{
    assert(seq!['u', 's'][0] == 'u');
    assert(seq!['\u{b5}', 's'][0] == '\u{b5}');
    assert(seq!['\u{3bc}', 's'][0] == '\u{3bc}');
    assert(seq!['m', 's'][0] == 'm');
    assert(seq!['s', 'e', 'c'][0] == 's');
    assert(seq!['m', 'i', 'n'][0] == 'm');
    assert(seq!['h', 'r'][0] == 'h');
    assert(seq!['d', 'a', 'y'][0] == 'd');
    assert(seq!['w', 'k'][0] == 'w');
    assert(seq!['n', 's'][0] == 'n');
    assert(seq!['n', 's'].len() == 2);
    assert(seq!['s', 'e', 'c'].len() == 3);
    assert(seq!['m', 'i', 'n'].len() == 3);
    assert(seq!['d', 'a', 'y'].len() == 3);
}

/// Looks a suffix up in the table of units: the unit that it spells and the
/// number of nanoseconds in one of it, or `None` where it spells no unit.
pub fn lookup_unit(suffix: &str) -> (found: Option<(DurationUnit, i64)>)
    ensures
        match found {
            Some((unit, multiplier)) => unit_named(suffix@) == Some(unit) && multiplier
                == unit.nanos(),
            None => unit_named(suffix@) is None,
        },
{
    let chars = chars_of(suffix);
    let unit = if chars.len() == 2 {
        let a = chars[0];
        let b = chars[1];
        assert(suffix@ =~= seq![a, b]);
        if b == 's' {
            if a == 'n' {
                Some(DurationUnit::Nanosecond)
            } else if a == 'u' || a == '\u{b5}' || a == '\u{3bc}' {
                Some(DurationUnit::Microsecond)
            } else if a == 'm' {
                Some(DurationUnit::Millisecond)
            } else {
                None
            }
        } else if a == 'h' && b == 'r' {
            Some(DurationUnit::Hour)
        } else if a == 'w' && b == 'k' {
            Some(DurationUnit::Week)
        } else {
            None
        }
    } else if chars.len() == 3 {
        let a = chars[0];
        let b = chars[1];
        let c = chars[2];
        assert(suffix@ =~= seq![a, b, c]);
        if a == 's' && b == 'e' && c == 'c' {
            Some(DurationUnit::Second)
        } else if a == 'm' && b == 'i' && c == 'n' {
            Some(DurationUnit::Minute)
        } else if a == 'd' && b == 'a' && c == 'y' {
            Some(DurationUnit::Day)
        } else {
            None
        }
    } else {
        None
    };
    match unit {
        Some(unit) => Some((unit, unit.multiplier())),
        None => None,
    }
}

} // verus!
