use into_duration::compound::{compound_to_duration, split_whitespace_indices, ParsedToken};
use into_duration::error::{ParseError, ParseFailure, UNITS_HELP};
use into_duration::span::Span;
use into_duration::text::{addr_of, char_width, chars_of, is_decimal_digit, is_whitespace};

const NS_PER_SEC: i64 = 1_000_000_000;

fn error(failure: ParseFailure, text: &str, start: usize, end: usize) -> Result<i64, ParseError> {
    Err(ParseError {
        failure,
        text: text.to_string(),
        span: Span::new(start, end),
        help: UNITS_HELP.to_string(),
    })
}

#[test]
fn whitespace_is_what_std_calls_whitespace() {
    for code in 0..=0x10FFFFu32 {
        if let Some(c) = char::from_u32(code) {
            assert_eq!(is_whitespace(c), c.is_whitespace(), "U+{code:04X}");
        }
    }
}

#[test]
fn digits_are_the_ascii_digits() {
    for code in 0..=0x10FFFFu32 {
        if let Some(c) = char::from_u32(code) {
            assert_eq!(is_decimal_digit(c), c.is_ascii_digit(), "U+{code:04X}");
        }
    }
}

#[test]
fn width_is_the_length_in_utf8() {
    for code in 0..=0x10FFFFu32 {
        if let Some(c) = char::from_u32(code) {
            assert_eq!(char_width(c), c.len_utf8(), "U+{code:04X}");
        }
    }
}

#[test]
fn chars_come_in_order() {
    assert_eq!(chars_of(""), Vec::<char>::new());
    assert_eq!(chars_of("4µs"), vec!['4', 'µ', 's']);
}

#[test]
fn addresses_count_bytes() {
    let s = "a\u{00B5}\u{3000}\u{1F600}z";
    assert_eq!(addr_of(s, 0), 0);
    assert_eq!(addr_of(s, 1), 1);
    assert_eq!(addr_of(s, 2), 3);
    assert_eq!(addr_of(s, 3), 6);
    assert_eq!(addr_of(s, 4), 10);
    assert_eq!(addr_of(s, 5), 11);
    assert_eq!(addr_of(s, 5), s.len());
    assert_eq!(addr_of(s, 6), s.len());
    assert_eq!(addr_of(s, usize::MAX), s.len());
    assert_eq!(addr_of("", 0), 0);
}

#[test]
fn addresses_agree_with_the_offsets_of_substrings() {
    let s = "1day \u{2003}2hr\t4\u{03BC}s\n";
    for (index, (offset, _)) in s.char_indices().enumerate() {
        assert_eq!(addr_of(s, index), offset);
    }
}

#[test]
fn pieces_and_their_places() {
    let tokens = split_whitespace_indices("1day 2hr 3min 4sec", Span::new(100, 118));
    assert_eq!(
        tokens,
        vec![
            ParsedToken { text: "1day", span: Span::new(100, 104) },
            ParsedToken { text: "2hr", span: Span::new(105, 108) },
            ParsedToken { text: "3min", span: Span::new(109, 113) },
            ParsedToken { text: "4sec", span: Span::new(114, 118) },
        ]
    );
}

#[test]
fn places_are_counted_in_bytes() {
    let tokens = split_whitespace_indices("  4\u{00B5}s\u{3000}\u{2003}5\u{03BC}s \t7ns\n", Span::new(10, 0));
    assert_eq!(
        tokens,
        vec![
            ParsedToken { text: "4\u{00B5}s", span: Span::new(12, 16) },
            ParsedToken { text: "5\u{03BC}s", span: Span::new(22, 26) },
            ParsedToken { text: "7ns", span: Span::new(28, 31) },
        ]
    );
}

#[test]
fn pieces_are_those_of_split_whitespace() {
    for s in [
        "",
        " ",
        "a",
        " a",
        "a ",
        "  a  b  ",
        "1day\u{0085}2hr\u{00A0}3min\u{1680}4sec\u{2028}5ns\u{2029}6us\u{202F}7ms\u{205F}8wk",
        "\u{200B}zero\u{200B}width\u{200B}",
        "\u{FEFF}bom \u{180E}mongolian",
        "x\u{000B}y\u{000C}z\rw",
    ] {
        let tokens = split_whitespace_indices(s, Span::new(0, s.len()));
        let expected: Vec<&str> = s.split_whitespace().collect();
        let texts: Vec<&str> = tokens.iter().map(|t| t.text).collect();
        assert_eq!(texts, expected, "{s:?}");
        for token in tokens {
            assert_eq!(&s[token.span.start..token.span.end], token.text, "{s:?}");
        }
    }
}

#[test]
fn places_stop_at_the_greatest_position() {
    let tokens = split_whitespace_indices("1ns 2ns", Span::new(usize::MAX - 5, usize::MAX));
    assert_eq!(
        tokens,
        vec![
            ParsedToken { text: "1ns", span: Span::new(usize::MAX - 5, usize::MAX - 2) },
            ParsedToken { text: "2ns", span: Span::new(usize::MAX - 1, usize::MAX) },
        ]
    );
    let tokens = split_whitespace_indices("1ns 2ns", Span::new(usize::MAX, usize::MAX));
    assert_eq!(
        tokens,
        vec![
            ParsedToken { text: "1ns", span: Span::new(usize::MAX, usize::MAX) },
            ParsedToken { text: "2ns", span: Span::new(usize::MAX, usize::MAX) },
        ]
    );
}

#[test]
fn no_piece_is_zero() {
    assert_eq!(compound_to_duration("", Span::new(0, 0)), Ok(0));
    assert_eq!(compound_to_duration("   ", Span::new(0, 3)), Ok(0));
    assert_eq!(compound_to_duration("\t\n\u{3000}", Span::new(0, 5)), Ok(0));
}

#[test]
fn round_trip_compound() {
    assert_eq!(compound_to_duration("7min", Span::new(0, 4)), Ok(420 * NS_PER_SEC));
    assert_eq!(
        compound_to_duration("1day 2hr 3min 4sec", Span::new(0, 18)),
        Ok(((((24 + 2) * 60) + 3) * 60 + 4) * NS_PER_SEC)
    );
    assert_eq!(compound_to_duration("3wk", Span::new(0, 3)), Ok(3 * 7 * 24 * 3600 * NS_PER_SEC));
}

#[test]
fn two_pieces_give_the_sum_of_both() {
    let span = Span::new(0, 0);
    let pieces = ["3ns", "-4us", "5ms", "1sec", "-7min", "42hr", "123day", "3wk", "0ns"];
    for a in pieces {
        for b in pieces {
            let x = compound_to_duration(a, span).unwrap();
            let y = compound_to_duration(b, span).unwrap();
            for gap in [" ", "  ", "\t", "\u{3000}", " \n "] {
                assert_eq!(compound_to_duration(&format!("{a}{gap}{b}"), span), Ok(x + y));
            }
        }
    }
}

#[test]
fn pieces_may_stand_in_any_order_and_repeat() {
    let span = Span::new(0, 0);
    assert_eq!(compound_to_duration("1sec 1sec 1sec", span), Ok(3 * NS_PER_SEC));
    assert_eq!(compound_to_duration("1sec -1sec", span), Ok(0));
    assert_eq!(compound_to_duration("  4sec 3min\t2hr\n1day ", span), Ok(93_784 * NS_PER_SEC));
}

#[test]
fn a_sum_out_of_range_is_an_overflow_where_it_happens() {
    assert_eq!(
        compound_to_duration("9223372036854775807ns 1ns", Span::new(50, 75)),
        error(ParseFailure::Overflow, "1ns", 72, 75)
    );
    assert_eq!(
        compound_to_duration("9223372036854775807ns 1ns -1ns", Span::new(50, 80)),
        error(ParseFailure::Overflow, "1ns", 72, 75)
    );
    assert_eq!(
        compound_to_duration("-9223372036854775808ns -1ns", Span::new(0, 27)),
        error(ParseFailure::Overflow, "-1ns", 23, 27)
    );
    assert_eq!(
        compound_to_duration("15250wk 15250wk", Span::new(0, 15)),
        error(ParseFailure::Overflow, "15250wk", 8, 15)
    );
    assert_eq!(
        compound_to_duration("9223372036854775807ns -1ns 1ns", Span::new(0, 30)),
        Ok(i64::MAX)
    );
    assert_eq!(
        compound_to_duration("-9223372036854775808ns 9223372036854775807ns 1ns", Span::new(0, 0)),
        Ok(0)
    );
}

#[test]
fn the_first_failure_is_the_failure_of_the_whole() {
    assert_eq!(
        compound_to_duration("1sec 5xx 99999999999999999999ns", Span::new(20, 51)),
        error(ParseFailure::MalformedToken, "5xx", 25, 28)
    );
    assert_eq!(
        compound_to_duration("1sec 99999999999999999999ns 5xx", Span::new(20, 51)),
        error(ParseFailure::Overflow, "99999999999999999999ns", 25, 47)
    );
    assert_eq!(
        compound_to_duration("  4\u{00B5}s \u{3000}1.5hr", Span::new(0, 0)),
        error(ParseFailure::MalformedToken, "1.5hr", 10, 15)
    );
}
