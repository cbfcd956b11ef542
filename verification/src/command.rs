//! The command `into duration`: what it is called, what it does, and
//! examples of its use.

use crate::cell_path::{CellPath, PathMember, PathMemberView};
use crate::compound::parsed_compound;
use crate::error::{ConversionErrorView, ParseErrorView, ParseFailure};
use crate::laws::literals::{law_token_value, sign_of};
use crate::laws::pieces::none_white;
use crate::laws::sums::{law_compound_sum, law_literal_value, lemma_unit_name_is_one_word};
use crate::pipeline::{
    converted_all, converted_element, into_duration, into_duration_of, is_outcome, paths_view,
    updated_all, PipelineData, PipelineDataView,
};
use crate::span::{offset_by, Span};
use crate::text::{byte_len, decimal_digit, digit_value, white_space};
use crate::token::{decimal_value, token_outcome};
use crate::units::{lemma_unit_names, unit_named, DurationUnit};
use crate::update::{field_index, located, replaced, updated};
use crate::value::{
    fields_view, lemma_list_view, lemma_record_view, views_of, InputValue, ValueView,
};
use std::sync::atomic::AtomicBool;
use vstd::prelude::*;

verus! {

/// The number of nanoseconds in a second.
pub const NS_PER_SEC: i64 = 1_000_000_000;

/// A use of the command, with what it gives.
#[derive(Clone, Debug, PartialEq, Eq)]
pub struct Example {
    /// What the example shows.
    pub description: &'static str,
    /// The example as one would type it.
    pub example: &'static str,
    /// What comes down the pipeline in the example.
    pub input: PipelineData,
    /// The paths that the command is given in the example.
    pub cell_paths: Vec<CellPath>,
    /// What the command gives, gathered into one value.
    pub result: Option<InputValue>,
}

/// What an [`Example`] stands for.
pub struct ExampleView {
    pub description: Seq<char>,
    pub example: Seq<char>,
    pub input: PipelineDataView,
    pub cell_paths: Seq<Seq<PathMemberView>>,
    pub result: Option<ValueView>,
}

impl View for Example {
    type V = ExampleView;

    open spec fn view(&self) -> ExampleView {
        ExampleView {
            description: self.description@,
            example: self.example@,
            input: self.input@,
            cell_paths: paths_view(self.cell_paths@),
            result: match self.result {
                Some(v) => Some(v@),
                None => None,
            },
        }
    }
}

/// The place of what stands nowhere in particular.
pub open spec fn nowhere() -> Span {
    Span { start: 0, end: 0 }
}

impl ExampleView {
    /// Whether the example is true: whether the command, called on the
    /// example's input with the example's paths, gives the example's result.
    pub open spec fn holds(self) -> bool {
        self.result matches Some(result) ==> into_duration_of(
            self.input,
            self.cell_paths,
            nowhere(),
        ).into_value(nowhere()) == result
    }
}

/// The command `into duration`.
#[derive(Clone, Copy, Debug, Default, PartialEq, Eq)]
pub struct SubCommand;

/// The record with the one field `value`, as the examples have it.
pub open spec fn row_of(value: ValueView) -> ValueView {
    ValueView::Record { fields: seq![("value"@, value)], span: nowhere() }
}

/// The path to the field `value`, as the examples have it.
pub open spec fn value_path() -> Seq<PathMemberView> {
    seq![PathMemberView::String { val: "value"@, span: nowhere() }]
}

/// The string `text` as a value that stands nowhere in particular.
fn test_string(text: &str) -> (v: InputValue)
    ensures
        v@ == (ValueView::String { val: text@, span: nowhere() }),
{
    InputValue::String { val: text.to_owned(), span: Span::unknown() }
}

/// A record with the one field `value`.
fn test_row(value: InputValue) -> (v: InputValue)
    ensures
        v@ == row_of(value@),
{
    let mut fields: Vec<(String, InputValue)> = Vec::new();
    fields.push(("value".to_owned(), value));
    proof {
        lemma_record_view(fields, nowhere());
        assert(fields_view(fields@) == seq![("value"@, value@)]);
    }
    InputValue::Record { fields, span: Span::unknown() }
}

/// A digit and a unit stand for as many of the unit as the digit says.
proof fn lemma_digit_and_unit(digit: char, name: Seq<char>, unit: DurationUnit, span: Span)
    requires
        decimal_digit(digit),
        unit_named(name) == Some(unit),
    ensures
        token_outcome(seq![digit] + name) == Ok::<i64, ParseFailure>(
            (digit_value(digit) * unit.nanos()) as i64,
        ),
        parsed_compound(seq![digit] + name, span) == Ok::<i64, ParseErrorView>(
            (digit_value(digit) * unit.nanos()) as i64,
        ),
        (seq![digit] + name).len() > 0,
        none_white(seq![digit] + name),
{
    lemma_unit_name_is_one_word(name);
    assert forall|k: int| 0 <= k < (seq![digit] + name).len() implies !white_space(
        (seq![digit] + name)[k],
    ) by {
        if k > 0 {
            assert((seq![digit] + name)[k] == name[k - 1]);
        }
    }
    let digits = seq![digit];
    assert(digits.drop_last().len() == 0);
    assert(decimal_value(digits) == 10 * decimal_value(digits.drop_last()) + digit_value(digit));
    assert(decimal_value(digits) == digit_value(digit));
    assert(sign_of(false) + digits + name == digits + name);
    law_token_value(false, digits, name);
    law_literal_value(false, digits, name, span);
}

/// A digit and a unit behind a compound literal add as many of the unit as
/// the digit says to what the literal stands for.
proof fn lemma_next_piece(
    a: Seq<char>,
    digit: char,
    name: Seq<char>,
    unit: DurationUnit,
    total: i64,
    span: Span,
)
    requires
        parsed_compound(a, span) == Ok::<i64, ParseErrorView>(total),
        decimal_digit(digit),
        unit_named(name) == Some(unit),
        total + digit_value(digit) * unit.nanos() <= i64::MAX,
    ensures
        parsed_compound(a + seq![' '] + (seq![digit] + name), span) == Ok::<i64, ParseErrorView>(
            (total + digit_value(digit) * unit.nanos()) as i64,
        ),
{
    lemma_digit_and_unit(digit, name, unit, span);
    let gap = seq![' '];
    law_compound_sum(
        a,
        gap,
        seq![digit] + name,
        span,
        Span { start: offset_by(span.start, byte_len(a + gap)), end: 0 },
    );
}

/// The string of the first example spells seven minutes.
proof fn lemma_first_example(span: Span)
    ensures
        parsed_compound("7min"@, span) == Ok::<i64, ParseErrorView>(420_000_000_000),
{
    lemma_unit_names();
    let name = seq!['m', 'i', 'n'];
    assert("7min"@ == seq!['7'] + name) by {
        reveal_strlit("7min");
    }
    lemma_digit_and_unit('7', name, DurationUnit::Minute, span);
}

/// The string of the second example spells the sum of its four pieces.
proof fn lemma_second_example(span: Span)
    ensures
        parsed_compound("1day 2hr 3min 4sec"@, span) == Ok::<i64, ParseErrorView>(
            93_784_000_000_000,
        ),
{
    lemma_unit_names();
    let one = seq!['1'] + seq!['d', 'a', 'y'];
    lemma_digit_and_unit('1', seq!['d', 'a', 'y'], DurationUnit::Day, span);
    let two = one + seq![' '] + (seq!['2'] + seq!['h', 'r']);
    lemma_next_piece(one, '2', seq!['h', 'r'], DurationUnit::Hour, 86_400_000_000_000, span);
    let three = two + seq![' '] + (seq!['3'] + seq!['m', 'i', 'n']);
    lemma_next_piece(two, '3', seq!['m', 'i', 'n'], DurationUnit::Minute, 93_600_000_000_000, span);
    let four = three + seq![' '] + (seq!['4'] + seq!['s', 'e', 'c']);
    lemma_next_piece(
        three,
        '4',
        seq!['s', 'e', 'c'],
        DurationUnit::Second,
        93_780_000_000_000,
        span,
    );
    assert("1day 2hr 3min 4sec"@ == four) by {
        reveal_strlit("1day 2hr 3min 4sec");
    }
}

/// A row whose string spells a duration becomes the row with that duration.
proof fn lemma_row_converts(text: Seq<char>, nanos: i64)
    requires
        parsed_compound(text, nowhere()) == Ok::<i64, ParseErrorView>(nanos),
    ensures
        converted_element(
            row_of(ValueView::String { val: text, span: nowhere() }),
            seq![value_path()],
            nowhere(),
        ) == row_of(ValueView::Duration { val: nanos, span: nowhere() }),
{
    let string = ValueView::String { val: text, span: nowhere() };
    let duration = ValueView::Duration { val: nanos, span: nowhere() };
    let row = row_of(string);
    let path = value_path();
    let fields = seq![("value"@, string)];
    assert(fields.last().0 == "value"@);
    assert(field_index(fields, "value"@) == Some(0int));
    assert(path.drop_first().len() == 0);
    assert(located(string, path.drop_first()) == Ok::<ValueView, ConversionErrorView>(string));
    assert(located(row, path) == Ok::<ValueView, ConversionErrorView>(string));
    assert(replaced(string, path.drop_first(), duration) == duration);
    assert(fields.update(0, ("value"@, duration)) == seq![("value"@, duration)]);
    assert(replaced(row, path, duration) == row_of(duration));
    assert(updated(row, path, nowhere()) == Ok::<ValueView, ConversionErrorView>(
        row_of(duration),
    ));
    let paths = seq![path];
    assert(paths.drop_first().len() == 0);
    assert(updated_all(row_of(duration), paths.drop_first(), nowhere()) == row_of(duration));
}

/// A row whose string is a digit and a unit becomes the row with as many of
/// the unit as the digit says.
proof fn lemma_row_of_digit_and_unit(
    text: Seq<char>,
    digit: char,
    name: Seq<char>,
    unit: DurationUnit,
    nanos: i64,
)
    requires
        text == seq![digit] + name,
        decimal_digit(digit),
        unit_named(name) == Some(unit),
        nanos == digit_value(digit) * unit.nanos(),
    ensures
        converted_element(
            row_of(ValueView::String { val: text, span: nowhere() }),
            seq![value_path()],
            nowhere(),
        ) == row_of(ValueView::Duration { val: nanos, span: nowhere() }),
{
    lemma_digit_and_unit(digit, name, unit, nowhere());
    lemma_row_converts(text, nanos);
}

/// The first two rows of the third example become those of its result.
proof fn lemma_third_example_first_rows()
    ensures
        converted_element(
            row_of(ValueView::String { val: "1sec"@, span: nowhere() }),
            seq![value_path()],
            nowhere(),
        ) == row_of(ValueView::Duration { val: 1_000_000_000, span: nowhere() }),
        converted_element(
            row_of(ValueView::String { val: "2min"@, span: nowhere() }),
            seq![value_path()],
            nowhere(),
        ) == row_of(ValueView::Duration { val: 120_000_000_000, span: nowhere() }),
{
    lemma_unit_names();
    assert("1sec"@ == seq!['1'] + seq!['s', 'e', 'c']) by {
        reveal_strlit("1sec");
    }
    lemma_row_of_digit_and_unit(
        "1sec"@,
        '1',
        seq!['s', 'e', 'c'],
        DurationUnit::Second,
        1_000_000_000,
    );
    assert("2min"@ == seq!['2'] + seq!['m', 'i', 'n']) by {
        reveal_strlit("2min");
    }
    lemma_row_of_digit_and_unit(
        "2min"@,
        '2',
        seq!['m', 'i', 'n'],
        DurationUnit::Minute,
        120_000_000_000,
    );
}

/// The last three rows of the third example become those of its result.
proof fn lemma_third_example_last_rows()
    ensures
        converted_element(
            row_of(ValueView::String { val: "3hr"@, span: nowhere() }),
            seq![value_path()],
            nowhere(),
        ) == row_of(ValueView::Duration { val: 10_800_000_000_000, span: nowhere() }),
        converted_element(
            row_of(ValueView::String { val: "4day"@, span: nowhere() }),
            seq![value_path()],
            nowhere(),
        ) == row_of(ValueView::Duration { val: 345_600_000_000_000, span: nowhere() }),
        converted_element(
            row_of(ValueView::String { val: "5wk"@, span: nowhere() }),
            seq![value_path()],
            nowhere(),
        ) == row_of(ValueView::Duration { val: 3_024_000_000_000_000, span: nowhere() }),
{
    lemma_unit_names();
    assert("3hr"@ == seq!['3'] + seq!['h', 'r']) by {
        reveal_strlit("3hr");
    }
    lemma_row_of_digit_and_unit("3hr"@, '3', seq!['h', 'r'], DurationUnit::Hour, 10_800_000_000_000);
    assert("4day"@ == seq!['4'] + seq!['d', 'a', 'y']) by {
        reveal_strlit("4day");
    }
    lemma_row_of_digit_and_unit(
        "4day"@,
        '4',
        seq!['d', 'a', 'y'],
        DurationUnit::Day,
        345_600_000_000_000,
    );
    assert("5wk"@ == seq!['5'] + seq!['w', 'k']) by {
        reveal_strlit("5wk");
    }
    lemma_row_of_digit_and_unit(
        "5wk"@,
        '5',
        seq!['w', 'k'],
        DurationUnit::Week,
        3_024_000_000_000_000,
    );
}

/// The example of a string `text` that spells `nanos` nanoseconds.
fn string_example(
    description: &'static str,
    example: &'static str,
    text: &'static str,
    nanos: i64,
) -> (e: Example)
    requires
        parsed_compound(text@, nowhere()) == Ok::<i64, ParseErrorView>(nanos),
    ensures
        e@.holds(),
        e.description == description,
        e.example == example,
{
    Example {
        description,
        example,
        input: PipelineData::Value(test_string(text)),
        cell_paths: Vec::new(),
        result: Some(InputValue::Duration { val: nanos, span: Span::unknown() }),
    }
}

/// The row of the table example that holds the string `text`.
pub open spec fn string_row(text: Seq<char>) -> ValueView {
    row_of(ValueView::String { val: text, span: nowhere() })
}

/// The row of the table example's result that holds `nanos` nanoseconds.
pub open spec fn duration_row(nanos: i64) -> ValueView {
    row_of(ValueView::Duration { val: nanos, span: nowhere() })
}

/// The table that the table example converts: five rows, each with a
/// duration string in the column `value`.
pub open spec fn example_table() -> ValueView {
    ValueView::List {
        vals: seq![
            string_row("1sec"@),
            string_row("2min"@),
            string_row("3hr"@),
            string_row("4day"@),
            string_row("5wk"@),
        ],
        span: nowhere(),
    }
}

/// The table that the table example gives: the same rows, each with the
/// duration that its string spells.
pub open spec fn example_table_converted() -> ValueView {
    ValueView::List {
        vals: seq![
            duration_row(1_000_000_000),
            duration_row(120_000_000_000),
            duration_row(10_800_000_000_000),
            duration_row(345_600_000_000_000),
            duration_row(3_024_000_000_000_000),
        ],
        span: nowhere(),
    }
}

/// The example of a table whose column `value` is converted: the table of
/// five duration strings, the path to the column, and the table of the five
/// durations, which is what the command gives for them.
fn table_example() -> (e: Example)
    ensures
        e.description@ == "Convert table of duration strings to table of duration values"@,
        e.example@
            == "[[value]; ['1sec'] ['2min'] ['3hr'] ['4day'] ['5wk']] | into duration value"@,
        e@.input == PipelineDataView::Value(example_table()),
        e@.cell_paths == seq![value_path()],
        e@.result == Some(example_table_converted()),
        e@.holds(),
{
    let span = Span::unknown();
    let mut rows: Vec<InputValue> = Vec::new();
    rows.push(test_row(test_string("1sec")));
    rows.push(test_row(test_string("2min")));
    rows.push(test_row(test_string("3hr")));
    rows.push(test_row(test_string("4day")));
    rows.push(test_row(test_string("5wk")));
    let mut converted_rows: Vec<InputValue> = Vec::new();
    converted_rows.push(test_row(InputValue::Duration { val: NS_PER_SEC, span }));
    converted_rows.push(test_row(InputValue::Duration { val: 2 * 60 * NS_PER_SEC, span }));
    converted_rows.push(test_row(InputValue::Duration { val: 3 * 60 * 60 * NS_PER_SEC, span }));
    converted_rows.push(test_row(InputValue::Duration { val: 4 * 24 * 60 * 60 * NS_PER_SEC, span }));
    converted_rows.push(
        test_row(InputValue::Duration { val: 5 * 7 * 24 * 60 * 60 * NS_PER_SEC, span }),
    );
    let mut members: Vec<PathMember> = Vec::new();
    members.push(PathMember::String { val: "value".to_owned(), span });
    let mut cell_paths: Vec<CellPath> = Vec::new();
    cell_paths.push(CellPath { members });
    proof {
        lemma_third_example_first_rows();
        lemma_third_example_last_rows();
        assert(cell_paths@[0]@ == value_path());
        assert(paths_view(cell_paths@) == seq![value_path()]);
        lemma_list_view(rows, span);
        lemma_list_view(converted_rows, span);
        assert(views_of(rows@) == example_table()->vals);
        assert(views_of(converted_rows@) == example_table_converted()->vals);
        assert(converted_all(views_of(rows@), seq![value_path()], span) == views_of(
            converted_rows@,
        ));
    }
    Example {
        description: "Convert table of duration strings to table of duration values",
        example: "[[value]; ['1sec'] ['2min'] ['3hr'] ['4day'] ['5wk']] | into duration value",
        input: PipelineData::Value(InputValue::List { vals: rows, span }),
        cell_paths,
        result: Some(InputValue::List { vals: converted_rows, span }),
    }
}

impl SubCommand {
    /// The name under which the command is called.
    pub fn name(&self) -> (name: &'static str)
        ensures
            name@ == "into duration"@,
    {
        "into duration"
    }

    /// What the command does, in a line.
    pub fn usage(&self) -> (usage: &'static str)
        ensures
            usage@ == "Convert value to duration."@,
    {
        "Convert value to duration."
    }

    /// What else there is to know of the command.
    pub fn extra_usage(&self) -> (usage: &'static str)
        ensures
            usage@ == "Max duration value is i64::MAX nanoseconds; max duration time unit is wk (weeks)."@,
    {
        "Max duration value is i64::MAX nanoseconds; max duration time unit is wk (weeks)."
    }

    /// Words under which the command is found.
    pub fn search_terms(&self) -> (terms: Vec<&'static str>)
        ensures
            terms@.len() == 3,
            terms@[0]@ == "convert"@,
            terms@[1]@ == "time"@,
            terms@[2]@ == "period"@,
    {
        let mut terms: Vec<&'static str> = Vec::new();
        terms.push("convert");
        terms.push("time");
        terms.push("period");
        terms
    }

    /// Runs the command, called at `head` with the paths `column_paths`, on
    /// what comes down the pipeline.
    pub fn run(
        &self,
        head: Span,
        column_paths: &Vec<CellPath>,
        input: PipelineData,
        ctrlc: Option<&AtomicBool>,
    ) -> (output: PipelineData)
        ensures
            is_outcome(input@, paths_view(column_paths@), head, output@),
            ctrlc is None ==> output@ == into_duration_of(input@, paths_view(column_paths@), head),
    {
        into_duration(head, column_paths, input, ctrlc)
    }

    /// Uses of the command, each with what it gives. Each of the examples
    /// is true.
    pub fn examples(&self) -> (examples: Vec<Example>)
        ensures
            examples@.len() == 4,
            forall|i: int| 0 <= i < examples@.len() ==> (#[trigger] examples@[i])@.holds(),
    {
        let span = Span::unknown();
        let mut examples: Vec<Example> = Vec::new();
        proof {
            lemma_first_example(nowhere());
            lemma_second_example(nowhere());
        }
        examples.push(
            string_example(
                "Convert duration string to duration value",
                "'7min' | into duration",
                "7min",
                7 * 60 * NS_PER_SEC,
            ),
        );
        examples.push(
            string_example(
                "Convert compound duration string to duration value",
                "'1day 2hr 3min 4sec' | into duration",
                "1day 2hr 3min 4sec",
                (((24 + 2) * 60 + 3) * 60 + 4) * NS_PER_SEC,
            ),
        );
        examples.push(table_example());
        examples.push(
            Example {
                description: "Convert duration to duration",
                example: "420sec | into duration",
                input: PipelineData::Value(InputValue::Duration { val: 420 * NS_PER_SEC, span }),
                cell_paths: Vec::new(),
                result: Some(InputValue::Duration { val: 7 * 60 * NS_PER_SEC, span }),
            },
        );
        examples
    }
}

} // verus!
