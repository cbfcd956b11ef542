use into_duration::cell_path::{CellPath, PathMember};
use into_duration::error::{ConversionError, ParseFailure};
use into_duration::span::Span;
use into_duration::update::update_cell_path;
use into_duration::value::InputValue;

const HELP: &str = "supported units are ns, us/µs, ms, sec, min, hr, day, and wk";

fn at() -> Span {
    Span::new(100, 200)
}

fn string(text: &str) -> InputValue {
    InputValue::String { val: text.to_string(), span: Span::new(10, 10 + text.len()) }
}

fn duration(val: i64) -> InputValue {
    InputValue::Duration { val, span: at() }
}

fn number() -> InputValue {
    InputValue::Other { ty: "int".to_string(), span: Span::new(1, 2) }
}

fn record(fields: Vec<(&str, InputValue)>) -> InputValue {
    InputValue::Record {
        fields: fields.into_iter().map(|(name, value)| (name.to_string(), value)).collect(),
        span: Span::new(20, 30),
    }
}

fn list(vals: Vec<InputValue>) -> InputValue {
    InputValue::List { vals, span: Span::new(40, 50) }
}

fn field(name: &str) -> PathMember {
    PathMember::String { val: name.to_string(), span: Span::new(60, 60 + name.len()) }
}

fn index(val: usize) -> PathMember {
    PathMember::Int { val, span: Span::new(70, 71) }
}

fn path(members: Vec<PathMember>) -> CellPath {
    CellPath { members }
}

fn unresolved(member: PathMember, src_span: Span) -> Result<InputValue, ConversionError> {
    Err(ConversionError::PathResolutionFailure { member, src_span })
}

#[test]
fn the_empty_path_names_the_whole_value() {
    assert_eq!(update_cell_path(string("7min"), &path(vec![]), at()), Ok(duration(420_000_000_000)));
    assert_eq!(update_cell_path(duration(5), &path(vec![]), at()), Ok(duration(5)));
}

#[test]
fn a_field_is_converted_and_the_rest_is_left_as_it_was() {
    let input = record(vec![("name", string("nap")), ("value", string("2hr")), ("n", number())]);
    let output = record(vec![
        ("name", string("nap")),
        ("value", duration(7_200_000_000_000)),
        ("n", number()),
    ]);
    assert_eq!(update_cell_path(input, &path(vec![field("value")]), at()), Ok(output));
}

#[test]
fn an_item_is_converted_and_the_rest_is_left_as_it_was() {
    let input = list(vec![string("1sec"), string("2sec"), string("3sec")]);
    let output = list(vec![string("1sec"), duration(2_000_000_000), string("3sec")]);
    assert_eq!(update_cell_path(input, &path(vec![index(1)]), at()), Ok(output));
}

#[test]
fn a_path_leads_through_lists_and_records() {
    let input = record(vec![
        ("id", number()),
        ("runs", list(vec![record(vec![("took", string("1min"))]), record(vec![("took", string("3ms 4us"))])])),
    ]);
    let output = record(vec![
        ("id", number()),
        ("runs", list(vec![record(vec![("took", string("1min"))]), record(vec![("took", duration(3_004_000))])])),
    ]);
    assert_eq!(
        update_cell_path(input, &path(vec![field("runs"), index(1), field("took")]), at()),
        Ok(output)
    );
}

#[test]
fn a_name_that_occurs_twice_refers_to_the_last_field() {
    let input = record(vec![("value", string("1sec")), ("value", string("2sec"))]);
    let output = record(vec![("value", string("1sec")), ("value", duration(2_000_000_000))]);
    assert_eq!(update_cell_path(input, &path(vec![field("value")]), at()), Ok(output));
}

#[test]
fn names_are_matched_exactly() {
    let input = record(vec![("Value", string("1sec")), ("value ", string("2sec"))]);
    assert_eq!(
        update_cell_path(input, &path(vec![field("value")]), at()),
        unresolved(field("value"), Span::new(20, 30))
    );
}

#[test]
fn a_step_that_leads_nowhere_fails() {
    assert_eq!(
        update_cell_path(record(vec![("a", string("1sec"))]), &path(vec![field("b")]), at()),
        unresolved(field("b"), Span::new(20, 30))
    );
    assert_eq!(
        update_cell_path(record(vec![]), &path(vec![field("b")]), at()),
        unresolved(field("b"), Span::new(20, 30))
    );
    assert_eq!(
        update_cell_path(record(vec![("a", string("1sec"))]), &path(vec![index(0)]), at()),
        unresolved(index(0), Span::new(20, 30))
    );
    assert_eq!(
        update_cell_path(list(vec![string("1sec")]), &path(vec![index(1)]), at()),
        unresolved(index(1), Span::new(40, 50))
    );
    assert_eq!(
        update_cell_path(list(vec![]), &path(vec![index(0)]), at()),
        unresolved(index(0), Span::new(40, 50))
    );
    assert_eq!(
        update_cell_path(list(vec![string("1sec")]), &path(vec![index(usize::MAX)]), at()),
        unresolved(index(usize::MAX), Span::new(40, 50))
    );
    assert_eq!(
        update_cell_path(list(vec![record(vec![("a", string("1sec"))])]), &path(vec![field("a")]), at()),
        unresolved(field("a"), Span::new(40, 50))
    );
    assert_eq!(
        update_cell_path(string("1sec"), &path(vec![field("a")]), at()),
        unresolved(field("a"), Span::new(10, 14))
    );
    assert_eq!(
        update_cell_path(duration(1), &path(vec![index(0)]), at()),
        unresolved(index(0), at())
    );
    assert_eq!(
        update_cell_path(number(), &path(vec![index(0)]), at()),
        unresolved(index(0), Span::new(1, 2))
    );
    assert_eq!(
        update_cell_path(
            record(vec![("a", record(vec![("b", string("1sec"))]))]),
            &path(vec![field("a"), field("c")]),
            at()
        ),
        unresolved(field("c"), Span::new(20, 30))
    );
}

#[test]
fn an_error_on_the_way_is_the_outcome() {
    let error = ConversionError::Upstream { msg: "no such file".to_string() };
    let broken = InputValue::Error { error: error.clone() };
    assert_eq!(update_cell_path(broken.clone(), &path(vec![]), at()), Err(error.clone()));
    assert_eq!(update_cell_path(broken.clone(), &path(vec![field("a")]), at()), Err(error.clone()));
    assert_eq!(
        update_cell_path(record(vec![("a", broken.clone())]), &path(vec![field("a")]), at()),
        Err(error.clone())
    );
    assert_eq!(
        update_cell_path(
            list(vec![string("1sec"), broken.clone()]),
            &path(vec![index(1), field("x")]),
            at()
        ),
        Err(error.clone())
    );
    assert_eq!(
        update_cell_path(list(vec![string("1sec"), broken]), &path(vec![index(0)]), at()),
        Ok(list(vec![duration(1_000_000_000), InputValue::Error { error }]))
    );
}

#[test]
fn a_value_that_does_not_convert_is_the_outcome() {
    assert_eq!(
        update_cell_path(record(vec![("a", string("1sec 5xx"))]), &path(vec![field("a")]), at()),
        Err(ConversionError::CantConvertToDuration {
            failure: ParseFailure::MalformedToken,
            details: "5xx".to_string(),
            dst_span: at(),
            src_span: Span::new(15, 18),
            help: HELP.to_string(),
        })
    );
    assert_eq!(
        update_cell_path(record(vec![("a", number())]), &path(vec![field("a")]), at()),
        Err(ConversionError::TypeMismatch {
            expected: "string or duration".to_string(),
            actual: "int".to_string(),
            dst_span: at(),
            src_span: Span::new(1, 2),
        })
    );
    assert_eq!(
        update_cell_path(record(vec![("a", list(vec![string("1sec")]))]), &path(vec![field("a")]), at()),
        Err(ConversionError::TypeMismatch {
            expected: "string or duration".to_string(),
            actual: "list".to_string(),
            dst_span: at(),
            src_span: Span::new(40, 50),
        })
    );
}

#[test]
fn a_copy_of_a_path_is_equal_to_the_path() {
    let given = path(vec![field("runs"), index(1), field("took")]);
    assert_eq!(given.clone(), given);
}
