use into_duration::action::action;
use into_duration::cell_path::{CellPath, PathMember};
use into_duration::error::ConversionError;
use into_duration::pipeline::convert_element;
use into_duration::span::Span;
use into_duration::token::string_to_duration;
use into_duration::value::InputValue;
use nu_parser::{parse_unit_value, DURATION_UNIT_GROUPS};
use nu_protocol::ast::Expr;
use nu_protocol::{Type, Unit, Value};

const NS_PER_SEC: i64 = 1_000_000_000;

/// What the shell's own parser of unit values makes of a literal, brought
/// to nanoseconds.
fn by_the_shells_parser(s: &str) -> Option<i64> {
    let span = nu_protocol::Span::new(0, s.len());
    let parsed = parse_unit_value(s.as_bytes(), span, DURATION_UNIT_GROUPS, Type::Duration, |x| x);
    if let Some(Ok(expression)) = parsed {
        if let Expr::ValueWithUnit(value, unit) = expression.expr {
            if let Expr::Int(x) = value.expr {
                return match unit.item {
                    Unit::Nanosecond => x.checked_mul(1),
                    Unit::Microsecond => x.checked_mul(1000),
                    Unit::Millisecond => x.checked_mul(1000 * 1000),
                    Unit::Second => x.checked_mul(NS_PER_SEC),
                    Unit::Minute => x.checked_mul(60 * NS_PER_SEC),
                    Unit::Hour => x.checked_mul(60 * 60 * NS_PER_SEC),
                    Unit::Day => x.checked_mul(24 * 60 * 60 * NS_PER_SEC),
                    Unit::Week => x.checked_mul(7 * 24 * 60 * 60 * NS_PER_SEC),
                    _ => None,
                };
            }
        }
    }
    None
}

#[test]
fn whole_numbers_are_read_as_the_shells_parser_reads_them() {
    let names = ["ns", "us", "\u{00B5}s", "\u{03BC}s", "ms", "sec", "min", "hr", "day", "wk"];
    let numbers: Vec<i64> = (0..=120).chain([999, 1000, 1440, 15_250]).collect();
    for name in names {
        for n in &numbers {
            for sign in ["", "-"] {
                let text = format!("{sign}{n}{name}");
                let ours = string_to_duration(&text, Span::new(0, text.len())).ok();
                assert_eq!(ours, by_the_shells_parser(&text), "{text}");
                assert!(ours.is_some(), "{text}");
            }
        }
    }
}

#[test]
fn what_the_shells_parser_refuses_is_refused() {
    for text in ["", "-", "5", "ns", "5xx", "5s", "5m", "5h", "+5ns", "five min", "5 ns", "5mo"] {
        assert_eq!(by_the_shells_parser(text), None, "{text:?}");
        assert!(string_to_duration(text, Span::new(0, text.len())).is_err(), "{text:?}");
    }
}

fn span_from(span: nu_protocol::Span) -> Span {
    Span::new(span.start, span.end)
}

fn span_into(span: Span) -> nu_protocol::Span {
    nu_protocol::Span::new(span.start, span.end)
}

fn value_from(value: &Value) -> InputValue {
    match value {
        Value::Duration { val, span } => InputValue::Duration { val: *val, span: span_from(*span) },
        Value::String { val, span } => InputValue::String { val: val.clone(), span: span_from(*span) },
        Value::Error { error } => InputValue::Error {
            error: ConversionError::Upstream { msg: error.to_string() },
        },
        Value::List { vals, span } => InputValue::List {
            vals: vals.iter().map(value_from).collect(),
            span: span_from(*span),
        },
        Value::Record { cols, vals, span } => InputValue::Record {
            fields: cols.iter().cloned().zip(vals.iter().map(value_from)).collect(),
            span: span_from(*span),
        },
        other => InputValue::Other {
            ty: other.get_type().to_string(),
            span: span_from(other.expect_span()),
        },
    }
}

/// A value of the library as one of the shell, for the values that these
/// tests make: of a value of another type only the place is kept, and of an
/// error only that it is one.
fn value_into(value: InputValue) -> Value {
    match value {
        InputValue::Duration { val, span } => Value::Duration { val, span: span_into(span) },
        InputValue::String { val, span } => Value::String { val, span: span_into(span) },
        InputValue::Error { error } => Value::Error {
            error: Box::new(nu_protocol::ShellError::GenericError(
                format!("{error:?}"),
                String::new(),
                None,
                None,
                Vec::new(),
            )),
        },
        InputValue::List { vals, span } => Value::List {
            vals: vals.into_iter().map(value_into).collect(),
            span: span_into(span),
        },
        InputValue::Record { fields, span } => {
            let (cols, vals): (Vec<String>, Vec<InputValue>) = fields.into_iter().unzip();
            Value::Record {
                cols,
                vals: vals.into_iter().map(value_into).collect(),
                span: span_into(span),
            }
        }
        InputValue::Other { span, .. } => Value::Int { val: 0, span: span_into(span) },
    }
}

/// The conversion of one value of the input as the shell makes it with its
/// own walk along the paths, the library converting the value at the end
/// of each path.
fn by_the_shells_walk(v: Value, column_paths: &[nu_protocol::ast::CellPath], span: Span) -> Value {
    if column_paths.is_empty() {
        value_into(action(&value_from(&v), span))
    } else {
        let mut ret = v;
        for path in column_paths {
            let r = ret.update_cell_path(
                &path.members,
                Box::new(move |old| value_into(action(&value_from(old), span))),
            );
            if let Err(error) = r {
                return Value::Error { error: Box::new(error) };
            }
        }
        ret
    }
}

fn string(text: &str) -> Value {
    Value::String { val: text.to_string(), span: nu_protocol::Span::new(10, 10 + text.len()) }
}

fn number() -> Value {
    Value::Int { val: 0, span: nu_protocol::Span::new(1, 2) }
}

fn record(fields: Vec<(&str, Value)>) -> Value {
    let (cols, vals): (Vec<&str>, Vec<Value>) = fields.into_iter().unzip();
    Value::Record {
        cols: cols.into_iter().map(String::from).collect(),
        vals,
        span: nu_protocol::Span::new(20, 30),
    }
}

fn list(vals: Vec<Value>) -> Value {
    Value::List { vals, span: nu_protocol::Span::new(40, 50) }
}

fn field(name: &str) -> nu_protocol::ast::PathMember {
    nu_protocol::ast::PathMember::String {
        val: name.to_string(),
        span: nu_protocol::Span::new(60, 61),
        optional: false,
    }
}

fn index(val: usize) -> nu_protocol::ast::PathMember {
    nu_protocol::ast::PathMember::Int { val, span: nu_protocol::Span::new(70, 71), optional: false }
}

fn path(members: Vec<nu_protocol::ast::PathMember>) -> nu_protocol::ast::CellPath {
    nu_protocol::ast::CellPath { members }
}

fn path_from(path: &nu_protocol::ast::CellPath) -> CellPath {
    CellPath {
        members: path
            .members
            .iter()
            .map(|member| match member {
                nu_protocol::ast::PathMember::String { val, span, .. } => {
                    PathMember::String { val: val.clone(), span: span_from(*span) }
                }
                nu_protocol::ast::PathMember::Int { val, span, .. } => {
                    PathMember::Int { val: *val, span: span_from(*span) }
                }
            })
            .collect(),
    }
}

fn some_values() -> Vec<Value> {
    vec![
        string("7min"),
        string("1day 2hr"),
        string("oops"),
        number(),
        Value::Duration { val: 5, span: nu_protocol::Span::new(3, 4) },
        record(vec![("value", string("1sec")), ("n", number())]),
        record(vec![("value", string("1 sec")), ("n", number())]),
        record(vec![("n", number())]),
        record(vec![]),
        record(vec![("value", record(vec![("value", string("2hr")), ("took", string("3ms"))]))]),
        record(vec![("value", list(vec![string("2hr"), string("x"), number()]))]),
        record(vec![
            ("took", string("3ms")),
            ("runs", list(vec![record(vec![("took", string("4us"))]), record(vec![("took", number())])])),
        ]),
        list(vec![]),
        list(vec![string("2hr"), string("x"), number()]),
        list(vec![record(vec![("value", string("1sec"))]), record(vec![("value", string("2sec"))])]),
        list(vec![list(vec![string("1wk")]), list(vec![])]),
    ]
}

fn some_paths() -> Vec<Vec<nu_protocol::ast::CellPath>> {
    vec![
        vec![],
        vec![path(vec![])],
        vec![path(vec![field("value")])],
        vec![path(vec![field("took")])],
        vec![path(vec![field("n")])],
        vec![path(vec![index(0)])],
        vec![path(vec![index(1)])],
        vec![path(vec![index(2)])],
        vec![path(vec![index(3)])],
        vec![path(vec![field("value"), field("value")])],
        vec![path(vec![field("value"), field("took")])],
        vec![path(vec![field("value"), index(0)])],
        vec![path(vec![field("value"), index(1)])],
        vec![path(vec![field("runs"), index(0), field("took")])],
        vec![path(vec![field("runs"), index(1), field("took")])],
        vec![path(vec![field("runs"), index(2), field("took")])],
        vec![path(vec![index(0), field("value")])],
        vec![path(vec![index(1), field("value")])],
        vec![path(vec![index(0), index(0)])],
        vec![path(vec![index(1), index(0)])],
        vec![path(vec![field("took")]), path(vec![field("runs"), index(0), field("took")])],
        vec![path(vec![field("runs"), index(0), field("took")]), path(vec![field("took")])],
        vec![path(vec![field("value"), field("value")]), path(vec![field("value"), field("took")])],
        vec![path(vec![field("value")]), path(vec![field("n")])],
        vec![path(vec![index(0)]), path(vec![index(0)])],
    ]
}

#[test]
fn values_are_converted_at_paths_as_the_shell_walks_them() {
    let span = Span::new(100, 113);
    let mut converted = 0;
    let mut failed = 0;
    for v in some_values() {
        for column_paths in some_paths() {
            let theirs = by_the_shells_walk(v.clone(), &column_paths, span);
            let paths: Vec<CellPath> = column_paths.iter().map(path_from).collect();
            let ours = convert_element(value_from(&v), &paths, span);
            match theirs {
                Value::Error { .. } => {
                    assert!(
                        matches!(ours, InputValue::Error { .. }),
                        "{v:?} at {column_paths:?}: {ours:?}"
                    );
                    failed += 1;
                }
                theirs => {
                    assert_eq!(ours, value_from(&theirs), "{v:?} at {column_paths:?}");
                    converted += 1;
                }
            }
        }
    }
    assert!(converted >= 20, "{converted}");
    assert!(failed >= 100, "{failed}");
}
