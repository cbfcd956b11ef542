//! The values that come to a conversion and leave it.

use crate::error::{ConversionError, ConversionErrorView};
use crate::span::Span;
use vstd::prelude::*;

verus! {

/// A value that comes to a conversion or leaves it. Values nest: a list
/// holds values, and a record holds named values.
#[allow(inconsistent_fields)]
#[derive(Debug, PartialEq, Eq)]
pub enum InputValue {
    /// A duration, in nanoseconds.
    Duration { val: i64, span: Span },
    /// A text.
    String { val: String, span: Span },
    /// An error that stands in the place of a value.
    Error { error: ConversionError },
    /// Values in a row.
    List { vals: Vec<InputValue>, span: Span },
    /// Values under names, in a row. Where a name occurs more than once, the
    /// last field that bears it is the one the name refers to.
    Record { fields: Vec<(String, InputValue)>, span: Span },
    /// A value of any other type, of which only the type's name is kept.
    Other { ty: String, span: Span },
}

/// What an [`InputValue`] stands for.
#[allow(inconsistent_fields)]
pub enum ValueView {
    Duration { val: i64, span: Span },
    String { val: Seq<char>, span: Span },
    Error { error: ConversionErrorView },
    List { vals: Seq<ValueView>, span: Span },
    Record { fields: Seq<(Seq<char>, ValueView)>, span: Span },
    Other { ty: Seq<char>, span: Span },
}

/// What the value `v` stands for.
pub open spec fn view_of(v: InputValue) -> ValueView
    decreases v,
{
    match v {
        InputValue::Duration { val, span } => ValueView::Duration { val, span },
        InputValue::String { val, span } => ValueView::String { val: val@, span },
        InputValue::Error { error } => ValueView::Error { error: error@ },
        InputValue::List { vals, span } => ValueView::List {
            vals: Seq::new(
                vals@.len(),
                |i: int|
                    if 0 <= i < vals@.len() {
                        view_of(vals@[i])
                    } else {
                        arbitrary()
                    },
            ),
            span,
        },
        InputValue::Record { fields, span } => ValueView::Record {
            fields: Seq::new(
                fields@.len(),
                |i: int|
                    if 0 <= i < fields@.len() {
                        (fields@[i].0@, view_of(fields@[i].1))
                    } else {
                        arbitrary()
                    },
            ),
            span,
        },
        InputValue::Other { ty, span } => ValueView::Other { ty: ty@, span },
    }
}

impl View for InputValue {
    type V = ValueView;

    open spec fn view(&self) -> ValueView {
        view_of(*self)
    }
}

/// What the values `vals` stand for, each in its place.
pub open spec fn views_of(vals: Seq<InputValue>) -> Seq<ValueView> {
    Seq::new(vals.len(), |i: int| vals[i]@)
}

/// What the named values `fields` stand for, each in its place.
pub open spec fn fields_view(fields: Seq<(String, InputValue)>) -> Seq<(Seq<char>, ValueView)> {
    Seq::new(fields.len(), |i: int| (fields[i].0@, fields[i].1@))
}

/// A list stands for the list of what its items stand for.
pub proof fn lemma_list_view(vals: Vec<InputValue>, span: Span)
    ensures
        (InputValue::List { vals, span })@ == (ValueView::List { vals: views_of(vals@), span }),
{
    assert((InputValue::List { vals, span })@->vals =~= views_of(vals@));
}

/// A record stands for the record of what its fields stand for.
pub proof fn lemma_record_view(fields: Vec<(String, InputValue)>, span: Span)
    ensures
        (InputValue::Record { fields, span })@ == (ValueView::Record {
            fields: fields_view(fields@),
            span,
        }),
{
    assert((InputValue::Record { fields, span })@->fields =~= fields_view(fields@));
}

impl ValueView {
    /// Where the value stands in the source; an error has no place of its own.
    pub open spec fn span(self) -> Option<Span> {
        match self {
            ValueView::Duration { span, .. } => Some(span),
            ValueView::String { span, .. } => Some(span),
            ValueView::Error { .. } => None,
            ValueView::List { span, .. } => Some(span),
            ValueView::Record { span, .. } => Some(span),
            ValueView::Other { span, .. } => Some(span),
        }
    }

    /// The name of the value's type.
    pub open spec fn type_label(self) -> Seq<char> {
        match self {
            ValueView::Duration { .. } => "duration"@,
            ValueView::String { .. } => "string"@,
            ValueView::Error { .. } => "error"@,
            ValueView::List { .. } => "list"@,
            ValueView::Record { .. } => "record"@,
            ValueView::Other { ty, .. } => ty,
        }
    }
}

impl InputValue {
    /// Where the value stands in the source; an error has no place of its own.
    pub fn span(&self) -> (span: Option<Span>)
        ensures
            span == self@.span(),
    {
        match self {
            InputValue::Duration { span, .. } => Some(*span),
            InputValue::String { span, .. } => Some(*span),
            InputValue::Error { .. } => None,
            InputValue::List { span, .. } => Some(*span),
            InputValue::Record { span, .. } => Some(*span),
            InputValue::Other { span, .. } => Some(*span),
        }
    }

    /// Where the value stands in the source, for a value that is no error.
    pub fn expect_span(&self) -> (span: Span)
        requires
            !(self@ is Error),
        ensures
            self@.span() == Some(span),
    {
        match self {
            InputValue::Duration { span, .. } => *span,
            InputValue::String { span, .. } => *span,
            InputValue::List { span, .. } => *span,
            InputValue::Record { span, .. } => *span,
            InputValue::Other { span, .. } => *span,
            InputValue::Error { .. } => Span::unknown(),
        }
    }

    /// The name of the value's type.
    pub fn get_type(&self) -> (name: String)
        ensures
            name@ == self@.type_label(),
    {
        match self {
            InputValue::Duration { .. } => "duration".to_owned(),
            InputValue::String { .. } => "string".to_owned(),
            InputValue::Error { .. } => "error".to_owned(),
            InputValue::List { .. } => "list".to_owned(),
            InputValue::Record { .. } => "record".to_owned(),
            InputValue::Other { ty, .. } => ty.clone(),
        }
    }
}

impl Clone for InputValue {
    fn clone(&self) -> (copy: Self)
        ensures
            copy@ == self@,
        decreases self,
    {
        match self {
            InputValue::Duration { val, span } => InputValue::Duration { val: *val, span: *span },
            InputValue::String { val, span } => InputValue::String { val: val.clone(), span: *span },
            InputValue::Error { error } => InputValue::Error { error: error.clone() },
            InputValue::List { vals, span } => {
                let mut copies: Vec<InputValue> = Vec::new();
                let mut i: usize = 0;
                while i < vals.len()
                    invariant
                        i <= vals@.len(),
                        *self == (InputValue::List { vals: *vals, span: *span }),
                        copies@.len() == i,
                        forall|j: int| 0 <= j < i ==> copies@[j]@ == vals@[j]@,
                    decreases vals@.len() - i,
                {
                    assert(decreases_to!(*self => (self->vals)@[i as int]));
                    let copy = vals[i].clone();
                    copies.push(copy);
                    i = i + 1;
                }
                proof {
                    lemma_list_view(*vals, *span);
                    lemma_list_view(copies, *span);
                    assert(views_of(copies@) == views_of(vals@));
                }
                InputValue::List { vals: copies, span: *span }
            },
            InputValue::Record { fields, span } => {
                let mut copies: Vec<(String, InputValue)> = Vec::new();
                let mut i: usize = 0;
                while i < fields.len()
                    invariant
                        i <= fields@.len(),
                        *self == (InputValue::Record { fields: *fields, span: *span }),
                        copies@.len() == i,
                        forall|j: int|
                            0 <= j < i ==> copies@[j].0@ == fields@[j].0@ && copies@[j].1@
                                == fields@[j].1@,
                    decreases fields@.len() - i,
                {
                    let name = fields[i].0.clone();
                    assert(decreases_to!(*self => (self->fields)@[i as int].1));
                    let value = fields[i].1.clone();
                    copies.push((name, value));
                    i = i + 1;
                }
                proof {
                    lemma_record_view(*fields, *span);
                    lemma_record_view(copies, *span);
                    assert(fields_view(copies@) == fields_view(fields@));
                }
                InputValue::Record { fields: copies, span: *span }
            },
            InputValue::Other { ty, span } => InputValue::Other { ty: ty.clone(), span: *span },
        }
    }
}

} // verus!
