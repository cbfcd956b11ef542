//! Conversion at a place inside a nested value: the value there is located,
//! converted, and put back in its place.

use crate::action::{action, converted};
use crate::cell_path::{CellPath, PathMember, PathMemberView};
use crate::error::{ConversionError, ConversionErrorView};
use crate::span::Span;
use crate::value::{fields_view, lemma_list_view, lemma_record_view, views_of, InputValue, ValueView};
use vstd::prelude::*;

verus! {

/// The index of the last field named `name`, if there is one.
pub open spec fn field_index(fields: Seq<(Seq<char>, ValueView)>, name: Seq<char>) -> Option<int>
    decreases fields.len(),
{
    if fields.len() == 0 {
        None
    } else if fields.last().0 == name {
        Some(fields.len() - 1)
    } else {
        field_index(fields.drop_last(), name)
    }
}

/// The index, among the values that `v` holds, of the one that `member`
/// selects: a name selects a record's field, a number a list's item. `None`
/// where `v` holds no such value.
pub open spec fn selected(v: ValueView, member: PathMemberView) -> Option<int> {
    match (v, member) {
        (ValueView::Record { fields, .. }, PathMemberView::String { val, .. }) => field_index(
            fields,
            val,
        ),
        (ValueView::List { vals, .. }, PathMemberView::Int { val, .. }) => if val < vals.len() {
            Some(val as int)
        } else {
            None
        },
        _ => None,
    }
}

/// The number of values that `v` holds.
pub open spec fn child_count(v: ValueView) -> nat {
    match v {
        ValueView::Record { fields, .. } => fields.len(),
        ValueView::List { vals, .. } => vals.len(),
        _ => 0,
    }
}

/// The value that `v` holds at index `k`.
pub open spec fn child(v: ValueView, k: int) -> ValueView {
    match v {
        ValueView::Record { fields, .. } => fields[k].1,
        ValueView::List { vals, .. } => vals[k],
        _ => v,
    }
}

/// `v` with `c` in the place of the value that it holds at index `k`.
pub open spec fn with_child(v: ValueView, k: int, c: ValueView) -> ValueView {
    match v {
        ValueView::Record { fields, span } => ValueView::Record {
            fields: fields.update(k, (fields[k].0, c)),
            span,
        },
        ValueView::List { vals, span } => ValueView::List { vals: vals.update(k, c), span },
        _ => v,
    }
}

/// The error for a step that `v` has no value for.
pub open spec fn unresolved(v: ValueView, member: PathMemberView) -> ConversionErrorView {
    ConversionErrorView::PathResolutionFailure { member, src_span: v.span().unwrap() }
}

/// The value that stands in `v` at `path`. An error met on the way, or at
/// the end of it, is the outcome; so is a step that leads nowhere.
pub open spec fn located(v: ValueView, path: Seq<PathMemberView>) -> Result<
    ValueView,
    ConversionErrorView,
>
    decreases path.len(),
{
    if v is Error {
        Err(v->error)
    } else if path.len() == 0 {
        Ok(v)
    } else {
        match selected(v, path[0]) {
            None => Err(unresolved(v, path[0])),
            Some(k) => located(child(v, k), path.drop_first()),
        }
    }
}

/// `v` with `new` in the place of the value that stands at `path`.
pub open spec fn replaced(v: ValueView, path: Seq<PathMemberView>, new: ValueView) -> ValueView
    decreases path.len(),
{
    if path.len() == 0 {
        new
    } else {
        match selected(v, path[0]) {
            None => v,
            Some(k) => with_child(v, k, replaced(child(v, k), path.drop_first(), new)),
        }
    }
}

/// `v` with the value at `path` converted, the rest as it was. Where no
/// value stands at `path`, or the value there does not convert, the error
/// that says so.
pub open spec fn updated(v: ValueView, path: Seq<PathMemberView>, span: Span) -> Result<
    ValueView,
    ConversionErrorView,
> {
    match located(v, path) {
        Err(e) => Err(e),
        Ok(target) => match converted(target, span) {
            ValueView::Error { error } => Err(error),
            new => Ok(replaced(v, path, new)),
        },
    }
}

/// The index of the last field named `name`, if there is one.
fn find_field(fields: &Vec<(String, InputValue)>, name: &String) -> (found: Option<usize>)
    ensures
        match found {
            Some(k) => k < fields@.len() && field_index(fields_view(fields@), name@) == Some(
                k as int,
            ),
            None => field_index(fields_view(fields@), name@) is None,
        },
{
    let ghost all = fields_view(fields@);
    let mut k = fields.len();
    assert(all.take(k as int) == all);
    while k > 0
        invariant
            k <= fields@.len(),
            all == fields_view(fields@),
            field_index(all, name@) == field_index(all.take(k as int), name@),
        decreases k,
    {
        k = k - 1;
        proof {
            let shorter = all.take(k + 1);
            assert(shorter.last() == all[k as int]);
            assert(shorter.drop_last() == all.take(k as int));
        }
        if fields[k].0 == *name {
            return Some(k);
        }
    }
    assert(all.take(0).len() == 0);
    None
}

/// The error for a step that leads nowhere in a value that stands at
/// `src_span`.
fn unresolved_at(member: &PathMember, src_span: Span) -> (e: ConversionError)
    ensures
        e@ == (ConversionErrorView::PathResolutionFailure { member: member@, src_span }),
{
    ConversionError::PathResolutionFailure { member: member.clone(), src_span }
}

/// Converts the value that stands in `v` at the steps of `members` from
/// `depth` on, and puts the outcome in its place.
fn update_from(v: InputValue, members: &Vec<PathMember>, depth: usize, span: Span) -> (r: Result<
    InputValue,
    ConversionError,
>)
    requires
        depth <= members@.len(),
    ensures
        match r {
            Ok(w) => updated(v@, members@.map_values(|m: PathMember| m@).skip(depth as int), span)
                == Ok::<ValueView, ConversionErrorView>(w@),
            Err(e) => updated(v@, members@.map_values(|m: PathMember| m@).skip(depth as int), span)
                == Err::<ValueView, ConversionErrorView>(e@),
        },
    decreases members@.len() - depth,
{
    let ghost path = members@.map_values(|m: PathMember| m@).skip(depth as int);
    if depth == members.len() {
        return match action(&v, span) {
            InputValue::Error { error } => Err(error),
            new => Ok(new),
        };
    }
    let member = &members[depth];
    assert(path[0] == member@);
    assert(path.drop_first() == members@.map_values(|m: PathMember| m@).skip(depth + 1));
    match v {
        InputValue::Error { error } => Err(error),
        InputValue::Record { fields, span: record_span } => {
            proof {
                lemma_record_view(fields, record_span);
            }
            match member {
                PathMember::String { val: name, .. } => match find_field(&fields, name) {
                    Some(k) => {
                        let mut fields = fields;
                        let ghost before = fields;
                        let (field_name, field_value) = fields.remove(k);
                        match update_from(field_value, members, depth + 1, span) {
                            Ok(new_value) => {
                                fields.insert(k, (field_name, new_value));
                                proof {
                                    lemma_record_view(fields, record_span);
                                    assert(fields_view(fields@) == fields_view(before@).update(
                                        k as int,
                                        (field_name@, new_value@),
                                    ));
                                }
                                Ok(InputValue::Record { fields, span: record_span })
                            },
                            Err(e) => Err(e),
                        }
                    },
                    None => Err(unresolved_at(member, record_span)),
                },
                PathMember::Int { .. } => Err(unresolved_at(member, record_span)),
            }
        },
        InputValue::List { vals, span: list_span } => {
            proof {
                lemma_list_view(vals, list_span);
            }
            match member {
                PathMember::Int { val: index, .. } => if *index < vals.len() {
                    let mut vals = vals;
                    let ghost before = vals;
                    let item = vals.remove(*index);
                    match update_from(item, members, depth + 1, span) {
                        Ok(new_item) => {
                            vals.insert(*index, new_item);
                            proof {
                                lemma_list_view(vals, list_span);
                                assert(views_of(vals@) == views_of(before@).update(
                                    *index as int,
                                    new_item@,
                                ));
                            }
                            Ok(InputValue::List { vals, span: list_span })
                        },
                        Err(e) => Err(e),
                    }
                } else {
                    Err(unresolved_at(member, list_span))
                },
                PathMember::String { .. } => Err(unresolved_at(member, list_span)),
            }
        },
        InputValue::Duration { span: value_span, .. } => Err(unresolved_at(member, value_span)),
        InputValue::String { span: value_span, .. } => Err(unresolved_at(member, value_span)),
        InputValue::Other { span: value_span, .. } => Err(unresolved_at(member, value_span)),
    }
}

/// Converts the value that stands in `v` at `path`, and leaves the rest of
/// `v` as it was. Where no value stands there, or the value there does not
/// convert, the outcome is the error that says so.
pub fn update_cell_path(v: InputValue, path: &CellPath, span: Span) -> (r: Result<
    InputValue,
    ConversionError,
>)
    ensures
        match r {
            Ok(w) => updated(v@, path@, span) == Ok::<ValueView, ConversionErrorView>(w@),
            Err(e) => updated(v@, path@, span) == Err::<ValueView, ConversionErrorView>(e@),
        },
{
    assert(path@.skip(0) == path@);
    update_from(v, &path.members, 0, span)
}

} // verus!
