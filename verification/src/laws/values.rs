//! Laws of the conversion of values, as a whole and at paths.

use crate::action::{cant_convert, converted};
use crate::cell_path::PathMemberView;
use crate::compound::parsed_compound;
use crate::error::ConversionErrorView;
use crate::pipeline::{converted_all, converted_element};
use crate::span::Span;
use crate::update::{
    child, child_count, field_index, located, replaced, selected, updated, with_child,
};
use crate::value::ValueView;
use vstd::prelude::*;

verus! {

/// Converting twice is converting once: what a conversion gives, a second
/// conversion leaves as it is, wherever it is asked for.
pub proof fn law_conversion_idempotent(v: ValueView, span: Span, again: Span)
    ensures
        converted(converted(v, span), again) == converted(v, span),
{
}

/// What a string becomes rests on what it spells alone: the duration that
/// it spells, at the place where the conversion was asked for, or the error
/// that tells what is wrong with it.
pub proof fn law_string_converts(val: Seq<char>, value_span: Span, span: Span)
    ensures
        parsed_compound(val, value_span) is Ok ==> converted(
            ValueView::String { val, span: value_span },
            span,
        ) == (ValueView::Duration { val: parsed_compound(val, value_span)->Ok_0, span }),
        parsed_compound(val, value_span) is Err ==> converted(
            ValueView::String { val, span: value_span },
            span,
        ) == (ValueView::Error {
            error: cant_convert(parsed_compound(val, value_span)->Err_0, span),
        }),
{
}

/// A row of values comes out as long as it went in, and each value is
/// converted in its own place, whatever becomes of the others: a string
/// that spells a duration becomes that duration, and one that spells none
/// becomes an error.
pub proof fn law_each_in_its_place(vals: Seq<ValueView>, span: Span)
    ensures
        converted_all(vals, Seq::empty(), span).len() == vals.len(),
        forall|i: int|
            0 <= i < vals.len() ==> #[trigger] converted_all(vals, Seq::empty(), span)[i]
                == converted(vals[i], span),
        forall|i: int|
            0 <= i < vals.len() && vals[i] is String ==> {
                let parsed = parsed_compound(vals[i]->String_val, vals[i]->String_span);
                let out = #[trigger] converted_all(vals, Seq::empty(), span)[i];
                &&& parsed is Ok ==> out == (ValueView::Duration { val: parsed->Ok_0, span })
                &&& parsed is Err ==> out is Error
            },
{
}

/// A new value for a field leaves the field where the name finds it.
proof fn lemma_field_index_update(
    fields: Seq<(Seq<char>, ValueView)>,
    name: Seq<char>,
    k: int,
    c: ValueView,
)
    requires
        field_index(fields, name) == Some(k),
    ensures
        0 <= k < fields.len(),
        fields[k].0 == name,
        field_index(fields.update(k, (fields[k].0, c)), name) == Some(k),
    decreases fields.len(),
{
    if fields.len() > 0 && fields.last().0 != name {
        lemma_field_index_update(fields.drop_last(), name, k, c);
        let new = fields.update(k, (fields[k].0, c));
        assert(new.drop_last() == fields.drop_last().update(k, (fields[k].0, c)));
    }
}

/// A step that selects a value selects one that is there, and selects the
/// same place after that value has been replaced.
pub proof fn lemma_selected_stable(v: ValueView, member: PathMemberView, k: int, c: ValueView)
    requires
        selected(v, member) == Some(k),
    ensures
        v is Record || v is List,
        v is Record ==> 0 <= k < v->fields.len(),
        v is List ==> 0 <= k < v->vals.len(),
        selected(with_child(v, k, c), member) == Some(k),
        child(with_child(v, k, c), k) == c,
{
    match (v, member) {
        (ValueView::Record { fields, .. }, PathMemberView::String { val, .. }) => {
            lemma_field_index_update(fields, val, k, c);
        },
        _ => {},
    }
}

/// Replacing the value at a path leaves the rest as it was: at each step
/// the value keeps its kind, its place, the number and the names of what
/// it holds, and all that it holds but the one value that the step selects.
pub proof fn law_replaced_keeps_rest(v: ValueView, path: Seq<PathMemberView>, new: ValueView)
    requires
        path.len() > 0,
        selected(v, path[0]) is Some,
    ensures
        ({
            let k = selected(v, path[0])->0;
            let w = replaced(v, path, new);
            &&& w.span() == v.span()
            &&& v is List ==> w is List
            &&& v is Record ==> w is Record
            &&& v is Record ==> forall|j: int|
                0 <= j < v->fields.len() ==> (#[trigger] w->fields[j]).0 == v->fields[j].0
            &&& child_count(w) == child_count(v)
            &&& forall|j: int| 0 <= j < child_count(v) && j != k ==> child(w, j) == child(v, j)
            &&& child(w, k) == replaced(child(v, k), path.drop_first(), new)
        }),
{
    let k = selected(v, path[0])->0;
    lemma_selected_stable(v, path[0], k, replaced(child(v, k), path.drop_first(), new));
}

/// The value that was put at a path is the value that is found there.
pub proof fn law_located_after_replaced(v: ValueView, path: Seq<PathMemberView>, new: ValueView)
    requires
        located(v, path) is Ok,
        !(new is Error),
    ensures
        located(replaced(v, path, new), path) == Ok::<ValueView, ConversionErrorView>(new),
    decreases path.len(),
{
    if path.len() > 0 {
        let k = selected(v, path[0])->0;
        let inner = replaced(child(v, k), path.drop_first(), new);
        lemma_selected_stable(v, path[0], k, inner);
        law_located_after_replaced(child(v, k), path.drop_first(), new);
    }
}

/// A conversion at a path succeeds exactly where a value stands at the path
/// and converts; it then differs from the value it was given at that path
/// alone, where the converted value stands.
pub proof fn law_updated(v: ValueView, path: Seq<PathMemberView>, span: Span)
    ensures
        updated(v, path, span) is Ok <==> located(v, path) is Ok && !(converted(
            located(v, path)->Ok_0,
            span,
        ) is Error),
        updated(v, path, span) is Ok ==> located(updated(v, path, span)->Ok_0, path) == Ok::<
            ValueView,
            ConversionErrorView,
        >(converted(located(v, path)->Ok_0, span)),
{
    if updated(v, path, span) is Ok {
        law_located_after_replaced(v, path, converted(located(v, path)->Ok_0, span));
    }
}

/// A value whose conversion fails at one of the paths becomes an error as a
/// whole, and the paths behind it are not looked at.
pub proof fn law_first_failure_wins(
    v: ValueView,
    paths: Seq<Seq<PathMemberView>>,
    span: Span,
)
    requires
        paths.len() > 0,
        updated(v, paths[0], span) is Err,
    ensures
        converted_element(v, paths, span) == (ValueView::Error {
            error: updated(v, paths[0], span)->Err_0,
        }),
{
}

} // verus!
