//! What comes down the pipeline, converted value by value.

use crate::action::{action, converted};
use crate::cell_path::{CellPath, PathMemberView};
use crate::span::Span;
use crate::update::{update_cell_path, updated};
use crate::value::{lemma_list_view, views_of, InputValue, ValueView};
use std::sync::atomic::AtomicBool;
use vstd::prelude::*;

verus! {

/// What the paths `paths` stand for, each in its place.
pub open spec fn paths_view(paths: Seq<CellPath>) -> Seq<Seq<PathMemberView>> {
    paths.map_values(|p: CellPath| p@)
}

/// `v` with the values at `paths` converted one path after the other. The
/// first path that fails makes the whole an error.
pub open spec fn updated_all(v: ValueView, paths: Seq<Seq<PathMemberView>>, span: Span) -> ValueView
    decreases paths.len(),
{
    if paths.len() == 0 {
        v
    } else {
        match updated(v, paths[0], span) {
            Err(e) => ValueView::Error { error: e },
            Ok(w) => updated_all(w, paths.drop_first(), span),
        }
    }
}

/// What one value of the input becomes: converted as a whole where no path
/// is given, else converted at each path.
pub open spec fn converted_element(
    v: ValueView,
    paths: Seq<Seq<PathMemberView>>,
    span: Span,
) -> ValueView {
    if paths.len() == 0 {
        converted(v, span)
    } else {
        updated_all(v, paths, span)
    }
}

/// Converts one value of the input: as a whole where `column_paths` is
/// empty, else at each of the paths, in their order.
pub fn convert_element(v: InputValue, column_paths: &Vec<CellPath>, span: Span) -> (out: InputValue)
    ensures
        out@ == converted_element(v@, paths_view(column_paths@), span),
{
    if column_paths.len() == 0 {
        action(&v, span)
    } else {
        let mut ret = v;
        let mut k: usize = 0;
        assert(paths_view(column_paths@).skip(0) == paths_view(column_paths@));
        while k < column_paths.len()
            invariant
                k <= column_paths@.len(),
                updated_all(ret@, paths_view(column_paths@).skip(k as int), span) == updated_all(
                    v@,
                    paths_view(column_paths@),
                    span,
                ),
            decreases column_paths@.len() - k,
        {
            proof {
                let rest = paths_view(column_paths@).skip(k as int);
                assert(rest[0] == column_paths@[k as int]@);
                assert(rest.drop_first() == paths_view(column_paths@).skip(k + 1));
            }
            ret = match update_cell_path(ret, &column_paths[k], span) {
                Ok(w) => w,
                Err(error) => {
                    return InputValue::Error { error };
                },
            };
            k = k + 1;
        }
        ret
    }
}

/// Whether the flag, if there is one, says that the walk shall end.
pub fn was_pressed(ctrlc: Option<&AtomicBool>) -> (pressed: bool)
    ensures
        ctrlc is None ==> !pressed,
{
    match ctrlc {
        Some(flag) => flag.load(std::sync::atomic::Ordering::SeqCst),
        None => false,
    }
}

/// One step of the walk: what to hand on for the value `v`. Once the walk
/// is `cancelled` nothing is handed on and nothing is converted.
pub fn step(cancelled: bool, v: InputValue, column_paths: &Vec<CellPath>, span: Span) -> (next:
    Option<InputValue>)
    ensures
        cancelled ==> next is None,
        !cancelled ==> next is Some && next->0@ == converted_element(
            v@,
            paths_view(column_paths@),
            span,
        ),
{
    if cancelled {
        None
    } else {
        Some(convert_element(v, column_paths, span))
    }
}

/// What the values `vals` become, each in its place.
pub open spec fn converted_all(
    vals: Seq<ValueView>,
    paths: Seq<Seq<PathMemberView>>,
    span: Span,
) -> Seq<ValueView> {
    Seq::new(vals.len(), |i: int| converted_element(vals[i], paths, span))
}

/// Converts the values `vals` in turn, and asks the flag before each one
/// whether to go on. What comes out is the row of converted values up to
/// the one at which the flag was found set: all of them where there is no
/// flag.
pub fn convert_all(
    vals: Vec<InputValue>,
    column_paths: &Vec<CellPath>,
    span: Span,
    ctrlc: Option<&AtomicBool>,
) -> (out: Vec<InputValue>)
    ensures
        out@.len() <= vals@.len(),
        views_of(out@) == converted_all(views_of(vals@), paths_view(column_paths@), span).take(
            out@.len() as int,
        ),
        ctrlc is None ==> out@.len() == vals@.len(),
{
    let ghost all = converted_all(views_of(vals@), paths_view(column_paths@), span);
    let mut out: Vec<InputValue> = Vec::new();
    let mut stopped = false;
    for v in it: vals
        invariant
            it.seq() == vals@,
            all == converted_all(views_of(vals@), paths_view(column_paths@), span),
            out@.len() <= it.index(),
            !stopped ==> out@.len() == it.index(),
            stopped ==> ctrlc is Some,
            views_of(out@) == all.take(out@.len() as int),
    {
        if !stopped {
            match step(was_pressed(ctrlc), v, column_paths, span) {
                Some(w) => {
                    proof {
                        let k = out@.len() as int;
                        assert(views_of(out@.push(w)) == views_of(out@).push(w@));
                        assert(all.take(k + 1) == all.take(k).push(all[k]));
                    }
                    out.push(w);
                },
                None => {
                    stopped = true;
                },
            }
        }
    }
    out
}

/// What comes down the pipeline to the command, or leaves it.
#[derive(Clone, Debug, PartialEq, Eq)]
pub enum PipelineData {
    /// A single value.
    Value(InputValue),
    /// Values that come one after the other.
    ListStream(Vec<InputValue>),
}

/// What a [`PipelineData`] stands for.
pub enum PipelineDataView {
    Value(ValueView),
    ListStream(Seq<ValueView>),
}

impl View for PipelineData {
    type V = PipelineDataView;

    open spec fn view(&self) -> PipelineDataView {
        match self {
            PipelineData::Value(v) => PipelineDataView::Value(v@),
            PipelineData::ListStream(vals) => PipelineDataView::ListStream(views_of(vals@)),
        }
    }
}

impl PipelineDataView {
    /// Where the data stands in the source, as far as that is known.
    pub open spec fn span(self) -> Option<Span> {
        match self {
            PipelineDataView::Value(v) => v.span(),
            PipelineDataView::ListStream(_) => None,
        }
    }

    /// The values that are converted one by one, where the data is a row of
    /// values: the items of a list, or what a stream brings.
    pub open spec fn items(self) -> Option<Seq<ValueView>> {
        match self {
            PipelineDataView::Value(ValueView::List { vals, .. }) => Some(vals),
            PipelineDataView::Value(_) => None,
            PipelineDataView::ListStream(vals) => Some(vals),
        }
    }

    /// The data as one value: the value itself, or the list, placed at
    /// `span`, of what came one after the other.
    pub open spec fn into_value(self, span: Span) -> ValueView {
        match self {
            PipelineDataView::Value(v) => v,
            PipelineDataView::ListStream(vals) => ValueView::List { vals, span },
        }
    }
}

impl PipelineData {
    /// Where the data stands in the source, as far as that is known.
    pub fn span(&self) -> (span: Option<Span>)
        ensures
            span == self@.span(),
    {
        match self {
            PipelineData::Value(v) => v.span(),
            PipelineData::ListStream(_) => None,
        }
    }

    /// The data as one value: the value itself, or the list, placed at
    /// `span`, of what came one after the other.
    pub fn into_value(self, span: Span) -> (v: InputValue)
        ensures
            v@ == self@.into_value(span),
    {
        match self {
            PipelineData::Value(v) => v,
            PipelineData::ListStream(vals) => {
                proof {
                    lemma_list_view(vals, span);
                }
                InputValue::List { vals, span }
            },
        }
    }
}

/// The place at which the conversion is held to be asked for: that of the
/// input where it is known, else that of the call.
pub open spec fn conversion_span(input: PipelineDataView, head: Span) -> Span {
    match input.span() {
        Some(span) => span,
        None => head,
    }
}

/// What the command makes of `input` when nothing ends the walk early: a
/// single value converted, or a row of values converted each in its place.
pub open spec fn into_duration_of(
    input: PipelineDataView,
    paths: Seq<Seq<PathMemberView>>,
    head: Span,
) -> PipelineDataView {
    let span = conversion_span(input, head);
    match input.items() {
        None => PipelineDataView::Value(converted_element(input->Value_0, paths, span)),
        Some(vals) => PipelineDataView::ListStream(converted_all(vals, paths, span)),
    }
}

/// Whether the command may give `output` for `input`. Of a single value it
/// gives the converted value. Of a row of values it gives the converted
/// values in their order, up to the one before which it was told to end the
/// walk: all of them where it was not told so.
pub open spec fn is_outcome(
    input: PipelineDataView,
    paths: Seq<Seq<PathMemberView>>,
    head: Span,
    output: PipelineDataView,
) -> bool {
    let whole = into_duration_of(input, paths, head);
    match input.items() {
        None => output == whole,
        Some(vals) => {
            &&& output matches PipelineDataView::ListStream(out)
            &&& out.len() <= vals.len()
            &&& out == whole->ListStream_0.take(out.len() as int)
        },
    }
}

/// Converts what comes down the pipeline: a single value, or each value of
/// a list or a stream in turn. With `column_paths` the conversion is made
/// at these places inside each value, without them of each value as a
/// whole. A value that cannot be converted becomes an error value in its
/// place; the walk goes on. Before each value of a row the flag `ctrlc`, if
/// there is one, is asked whether to end the walk.
pub fn into_duration(
    head: Span,
    column_paths: &Vec<CellPath>,
    input: PipelineData,
    ctrlc: Option<&AtomicBool>,
) -> (output: PipelineData)
    ensures
        is_outcome(input@, paths_view(column_paths@), head, output@),
        ctrlc is None ==> output@ == into_duration_of(input@, paths_view(column_paths@), head),
{
    let span = match input.span() {
        Some(span) => span,
        None => head,
    };
    match input {
        PipelineData::Value(InputValue::List { vals, span: list_span }) => {
            proof {
                lemma_list_view(vals, list_span);
            }
            let out = convert_all(vals, column_paths, span, ctrlc);
            proof {
                let all = converted_all(views_of(vals@), paths_view(column_paths@), span);
                assert(all.take(all.len() as int) == all);
            }
            PipelineData::ListStream(out)
        },
        PipelineData::Value(v) => PipelineData::Value(convert_element(v, column_paths, span)),
        PipelineData::ListStream(vals) => {
            let out = convert_all(vals, column_paths, span, ctrlc);
            proof {
                let all = converted_all(views_of(vals@), paths_view(column_paths@), span);
                assert(all.take(all.len() as int) == all);
            }
            PipelineData::ListStream(out)
        },
    }
}

} // verus!
