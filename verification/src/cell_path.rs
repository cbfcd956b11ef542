//! Paths that name a place inside a nested value.

use crate::span::Span;
use vstd::prelude::*;

verus! {

/// One step of a path: the name of a record's field, or the index of a
/// list's item.
#[derive(Debug, PartialEq, Eq)]
pub enum PathMember {
    String { val: String, span: Span },
    Int { val: usize, span: Span },
}

/// What a [`PathMember`] stands for.
pub enum PathMemberView {
    String { val: Seq<char>, span: Span },
    Int { val: usize, span: Span },
}

impl View for PathMember {
    type V = PathMemberView;

    open spec fn view(&self) -> PathMemberView {
        match self {
            PathMember::String { val, span } => PathMemberView::String { val: val@, span: *span },
            PathMember::Int { val, span } => PathMemberView::Int { val: *val, span: *span },
        }
    }
}

impl Clone for PathMember {
    fn clone(&self) -> (copy: Self)
        ensures
            copy@ == self@,
    {
        match self {
            PathMember::String { val, span } => PathMember::String { val: val.clone(), span: *span },
            PathMember::Int { val, span } => PathMember::Int { val: *val, span: *span },
        }
    }
}

/// A path into a nested value: the steps to take from its root, in order.
/// The empty path names the whole value.
#[derive(Debug, PartialEq, Eq)]
pub struct CellPath {
    pub members: Vec<PathMember>,
}

impl View for CellPath {
    type V = Seq<PathMemberView>;

    open spec fn view(&self) -> Seq<PathMemberView> {
        self.members@.map_values(|m: PathMember| m@)
    }
}

impl Clone for CellPath {
    fn clone(&self) -> (copy: Self)
        ensures
            copy@ == self@,
    {
        let mut members: Vec<PathMember> = Vec::new();
        let mut i: usize = 0;
        while i < self.members.len()
            invariant
                i <= self.members@.len(),
                members@.len() == i,
                forall|j: int| 0 <= j < i ==> members@[j]@ == self.members@[j]@,
            decreases self.members@.len() - i,
        {
            members.push(self.members[i].clone());
            i = i + 1;
        }
        assert(members@.map_values(|m: PathMember| m@) == self@);
        CellPath { members }
    }
}

} // verus!
