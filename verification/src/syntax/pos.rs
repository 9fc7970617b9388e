//! Positions of syntactic forms.

use vstd::prelude::*;
use crate::span::{SourceFile, Span};

verus! {

/// The stretch of `source_file` from `left` up to `right`.
pub fn mk_pos(source_file: &SourceFile, left: usize, right: usize) -> (r: Span)
    ensures
        r.file.path@ == source_file.path@,
        r.file.contents@ == source_file.contents@,
        r.start == left,
        r.end == right,
{
    Span::new(source_file.clone(), left, right)
}

/// The empty stretch at the start of `source_file`.
pub fn empty_pos(source_file: &SourceFile) -> (r: Span)
    ensures
        r.file.path@ == source_file.path@,
        r.file.contents@ == source_file.contents@,
        r.start == 0,
        r.end == 0,
{
    mk_pos(source_file, 0, 0)
}

/// A form whose position can be replaced.
pub trait WithPos: Sized {
    /// This form at the position `pos`.
    fn with_pos(self, pos: Span) -> Self;
}

} // verus!
