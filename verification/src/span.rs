//! Positions in source files.

use vstd::prelude::*;

verus! {

/// A source file: its path and its text.
#[derive(Debug, PartialEq, Eq)]
pub struct SourceFile {
    pub path: String,
    pub contents: String,
}

impl Clone for SourceFile {
    fn clone(&self) -> (r: Self)
        ensures
            r.path@ == self.path@,
            r.contents@ == self.contents@,
    {
        SourceFile { path: self.path.clone(), contents: self.contents.clone() }
    }
}

/// A stretch of a source file, from the byte at `start` up to the byte at `end`.
#[derive(Debug, PartialEq, Eq)]
pub struct Span {
    pub file: SourceFile,
    pub start: usize,
    pub end: usize,
}

impl Span {
    /// The stretch of `file` from `start` up to `end`.
    pub fn new(file: SourceFile, start: usize, end: usize) -> (r: Span)
        ensures
            r.file == file,
            r.start == start,
            r.end == end,
    {
        Span { file, start, end }
    }
}

impl Clone for Span {
    fn clone(&self) -> (r: Self)
        ensures
            r.file.path@ == self.file.path@,
            r.file.contents@ == self.file.contents@,
            r.start == self.start,
            r.end == self.end,
    {
        Span { file: self.file.clone(), start: self.start, end: self.end }
    }
}

} // verus!
