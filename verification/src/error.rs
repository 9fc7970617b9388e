//! Failures of a coercion attempt.

use vstd::prelude::*;
use vstd::string::*;
use crate::field_type::{FieldType, TypeModel};
use crate::text::{join, join_strings, strings_view};
use crate::value::ValueShape;

verus! {

/// Why a coercion attempt failed.
#[derive(Copy, Debug, PartialEq, Eq, Structural)]
pub enum ErrorKind {
    /// No value was there, and the target type does not admit absence.
    UnexpectedNull,
    /// The value's shape cannot be brought to the target type.
    UnexpectedType,
    /// The key type of a map is none of the supported ones.
    UnsupportedMapKey,
    /// The key type of a map is a union of literals of more than one kind.
    MixedKeyUnion,
    /// A class field that must be present was not.
    MissingRequiredField,
    /// The value has the right shape but names no member of the enum.
    NoMatch,
    /// The schema has no definition of the class or enum that the target names.
    UnknownType,
    /// Classes nest deeper than the recursion guard admits.
    RecursionLimit,
}

impl Clone for ErrorKind {
    fn clone(&self) -> (r: Self)
        ensures
            r == *self,
    {
        *self
    }
}

/// How specific a failure is, for choosing the one that a failed union reports.
pub open spec fn specificity(kind: ErrorKind) -> nat {
    match kind {
        ErrorKind::UnexpectedNull => 0,
        ErrorKind::UnexpectedType => 1,
        ErrorKind::UnknownType => 2,
        ErrorKind::NoMatch => 3,
        ErrorKind::MissingRequiredField => 4,
        ErrorKind::UnsupportedMapKey => 5,
        ErrorKind::MixedKeyUnion => 6,
        ErrorKind::RecursionLimit => 7,
    }
}

impl ErrorKind {
    /// How specific a failure of this kind is.
    pub fn specificity(&self) -> (r: u8)
        ensures
            r == specificity(*self),
    {
        match self {
            ErrorKind::UnexpectedNull => 0,
            ErrorKind::UnexpectedType => 1,
            ErrorKind::UnknownType => 2,
            ErrorKind::NoMatch => 3,
            ErrorKind::MissingRequiredField => 4,
            ErrorKind::UnsupportedMapKey => 5,
            ErrorKind::MixedKeyUnion => 6,
            ErrorKind::RecursionLimit => 7,
        }
    }

    /// A short description of this kind of failure.
    pub fn describe(&self) -> (r: &'static str)
        ensures
            r@ == kind_text(*self),
    {
        match self {
            ErrorKind::UnexpectedNull => "unexpected null",
            ErrorKind::UnexpectedType => "unexpected type",
            ErrorKind::UnknownType => "unknown class or enum",
            ErrorKind::NoMatch => "no matching enum member",
            ErrorKind::MissingRequiredField => "missing required field",
            ErrorKind::UnsupportedMapKey => "unsupported map key type",
            ErrorKind::MixedKeyUnion => "mixed literal kinds in map key union",
            ErrorKind::RecursionLimit => "recursion limit reached",
        }
    }
}

/// The text by which each kind of failure is described.
pub open spec fn kind_text(kind: ErrorKind) -> Seq<char> {
    match kind {
        ErrorKind::UnexpectedNull => "unexpected null"@,
        ErrorKind::UnexpectedType => "unexpected type"@,
        ErrorKind::UnknownType => "unknown class or enum"@,
        ErrorKind::NoMatch => "no matching enum member"@,
        ErrorKind::MissingRequiredField => "missing required field"@,
        ErrorKind::UnsupportedMapKey => "unsupported map key type"@,
        ErrorKind::MixedKeyUnion => "mixed literal kinds in map key union"@,
        ErrorKind::RecursionLimit => "recursion limit reached"@,
    }
}

/// A failed coercion attempt: where it happened, why, against which target
/// type, and the shape of the value that was there, if one was.
#[derive(Debug, PartialEq, Eq)]
pub struct ParsingError {
    pub scope: Vec<String>,
    pub kind: ErrorKind,
    pub target: FieldType,
    pub found: Option<ValueShape>,
}

/// The mathematical value of a [`ParsingError`].
pub struct ErrorModel {
    pub scope: Seq<Seq<char>>,
    pub kind: ErrorKind,
    pub target: TypeModel,
    pub found: Option<ValueShape>,
}

impl View for ParsingError {
    type V = ErrorModel;

    open spec fn view(&self) -> ErrorModel {
        ErrorModel {
            scope: strings_view(self.scope@),
            kind: self.kind,
            target: self.target@,
            found: self.found,
        }
    }
}

/// The text of a scope path: its segments joined by dots, or `<root>` for the
/// empty path.
pub open spec fn scope_text(scope: Seq<Seq<char>>) -> Seq<char> {
    if scope.len() == 0 {
        "<root>"@
    } else {
        join(scope, "."@)
    }
}

/// Renders a scope path.
pub fn render_scope(scope: &Vec<String>) -> (r: String)
    ensures
        r@ == scope_text(strings_view(scope@)),
{
    if scope.len() == 0 {
        String::from_str("<root>")
    } else {
        join_strings(scope, ".")
    }
}

impl ParsingError {
    /// The message of this failure: its scope path, a colon, and what went wrong.
    pub fn message(&self) -> (r: String)
        ensures
            r@ == scope_text(self@.scope) + ": "@ + kind_text(self.kind),
    {
        let mut out = render_scope(&self.scope);
        out.append(": ");
        out.append(self.kind.describe());
        out
    }
}

} // verus!
