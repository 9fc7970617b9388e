//! The parsing context: where in the target type tree a coercion is, and the
//! guard against endless descent into classes that refer to themselves.
//!
//! The guard is kept on what was visited in the branch in hand: a context
//! holds the names of the classes in progress, and a class is entered only
//! while they are fewer than the context's limit. A new context has the
//! largest limit that there is, so that no value is cut short unless the
//! caller has asked for a bound.

use vstd::prelude::*;
use vstd::string::*;
use crate::error::{render_scope, scope_text, ErrorKind, ErrorModel, ParsingError};
use crate::field_type::{FieldType, TypeModel};
use crate::schema::Schema;
use crate::text::{clone_strings, strings_view};
use crate::value::{shape_of, Value, ValueModel, ValueShape};

verus! {

/// The state that a coercion carries down the target type tree.
pub struct ParsingContext<'a> {
    /// The path from the root to the value in hand, for error reports.
    pub scope: Vec<String>,
    /// The classes in progress in this branch, outermost first. Its length is
    /// the recursion depth.
    pub visited: Vec<String>,
    /// How many classes may be in progress, one inside the other, in this
    /// branch.
    pub limit: usize,
    /// The schema in which class and enum names are looked up.
    pub schema: &'a Schema,
}

/// The mathematical value of a [`ParsingContext`], without its schema.
pub struct ContextModel {
    pub scope: Seq<Seq<char>>,
    pub visited: Seq<Seq<char>>,
    pub limit: nat,
}

impl<'a> View for ParsingContext<'a> {
    type V = ContextModel;

    open spec fn view(&self) -> ContextModel {
        ContextModel {
            scope: strings_view(self.scope@),
            visited: strings_view(self.visited@),
            limit: self.limit as nat,
        }
    }
}

/// The context one scope segment further down.
pub open spec fn enter_scope(ctx: ContextModel, segment: Seq<char>) -> ContextModel {
    ContextModel { scope: ctx.scope.push(segment), visited: ctx.visited, limit: ctx.limit }
}

/// The context inside a class of this name.
pub open spec fn enter_class(ctx: ContextModel, name: Seq<char>) -> ContextModel {
    ContextModel { scope: ctx.scope, visited: ctx.visited.push(name), limit: ctx.limit }
}

/// The failure of the given kind at the scope of `ctx`.
pub open spec fn error_at(
    ctx: ContextModel,
    kind: ErrorKind,
    target: TypeModel,
    found: Option<ValueShape>,
) -> ErrorModel {
    ErrorModel { scope: ctx.scope, kind, target, found }
}

/// The failure reported where no value is there for a type that needs one.
pub open spec fn unexpected_null(ctx: ContextModel, target: TypeModel) -> ErrorModel {
    error_at(ctx, ErrorKind::UnexpectedNull, target, None)
}

/// The failure reported where a value's shape does not fit the target type.
pub open spec fn unexpected_type(ctx: ContextModel, target: TypeModel, value: ValueModel) -> ErrorModel {
    error_at(ctx, ErrorKind::UnexpectedType, target, Some(shape_of(value)))
}

impl<'a> ParsingContext<'a> {
    /// The context at the root: empty scope, no class in progress, and the
    /// largest limit that there is.
    pub fn new(schema: &'a Schema) -> (r: ParsingContext<'a>)
        ensures
            r@.scope.len() == 0,
            r@.visited.len() == 0,
            r@.limit == usize::MAX,
            r.schema == schema,
    {
        ParsingContext { scope: Vec::new(), visited: Vec::new(), limit: usize::MAX, schema }
    }

    /// The context at the root under which at most `limit` classes are in
    /// progress, one inside the other: a class below that depth fails with
    /// `RecursionLimit`.
    pub fn with_limit(schema: &'a Schema, limit: usize) -> (r: ParsingContext<'a>)
        ensures
            r@.scope.len() == 0,
            r@.visited.len() == 0,
            r@.limit == limit,
            r.schema == schema,
    {
        ParsingContext { scope: Vec::new(), visited: Vec::new(), limit, schema }
    }

    /// The context one scope segment further down. This context is unchanged.
    pub fn enter_scope(&self, segment: &str) -> (r: ParsingContext<'a>)
        ensures
            r@ == enter_scope(self@, segment@),
            r.schema == self.schema,
    {
        let mut scope = clone_strings(&self.scope);
        scope.push(String::from_str(segment));
        let r = ParsingContext {
            scope,
            visited: clone_strings(&self.visited),
            limit: self.limit,
            schema: self.schema,
        };
        assert(r@.scope =~= self@.scope.push(segment@));
        assert(r@.visited =~= self@.visited);
        r
    }

    /// The context inside a class of this name. This context is unchanged.
    pub fn enter_class(&self, name: &str) -> (r: ParsingContext<'a>)
        ensures
            r@ == enter_class(self@, name@),
            r.schema == self.schema,
    {
        let mut visited = clone_strings(&self.visited);
        visited.push(String::from_str(name));
        let r = ParsingContext {
            scope: clone_strings(&self.scope),
            visited,
            limit: self.limit,
            schema: self.schema,
        };
        assert(r@.visited =~= self@.visited.push(name@));
        assert(r@.scope =~= self@.scope);
        r
    }

    /// The number of classes in progress in this branch.
    pub fn depth(&self) -> (r: usize)
        ensures
            r == self@.visited.len(),
    {
        self.visited.len()
    }

    /// The scope path as text: its segments joined by dots, `<root>` at the root.
    pub fn display_scope(&self) -> (r: String)
        ensures
            r@ == scope_text(self@.scope),
    {
        render_scope(&self.scope)
    }

    /// The failure of the given kind at this scope.
    pub fn error(&self, kind: ErrorKind, target: &FieldType, found: Option<ValueShape>) -> (r:
        ParsingError)
        ensures
            r@ == error_at(self@, kind, target@, found),
    {
        ParsingError { scope: clone_strings(&self.scope), kind, target: target.clone(), found }
    }

    /// The failure for a value that is absent where the target needs one.
    pub fn error_unexpected_null(&self, target: &FieldType) -> (r: ParsingError)
        ensures
            r@ == unexpected_null(self@, target@),
    {
        self.error(ErrorKind::UnexpectedNull, target, None)
    }

    /// The failure for a value whose shape does not fit the target.
    pub fn error_unexpected_type(&self, target: &FieldType, value: &Value) -> (r: ParsingError)
        ensures
            r@ == unexpected_type(self@, target@, value@),
    {
        self.error(ErrorKind::UnexpectedType, target, Some(value.shape()))
    }

    /// The failure for a map whose key type is not supported; `key_type` is
    /// the offending type.
    pub fn error_map_must_have_supported_key(&self, key_type: &FieldType) -> (r: ParsingError)
        ensures
            r@ == error_at(self@, ErrorKind::UnsupportedMapKey, key_type@, None),
    {
        self.error(ErrorKind::UnsupportedMapKey, key_type, None)
    }

    /// The failure for a map whose key type is a union of literals of more
    /// than one kind.
    pub fn error_map_must_have_only_one_type_in_key_union(&self, key_type: &FieldType) -> (r:
        ParsingError)
        ensures
            r@ == error_at(self@, ErrorKind::MixedKeyUnion, key_type@, None),
    {
        self.error(ErrorKind::MixedKeyUnion, key_type, None)
    }
}

} // verus!
