//! Walkers through the items that a schema's sources resolve to.

use vstd::prelude::*;
use crate::field_type::FieldType;
use crate::text::strings_view;

verus! {

/// The position of a type alias among the aliases of a schema.
#[derive(Copy, Debug, PartialEq, Eq, Structural)]
pub struct TypeAliasId(pub usize);

impl Clone for TypeAliasId {
    fn clone(&self) -> (r: Self)
        ensures
            r == *self,
    {
        *self
    }
}

/// A type alias as it is written: its name and the type it stands for.
pub struct TypeAlias {
    pub name: String,
    pub value: FieldType,
}

/// The type aliases of a schema. For each alias, in the order of the
/// aliases, the names of the types it mentions and the names it finally
/// resolves to.
pub struct ParserDatabase {
    pub aliases: Vec<TypeAlias>,
    pub alias_targets: Vec<Vec<String>>,
    pub resolved_aliases: Vec<Vec<String>>,
}

impl ParserDatabase {
    /// Whether the database is populated: targets and resolutions are there
    /// for every alias, and each of them names no type twice.
    pub open spec fn is_populated(&self) -> bool {
        &&& self.alias_targets@.len() == self.aliases@.len()
        &&& self.resolved_aliases@.len() == self.aliases@.len()
        &&& forall|k: int|
            0 <= k < self.alias_targets@.len() ==> strings_view(
                (#[trigger] self.alias_targets@[k])@,
            ).no_duplicates()
        &&& forall|k: int|
            0 <= k < self.resolved_aliases@.len() ==> strings_view(
                (#[trigger] self.resolved_aliases@[k])@,
            ).no_duplicates()
    }

    /// The walker of the alias at this position, if there is one.
    pub fn walk_type_alias<'db>(&'db self, id: TypeAliasId) -> (r: Option<Walker<'db, TypeAliasId>>)
        ensures
            match r {
                Some(w) => id.0 < self.aliases@.len() && w.db == self && w.id == id,
                None => id.0 >= self.aliases@.len(),
            },
    {
        if id.0 < self.aliases.len() {
            Some(Walker { db: self, id })
        } else {
            None
        }
    }
}

/// An item of a database, by its identifier, with the database.
pub struct Walker<'db, I> {
    pub db: &'db ParserDatabase,
    pub id: I,
}

/// A type alias with its database.
pub type TypeAliasWalker<'db> = Walker<'db, TypeAliasId>;

impl<'db> TypeAliasWalker<'db> {
    /// Whether the walker points at an alias of a populated database.
    pub open spec fn is_valid(&self) -> bool {
        self.db.is_populated() && self.id.0 < self.db.aliases@.len()
    }

    /// The alias's name.
    pub fn name(&self) -> (r: &'db str)
        requires
            self.id.0 < self.db.aliases@.len(),
        ensures
            r@ == self.db.aliases@[self.id.0 as int].name@,
    {
        self.db.aliases[self.id.0].name.as_str()
    }

    /// The names of the types that the alias mentions, each once. The
    /// database must be populated.
    pub fn targets(&self) -> (r: &'db Vec<String>)
        requires
            self.is_valid(),
        ensures
            r == &self.db.alias_targets@[self.id.0 as int],
            strings_view(r@).no_duplicates(),
    {
        &self.db.alias_targets[self.id.0]
    }

    /// The names that the alias finally resolves to, each once; none where
    /// it resolves to primitive types alone. The database must be populated.
    pub fn resolved(&self) -> (r: &'db Vec<String>)
        requires
            self.is_valid(),
        ensures
            r == &self.db.resolved_aliases@[self.id.0 as int],
            strings_view(r@).no_duplicates(),
    {
        &self.db.resolved_aliases[self.id.0]
    }

    /// The type that the alias stands for.
    pub fn ast_field_type(&self) -> (r: &'db FieldType)
        requires
            self.id.0 < self.db.aliases@.len(),
        ensures
            r == &self.db.aliases@[self.id.0 as int].value,
    {
        &self.db.aliases[self.id.0].value
    }
}

} // verus!
