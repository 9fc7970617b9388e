//! The attributes that a class, an enum, a field or an enum member can carry,
//! and how they are read from the attributes written in the source.

use std::collections::HashMap;
use vstd::prelude::*;
use crate::field_type::Constraint;
use crate::ir::repr::Expression;

verus! {

broadcast use vstd::std_specs::hash::group_hash_axioms;

/// The number under which a string is interned.
#[derive(Copy, Debug, PartialEq, Eq, Structural)]
pub struct StringId(pub usize);

impl Clone for StringId {
    fn clone(&self) -> (r: Self)
        ensures
            r == *self,
    {
        *self
    }
}

/// The attributes of a node.
#[derive(Debug)]
pub struct Attributes {
    /// The description of the node, as it is given to the model.
    pub description: Option<Expression>,
    /// The name under which the node is known to the model.
    pub alias: Option<StringId>,
    /// Whether the node's type is dynamic.
    pub dynamic_type: Option<bool>,
    /// Whether the node is left out of prompts and parsing.
    pub skip: Option<bool>,
    /// The checks and assertions attached to the node.
    pub constraints: Vec<Constraint>,
}

impl Default for Attributes {
    fn default() -> (r: Attributes)
        ensures
            r.description is None,
            r.alias is None,
            r.dynamic_type is None,
            r.skip is None,
            r.constraints@.len() == 0,
    {
        Attributes {
            description: None,
            alias: None,
            dynamic_type: None,
            skip: None,
            constraints: Vec::new(),
        }
    }
}

impl Attributes {
    /// Sets the description.
    pub fn add_description(&mut self, description: Expression)
        ensures
            final(self).description == Some(description),
            final(self).alias == old(self).alias,
            final(self).dynamic_type == old(self).dynamic_type,
            final(self).skip == old(self).skip,
            final(self).constraints == old(self).constraints,
    {
        self.description = Some(description);
    }

    /// The description.
    pub fn description(&self) -> (r: &Option<Expression>)
        ensures
            r == &self.description,
    {
        &self.description
    }

    /// Sets the alias.
    pub fn add_alias(&mut self, alias: StringId)
        ensures
            final(self).alias == Some(alias),
            final(self).description == old(self).description,
            final(self).dynamic_type == old(self).dynamic_type,
            final(self).skip == old(self).skip,
            final(self).constraints == old(self).constraints,
    {
        self.alias = Some(alias);
    }

    /// The alias.
    pub fn alias(&self) -> (r: &Option<StringId>)
        ensures
            r == &self.alias,
    {
        &self.alias
    }

    /// Whether the type is dynamic, if that was set.
    pub fn dynamic_type(&self) -> (r: &Option<bool>)
        ensures
            r == &self.dynamic_type,
    {
        &self.dynamic_type
    }

    /// Marks the type as dynamic.
    pub fn set_dynamic_type(&mut self)
        ensures
            final(self).dynamic_type == Some(true),
            final(self).description == old(self).description,
            final(self).alias == old(self).alias,
            final(self).skip == old(self).skip,
            final(self).constraints == old(self).constraints,
    {
        self.dynamic_type = Some(true);
    }

    /// Whether the node is skipped, if that was set.
    pub fn skip(&self) -> (r: &Option<bool>)
        ensures
            r == &self.skip,
    {
        &self.skip
    }

    /// Marks the node as skipped.
    pub fn set_skip(&mut self)
        ensures
            final(self).skip == Some(true),
            final(self).description == old(self).description,
            final(self).alias == old(self).alias,
            final(self).dynamic_type == old(self).dynamic_type,
            final(self).constraints == old(self).constraints,
    {
        self.skip = Some(true);
    }
}

/// The attributes of an enum: those of its members, by the position of the
/// member, and those of the enum itself.
pub struct EnumAttributes {
    pub value_serilizers: HashMap<usize, Attributes>,
    pub serilizer: Option<Attributes>,
}

/// The attributes of a class: those of its fields, by the position of the
/// field, and those of the class itself.
pub struct ClassAttributes {
    pub field_serilizers: HashMap<usize, Attributes>,
    pub serilizer: Option<Attributes>,
}

/// The attributes of the classes and enums of a schema, by the position of
/// the class or enum among the top-level items.
pub struct Types {
    pub class_attributes: HashMap<usize, ClassAttributes>,
    pub enum_attributes: HashMap<usize, EnumAttributes>,
}

impl Types {
    /// No attributes.
    pub fn new() -> (r: Types)
        ensures
            r.class_attributes@ == Map::<usize, ClassAttributes>::empty(),
            r.enum_attributes@ == Map::<usize, EnumAttributes>::empty(),
    {
        Types { class_attributes: HashMap::new(), enum_attributes: HashMap::new() }
    }
}

/// What kind of block a block with fields is.
#[derive(Copy, Debug, PartialEq, Eq, Structural)]
pub enum SubType {
    Enum,
    Class,
    Other,
}

impl Clone for SubType {
    fn clone(&self) -> (r: Self)
        ensures
            r == *self,
    {
        *self
    }
}

/// What reading the attributes of a block came to: for each field, in
/// order, the attributes that were read from it, if any were; and the
/// attributes that were read from the block itself, if any were.
pub struct VisitedBlock {
    pub fields: Vec<Option<Attributes>>,
    pub block: Option<Attributes>,
}

/// A top-level item whose attributes were read.
pub enum VisitedTop {
    Class(VisitedBlock),
    Enum(VisitedBlock),
    /// An item that carries no attributes of this kind.
    Other,
}

/// The attributes that were read from fields, by the position of the field:
/// an entry for each field from which some were read, and for no other.
pub open spec fn serializers_of(fields: Seq<Option<Attributes>>) -> Map<usize, Attributes> {
    Map::new(
        |i: usize| i < fields.len() && fields[i as int] is Some,
        |i: usize| fields[i as int]->0,
    )
}

/// Collects the attributes that were read from fields, by the position of
/// the field.
fn collect_serializers(fields: Vec<Option<Attributes>>) -> (r: HashMap<usize, Attributes>)
    ensures
        r@ == serializers_of(fields@),
{
    let mut fields = fields;
    let ghost all = fields@;
    let mut found: HashMap<usize, Attributes> = HashMap::new();
    while fields.len() > 0
        invariant
            fields@.len() <= all.len(),
            fields@ == all.take(fields@.len() as int),
            found@ == Map::<usize, Attributes>::new(
                |i: usize| fields@.len() <= i < all.len() && all[i as int] is Some,
                |i: usize| all[i as int]->0,
            ),
        decreases fields.len(),
    {
        let ghost before = found@;
        let ghost longer = fields@;
        let last = fields.pop();
        let index = fields.len();
        assert(fields@ =~= all.take(index as int));
        assert(longer[index as int] == all[index as int]);
        match last {
            Some(Some(attributes)) => {
                found.insert(index, attributes);
                assert(found@ =~= Map::<usize, Attributes>::new(
                    |i: usize| index <= i < all.len() && all[i as int] is Some,
                    |i: usize| all[i as int]->0,
                ));
            },
            _ => {
                assert(found@ =~= Map::<usize, Attributes>::new(
                    |i: usize| index <= i < all.len() && all[i as int] is Some,
                    |i: usize| all[i as int]->0,
                ));
            },
        }
    }
    assert(found@ =~= serializers_of(all));
    found
}

/// Whether `after` is `before` with the attributes of one enum put under
/// `type_id`, in the place of what was there.
pub open spec fn enum_recorded(
    before: Map<usize, EnumAttributes>,
    after: Map<usize, EnumAttributes>,
    type_id: usize,
    visited: VisitedBlock,
) -> bool {
    &&& after.dom() == before.dom().insert(type_id)
    &&& after[type_id].value_serilizers@ == serializers_of(visited.fields@)
    &&& after[type_id].serilizer == visited.block
    &&& forall|other: usize|
        other != type_id && before.contains_key(other) ==> #[trigger] after[other]
            == before[other]
}

/// Whether `after` is `before` with the attributes of one class put under
/// `type_id`, in the place of what was there.
pub open spec fn class_recorded(
    before: Map<usize, ClassAttributes>,
    after: Map<usize, ClassAttributes>,
    type_id: usize,
    visited: VisitedBlock,
) -> bool {
    &&& after.dom() == before.dom().insert(type_id)
    &&& after[type_id].field_serilizers@ == serializers_of(visited.fields@)
    &&& after[type_id].serilizer == visited.block
    &&& forall|other: usize|
        other != type_id && before.contains_key(other) ==> #[trigger] after[other]
            == before[other]
}

/// Whether `after` is `before` with the attributes of one block recorded
/// under `type_id`: among the enums for an enum, among the classes for a
/// class, and nowhere for a block of another kind.
pub open spec fn block_recorded(
    before: Types,
    after: Types,
    type_id: usize,
    visited: VisitedBlock,
    sub_type: SubType,
) -> bool {
    match sub_type {
        SubType::Enum => after.class_attributes@ == before.class_attributes@ && enum_recorded(
            before.enum_attributes@,
            after.enum_attributes@,
            type_id,
            visited,
        ),
        SubType::Class => after.enum_attributes@ == before.enum_attributes@ && class_recorded(
            before.class_attributes@,
            after.class_attributes@,
            type_id,
            visited,
        ),
        SubType::Other => after.class_attributes@ == before.class_attributes@
            && after.enum_attributes@ == before.enum_attributes@,
    }
}

/// Records the attributes of one class or enum under `type_id`.
///
/// For an enum, the attributes read from its members go under the positions
/// of the members, those read from the enum itself beside them, and the
/// whole under `type_id` among the attributes of enums; for a class, the
/// same with its fields, among the attributes of classes. What was there
/// under `type_id` is replaced. A block of any other kind changes nothing.
pub fn resolve_type_exp_block_attributes(
    type_id: usize,
    visited: VisitedBlock,
    types: &mut Types,
    sub_type: SubType,
)
    ensures
        block_recorded(*old(types), *final(types), type_id, visited, sub_type),
{
    match sub_type {
        SubType::Enum => {
            let enum_attributes = EnumAttributes {
                value_serilizers: collect_serializers(visited.fields),
                serilizer: visited.block,
            };
            types.enum_attributes.insert(type_id, enum_attributes);
        },
        SubType::Class => {
            let class_attributes = ClassAttributes {
                field_serilizers: collect_serializers(visited.fields),
                serilizer: visited.block,
            };
            types.class_attributes.insert(type_id, class_attributes);
        },
        SubType::Other => {},
    }
}

/// Whether `after` is `before` with the attributes of one top-level item
/// recorded under `type_id`; an item that is no block changes nothing.
pub open spec fn top_recorded(before: Types, after: Types, type_id: usize, top: VisitedTop) -> bool {
    match top {
        VisitedTop::Class(block) => block_recorded(before, after, type_id, block, SubType::Class),
        VisitedTop::Enum(block) => block_recorded(before, after, type_id, block, SubType::Enum),
        VisitedTop::Other => after.class_attributes@ == before.class_attributes@
            && after.enum_attributes@ == before.enum_attributes@,
    }
}

/// Whether `after` is `before` with the attributes of the first `n`
/// top-level items recorded, each under its position.
pub open spec fn tops_recorded(before: Types, after: Types, tops: Seq<VisitedTop>, n: nat) -> bool
    decreases n,
{
    if n == 0 || n > tops.len() {
        after.class_attributes@ == before.class_attributes@ && after.enum_attributes@
            == before.enum_attributes@
    } else {
        exists|middle: Types|
            tops_recorded(before, middle, tops, (n - 1) as nat) && #[trigger] top_recorded(
                middle,
                after,
                (n - 1) as usize,
                tops[n - 1],
            )
    }
}

/// The items of `tops` in the opposite order.
fn reversed(tops: Vec<VisitedTop>) -> (r: Vec<VisitedTop>)
    ensures
        r@.len() == tops@.len(),
        forall|k: int| 0 <= k < r@.len() ==> r@[k] == tops@[tops@.len() - 1 - k],
{
    let mut tops = tops;
    let ghost all = tops@;
    let mut out: Vec<VisitedTop> = Vec::new();
    while tops.len() > 0
        invariant
            tops@.len() + out@.len() == all.len(),
            tops@ == all.take(tops@.len() as int),
            forall|k: int| 0 <= k < out@.len() ==> out@[k] == all[all.len() - 1 - k],
        decreases tops.len(),
    {
        let ghost longer = tops@;
        let top = tops.pop().unwrap();
        assert(tops@ =~= all.take(tops@.len() as int));
        assert(top == longer[tops@.len() as int]);
        out.push(top);
    }
    out
}

/// Records the attributes of every class and enum among the top-level items
/// of a schema, each under its position among the items, in the order of the
/// items.
pub fn resolve_attributes(tops: Vec<VisitedTop>, types: &mut Types)
    ensures
        tops_recorded(*old(types), *final(types), tops@, tops@.len()),
{
    let ghost all = tops@;
    let mut tops = reversed(tops);
    let mut index: usize = 0;
    let count = tops.len();
    while index < count
        invariant
            index <= count == all.len(),
            tops@.len() == count - index,
            forall|k: int| 0 <= k < tops@.len() ==> tops@[k] == all[count - 1 - k],
            tops_recorded(*old(types), *types, all, index as nat),
        decreases count - index,
    {
        let ghost middle = *types;
        let top = tops.pop().unwrap();
        assert(top == all[index as int]);
        match top {
            VisitedTop::Class(block) => {
                resolve_type_exp_block_attributes(index, block, types, SubType::Class);
            },
            VisitedTop::Enum(block) => {
                resolve_type_exp_block_attributes(index, block, types, SubType::Enum);
            },
            VisitedTop::Other => {},
        }
        proof {
            let n = (index + 1) as nat;
            assert(tops_recorded(*old(types), middle, all, (n - 1) as nat));
            assert(top_recorded(middle, *types, (n - 1) as usize, all[n - 1]));
            assert(tops_recorded(*old(types), *types, all, n));
        }
        index += 1;
    }
}

} // verus!
