//! The schema that coercion consults: the enums and classes that target
//! types name, with the names by which their members are matched.

use vstd::prelude::*;
use crate::field_type::{FieldType, TypeModel};
use crate::lookup::{first_from, first_index};
use crate::text::{str_eq, strings_view};

verus! {

/// A name, with the alias under which it may also appear in a value.
#[derive(Debug, PartialEq, Eq)]
pub struct Name {
    pub name: String,
    pub alias: Option<String>,
}

/// The view of an optional string.
pub open spec fn option_view(s: Option<String>) -> Option<Seq<char>> {
    match s {
        Some(text) => Some(text@),
        None => None,
    }
}

/// One member of an enum.
#[derive(Debug, PartialEq, Eq)]
pub struct EnumValueDescriptor {
    pub name: Name,
    pub description: Option<String>,
    /// A skipped member is never matched.
    pub skip: bool,
}

/// The mathematical value of an [`EnumValueDescriptor`].
pub struct EnumValueModel {
    pub name: Seq<char>,
    pub alias: Option<Seq<char>>,
    pub description: Option<Seq<char>>,
    pub skip: bool,
}

impl View for EnumValueDescriptor {
    type V = EnumValueModel;

    open spec fn view(&self) -> EnumValueModel {
        EnumValueModel {
            name: self.name.name@,
            alias: option_view(self.name.alias),
            description: option_view(self.description),
            skip: self.skip,
        }
    }
}

/// An enum: its name and its members in declaration order.
#[derive(Debug, PartialEq, Eq)]
pub struct EnumDescriptor {
    pub name: Name,
    pub values: Vec<EnumValueDescriptor>,
}

/// The mathematical value of an [`EnumDescriptor`].
pub struct EnumModel {
    pub name: Seq<char>,
    pub alias: Option<Seq<char>>,
    pub values: Seq<EnumValueModel>,
}

impl View for EnumDescriptor {
    type V = EnumModel;

    open spec fn view(&self) -> EnumModel {
        EnumModel {
            name: self.name.name@,
            alias: option_view(self.name.alias),
            values: Seq::new(self.values@.len(), |i: int| self.values@[i]@),
        }
    }
}

/// One field of a class.
#[derive(Debug, PartialEq, Eq)]
pub struct FieldDescriptor {
    pub name: Name,
    pub field_type: FieldType,
    pub description: Option<String>,
}

/// The mathematical value of a [`FieldDescriptor`].
pub struct FieldModel {
    pub name: Seq<char>,
    pub alias: Option<Seq<char>>,
    pub ty: TypeModel,
    pub description: Option<Seq<char>>,
}

impl View for FieldDescriptor {
    type V = FieldModel;

    open spec fn view(&self) -> FieldModel {
        FieldModel {
            name: self.name.name@,
            alias: option_view(self.name.alias),
            ty: self.field_type@,
            description: option_view(self.description),
        }
    }
}

/// A class: its name and its fields in declaration order.
#[derive(Debug, PartialEq, Eq)]
pub struct ClassDescriptor {
    pub name: Name,
    pub fields: Vec<FieldDescriptor>,
}

/// The mathematical value of a [`ClassDescriptor`].
pub struct ClassModel {
    pub name: Seq<char>,
    pub alias: Option<Seq<char>>,
    pub fields: Seq<FieldModel>,
}

impl View for ClassDescriptor {
    type V = ClassModel;

    open spec fn view(&self) -> ClassModel {
        ClassModel {
            name: self.name.name@,
            alias: option_view(self.name.alias),
            fields: Seq::new(self.fields@.len(), |i: int| self.fields@[i]@),
        }
    }
}

/// The enums and classes of a schema, and its groups of classes that refer
/// to each other in a cycle.
#[derive(Debug, PartialEq, Eq)]
pub struct Schema {
    pub enums: Vec<EnumDescriptor>,
    pub classes: Vec<ClassDescriptor>,
    pub recursive_cycles: Vec<Vec<String>>,
}

/// The mathematical value of a [`Schema`].
pub struct SchemaModel {
    pub enums: Seq<EnumModel>,
    pub classes: Seq<ClassModel>,
    pub recursive_cycles: Seq<Seq<Seq<char>>>,
}

/// The views of groups of names.
pub open spec fn cycles_view(cycles: Seq<Vec<String>>) -> Seq<Seq<Seq<char>>> {
    Seq::new(cycles.len(), |i: int| strings_view(cycles[i]@))
}

impl View for Schema {
    type V = SchemaModel;

    open spec fn view(&self) -> SchemaModel {
        SchemaModel {
            enums: Seq::new(self.enums@.len(), |i: int| self.enums@[i]@),
            classes: Seq::new(self.classes@.len(), |i: int| self.classes@[i]@),
            recursive_cycles: cycles_view(self.recursive_cycles@),
        }
    }
}

/// The property of an enum of having this name.
pub open spec fn is_enum_named(name: Seq<char>) -> spec_fn(EnumModel) -> bool {
    |e: EnumModel| e.name == name
}

/// The property of a class of having this name.
pub open spec fn is_class_named(name: Seq<char>) -> spec_fn(ClassModel) -> bool {
    |c: ClassModel| c.name == name
}

/// The first enum of the schema that has this name.
pub open spec fn find_enum(schema: SchemaModel, name: Seq<char>) -> Option<EnumModel> {
    match first_index(schema.enums, is_enum_named(name)) {
        Some(i) => Some(schema.enums[i]),
        None => None,
    }
}

/// The first class of the schema that has this name.
pub open spec fn find_class(schema: SchemaModel, name: Seq<char>) -> Option<ClassModel> {
    match first_index(schema.classes, is_class_named(name)) {
        Some(i) => Some(schema.classes[i]),
        None => None,
    }
}

impl Schema {
    /// A schema without enums or classes.
    pub fn new() -> (r: Schema)
        ensures
            r@.enums.len() == 0,
            r@.classes.len() == 0,
            r@.recursive_cycles.len() == 0,
    {
        Schema { enums: Vec::new(), classes: Vec::new(), recursive_cycles: Vec::new() }
    }

    /// The first enum that has this name, if there is one.
    pub fn find_enum(&self, name: &str) -> (r: Option<&EnumDescriptor>)
        ensures
            match r {
                Some(e) => find_enum(self@, name@) == Some(e@),
                None => find_enum(self@, name@) is None,
            },
    {
        let ghost wanted = is_enum_named(name@);
        let mut i: usize = 0;
        while i < self.enums.len()
            invariant
                i <= self.enums.len(),
                wanted == is_enum_named(name@),
                first_index(self@.enums, wanted) == first_from(self@.enums, wanted, i as int),
            decreases self.enums.len() - i,
        {
            assert(self@.enums[i as int] == self.enums@[i as int]@);
            if str_eq(self.enums[i].name.name.as_str(), name) {
                return Some(&self.enums[i]);
            }
            i += 1;
        }
        None
    }

    /// The first class that has this name, if there is one.
    pub fn find_class(&self, name: &str) -> (r: Option<&ClassDescriptor>)
        ensures
            match r {
                Some(c) => find_class(self@, name@) == Some(c@),
                None => find_class(self@, name@) is None,
            },
    {
        let ghost wanted = is_class_named(name@);
        let mut i: usize = 0;
        while i < self.classes.len()
            invariant
                i <= self.classes.len(),
                wanted == is_class_named(name@),
                first_index(self@.classes, wanted) == first_from(self@.classes, wanted, i as int),
            decreases self.classes.len() - i,
        {
            assert(self@.classes[i as int] == self.classes@[i as int]@);
            if str_eq(self.classes[i].name.name.as_str(), name) {
                return Some(&self.classes[i]);
            }
            i += 1;
        }
        None
    }

    /// The groups of classes that refer to each other in a cycle.
    pub fn finite_recursive_cycles(&self) -> (r: &Vec<Vec<String>>)
        ensures
            r == &self.recursive_cycles,
    {
        &self.recursive_cycles
    }
}

} // verus!
