//! The schema that coercion consults, made from the intermediate
//! representation and the values of the environment.

use indexmap::IndexMap;
use vstd::prelude::*;
use vstd::string::*;
use crate::ir::env::EnvValues;
use crate::ir::error::{IrError, IrErrorModel};
use crate::ir::expression::as_bool;
use crate::ir::repr::{attribute, Expression, IntermediateRepr};
use crate::ir::walker::{attribute_text, description_text, Class, Enum, EnumValue, Field, Walker};
use crate::schema::{
    ClassDescriptor, ClassModel, EnumDescriptor, EnumModel, EnumValueDescriptor, EnumValueModel,
    FieldDescriptor, FieldModel, Name, Schema, SchemaModel, cycles_view,
};
use crate::text::clone_strings;

verus! {

/// Whether a member with these attributes is skipped.
pub open spec fn skip_of(meta: IndexMap<String, Expression>, env: Seq<(Seq<char>, Seq<char>)>) -> Result<
    bool,
    IrErrorModel,
> {
    match attribute(meta, "skip"@) {
        Some(e) => as_bool(e, env),
        None => Ok(false),
    }
}

/// The description of an enum member: its name, its alias, its description
/// and whether it is skipped. Fails where one of its attributes cannot be
/// evaluated: the skip mark first, then the alias, then the description.
pub open spec fn member_model(member: EnumValue, env: Seq<(Seq<char>, Seq<char>)>) -> Result<
    EnumValueModel,
    IrErrorModel,
> {
    match skip_of(member.attributes.meta, env) {
        Err(e) => Err(e),
        Ok(skip) => match attribute_text(member.attributes.meta, "alias"@, env) {
            Err(e) => Err(e),
            Ok(alias) => match attribute_text(member.attributes.meta, "description"@, env) {
                Err(e) => Err(e),
                Ok(description) => Ok(
                    EnumValueModel { name: member.elem.0@, alias, description, skip },
                ),
            },
        },
    }
}

/// What coercion reads of the first `n` members, or the first failure.
pub open spec fn members_model(
    members: Seq<(EnumValue, Option<String>)>,
    env: Seq<(Seq<char>, Seq<char>)>,
    n: nat,
) -> Result<Seq<EnumValueModel>, IrErrorModel>
    decreases n,
{
    if n == 0 || n > members.len() {
        Ok(Seq::empty())
    } else {
        match members_model(members, env, (n - 1) as nat) {
            Err(e) => Err(e),
            Ok(done) => match member_model(members[n - 1].0, env) {
                Err(e) => Err(e),
                Ok(member) => Ok(done.push(member)),
            },
        }
    }
}

/// What coercion reads of an enum. Fails where its alias or one of its
/// members cannot be evaluated.
pub open spec fn enum_model(e: Enum, env: Seq<(Seq<char>, Seq<char>)>) -> Result<
    EnumModel,
    IrErrorModel,
> {
    match attribute_text(e.attributes.meta, "alias"@, env) {
        Err(e) => Err(e),
        Ok(alias) => match members_model(e.elem.values@, env, e.elem.values@.len()) {
            Err(e) => Err(e),
            Ok(values) => Ok(EnumModel { name: e.elem.name@, alias, values }),
        },
    }
}

/// What coercion reads of the first `n` enums, or the first failure.
pub open spec fn enums_model(enums: Seq<Enum>, env: Seq<(Seq<char>, Seq<char>)>, n: nat) -> Result<
    Seq<EnumModel>,
    IrErrorModel,
>
    decreases n,
{
    if n == 0 || n > enums.len() {
        Ok(Seq::empty())
    } else {
        match enums_model(enums, env, (n - 1) as nat) {
            Err(e) => Err(e),
            Ok(done) => match enum_model(enums[n - 1], env) {
                Err(e) => Err(e),
                Ok(model) => Ok(done.push(model)),
            },
        }
    }
}

/// The description of a field: its name, its alias, its type and its
/// description. Fails where its alias or its description cannot be evaluated.
pub open spec fn field_model(field: Field, env: Seq<(Seq<char>, Seq<char>)>) -> Result<
    FieldModel,
    IrErrorModel,
> {
    match attribute_text(field.attributes.meta, "alias"@, env) {
        Err(e) => Err(e),
        Ok(alias) => match description_text(field.attributes.meta, env) {
            Err(e) => Err(e),
            Ok(description) => Ok(
                FieldModel {
                    name: field.elem.name@,
                    alias,
                    ty: field.elem.field_type.elem@,
                    description,
                },
            ),
        },
    }
}

/// What coercion reads of the first `n` fields, or the first failure.
pub open spec fn fields_model(fields: Seq<Field>, env: Seq<(Seq<char>, Seq<char>)>, n: nat) -> Result<
    Seq<FieldModel>,
    IrErrorModel,
>
    decreases n,
{
    if n == 0 || n > fields.len() {
        Ok(Seq::empty())
    } else {
        match fields_model(fields, env, (n - 1) as nat) {
            Err(e) => Err(e),
            Ok(done) => match field_model(fields[n - 1], env) {
                Err(e) => Err(e),
                Ok(field) => Ok(done.push(field)),
            },
        }
    }
}

/// What coercion reads of a class. Fails where its alias or one of its
/// fields cannot be evaluated.
pub open spec fn class_model(class: Class, env: Seq<(Seq<char>, Seq<char>)>) -> Result<
    ClassModel,
    IrErrorModel,
> {
    match attribute_text(class.attributes.meta, "alias"@, env) {
        Err(e) => Err(e),
        Ok(alias) => match fields_model(
            class.elem.static_fields@,
            env,
            class.elem.static_fields@.len(),
        ) {
            Err(e) => Err(e),
            Ok(fields) => Ok(ClassModel { name: class.elem.name@, alias, fields }),
        },
    }
}

/// What coercion reads of the first `n` classes, or the first failure.
pub open spec fn classes_model(classes: Seq<Class>, env: Seq<(Seq<char>, Seq<char>)>, n: nat) -> Result<
    Seq<ClassModel>,
    IrErrorModel,
>
    decreases n,
{
    if n == 0 || n > classes.len() {
        Ok(Seq::empty())
    } else {
        match classes_model(classes, env, (n - 1) as nat) {
            Err(e) => Err(e),
            Ok(done) => match class_model(classes[n - 1], env) {
                Err(e) => Err(e),
                Ok(model) => Ok(done.push(model)),
            },
        }
    }
}

/// The schema that coercion consults for a representation: its enums, then
/// its classes, each in declaration order. Fails with the first attribute
/// that cannot be evaluated.
pub open spec fn schema_model(ir: IntermediateRepr, env: Seq<(Seq<char>, Seq<char>)>) -> Result<
    SchemaModel,
    IrErrorModel,
> {
    match enums_model(ir.enums@, env, ir.enums@.len()) {
        Err(e) => Err(e),
        Ok(enums) => match classes_model(ir.classes@, env, ir.classes@.len()) {
            Err(e) => Err(e),
            Ok(classes) => Ok(
                SchemaModel {
                    enums,
                    classes,
                    recursive_cycles: cycles_view(ir.finite_recursive_cycles@),
                },
            ),
        },
    }
}

/// Once a member has failed, the failure is that of every longer prefix.
proof fn lemma_members_failure_stays(
    members: Seq<(EnumValue, Option<String>)>,
    env: Seq<(Seq<char>, Seq<char>)>,
    n: nat,
    m: nat,
)
    requires
        n <= m <= members.len(),
        members_model(members, env, n) is Err,
    ensures
        members_model(members, env, m) == members_model(members, env, n),
    decreases m - n,
{
    if n < m {
        lemma_members_failure_stays(members, env, n, (m - 1) as nat);
    }
}

/// Once an enum has failed, the failure is that of every longer prefix.
proof fn lemma_enums_failure_stays(
    enums: Seq<Enum>,
    env: Seq<(Seq<char>, Seq<char>)>,
    n: nat,
    m: nat,
)
    requires
        n <= m <= enums.len(),
        enums_model(enums, env, n) is Err,
    ensures
        enums_model(enums, env, m) == enums_model(enums, env, n),
    decreases m - n,
{
    if n < m {
        lemma_enums_failure_stays(enums, env, n, (m - 1) as nat);
    }
}

/// Once a field has failed, the failure is that of every longer prefix.
proof fn lemma_fields_failure_stays(
    fields: Seq<Field>,
    env: Seq<(Seq<char>, Seq<char>)>,
    n: nat,
    m: nat,
)
    requires
        n <= m <= fields.len(),
        fields_model(fields, env, n) is Err,
    ensures
        fields_model(fields, env, m) == fields_model(fields, env, n),
    decreases m - n,
{
    if n < m {
        lemma_fields_failure_stays(fields, env, n, (m - 1) as nat);
    }
}

/// Once a class has failed, the failure is that of every longer prefix.
proof fn lemma_classes_failure_stays(
    classes: Seq<Class>,
    env: Seq<(Seq<char>, Seq<char>)>,
    n: nat,
    m: nat,
)
    requires
        n <= m <= classes.len(),
        classes_model(classes, env, n) is Err,
    ensures
        classes_model(classes, env, m) == classes_model(classes, env, n),
    decreases m - n,
{
    if n < m {
        lemma_classes_failure_stays(classes, env, n, (m - 1) as nat);
    }
}

/// The views of a sequence of member descriptors.
pub open spec fn members_view(members: Seq<EnumValueDescriptor>) -> Seq<EnumValueModel> {
    Seq::new(members.len(), |i: int| members[i]@)
}

/// The views of a sequence of field descriptors.
pub open spec fn fields_view(fields: Seq<FieldDescriptor>) -> Seq<FieldModel> {
    Seq::new(fields.len(), |i: int| fields[i]@)
}

/// The views of a sequence of enum descriptors.
pub open spec fn enums_view(enums: Seq<EnumDescriptor>) -> Seq<EnumModel> {
    Seq::new(enums.len(), |i: int| enums[i]@)
}

/// The views of a sequence of class descriptors.
pub open spec fn classes_view(classes: Seq<ClassDescriptor>) -> Seq<ClassModel> {
    Seq::new(classes.len(), |i: int| classes[i]@)
}

/// Describes one enum member.
fn describe_member(member: &Walker<&EnumValue>, env_values: &EnvValues) -> (r: Result<
    EnumValueDescriptor,
    IrError,
>)
    ensures
        match r {
            Ok(d) => member_model(*member.item, env_values@) == Ok::<EnumValueModel, IrErrorModel>(
                d@,
            ),
            Err(e) => member_model(*member.item, env_values@) == Err::<
                EnumValueModel,
                IrErrorModel,
            >(e@),
        },
{
    let skip = match member.skip(env_values) {
        Ok(skip) => skip,
        Err(e) => {
            return Err(e);
        },
    };
    let alias = match member.alias(env_values) {
        Ok(alias) => alias,
        Err(e) => {
            return Err(e);
        },
    };
    let description = match member.description(env_values) {
        Ok(description) => description,
        Err(e) => {
            return Err(e);
        },
    };
    Ok(
        EnumValueDescriptor {
            name: Name { name: String::from_str(member.name()), alias },
            description,
            skip,
        },
    )
}

/// Describes one enum.
fn describe_enum(walker: &Walker<&Enum>, env_values: &EnvValues) -> (r: Result<
    EnumDescriptor,
    IrError,
>)
    ensures
        match r {
            Ok(d) => enum_model(*walker.item, env_values@) == Ok::<EnumModel, IrErrorModel>(d@),
            Err(e) => enum_model(*walker.item, env_values@) == Err::<EnumModel, IrErrorModel>(e@),
        },
{
    let alias = match walker.alias(env_values) {
        Ok(alias) => alias,
        Err(e) => {
            return Err(e);
        },
    };
    let members = walker.walk_values();
    let ghost declared = walker.item.elem.values@;
    let mut values: Vec<EnumValueDescriptor> = Vec::new();
    let mut i: usize = 0;
    assert(members_view(values@) =~= Seq::empty());
    while i < members.len()
        invariant
            i <= members.len() == declared.len(),
            declared == walker.item.elem.values@,
            attribute_text(walker.item.attributes.meta, "alias"@, env_values@) is Ok,
            forall|k: int| 0 <= k < members@.len() ==> (#[trigger] members@[k]).item == &declared[k].0,
            Ok::<Seq<EnumValueModel>, IrErrorModel>(members_view(values@)) == members_model(
                declared,
                env_values@,
                i as nat,
            ),
        decreases members.len() - i,
    {
        assert(members@[i as int].item == &declared[i as int].0);
        match describe_member(&members[i], env_values) {
            Ok(d) => {
                let ghost before = values@;
                values.push(d);
                assert(members_view(values@) =~= members_view(before).push(d@));
            },
            Err(e) => {
                proof {
                    lemma_members_failure_stays(
                        declared,
                        env_values@,
                        (i + 1) as nat,
                        declared.len(),
                    );
                }
                return Err(e);
            },
        }
        i += 1;
    }
    let d = EnumDescriptor { name: Name { name: String::from_str(walker.name()), alias }, values };
    assert(d@.values =~= members_view(d.values@));
    Ok(d)
}

/// Describes one field.
fn describe_field(field: &Walker<&Field>, env_values: &EnvValues) -> (r: Result<
    FieldDescriptor,
    IrError,
>)
    ensures
        match r {
            Ok(d) => field_model(*field.item, env_values@) == Ok::<FieldModel, IrErrorModel>(d@),
            Err(e) => field_model(*field.item, env_values@) == Err::<FieldModel, IrErrorModel>(e@),
        },
{
    let alias = match field.alias(env_values) {
        Ok(alias) => alias,
        Err(e) => {
            return Err(e);
        },
    };
    let description = match field.description(env_values) {
        Ok(description) => description,
        Err(e) => {
            return Err(e);
        },
    };
    Ok(
        FieldDescriptor {
            name: Name { name: String::from_str(field.name()), alias },
            field_type: field.field_type().clone(),
            description,
        },
    )
}

/// Describes one class.
fn describe_class(walker: &Walker<&Class>, env_values: &EnvValues) -> (r: Result<
    ClassDescriptor,
    IrError,
>)
    ensures
        match r {
            Ok(d) => class_model(*walker.item, env_values@) == Ok::<ClassModel, IrErrorModel>(d@),
            Err(e) => class_model(*walker.item, env_values@) == Err::<ClassModel, IrErrorModel>(
                e@,
            ),
        },
{
    let alias = match walker.alias(env_values) {
        Ok(alias) => alias,
        Err(e) => {
            return Err(e);
        },
    };
    let walkers = walker.walk_fields();
    let ghost declared = walker.item.elem.static_fields@;
    let mut fields: Vec<FieldDescriptor> = Vec::new();
    let mut i: usize = 0;
    assert(fields_view(fields@) =~= Seq::empty());
    while i < walkers.len()
        invariant
            i <= walkers.len() == declared.len(),
            declared == walker.item.elem.static_fields@,
            attribute_text(walker.item.attributes.meta, "alias"@, env_values@) is Ok,
            forall|k: int| 0 <= k < walkers@.len() ==> (#[trigger] walkers@[k]).item == &declared[k],
            Ok::<Seq<FieldModel>, IrErrorModel>(fields_view(fields@)) == fields_model(
                declared,
                env_values@,
                i as nat,
            ),
        decreases walkers.len() - i,
    {
        assert(walkers@[i as int].item == &declared[i as int]);
        match describe_field(&walkers[i], env_values) {
            Ok(d) => {
                let ghost before = fields@;
                fields.push(d);
                assert(fields_view(fields@) =~= fields_view(before).push(d@));
            },
            Err(e) => {
                proof {
                    lemma_fields_failure_stays(
                        declared,
                        env_values@,
                        (i + 1) as nat,
                        declared.len(),
                    );
                }
                return Err(e);
            },
        }
        i += 1;
    }
    let d = ClassDescriptor { name: Name { name: String::from_str(walker.name()), alias }, fields };
    assert(d@.fields =~= fields_view(d.fields@));
    Ok(d)
}

/// The mathematical value of the result of making a schema.
pub open spec fn schema_result_view(r: Result<Schema, IrError>) -> Result<
    SchemaModel,
    IrErrorModel,
> {
    match r {
        Ok(schema) => Ok(schema@),
        Err(e) => Err(e@),
    }
}

impl IntermediateRepr {
    /// The schema that coercion consults for this representation, with the
    /// attributes of its items evaluated in the given environment: every
    /// enum with its members, then every class with its fields, each in
    /// declaration order, and the groups of classes that refer to each
    /// other. Fails with the first attribute that cannot be evaluated.
    pub fn to_schema(&self, env_values: &EnvValues) -> (r: Result<Schema, IrError>)
        ensures
            schema_result_view(r) == schema_model(*self, env_values@),
    {
        let enum_walkers = self.walk_enums();
        let mut enums: Vec<EnumDescriptor> = Vec::new();
        let mut i: usize = 0;
        assert(enums_view(enums@) =~= Seq::empty());
        while i < enum_walkers.len()
            invariant
                i <= enum_walkers.len() == self.enums@.len(),
                forall|k: int|
                    0 <= k < enum_walkers@.len() ==> (#[trigger] enum_walkers@[k]).item
                        == &self.enums@[k],
                Ok::<Seq<EnumModel>, IrErrorModel>(enums_view(enums@)) == enums_model(
                    self.enums@,
                    env_values@,
                    i as nat,
                ),
            decreases enum_walkers.len() - i,
        {
            assert(enum_walkers@[i as int].item == &self.enums@[i as int]);
            match describe_enum(&enum_walkers[i], env_values) {
                Ok(d) => {
                    let ghost before = enums@;
                    enums.push(d);
                    assert(enums_view(enums@) =~= enums_view(before).push(d@));
                },
                Err(e) => {
                    proof {
                        lemma_enums_failure_stays(
                            self.enums@,
                            env_values@,
                            (i + 1) as nat,
                            self.enums@.len(),
                        );
                    }
                    return Err(e);
                },
            }
            i += 1;
        }
        let class_walkers = self.walk_classes();
        let mut classes: Vec<ClassDescriptor> = Vec::new();
        let mut j: usize = 0;
        assert(classes_view(classes@) =~= Seq::empty());
        while j < class_walkers.len()
            invariant
                j <= class_walkers.len() == self.classes@.len(),
                enums_model(self.enums@, env_values@, self.enums@.len()) is Ok,
                forall|k: int|
                    0 <= k < class_walkers@.len() ==> (#[trigger] class_walkers@[k]).item
                        == &self.classes@[k],
                Ok::<Seq<ClassModel>, IrErrorModel>(classes_view(classes@)) == classes_model(
                    self.classes@,
                    env_values@,
                    j as nat,
                ),
            decreases class_walkers.len() - j,
        {
            assert(class_walkers@[j as int].item == &self.classes@[j as int]);
            match describe_class(&class_walkers[j], env_values) {
                Ok(d) => {
                    let ghost before = classes@;
                    classes.push(d);
                    assert(classes_view(classes@) =~= classes_view(before).push(d@));
                },
                Err(e) => {
                    proof {
                        lemma_classes_failure_stays(
                            self.classes@,
                            env_values@,
                            (j + 1) as nat,
                            self.classes@.len(),
                        );
                    }
                    return Err(e);
                },
            }
            j += 1;
        }
        let mut cycles: Vec<Vec<String>> = Vec::new();
        let mut k: usize = 0;
        while k < self.finite_recursive_cycles.len()
            invariant
                k <= self.finite_recursive_cycles.len(),
                cycles@.len() == k,
                forall|c: int|
                    0 <= c < k ==> (#[trigger] cycles@[c])@ == self.finite_recursive_cycles@[c]@,
            decreases self.finite_recursive_cycles.len() - k,
        {
            cycles.push(clone_strings(&self.finite_recursive_cycles[k]));
            k += 1;
        }
        let schema = Schema { enums, classes, recursive_cycles: cycles };
        assert(schema@.enums =~= enums_view(schema.enums@));
        assert(schema@.classes =~= classes_view(schema.classes@));
        assert(schema@.recursive_cycles =~= cycles_view(self.finite_recursive_cycles@)) by {
            assert forall|c: int| 0 <= c < cycles@.len() implies cycles_view(cycles@)[c]
                == cycles_view(self.finite_recursive_cycles@)[c] by {
                assert(cycles@[c]@ == self.finite_recursive_cycles@[c]@);
            }
        }
        Ok(schema)
    }
}

} // verus!
