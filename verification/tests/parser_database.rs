use jsonish::field_type::{Constraint, ConstraintLevel, FieldType, TypeValue};
use jsonish::ir::repr::Expression;
use jsonish::parser_database::attributes::{
    resolve_attributes, resolve_type_exp_block_attributes, Attributes, StringId, SubType, Types,
    VisitedBlock, VisitedTop,
};
use jsonish::parser_database::walkers::{ParserDatabase, TypeAlias, TypeAliasId};

fn aliased(id: usize) -> Attributes {
    let mut attributes = Attributes::default();
    attributes.add_alias(StringId(id));
    attributes
}

#[test]
fn attributes_start_empty_and_are_set_one_by_one() {
    let mut attributes = Attributes::default();
    assert!(attributes.description().is_none());
    assert_eq!(attributes.alias(), &None);
    assert_eq!(attributes.dynamic_type(), &None);
    assert_eq!(attributes.skip(), &None);
    assert!(attributes.constraints.is_empty());
    attributes.add_alias(StringId(3));
    assert_eq!(attributes.alias(), &Some(StringId(3)));
    assert_eq!(attributes.skip(), &None);
    attributes.add_alias(StringId(4));
    assert_eq!(attributes.alias(), &Some(StringId(4)));
    attributes.set_skip();
    assert_eq!(attributes.skip(), &Some(true));
    assert_eq!(attributes.dynamic_type(), &None);
    attributes.set_dynamic_type();
    assert_eq!(attributes.dynamic_type(), &Some(true));
    attributes.add_description(Expression::String("first".to_string()));
    attributes.add_description(Expression::RawString("second".to_string()));
    assert_eq!(attributes.description(), &Some(Expression::RawString("second".to_string())));
    assert_eq!(attributes.alias(), &Some(StringId(4)));
    attributes.constraints.push(Constraint {
        level: ConstraintLevel::Check,
        expression: "this".to_string(),
        label: None,
    });
    attributes.set_skip();
    assert_eq!(attributes.constraints.len(), 1);
}

#[test]
fn a_class_block_is_recorded_among_the_classes() {
    let mut types = Types::new();
    let visited = VisitedBlock {
        fields: vec![None, Some(aliased(1)), None, Some(aliased(3))],
        block: Some(aliased(9)),
    };
    resolve_type_exp_block_attributes(5, visited, &mut types, SubType::Class);
    assert!(types.enum_attributes.is_empty());
    assert_eq!(types.class_attributes.len(), 1);
    let class = &types.class_attributes[&5];
    let mut positions: Vec<usize> = class.field_serilizers.keys().copied().collect();
    positions.sort();
    assert_eq!(positions, vec![1, 3]);
    assert_eq!(class.field_serilizers[&1].alias, Some(StringId(1)));
    assert_eq!(class.field_serilizers[&3].alias, Some(StringId(3)));
    assert_eq!(class.serilizer.as_ref().map(|a| a.alias), Some(Some(StringId(9))));
}

#[test]
fn an_enum_block_is_recorded_among_the_enums() {
    let mut types = Types::new();
    let visited = VisitedBlock { fields: vec![Some(aliased(0))], block: None };
    resolve_type_exp_block_attributes(2, visited, &mut types, SubType::Enum);
    assert!(types.class_attributes.is_empty());
    let e = &types.enum_attributes[&2];
    assert_eq!(e.value_serilizers.len(), 1);
    assert_eq!(e.value_serilizers[&0].alias, Some(StringId(0)));
    assert!(e.serilizer.is_none());
    // Recording again under the same position replaces what was there.
    let again = VisitedBlock { fields: vec![None, None], block: Some(aliased(7)) };
    resolve_type_exp_block_attributes(2, again, &mut types, SubType::Enum);
    assert_eq!(types.enum_attributes.len(), 1);
    assert!(types.enum_attributes[&2].value_serilizers.is_empty());
    assert!(types.enum_attributes[&2].serilizer.is_some());
}

#[test]
fn a_block_of_another_kind_records_nothing() {
    let mut types = Types::new();
    let visited = VisitedBlock { fields: vec![Some(aliased(0))], block: Some(aliased(1)) };
    resolve_type_exp_block_attributes(0, visited, &mut types, SubType::Other);
    assert!(types.class_attributes.is_empty());
    assert!(types.enum_attributes.is_empty());
}

#[test]
fn every_top_is_recorded_under_its_position() {
    let mut types = Types::new();
    let block = |ids: Vec<usize>| VisitedBlock {
        fields: ids.into_iter().map(|id| Some(aliased(id))).collect(),
        block: None,
    };
    let tops = vec![
        VisitedTop::Class(block(vec![10])),
        VisitedTop::Other,
        VisitedTop::Enum(block(vec![20, 21])),
        VisitedTop::Class(block(vec![])),
        VisitedTop::Other,
    ];
    resolve_attributes(tops, &mut types);
    let mut classes: Vec<usize> = types.class_attributes.keys().copied().collect();
    classes.sort();
    assert_eq!(classes, vec![0, 3]);
    let enums: Vec<usize> = types.enum_attributes.keys().copied().collect();
    assert_eq!(enums, vec![2]);
    assert_eq!(types.class_attributes[&0].field_serilizers[&0].alias, Some(StringId(10)));
    assert_eq!(types.enum_attributes[&2].value_serilizers[&1].alias, Some(StringId(21)));
    assert!(types.class_attributes[&3].field_serilizers.is_empty());
    resolve_attributes(vec![], &mut types);
    assert_eq!(types.class_attributes.len(), 2);
}

fn database() -> ParserDatabase {
    ParserDatabase {
        aliases: vec![
            TypeAlias { name: "Ids".to_string(), value: FieldType::List(Box::new(FieldType::Primitive(TypeValue::Int))) },
            TypeAlias { name: "Graph".to_string(), value: FieldType::Class("Node".to_string()) },
        ],
        alias_targets: vec![vec![], vec!["Node".to_string()]],
        resolved_aliases: vec![vec![], vec!["Node".to_string(), "Edge".to_string()]],
    }
}

#[test]
fn a_type_alias_is_walked_by_its_position() {
    let db = database();
    let walker = db.walk_type_alias(TypeAliasId(1)).expect("there are two aliases");
    assert_eq!(walker.name(), "Graph");
    assert_eq!(walker.targets(), &vec!["Node".to_string()]);
    assert_eq!(walker.resolved(), &vec!["Node".to_string(), "Edge".to_string()]);
    assert_eq!(walker.ast_field_type(), &FieldType::Class("Node".to_string()));
    let first = db.walk_type_alias(TypeAliasId(0)).expect("there are two aliases");
    assert_eq!(first.name(), "Ids");
    assert!(first.targets().is_empty());
    assert!(first.resolved().is_empty());
    assert!(db.walk_type_alias(TypeAliasId(2)).is_none());
}
