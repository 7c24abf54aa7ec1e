use greem_build::combine::{
    combine_definition, combine_definitions, fold_definition, merge_types, CombinedDefinitions,
};
use greem_build::common::{Directive, Type, Value};
use greem_build::content::Content;
use greem_build::error::{CollidedDefinition, GreemBuildError, NameCollisionReason};
use greem_build::schema::{
    Definition, DirectiveDefinition, DirectiveLocation, EnumType, EnumValue, Field,
    InputObjectType, InputValue, InterfaceType, ObjectType, ScalarType, SchemaDefinition,
    TypeDefinition, UnionType,
};

fn named(name: &str) -> Type {
    Type::NamedType(name.to_string())
}

fn strings(values: &[&str]) -> Vec<String> {
    values.iter().map(|value| value.to_string()).collect()
}

fn field(name: &str, of: &str) -> Field {
    Field {
        description: None,
        name: name.to_string(),
        arguments: vec![],
        field_type: named(of),
        directives: vec![],
    }
}

fn input(name: &str, of: &str) -> InputValue {
    InputValue {
        description: None,
        name: name.to_string(),
        value_type: named(of),
        default_value: None,
        directives: vec![],
    }
}

fn value(name: &str) -> EnumValue {
    EnumValue { description: None, name: name.to_string(), directives: vec![] }
}

fn directive(name: &str, reason: &str) -> Directive {
    Directive {
        name: name.to_string(),
        arguments: vec![("reason".to_string(), Value::String(reason.to_string()))],
    }
}

fn schema(query: &str) -> Definition {
    Definition::SchemaDefinition(SchemaDefinition {
        directives: vec![],
        query: Some(query.to_string()),
        mutation: None,
        subscription: None,
    })
}

fn scalar_type(name: &str) -> ScalarType {
    ScalarType { description: None, name: name.to_string(), directives: vec![] }
}

fn scalar(name: &str) -> Definition {
    Definition::TypeDefinition(TypeDefinition::Scalar(scalar_type(name)))
}

fn object_type(name: &str, fields: Vec<Field>) -> ObjectType {
    ObjectType {
        description: None,
        name: name.to_string(),
        implements_interfaces: vec![],
        directives: vec![],
        fields,
    }
}

fn object(name: &str, fields: Vec<Field>) -> Definition {
    Definition::TypeDefinition(TypeDefinition::Object(object_type(name, fields)))
}

fn described_object(name: &str, description: &str) -> Definition {
    let mut inner = object_type(name, vec![]);
    inner.description = Some(description.to_string());
    Definition::TypeDefinition(TypeDefinition::Object(inner))
}

fn interface_type(name: &str, fields: Vec<Field>) -> InterfaceType {
    InterfaceType {
        description: None,
        name: name.to_string(),
        implements_interfaces: vec![],
        directives: vec![],
        fields,
    }
}

fn interface(name: &str, fields: Vec<Field>) -> Definition {
    Definition::TypeDefinition(TypeDefinition::Interface(interface_type(name, fields)))
}

fn union_type(name: &str, types: &[&str]) -> UnionType {
    UnionType {
        description: None,
        name: name.to_string(),
        directives: vec![],
        types: strings(types),
    }
}

fn union(name: &str, types: &[&str]) -> Definition {
    Definition::TypeDefinition(TypeDefinition::Union(union_type(name, types)))
}

fn enum_type(name: &str, values: &[&str]) -> EnumType {
    EnumType {
        description: None,
        name: name.to_string(),
        directives: vec![],
        values: values.iter().map(|name| value(name)).collect(),
    }
}

fn enumeration(name: &str, values: &[&str]) -> Definition {
    Definition::TypeDefinition(TypeDefinition::Enum(enum_type(name, values)))
}

fn input_object_type(name: &str, fields: Vec<InputValue>) -> InputObjectType {
    InputObjectType { description: None, name: name.to_string(), directives: vec![], fields }
}

fn input_object(name: &str, fields: Vec<InputValue>) -> Definition {
    Definition::TypeDefinition(TypeDefinition::InputObject(input_object_type(name, fields)))
}

fn directive_definition(name: &str) -> Definition {
    Definition::DirectiveDefinition(DirectiveDefinition {
        description: None,
        name: name.to_string(),
        arguments: vec![],
        repeatable: false,
        locations: vec![DirectiveLocation::FieldDefinition],
    })
}

fn extension(of: TypeDefinition) -> Definition {
    Definition::TypeExtension(of)
}

fn names(combined: &CombinedDefinitions) -> Vec<String> {
    combined.types.iter().map(|definition| definition.name().unwrap().clone()).collect()
}

fn field_names(fields: &[Field]) -> Vec<String> {
    fields.iter().map(|field| field.name.clone()).collect()
}

fn only_object(combined: &CombinedDefinitions) -> &ObjectType {
    assert_eq!(combined.types.len(), 1);
    match &combined.types[0] {
        Definition::TypeDefinition(TypeDefinition::Object(object)) => object,
        other => panic!("{:?}", other),
    }
}

fn is_duplicate_scalar(outcome: &Result<CombinedDefinitions, GreemBuildError>, name: &str) -> bool {
    matches!(
        outcome,
        Err(GreemBuildError::MultipleDefinitionFound(CollidedDefinition::Scalar(found)))
            if found == name
    )
}

fn is_collision(
    outcome: &Result<CombinedDefinitions, GreemBuildError>,
    name: &str,
    reason: NameCollisionReason,
) -> bool {
    matches!(
        outcome,
        Err(GreemBuildError::NameCollision(found, why)) if found == name && *why == reason
    )
}

#[test]
fn nothing_merges_into_nothing() {
    let combined = combine_definitions(Vec::new()).unwrap();
    assert!(combined.schema.is_none());
    assert!(combined.types.is_empty());
    let fresh = CombinedDefinitions::new();
    assert!(fresh.schema.is_none());
    assert!(fresh.types.is_empty());
}

#[test]
fn one_schema_definition_is_recorded() {
    let combined = combine_definitions(vec![scalar("Date"), schema("Query")]).unwrap();
    assert_eq!(combined.schema.as_ref().unwrap().query, Some("Query".to_string()));
    assert_eq!(names(&combined), strings(&["Date"]));
}

#[test]
fn a_second_schema_definition_is_a_duplicate() {
    let outcome = combine_definitions(vec![schema("Query"), scalar("Date"), schema("Query")]);
    assert!(matches!(
        outcome,
        Err(GreemBuildError::MultipleDefinitionFound(CollidedDefinition::Schema))
    ));
}

#[test]
fn a_scalar_defined_twice_is_a_duplicate_whatever_it_says() {
    let outcome = combine_definitions(vec![scalar("DateTime"), scalar("DateTime")]);
    assert!(is_duplicate_scalar(&outcome, "DateTime"));
    let mut described = scalar_type("DateTime");
    described.description = Some("a point in time".to_string());
    let outcome = combine_definitions(vec![
        scalar("DateTime"),
        Definition::TypeDefinition(TypeDefinition::Scalar(described)),
    ]);
    assert!(is_duplicate_scalar(&outcome, "DateTime"));
}

#[test]
fn a_scalar_under_a_name_that_is_taken_is_a_duplicate() {
    let outcome = combine_definitions(vec![object("Foo", vec![]), scalar("Foo")]);
    assert!(is_duplicate_scalar(&outcome, "Foo"));
    let outcome = combine_definitions(vec![directive_definition("Foo"), scalar("Foo")]);
    assert!(is_duplicate_scalar(&outcome, "Foo"));
}

#[test]
fn an_object_type_under_the_name_of_a_scalar_is_of_another_kind() {
    let outcome = combine_definitions(vec![scalar("Foo"), object("Foo", vec![])]);
    assert!(is_collision(&outcome, "Foo", NameCollisionReason::DifferentType));
}

#[test]
fn definitions_of_two_kinds_under_one_name_collide() {
    let kinds: Vec<fn() -> Definition> = vec![
        || object("Foo", vec![]),
        || interface("Foo", vec![]),
        || union("Foo", &[]),
        || enumeration("Foo", &[]),
        || input_object("Foo", vec![]),
    ];
    for (i, first) in kinds.iter().enumerate() {
        for (j, second) in kinds.iter().enumerate() {
            let outcome = combine_definitions(vec![first(), second()]);
            if i == j {
                assert!(outcome.is_ok());
            } else {
                assert!(is_collision(&outcome, "Foo", NameCollisionReason::DifferentType));
            }
        }
        let outcome = combine_definitions(vec![scalar("Foo"), first()]);
        assert!(is_collision(&outcome, "Foo", NameCollisionReason::DifferentType));
        let outcome = combine_definitions(vec![directive_definition("Foo"), first()]);
        assert!(is_collision(&outcome, "Foo", NameCollisionReason::DifferentType));
    }
}

#[test]
fn fields_of_two_definitions_of_an_object_type_come_together() {
    let combined = combine_definitions(vec![
        object("User", vec![field("id", "ID")]),
        object("User", vec![field("name", "String")]),
    ])
    .unwrap();
    let user = only_object(&combined);
    assert_eq!(user.name, "User");
    assert_eq!(field_names(&user.fields), strings(&["id", "name"]));
    assert!(user.fields[0].same_content(&field("id", "ID")));
    assert!(user.fields[1].same_content(&field("name", "String")));
}

#[test]
fn a_field_that_both_definitions_have_is_kept_once() {
    let combined = combine_definitions(vec![
        object("User", vec![field("id", "ID"), field("name", "String")]),
        object("User", vec![field("name", "String"), field("email", "String")]),
    ])
    .unwrap();
    assert_eq!(field_names(&only_object(&combined).fields), strings(&["id", "name", "email"]));
}

#[test]
fn an_object_type_merged_with_itself_stays_as_it_is() {
    let mut user = object_type("User", vec![field("id", "ID"), field("name", "String")]);
    user.implements_interfaces = strings(&["Node"]);
    user.directives = vec![directive("deprecated", "old")];
    let twice = vec![
        Definition::TypeDefinition(TypeDefinition::Object(user.duplicate())),
        Definition::TypeDefinition(TypeDefinition::Object(user.duplicate())),
    ];
    let combined = combine_definitions(twice).unwrap();
    assert!(only_object(&combined).same_content(&user));
}

#[test]
fn a_described_object_type_merged_with_itself_repeats_the_description() {
    let combined =
        combine_definitions(vec![described_object("User", "x"), described_object("User", "x")])
            .unwrap();
    assert_eq!(only_object(&combined).description, Some("x\nx".to_string()));
}

#[test]
fn a_field_with_another_content_is_a_collision_under_its_name() {
    let outcome = combine_definitions(vec![
        object("User", vec![field("id", "ID"), field("name", "String")]),
        object("User", vec![field("name", "Int")]),
    ]);
    assert!(is_collision(&outcome, "name", NameCollisionReason::DifferentContent));
}

#[test]
fn directives_are_looked_at_before_fields() {
    let mut first = object_type("User", vec![field("id", "ID")]);
    first.directives = vec![directive("deprecated", "old")];
    let mut second = object_type("User", vec![field("id", "Int")]);
    second.directives = vec![directive("deprecated", "new")];
    let outcome = combine_definitions(vec![
        Definition::TypeDefinition(TypeDefinition::Object(first)),
        Definition::TypeDefinition(TypeDefinition::Object(second)),
    ]);
    assert!(is_collision(&outcome, "deprecated", NameCollisionReason::DifferentContent));
}

#[test]
fn directives_and_interfaces_of_an_object_type_are_united() {
    let mut first = object_type("User", vec![]);
    first.implements_interfaces = strings(&["Node", "Entity"]);
    first.directives = vec![directive("deprecated", "old")];
    let mut second = object_type("User", vec![]);
    second.implements_interfaces = strings(&["Entity", "Named"]);
    second.directives = vec![directive("deprecated", "old"), directive("key", "id")];
    let combined = combine_definitions(vec![
        Definition::TypeDefinition(TypeDefinition::Object(first)),
        Definition::TypeDefinition(TypeDefinition::Object(second)),
    ])
    .unwrap();
    let user = only_object(&combined);
    assert_eq!(user.implements_interfaces, strings(&["Node", "Entity", "Named"]));
    assert_eq!(user.directives.len(), 2);
    assert!(user.directives[0].same_content(&directive("deprecated", "old")));
    assert!(user.directives[1].same_content(&directive("key", "id")));
}

#[test]
fn descriptions_are_joined_in_the_order_of_the_definitions() {
    let combined =
        combine_definitions(vec![described_object("User", "x"), described_object("User", "y")])
            .unwrap();
    assert_eq!(only_object(&combined).description, Some("x\ny".to_string()));
    let combined =
        combine_definitions(vec![described_object("User", "y"), described_object("User", "x")])
            .unwrap();
    assert_eq!(only_object(&combined).description, Some("y\nx".to_string()));
}

#[test]
fn a_description_is_taken_from_the_definition_that_has_one() {
    let combined =
        combine_definitions(vec![object("User", vec![]), described_object("User", "y")]).unwrap();
    assert_eq!(only_object(&combined).description, Some("y".to_string()));
    let combined =
        combine_definitions(vec![described_object("User", "x"), object("User", vec![])]).unwrap();
    assert_eq!(only_object(&combined).description, Some("x".to_string()));
    let combined =
        combine_definitions(vec![object("User", vec![]), object("User", vec![])]).unwrap();
    assert_eq!(only_object(&combined).description, None);
}

#[test]
fn interfaces_merge_like_object_types() {
    let combined = combine_definitions(vec![
        interface("Node", vec![field("id", "ID")]),
        interface("Node", vec![field("id", "ID"), field("created", "Date")]),
    ])
    .unwrap();
    match &combined.types[0] {
        Definition::TypeDefinition(TypeDefinition::Interface(node)) => {
            assert_eq!(field_names(&node.fields), strings(&["id", "created"]))
        }
        other => panic!("{:?}", other),
    }
    let outcome = combine_definitions(vec![
        interface("Node", vec![field("id", "ID")]),
        interface("Node", vec![field("id", "Int")]),
    ]);
    assert!(is_collision(&outcome, "id", NameCollisionReason::DifferentContent));
}

#[test]
fn member_types_of_a_union_are_united() {
    let combined = combine_definitions(vec![
        union("Pet", &["Cat", "Dog"]),
        union("Pet", &["Dog", "Bird"]),
    ])
    .unwrap();
    match &combined.types[0] {
        Definition::TypeDefinition(TypeDefinition::Union(pet)) => {
            assert_eq!(pet.types, strings(&["Cat", "Dog", "Bird"]))
        }
        other => panic!("{:?}", other),
    }
}

#[test]
fn values_of_an_enum_are_merged() {
    let combined = combine_definitions(vec![
        enumeration("Color", &["RED", "GREEN"]),
        enumeration("Color", &["GREEN", "BLUE"]),
    ])
    .unwrap();
    match &combined.types[0] {
        Definition::TypeDefinition(TypeDefinition::Enum(color)) => {
            let found: Vec<String> = color.values.iter().map(|value| value.name.clone()).collect();
            assert_eq!(found, strings(&["RED", "GREEN", "BLUE"]))
        }
        other => panic!("{:?}", other),
    }
    let mut described = enum_type("Color", &[]);
    described.values.push(EnumValue {
        description: Some("like blood".to_string()),
        name: "RED".to_string(),
        directives: vec![],
    });
    let outcome = combine_definitions(vec![
        enumeration("Color", &["RED"]),
        Definition::TypeDefinition(TypeDefinition::Enum(described)),
    ]);
    assert!(is_collision(&outcome, "RED", NameCollisionReason::DifferentContent));
}

#[test]
fn fields_of_an_input_object_type_are_merged() {
    let combined = combine_definitions(vec![
        input_object("Filter", vec![input("limit", "Int")]),
        input_object("Filter", vec![input("offset", "Int"), input("limit", "Int")]),
    ])
    .unwrap();
    match &combined.types[0] {
        Definition::TypeDefinition(TypeDefinition::InputObject(filter)) => {
            let found: Vec<String> = filter.fields.iter().map(|field| field.name.clone()).collect();
            assert_eq!(found, strings(&["limit", "offset"]))
        }
        other => panic!("{:?}", other),
    }
    let outcome = combine_definitions(vec![
        input_object("Filter", vec![input("limit", "Int")]),
        input_object("Filter", vec![input("limit", "Float")]),
    ]);
    assert!(is_collision(&outcome, "limit", NameCollisionReason::DifferentContent));
}

#[test]
fn a_directive_defined_twice_is_a_duplicate() {
    let outcome =
        combine_definitions(vec![directive_definition("auth"), directive_definition("auth")]);
    assert!(is_duplicate_scalar(&outcome, "auth"));
    let outcome = combine_definitions(vec![object("auth", vec![]), directive_definition("auth")]);
    assert!(is_duplicate_scalar(&outcome, "auth"));
    let combined =
        combine_definitions(vec![directive_definition("auth"), directive_definition("key")])
            .unwrap();
    assert_eq!(names(&combined), strings(&["auth", "key"]));
}

#[test]
fn an_extension_is_folded_into_the_definition_of_its_type() {
    let combined = combine_definitions(vec![
        described_object("User", "a user"),
        extension(TypeDefinition::Object(object_type("User", vec![field("name", "String")]))),
    ])
    .unwrap();
    let user = only_object(&combined);
    assert_eq!(user.description, Some("a user".to_string()));
    assert_eq!(field_names(&user.fields), strings(&["name"]));
}

#[test]
fn an_extension_of_a_scalar_adds_its_directives() {
    let mut more = scalar_type("Date");
    more.directives = vec![directive("format", "iso")];
    let combined =
        combine_definitions(vec![scalar("Date"), extension(TypeDefinition::Scalar(more))]).unwrap();
    match &combined.types[0] {
        Definition::TypeDefinition(TypeDefinition::Scalar(date)) => {
            assert_eq!(date.directives.len(), 1);
            assert!(date.directives[0].same_content(&directive("format", "iso")));
        }
        other => panic!("{:?}", other),
    }
}

#[test]
fn an_extension_under_a_new_name_is_kept_as_an_extension() {
    let combined = combine_definitions(vec![
        extension(TypeDefinition::Object(object_type("User", vec![field("id", "ID")]))),
        extension(TypeDefinition::Object(object_type("User", vec![field("name", "String")]))),
    ])
    .unwrap();
    assert_eq!(combined.types.len(), 1);
    match &combined.types[0] {
        Definition::TypeExtension(TypeDefinition::Object(user)) => {
            assert_eq!(field_names(&user.fields), strings(&["id", "name"]))
        }
        other => panic!("{:?}", other),
    }
}

#[test]
fn an_extension_does_not_fold_into_another_kind() {
    let outcome = combine_definitions(vec![
        interface("User", vec![]),
        extension(TypeDefinition::Object(object_type("User", vec![]))),
    ]);
    assert!(is_collision(&outcome, "User", NameCollisionReason::DifferentType));
    let outcome = combine_definitions(vec![
        directive_definition("User"),
        extension(TypeDefinition::Object(object_type("User", vec![]))),
    ]);
    assert!(is_collision(&outcome, "User", NameCollisionReason::DifferentType));
    let outcome = combine_definitions(vec![
        extension(TypeDefinition::Enum(enum_type("User", &[]))),
        extension(TypeDefinition::Object(object_type("User", vec![]))),
    ]);
    assert!(is_collision(&outcome, "User", NameCollisionReason::DifferentType));
}

#[test]
fn a_definition_does_not_fold_into_an_extension() {
    let outcome = combine_definitions(vec![
        extension(TypeDefinition::Object(object_type("User", vec![]))),
        object("User", vec![]),
    ]);
    assert!(is_collision(&outcome, "User", NameCollisionReason::DifferentType));
}

#[test]
fn the_first_conflict_ends_the_merge() {
    let outcome = combine_definitions(vec![
        object("User", vec![field("id", "ID")]),
        scalar("Date"),
        object("User", vec![field("id", "Int")]),
        scalar("Date"),
    ]);
    assert!(is_collision(&outcome, "id", NameCollisionReason::DifferentContent));
    let outcome = combine_definitions(vec![
        object("User", vec![field("id", "ID")]),
        scalar("Date"),
        scalar("Date"),
        object("User", vec![field("id", "Int")]),
    ]);
    assert!(is_duplicate_scalar(&outcome, "Date"));
}

#[test]
fn names_stay_in_the_order_in_which_they_were_first_seen() {
    let combined = combine_definitions(vec![
        object("User", vec![field("id", "ID")]),
        scalar("Date"),
        enumeration("Color", &["RED"]),
        object("User", vec![field("name", "String")]),
        directive_definition("auth"),
        enumeration("Color", &["BLUE"]),
    ])
    .unwrap();
    assert_eq!(names(&combined), strings(&["User", "Date", "Color", "auth"]));
}

#[test]
fn the_same_definitions_give_the_same_result() {
    let input = || {
        vec![
            schema("Query"),
            described_object("User", "x"),
            object("User", vec![field("id", "ID")]),
            union("Pet", &["Cat"]),
            described_object("User", "y"),
            union("Pet", &["Dog"]),
        ]
    };
    let first = combine_definitions(input()).unwrap();
    let second = combine_definitions(input()).unwrap();
    assert!(first.same_content(&second));
    assert!(first.duplicate().same_content(&first));
    assert!(!first.same_content(&CombinedDefinitions::new()));
    let failing = || vec![scalar("Date"), object("User", vec![]), scalar("Date"), scalar("User")];
    assert!(is_duplicate_scalar(&combine_definitions(failing()), "Date"));
    assert!(is_duplicate_scalar(&combine_definitions(failing()), "Date"));
}

#[test]
fn a_conflict_leaves_what_was_combined_as_it_was() {
    let mut combined = CombinedDefinitions::new();
    combine_definition(&mut combined, &object("User", vec![field("id", "ID")])).unwrap();
    combine_definition(&mut combined, &schema("Query")).unwrap();
    let before = combine_definitions(vec![object("User", vec![field("id", "ID")]), schema("Query")])
        .unwrap();
    assert!(combine_definition(&mut combined, &object("User", vec![field("id", "Int")])).is_err());
    assert!(combine_definition(&mut combined, &schema("Root")).is_err());
    assert!(combined.same_content(&before));
    combine_definition(&mut combined, &object("User", vec![field("name", "String")])).unwrap();
    assert_eq!(field_names(&only_object(&combined).fields), strings(&["id", "name"]));
}

#[test]
fn folding_keeps_the_kind_of_what_was_there() {
    let definition = object("User", vec![field("id", "ID")]);
    let more =
        extension(TypeDefinition::Object(object_type("User", vec![field("name", "String")])));
    assert!(matches!(fold_definition(&definition, &more), Ok(Definition::TypeDefinition(_))));
    assert!(matches!(fold_definition(&more, &more), Ok(Definition::TypeExtension(_))));
    assert!(matches!(
        fold_definition(&definition, &schema("Query")),
        Err(GreemBuildError::MultipleDefinitionFound(CollidedDefinition::Schema))
    ));
}

#[test]
fn types_of_two_kinds_do_not_merge() {
    let outcome = merge_types(
        &TypeDefinition::Union(union_type("Pet", &["Cat"])),
        &TypeDefinition::Enum(enum_type("Pet", &["CAT"])),
    );
    assert!(matches!(
        outcome,
        Err(GreemBuildError::NameCollision(ref name, NameCollisionReason::DifferentType))
            if name == "Pet"
    ));
    let outcome = merge_types(
        &TypeDefinition::Scalar(scalar_type("Date")),
        &TypeDefinition::Scalar(scalar_type("Date")),
    );
    assert!(matches!(outcome, Ok(TypeDefinition::Scalar(_))));
}
