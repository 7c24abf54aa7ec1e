//! The definitions that a schema document is made of.
//!
//! An extension of a type has the shape of the definition that it extends,
//! and is held as one; it has no description of its own.

use crate::common::{Directive, DirectiveModel, Type, TypeModel, Value, ValueModel};
use crate::content::Content;
use vstd::prelude::*;

verus! {

/// An argument of a field or of a directive, or a field of an input object.
#[derive(Debug)]
pub struct InputValue {
    /// The text that documents it, if any.
    pub description: Option<String>,
    /// The name of the argument or input field.
    pub name: String,
    /// The type of the values it takes.
    pub value_type: Type,
    /// The value it has when none is given.
    pub default_value: Option<Value>,
    /// The directives applied to it.
    pub directives: Vec<Directive>,
}

/// What an [`InputValue`] says, over mathematical strings and sequences.
pub struct InputValueModel {
    pub description: Option<Seq<char>>,
    pub name: Seq<char>,
    pub value_type: TypeModel,
    pub default_value: Option<ValueModel>,
    pub directives: Seq<DirectiveModel>,
}

impl DeepView for InputValue {
    type V = InputValueModel;

    open spec fn deep_view(&self) -> InputValueModel {
        InputValueModel {
            description: self.description.deep_view(),
            name: self.name.deep_view(),
            value_type: self.value_type.deep_view(),
            default_value: self.default_value.deep_view(),
            directives: self.directives.deep_view(),
        }
    }
}

impl Content for InputValue {
    fn same_content(&self, other: &Self) -> (same: bool) {
        self.description.same_content(&other.description)
            && self.name.same_content(&other.name)
            && self.value_type.same_content(&other.value_type)
            && self.default_value.same_content(&other.default_value)
            && self.directives.same_content(&other.directives)
    }

    fn duplicate(&self) -> (copy: Self) {
        InputValue {
            description: self.description.duplicate(),
            name: self.name.duplicate(),
            value_type: self.value_type.duplicate(),
            default_value: self.default_value.duplicate(),
            directives: self.directives.duplicate(),
        }
    }
}

/// A field of an object or of an interface.
#[derive(Debug)]
pub struct Field {
    /// The text that documents it, if any.
    pub description: Option<String>,
    /// The name of the field.
    pub name: String,
    /// The arguments the field takes.
    pub arguments: Vec<InputValue>,
    /// The type of the field.
    pub field_type: Type,
    /// The directives applied to it.
    pub directives: Vec<Directive>,
}

/// What a [`Field`] says, over mathematical strings and sequences.
pub struct FieldModel {
    pub description: Option<Seq<char>>,
    pub name: Seq<char>,
    pub arguments: Seq<InputValueModel>,
    pub field_type: TypeModel,
    pub directives: Seq<DirectiveModel>,
}

impl DeepView for Field {
    type V = FieldModel;

    open spec fn deep_view(&self) -> FieldModel {
        FieldModel {
            description: self.description.deep_view(),
            name: self.name.deep_view(),
            arguments: self.arguments.deep_view(),
            field_type: self.field_type.deep_view(),
            directives: self.directives.deep_view(),
        }
    }
}

impl Content for Field {
    fn same_content(&self, other: &Self) -> (same: bool) {
        self.description.same_content(&other.description)
            && self.name.same_content(&other.name)
            && self.arguments.same_content(&other.arguments)
            && self.field_type.same_content(&other.field_type)
            && self.directives.same_content(&other.directives)
    }

    fn duplicate(&self) -> (copy: Self) {
        Field {
            description: self.description.duplicate(),
            name: self.name.duplicate(),
            arguments: self.arguments.duplicate(),
            field_type: self.field_type.duplicate(),
            directives: self.directives.duplicate(),
        }
    }
}

/// One value of an enum.
#[derive(Debug)]
pub struct EnumValue {
    /// The text that documents it, if any.
    pub description: Option<String>,
    /// The name of the value.
    pub name: String,
    /// The directives applied to it.
    pub directives: Vec<Directive>,
}

/// What an [`EnumValue`] says, over mathematical strings and sequences.
pub struct EnumValueModel {
    pub description: Option<Seq<char>>,
    pub name: Seq<char>,
    pub directives: Seq<DirectiveModel>,
}

impl DeepView for EnumValue {
    type V = EnumValueModel;

    open spec fn deep_view(&self) -> EnumValueModel {
        EnumValueModel {
            description: self.description.deep_view(),
            name: self.name.deep_view(),
            directives: self.directives.deep_view(),
        }
    }
}

impl Content for EnumValue {
    fn same_content(&self, other: &Self) -> (same: bool) {
        self.description.same_content(&other.description)
            && self.name.same_content(&other.name)
            && self.directives.same_content(&other.directives)
    }

    fn duplicate(&self) -> (copy: Self) {
        EnumValue {
            description: self.description.duplicate(),
            name: self.name.duplicate(),
            directives: self.directives.duplicate(),
        }
    }
}

/// A place where a directive may be applied.
#[derive(Debug, Clone, Copy, PartialEq, Eq, Structural)]
pub enum DirectiveLocation {
    Query,
    Mutation,
    Subscription,
    Field,
    FragmentDefinition,
    FragmentSpread,
    InlineFragment,
    Schema,
    Scalar,
    Object,
    FieldDefinition,
    ArgumentDefinition,
    Interface,
    Union,
    Enum,
    EnumValue,
    InputObject,
    InputFieldDefinition,
    VariableDefinition,
}

impl DeepView for DirectiveLocation {
    type V = DirectiveLocation;

    open spec fn deep_view(&self) -> DirectiveLocation {
        *self
    }
}

impl Content for DirectiveLocation {
    fn same_content(&self, other: &Self) -> (same: bool) {
        *self == *other
    }

    fn duplicate(&self) -> (copy: Self) {
        *self
    }
}

/// The definition that names the root operation types.
#[derive(Debug)]
pub struct SchemaDefinition {
    /// The directives applied to it.
    pub directives: Vec<Directive>,
    /// The type of the query root.
    pub query: Option<String>,
    /// The type of the mutation root.
    pub mutation: Option<String>,
    /// The type of the subscription root.
    pub subscription: Option<String>,
}

/// What a [`SchemaDefinition`] says, over mathematical strings and sequences.
pub struct SchemaDefinitionModel {
    pub directives: Seq<DirectiveModel>,
    pub query: Option<Seq<char>>,
    pub mutation: Option<Seq<char>>,
    pub subscription: Option<Seq<char>>,
}

impl DeepView for SchemaDefinition {
    type V = SchemaDefinitionModel;

    open spec fn deep_view(&self) -> SchemaDefinitionModel {
        SchemaDefinitionModel {
            directives: self.directives.deep_view(),
            query: self.query.deep_view(),
            mutation: self.mutation.deep_view(),
            subscription: self.subscription.deep_view(),
        }
    }
}

impl Content for SchemaDefinition {
    fn same_content(&self, other: &Self) -> (same: bool) {
        self.directives.same_content(&other.directives)
            && self.query.same_content(&other.query)
            && self.mutation.same_content(&other.mutation)
            && self.subscription.same_content(&other.subscription)
    }

    fn duplicate(&self) -> (copy: Self) {
        SchemaDefinition {
            directives: self.directives.duplicate(),
            query: self.query.duplicate(),
            mutation: self.mutation.duplicate(),
            subscription: self.subscription.duplicate(),
        }
    }
}

/// A scalar.
#[derive(Debug)]
pub struct ScalarType {
    /// The text that documents it, if any.
    pub description: Option<String>,
    /// The name of the scalar.
    pub name: String,
    /// The directives applied to it.
    pub directives: Vec<Directive>,
}

/// What a [`ScalarType`] says, over mathematical strings and sequences.
pub struct ScalarTypeModel {
    pub description: Option<Seq<char>>,
    pub name: Seq<char>,
    pub directives: Seq<DirectiveModel>,
}

impl DeepView for ScalarType {
    type V = ScalarTypeModel;

    open spec fn deep_view(&self) -> ScalarTypeModel {
        ScalarTypeModel {
            description: self.description.deep_view(),
            name: self.name.deep_view(),
            directives: self.directives.deep_view(),
        }
    }
}

impl Content for ScalarType {
    fn same_content(&self, other: &Self) -> (same: bool) {
        self.description.same_content(&other.description)
            && self.name.same_content(&other.name)
            && self.directives.same_content(&other.directives)
    }

    fn duplicate(&self) -> (copy: Self) {
        ScalarType {
            description: self.description.duplicate(),
            name: self.name.duplicate(),
            directives: self.directives.duplicate(),
        }
    }
}

/// An object type.
#[derive(Debug)]
pub struct ObjectType {
    /// The text that documents it, if any.
    pub description: Option<String>,
    /// The name of the object type.
    pub name: String,
    /// The names of the interfaces it implements.
    pub implements_interfaces: Vec<String>,
    /// The directives applied to it.
    pub directives: Vec<Directive>,
    /// Its fields.
    pub fields: Vec<Field>,
}

/// What an [`ObjectType`] says, over mathematical strings and sequences.
pub struct ObjectTypeModel {
    pub description: Option<Seq<char>>,
    pub name: Seq<char>,
    pub implements_interfaces: Seq<Seq<char>>,
    pub directives: Seq<DirectiveModel>,
    pub fields: Seq<FieldModel>,
}

impl DeepView for ObjectType {
    type V = ObjectTypeModel;

    open spec fn deep_view(&self) -> ObjectTypeModel {
        ObjectTypeModel {
            description: self.description.deep_view(),
            name: self.name.deep_view(),
            implements_interfaces: self.implements_interfaces.deep_view(),
            directives: self.directives.deep_view(),
            fields: self.fields.deep_view(),
        }
    }
}

impl Content for ObjectType {
    fn same_content(&self, other: &Self) -> (same: bool) {
        self.description.same_content(&other.description)
            && self.name.same_content(&other.name)
            && self.implements_interfaces.same_content(&other.implements_interfaces)
            && self.directives.same_content(&other.directives)
            && self.fields.same_content(&other.fields)
    }

    fn duplicate(&self) -> (copy: Self) {
        ObjectType {
            description: self.description.duplicate(),
            name: self.name.duplicate(),
            implements_interfaces: self.implements_interfaces.duplicate(),
            directives: self.directives.duplicate(),
            fields: self.fields.duplicate(),
        }
    }
}

/// An interface.
#[derive(Debug)]
pub struct InterfaceType {
    /// The text that documents it, if any.
    pub description: Option<String>,
    /// The name of the interface.
    pub name: String,
    /// The names of the interfaces it implements.
    pub implements_interfaces: Vec<String>,
    /// The directives applied to it.
    pub directives: Vec<Directive>,
    /// Its fields.
    pub fields: Vec<Field>,
}

/// What an [`InterfaceType`] says, over mathematical strings and sequences.
pub struct InterfaceTypeModel {
    pub description: Option<Seq<char>>,
    pub name: Seq<char>,
    pub implements_interfaces: Seq<Seq<char>>,
    pub directives: Seq<DirectiveModel>,
    pub fields: Seq<FieldModel>,
}

impl DeepView for InterfaceType {
    type V = InterfaceTypeModel;

    open spec fn deep_view(&self) -> InterfaceTypeModel {
        InterfaceTypeModel {
            description: self.description.deep_view(),
            name: self.name.deep_view(),
            implements_interfaces: self.implements_interfaces.deep_view(),
            directives: self.directives.deep_view(),
            fields: self.fields.deep_view(),
        }
    }
}

impl Content for InterfaceType {
    fn same_content(&self, other: &Self) -> (same: bool) {
        self.description.same_content(&other.description)
            && self.name.same_content(&other.name)
            && self.implements_interfaces.same_content(&other.implements_interfaces)
            && self.directives.same_content(&other.directives)
            && self.fields.same_content(&other.fields)
    }

    fn duplicate(&self) -> (copy: Self) {
        InterfaceType {
            description: self.description.duplicate(),
            name: self.name.duplicate(),
            implements_interfaces: self.implements_interfaces.duplicate(),
            directives: self.directives.duplicate(),
            fields: self.fields.duplicate(),
        }
    }
}

/// A union of object types.
#[derive(Debug)]
pub struct UnionType {
    /// The text that documents it, if any.
    pub description: Option<String>,
    /// The name of the union.
    pub name: String,
    /// The directives applied to it.
    pub directives: Vec<Directive>,
    /// The names of the member types.
    pub types: Vec<String>,
}

/// What an [`UnionType`] says, over mathematical strings and sequences.
pub struct UnionTypeModel {
    pub description: Option<Seq<char>>,
    pub name: Seq<char>,
    pub directives: Seq<DirectiveModel>,
    pub types: Seq<Seq<char>>,
}

impl DeepView for UnionType {
    type V = UnionTypeModel;

    open spec fn deep_view(&self) -> UnionTypeModel {
        UnionTypeModel {
            description: self.description.deep_view(),
            name: self.name.deep_view(),
            directives: self.directives.deep_view(),
            types: self.types.deep_view(),
        }
    }
}

impl Content for UnionType {
    fn same_content(&self, other: &Self) -> (same: bool) {
        self.description.same_content(&other.description)
            && self.name.same_content(&other.name)
            && self.directives.same_content(&other.directives)
            && self.types.same_content(&other.types)
    }

    fn duplicate(&self) -> (copy: Self) {
        UnionType {
            description: self.description.duplicate(),
            name: self.name.duplicate(),
            directives: self.directives.duplicate(),
            types: self.types.duplicate(),
        }
    }
}

/// An enum.
#[derive(Debug)]
pub struct EnumType {
    /// The text that documents it, if any.
    pub description: Option<String>,
    /// The name of the enum.
    pub name: String,
    /// The directives applied to it.
    pub directives: Vec<Directive>,
    /// Its values.
    pub values: Vec<EnumValue>,
}

/// What an [`EnumType`] says, over mathematical strings and sequences.
pub struct EnumTypeModel {
    pub description: Option<Seq<char>>,
    pub name: Seq<char>,
    pub directives: Seq<DirectiveModel>,
    pub values: Seq<EnumValueModel>,
}

impl DeepView for EnumType {
    type V = EnumTypeModel;

    open spec fn deep_view(&self) -> EnumTypeModel {
        EnumTypeModel {
            description: self.description.deep_view(),
            name: self.name.deep_view(),
            directives: self.directives.deep_view(),
            values: self.values.deep_view(),
        }
    }
}

impl Content for EnumType {
    fn same_content(&self, other: &Self) -> (same: bool) {
        self.description.same_content(&other.description)
            && self.name.same_content(&other.name)
            && self.directives.same_content(&other.directives)
            && self.values.same_content(&other.values)
    }

    fn duplicate(&self) -> (copy: Self) {
        EnumType {
            description: self.description.duplicate(),
            name: self.name.duplicate(),
            directives: self.directives.duplicate(),
            values: self.values.duplicate(),
        }
    }
}

/// An input object type.
#[derive(Debug)]
pub struct InputObjectType {
    /// The text that documents it, if any.
    pub description: Option<String>,
    /// The name of the input object type.
    pub name: String,
    /// The directives applied to it.
    pub directives: Vec<Directive>,
    /// Its fields.
    pub fields: Vec<InputValue>,
}

/// What an [`InputObjectType`] says, over mathematical strings and sequences.
pub struct InputObjectTypeModel {
    pub description: Option<Seq<char>>,
    pub name: Seq<char>,
    pub directives: Seq<DirectiveModel>,
    pub fields: Seq<InputValueModel>,
}

impl DeepView for InputObjectType {
    type V = InputObjectTypeModel;

    open spec fn deep_view(&self) -> InputObjectTypeModel {
        InputObjectTypeModel {
            description: self.description.deep_view(),
            name: self.name.deep_view(),
            directives: self.directives.deep_view(),
            fields: self.fields.deep_view(),
        }
    }
}

impl Content for InputObjectType {
    fn same_content(&self, other: &Self) -> (same: bool) {
        self.description.same_content(&other.description)
            && self.name.same_content(&other.name)
            && self.directives.same_content(&other.directives)
            && self.fields.same_content(&other.fields)
    }

    fn duplicate(&self) -> (copy: Self) {
        InputObjectType {
            description: self.description.duplicate(),
            name: self.name.duplicate(),
            directives: self.directives.duplicate(),
            fields: self.fields.duplicate(),
        }
    }
}

/// The definition of a directive.
#[derive(Debug)]
pub struct DirectiveDefinition {
    /// The text that documents it, if any.
    pub description: Option<String>,
    /// The name of the directive.
    pub name: String,
    /// The arguments the directive takes.
    pub arguments: Vec<InputValue>,
    /// Whether it may be applied more than once in one place.
    pub repeatable: bool,
    /// The places where it may be applied.
    pub locations: Vec<DirectiveLocation>,
}

/// What a [`DirectiveDefinition`] says, over mathematical strings and sequences.
pub struct DirectiveDefinitionModel {
    pub description: Option<Seq<char>>,
    pub name: Seq<char>,
    pub arguments: Seq<InputValueModel>,
    pub repeatable: bool,
    pub locations: Seq<DirectiveLocation>,
}

impl DeepView for DirectiveDefinition {
    type V = DirectiveDefinitionModel;

    open spec fn deep_view(&self) -> DirectiveDefinitionModel {
        DirectiveDefinitionModel {
            description: self.description.deep_view(),
            name: self.name.deep_view(),
            arguments: self.arguments.deep_view(),
            repeatable: self.repeatable.deep_view(),
            locations: self.locations.deep_view(),
        }
    }
}

impl Content for DirectiveDefinition {
    fn same_content(&self, other: &Self) -> (same: bool) {
        self.description.same_content(&other.description)
            && self.name.same_content(&other.name)
            && self.arguments.same_content(&other.arguments)
            && self.repeatable.same_content(&other.repeatable)
            && self.locations.same_content(&other.locations)
    }

    fn duplicate(&self) -> (copy: Self) {
        DirectiveDefinition {
            description: self.description.duplicate(),
            name: self.name.duplicate(),
            arguments: self.arguments.duplicate(),
            repeatable: self.repeatable.duplicate(),
            locations: self.locations.duplicate(),
        }
    }
}

/// A type, by its kind.
#[derive(Debug)]
pub enum TypeDefinition {
    Scalar(ScalarType),
    Object(ObjectType),
    Interface(InterfaceType),
    Union(UnionType),
    Enum(EnumType),
    InputObject(InputObjectType),
}

/// What a [`TypeDefinition`] says, over mathematical strings and sequences.
pub enum TypeDefinitionModel {
    Scalar(ScalarTypeModel),
    Object(ObjectTypeModel),
    Interface(InterfaceTypeModel),
    Union(UnionTypeModel),
    Enum(EnumTypeModel),
    InputObject(InputObjectTypeModel),
}

impl TypeDefinitionModel {
    /// The name of the type.
    pub open spec fn name(self) -> Seq<char> {
        match self {
            TypeDefinitionModel::Scalar(inner) => inner.name,
            TypeDefinitionModel::Object(inner) => inner.name,
            TypeDefinitionModel::Interface(inner) => inner.name,
            TypeDefinitionModel::Union(inner) => inner.name,
            TypeDefinitionModel::Enum(inner) => inner.name,
            TypeDefinitionModel::InputObject(inner) => inner.name,
        }
    }
}

impl DeepView for TypeDefinition {
    type V = TypeDefinitionModel;

    open spec fn deep_view(&self) -> TypeDefinitionModel {
        match self {
            TypeDefinition::Scalar(inner) => TypeDefinitionModel::Scalar(inner.deep_view()),
            TypeDefinition::Object(inner) => TypeDefinitionModel::Object(inner.deep_view()),
            TypeDefinition::Interface(inner) => TypeDefinitionModel::Interface(inner.deep_view()),
            TypeDefinition::Union(inner) => TypeDefinitionModel::Union(inner.deep_view()),
            TypeDefinition::Enum(inner) => TypeDefinitionModel::Enum(inner.deep_view()),
            TypeDefinition::InputObject(inner) => TypeDefinitionModel::InputObject(
                inner.deep_view(),
            ),
        }
    }
}

impl Content for TypeDefinition {
    fn same_content(&self, other: &Self) -> (same: bool) {
        match (self, other) {
            (TypeDefinition::Scalar(left), TypeDefinition::Scalar(right)) => {
                left.same_content(right)
            },
            (TypeDefinition::Object(left), TypeDefinition::Object(right)) => {
                left.same_content(right)
            },
            (TypeDefinition::Interface(left), TypeDefinition::Interface(right)) => {
                left.same_content(right)
            },
            (TypeDefinition::Union(left), TypeDefinition::Union(right)) => left.same_content(right),
            (TypeDefinition::Enum(left), TypeDefinition::Enum(right)) => left.same_content(right),
            (TypeDefinition::InputObject(left), TypeDefinition::InputObject(right)) => {
                left.same_content(right)
            },
            _ => false,
        }
    }

    fn duplicate(&self) -> (copy: Self) {
        match self {
            TypeDefinition::Scalar(inner) => TypeDefinition::Scalar(inner.duplicate()),
            TypeDefinition::Object(inner) => TypeDefinition::Object(inner.duplicate()),
            TypeDefinition::Interface(inner) => TypeDefinition::Interface(inner.duplicate()),
            TypeDefinition::Union(inner) => TypeDefinition::Union(inner.duplicate()),
            TypeDefinition::Enum(inner) => TypeDefinition::Enum(inner.duplicate()),
            TypeDefinition::InputObject(inner) => TypeDefinition::InputObject(inner.duplicate()),
        }
    }
}

impl TypeDefinition {
    /// The name of the type.
    pub fn name(&self) -> (name: &String)
        ensures
            name@ == self.deep_view().name(),
    {
        match self {
            TypeDefinition::Scalar(inner) => &inner.name,
            TypeDefinition::Object(inner) => &inner.name,
            TypeDefinition::Interface(inner) => &inner.name,
            TypeDefinition::Union(inner) => &inner.name,
            TypeDefinition::Enum(inner) => &inner.name,
            TypeDefinition::InputObject(inner) => &inner.name,
        }
    }
}

/// A top-level definition of a schema document.
#[derive(Debug)]
pub enum Definition {
    /// The definition of the schema itself.
    SchemaDefinition(SchemaDefinition),
    /// The definition of a type.
    TypeDefinition(TypeDefinition),
    /// An extension of a type: what it adds, in the shape of a definition
    /// of that type.
    TypeExtension(TypeDefinition),
    /// The definition of a directive.
    DirectiveDefinition(DirectiveDefinition),
}

/// What a [`Definition`] says, over mathematical strings and sequences.
pub enum DefinitionModel {
    SchemaDefinition(SchemaDefinitionModel),
    TypeDefinition(TypeDefinitionModel),
    TypeExtension(TypeDefinitionModel),
    DirectiveDefinition(DirectiveDefinitionModel),
}

impl DefinitionModel {
    /// The name under which the definition is found; the definition of the
    /// schema has none.
    pub open spec fn name(self) -> Option<Seq<char>> {
        match self {
            DefinitionModel::SchemaDefinition(_) => None,
            DefinitionModel::TypeDefinition(inner) => Some(inner.name()),
            DefinitionModel::TypeExtension(inner) => Some(inner.name()),
            DefinitionModel::DirectiveDefinition(inner) => Some(inner.name),
        }
    }
}

impl DeepView for Definition {
    type V = DefinitionModel;

    open spec fn deep_view(&self) -> DefinitionModel {
        match self {
            Definition::SchemaDefinition(inner) => DefinitionModel::SchemaDefinition(
                inner.deep_view(),
            ),
            Definition::TypeDefinition(inner) => DefinitionModel::TypeDefinition(inner.deep_view()),
            Definition::TypeExtension(inner) => DefinitionModel::TypeExtension(inner.deep_view()),
            Definition::DirectiveDefinition(inner) => DefinitionModel::DirectiveDefinition(
                inner.deep_view(),
            ),
        }
    }
}

impl Content for Definition {
    fn same_content(&self, other: &Self) -> (same: bool) {
        match (self, other) {
            (Definition::SchemaDefinition(left), Definition::SchemaDefinition(right)) => {
                left.same_content(right)
            },
            (Definition::TypeDefinition(left), Definition::TypeDefinition(right)) => {
                left.same_content(right)
            },
            (Definition::TypeExtension(left), Definition::TypeExtension(right)) => {
                left.same_content(right)
            },
            (Definition::DirectiveDefinition(left), Definition::DirectiveDefinition(right)) => {
                left.same_content(right)
            },
            _ => false,
        }
    }

    fn duplicate(&self) -> (copy: Self) {
        match self {
            Definition::SchemaDefinition(inner) => Definition::SchemaDefinition(inner.duplicate()),
            Definition::TypeDefinition(inner) => Definition::TypeDefinition(inner.duplicate()),
            Definition::TypeExtension(inner) => Definition::TypeExtension(inner.duplicate()),
            Definition::DirectiveDefinition(inner) => Definition::DirectiveDefinition(
                inner.duplicate(),
            ),
        }
    }
}

impl Definition {
    /// The name under which the definition is found; the definition of the
    /// schema has none.
    pub fn name(&self) -> (name: Option<&String>)
        ensures
            name.deep_view() == self.deep_view().name(),
    {
        match self {
            Definition::SchemaDefinition(_) => None,
            Definition::TypeDefinition(inner) => Some(inner.name()),
            Definition::TypeExtension(inner) => Some(inner.name()),
            Definition::DirectiveDefinition(inner) => Some(&inner.name),
        }
    }
}

} // verus!
