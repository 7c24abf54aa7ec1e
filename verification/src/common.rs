//! The parts that every kind of definition is built from: values, type
//! references and directives.

use crate::content::Content;
use vstd::prelude::*;

verus! {

/// A value as it is written for an argument or a default.
#[derive(Debug)]
pub enum Value {
    Variable(String),
    Int(i64),
    /// A floating-point number, held as its IEEE 754 bit pattern.
    Float(u64),
    String(String),
    Boolean(bool),
    Null,
    Enum(String),
    List(Vec<Value>),
    /// The fields of an input object, in the order of their keys.
    Object(Vec<(String, Value)>),
}

/// What a [`Value`] says, over mathematical strings and sequences.
pub enum ValueModel {
    Variable(Seq<char>),
    Int(i64),
    Float(u64),
    String(Seq<char>),
    Boolean(bool),
    Null,
    Enum(Seq<char>),
    List(Seq<ValueModel>),
    Object(Seq<(Seq<char>, ValueModel)>),
}

/// The model of a value; the models of its parts, in their order, for a
/// list or an object.
pub open spec fn value_model(value: Value) -> ValueModel
    decreases value,
{
    match value {
        Value::Variable(name) => ValueModel::Variable(name@),
        Value::Int(number) => ValueModel::Int(number),
        Value::Float(bits) => ValueModel::Float(bits),
        Value::String(text) => ValueModel::String(text@),
        Value::Boolean(truth) => ValueModel::Boolean(truth),
        Value::Null => ValueModel::Null,
        Value::Enum(name) => ValueModel::Enum(name@),
        Value::List(items) => ValueModel::List(
            Seq::new(
                items@.len(),
                |i: int|
                    if 0 <= i < items@.len() {
                        value_model(items@[i])
                    } else {
                        ValueModel::Null
                    },
            ),
        ),
        Value::Object(fields) => ValueModel::Object(
            Seq::new(
                fields@.len(),
                |i: int|
                    if 0 <= i < fields@.len() {
                        (fields@[i].0@, value_model(fields@[i].1))
                    } else {
                        (Seq::empty(), ValueModel::Null)
                    },
            ),
        ),
    }
}

impl DeepView for Value {
    type V = ValueModel;

    open spec fn deep_view(&self) -> ValueModel {
        value_model(*self)
    }
}

/// The model of a list value is made of the deep views of its items.
pub proof fn lemma_list_model(items: Vec<Value>)
    ensures
        Value::List(items).deep_view() == ValueModel::List(items.deep_view()),
{
    assert(Value::List(items).deep_view()->List_0 =~= items.deep_view());
}

/// The model of an object value is made of the deep views of its fields.
pub proof fn lemma_object_model(fields: Vec<(String, Value)>)
    ensures
        Value::Object(fields).deep_view() == ValueModel::Object(fields.deep_view()),
{
    assert(Value::Object(fields).deep_view()->Object_0 =~= fields.deep_view());
}

impl Content for Value {
    fn same_content(&self, other: &Self) -> (same: bool)
        decreases self,
    {
        match (self, other) {
            (Value::Variable(left), Value::Variable(right)) => left.same_content(right),
            (Value::Int(left), Value::Int(right)) => *left == *right,
            (Value::Float(left), Value::Float(right)) => *left == *right,
            (Value::String(left), Value::String(right)) => left.same_content(right),
            (Value::Boolean(left), Value::Boolean(right)) => *left == *right,
            (Value::Null, Value::Null) => true,
            (Value::Enum(left), Value::Enum(right)) => left.same_content(right),
            (Value::List(left), Value::List(right)) => {
                proof {
                    lemma_list_model(*left);
                    lemma_list_model(*right);
                }
                if left.len() != right.len() {
                    assert(left.deep_view().len() != right.deep_view().len());
                    return false;
                }
                let mut i: usize = 0;
                while i < left.len()
                    invariant
                        i <= left.len(),
                        left.len() == right.len(),
                        self.deep_view() == ValueModel::List(left.deep_view()),
                        other.deep_view() == ValueModel::List(right.deep_view()),
                        forall|k: int| 0 <= k < i ==> left@[k].deep_view() == right@[k].deep_view(),
                        forall|k: int| 0 <= k < left.len() ==> decreases_to!(self => left@[k]),
                    decreases left.len() - i,
                {
                    if !left[i].same_content(&right[i]) {
                        assert(left.deep_view()[i as int] != right.deep_view()[i as int]);
                        return false;
                    }
                    i += 1;
                }
                assert(left.deep_view() =~= right.deep_view());
                true
            },
            (Value::Object(left), Value::Object(right)) => {
                proof {
                    lemma_object_model(*left);
                    lemma_object_model(*right);
                }
                if left.len() != right.len() {
                    assert(left.deep_view().len() != right.deep_view().len());
                    return false;
                }
                let mut i: usize = 0;
                while i < left.len()
                    invariant
                        i <= left.len(),
                        left.len() == right.len(),
                        self.deep_view() == ValueModel::Object(left.deep_view()),
                        other.deep_view() == ValueModel::Object(right.deep_view()),
                        forall|k: int| 0 <= k < i ==> left@[k].deep_view() == right@[k].deep_view(),
                        forall|k: int| 0 <= k < left.len() ==> decreases_to!(self => left@[k].1),
                    decreases left.len() - i,
                {
                    if !left[i].0.same_content(&right[i].0) || !left[i].1.same_content(
                        &right[i].1,
                    ) {
                        assert(left.deep_view()[i as int] != right.deep_view()[i as int]);
                        return false;
                    }
                    i += 1;
                }
                assert(left.deep_view() =~= right.deep_view());
                true
            },
            _ => false,
        }
    }

    fn duplicate(&self) -> (copy: Self)
        decreases self,
    {
        match self {
            Value::Variable(name) => Value::Variable(name.duplicate()),
            Value::Int(number) => Value::Int(*number),
            Value::Float(bits) => Value::Float(*bits),
            Value::String(text) => Value::String(text.duplicate()),
            Value::Boolean(truth) => Value::Boolean(*truth),
            Value::Null => Value::Null,
            Value::Enum(name) => Value::Enum(name.duplicate()),
            Value::List(items) => {
                let mut copy: Vec<Value> = Vec::new();
                let mut i: usize = 0;
                while i < items.len()
                    invariant
                        i <= items.len(),
                        copy.len() == i,
                        forall|k: int| 0 <= k < i ==> copy@[k].deep_view() == items@[k].deep_view(),
                        forall|k: int| 0 <= k < items.len() ==> decreases_to!(self => items@[k]),
                    decreases items.len() - i,
                {
                    copy.push(items[i].duplicate());
                    i += 1;
                }
                proof {
                    lemma_list_model(*items);
                    lemma_list_model(copy);
                    assert(copy.deep_view() =~= items.deep_view());
                }
                Value::List(copy)
            },
            Value::Object(fields) => {
                let mut copy: Vec<(String, Value)> = Vec::new();
                let mut i: usize = 0;
                while i < fields.len()
                    invariant
                        i <= fields.len(),
                        copy.len() == i,
                        forall|k: int|
                            0 <= k < i ==> copy@[k].deep_view() == fields@[k].deep_view(),
                        forall|k: int|
                            0 <= k < fields.len() ==> decreases_to!(self => fields@[k].1),
                    decreases fields.len() - i,
                {
                    copy.push((fields[i].0.duplicate(), fields[i].1.duplicate()));
                    i += 1;
                }
                proof {
                    lemma_object_model(*fields);
                    lemma_object_model(copy);
                    assert(copy.deep_view() =~= fields.deep_view());
                }
                Value::Object(copy)
            },
        }
    }
}

/// A reference to a type, as written for a field or an argument.
#[derive(Debug)]
pub enum Type {
    /// The type of this name.
    NamedType(String),
    /// A list of the inner type.
    ListType(Box<Type>),
    /// The inner type, without null.
    NonNullType(Box<Type>),
}

/// What a [`Type`] says, over mathematical strings.
pub enum TypeModel {
    NamedType(Seq<char>),
    ListType(Box<TypeModel>),
    NonNullType(Box<TypeModel>),
}

/// The model of a type reference: the same wrappers around the same name.
pub open spec fn type_model(reference: Type) -> TypeModel
    decreases reference,
{
    match reference {
        Type::NamedType(name) => TypeModel::NamedType(name@),
        Type::ListType(inner) => TypeModel::ListType(Box::new(type_model(*inner))),
        Type::NonNullType(inner) => TypeModel::NonNullType(Box::new(type_model(*inner))),
    }
}

impl DeepView for Type {
    type V = TypeModel;

    open spec fn deep_view(&self) -> TypeModel {
        type_model(*self)
    }
}

impl Content for Type {
    fn same_content(&self, other: &Self) -> (same: bool)
        decreases self,
    {
        match (self, other) {
            (Type::NamedType(left), Type::NamedType(right)) => left.same_content(right),
            (Type::ListType(left), Type::ListType(right)) => (**left).same_content(&**right),
            (Type::NonNullType(left), Type::NonNullType(right)) => (**left).same_content(&**right),
            _ => false,
        }
    }

    fn duplicate(&self) -> (copy: Self)
        decreases self,
    {
        match self {
            Type::NamedType(name) => Type::NamedType(name.duplicate()),
            Type::ListType(inner) => Type::ListType(Box::new((**inner).duplicate())),
            Type::NonNullType(inner) => Type::NonNullType(Box::new((**inner).duplicate())),
        }
    }
}

/// A directive applied to a definition or to one of its members.
#[derive(Debug)]
pub struct Directive {
    /// The name of the directive.
    pub name: String,
    /// The arguments, each a name and a value, as written.
    pub arguments: Vec<(String, Value)>,
}

/// What a [`Directive`] says, over mathematical strings and sequences.
pub struct DirectiveModel {
    pub name: Seq<char>,
    pub arguments: Seq<(Seq<char>, ValueModel)>,
}

impl DeepView for Directive {
    type V = DirectiveModel;

    open spec fn deep_view(&self) -> DirectiveModel {
        DirectiveModel {
            name: self.name.deep_view(),
            arguments: self.arguments.deep_view(),
        }
    }
}

impl Content for Directive {
    fn same_content(&self, other: &Self) -> (same: bool) {
        self.name.same_content(&other.name)
            && self.arguments.same_content(&other.arguments)
    }

    fn duplicate(&self) -> (copy: Self) {
        Directive {
            name: self.name.duplicate(),
            arguments: self.arguments.duplicate(),
        }
    }
}

} // verus!
