//! The merge itself: a fold, from the left, of a list of definitions into
//! one definition per name.
//!
//! The first definition of a name is kept as it is. A later definition of
//! that name is folded into it where the two can be unified, and ends the
//! merge with a conflict where they cannot.

use crate::common::Directive;
use crate::content::Content;
use crate::error::{Collided, CollidedDefinition, Conflict, GreemBuildError, NameCollisionReason};
use crate::nameable::{combine_nameable_vectors, merged_members, Nameable};
use crate::schema::{
    Definition, DefinitionModel, EnumType, EnumTypeModel, EnumValue, Field, InputObjectType,
    InputObjectTypeModel, InputValue, InterfaceType, InterfaceTypeModel, ObjectType,
    ObjectTypeModel, ScalarType, ScalarTypeModel, SchemaDefinition, SchemaDefinitionModel,
    TypeDefinition, TypeDefinitionModel, UnionType, UnionTypeModel,
};
use vstd::prelude::*;
use vstd::string::StringExecFns;

verus! {

/// What a result says, over models.
pub open spec fn outcome_model<T: DeepView>(outcome: Result<T, GreemBuildError>) -> Result<
    T::V,
    Conflict,
> {
    match outcome {
        Ok(value) => Ok(value.deep_view()),
        Err(error) => Err(error.deep_view()),
    }
}

/// The description that two descriptions combine to: both, the present one
/// first, on two lines; the candidate where only it is there; none where
/// the candidate is missing.
pub open spec fn combined_description(
    present: Option<Seq<char>>,
    cand: Option<Seq<char>>,
) -> Option<Seq<char>> {
    match (present, cand) {
        (Some(present), Some(cand)) => Some(present + seq!['\n'] + cand),
        (None, Some(cand)) => Some(cand),
        (_, None) => None,
    }
}

/// The description of a definition once a candidate is folded into it:
/// what the two combine to, and the present one where that is nothing.
pub open spec fn merged_description(
    present: Option<Seq<char>>,
    cand: Option<Seq<char>>,
) -> Option<Seq<char>> {
    match combined_description(present, cand) {
        Some(text) => Some(text),
        None => present,
    }
}

/// The present names, followed by each candidate that is not among the
/// names before it.
pub open spec fn united_names(present: Seq<Seq<char>>, cand: Seq<Seq<char>>) -> Seq<Seq<char>>
    decreases cand.len(),
{
    if cand.len() == 0 {
        present
    } else {
        let earlier = united_names(present, cand.drop_last());
        if earlier.contains(cand.last()) {
            earlier
        } else {
            earlier.push(cand.last())
        }
    }
}

/// Combines two descriptions.
pub fn combine_description(present: &Option<String>, cand: &Option<String>) -> (combined: Option<
    String,
>)
    ensures
        combined.deep_view() == combined_description(present.deep_view(), cand.deep_view()),
{
    match (present, cand) {
        (Some(present), Some(cand)) => {
            let mut text = present.clone();
            text.append("\n");
            text.append(cand.as_str());
            proof {
                reveal_strlit("\n");
                assert("\n"@ =~= seq!['\n']);
            }
            Some(text)
        },
        (None, Some(cand)) => Some(cand.clone()),
        (_, None) => None,
    }
}

/// The description of a definition once a candidate is folded into it.
pub fn merge_description(present: &Option<String>, cand: &Option<String>) -> (merged: Option<
    String,
>)
    ensures
        merged.deep_view() == merged_description(present.deep_view(), cand.deep_view()),
{
    match combine_description(present, cand) {
        Some(text) => Some(text),
        None => present.duplicate(),
    }
}

/// Tells whether the name is among the names.
fn contains_name(names: &Vec<String>, name: &String) -> (found: bool)
    ensures
        found == names.deep_view().contains(name@),
{
    let mut i: usize = 0;
    while i < names.len()
        invariant
            i <= names.len(),
            forall|k: int| 0 <= k < i ==> names.deep_view()[k] != name@,
        decreases names.len() - i,
    {
        if names[i] == *name {
            assert(names.deep_view()[i as int] == name@);
            return true;
        }
        i += 1;
    }
    false
}

/// Unites two lists of names: the present names, followed by each
/// candidate that is not among the names before it.
pub fn combine_names(present: &Vec<String>, cand: &Vec<String>) -> (united: Vec<String>)
    ensures
        united.deep_view() == united_names(present.deep_view(), cand.deep_view()),
{
    let mut united = present.duplicate();
    let mut i: usize = 0;
    proof {
        assert(cand.deep_view().take(0) =~= Seq::empty());
    }
    while i < cand.len()
        invariant
            i <= cand.len(),
            united.deep_view() == united_names(
                present.deep_view(),
                cand.deep_view().take(i as int),
            ),
        decreases cand.len() - i,
    {
        proof {
            assert(cand.deep_view().take(i + 1).drop_last() =~= cand.deep_view().take(i as int));
            assert(cand.deep_view().take(i + 1).last() == cand@[i as int]@);
        }
        if !contains_name(&united, &cand[i]) {
            let ghost before = united.deep_view();
            united.push(cand[i].clone());
            proof {
                assert(united.deep_view() =~= before.push(cand@[i as int]@));
            }
        }
        i += 1;
    }
    proof {
        assert(cand.deep_view().take(i as int) =~= cand.deep_view());
    }
    united
}

/// The members of a definition once the candidates are folded into them.
pub fn merge_members<T: Nameable>(present: &Vec<T>, cand: &Vec<T>) -> (outcome: Result<
    Vec<T>,
    GreemBuildError,
>)
    ensures
        outcome_model(outcome) == merged_members::<T>(present.deep_view(), cand.deep_view()),
{
    match combine_nameable_vectors(present, cand) {
        Ok(Some(members)) => Ok(members),
        Ok(None) => Ok(present.duplicate()),
        Err(error) => Err(error),
    }
}

/// What a scalar becomes once a candidate of its name is folded into it:
/// the descriptions are merged, and so are the directives.
pub open spec fn merged_scalar(present: ScalarTypeModel, cand: ScalarTypeModel) -> Result<
    ScalarTypeModel,
    Conflict,
> {
    match merged_members::<Directive>(present.directives, cand.directives) {
        Err(conflict) => Err(conflict),
        Ok(directives) => Ok(
            ScalarTypeModel {
                description: merged_description(present.description, cand.description),
                name: present.name,
                directives,
            },
        ),
    }
}

/// Folds a candidate into a scalar of its name.
pub fn merge_scalar(present: &ScalarType, cand: &ScalarType) -> (outcome: Result<
    ScalarType,
    GreemBuildError,
>)
    ensures
        outcome_model(outcome) == merged_scalar(present.deep_view(), cand.deep_view()),
{
    let directives = match merge_members(&present.directives, &cand.directives) {
        Ok(members) => members,
        Err(error) => return Err(error),
    };
    Ok(
        ScalarType {
            description: merge_description(&present.description, &cand.description),
            name: present.name.clone(),
            directives,
        },
    )
}

/// What an object type becomes once a candidate of its name is folded into it:
/// the descriptions are merged, the interfaces are united, and the directives
/// and the fields are merged. A clash of directives comes before one of fields.
pub open spec fn merged_object(present: ObjectTypeModel, cand: ObjectTypeModel) -> Result<
    ObjectTypeModel,
    Conflict,
> {
    match (
        merged_members::<Directive>(present.directives, cand.directives),
        merged_members::<Field>(present.fields, cand.fields),
    ) {
        (Err(conflict), _) => Err(conflict),
        (Ok(_), Err(conflict)) => Err(conflict),
        (Ok(directives), Ok(fields)) => Ok(
            ObjectTypeModel {
                description: merged_description(present.description, cand.description),
                name: present.name,
                implements_interfaces: united_names(
                    present.implements_interfaces,
                    cand.implements_interfaces,
                ),
                directives,
                fields,
            },
        ),
    }
}

/// Folds a candidate into an object type of its name.
pub fn merge_object(present: &ObjectType, cand: &ObjectType) -> (outcome: Result<
    ObjectType,
    GreemBuildError,
>)
    ensures
        outcome_model(outcome) == merged_object(present.deep_view(), cand.deep_view()),
{
    let directives = match merge_members(&present.directives, &cand.directives) {
        Ok(members) => members,
        Err(error) => return Err(error),
    };
    let fields = match merge_members(&present.fields, &cand.fields) {
        Ok(members) => members,
        Err(error) => return Err(error),
    };
    Ok(
        ObjectType {
            description: merge_description(&present.description, &cand.description),
            name: present.name.clone(),
            implements_interfaces: combine_names(
                &present.implements_interfaces,
                &cand.implements_interfaces,
            ),
            directives,
            fields,
        },
    )
}

/// What an interface becomes once a candidate of its name is folded into it:
/// the descriptions are merged, the interfaces are united, and the directives
/// and the fields are merged. A clash of directives comes before one of fields.
pub open spec fn merged_interface(present: InterfaceTypeModel, cand: InterfaceTypeModel) -> Result<
    InterfaceTypeModel,
    Conflict,
> {
    match (
        merged_members::<Directive>(present.directives, cand.directives),
        merged_members::<Field>(present.fields, cand.fields),
    ) {
        (Err(conflict), _) => Err(conflict),
        (Ok(_), Err(conflict)) => Err(conflict),
        (Ok(directives), Ok(fields)) => Ok(
            InterfaceTypeModel {
                description: merged_description(present.description, cand.description),
                name: present.name,
                implements_interfaces: united_names(
                    present.implements_interfaces,
                    cand.implements_interfaces,
                ),
                directives,
                fields,
            },
        ),
    }
}

/// Folds a candidate into an interface of its name.
pub fn merge_interface(present: &InterfaceType, cand: &InterfaceType) -> (outcome: Result<
    InterfaceType,
    GreemBuildError,
>)
    ensures
        outcome_model(outcome) == merged_interface(present.deep_view(), cand.deep_view()),
{
    let directives = match merge_members(&present.directives, &cand.directives) {
        Ok(members) => members,
        Err(error) => return Err(error),
    };
    let fields = match merge_members(&present.fields, &cand.fields) {
        Ok(members) => members,
        Err(error) => return Err(error),
    };
    Ok(
        InterfaceType {
            description: merge_description(&present.description, &cand.description),
            name: present.name.clone(),
            implements_interfaces: combine_names(
                &present.implements_interfaces,
                &cand.implements_interfaces,
            ),
            directives,
            fields,
        },
    )
}

/// What a union becomes once a candidate of its name is folded into it:
/// the descriptions are merged, the member types are united, and the directives
/// are merged.
pub open spec fn merged_union(present: UnionTypeModel, cand: UnionTypeModel) -> Result<
    UnionTypeModel,
    Conflict,
> {
    match merged_members::<Directive>(present.directives, cand.directives) {
        Err(conflict) => Err(conflict),
        Ok(directives) => Ok(
            UnionTypeModel {
                description: merged_description(present.description, cand.description),
                name: present.name,
                directives,
                types: united_names(present.types, cand.types),
            },
        ),
    }
}

/// Folds a candidate into a union of its name.
pub fn merge_union(present: &UnionType, cand: &UnionType) -> (outcome: Result<
    UnionType,
    GreemBuildError,
>)
    ensures
        outcome_model(outcome) == merged_union(present.deep_view(), cand.deep_view()),
{
    let directives = match merge_members(&present.directives, &cand.directives) {
        Ok(members) => members,
        Err(error) => return Err(error),
    };
    Ok(
        UnionType {
            description: merge_description(&present.description, &cand.description),
            name: present.name.clone(),
            directives,
            types: combine_names(&present.types, &cand.types),
        },
    )
}

/// What an enum becomes once a candidate of its name is folded into it:
/// the descriptions are merged, and so are the directives and the values. A
/// clash of directives comes before one of values.
pub open spec fn merged_enum(present: EnumTypeModel, cand: EnumTypeModel) -> Result<
    EnumTypeModel,
    Conflict,
> {
    match (
        merged_members::<Directive>(present.directives, cand.directives),
        merged_members::<EnumValue>(present.values, cand.values),
    ) {
        (Err(conflict), _) => Err(conflict),
        (Ok(_), Err(conflict)) => Err(conflict),
        (Ok(directives), Ok(values)) => Ok(
            EnumTypeModel {
                description: merged_description(present.description, cand.description),
                name: present.name,
                directives,
                values,
            },
        ),
    }
}

/// Folds a candidate into an enum of its name.
pub fn merge_enum(present: &EnumType, cand: &EnumType) -> (outcome: Result<
    EnumType,
    GreemBuildError,
>)
    ensures
        outcome_model(outcome) == merged_enum(present.deep_view(), cand.deep_view()),
{
    let directives = match merge_members(&present.directives, &cand.directives) {
        Ok(members) => members,
        Err(error) => return Err(error),
    };
    let values = match merge_members(&present.values, &cand.values) {
        Ok(members) => members,
        Err(error) => return Err(error),
    };
    Ok(
        EnumType {
            description: merge_description(&present.description, &cand.description),
            name: present.name.clone(),
            directives,
            values,
        },
    )
}

/// What an input object type becomes once a candidate of its name is folded into it:
/// the descriptions are merged, and so are the directives and the fields. A
/// clash of directives comes before one of fields.
pub open spec fn merged_input_object(
    present: InputObjectTypeModel,
    cand: InputObjectTypeModel,
) -> Result<InputObjectTypeModel, Conflict> {
    match (
        merged_members::<Directive>(present.directives, cand.directives),
        merged_members::<InputValue>(present.fields, cand.fields),
    ) {
        (Err(conflict), _) => Err(conflict),
        (Ok(_), Err(conflict)) => Err(conflict),
        (Ok(directives), Ok(fields)) => Ok(
            InputObjectTypeModel {
                description: merged_description(present.description, cand.description),
                name: present.name,
                directives,
                fields,
            },
        ),
    }
}

/// Folds a candidate into an input object type of its name.
pub fn merge_input_object(present: &InputObjectType, cand: &InputObjectType) -> (outcome: Result<
    InputObjectType,
    GreemBuildError,
>)
    ensures
        outcome_model(outcome) == merged_input_object(present.deep_view(), cand.deep_view()),
{
    let directives = match merge_members(&present.directives, &cand.directives) {
        Ok(members) => members,
        Err(error) => return Err(error),
    };
    let fields = match merge_members(&present.fields, &cand.fields) {
        Ok(members) => members,
        Err(error) => return Err(error),
    };
    Ok(
        InputObjectType {
            description: merge_description(&present.description, &cand.description),
            name: present.name.clone(),
            directives,
            fields,
        },
    )
}

/// What a type becomes once a candidate of its name is folded into it:
/// the two are merged where they are of one kind, and collide where they
/// are not.
pub open spec fn merged_types(present: TypeDefinitionModel, cand: TypeDefinitionModel) -> Result<
    TypeDefinitionModel,
    Conflict,
> {
    match (present, cand) {
        (TypeDefinitionModel::Scalar(present), TypeDefinitionModel::Scalar(cand)) => {
            match merged_scalar(present, cand) {
                Ok(merged) => Ok(TypeDefinitionModel::Scalar(merged)),
                Err(conflict) => Err(conflict),
            }
        },
        (TypeDefinitionModel::Object(present), TypeDefinitionModel::Object(cand)) => {
            match merged_object(present, cand) {
                Ok(merged) => Ok(TypeDefinitionModel::Object(merged)),
                Err(conflict) => Err(conflict),
            }
        },
        (TypeDefinitionModel::Interface(present), TypeDefinitionModel::Interface(cand)) => {
            match merged_interface(present, cand) {
                Ok(merged) => Ok(TypeDefinitionModel::Interface(merged)),
                Err(conflict) => Err(conflict),
            }
        },
        (TypeDefinitionModel::Union(present), TypeDefinitionModel::Union(cand)) => {
            match merged_union(present, cand) {
                Ok(merged) => Ok(TypeDefinitionModel::Union(merged)),
                Err(conflict) => Err(conflict),
            }
        },
        (TypeDefinitionModel::Enum(present), TypeDefinitionModel::Enum(cand)) => {
            match merged_enum(present, cand) {
                Ok(merged) => Ok(TypeDefinitionModel::Enum(merged)),
                Err(conflict) => Err(conflict),
            }
        },
        (TypeDefinitionModel::InputObject(present), TypeDefinitionModel::InputObject(cand)) => {
            match merged_input_object(present, cand) {
                Ok(merged) => Ok(TypeDefinitionModel::InputObject(merged)),
                Err(conflict) => Err(conflict),
            }
        },
        _ => Err(Conflict::NameCollision(cand.name(), NameCollisionReason::DifferentType)),
    }
}

/// Folds a candidate into a type of its name.
pub fn merge_types(present: &TypeDefinition, cand: &TypeDefinition) -> (outcome: Result<
    TypeDefinition,
    GreemBuildError,
>)
    ensures
        outcome_model(outcome) == merged_types(present.deep_view(), cand.deep_view()),
{
    match (present, cand) {
        (TypeDefinition::Scalar(present), TypeDefinition::Scalar(cand)) => {
            match merge_scalar(present, cand) {
                Ok(merged) => Ok(TypeDefinition::Scalar(merged)),
                Err(error) => Err(error),
            }
        },
        (TypeDefinition::Object(present), TypeDefinition::Object(cand)) => {
            match merge_object(present, cand) {
                Ok(merged) => Ok(TypeDefinition::Object(merged)),
                Err(error) => Err(error),
            }
        },
        (TypeDefinition::Interface(present), TypeDefinition::Interface(cand)) => {
            match merge_interface(present, cand) {
                Ok(merged) => Ok(TypeDefinition::Interface(merged)),
                Err(error) => Err(error),
            }
        },
        (TypeDefinition::Union(present), TypeDefinition::Union(cand)) => {
            match merge_union(present, cand) {
                Ok(merged) => Ok(TypeDefinition::Union(merged)),
                Err(error) => Err(error),
            }
        },
        (TypeDefinition::Enum(present), TypeDefinition::Enum(cand)) => {
            match merge_enum(present, cand) {
                Ok(merged) => Ok(TypeDefinition::Enum(merged)),
                Err(error) => Err(error),
            }
        },
        (TypeDefinition::InputObject(present), TypeDefinition::InputObject(cand)) => {
            match merge_input_object(present, cand) {
                Ok(merged) => Ok(TypeDefinition::InputObject(merged)),
                Err(error) => Err(error),
            }
        },
        _ => Err(
            GreemBuildError::NameCollision(cand.name().clone(), NameCollisionReason::DifferentType),
        ),
    }
}

/// The definitions that a merge has combined so far: the definition of the
/// schema, if one was seen, and one definition for each name, in the order
/// in which the names were first seen.
#[derive(Debug)]
pub struct CombinedDefinitions {
    /// The definition of the schema.
    pub schema: Option<SchemaDefinition>,
    /// The definitions that are found by a name.
    pub types: Vec<Definition>,
}

/// What a [`CombinedDefinitions`] says, over mathematical strings and
/// sequences.
pub struct CombinedModel {
    pub schema: Option<SchemaDefinitionModel>,
    pub types: Seq<DefinitionModel>,
}

impl DeepView for CombinedDefinitions {
    type V = CombinedModel;

    open spec fn deep_view(&self) -> CombinedModel {
        CombinedModel { schema: self.schema.deep_view(), types: self.types.deep_view() }
    }
}

impl Content for CombinedDefinitions {
    fn same_content(&self, other: &Self) -> (same: bool) {
        self.schema.same_content(&other.schema) && self.types.same_content(&other.types)
    }

    fn duplicate(&self) -> (copy: Self) {
        CombinedDefinitions { schema: self.schema.duplicate(), types: self.types.duplicate() }
    }
}

impl CombinedModel {
    /// The state before any definition is seen.
    pub open spec fn empty() -> CombinedModel {
        CombinedModel { schema: None, types: Seq::empty() }
    }

    /// Whether the combined definitions are in order: each is found by a
    /// name, and no two by the same.
    pub open spec fn well_formed(self) -> bool {
        &&& forall|k: int| 0 <= k < self.types.len() ==> (#[trigger] self.types[k]).name() is Some
        &&& forall|i: int, j: int|
            0 <= i < j < self.types.len() ==> (#[trigger] self.types[i]).name() != (
            #[trigger] self.types[j]).name()
    }
}

impl CombinedDefinitions {
    /// The state before any definition is seen.
    pub fn new() -> (combined: CombinedDefinitions)
        ensures
            combined.deep_view() == CombinedModel::empty(),
    {
        let combined = CombinedDefinitions { schema: None, types: Vec::new() };
        proof {
            assert(combined.types.deep_view() =~= Seq::empty());
        }
        combined
    }
}

/// Whether one of the definitions is found by this name.
pub open spec fn has_entry(types: Seq<DefinitionModel>, name: Seq<char>) -> bool {
    exists|k: int| 0 <= k < types.len() && (#[trigger] types[k]).name() == Some(name)
}

/// Whether the definition at `at` is the first that is found by this name.
pub open spec fn entry_at(types: Seq<DefinitionModel>, name: Seq<char>, at: int) -> bool {
    &&& 0 <= at < types.len()
    &&& types[at].name() == Some(name)
    &&& forall|k: int| 0 <= k < at ==> (#[trigger] types[k]).name() != Some(name)
}

/// What the definition that is found by a name becomes once a later
/// definition of that name comes in.
///
/// A scalar and a directive can be defined only once. A definition of a
/// type is merged into a definition of a type of its kind. An extension of
/// a type is merged into a definition or into an extension of a type of
/// its kind. Everything else is a collision of two kinds.
pub open spec fn folded(existing: DefinitionModel, incoming: DefinitionModel) -> Result<
    DefinitionModel,
    Conflict,
> {
    match incoming {
        DefinitionModel::SchemaDefinition(_) => Err(
            Conflict::MultipleDefinitionFound(Collided::Schema),
        ),
        DefinitionModel::TypeDefinition(TypeDefinitionModel::Scalar(scalar)) => Err(
            Conflict::MultipleDefinitionFound(Collided::Scalar(scalar.name)),
        ),
        DefinitionModel::DirectiveDefinition(directive) => Err(
            Conflict::MultipleDefinitionFound(Collided::Scalar(directive.name)),
        ),
        DefinitionModel::TypeDefinition(cand) => match existing {
            DefinitionModel::TypeDefinition(present) => match merged_types(present, cand) {
                Ok(merged) => Ok(DefinitionModel::TypeDefinition(merged)),
                Err(conflict) => Err(conflict),
            },
            _ => Err(Conflict::NameCollision(cand.name(), NameCollisionReason::DifferentType)),
        },
        DefinitionModel::TypeExtension(cand) => match existing {
            DefinitionModel::TypeDefinition(present) => match merged_types(present, cand) {
                Ok(merged) => Ok(DefinitionModel::TypeDefinition(merged)),
                Err(conflict) => Err(conflict),
            },
            DefinitionModel::TypeExtension(present) => match merged_types(present, cand) {
                Ok(merged) => Ok(DefinitionModel::TypeExtension(merged)),
                Err(conflict) => Err(conflict),
            },
            _ => Err(Conflict::NameCollision(cand.name(), NameCollisionReason::DifferentType)),
        },
    }
}

/// The state after one more definition.
///
/// The definition of the schema is recorded, and is a conflict where one
/// is recorded already. Any other definition is added at the end where
/// its name is new, and is folded into the definition that is found by its
/// name where it is not.
pub open spec fn absorbed(combined: CombinedModel, incoming: DefinitionModel) -> Result<
    CombinedModel,
    Conflict,
> {
    match incoming {
        DefinitionModel::SchemaDefinition(schema) => match combined.schema {
            None => Ok(CombinedModel { schema: Some(schema), types: combined.types }),
            Some(_) => Err(Conflict::MultipleDefinitionFound(Collided::Schema)),
        },
        _ => {
            let name = incoming.name()->0;
            if has_entry(combined.types, name) {
                let at = choose|at: int| entry_at(combined.types, name, at);
                match folded(combined.types[at], incoming) {
                    Ok(merged) => Ok(
                        CombinedModel {
                            schema: combined.schema,
                            types: combined.types.update(at, merged),
                        },
                    ),
                    Err(conflict) => Err(conflict),
                }
            } else {
                Ok(CombinedModel { schema: combined.schema, types: combined.types.push(incoming) })
            }
        },
    }
}

/// What merging the definitions gives: the state after the last of them,
/// starting from nothing, or the first conflict on the way.
pub open spec fn merged_definitions(definitions: Seq<DefinitionModel>) -> Result<
    CombinedModel,
    Conflict,
>
    decreases definitions.len(),
{
    if definitions.len() == 0 {
        Ok(CombinedModel::empty())
    } else {
        match merged_definitions(definitions.drop_last()) {
            Ok(combined) => absorbed(combined, definitions.last()),
            Err(conflict) => Err(conflict),
        }
    }
}

/// A conflict among the first definitions is the conflict of them all.
pub proof fn lemma_conflict_stays(definitions: Seq<DefinitionModel>, upto: int)
    requires
        0 <= upto <= definitions.len(),
        merged_definitions(definitions.take(upto)) is Err,
    ensures
        merged_definitions(definitions) == merged_definitions(definitions.take(upto)),
    decreases definitions.len(),
{
    if upto == definitions.len() {
        assert(definitions.take(upto) =~= definitions);
    } else {
        assert(definitions.drop_last().take(upto) =~= definitions.take(upto));
        lemma_conflict_stays(definitions.drop_last(), upto);
    }
}

/// What a definition becomes once another is folded into it is found by
/// the name by which it was found before.
pub proof fn lemma_folded_keeps_name(existing: DefinitionModel, incoming: DefinitionModel)
    requires
        folded(existing, incoming) is Ok,
    ensures
        folded(existing, incoming)->Ok_0.name() == existing.name(),
{
}

/// One more definition leaves the combined definitions in order.
pub proof fn lemma_absorbed_well_formed(combined: CombinedModel, incoming: DefinitionModel)
    requires
        combined.well_formed(),
        absorbed(combined, incoming) is Ok,
    ensures
        absorbed(combined, incoming)->Ok_0.well_formed(),
{
    let next = absorbed(combined, incoming)->Ok_0;
    if !(incoming is SchemaDefinition) {
        let name = incoming.name()->0;
        if has_entry(combined.types, name) {
            let at = choose|at: int| entry_at(combined.types, name, at);
            let k = choose|k: int|
                0 <= k < combined.types.len() && (#[trigger] combined.types[k]).name() == Some(
                    name,
                );
            lemma_has_first_entry(combined.types, name, k);
            assert(entry_at(combined.types, name, at));
            lemma_folded_keeps_name(combined.types[at], incoming);
            assert forall|i: int| 0 <= i < next.types.len() implies (
            #[trigger] next.types[i]).name() == combined.types[i].name() by {}
        } else {
            assert forall|i: int| 0 <= i < combined.types.len() implies (
            #[trigger] next.types[i]).name() != incoming.name() by {
                assert(next.types[i] == combined.types[i]);
            }
        }
    }
}

/// Where a definition is found by a name, there is a first that is.
pub proof fn lemma_has_first_entry(types: Seq<DefinitionModel>, name: Seq<char>, at: int)
    requires
        0 <= at < types.len(),
        types[at].name() == Some(name),
    ensures
        exists|first: int| entry_at(types, name, first),
    decreases at,
{
    if exists|k: int| 0 <= k < at && (#[trigger] types[k]).name() == Some(name) {
        let k = choose|k: int| 0 <= k < at && (#[trigger] types[k]).name() == Some(name);
        lemma_has_first_entry(types, name, k);
    } else {
        assert(entry_at(types, name, at));
    }
}

/// Whatever is merged, each of the combined definitions is found by a name,
/// and no two by the same.
pub proof fn lemma_merged_well_formed(definitions: Seq<DefinitionModel>)
    requires
        merged_definitions(definitions) is Ok,
    ensures
        merged_definitions(definitions)->Ok_0.well_formed(),
    decreases definitions.len(),
{
    if definitions.len() > 0 {
        lemma_merged_well_formed(definitions.drop_last());
        lemma_absorbed_well_formed(
            merged_definitions(definitions.drop_last())->Ok_0,
            definitions.last(),
        );
    }
}

/// Folds a later definition into the definition that is found by its name.
pub fn fold_definition(existing: &Definition, incoming: &Definition) -> (outcome: Result<
    Definition,
    GreemBuildError,
>)
    ensures
        outcome_model(outcome) == folded(existing.deep_view(), incoming.deep_view()),
{
    match incoming {
        Definition::SchemaDefinition(_) => Err(
            GreemBuildError::MultipleDefinitionFound(CollidedDefinition::Schema),
        ),
        Definition::TypeDefinition(TypeDefinition::Scalar(scalar)) => Err(
            GreemBuildError::MultipleDefinitionFound(
                CollidedDefinition::Scalar(scalar.name.clone()),
            ),
        ),
        Definition::DirectiveDefinition(directive) => Err(
            GreemBuildError::MultipleDefinitionFound(
                CollidedDefinition::Scalar(directive.name.clone()),
            ),
        ),
        Definition::TypeDefinition(cand) => match existing {
            Definition::TypeDefinition(present) => match merge_types(present, cand) {
                Ok(merged) => Ok(Definition::TypeDefinition(merged)),
                Err(error) => Err(error),
            },
            _ => Err(
                GreemBuildError::NameCollision(
                    cand.name().clone(),
                    NameCollisionReason::DifferentType,
                ),
            ),
        },
        Definition::TypeExtension(cand) => match existing {
            Definition::TypeDefinition(present) => match merge_types(present, cand) {
                Ok(merged) => Ok(Definition::TypeDefinition(merged)),
                Err(error) => Err(error),
            },
            Definition::TypeExtension(present) => match merge_types(present, cand) {
                Ok(merged) => Ok(Definition::TypeExtension(merged)),
                Err(error) => Err(error),
            },
            _ => Err(
                GreemBuildError::NameCollision(
                    cand.name().clone(),
                    NameCollisionReason::DifferentType,
                ),
            ),
        },
    }
}

/// Looks for the first definition that is found by this name.
fn entry_index(types: &Vec<Definition>, name: &String) -> (found: Option<usize>)
    ensures
        match found {
            Some(at) => entry_at(types.deep_view(), name@, at as int),
            None => !has_entry(types.deep_view(), name@),
        },
{
    let mut i: usize = 0;
    while i < types.len()
        invariant
            i <= types.len(),
            forall|k: int| 0 <= k < i ==> (#[trigger] types.deep_view()[k]).name() != Some(name@),
        decreases types.len() - i,
    {
        match types[i].name() {
            Some(found) => {
                if *found == *name {
                    return Some(i);
                }
            },
            None => {},
        }
        i += 1;
    }
    None
}

/// Takes one more definition into what was combined so far. On a conflict
/// nothing is changed.
pub fn combine_definition(combined: &mut CombinedDefinitions, incoming: &Definition) -> (outcome:
    Result<(), GreemBuildError>)
    ensures
        match absorbed(old(combined).deep_view(), incoming.deep_view()) {
            Ok(next) => outcome is Ok && final(combined).deep_view() == next,
            Err(conflict) => {
                &&& outcome matches Err(error)
                &&& error.deep_view() == conflict
                &&& final(combined).deep_view() == old(combined).deep_view()
            },
        },
        old(combined).deep_view().well_formed() ==> final(combined).deep_view().well_formed(),
{
    proof {
        if combined.deep_view().well_formed() && absorbed(
            combined.deep_view(),
            incoming.deep_view(),
        ) is Ok {
            lemma_absorbed_well_formed(combined.deep_view(), incoming.deep_view());
        }
    }
    let name = match incoming {
        Definition::SchemaDefinition(schema) => {
            if combined.schema.is_some() {
                return Err(GreemBuildError::MultipleDefinitionFound(CollidedDefinition::Schema));
            }
            combined.schema = Some(schema.duplicate());
            return Ok(());
        },
        Definition::TypeDefinition(inner) => inner.name(),
        Definition::TypeExtension(inner) => inner.name(),
        Definition::DirectiveDefinition(inner) => &inner.name,
    };
    match entry_index(&combined.types, name) {
        Some(at) => {
            proof {
                lemma_entry_is_unique(combined.types.deep_view(), name@, at as int);
            }
            let merged = match fold_definition(&combined.types[at], incoming) {
                Ok(merged) => merged,
                Err(error) => {
                    return Err(error);
                },
            };
            let ghost before = combined.types.deep_view();
            combined.types.set(at, merged);
            proof {
                assert(combined.types.deep_view() =~= before.update(at as int, merged.deep_view()));
            }
            Ok(())
        },
        None => {
            let ghost before = combined.types.deep_view();
            combined.types.push(incoming.duplicate());
            proof {
                assert(combined.types.deep_view() =~= before.push(incoming.deep_view()));
            }
            Ok(())
        },
    }
}

/// There is one first definition of a name at most.
pub proof fn lemma_entry_is_unique(types: Seq<DefinitionModel>, name: Seq<char>, at: int)
    requires
        entry_at(types, name, at),
    ensures
        has_entry(types, name),
        (choose|k: int| entry_at(types, name, k)) == at,
{
    let k = choose|k: int| entry_at(types, name, k);
    assert(entry_at(types, name, k));
}

/// Merges the definitions, from the first to the last, into one definition
/// per name.
///
/// The result is the state after the last definition, or the first
/// conflict that a definition ran into.
pub fn combine_definitions(definitions: Vec<Definition>) -> (outcome: Result<
    CombinedDefinitions,
    GreemBuildError,
>)
    ensures
        outcome_model(outcome) == merged_definitions(definitions.deep_view()),
        outcome matches Ok(combined) ==> combined.deep_view().well_formed(),
{
    let mut combined = CombinedDefinitions::new();
    let mut i: usize = 0;
    proof {
        assert(definitions.deep_view().take(0) =~= Seq::empty());
    }
    while i < definitions.len()
        invariant
            i <= definitions.len(),
            merged_definitions(definitions.deep_view().take(i as int)) == Ok::<
                CombinedModel,
                Conflict,
            >(combined.deep_view()),
        decreases definitions.len() - i,
    {
        proof {
            let upto = definitions.deep_view().take(i + 1);
            assert(upto.drop_last() =~= definitions.deep_view().take(i as int));
            assert(upto.last() == definitions@[i as int].deep_view());
        }
        match combine_definition(&mut combined, &definitions[i]) {
            Ok(()) => {},
            Err(error) => {
                proof {
                    lemma_conflict_stays(definitions.deep_view(), i + 1);
                }
                return Err(error);
            },
        }
        i += 1;
    }
    proof {
        assert(definitions.deep_view().take(i as int) =~= definitions.deep_view());
        lemma_merged_well_formed(definitions.deep_view());
    }
    Ok(combined)
}

} // verus!
