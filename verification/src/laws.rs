//! What holds of every merge.

use crate::combine::{
    entry_at, folded, has_entry, lemma_entry_is_unique, lemma_folded_keeps_name,
    lemma_has_first_entry, lemma_merged_well_formed, merged_definitions, merged_description,
    merged_object, outcome_model, united_names, CombinedDefinitions, CombinedModel,
};
use crate::common::Directive;
use crate::error::{Collided, Conflict, GreemBuildError, NameCollisionReason};
use crate::nameable::{
    clashes_at, distinct_names, first_clash, first_occurrences, has_clash,
    lemma_first_clash_is_unique, lemma_first_occurrences_are_items,
    lemma_first_occurrences_distinct, lemma_first_occurrences_keep_names, merged_members,
    named_in, Nameable,
};
use crate::schema::{
    Definition, DefinitionModel, Field, FieldModel, ObjectTypeModel, ScalarTypeModel,
    TypeDefinitionModel,
};
use vstd::prelude::*;

verus! {

/// The definition of an object type, as a definition.
pub open spec fn object_definition(object: ObjectTypeModel) -> DefinitionModel {
    DefinitionModel::TypeDefinition(TypeDefinitionModel::Object(object))
}

/// The definition of a scalar, as a definition.
pub open spec fn scalar_definition(scalar: ScalarTypeModel) -> DefinitionModel {
    DefinitionModel::TypeDefinition(TypeDefinitionModel::Scalar(scalar))
}

/// Whether two definitions are of one kind: both the definition of the
/// schema, both definitions of a directive, both definitions of a type of
/// one kind, or both extensions of a type of one kind.
pub open spec fn same_kind(first: DefinitionModel, second: DefinitionModel) -> bool {
    match (first, second) {
        (DefinitionModel::SchemaDefinition(_), DefinitionModel::SchemaDefinition(_)) => true,
        (DefinitionModel::DirectiveDefinition(_), DefinitionModel::DirectiveDefinition(_)) => true,
        (DefinitionModel::TypeDefinition(first), DefinitionModel::TypeDefinition(second)) =>
            same_type_kind(first, second),
        (DefinitionModel::TypeExtension(first), DefinitionModel::TypeExtension(second)) =>
            same_type_kind(first, second),
        _ => false,
    }
}

/// Whether two types are of one kind.
pub open spec fn same_type_kind(first: TypeDefinitionModel, second: TypeDefinitionModel) -> bool {
    match (first, second) {
        (TypeDefinitionModel::Scalar(_), TypeDefinitionModel::Scalar(_)) => true,
        (TypeDefinitionModel::Object(_), TypeDefinitionModel::Object(_)) => true,
        (TypeDefinitionModel::Interface(_), TypeDefinitionModel::Interface(_)) => true,
        (TypeDefinitionModel::Union(_), TypeDefinitionModel::Union(_)) => true,
        (TypeDefinitionModel::Enum(_), TypeDefinitionModel::Enum(_)) => true,
        (TypeDefinitionModel::InputObject(_), TypeDefinitionModel::InputObject(_)) => true,
        _ => false,
    }
}

/// Whether the second definition extends a type of the kind that the first
/// defines.
pub open spec fn extends(first: DefinitionModel, second: DefinitionModel) -> bool {
    match (first, second) {
        (DefinitionModel::TypeDefinition(first), DefinitionModel::TypeExtension(second)) =>
            same_type_kind(first, second),
        _ => false,
    }
}

/// Merging two definitions of one name gives what the first becomes once
/// the second is folded into it.
pub proof fn lemma_merge_of_two(first: DefinitionModel, second: DefinitionModel)
    requires
        first.name() is Some,
        first.name() == second.name(),
    ensures
        merged_definitions(seq![first, second]) == match folded(first, second) {
            Ok(merged) => Ok::<CombinedModel, Conflict>(
                CombinedModel { schema: None, types: seq![merged] },
            ),
            Err(conflict) => Err(conflict),
        },
{
    let both = seq![first, second];
    let name = first.name()->0;
    assert(both.drop_last() =~= seq![first]);
    assert(seq![first].drop_last() =~= Seq::<DefinitionModel>::empty());
    assert(merged_definitions(Seq::<DefinitionModel>::empty()) == Ok::<CombinedModel, Conflict>(
        CombinedModel::empty(),
    ));
    assert(!has_entry(Seq::<DefinitionModel>::empty(), name));
    let after_first = CombinedModel { schema: None, types: seq![first] };
    assert(Seq::<DefinitionModel>::empty().push(first) =~= seq![first]);
    assert(merged_definitions(seq![first]) == Ok::<CombinedModel, Conflict>(after_first));
    assert(entry_at(after_first.types, name, 0));
    lemma_entry_is_unique(after_first.types, name, 0);
    if folded(first, second) is Ok {
        assert(seq![first].update(0, folded(first, second)->Ok_0) =~= seq![
            folded(first, second)->Ok_0,
        ]);
    }
}

/// Items of distinct names are all first occurrences, and none clashes.
pub proof fn lemma_distinct_names_stay<T: Nameable>(items: Seq<T::V>)
    requires
        distinct_names::<T>(items),
    ensures
        first_occurrences::<T>(items) == items,
        !has_clash::<T>(items),
    decreases items.len(),
{
    if items.len() > 0 {
        let earlier = items.drop_last();
        lemma_distinct_names_stay::<T>(earlier);
        assert(!named_in::<T>(earlier, T::name_of(items.last()))) by {
            if named_in::<T>(earlier, T::name_of(items.last())) {
                let k = choose|k: int|
                    0 <= k < earlier.len() && T::name_of(#[trigger] earlier[k]) == T::name_of(
                        items.last(),
                    );
                assert(T::name_of(items[k]) == T::name_of(items[items.len() - 1]));
            }
        }
        assert(earlier.push(items.last()) =~= items);
    } else {
        assert(first_occurrences::<T>(items) =~= items);
    }
    assert forall|at: int| 0 <= at < items.len() implies !#[trigger] clashes_at::<T>(
        items,
        at,
    ) by {
        if clashes_at::<T>(items, at) {
            let before = choose|before: int|
                0 <= before < at && T::name_of(#[trigger] items[before]) == T::name_of(items[at])
                    && items[before] != items[at];
            assert(T::name_of(items[before]) == T::name_of(items[at]));
        }
    }
}

/// Merging nothing gives the empty state, and no conflict.
pub proof fn law_empty_input()
    ensures
        merged_definitions(Seq::empty()) == Ok::<CombinedModel, Conflict>(CombinedModel::empty()),
        CombinedModel::empty().schema is None,
        CombinedModel::empty().types.len() == 0,
{
}

/// Two definitions of a scalar under one name never merge, whatever they
/// say: the second is a duplicate of that scalar.
pub proof fn law_scalar_defined_twice(first: ScalarTypeModel, second: ScalarTypeModel)
    requires
        first.name == second.name,
    ensures
        merged_definitions(seq![scalar_definition(first), scalar_definition(second)]) == Err::<
            CombinedModel,
            Conflict,
        >(Conflict::MultipleDefinitionFound(Collided::Scalar(first.name))),
{
    lemma_merge_of_two(scalar_definition(first), scalar_definition(second));
}

/// Two definitions of an object type under one name whose fields share no
/// name merge into one that has the fields of the first and then those of
/// the second, as many as both together. Within each definition no two
/// fields share a name, and the directives of the two merge.
pub proof fn law_fields_of_both(first: ObjectTypeModel, second: ObjectTypeModel)
    requires
        first.name == second.name,
        distinct_names::<Field>(first.fields),
        distinct_names::<Field>(second.fields),
        forall|i: int, j: int|
            0 <= i < first.fields.len() && 0 <= j < second.fields.len() ==> (
            #[trigger] first.fields[i]).name != (#[trigger] second.fields[j]).name,
        merged_members::<Directive>(first.directives, second.directives) is Ok,
    ensures
        merged_definitions(seq![object_definition(first), object_definition(second)]) matches Ok(
            combined,
        ) && {
            &&& combined.schema is None
            &&& combined.types.len() == 1
            &&& combined.types[0] matches DefinitionModel::TypeDefinition(
                TypeDefinitionModel::Object(merged),
            )
            &&& merged.name == first.name
            &&& merged.fields == first.fields + second.fields
            &&& merged.fields.len() == first.fields.len() + second.fields.len()
        },
{
    lemma_merge_of_two(object_definition(first), object_definition(second));
    let all = first.fields + second.fields;
    assert(distinct_names::<Field>(all));
    lemma_distinct_names_stay::<Field>(all);
    if second.fields.len() == 0 {
        assert(all =~= first.fields);
    }
}

/// Two definitions of an object type under one name, of which every two
/// fields of one name have one content, and every two directives too,
/// merge into one in which no two fields share a name, which has a field
/// of a name exactly where one of the two has, and of which every field is
/// a field of one of the two. The second has a field.
pub proof fn law_shared_field_once(first: ObjectTypeModel, second: ObjectTypeModel)
    requires
        first.name == second.name,
        second.fields.len() > 0,
        !has_clash::<Field>(first.fields + second.fields),
        !has_clash::<Directive>(first.directives + second.directives),
    ensures
        merged_definitions(seq![object_definition(first), object_definition(second)]) matches Ok(
            combined,
        ) && {
            &&& combined.types.len() == 1
            &&& combined.types[0] matches DefinitionModel::TypeDefinition(
                TypeDefinitionModel::Object(merged),
            )
            &&& distinct_names::<Field>(merged.fields)
            &&& forall|name: Seq<char>| #[trigger]
                named_in::<Field>(merged.fields, name) <==> named_in::<Field>(first.fields, name)
                    || named_in::<Field>(second.fields, name)
            &&& forall|k: int|
                0 <= k < merged.fields.len() ==> first.fields.contains(#[trigger] merged.fields[k])
                    || second.fields.contains(merged.fields[k])
        },
{
    lemma_merge_of_two(object_definition(first), object_definition(second));
    let all = first.fields + second.fields;
    lemma_first_occurrences_distinct::<Field>(all);
    assert forall|k: int| 0 <= k < first_occurrences::<Field>(all).len() implies first.fields.contains(
        #[trigger] first_occurrences::<Field>(all)[k],
    ) || second.fields.contains(first_occurrences::<Field>(all)[k]) by {
        lemma_first_occurrences_are_items::<Field>(all, k);
        let i = choose|i: int|
            0 <= i < all.len() && #[trigger] all[i] == first_occurrences::<Field>(all)[k];
        if i < first.fields.len() {
            assert(first.fields[i] == all[i]);
        } else {
            assert(second.fields[i - first.fields.len()] == all[i]);
        }
    }
    assert forall|name: Seq<char>| #[trigger]
        named_in::<Field>(first_occurrences::<Field>(all), name) <==> named_in::<Field>(
            first.fields,
            name,
        ) || named_in::<Field>(second.fields, name) by {
        lemma_first_occurrences_keep_names::<Field>(all, name);
        lemma_named_in_either::<Field>(first.fields, second.fields, name);
    }
}

/// A name is among the items of two sequences, one after the other, where
/// it is among the items of one of them.
pub proof fn lemma_named_in_either<T: Nameable>(left: Seq<T::V>, right: Seq<T::V>, name: Seq<char>)
    ensures
        named_in::<T>(left + right, name) <==> named_in::<T>(left, name) || named_in::<T>(
            right,
            name,
        ),
{
    let all = left + right;
    if named_in::<T>(all, name) {
        let k = choose|k: int| 0 <= k < all.len() && T::name_of(#[trigger] all[k]) == name;
        if k < left.len() {
            assert(T::name_of(left[k]) == name);
        } else {
            assert(T::name_of(right[k - left.len()]) == name);
        }
    }
    if named_in::<T>(left, name) {
        let k = choose|k: int| 0 <= k < left.len() && T::name_of(#[trigger] left[k]) == name;
        assert(T::name_of(all[k]) == name);
    }
    if named_in::<T>(right, name) {
        let k = choose|k: int| 0 <= k < right.len() && T::name_of(#[trigger] right[k]) == name;
        assert(T::name_of(all[k + left.len()]) == name);
    }
}

/// Merging a definition of an object type with itself changes nothing but
/// the description, which is merged with itself. No two of its fields and
/// no two of its directives share a name.
pub proof fn law_merged_with_itself(object: ObjectTypeModel)
    requires
        distinct_names::<Field>(object.fields),
        distinct_names::<Directive>(object.directives),
    ensures
        merged_definitions(seq![object_definition(object), object_definition(object)]) == Ok::<
            CombinedModel,
            Conflict,
        >(
            CombinedModel {
                schema: None,
                types: seq![
                    object_definition(
                        ObjectTypeModel {
                            description: merged_description(object.description, object.description),
                            ..object
                        },
                    ),
                ],
            },
        ),
        object.description is None ==> merged_definitions(
            seq![object_definition(object), object_definition(object)],
        ) == Ok::<CombinedModel, Conflict>(
            CombinedModel { schema: None, types: seq![object_definition(object)] },
        ),
{
    lemma_merge_of_two(object_definition(object), object_definition(object));
    lemma_merged_with_themselves::<Field>(object.fields);
    lemma_merged_with_themselves::<Directive>(object.directives);
    lemma_united_with_themselves(
        object.implements_interfaces,
        object.implements_interfaces.len() as int,
    );
    assert(object.implements_interfaces.take(object.implements_interfaces.len() as int)
        =~= object.implements_interfaces);
}

/// Members of distinct names, merged with themselves, stay as they are.
pub proof fn lemma_merged_with_themselves<T: Nameable>(items: Seq<T::V>)
    requires
        distinct_names::<T>(items),
    ensures
        merged_members::<T>(items, items) == Ok::<Seq<T::V>, Conflict>(items),
{
    let all = items + items;
    if items.len() > 0 {
        assert forall|at: int| 0 <= at < all.len() implies !#[trigger] clashes_at::<T>(
            all,
            at,
        ) by {
            if clashes_at::<T>(all, at) {
                let before = choose|before: int|
                    0 <= before < at && T::name_of(#[trigger] all[before]) == T::name_of(all[at])
                        && all[before] != all[at];
                let i = if before < items.len() { before } else { before - items.len() };
                let j = if at < items.len() { at } else { at - items.len() };
                assert(all[before] == items[i]);
                assert(all[at] == items[j]);
                assert(T::name_of(items[i]) == T::name_of(items[j]));
            }
        }
        lemma_repeated_first_occurrences::<T>(items, items.len() as int);
        assert(items + items.take(items.len() as int) =~= all);
    }
}

/// The first occurrences among items of distinct names, followed by some
/// of them again, are the items.
pub proof fn lemma_repeated_first_occurrences<T: Nameable>(items: Seq<T::V>, upto: int)
    requires
        distinct_names::<T>(items),
        0 <= upto <= items.len(),
    ensures
        first_occurrences::<T>(items + items.take(upto)) == items,
    decreases upto,
{
    if upto == 0 {
        assert(items + items.take(0) =~= items);
        lemma_distinct_names_stay::<T>(items);
    } else {
        let all = items + items.take(upto);
        assert(all.drop_last() =~= items + items.take(upto - 1));
        lemma_repeated_first_occurrences::<T>(items, upto - 1);
        assert(all.last() == items[upto - 1]);
        assert(T::name_of(all.drop_last()[upto - 1]) == T::name_of(all.last()));
    }
}

/// Names united with the first of themselves stay as they are.
pub proof fn lemma_united_with_themselves(names: Seq<Seq<char>>, upto: int)
    requires
        0 <= upto <= names.len(),
    ensures
        united_names(names, names.take(upto)) == names,
    decreases upto,
{
    if upto > 0 {
        assert(names.take(upto).drop_last() =~= names.take(upto - 1));
        lemma_united_with_themselves(names, upto - 1);
        assert(names.take(upto).last() == names[upto - 1]);
        assert(names.contains(names[upto - 1]));
    }
}

/// Whether one of the fields has the name of this field, but not its
/// content.
pub open spec fn differs_from_namesake(fields: Seq<FieldModel>, field: FieldModel) -> bool {
    exists|i: int|
        0 <= i < fields.len() && (#[trigger] fields[i]).name == field.name && fields[i] != field
}

/// Two definitions of an object type under one name, with a field of one
/// name in both but not of one content, do not merge: the first field of
/// the second that differs from its namesake in the first is a collision
/// under its name. Neither definition clashes with itself, and the
/// directives of the two merge.
pub proof fn law_differing_field_collides(first: ObjectTypeModel, second: ObjectTypeModel)
    requires
        first.name == second.name,
        merged_members::<Directive>(first.directives, second.directives) is Ok,
        !has_clash::<Field>(first.fields),
        !has_clash::<Field>(second.fields),
        exists|j: int|
            0 <= j < second.fields.len() && differs_from_namesake(
                first.fields,
                #[trigger] second.fields[j],
            ),
    ensures
        exists|j: int|
            {
                &&& 0 <= j < second.fields.len()
                &&& differs_from_namesake(first.fields, #[trigger] second.fields[j])
                &&& forall|k: int|
                    0 <= k < j ==> !differs_from_namesake(first.fields, #[trigger] second.fields[k])
                &&& merged_definitions(
                    seq![object_definition(first), object_definition(second)],
                ) == Err::<CombinedModel, Conflict>(
                    Conflict::NameCollision(
                        second.fields[j].name,
                        NameCollisionReason::DifferentContent,
                    ),
                )
            },
{
    lemma_merge_of_two(object_definition(first), object_definition(second));
    let all = first.fields + second.fields;
    let offset = first.fields.len() as int;
    let some = choose|j: int|
        0 <= j < second.fields.len() && differs_from_namesake(
            first.fields,
            #[trigger] second.fields[j],
        );
    lemma_clash_with_namesake(first.fields, second.fields, some);
    lemma_has_first_clash::<Field>(all, offset + some);
    let at = choose|at: int| first_clash::<Field>(all, at);
    lemma_first_clash_is_unique::<Field>(all, at);
    if at < offset {
        let before = choose|before: int|
            0 <= before < at && (#[trigger] all[before]).name == all[at].name && all[before]
                != all[at];
        assert(first.fields[before] == all[before]);
        assert(first.fields[at] == all[at]);
        assert(clashes_at::<Field>(first.fields, at));
    }
    let j = at - offset;
    lemma_clash_with_namesake(first.fields, second.fields, j);
    assert(second.fields[j] == all[at]);
    assert forall|k: int| 0 <= k < j implies !differs_from_namesake(
        first.fields,
        #[trigger] second.fields[k],
    ) by {
        lemma_clash_with_namesake(first.fields, second.fields, k);
        assert(!clashes_at::<Field>(all, offset + k));
    }
}

/// A field of the second of two lists of fields, of which the second does
/// not clash with itself, clashes with an earlier field exactly where it
/// differs from its namesake in the first.
pub proof fn lemma_clash_with_namesake(first: Seq<FieldModel>, second: Seq<FieldModel>, j: int)
    requires
        0 <= j < second.len(),
        !has_clash::<Field>(second),
    ensures
        clashes_at::<Field>(first + second, first.len() + j) == differs_from_namesake(
            first,
            second[j],
        ),
{
    let all = first + second;
    let at = first.len() + j;
    assert(all[at] == second[j]);
    if clashes_at::<Field>(all, at) {
        let before = choose|before: int|
            0 <= before < at && (#[trigger] all[before]).name == all[at].name && all[before]
                != all[at];
        if before >= first.len() {
            assert(second[before - first.len()] == all[before]);
            assert(clashes_at::<Field>(second, j));
        } else {
            assert(first[before] == all[before]);
        }
    }
    if differs_from_namesake(first, second[j]) {
        let i = choose|i: int|
            0 <= i < first.len() && (#[trigger] first[i]).name == second[j].name && first[i]
                != second[j];
        assert(all[i] == first[i]);
    }
}

/// Where an item clashes, there is a first item that clashes.
pub proof fn lemma_has_first_clash<T: Nameable>(items: Seq<T::V>, at: int)
    requires
        0 <= at < items.len(),
        clashes_at::<T>(items, at),
    ensures
        exists|first: int| first_clash::<T>(items, first),
    decreases at,
{
    if exists|k: int| 0 <= k < at && #[trigger] clashes_at::<T>(items, k) {
        let k = choose|k: int| 0 <= k < at && #[trigger] clashes_at::<T>(items, k);
        lemma_has_first_clash::<T>(items, k);
    } else {
        assert(first_clash::<T>(items, at));
    }
}

/// Two definitions under one name that are of two kinds collide under that
/// name. The second is not the definition of a scalar or of a directive,
/// and does not extend the type that the first defines.
pub proof fn law_two_kinds_collide(first: DefinitionModel, second: DefinitionModel)
    requires
        first.name() is Some,
        first.name() == second.name(),
        !same_kind(first, second),
        !(second matches DefinitionModel::TypeDefinition(TypeDefinitionModel::Scalar(_))),
        !(second is DirectiveDefinition),
        !extends(first, second),
    ensures
        merged_definitions(seq![first, second]) == Err::<CombinedModel, Conflict>(
            Conflict::NameCollision(first.name()->0, NameCollisionReason::DifferentType),
        ),
{
    lemma_merge_of_two(first, second);
}

/// The names by which the definitions are found, each where it is first
/// seen.
pub open spec fn names_as_first_seen(definitions: Seq<DefinitionModel>) -> Seq<Seq<char>>
    decreases definitions.len(),
{
    if definitions.len() == 0 {
        Seq::empty()
    } else {
        let earlier = names_as_first_seen(definitions.drop_last());
        match definitions.last().name() {
            Some(name) => if earlier.contains(name) {
                earlier
            } else {
                earlier.push(name)
            },
            None => earlier,
        }
    }
}

/// The names of the combined definitions, in their order.
pub open spec fn names_of(types: Seq<DefinitionModel>) -> Seq<Seq<char>> {
    Seq::new(types.len(), |k: int| types[k].name()->0)
}

/// The combined definitions stand in the order in which their names were
/// first seen among the definitions that were merged.
pub proof fn law_order_of_first_seen(definitions: Seq<DefinitionModel>)
    requires
        merged_definitions(definitions) is Ok,
    ensures
        names_of(merged_definitions(definitions)->Ok_0.types) == names_as_first_seen(definitions),
    decreases definitions.len(),
{
    if definitions.len() == 0 {
        assert(names_of(Seq::empty()) =~= Seq::<Seq<char>>::empty());
    } else {
        let before = merged_definitions(definitions.drop_last())->Ok_0;
        let incoming = definitions.last();
        let after = merged_definitions(definitions)->Ok_0;
        law_order_of_first_seen(definitions.drop_last());
        lemma_merged_well_formed(definitions.drop_last());
        if incoming.name() is Some {
            let name = incoming.name()->0;
            if has_entry(before.types, name) {
                let k = choose|k: int|
                    0 <= k < before.types.len() && (#[trigger] before.types[k]).name() == Some(name);
                assert(names_of(before.types)[k] == name);
                lemma_has_first_entry(before.types, name, k);
                let at = choose|at: int| entry_at(before.types, name, at);
                lemma_folded_keeps_name(before.types[at], incoming);
                assert(names_of(after.types) =~= names_of(before.types));
            } else {
                if names_of(before.types).contains(name) {
                    let k = choose|k: int|
                        0 <= k < names_of(before.types).len() && names_of(before.types)[k] == name;
                    assert(before.types[k].name() == Some(name));
                }
                assert(names_of(after.types) =~= names_of(before.types).push(name));
            }
        } else {
            assert(names_of(after.types) =~= names_of(before.types));
        }
    }
}

/// The same definitions in the same order give the same result: what two
/// runs return says the same, the combined definitions as well as the
/// conflict.
pub proof fn law_same_input_same_result(
    first_input: Vec<Definition>,
    first_outcome: Result<CombinedDefinitions, GreemBuildError>,
    second_input: Vec<Definition>,
    second_outcome: Result<CombinedDefinitions, GreemBuildError>,
)
    requires
        first_input.deep_view() == second_input.deep_view(),
        outcome_model(first_outcome) == merged_definitions(first_input.deep_view()),
        outcome_model(second_outcome) == merged_definitions(second_input.deep_view()),
    ensures
        outcome_model(first_outcome) == outcome_model(second_outcome),
{
}

/// The description of two merged definitions of an object type depends on
/// their order: it is the description of the one that came first, a line
/// break, and the description of the other. The directives and the fields
/// of the two merge.
pub proof fn law_descriptions_in_order(
    first: ObjectTypeModel,
    second: ObjectTypeModel,
    x: Seq<char>,
    y: Seq<char>,
)
    requires
        first.name == second.name,
        first.description == Some(x),
        second.description == Some(y),
        merged_object(first, second) is Ok,
        merged_object(second, first) is Ok,
    ensures
        merged_definitions(seq![object_definition(first), object_definition(second)]) matches Ok(
            combined,
        ) && combined.types[0] matches DefinitionModel::TypeDefinition(
            TypeDefinitionModel::Object(merged),
        ) && merged.description == Some(x + seq!['\n'] + y),
        merged_definitions(seq![object_definition(second), object_definition(first)]) matches Ok(
            combined,
        ) && combined.types[0] matches DefinitionModel::TypeDefinition(
            TypeDefinitionModel::Object(merged),
        ) && merged.description == Some(y + seq!['\n'] + x),
{
    lemma_merge_of_two(object_definition(first), object_definition(second));
    lemma_merge_of_two(object_definition(second), object_definition(first));
}

} // verus!
