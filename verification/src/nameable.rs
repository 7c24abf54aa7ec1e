//! Members that are found by their name, and the rule by which two lists
//! of such members become one.
//!
//! Two members of one name are the same member if their content is equal,
//! and clash if it is not. A combined list holds each member once, where
//! it was first seen.

use crate::common::{Directive, DirectiveModel};
use crate::content::Content;
use crate::error::{Conflict, GreemBuildError, NameCollisionReason};
use crate::schema::{EnumValue, EnumValueModel, Field, FieldModel, InputValue, InputValueModel};
use vstd::prelude::*;

verus! {

/// A member of a definition that is found by its name.
pub trait Nameable: Content {
    /// The name in the model of a member.
    spec fn name_of(model: Self::V) -> Seq<char>;

    /// The name of the member.
    fn name(&self) -> (name: &String)
        ensures
            name@ == Self::name_of(self.deep_view()),
    ;
}

impl Nameable for Directive {
    open spec fn name_of(model: DirectiveModel) -> Seq<char> {
        model.name
    }

    fn name(&self) -> (name: &String) {
        &self.name
    }
}

impl Nameable for Field {
    open spec fn name_of(model: FieldModel) -> Seq<char> {
        model.name
    }

    fn name(&self) -> (name: &String) {
        &self.name
    }
}

impl Nameable for InputValue {
    open spec fn name_of(model: InputValueModel) -> Seq<char> {
        model.name
    }

    fn name(&self) -> (name: &String) {
        &self.name
    }
}

impl Nameable for EnumValue {
    open spec fn name_of(model: EnumValueModel) -> Seq<char> {
        model.name
    }

    fn name(&self) -> (name: &String) {
        &self.name
    }
}

/// Whether one of the items has this name.
pub open spec fn named_in<T: Nameable>(items: Seq<T::V>, name: Seq<char>) -> bool {
    exists|k: int| 0 <= k < items.len() && T::name_of(#[trigger] items[k]) == name
}

/// Whether no two of the items share a name.
pub open spec fn distinct_names<T: Nameable>(items: Seq<T::V>) -> bool {
    forall|i: int, j: int|
        0 <= i < j < items.len() ==> T::name_of(#[trigger] items[i]) != T::name_of(
            #[trigger] items[j],
        )
}

/// Whether the item at `at` has the name of an earlier item, but not its
/// content.
pub open spec fn clashes_at<T: Nameable>(items: Seq<T::V>, at: int) -> bool {
    exists|before: int|
        0 <= before < at && T::name_of(#[trigger] items[before]) == T::name_of(items[at])
            && items[before] != items[at]
}

/// Whether any item clashes with an earlier one.
pub open spec fn has_clash<T: Nameable>(items: Seq<T::V>) -> bool {
    exists|at: int| 0 <= at < items.len() && #[trigger] clashes_at::<T>(items, at)
}

/// Whether the item at `at` is the first that clashes with an earlier one.
pub open spec fn first_clash<T: Nameable>(items: Seq<T::V>, at: int) -> bool {
    &&& 0 <= at < items.len()
    &&& clashes_at::<T>(items, at)
    &&& forall|k: int| 0 <= k < at ==> !#[trigger] clashes_at::<T>(items, k)
}

/// The items without those whose name an earlier item has, in their order.
pub open spec fn first_occurrences<T: Nameable>(items: Seq<T::V>) -> Seq<T::V>
    decreases items.len(),
{
    if items.len() == 0 {
        Seq::empty()
    } else {
        let earlier = items.drop_last();
        if named_in::<T>(earlier, T::name_of(items.last())) {
            first_occurrences::<T>(earlier)
        } else {
            first_occurrences::<T>(earlier).push(items.last())
        }
    }
}

/// What combining the members that are present with the candidates gives.
///
/// Without candidates there is nothing to combine. Otherwise the present
/// members and then the candidates are gone through: the first item that
/// clashes with an earlier one is a collision, reported under its name;
/// without a clash, each member stays where it was first seen.
pub open spec fn combined_members<T: Nameable>(present: Seq<T::V>, cand: Seq<T::V>) -> Result<
    Option<Seq<T::V>>,
    Conflict,
> {
    let all = present + cand;
    if cand.len() == 0 {
        Ok(None)
    } else if has_clash::<T>(all) {
        let at = choose|at: int| first_clash::<T>(all, at);
        Err(Conflict::NameCollision(T::name_of(all[at]), NameCollisionReason::DifferentContent))
    } else {
        Ok(Some(first_occurrences::<T>(all)))
    }
}

/// What is left of the present members once the candidates are combined
/// with them: the present members themselves where there are no
/// candidates.
pub open spec fn merged_members<T: Nameable>(present: Seq<T::V>, cand: Seq<T::V>) -> Result<
    Seq<T::V>,
    Conflict,
> {
    match combined_members::<T>(present, cand) {
        Ok(Some(members)) => Ok(members),
        Ok(None) => Ok(present),
        Err(conflict) => Err(conflict),
    }
}

/// What a result of [`combine_nameable_vectors`] says, over models.
pub open spec fn combined_outcome<T: Nameable>(
    outcome: Result<Option<Vec<T>>, GreemBuildError>,
) -> Result<Option<Seq<T::V>>, Conflict> {
    match outcome {
        Ok(Some(members)) => Ok(Some(members.deep_view())),
        Ok(None) => Ok(None),
        Err(error) => Err(error.deep_view()),
    }
}

/// Every first occurrence is one of the items.
pub proof fn lemma_first_occurrences_are_items<T: Nameable>(items: Seq<T::V>, j: int)
    requires
        0 <= j < first_occurrences::<T>(items).len(),
    ensures
        exists|i: int|
            0 <= i < items.len() && #[trigger] items[i] == first_occurrences::<T>(items)[j],
    decreases items.len(),
{
    if items.len() > 0 {
        let earlier = items.drop_last();
        if j < first_occurrences::<T>(earlier).len() {
            lemma_first_occurrences_are_items::<T>(earlier, j);
            let i = choose|i: int|
                0 <= i < earlier.len() && #[trigger] earlier[i] == first_occurrences::<T>(
                    earlier,
                )[j];
            assert(items[i] == first_occurrences::<T>(items)[j]);
        } else {
            assert(items[items.len() - 1] == first_occurrences::<T>(items)[j]);
        }
    }
}

/// The first occurrences have the names of the items, and no others.
pub proof fn lemma_first_occurrences_keep_names<T: Nameable>(items: Seq<T::V>, name: Seq<char>)
    ensures
        named_in::<T>(first_occurrences::<T>(items), name) == named_in::<T>(items, name),
    decreases items.len(),
{
    let firsts = first_occurrences::<T>(items);
    if items.len() > 0 {
        let earlier = items.drop_last();
        let before = first_occurrences::<T>(earlier);
        lemma_first_occurrences_keep_names::<T>(earlier, name);
        lemma_first_occurrences_keep_names::<T>(earlier, T::name_of(items.last()));
        if named_in::<T>(firsts, name) {
            let k = choose|k: int|
                0 <= k < firsts.len() && T::name_of(#[trigger] firsts[k]) == name;
            if k < before.len() {
                assert(T::name_of(before[k]) == name);
                let i = choose|i: int|
                    0 <= i < earlier.len() && T::name_of(#[trigger] earlier[i]) == name;
                assert(T::name_of(items[i]) == name);
            } else {
                assert(T::name_of(items[items.len() - 1]) == name);
            }
        }
        if named_in::<T>(items, name) {
            let i = choose|i: int| 0 <= i < items.len() && T::name_of(#[trigger] items[i]) == name;
            if i < earlier.len() {
                assert(T::name_of(earlier[i]) == name);
                let k = choose|k: int|
                    0 <= k < before.len() && T::name_of(#[trigger] before[k]) == name;
                assert(T::name_of(firsts[k]) == name);
            } else if named_in::<T>(earlier, name) {
                let k = choose|k: int|
                    0 <= k < before.len() && T::name_of(#[trigger] before[k]) == name;
                assert(T::name_of(firsts[k]) == name);
            } else {
                assert(T::name_of(firsts[firsts.len() - 1]) == name);
            }
        }
    }
}

/// No two first occurrences share a name.
pub proof fn lemma_first_occurrences_distinct<T: Nameable>(items: Seq<T::V>)
    ensures
        distinct_names::<T>(first_occurrences::<T>(items)),
    decreases items.len(),
{
    if items.len() > 0 {
        let earlier = items.drop_last();
        let before = first_occurrences::<T>(earlier);
        lemma_first_occurrences_distinct::<T>(earlier);
        lemma_first_occurrences_keep_names::<T>(earlier, T::name_of(items.last()));
    }
}

/// Without a clash, two items of one name are equal.
pub proof fn lemma_same_name_same_item<T: Nameable>(items: Seq<T::V>, i: int, j: int)
    requires
        0 <= i < items.len(),
        0 <= j < items.len(),
        forall|k: int| 0 <= k < items.len() ==> !#[trigger] clashes_at::<T>(items, k),
        T::name_of(items[i]) == T::name_of(items[j]),
    ensures
        items[i] == items[j],
{
    if i < j {
        assert(!clashes_at::<T>(items, j));
    } else if j < i {
        assert(!clashes_at::<T>(items, i));
    }
}

/// A first clash among the items is also the first clash once more items
/// follow.
pub proof fn lemma_clash_in_prefix<T: Nameable>(items: Seq<T::V>, more: Seq<T::V>, at: int)
    requires
        first_clash::<T>(items, at),
    ensures
        first_clash::<T>(items + more, at),
{
    let all = items + more;
    let b = choose|b: int|
        0 <= b < at && T::name_of(#[trigger] items[b]) == T::name_of(items[at]) && items[b]
            != items[at];
    assert(all[b] == items[b]);
    assert(clashes_at::<T>(all, at));
    assert forall|k: int| 0 <= k < at implies !#[trigger] clashes_at::<T>(all, k) by {
        if clashes_at::<T>(all, k) {
            let c = choose|c: int|
                0 <= c < k && T::name_of(#[trigger] all[c]) == T::name_of(all[k]) && all[c]
                    != all[k];
            assert(items[c] == all[c]);
            assert(clashes_at::<T>(items, k));
        }
    }
}

/// There is one first clash at most.
pub proof fn lemma_first_clash_is_unique<T: Nameable>(items: Seq<T::V>, at: int)
    requires
        first_clash::<T>(items, at),
    ensures
        has_clash::<T>(items),
        (choose|k: int| first_clash::<T>(items, k)) == at,
{
    let k = choose|k: int| first_clash::<T>(items, k);
    assert(first_clash::<T>(items, k));
    if k < at {
        assert(!clashes_at::<T>(items, k));
    } else if at < k {
        assert(!clashes_at::<T>(items, at));
    }
}

/// Looks for the member of this name.
fn position_of<T: Nameable>(members: &Vec<T>, name: &String) -> (found: Option<usize>)
    ensures
        match found {
            Some(at) => at < members.len() && T::name_of(members.deep_view()[at as int]) == name@,
            None => !named_in::<T>(members.deep_view(), name@),
        },
{
    let mut i: usize = 0;
    while i < members.len()
        invariant
            i <= members.len(),
            forall|k: int| 0 <= k < i ==> T::name_of(#[trigger] members.deep_view()[k]) != name@,
        decreases members.len() - i,
    {
        if *members[i].name() == *name {
            return Some(i);
        }
        i += 1;
    }
    None
}

/// Goes through the items, after those that were gone through before, and
/// keeps in `combined` each member where it was first seen, up to the
/// first clash.
fn fold_in<T: Nameable>(
    combined: &mut Vec<T>,
    items: &Vec<T>,
    Ghost(before): Ghost<Seq<T::V>>,
) -> (outcome: Result<(), GreemBuildError>)
    requires
        old(combined).deep_view() == first_occurrences::<T>(before),
        !has_clash::<T>(before),
    ensures
        match outcome {
            Ok(()) => {
                &&& !has_clash::<T>(before + items.deep_view())
                &&& final(combined).deep_view() == first_occurrences::<T>(
                    before + items.deep_view(),
                )
            },
            Err(error) => exists|at: int|
                {
                    &&& #[trigger] first_clash::<T>(before + items.deep_view(), at)
                    &&& error.deep_view() == Conflict::NameCollision(
                        T::name_of((before + items.deep_view())[at]),
                        NameCollisionReason::DifferentContent,
                    )
                },
        },
{
    let ghost all = before + items.deep_view();
    let mut i: usize = 0;
    proof {
        assert(all.take(before.len() as int) =~= before);
        assert forall|k: int| 0 <= k < before.len() implies !#[trigger] clashes_at::<T>(
            all,
            k,
        ) by {
            if clashes_at::<T>(all, k) {
                let b = choose|b: int|
                    0 <= b < k && T::name_of(#[trigger] all[b]) == T::name_of(all[k]) && all[b]
                        != all[k];
                assert(before[b] == all[b]);
                assert(clashes_at::<T>(before, k));
            }
        }
    }
    while i < items.len()
        invariant
            i <= items.len(),
            all == before + items.deep_view(),
            combined.deep_view() == first_occurrences::<T>(all.take(before.len() + i)),
            forall|k: int| 0 <= k < before.len() + i ==> !#[trigger] clashes_at::<T>(all, k),
        decreases items.len() - i,
    {
        let item = &items[i];
        let ghost at = before.len() + i;
        let ghost seen = all.take(at);
        proof {
            assert(all[at] == item.deep_view());
            assert(all.take(at + 1).drop_last() =~= seen);
            assert(all.take(at + 1).last() == all[at]);
            lemma_first_occurrences_keep_names::<T>(seen, T::name_of(all[at]));
            assert forall|k: int| 0 <= k < seen.len() implies !#[trigger] clashes_at::<T>(
                seen,
                k,
            ) by {
                if clashes_at::<T>(seen, k) {
                    let b = choose|b: int|
                        0 <= b < k && T::name_of(#[trigger] seen[b]) == T::name_of(seen[k])
                            && seen[b] != seen[k];
                    assert(all[b] == seen[b]);
                    assert(clashes_at::<T>(all, k));
                }
            }
        }
        match position_of(combined, item.name()) {
            Some(j) => {
                proof {
                    lemma_first_occurrences_are_items::<T>(seen, j as int);
                    let b = choose|b: int|
                        0 <= b < seen.len() && #[trigger] seen[b] == first_occurrences::<T>(
                            seen,
                        )[j as int];
                    assert(all[b] == seen[b]);
                    assert(T::name_of(all[b]) == T::name_of(all[at]));
                    if seen[b] == all[at] {
                        assert forall|k: int|
                            0 <= k < at && T::name_of(#[trigger] all[k]) == T::name_of(
                                all[at],
                            ) implies all[k] == all[at] by {
                            assert(seen[k] == all[k]);
                            lemma_same_name_same_item::<T>(seen, k, b);
                        }
                        assert(!clashes_at::<T>(all, at));
                    } else {
                        assert(clashes_at::<T>(all, at));
                        assert(first_clash::<T>(all, at));
                    }
                }
                if !combined[j].same_content(item) {
                    return Err(
                        GreemBuildError::NameCollision(
                            item.name().clone(),
                            NameCollisionReason::DifferentContent,
                        ),
                    );
                }
            },
            None => {
                proof {
                    assert forall|k: int| 0 <= k < at implies T::name_of(#[trigger] all[k])
                        != T::name_of(all[at]) by {
                        assert(seen[k] == all[k]);
                    }
                    assert(!clashes_at::<T>(all, at));
                }
                let ghost kept = combined.deep_view();
                combined.push(item.duplicate());
                proof {
                    assert(combined.deep_view() =~= kept.push(all[at]));
                }
            },
        }
        i += 1;
    }
    proof {
        assert(all.take(before.len() + i) =~= all);
    }
    Ok(())
}

/// Combines the members that are present with the candidates.
///
/// Without candidates there is nothing to combine, and the result is
/// `None`. Otherwise each member is kept where it was first seen, among
/// the present members and then the candidates; a member that has the
/// name of an earlier one but not its content is a collision under that
/// name, and the first such member is the one reported.
pub fn combine_nameable_vectors<T: Nameable>(present: &Vec<T>, cand: &Vec<T>) -> (outcome: Result<
    Option<Vec<T>>,
    GreemBuildError,
>)
    ensures
        combined_outcome(outcome) == combined_members::<T>(present.deep_view(), cand.deep_view()),
{
    if cand.len() == 0 {
        return Ok(None);
    }
    let ghost all = present.deep_view() + cand.deep_view();
    let mut combined: Vec<T> = Vec::new();
    proof {
        assert(combined.deep_view() =~= first_occurrences::<T>(Seq::empty()));
        assert(Seq::<T::V>::empty() + present.deep_view() =~= present.deep_view());
    }
    match fold_in(&mut combined, present, Ghost(Seq::empty())) {
        Ok(()) => {},
        Err(error) => {
            proof {
                let at = choose|at: int|
                    {
                        &&& #[trigger] first_clash::<T>(present.deep_view(), at)
                        &&& error.deep_view() == Conflict::NameCollision(
                            T::name_of(present.deep_view()[at]),
                            NameCollisionReason::DifferentContent,
                        )
                    };
                lemma_clash_in_prefix::<T>(present.deep_view(), cand.deep_view(), at);
                lemma_first_clash_is_unique::<T>(all, at);
            }
            return Err(error);
        },
    }
    match fold_in(&mut combined, cand, Ghost(present.deep_view())) {
        Ok(()) => Ok(Some(combined)),
        Err(error) => {
            proof {
                let at = choose|at: int|
                    {
                        &&& #[trigger] first_clash::<T>(all, at)
                        &&& error.deep_view() == Conflict::NameCollision(
                            T::name_of(all[at]),
                            NameCollisionReason::DifferentContent,
                        )
                    };
                lemma_first_clash_is_unique::<T>(all, at);
            }
            Err(error)
        },
    }
}

} // verus!
