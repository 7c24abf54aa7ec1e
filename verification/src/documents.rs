//! From the documents of a schema, one per file, to the merged
//! definitions.

use crate::combine::{combine_definitions, merged_definitions, outcome_model, CombinedDefinitions};
use crate::content::Content;
use crate::error::GreemBuildError;
use crate::schema::{Definition, DefinitionModel};
use vstd::prelude::*;

verus! {

/// The definitions of all documents in one sequence: document after
/// document, and within a document in its own order. A document that could
/// not be read or parsed is `None`, and adds nothing.
pub open spec fn collected(documents: Seq<Option<Seq<DefinitionModel>>>) -> Seq<DefinitionModel>
    decreases documents.len(),
{
    if documents.len() == 0 {
        Seq::empty()
    } else {
        let earlier = collected(documents.drop_last());
        match documents.last() {
            Some(definitions) => earlier + definitions,
            None => earlier,
        }
    }
}

/// Puts the definitions of all documents into one list, in the order of
/// the documents.
pub fn collect_definitions(documents: &Vec<Option<Vec<Definition>>>) -> (definitions: Vec<
    Definition,
>)
    ensures
        definitions.deep_view() == collected(documents.deep_view()),
{
    let mut definitions: Vec<Definition> = Vec::new();
    let mut i: usize = 0;
    proof {
        assert(documents.deep_view().take(0) =~= Seq::empty());
        assert(definitions.deep_view() =~= Seq::empty());
    }
    while i < documents.len()
        invariant
            i <= documents.len(),
            definitions.deep_view() == collected(documents.deep_view().take(i as int)),
        decreases documents.len() - i,
    {
        proof {
            let upto = documents.deep_view().take(i + 1);
            assert(upto.drop_last() =~= documents.deep_view().take(i as int));
            assert(upto.last() == documents@[i as int].deep_view());
        }
        match &documents[i] {
            Some(document) => {
                let ghost before = definitions.deep_view();
                let mut k: usize = 0;
                while k < document.len()
                    invariant
                        k <= document.len(),
                        definitions.deep_view() == before + document.deep_view().take(k as int),
                    decreases document.len() - k,
                {
                    let ghost sofar = definitions.deep_view();
                    definitions.push(document[k].duplicate());
                    proof {
                        assert(definitions.deep_view() =~= sofar.push(
                            document@[k as int].deep_view(),
                        ));
                        assert(document.deep_view().take(k + 1) =~= document.deep_view().take(
                            k as int,
                        ).push(document@[k as int].deep_view()));
                    }
                    k += 1;
                }
                proof {
                    assert(document.deep_view().take(k as int) =~= document.deep_view());
                }
            },
            None => {},
        }
        i += 1;
    }
    proof {
        assert(documents.deep_view().take(i as int) =~= documents.deep_view());
    }
    definitions
}

/// Merges the definitions of all documents, taken in the order of the
/// documents, into one definition per name.
pub fn combine_documents(documents: &Vec<Option<Vec<Definition>>>) -> (outcome: Result<
    CombinedDefinitions,
    GreemBuildError,
>)
    ensures
        outcome_model(outcome) == merged_definitions(collected(documents.deep_view())),
        outcome matches Ok(combined) ==> combined.deep_view().well_formed(),
{
    combine_definitions(collect_definitions(documents))
}

} // verus!
