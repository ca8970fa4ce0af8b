//! How extraction relates to merging.
//!
//! Where the module is well formed and the decoder refuses nothing,
//! extraction is the fold of the decoded pieces in the order of their
//! sections. What holds of every fold then holds of extraction.

use vstd::prelude::*;
use crate::extract::{after_items, is_candidate, ExtractErrorView, ModuleItemView, SectionErrorView};
use crate::merge::{empty_component, folded, merged, ComponentInterfacesView, MergeErrorView};
use crate::merge_laws::lemma_fold_in_two;

verus! {

/// The pieces that the decoder made of the candidates among the first `n`
/// items, in order.
pub open spec fn pieces_of(
    items: Seq<ModuleItemView>,
    answers: Seq<Result<ComponentInterfacesView, Seq<char>>>,
    n: int,
) -> Seq<ComponentInterfacesView>
    decreases n,
{
    if n <= 0 {
        Seq::empty()
    } else if is_candidate(items[n - 1]) && answers[n - 1] is Ok {
        pieces_of(items, answers, n - 1).push(answers[n - 1]->Ok_0)
    } else {
        pieces_of(items, answers, n - 1)
    }
}

/// None of the first `n` items says that the module is malformed, and the
/// decoder refused no candidate among them.
pub open spec fn all_decoded(
    items: Seq<ModuleItemView>,
    answers: Seq<Result<ComponentInterfacesView, Seq<char>>>,
    n: int,
) -> bool {
    forall|i: int|
        0 <= i < n ==> !((#[trigger] items[i]) is Malformed) && (is_candidate(items[i])
            ==> answers[i] is Ok)
}

/// Where nothing is malformed and nothing refused, extraction over the first
/// `n` items gives what folding the decoded pieces gives, and fails only as
/// that fold fails.
pub proof fn lemma_extraction_is_a_fold(
    items: Seq<ModuleItemView>,
    answers: Seq<Result<ComponentInterfacesView, Seq<char>>>,
    n: int,
)
    requires
        all_decoded(items, answers, n),
    ensures
        match after_items(items, answers, n) {
            Ok(whole) => folded(empty_component(), pieces_of(items, answers, n)) == Ok::<
                ComponentInterfacesView,
                MergeErrorView,
            >(whole),
            Err(e) => e matches ExtractErrorView::Section { cause: SectionErrorView::Merge(m), .. }
                && folded(empty_component(), pieces_of(items, answers, n)) == Err::<
                ComponentInterfacesView,
                MergeErrorView,
            >(m),
        },
    decreases n,
{
    if n > 0 {
        lemma_extraction_is_a_fold(items, answers, n - 1);
        let before = pieces_of(items, answers, n - 1);
        let now = pieces_of(items, answers, n);
        let item = items[n - 1];
        assert(!(item is Malformed));
        if is_candidate(item) {
            assert(answers[n - 1] is Ok);
            let piece = answers[n - 1]->Ok_0;
            assert(now == before.push(piece));
            assert(now.take(before.len() as int) =~= before);
            assert(now.skip(before.len() as int) =~= seq![piece]);
            lemma_fold_in_two(empty_component(), now, before.len() as int);
            match after_items(items, answers, n - 1) {
                Ok(whole) => {
                    let (next, result) = merged(whole, piece);
                    assert(seq![piece][0] == piece);
                    assert(seq![piece].skip(1) =~= Seq::<ComponentInterfacesView>::empty());
                    assert(folded(whole, seq![piece]) == match result {
                        Ok(_) => Ok::<ComponentInterfacesView, MergeErrorView>(next),
                        Err(e) => Err(e),
                    }) by {
                        assert(folded(next, Seq::<ComponentInterfacesView>::empty()) == Ok::<
                            ComponentInterfacesView,
                            MergeErrorView,
                        >(next));
                    }
                },
                Err(_) => {},
            }
        }
    }
}

} // verus!
