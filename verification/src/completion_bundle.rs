//! Requests, per-source outcomes and the bundle a dispatch cycle yields.
//!
//! One `CompletionRequest` is created per enabled source per dispatch; all
//! requests of a cycle share one context. Each unit of work records its
//! outcome — a candidate list or its own failure — against the source's
//! registration index; once all outcomes are collected they form one
//! `CompletionBundle`, tagged with the revision the cycle was dispatched at.
//! A per-source failure never fails the bundle: merging keeps whatever subset
//! succeeded, in registration order, then source-internal order.

use vstd::prelude::*;

use crate::completion_context::CompletionContext;
use crate::completion_item::{CompletionItem, ItemView};
use crate::completion_source::item_views;

verus! {

/// One unit of work: a source id plus the shared context of its cycle.
pub struct CompletionRequest {
    pub source: usize,
    pub ctx: CompletionContext,
}

/// What one source's unit of work came back with: its candidates, or its own
/// failure message.
pub enum SourceOutcome {
    Success(Vec<CompletionItem>),
    Failure(String),
}

/// The mathematical content of an outcome.
#[verifier::ext_equal]
pub ghost enum OutcomeView {
    Success(Seq<ItemView>),
    Failure(Seq<char>),
}

impl View for SourceOutcome {
    type V = OutcomeView;

    open spec fn view(&self) -> OutcomeView {
        match self {
            SourceOutcome::Success(items) => OutcomeView::Success(item_views(items@)),
            SourceOutcome::Failure(msg) => OutcomeView::Failure(msg@),
        }
    }
}

/// The views of an outcome list.
pub open spec fn outcome_views(s: Seq<SourceOutcome>) -> Seq<OutcomeView> {
    s.map_values(|o: SourceOutcome| o@)
}

/// Aggregated per-source results for one revision of one buffer; outcome `i`
/// belongs to the source registered at index `i`.
pub struct CompletionBundle {
    pub buf: u32,
    pub rev: u64,
    pub outcomes: Vec<SourceOutcome>,
}

/// The mathematical content of a bundle.
#[verifier::ext_equal]
pub ghost struct BundleView {
    pub buf: u32,
    pub rev: u64,
    pub outcomes: Seq<OutcomeView>,
}

impl View for CompletionBundle {
    type V = BundleView;

    open spec fn view(&self) -> BundleView {
        BundleView { buf: self.buf, rev: self.rev, outcomes: outcome_views(self.outcomes@) }
    }
}

/// The views of a bundle list.
pub open spec fn bundle_views(s: Seq<CompletionBundle>) -> Seq<BundleView> {
    s.map_values(|b: CompletionBundle| b@)
}

/// What one source contributes to the merged list: its candidates if it
/// succeeded, nothing if it failed.
pub open spec fn source_items(o: OutcomeView) -> Seq<ItemView> {
    match o {
        OutcomeView::Success(items) => items,
        OutcomeView::Failure(_) => Seq::empty(),
    }
}

/// The merged candidates of the first `n` outcomes, in registration order.
pub open spec fn merged_prefix(outs: Seq<OutcomeView>, n: int) -> Seq<ItemView>
    decreases n,
{
    if n <= 0 {
        Seq::empty()
    } else {
        merged_prefix(outs, n - 1) + source_items(outs[n - 1])
    }
}

/// The stable merge of a bundle's outcomes: every succeeding source's
/// candidates, in registration order, then source-internal order.
pub open spec fn merged_of(outs: Seq<OutcomeView>) -> Seq<ItemView> {
    merged_prefix(outs, outs.len() as int)
}

impl CompletionBundle {
    /// Merges the bundle's successful outcomes into one display list.
    pub fn merge(&self) -> (r: Vec<CompletionItem>)
        ensures
            item_views(r@) == merged_of(self@.outcomes),
    {
        let mut r: Vec<CompletionItem> = Vec::new();
        let n = self.outcomes.len();
        for i in 0..n
            invariant
                n == self.outcomes.len(),
                item_views(r@) =~= merged_prefix(self@.outcomes, i as int),
        {
            match &self.outcomes[i] {
                SourceOutcome::Success(items) => {
                    let m = items.len();
                    for j in 0..m
                        invariant
                            n == self.outcomes.len(),
                            i < n,
                            m == items@.len(),
                            self.outcomes@[i as int] == SourceOutcome::Success(*items),
                            item_views(r@) =~= merged_prefix(self@.outcomes, i as int)
                                + item_views(items@.subrange(0, j as int)),
                    {
                        let ghost r0 = r@;
                        r.push(items[j].duplicate());
                        proof {
                            assert(items@.subrange(0, j + 1) =~=
                                items@.subrange(0, j as int).push(items@[j as int]));
                            assert(item_views(items@.subrange(0, j + 1)) =~~=
                                item_views(items@.subrange(0, j as int)).push(items@[j as int]@));
                            assert(item_views(r@) =~~= item_views(r0).push(items@[j as int]@));
                        }
                    }
                    proof {
                        assert(item_views(items@.subrange(0, m as int)) =~~=
                            source_items(self@.outcomes[i as int]));
                    }
                },
                SourceOutcome::Failure(_) => {
                    proof {
                        assert(source_items(self@.outcomes[i as int]) =~= Seq::<ItemView>::empty());
                    }
                },
            }
            proof {
                assert(item_views(r@) =~= merged_prefix(self@.outcomes, i + 1));
            }
        }
        proof {
            assert(item_views(r@) =~= merged_of(self@.outcomes));
        }
        r
    }
}

/// A failing source never alters what any succeeding source contributes:
/// if two outcome lists agree everywhere but at one position, where both
/// hold failures, every source contributes the same items and the merged
/// lists coincide.
pub proof fn lemma_failing_source_isolated(o1: Seq<OutcomeView>, o2: Seq<OutcomeView>, k: int)
    requires
        o1.len() == o2.len(),
        0 <= k < o1.len(),
        o1[k] is Failure,
        o2[k] is Failure,
        forall|j: int| 0 <= j < o1.len() && j != k ==> o1[j] == o2[j],
    ensures
        forall|j: int| 0 <= j < o1.len() ==> source_items(o1[j]) == source_items(o2[j]),
        merged_of(o1) == merged_of(o2),
{
    assert forall|j: int| 0 <= j < o1.len() implies source_items(o1[j]) == source_items(
        o2[j],
    ) by {
        if j == k {
            assert(source_items(o1[j]) =~= source_items(o2[j]));
        }
    }
    lemma_merged_prefix_pointwise(o1, o2, o1.len() as int);
}

/// Merging only reads each position's contribution: outcome lists with
/// pointwise-equal contributions merge to the same candidates.
proof fn lemma_merged_prefix_pointwise(o1: Seq<OutcomeView>, o2: Seq<OutcomeView>, n: int)
    requires
        o1.len() == o2.len(),
        n <= o1.len(),
        forall|j: int| 0 <= j < o1.len() ==> source_items(o1[j]) == source_items(o2[j]),
    ensures
        merged_prefix(o1, n) == merged_prefix(o2, n),
    decreases n,
{
    if n > 0 {
        lemma_merged_prefix_pointwise(o1, o2, n - 1);
    }
}

} // verus!
