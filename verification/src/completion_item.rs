//! Completion candidates and their builder.
//!
//! A `CompletionItem` is the minimal candidate a source can produce: a piece
//! of display text. Items are built once through `CompletionItemBuilder` and
//! are immutable thereafter.

use vstd::prelude::*;

verus! {

/// A single completion candidate.
pub struct CompletionItem {
    text: String,
}

/// The mathematical content of a completion item: its display text.
#[verifier::ext_equal]
pub ghost struct ItemView {
    pub text: Seq<char>,
}

impl View for CompletionItem {
    type V = ItemView;

    closed spec fn view(&self) -> ItemView {
        ItemView { text: self.text@ }
    }
}

impl CompletionItem {
    /// Makes an item directly from its display text.
    pub fn new(text: String) -> (r: Self)
        ensures
            r@.text == text@,
    {
        CompletionItem { text }
    }

    /// The item's display text.
    pub fn text(&self) -> (r: &str)
        ensures
            r@ == self@.text,
    {
        self.text.as_str()
    }

    /// An owned copy of the item, equal to the original in view.
    pub fn duplicate(&self) -> (r: Self)
        ensures
            r@ == self@,
    {
        CompletionItem { text: self.text.clone() }
    }
}

/// Builds a `CompletionItem`; the text is set at construction and consumed by
/// `build`.
pub struct CompletionItemBuilder {
    text: Option<String>,
}

impl CompletionItemBuilder {
    /// A builder holds its text until `build` consumes it.
    pub closed spec fn wf(&self) -> bool {
        self.text is Some
    }

    /// The text the builder will hand to the finished item.
    pub closed spec fn pending_text(&self) -> Seq<char>
        recommends
            self.wf(),
    {
        self.text->Some_0@
    }

    /// Starts a builder carrying the given display text.
    pub fn new(text: String) -> (r: Self)
        ensures
            r.wf(),
            r.pending_text() == text@,
    {
        CompletionItemBuilder { text: Some(text) }
    }

    /// Finishes the item, moving the text into it.
    pub fn build(self) -> (r: CompletionItem)
        requires
            self.wf(),
        ensures
            r@.text == self.pending_text(),
    {
        match self.text {
            Some(text) => CompletionItem { text },
            None => unreached(),
        }
    }
}

} // verus!
