//! The pluggable completion-source interface and its built-in variants.
//!
//! A source decides cheaply whether to attach to a buffer and, once attached,
//! produces candidates for a context. Sources are mutually isolated: one
//! source's failure is recorded in its own outcome and never touches
//! another's. The two built-in variants are a backend-proxied source that
//! answers for an out-of-process language server, and a deterministic
//! filler-text generator used to exercise the pipeline.

use vstd::prelude::*;
use vstd::string::StringExecFns;

use crate::completion_context::CompletionContext;
use crate::completion_item::{CompletionItem, CompletionItemBuilder, ItemView};

verus! {

/// The views of an item list.
pub open spec fn item_views(s: Seq<CompletionItem>) -> Seq<ItemView> {
    s.map_values(|it: CompletionItem| it@)
}

/// The capability set every completion source offers: a cheap attachment
/// test and candidate production for one context.
pub trait CompletionSource: Sized {
    /// One-time work when the session starts; a source without any keeps
    /// the default.
    fn setup(&mut self) -> Result<(), String> {
        Ok(())
    }

    /// Decides whether to attach the source to a buffer.
    fn should_attach(&self, buf: u32) -> bool;

    /// Returns the completion candidates for one context, or the source's
    /// own failure; never another source's.
    fn complete(&self, ctx: &CompletionContext) -> Result<Vec<CompletionItem>, String>;
}

/// Configuration of the backend-proxied source; it has no options.
#[derive(Clone, Copy, Debug)]
pub struct Config {}

/// A source that proxies an out-of-process language-server backend. Its
/// deterministic core echoes what the backend was asked about.
#[derive(Clone, Copy, Debug)]
pub struct CompleetLsp {}

impl CompletionSource for CompleetLsp {
    /// The backend answers for every buffer.
    fn should_attach(&self, buf: u32) -> (r: bool)
        ensures
            r,
    {
        true
    }

    /// One candidate acknowledging the line the request was built from.
    fn complete(&self, ctx: &CompletionContext) -> (r: Result<
        Vec<CompletionItem>,
        String,
    >)
        ensures
            r is Ok,
            item_views(r->Ok_0@) =~~= seq![
                ItemView { text: "lsp received "@ + ctx@.line },
            ],
    {
        let mut text = "lsp received ".to_owned();
        text.append(ctx.line());
        let item = CompletionItemBuilder::new(text).build();
        let mut items: Vec<CompletionItem> = Vec::new();
        items.push(item);
        Ok(items)
    }
}

/// The deterministic filler-text generator: a pipeline-correctness testing
/// aid producing a fixed candidate list.
#[derive(Clone, Copy, Debug)]
pub struct Lipsum {}

impl CompletionSource for Lipsum {
    /// The filler source attaches everywhere.
    fn should_attach(&self, buf: u32) -> (r: bool)
        ensures
            r,
    {
        true
    }

    /// A fixed pair of filler candidates.
    fn complete(&self, ctx: &CompletionContext) -> (r: Result<
        Vec<CompletionItem>,
        String,
    >)
        ensures
            r is Ok,
            item_views(r->Ok_0@) =~~= seq![
                ItemView { text: "lorem"@ },
                ItemView { text: "ipsum"@ },
            ],
    {
        let mut items: Vec<CompletionItem> = Vec::new();
        items.push(CompletionItem::new("lorem".to_owned()));
        items.push(CompletionItem::new("ipsum".to_owned()));
        Ok(items)
    }
}

/// The closed set of source variants a registry can enable. Sources are
/// registered under unique identities fixed for the session; a source's
/// identity is its registration index.
#[derive(Clone, Copy, Debug)]
pub enum SourceKind {
    Lsp(CompleetLsp),
    Lipsum(Lipsum),
}

impl SourceKind {
    /// Whether this source wants to attach to the buffer.
    pub fn wants_attach(&self, buf: u32) -> (r: bool)
        ensures
            r,
    {
        match self {
            SourceKind::Lsp(s) => s.should_attach(buf),
            SourceKind::Lipsum(s) => s.should_attach(buf),
        }
    }

    /// The candidates this source produces for the context.
    pub fn produce(&self, ctx: &CompletionContext) -> (r: Result<Vec<CompletionItem>, String>)
        ensures
            r is Ok,
            item_views(r->Ok_0@) == self.spec_produced(ctx@.line),
    {
        match self {
            SourceKind::Lsp(s) => {
                let r = s.complete(ctx);
                proof {
                    assert(item_views(r->Ok_0@) =~~= self.spec_produced(ctx@.line));
                }
                r
            },
            SourceKind::Lipsum(s) => {
                let r = s.complete(ctx);
                proof {
                    assert(item_views(r->Ok_0@) =~~= self.spec_produced(ctx@.line));
                }
                r
            },
        }
    }

    /// What each variant produces on success, as a function of the context's
    /// line.
    pub open spec fn spec_produced(&self, line: Seq<char>) -> Seq<ItemView> {
        match self {
            SourceKind::Lsp(_) => seq![ItemView { text: "lsp received "@ + line }],
            SourceKind::Lipsum(_) => seq![
                ItemView { text: "lorem"@ },
                ItemView { text: "ipsum"@ },
            ],
        }
    }
}

} // verus!
