//! An in-editor autocompletion engine core.
//!
//! The library watches text-buffer edits, asks a set of pluggable completion
//! sources for candidates, and merges the results for display. Its centre is
//! the asynchronous multi-source orchestration core: attaching to buffers,
//! tracking edit revisions, dispatching one request per enabled source,
//! filtering stale result bundles, and handing results back to a
//! single-threaded control path through a message channel.
//!
//! The host editor's API (window creation, autocommand registration, text
//! mutation) is an external collaborator: the library computes every decision
//! and hands the host an explicit outcome to act on.

pub mod channel;
pub mod client;
pub mod completion_item;
pub mod completion_context;
pub mod completion_bundle;
pub mod completion_source;
pub mod messages;
pub mod setup;
pub mod ui;

pub use client::Client;
pub use completion_context::CompletionContext;
pub use completion_item::{CompletionItem, CompletionItemBuilder};
pub use completion_source::CompletionSource;
