//! The immutable snapshot a dispatch cycle works from.
//!
//! A `CompletionContext` records the buffer, the cursor position, the line
//! under the cursor and the buffer's revision id at the moment an edit was
//! accepted. It is built once per dispatch cycle, shared read-only by every
//! request of that cycle, and discarded afterwards.

use vstd::prelude::*;

verus! {

/// Immutable snapshot of buffer + cursor + revision driving one dispatch
/// cycle.
pub struct CompletionContext {
    buf: u32,
    row: usize,
    col: usize,
    line: String,
    rev: u64,
}

/// The mathematical content of a context.
pub ghost struct CtxView {
    pub buf: u32,
    pub row: usize,
    pub col: usize,
    pub line: Seq<char>,
    pub rev: u64,
}

impl View for CompletionContext {
    type V = CtxView;

    closed spec fn view(&self) -> CtxView {
        CtxView { buf: self.buf, row: self.row, col: self.col, line: self.line@, rev: self.rev }
    }
}

impl CompletionContext {
    /// Snapshots one position in one buffer at one revision.
    pub fn new(buf: u32, row: usize, col: usize, line: String, rev: u64) -> (r: Self)
        ensures
            r@ == (CtxView { buf, row, col, line: line@, rev }),
    {
        CompletionContext { buf, row, col, line, rev }
    }

    /// The buffer the snapshot was taken in.
    pub fn buf(&self) -> (r: u32)
        ensures
            r == self@.buf,
    {
        self.buf
    }

    /// The revision id the buffer had when the snapshot was taken.
    pub fn rev(&self) -> (r: u64)
        ensures
            r == self@.rev,
    {
        self.rev
    }

    /// The text of the line under the cursor.
    pub fn line(&self) -> (r: &str)
        ensures
            r@ == self@.line,
    {
        self.line.as_str()
    }

    /// An owned copy, equal to the original in view; each request of a
    /// dispatch cycle carries one.
    pub fn duplicate(&self) -> (r: Self)
        ensures
            r@ == self@,
    {
        CompletionContext {
            buf: self.buf,
            row: self.row,
            col: self.col,
            line: self.line.clone(),
            rev: self.rev,
        }
    }
}

} // verus!
