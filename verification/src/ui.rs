//! Floating-surface state: the completion menu's geometry and the details
//! pane shown beside it.
//!
//! The host owns the actual windows; this module owns the decisions. It
//! computes each surface's geometry from the candidates and tracks whether a
//! surface is on screen, handing the host the window to open or close.

use vstd::prelude::*;
use vstd::string::StrSliceExecFns;

use crate::completion_item::CompletionItem;

verus! {

/// The widest the details pane may grow, in columns.
pub const DETAILS_MAX_WIDTH: usize = 79;

/// The views of a line list.
pub open spec fn str_views(s: Seq<String>) -> Seq<Seq<char>> {
    s.map_values(|l: String| l@)
}

/// The length of the longest of the first `n` lines.
pub open spec fn max_len_prefix(s: Seq<Seq<char>>, n: int) -> int
    decreases n,
{
    if n <= 0 {
        0
    } else {
        let rest = max_len_prefix(s, n - 1);
        if s[n - 1].len() > rest {
            s[n - 1].len() as int
        } else {
            rest
        }
    }
}

/// The length of the longest line.
pub open spec fn max_len_of(s: Seq<Seq<char>>) -> int {
    max_len_prefix(s, s.len() as int)
}

/// The details pane: the scratch buffer its text lives in, and the floating
/// window showing it while it is visible.
pub struct DetailsPane {
    bufnr: u32,
    winid: Option<u32>,
}

/// The mathematical content of the pane's state.
#[verifier::ext_equal]
pub ghost struct PaneView {
    pub bufnr: u32,
    pub winid: Option<u32>,
}

impl View for DetailsPane {
    type V = PaneView;

    closed spec fn view(&self) -> PaneView {
        PaneView { bufnr: self.bufnr, winid: self.winid }
    }
}

impl DetailsPane {
    /// Wraps the scratch buffer the host created for the pane; nothing is on
    /// screen yet.
    pub fn new(bufnr: u32) -> (r: Self)
        ensures
            r@ == (PaneView { bufnr, winid: None }),
    {
        DetailsPane { bufnr, winid: None }
    }

    /// Whether the pane is on screen.
    pub fn is_visible(&self) -> (r: bool)
        ensures
            r == (self@.winid is Some),
    {
        self.winid.is_some()
    }

    /// The buffer the pane's text lives in.
    pub fn bufnr(&self) -> (r: u32)
        ensures
            r == self@.bufnr,
    {
        self.bufnr
    }

    /// Hides the pane, handing back the window the host is to close; hiding
    /// a hidden pane does nothing.
    pub fn dismiss(&mut self) -> (w: Option<u32>)
        ensures
            w == old(self)@.winid,
            final(self)@ == (PaneView { bufnr: old(self)@.bufnr, winid: None }),
    {
        let w = self.winid;
        self.winid = None;
        w
    }

    /// The geometry for showing these detail lines: as wide as the longest
    /// line up to the pane's maximum, as tall as their count.
    pub fn plan_show(lines: &Vec<String>) -> (r: (usize, usize))
        ensures
            max_len_of(str_views(lines@)) >= DETAILS_MAX_WIDTH ==> r.0 == DETAILS_MAX_WIDTH,
            max_len_of(str_views(lines@)) < DETAILS_MAX_WIDTH ==> r.0 == max_len_of(
                str_views(lines@),
            ),
            r.1 == lines@.len(),
    {
        let n = lines.len();
        let mut max_width: usize = 0;
        for i in 0..n
            invariant
                n == lines@.len(),
                max_width == max_len_prefix(str_views(lines@), i as int),
        {
            let w = lines[i].as_str().unicode_len();
            if w > max_width {
                max_width = w;
            }
        }
        let width = if max_width >= DETAILS_MAX_WIDTH {
            DETAILS_MAX_WIDTH
        } else {
            max_width
        };
        (width, n)
    }

    /// Records the window the host opened for the pane.
    pub fn shown(&mut self, winid: u32)
        ensures
            final(self)@ == (PaneView { bufnr: old(self)@.bufnr, winid: Some(winid) }),
    {
        self.winid = Some(winid);
    }
}

/// The lengths of the candidates' display texts.
pub open spec fn item_text_views(s: Seq<CompletionItem>) -> Seq<Seq<char>> {
    s.map_values(|it: CompletionItem| it@.text)
}

/// The menu geometry when opening over candidates: as tall as their count up
/// to the configured maximum, as wide as the longest candidate, measured in
/// characters.
pub fn menu_geometry(items: &Vec<CompletionItem>, max_height: usize) -> (r: (usize, usize))
    requires
        items@.len() > 0,
    ensures
        r.0 == (if items@.len() < max_height {
            items@.len() as int
        } else {
            max_height as int
        }),
        r.1 == max_len_of(item_text_views(items@)),
{
    let n = items.len();
    let height = if n < max_height {
        n
    } else {
        max_height
    };
    let mut width: usize = 0;
    for i in 0..n
        invariant
            n == items@.len(),
            width == max_len_prefix(item_text_views(items@), i as int),
    {
        let w = items[i].text().unicode_len();
        if w > width {
            width = w;
        }
    }
    (height, width)
}

} // verus!
