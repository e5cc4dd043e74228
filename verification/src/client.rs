//! The control-thread state and its transitions.
//!
//! One single-threaded control path owns the attached-buffer set, the
//! per-buffer revision counters and the UI state. Workers never touch this
//! state: they receive immutable context snapshots and give back owned
//! bundles, which the control thread applies here. Every host-affecting step
//! (installing listeners, opening windows, echoing messages) is returned to
//! the caller as an explicit outcome for the host glue to act on.

use vstd::prelude::*;

use crate::completion_bundle::{
    bundle_views, merged_of, BundleView, CompletionBundle, CompletionRequest,
};
use crate::completion_context::{CompletionContext, CtxView};
use crate::completion_item::{CompletionItem, ItemView};
use crate::completion_source::{item_views, SourceKind};
use crate::setup::{
    enabled_of, errors_of, init_sources, no_sources_msg, wrong_type_msg, config_error_msg,
    config_error_chunk_views, Preferences,
};
use crate::messages::{
    msg_views, spec_digits, u32_to_string, Chunk, ChunkView, EchoMsg, HlGroup, MsgView, Severity,
};

verus! {

/// The exit code the backend leaves with when the session shuts it down on
/// purpose; the sole non-error termination.
pub const SHUTDOWN_EXIT_CODE: u32 = 143;

/// One attached buffer and its revision counter. The counter starts at 0 on
/// attachment and moves up by exactly one per accepted edit.
#[derive(Clone, Copy, PartialEq, Eq, Structural, Debug)]
pub struct BufEntry {
    pub id: u32,
    pub rev: u64,
}

/// No two entries track the same buffer.
pub open spec fn ids_unique(s: Seq<BufEntry>) -> bool {
    forall|i: int, j: int| 0 <= i < j < s.len() ==> s[i].id != s[j].id
}

/// Whether some entry tracks the buffer.
pub open spec fn has_buf(s: Seq<BufEntry>, id: u32) -> bool {
    exists|i: int| 0 <= i < s.len() && s[i].id == id
}

/// The index of the entry tracking the buffer.
pub open spec fn buf_idx(s: Seq<BufEntry>, id: u32) -> int {
    choose|i: int| 0 <= i < s.len() && s[i].id == id
}

/// The buffer's current revision id.
pub open spec fn rev_of(s: Seq<BufEntry>, id: u32) -> u64
    recommends
        has_buf(s, id),
{
    s[buf_idx(s, id)].rev
}

/// With unique ids, the looked-up index of an entry's id is that entry's
/// position.
pub proof fn lemma_buf_idx_of(s: Seq<BufEntry>, i: int)
    requires
        ids_unique(s),
        0 <= i < s.len(),
    ensures
        has_buf(s, s[i].id),
        buf_idx(s, s[i].id) == i,
        rev_of(s, s[i].id) == s[i].rev,
{
    let id = s[i].id;
    assert(has_buf(s, id));
    let j = buf_idx(s, id);
    assert(0 <= j < s.len() && s[j].id == id);
    if i < j {
        assert(false);
    } else if j < i {
        assert(false);
    }
}

/// Replacing an entry with one for the same buffer keeps every other
/// buffer's presence and revision.
pub proof fn lemma_update_entry(s: Seq<BufEntry>, i: int, e: BufEntry)
    requires
        ids_unique(s),
        0 <= i < s.len(),
        e.id == s[i].id,
    ensures
        ids_unique(s.update(i, e)),
        forall|id: u32| has_buf(s.update(i, e), id) <==> has_buf(s, id),
        rev_of(s.update(i, e), e.id) == e.rev,
        forall|id: u32|
            id != e.id && has_buf(s, id) ==> rev_of(s.update(i, e), id) == rev_of(s, id),
{
    let t = s.update(i, e);
    assert forall|id: u32| has_buf(t, id) <==> has_buf(s, id) by {
        if has_buf(t, id) {
            let j = choose|j: int| 0 <= j < t.len() && t[j].id == id;
            assert(s[if j == i { i } else { j }].id == id);
        }
        if has_buf(s, id) {
            let j = choose|j: int| 0 <= j < s.len() && s[j].id == id;
            assert(t[if j == i { i } else { j }].id == id);
        }
    }
    lemma_buf_idx_of(t, i);
    assert forall|id: u32|
        id != e.id && has_buf(s, id) implies rev_of(t, id) == rev_of(s, id) by {
        let j = buf_idx(s, id);
        assert(0 <= j < s.len() && s[j].id == id);
        assert(j != i);
        lemma_buf_idx_of(s, j);
        lemma_buf_idx_of(t, j);
    }
}

/// Removing an entry keeps every other buffer's presence and revision, and
/// removes its own buffer from the set.
pub proof fn lemma_remove_entry(s: Seq<BufEntry>, i: int)
    requires
        ids_unique(s),
        0 <= i < s.len(),
    ensures
        ids_unique(s.remove(i)),
        !has_buf(s.remove(i), s[i].id),
        forall|id: u32| id != s[i].id ==> (has_buf(s.remove(i), id) <==> has_buf(s, id)),
        forall|id: u32|
            id != s[i].id && has_buf(s, id) ==> rev_of(s.remove(i), id) == rev_of(s, id),
{
    let t = s.remove(i);
    assert(t.len() == s.len() - 1);
    assert forall|j: int| 0 <= j < t.len() implies t[j] == s[if j < i { j } else { j + 1 }] by {}
    if has_buf(t, s[i].id) {
        let j = choose|j: int| 0 <= j < t.len() && t[j].id == s[i].id;
        assert(false);
    }
    assert forall|id: u32| id != s[i].id implies (has_buf(t, id) <==> has_buf(s, id)) by {
        if has_buf(t, id) {
            let j = choose|j: int| 0 <= j < t.len() && t[j].id == id;
            assert(s[if j < i { j } else { j + 1 }].id == id);
        }
        if has_buf(s, id) {
            let j = choose|j: int| 0 <= j < s.len() && s[j].id == id;
            assert(j != i);
            assert(t[if j < i { j } else { j - 1 }].id == id);
        }
    }
    assert forall|id: u32|
        id != s[i].id && has_buf(s, id) implies rev_of(t, id) == rev_of(s, id) by {
        let j = buf_idx(s, id);
        assert(0 <= j < s.len() && s[j].id == id);
        assert(j != i);
        lemma_buf_idx_of(s, j);
        let j2: int = if j < i { j } else { j - 1 };
        assert(t[j2].id == id);
        lemma_buf_idx_of(t, j2);
    }
}

/// How a buffer-attachment attempt ended; only `Attached` changes state, and
/// only `Attached` has the host glue install the buffer-scoped listeners.
#[derive(Clone, Copy, PartialEq, Eq, Structural, Debug)]
pub enum AttachOutcome {
    /// The buffer is already in the attached set.
    AlreadyAttached,
    /// The buffer is not editable; nothing is installed.
    NotModifiable,
    /// No enabled source wants the buffer.
    NoSource,
    /// The host refused the byte-change attachment; an error is echoed and
    /// the buffer stays unattached, with no retry.
    HostFailed,
    /// The buffer joined the attached set and its listeners are owed.
    Attached,
}

/// The control-thread state: attached buffers with their revision counters,
/// the listener registrations owed to the host, the source registry and the
/// UI snapshot last forwarded for display.
pub struct Client {
    bufs: Vec<BufEntry>,
    listeners: Vec<u32>,
    pending_detach: Vec<u32>,
    sources: Vec<SourceKind>,
    augroup: Option<u32>,
    displayed: Option<Vec<CompletionItem>>,
    menu_open: bool,
    selected: Option<usize>,
    did_setup: bool,
}

/// The mathematical content of the control-thread state.
#[verifier::ext_equal]
pub ghost struct ClientView {
    pub bufs: Seq<BufEntry>,
    pub listeners: Seq<u32>,
    pub pending_detach: Seq<u32>,
    pub sources: Seq<SourceKind>,
    pub augroup: Option<u32>,
    pub displayed: Option<Seq<ItemView>>,
    pub menu_open: bool,
    pub selected: Option<usize>,
    pub did_setup: bool,
}

impl View for Client {
    type V = ClientView;

    closed spec fn view(&self) -> ClientView {
        ClientView {
            bufs: self.bufs@,
            listeners: self.listeners@,
            pending_detach: self.pending_detach@,
            sources: self.sources@,
            augroup: self.augroup,
            displayed: match self.displayed {
                Some(items) => Some(item_views(items@)),
                None => None,
            },
            menu_open: self.menu_open,
            selected: self.selected,
            did_setup: self.did_setup,
        }
    }
}

/// The state's invariant: buffers are tracked at most once, and listeners
/// are installed at most once each, only on attached buffers.
pub open spec fn wf_view(c: ClientView) -> bool {
    &&& ids_unique(c.bufs)
    &&& c.listeners.no_duplicates()
    &&& forall|i: int| 0 <= i < c.listeners.len() ==> has_buf(c.bufs, c.listeners[i])
    &&& match c.selected {
        Some(k) => c.displayed is Some && (k as int) < c.displayed->Some_0.len(),
        None => true,
    }
}

/// A fresh session's state: nothing attached, nothing displayed, no sources.
pub open spec fn fresh_client_view() -> ClientView {
    ClientView {
        bufs: Seq::empty(),
        listeners: Seq::empty(),
        pending_detach: Seq::empty(),
        sources: Seq::empty(),
        augroup: None,
        displayed: None,
        menu_open: false,
        selected: None,
        did_setup: false,
    }
}

impl Client {
    /// The state's invariant.
    pub open spec fn wf(&self) -> bool {
        wf_view(self@)
    }

    /// A fresh session: nothing attached, nothing displayed, no sources yet.
    pub fn new() -> (r: Self)
        ensures
            r.wf(),
            r@ == fresh_client_view(),
    {
        let r = Client {
            bufs: Vec::new(),
            listeners: Vec::new(),
            pending_detach: Vec::new(),
            sources: Vec::new(),
            augroup: None,
            displayed: None,
            menu_open: false,
            selected: None,
            did_setup: false,
        };
        proof {
            assert(r@ =~~= fresh_client_view());
        }
        r
    }

    /// The position of the entry tracking `buf`, if the buffer is attached.
    fn find_buf(&self, buf: u32) -> (r: Option<usize>)
        ensures
            match r {
                Some(i) => i < self@.bufs.len() && self@.bufs[i as int].id == buf,
                None => !has_buf(self@.bufs, buf),
            },
    {
        let n = self.bufs.len();
        for i in 0..n
            invariant
                n == self@.bufs.len(),
                forall|j: int| 0 <= j < i ==> self@.bufs[j].id != buf,
        {
            if self.bufs[i].id == buf {
                return Some(i);
            }
        }
        None
    }

    /// Whether the buffer is in the attached set.
    pub fn is_attached(&self, buf: u32) -> (r: bool)
        ensures
            r == has_buf(self@.bufs, buf),
    {
        self.find_buf(buf).is_some()
    }

    /// Whether any enabled source wants to attach to the buffer; with the
    /// built-in variants that is exactly "some source is enabled".
    pub fn any_source_wants(&self, buf: u32) -> (r: bool)
        ensures
            r == (self@.sources.len() > 0),
    {
        let n = self.sources.len();
        // every built-in variant answers yes, so the loop never passes its
        // first iteration
        for i in 0..n
            invariant
                n == self@.sources.len(),
                i == 0,
        {
            if self.sources[i].wants_attach(buf) {
                return true;
            }
        }
        false
    }

    /// The decision `on_buf_enter` takes, before any state change.
    pub open spec fn spec_attach_outcome(
        c: ClientView,
        buf: u32,
        modifiable: bool,
        host_attach_ok: bool,
    ) -> AttachOutcome {
        if has_buf(c.bufs, buf) {
            AttachOutcome::AlreadyAttached
        } else if !modifiable {
            AttachOutcome::NotModifiable
        } else if c.sources.len() == 0 {
            AttachOutcome::NoSource
        } else if !host_attach_ok {
            AttachOutcome::HostFailed
        } else {
            AttachOutcome::Attached
        }
    }

    /// Decides whether to observe a buffer the user entered. A buffer joins
    /// the attached set only if it is not attached yet, it is editable, some
    /// enabled source wants it and the host accepted the byte-change
    /// attachment (`host_attach_ok` is the host's answer, asked only when
    /// the decision reaches it). Only then are the buffer-scoped listeners
    /// owed; on any refusal the state is untouched and nothing is installed.
    pub fn on_buf_enter(&mut self, buf: u32, modifiable: bool, host_attach_ok: bool) -> (r:
        AttachOutcome)
        requires
            old(self).wf(),
        ensures
            final(self).wf(),
            r == Self::spec_attach_outcome(old(self)@, buf, modifiable, host_attach_ok),
            r != AttachOutcome::Attached ==> final(self)@ == old(self)@,
            r == AttachOutcome::Attached ==> final(self)@ == (ClientView {
                bufs: old(self)@.bufs.push(BufEntry { id: buf, rev: 0 }),
                listeners: old(self)@.listeners.push(buf),
                ..old(self)@
            }),
            r == AttachOutcome::Attached ==> has_buf(final(self)@.bufs, buf) && rev_of(
                final(self)@.bufs,
                buf,
            ) == 0,
    {
        if self.is_attached(buf) {
            return AttachOutcome::AlreadyAttached;
        }
        if !modifiable {
            return AttachOutcome::NotModifiable;
        }
        if !self.any_source_wants(buf) {
            return AttachOutcome::NoSource;
        }
        if !host_attach_ok {
            return AttachOutcome::HostFailed;
        }
        let ghost s0 = self@.bufs;
        self.bufs.push(BufEntry { id: buf, rev: 0 });
        self.listeners.push(buf);
        proof {
            assert(self@ =~~= (ClientView {
                bufs: old(self)@.bufs.push(BufEntry { id: buf, rev: 0 }),
                listeners: old(self)@.listeners.push(buf),
                ..old(self)@
            }));
            let t = self@.bufs;
            assert forall|i: int, j: int| 0 <= i < j < t.len() implies t[i].id != t[j].id by {
                if j == t.len() - 1 {
                    assert(s0[i].id != buf);
                }
            }
            assert forall|i: int| 0 <= i < self@.listeners.len() implies has_buf(
                self@.bufs,
                self@.listeners[i],
            ) by {
                if i < old(self)@.listeners.len() {
                    let k = buf_idx(s0, old(self)@.listeners[i]);
                    assert(0 <= k < s0.len() && s0[k].id == old(self)@.listeners[i]);
                    assert(t[k].id == old(self)@.listeners[i]);
                } else {
                    assert(t[t.len() - 1].id == buf);
                }
            }
            assert(self@.listeners.no_duplicates()) by {
                assert forall|i: int| 0 <= i < old(self)@.listeners.len() implies old(
                    self,
                )@.listeners[i] != buf by {
                    if old(self)@.listeners[i] == buf {
                        assert(has_buf(s0, buf));
                    }
                }
            }
            lemma_buf_idx_of(t, t.len() - 1);
        }
        AttachOutcome::Attached
    }

    /// The error echoed when the host refuses a buffer attachment.
    pub fn attach_error_msg() -> (r: EchoMsg)
        ensures
            r@.severity == Severity::Error,
            r@.chunks =~= seq![
                (ChunkView { text: "Couldn't attach to buffer"@, hl: None }),
            ],
    {
        let mut chunks: Vec<Chunk> = Vec::new();
        chunks.push(Chunk { text: "Couldn't attach to buffer".to_owned(), hl: None });
        EchoMsg { severity: Severity::Error, chunks }
    }

    /// Stops observing a buffer. Invoked mid-event-processing the removal is
    /// deferred — the buffer is queued as pending-detach so listener state is
    /// not mutated while the host iterates it — otherwise the buffer and its
    /// listeners are dropped at once; revisions of other buffers are kept.
    pub fn detach(&mut self, buf: u32, mid_event: bool) -> (deferred: bool)
        requires
            old(self).wf(),
        ensures
            final(self).wf(),
            deferred == mid_event,
            mid_event ==> final(self)@ == (ClientView {
                pending_detach: old(self)@.pending_detach.push(buf),
                ..old(self)@
            }),
            !mid_event ==> {
                &&& !has_buf(final(self)@.bufs, buf)
                &&& forall|id: u32|
                    id != buf ==> (has_buf(final(self)@.bufs, id) <==> has_buf(
                        old(self)@.bufs,
                        id,
                    ))
                &&& forall|id: u32|
                    id != buf && has_buf(old(self)@.bufs, id) ==> rev_of(final(self)@.bufs, id)
                        == rev_of(old(self)@.bufs, id)
                &&& !final(self)@.listeners.contains(buf)
                &&& forall|id: u32|
                    id != buf ==> (final(self)@.listeners.contains(id) <==> old(
                        self,
                    )@.listeners.contains(id))
                &&& final(self)@.pending_detach == old(self)@.pending_detach
                &&& final(self)@.sources == old(self)@.sources
                &&& final(self)@.augroup == old(self)@.augroup
                &&& final(self)@.displayed == old(self)@.displayed
                &&& final(self)@.menu_open == old(self)@.menu_open
                &&& final(self)@.did_setup == old(self)@.did_setup
            },
    {
        if mid_event {
            self.pending_detach.push(buf);
            proof {
                assert(self@ =~~= (ClientView {
                    pending_detach: old(self)@.pending_detach.push(buf),
                    ..old(self)@
                }));
            }
            return true;
        }
        let ghost s0 = self@.bufs;
        match self.find_buf(buf) {
            Some(i) => {
                proof {
                    lemma_remove_entry(s0, i as int);
                    assert(s0[i as int].id == buf);
                }
                self.bufs.remove(i);
            },
            None => {},
        }
        self.remove_listener(buf);
        proof {
            assert forall|i: int| 0 <= i < self@.listeners.len() implies has_buf(
                self@.bufs,
                self@.listeners[i],
            ) by {
                let id = self@.listeners[i];
                assert(self@.listeners.contains(id));
                assert(old(self)@.listeners.contains(id));
                assert(id != buf);
                let k = choose|k: int|
                    0 <= k < old(self)@.listeners.len() && old(self)@.listeners[k] == id;
                assert(has_buf(old(self)@.bufs, id));
            }
        }
        false
    }

    /// Drops the buffer's listener registration, leaving the others.
    fn remove_listener(&mut self, buf: u32)
        requires
            old(self)@.listeners.no_duplicates(),
        ensures
            final(self)@.listeners.no_duplicates(),
            !final(self)@.listeners.contains(buf),
            forall|id: u32|
                id != buf ==> (final(self)@.listeners.contains(id) <==> old(
                    self,
                )@.listeners.contains(id)),
            forall|id: u32|
                final(self)@.listeners.contains(id) ==> old(self)@.listeners.contains(id),
            final(self)@ == (ClientView { listeners: final(self)@.listeners, ..old(self)@ }),
    {
        let ghost c0 = self@;
        let ghost l0 = self@.listeners;
        let n = self.listeners.len();
        let mut i: usize = 0;
        while i < n
            invariant
                n == l0.len(),
                0 <= i <= n,
                self.listeners@ == l0,
                self@ == c0,
                c0 == old(self)@,
                l0.no_duplicates(),
                forall|j: int| 0 <= j < i ==> l0[j] != buf,
            decreases n - i,
        {
            if self.listeners[i] == buf {
                self.listeners.remove(i);
                proof {
                    let t = self@.listeners;
                    l0.remove_ensures(i as int);
                    assert(t == l0.remove(i as int));
                    assert forall|a: int, b: int|
                        0 <= a < t.len() && 0 <= b < t.len() && a != b implies t[a] != t[b] by {
                        let a0: int = if a < i { a } else { a + 1 };
                        let b0: int = if b < i { b } else { b + 1 };
                        assert(t[a] == l0[a0] && t[b] == l0[b0] && a0 != b0);
                    }
                    assert(t.no_duplicates());
                    assert forall|id: u32| id != buf implies (t.contains(id) <==> l0.contains(
                        id,
                    )) by {
                        if t.contains(id) {
                            let k = choose|k: int| 0 <= k < t.len() && t[k] == id;
                            assert(l0[if k < i { k } else { k + 1 }] == id);
                        }
                        if l0.contains(id) {
                            let k = choose|k: int| 0 <= k < l0.len() && l0[k] == id;
                            assert(k != i);
                            assert(t[if k < i { k } else { k - 1 }] == id);
                        }
                    }
                    if t.contains(buf) {
                        let k = choose|k: int| 0 <= k < t.len() && t[k] == buf;
                        let k0: int = if k < i { k } else { k + 1 };
                        assert(l0[k0] == buf);
                        assert(l0[i as int] == buf);
                        assert(false);
                    }
                    assert forall|id: u32| t.contains(id) implies l0.contains(id) by {
                        let k = choose|k: int| 0 <= k < t.len() && t[k] == id;
                        assert(l0[if k < i { k } else { k + 1 }] == id);
                    }
                    assert(self@ =~~= (ClientView { listeners: self@.listeners, ..old(self)@ }));
                }
                return ;
            }
            i += 1;
        }
        proof {
            if self@.listeners.contains(buf) {
                let k = choose|k: int| 0 <= k < l0.len() && l0[k] == buf;
                assert(false);
            }
            assert(self@ =~~= (ClientView { listeners: self@.listeners, ..old(self)@ }));
        }
    }
}

/// Whether a bundle still matches its buffer's current revision: the
/// staleness check deciding whether arrived results may be displayed.
pub open spec fn spec_applies(c: ClientView, b: BundleView) -> bool {
    has_buf(c.bufs, b.buf) && b.rev == rev_of(c.bufs, b.buf)
}

/// What one arrived bundle does to the state: a matching revision replaces
/// the displayed list with the bundle's merge; a mismatch is silently
/// discarded and changes nothing.
pub open spec fn spec_handle_bundle(c: ClientView, b: BundleView) -> ClientView {
    if spec_applies(c, b) {
        ClientView { displayed: Some(merged_of(b.outcomes)), selected: None, ..c }
    } else {
        c
    }
}

/// One drain pass: arrived bundles applied in arrival order; among bundles
/// that still apply, the last valid one wins.
pub open spec fn spec_arrival(c: ClientView, bs: Seq<BundleView>) -> ClientView
    decreases bs.len(),
{
    if bs.len() == 0 {
        c
    } else {
        spec_arrival(spec_handle_bundle(c, bs[0]), bs.drop_first())
    }
}

/// A drain pass handles one more bundle by handling it after the others.
pub proof fn lemma_arrival_push(c: ClientView, bs: Seq<BundleView>, b: BundleView)
    ensures
        spec_arrival(c, bs.push(b)) == spec_handle_bundle(spec_arrival(c, bs), b),
    decreases bs.len(),
{
    if bs.len() == 0 {
        assert(bs.push(b)[0] == b);
        assert(bs.push(b).drop_first() =~= Seq::<BundleView>::empty());
        assert(spec_arrival(c, bs.push(b)) == spec_arrival(
            spec_handle_bundle(c, b),
            Seq::<BundleView>::empty(),
        ));
        assert(spec_arrival(spec_handle_bundle(c, b), Seq::<BundleView>::empty())
            == spec_handle_bundle(c, b));
        assert(spec_arrival(c, bs) == c);
    } else {
        assert(bs.push(b)[0] == bs[0]);
        assert(bs.push(b).drop_first() =~= bs.drop_first().push(b));
        lemma_arrival_push(spec_handle_bundle(c, bs[0]), bs.drop_first(), b);
        assert(spec_arrival(c, bs.push(b)) == spec_arrival(
            spec_handle_bundle(c, bs[0]),
            bs.drop_first().push(b),
        ));
        assert(spec_arrival(c, bs) == spec_arrival(spec_handle_bundle(c, bs[0]), bs.drop_first()));
    }
}

/// Any bundle discarded by the staleness check while in flight — dispatched
/// at or before the buffer's current revision, as every bundle is — carries
/// a revision id strictly below the buffer's current one at discard time.
pub proof fn lemma_discarded_bundle_is_stale(c: ClientView, b: BundleView)
    requires
        has_buf(c.bufs, b.buf),
        b.rev <= rev_of(c.bufs, b.buf),
        !spec_applies(c, b),
    ensures
        b.rev < rev_of(c.bufs, b.buf),
{
}

/// Draining an empty channel is a no-op.
pub proof fn lemma_drain_empty_is_noop(c: ClientView)
    ensures
        spec_arrival(c, Seq::<BundleView>::empty()) == c,
{
}

/// Applying an identical valid bundle twice yields the same state — and so
/// the same displayed candidate list — as applying it once.
pub proof fn lemma_apply_twice_idempotent(c: ClientView, b: BundleView)
    requires
        spec_applies(c, b),
    ensures
        spec_handle_bundle(spec_handle_bundle(c, b), b) == spec_handle_bundle(c, b),
{
    let c1 = spec_handle_bundle(c, b);
    assert(c1.bufs == c.bufs);
    assert(spec_applies(c1, b));
    assert(spec_handle_bundle(c1, b) =~~= c1);
}

/// The buffer table after one accepted edit: the edited buffer's counter is
/// one higher, everything else is as it was.
pub open spec fn spec_bump(s: Seq<BufEntry>, id: u32) -> Seq<BufEntry>
    recommends
        has_buf(s, id),
{
    s.update(buf_idx(s, id), BufEntry { id, rev: (rev_of(s, id) + 1) as u64 })
}

/// Per-buffer revision ids never decrease: one accepted edit moves the
/// edited buffer's counter up and every other counter stays. A bundle
/// dispatched at the then-current revision therefore never exceeds the
/// buffer's current revision when it arrives, which is what lets a
/// discarded bundle be called strictly stale.
pub proof fn lemma_revisions_never_decrease(s: Seq<BufEntry>, buf: u32)
    requires
        ids_unique(s),
        has_buf(s, buf),
        rev_of(s, buf) < u64::MAX,
    ensures
        forall|id: u32|
            has_buf(s, id) ==> rev_of(spec_bump(s, buf), id) >= rev_of(s, id),
{
    let i = buf_idx(s, buf);
    assert(0 <= i < s.len() && s[i].id == buf);
    lemma_buf_idx_of(s, i);
    lemma_update_entry(s, i, BufEntry { id: buf, rev: (rev_of(s, buf) + 1) as u64 });
}

impl Client {
    /// Accepts one edit in an attached buffer and dispatches one cycle for
    /// it: the revision counter moves up by exactly one, exactly one context
    /// is built from the post-increment value, and exactly one request per
    /// enabled source is scheduled, all sharing that context and so its
    /// revision id. An edit in an unattached buffer is ignored.
    pub fn handle_edit(&mut self, buf: u32, row: usize, col: usize, line: String) -> (r: Option<
        (CompletionContext, Vec<CompletionRequest>),
    >)
        requires
            old(self).wf(),
            has_buf(old(self)@.bufs, buf) ==> rev_of(old(self)@.bufs, buf) < u64::MAX,
        ensures
            final(self).wf(),
            !has_buf(old(self)@.bufs, buf) ==> r is None && final(self)@ == old(self)@,
            has_buf(old(self)@.bufs, buf) ==> {
                &&& r is Some
                &&& final(self)@ == (ClientView {
                    bufs: spec_bump(old(self)@.bufs, buf),
                    ..old(self)@
                })
                &&& rev_of(final(self)@.bufs, buf) == rev_of(old(self)@.bufs, buf) + 1
                &&& forall|id: u32|
                    id != buf && has_buf(old(self)@.bufs, id) ==> rev_of(final(self)@.bufs, id)
                        == rev_of(old(self)@.bufs, id)
                &&& forall|id: u32| has_buf(final(self)@.bufs, id) <==> has_buf(old(self)@.bufs, id)
                &&& r->Some_0.0@ == (CtxView {
                    buf,
                    row,
                    col,
                    line: line@,
                    rev: (rev_of(old(self)@.bufs, buf) + 1) as u64,
                })
                &&& r->Some_0.1@.len() == old(self)@.sources.len()
                &&& forall|k: int|
                    0 <= k < r->Some_0.1@.len() ==> r->Some_0.1@[k].source == k
                        && r->Some_0.1@[k].ctx@ == r->Some_0.0@
            },
    {
        let i = match self.find_buf(buf) {
            Some(i) => i,
            None => { return None; },
        };
        let ghost s0 = self@.bufs;
        proof {
            lemma_buf_idx_of(s0, i as int);
        }
        let new_rev = self.bufs[i].rev + 1;
        self.bufs[i] = BufEntry { id: buf, rev: new_rev };
        proof {
            lemma_update_entry(s0, i as int, BufEntry { id: buf, rev: new_rev });
            assert(self@.bufs =~= spec_bump(s0, buf));
            assert(self@ =~~= (ClientView { bufs: spec_bump(s0, buf), ..old(self)@ }));
        }
        let ctx = CompletionContext::new(buf, row, col, line, new_rev);
        let n = self.sources.len();
        let mut reqs: Vec<CompletionRequest> = Vec::new();
        for k in 0..n
            invariant
                n == self@.sources.len(),
                reqs@.len() == k,
                forall|j: int|
                    0 <= j < k ==> reqs@[j].source == j && reqs@[j].ctx@ == ctx@,
        {
            reqs.push(CompletionRequest { source: k, ctx: ctx.duplicate() });
        }
        Some((ctx, reqs))
    }

    /// Applies one arrived bundle: merged and displayed if its revision
    /// still matches the buffer's current one, silently discarded otherwise.
    pub fn handle_bundle(&mut self, bundle: &CompletionBundle) -> (applied: bool)
        requires
            old(self).wf(),
        ensures
            final(self).wf(),
            applied == spec_applies(old(self)@, bundle@),
            final(self)@ == spec_handle_bundle(old(self)@, bundle@),
    {
        match self.find_buf(bundle.buf) {
            Some(i) => {
                proof {
                    lemma_buf_idx_of(self@.bufs, i as int);
                }
                if self.bufs[i].rev == bundle.rev {
                    let merged = bundle.merge();
                    self.displayed = Some(merged);
                    self.selected = None;
                    proof {
                        assert(self@ =~~= spec_handle_bundle(old(self)@, bundle@));
                    }
                    true
                } else {
                    false
                }
            },
            None => false,
        }
    }

    /// One drain point: applies every pending bundle in arrival order. Stale
    /// bundles are discarded on the way; among valid ones the last wins.
    pub fn on_completions_arrival(&mut self, bundles: &Vec<CompletionBundle>)
        requires
            old(self).wf(),
        ensures
            final(self).wf(),
            final(self)@ == spec_arrival(old(self)@, bundle_views(bundles@)),
    {
        let ghost c0 = self@;
        let ghost views = bundle_views(bundles@);
        let n = bundles.len();
        for i in 0..n
            invariant
                n == bundles@.len(),
                views == bundle_views(bundles@),
                c0 == old(self)@,
                self.wf(),
                self@ == spec_arrival(c0, views.take(i as int)),
        {
            self.handle_bundle(&bundles[i]);
            proof {
                assert(views.take(i + 1) =~= views.take(i as int).push(views[i as int]));
                lemma_arrival_push(c0, views.take(i as int), views[i as int]);
            }
        }
        proof {
            assert(views.take(n as int) =~= views);
        }
    }

    /// Leaving insert mode hides the open UI; in-flight results are not
    /// cancelled, staleness filters them on arrival.
    pub fn on_insert_leave(&mut self)
        requires
            old(self).wf(),
        ensures
            final(self).wf(),
            final(self)@ == (ClientView { menu_open: false, selected: None, ..old(self)@ }),
    {
        self.menu_open = false;
        self.selected = None;
        proof {
            assert(self@ =~~= (ClientView { menu_open: false, selected: None, ..old(self)@ }));
        }
    }

    /// Handles the backend's termination. The designated shutdown code is
    /// the sole non-error exit: nothing is reported and nothing changes. Any
    /// other code tears the UI down, removes every listener registration and
    /// yields exactly one error notification whose second chunk is the exit
    /// code's decimal digits.
    pub fn on_exit(&mut self, exit_code: u32) -> (r: Option<EchoMsg>)
        requires
            old(self).wf(),
        ensures
            final(self).wf(),
            exit_code == SHUTDOWN_EXIT_CODE ==> r is None && final(self)@ == old(self)@,
            exit_code != SHUTDOWN_EXIT_CODE ==> {
                &&& r is Some
                &&& r->Some_0@.severity == Severity::Error
                &&& r->Some_0@.chunks =~~= seq![
                    (ChunkView { text: "The server just quit with exit code "@, hl: None }),
                    (ChunkView {
                        text: spec_digits(exit_code as nat),
                        hl: Some(HlGroup::Visual),
                    }),
                ]
                &&& final(self)@ == (ClientView {
                    listeners: Seq::<u32>::empty(),
                    augroup: None,
                    displayed: None,
                    menu_open: false,
                    selected: None,
                    ..old(self)@
                })
            },
    {
        if exit_code == SHUTDOWN_EXIT_CODE {
            return None;
        }
        self.listeners = Vec::new();
        self.augroup = None;
        self.displayed = None;
        self.menu_open = false;
        self.selected = None;
        let mut chunks: Vec<Chunk> = Vec::new();
        chunks.push(Chunk {
            text: "The server just quit with exit code ".to_owned(),
            hl: None,
        });
        chunks.push(Chunk { text: u32_to_string(exit_code), hl: Some(HlGroup::Visual) });
        let msg = EchoMsg { severity: Severity::Error, chunks };
        proof {
            assert(msg@.chunks =~~= seq![
                (ChunkView { text: "The server just quit with exit code "@, hl: None }),
                (ChunkView { text: spec_digits(exit_code as nat), hl: Some(HlGroup::Visual) }),
            ]);
            assert(self@ =~~= (ClientView {
                listeners: Seq::<u32>::empty(),
                augroup: None,
                displayed: None,
                menu_open: false,
                selected: None,
                ..old(self)@
            }));
        }
        Some(msg)
    }
}

/// A key mapping's decision: which user-facing command the pressed key
/// resolves to, or a pass-through of the key itself.
#[derive(Clone, Copy, PartialEq, Eq, Structural, Debug)]
pub enum KeyAction {
    NextCompletion,
    PrevCompletion,
    ShowCompletions,
    InsertSelected,
    PassThrough,
}

/// What a start command hands back: the notice to echo, and whether the
/// deferred buffer-attach callback is to be scheduled on the host.
pub struct StartEffect {
    pub notice: EchoMsg,
    pub schedule_attach: bool,
}

/// The state after starting completion in all buffers: refused outright if
/// the event group already exists, otherwise the detach queue is dropped and
/// a fresh event group is recorded.
pub open spec fn spec_start_all(c: ClientView, g: u32) -> ClientView {
    if c.augroup is Some {
        c
    } else {
        ClientView { pending_detach: Seq::empty(), augroup: Some(g), ..c }
    }
}

/// The state after starting completion in one buffer: refused if the buffer
/// is attached already, otherwise the buffer leaves the detach queue and the
/// event group is created if missing.
pub open spec fn spec_start_current(c: ClientView, buf: u32, g: u32) -> ClientView {
    if has_buf(c.bufs, buf) {
        c
    } else {
        ClientView {
            pending_detach: c.pending_detach.filter(not_buf(buf)),
            augroup: if c.augroup is Some {
                c.augroup
            } else {
                Some(g)
            },
            ..c
        }
    }
}

/// The detach-queue entries kept when `buf` leaves the queue.
pub open spec fn not_buf(buf: u32) -> spec_fn(u32) -> bool {
    |id: u32| id != buf
}

/// Filtering one more element keeps the filter of the rest.
proof fn lemma_filter_push_u32(s: Seq<u32>, pred: spec_fn(u32) -> bool, x: u32)
    ensures
        s.push(x).filter(pred) == (if pred(x) {
            s.filter(pred).push(x)
        } else {
            s.filter(pred)
        }),
{
    reveal(Seq::filter);
    assert(s.push(x).drop_last() =~= s);
    assert(s.push(x).last() == x);
}

impl Client {
    /// Takes the buffer out of the pending-detach queue, all occurrences.
    fn unqueue_pending_detach(&mut self, buf: u32)
        ensures
            final(self)@ == (ClientView {
                pending_detach: old(self)@.pending_detach.filter(not_buf(buf)),
                ..old(self)@
            }),
    {
        let ghost p0 = self@.pending_detach;
        let ghost pred = not_buf(buf);
        let mut keep: Vec<u32> = Vec::new();
        let n = self.pending_detach.len();
        for i in 0..n
            invariant
                n == self.pending_detach@.len(),
                self.pending_detach@ == p0,
                pred == not_buf(buf),
                keep@ == p0.take(i as int).filter(pred),
        {
            let ghost k0 = keep@;
            if self.pending_detach[i] != buf {
                keep.push(self.pending_detach[i]);
            }
            proof {
                assert(p0.take(i + 1) =~= p0.take(i as int).push(p0[i as int]));
                lemma_filter_push_u32(p0.take(i as int), pred, p0[i as int]);
            }
        }
        proof {
            assert(p0.take(n as int) =~= p0);
        }
        self.pending_detach = keep;
        proof {
            assert(self@ =~~= (ClientView {
                pending_detach: old(self)@.pending_detach.filter(not_buf(buf)),
                ..old(self)@
            }));
        }
    }

    /// Starts completion in every buffer: refused with an error notice when
    /// it is already on; otherwise the host is handed a fresh event group id
    /// `new_augroup`, the detach queue is dropped, an info notice is echoed
    /// and the deferred attach callback is owed.
    pub fn attach_all_buffers(&mut self, new_augroup: u32) -> (r: StartEffect)
        requires
            old(self).wf(),
        ensures
            final(self).wf(),
            final(self)@ == spec_start_all(old(self)@, new_augroup),
            r.schedule_attach == (old(self)@.augroup is None),
            old(self)@.augroup is Some ==> r.notice@.severity == Severity::Error
                && r.notice@.chunks =~~= seq![
                (ChunkView { text: "Completion is already on"@, hl: None }),
            ],
            old(self)@.augroup is None ==> r.notice@.severity == Severity::Info
                && r.notice@.chunks =~~= seq![
                (ChunkView { text: "Started completion in all buffers"@, hl: None }),
            ],
    {
        if self.augroup.is_some() {
            let mut chunks: Vec<Chunk> = Vec::new();
            chunks.push(Chunk { text: "Completion is already on".to_owned(), hl: None });
            return StartEffect {
                notice: EchoMsg { severity: Severity::Error, chunks },
                schedule_attach: false,
            };
        }
        self.pending_detach = Vec::new();
        self.augroup = Some(new_augroup);
        proof {
            assert(self@ =~~= spec_start_all(old(self)@, new_augroup));
        }
        let mut chunks: Vec<Chunk> = Vec::new();
        chunks.push(Chunk { text: "Started completion in all buffers".to_owned(), hl: None });
        StartEffect {
            notice: EchoMsg { severity: Severity::Info, chunks },
            schedule_attach: true,
        }
    }

    /// Starts completion in one buffer: refused with an error notice when
    /// the buffer is attached already; otherwise the buffer leaves the
    /// detach queue, the event group is created if missing, an info notice
    /// naming the buffer is echoed and the deferred attach callback is owed.
    pub fn attach_current_buffer(&mut self, buf: u32, new_augroup: u32) -> (r: StartEffect)
        requires
            old(self).wf(),
        ensures
            final(self).wf(),
            final(self)@ == spec_start_current(old(self)@, buf, new_augroup),
            r.schedule_attach == !has_buf(old(self)@.bufs, buf),
            has_buf(old(self)@.bufs, buf) ==> r.notice@.severity == Severity::Error
                && r.notice@.chunks =~~= seq![
                (ChunkView { text: "Completion is already on in this buffer"@, hl: None }),
            ],
            !has_buf(old(self)@.bufs, buf) ==> r.notice@.severity == Severity::Info
                && r.notice@.chunks =~~= seq![
                (ChunkView { text: "Started completion in buffer "@, hl: None }),
                (ChunkView { text: spec_digits(buf as nat), hl: Some(HlGroup::Visual) }),
            ],
    {
        if self.is_attached(buf) {
            let mut chunks: Vec<Chunk> = Vec::new();
            chunks.push(Chunk {
                text: "Completion is already on in this buffer".to_owned(),
                hl: None,
            });
            return StartEffect {
                notice: EchoMsg { severity: Severity::Error, chunks },
                schedule_attach: false,
            };
        }
        self.unqueue_pending_detach(buf);
        if self.augroup.is_none() {
            self.augroup = Some(new_augroup);
        }
        proof {
            assert(self@ =~~= spec_start_current(old(self)@, buf, new_augroup));
        }
        let mut chunks: Vec<Chunk> = Vec::new();
        chunks.push(Chunk { text: "Started completion in buffer ".to_owned(), hl: None });
        chunks.push(Chunk { text: u32_to_string(buf), hl: Some(HlGroup::Visual) });
        StartEffect {
            notice: EchoMsg { severity: Severity::Info, chunks },
            schedule_attach: true,
        }
    }

    /// The start user command: with a bang completion starts in all
    /// buffers, without one only in the current buffer.
    pub fn compleet_start(&mut self, bang: bool, current_buf: u32, new_augroup: u32) -> (r:
        StartEffect)
        requires
            old(self).wf(),
        ensures
            final(self).wf(),
            bang ==> final(self)@ == spec_start_all(old(self)@, new_augroup)
                && r.schedule_attach == (old(self)@.augroup is None),
            !bang ==> final(self)@ == spec_start_current(old(self)@, current_buf, new_augroup)
                && r.schedule_attach == !has_buf(old(self)@.bufs, current_buf),
            r.schedule_attach ==> r.notice@.severity == Severity::Info,
            !r.schedule_attach ==> r.notice@.severity == Severity::Error,
    {
        if bang {
            self.attach_all_buffers(new_augroup)
        } else {
            self.attach_current_buffer(current_buf, new_augroup)
        }
    }

    /// Opens the completion menu over the displayed candidates; nothing
    /// opens when there is nothing to show.
    pub fn show_completions(&mut self) -> (shown: bool)
        requires
            old(self).wf(),
        ensures
            final(self).wf(),
            shown == (old(self)@.displayed is Some && old(self)@.displayed->Some_0.len() > 0),
            shown ==> final(self)@ == (ClientView { menu_open: true, ..old(self)@ }),
            !shown ==> final(self)@ == old(self)@,
    {
        let has = match &self.displayed {
            Some(d) => d.len() > 0,
            None => false,
        };
        if has {
            self.menu_open = true;
            proof {
                assert(self@ =~~= (ClientView { menu_open: true, ..old(self)@ }));
            }
            true
        } else {
            false
        }
    }

    /// Moves the menu selection one candidate forward or backward, wrapping
    /// around; without an open menu over candidates nothing moves.
    pub fn select_completion(&mut self, forward: bool)
        requires
            old(self).wf(),
        ensures
            final(self).wf(),
            !(old(self)@.menu_open && old(self)@.displayed is Some
                && old(self)@.displayed->Some_0.len() > 0) ==> final(self)@ == old(self)@,
            (old(self)@.menu_open && old(self)@.displayed is Some
                && old(self)@.displayed->Some_0.len() > 0) ==> {
                let n = old(self)@.displayed->Some_0.len() as int;
                let next: int = match old(self)@.selected {
                    Some(k) => if forward {
                        if k + 1 == n { 0 } else { k + 1 }
                    } else {
                        if k == 0 { n - 1 } else { k - 1 }
                    },
                    None => if forward { 0 } else { n - 1 },
                };
                final(self)@ == (ClientView { selected: Some(next as usize), ..old(self)@ })
            },
    {
        let n: usize = match &self.displayed {
            Some(d) => d.len(),
            None => 0,
        };
        if !self.menu_open || n == 0 {
            return ;
        }
        let next: usize = match self.selected {
            Some(k) => {
                if forward {
                    if k + 1 == n { 0 } else { k + 1 }
                } else {
                    if k == 0 { n - 1 } else { k - 1 }
                }
            },
            None => if forward { 0 } else { n - 1 },
        };
        self.selected = Some(next);
        proof {
            assert(self@ =~~= (ClientView { selected: Some(next), ..old(self)@ }));
        }
    }

    /// The candidate the menu selection rests on, ready for insertion.
    pub fn selected_completion(&self) -> (r: Option<CompletionItem>)
        requires
            self.wf(),
        ensures
            r is Some <==> self@.selected is Some,
            self@.selected is Some ==> r is Some && r->Some_0@
                == self@.displayed->Some_0[self@.selected->Some_0 as int],
    {
        match self.selected {
            Some(k) => match &self.displayed {
                Some(d) => Some(d[k].duplicate()),
                None => unreached(),
            },
            None => None,
        }
    }

    /// What the tab key resolves to: the next candidate when the menu is
    /// open, opening the menu when candidates are waiting, else the key
    /// itself.
    pub fn tab_action(&self) -> (r: KeyAction)
        ensures
            r == (if self@.menu_open {
                KeyAction::NextCompletion
            } else if self@.displayed is Some && self@.displayed->Some_0.len() > 0 {
                KeyAction::ShowCompletions
            } else {
                KeyAction::PassThrough
            }),
    {
        if self.menu_open {
            KeyAction::NextCompletion
        } else {
            let has = match &self.displayed {
                Some(d) => d.len() > 0,
                None => false,
            };
            if has {
                KeyAction::ShowCompletions
            } else {
                KeyAction::PassThrough
            }
        }
    }

    /// What shift-tab resolves to: the previous candidate when the menu is
    /// open, else the key itself.
    pub fn s_tab_action(&self) -> (r: KeyAction)
        ensures
            r == (if self@.menu_open {
                KeyAction::PrevCompletion
            } else {
                KeyAction::PassThrough
            }),
    {
        if self.menu_open {
            KeyAction::PrevCompletion
        } else {
            KeyAction::PassThrough
        }
    }

    /// What the return key resolves to: inserting the selected candidate
    /// when one is selected, else the key itself.
    pub fn cr_action(&self) -> (r: KeyAction)
        ensures
            r == (if self@.selected is Some {
                KeyAction::InsertSelected
            } else {
                KeyAction::PassThrough
            }),
    {
        if self.selected.is_some() {
            KeyAction::InsertSelected
        } else {
            KeyAction::PassThrough
        }
    }
}

/// The state once setup accepted a configuration enabling `en`: the registry
/// is replaced; the first successful setup also records the host event group
/// and marks the session set up.
pub open spec fn spec_setup_apply(c: ClientView, en: Seq<SourceKind>, g: u32) -> ClientView {
    ClientView {
        sources: en,
        augroup: if c.did_setup {
            c.augroup
        } else {
            Some(g)
        },
        did_setup: true,
        ..c
    }
}

impl Client {
    /// Applies the host's preferences to the session. A malformed table or a
    /// wrong-typed value aborts setup with one error notice and no state
    /// change; missing preferences enable nothing. Each invalid source entry
    /// yields its own error naming the offending field path without blocking
    /// the others; when no source ends up enabled, setup aborts with an
    /// error after the per-source notices. Otherwise the registry is
    /// installed and, on the first successful setup only, the host event
    /// group `new_augroup` is recorded.
    pub fn setup(&mut self, prefs: Preferences, new_augroup: u32) -> (r: Vec<EchoMsg>)
        requires
            old(self).wf(),
        ensures
            final(self).wf(),
            match prefs {
                Preferences::Missing => final(self)@ == old(self)@ && msg_views(r@) =~~= seq![
                    no_sources_view(),
                ],
                Preferences::WrongType => final(self)@ == old(self)@ && msg_views(r@).len() == 1
                    && msg_views(r@)[0].severity == Severity::Error,
                Preferences::Malformed { path, msg } => final(self)@ == old(self)@ && msg_views(
                    r@,
                ) =~~= seq![
                    (MsgView {
                        severity: Severity::Error,
                        chunks: config_error_chunk_views(path@, msg@),
                    }),
                ],
                Preferences::Parsed(settings) => {
                    let en = enabled_of(settings.sources@);
                    let errs = errors_of(settings.sources@);
                    if en.len() == 0 {
                        final(self)@ == old(self)@ && msg_views(r@) =~~= errs.push(
                            no_sources_view(),
                        )
                    } else {
                        final(self)@ == spec_setup_apply(old(self)@, en, new_augroup)
                            && msg_views(r@) =~~= errs
                    }
                },
            },
    {
        let settings = match prefs {
            Preferences::Missing => {
                let mut r: Vec<EchoMsg> = Vec::new();
                r.push(no_sources_msg());
                return r;
            },
            Preferences::WrongType => {
                let mut r: Vec<EchoMsg> = Vec::new();
                r.push(wrong_type_msg());
                return r;
            },
            Preferences::Malformed { path, msg } => {
                let mut r: Vec<EchoMsg> = Vec::new();
                r.push(config_error_msg(path.as_str(), msg.as_str()));
                return r;
            },
            Preferences::Parsed(settings) => settings,
        };
        let (enabled, errors) = init_sources(&settings.sources);
        if enabled.len() == 0 {
            let mut r = errors;
            r.push(no_sources_msg());
            return r;
        }
        self.sources = enabled;
        if !self.did_setup {
            self.augroup = Some(new_augroup);
            self.did_setup = true;
        }
        proof {
            assert(self@ =~~= spec_setup_apply(
                old(self)@,
                enabled_of(settings.sources@),
                new_augroup,
            ));
        }
        errors
    }
}

/// The notice setup gives when no source is enabled.
pub open spec fn no_sources_view() -> MsgView {
    MsgView {
        severity: Severity::Error,
        chunks: seq![(ChunkView { text: "No sources have been enabled"@, hl: None })],
    }
}

impl Client {
    /// Whether the completion menu is on screen.
    pub fn is_menu_open(&self) -> (r: bool)
        ensures
            r == self@.menu_open,
    {
        self.menu_open
    }

    /// The host event-group id recorded for the session's listeners.
    pub fn augroup_id(&self) -> (r: Option<u32>)
        ensures
            r == self@.augroup,
    {
        self.augroup
    }

    /// How many sources the registry enables.
    pub fn source_count(&self) -> (r: usize)
        ensures
            r == self@.sources.len(),
    {
        self.sources.len()
    }

    /// The candidate list last forwarded for display, if any.
    pub fn displayed_items(&self) -> (r: Option<Vec<CompletionItem>>)
        ensures
            r is Some <==> self@.displayed is Some,
            r is Some ==> item_views(r->Some_0@) == self@.displayed->Some_0,
    {
        match &self.displayed {
            None => None,
            Some(d) => {
                let n = d.len();
                let mut out: Vec<CompletionItem> = Vec::new();
                for i in 0..n
                    invariant
                        n == d@.len(),
                        self@.displayed == Some(item_views(d@)),
                        item_views(out@) =~= item_views(d@).take(i as int),
                {
                    let ghost o0 = out@;
                    out.push(d[i].duplicate());
                    proof {
                        assert(item_views(out@) =~~= item_views(o0).push(d@[i as int]@));
                        assert(item_views(d@).take(i + 1) =~= item_views(d@).take(
                            i as int,
                        ).push(item_views(d@)[i as int]));
                    }
                }
                proof {
                    assert(item_views(d@).take(n as int) =~= item_views(d@));
                }
                Some(out)
            },
        }
    }
}

impl Client {
    /// The enabled sources, in registration order.
    pub fn enabled_sources(&self) -> (r: Vec<SourceKind>)
        ensures
            r@ == self@.sources,
    {
        let n = self.sources.len();
        let mut r: Vec<SourceKind> = Vec::new();
        for i in 0..n
            invariant
                n == self@.sources.len(),
                r@ =~= self@.sources.take(i as int),
        {
            r.push(self.sources[i]);
            proof {
                assert(self@.sources.take(i + 1) =~= self@.sources.take(i as int).push(
                    self@.sources[i as int],
                ));
            }
        }
        proof {
            assert(self@.sources.take(n as int) =~= self@.sources);
        }
        r
    }

    /// The buffer's current revision id, while it is attached.
    pub fn current_revision(&self, buf: u32) -> (r: Option<u64>)
        requires
            self.wf(),
        ensures
            r is Some <==> has_buf(self@.bufs, buf),
            has_buf(self@.bufs, buf) ==> r == Some(rev_of(self@.bufs, buf)),
    {
        match self.find_buf(buf) {
            Some(i) => {
                proof {
                    lemma_buf_idx_of(self@.bufs, i as int);
                }
                Some(self.bufs[i].rev)
            },
            None => None,
        }
    }
}

} // verus!
