//! The main-thread message channel.
//!
//! Workers are many producers; the control thread is the single consumer. A
//! worker never touches host state directly: it enqueues a typed message, and
//! the control thread drains everything available in one non-blocking pass
//! per event-loop pump. What the drain yields depends on what other threads
//! sent, so the drain itself promises nothing; `process_messages` takes the
//! drained batch as a value and is verified for every possible batch.

use vstd::prelude::*;

use tokio::sync::mpsc::{UnboundedReceiver, UnboundedSender};

use crate::client::{spec_arrival, Client, ClientView};
use crate::completion_bundle::{bundle_views, BundleView, CompletionBundle};

verus! {

#[verifier::external_type_specification]
#[verifier::external_body]
#[verifier::reject_recursive_types(T)]
pub struct ExUnboundedSender<T>(UnboundedSender<T>);

#[verifier::external_type_specification]
#[verifier::external_body]
#[verifier::reject_recursive_types(T)]
pub struct ExUnboundedReceiver<T>(UnboundedReceiver<T>);

/// Messages sent from the worker pool to the control thread. Finishing an
/// attach and applying completions affect host state, so they are deferred
/// through the channel rather than invoked from a worker.
pub enum MainMessage {
    /// A buffer whose deferred attachment the control thread is to finish.
    AttachBuf(u32),
    /// A dispatch cycle's collected outcomes, ready for the staleness check.
    HandleCompletions(CompletionBundle),
}

/// The mathematical content of a message.
#[verifier::ext_equal]
pub ghost enum MainMessageView {
    AttachBuf(u32),
    HandleCompletions(BundleView),
}

impl View for MainMessage {
    type V = MainMessageView;

    open spec fn view(&self) -> MainMessageView {
        match self {
            MainMessage::AttachBuf(buf) => MainMessageView::AttachBuf(*buf),
            MainMessage::HandleCompletions(bundle) => MainMessageView::HandleCompletions(
                bundle@,
            ),
        }
    }
}

/// The views of a message list.
pub open spec fn message_views(s: Seq<MainMessage>) -> Seq<MainMessageView> {
    s.map_values(|m: MainMessage| m@)
}

/// Relies on tokio::sync::mpsc::unbounded_channel: returns a connected
/// sender/receiver pair.
#[verifier::external_body]
pub fn message_channel() -> (UnboundedSender<MainMessage>, UnboundedReceiver<MainMessage>) {
    tokio::sync::mpsc::unbounded_channel()
}

/// Relies on tokio::sync::mpsc::UnboundedSender::send: enqueues the message;
/// it fails exactly when the receiver is gone, which no contract here can
/// see, so the result says only whether the message was taken.
#[verifier::external_body]
pub fn send_message(tx: &UnboundedSender<MainMessage>, msg: MainMessage) -> bool {
    tx.send(msg).is_ok()
}

/// Relies on tokio::sync::mpsc::UnboundedReceiver::try_recv: non-blocking;
/// what it yields depends on what other threads sent, so nothing more is
/// stated of it.
#[verifier::external_body]
pub fn try_recv_message(rx: &mut UnboundedReceiver<MainMessage>) -> Option<MainMessage> {
    rx.try_recv().ok()
}

/// A fresh session: the control-thread state and the channel connecting the
/// worker pool to it.
pub fn new_session() -> (r: (
    Client,
    UnboundedSender<MainMessage>,
    UnboundedReceiver<MainMessage>,
))
    ensures
        r.0.wf(),
        r.0@ == crate::client::fresh_client_view(),
{
    let client = Client::new();
    let (tx, rx) = message_channel();
    (client, tx, rx)
}

/// Hands one dispatch cycle's bundle to the control thread.
pub fn send_bundle(tx: &UnboundedSender<MainMessage>, bundle: CompletionBundle) -> bool {
    send_message(tx, MainMessage::HandleCompletions(bundle))
}

/// Asks the control thread to finish a buffer's attachment.
pub fn send_attach(tx: &UnboundedSender<MainMessage>, buf: u32) -> bool {
    send_message(tx, MainMessage::AttachBuf(buf))
}

/// One non-blocking drain pass: everything available right now, in arrival
/// order, up to a pass budget far beyond any real queue. The batch depends
/// on what other threads sent, so no contract pins it; `process_messages`
/// is verified for every batch.
pub fn drain_messages(rx: &mut UnboundedReceiver<MainMessage>) -> Vec<MainMessage> {
    let mut msgs: Vec<MainMessage> = Vec::new();
    let mut budget: usize = usize::MAX;
    while budget > 0
        decreases budget,
    {
        match try_recv_message(rx) {
            Some(msg) => msgs.push(msg),
            None => {
                return msgs;
            },
        }
        budget -= 1;
    }
    msgs
}

/// The buffers of a batch's deferred-attach messages, in arrival order.
pub open spec fn attach_bufs_of(msgs: Seq<MainMessageView>) -> Seq<u32>
    decreases msgs.len(),
{
    if msgs.len() == 0 {
        Seq::empty()
    } else {
        let rest = attach_bufs_of(msgs.drop_last());
        match msgs.last() {
            MainMessageView::AttachBuf(buf) => rest.push(buf),
            MainMessageView::HandleCompletions(_) => rest,
        }
    }
}

/// The bundles of a batch, in arrival order.
pub open spec fn bundles_of(msgs: Seq<MainMessageView>) -> Seq<BundleView>
    decreases msgs.len(),
{
    if msgs.len() == 0 {
        Seq::empty()
    } else {
        let rest = bundles_of(msgs.drop_last());
        match msgs.last() {
            MainMessageView::AttachBuf(_) => rest,
            MainMessageView::HandleCompletions(b) => rest.push(b),
        }
    }
}

/// Applies one drained batch on the control thread: every bundle goes
/// through the staleness check in arrival order, and the buffers owed a
/// deferred attach are handed back for the host-side attach to finish.
pub fn process_messages(client: &mut Client, msgs: Vec<MainMessage>) -> (attach_reqs: Vec<u32>)
    requires
        old(client).wf(),
    ensures
        final(client).wf(),
        attach_reqs@ == attach_bufs_of(message_views(msgs@)),
        final(client)@ == spec_arrival(old(client)@, bundles_of(message_views(msgs@))),
{
    let ghost m0 = msgs@;
    let ghost all = message_views(msgs@);
    let mut attach_reqs: Vec<u32> = Vec::new();
    let mut bundles: Vec<CompletionBundle> = Vec::new();
    let n = msgs.len();
    let mut msgs = msgs;
    let mut i: usize = 0;
    while i < n
        invariant
            n == m0.len(),
            all == message_views(m0),
            all.len() == n,
            0 <= i <= n,
            msgs@ == m0.skip(i as int),
            attach_reqs@ == attach_bufs_of(all.take(i as int)),
            bundle_views(bundles@) == bundles_of(all.take(i as int)),
        decreases n - i,
    {
        let msg = msgs.remove(0);
        proof {
            assert(m0.skip(i as int).remove(0) =~= m0.skip(i + 1));
            assert(msg == m0.skip(i as int)[0]);
            assert(msg == m0[i as int]);
            assert(all.take(i + 1).drop_last() =~= all.take(i as int));
            assert(all.take(i + 1).last() == all[i as int]);
            assert(all[i as int] == m0[i as int]@);
        }
        match msg {
            MainMessage::AttachBuf(buf) => {
                attach_reqs.push(buf);
                proof {
                    assert(attach_reqs@ =~= attach_bufs_of(all.take(i + 1)));
                }
            },
            MainMessage::HandleCompletions(bundle) => {
                bundles.push(bundle);
                proof {
                    assert(bundle_views(bundles@) =~~= bundles_of(all.take(i + 1)));
                    assert(attach_reqs@ =~= attach_bufs_of(all.take(i + 1)));
                }
            },
        }
        i += 1;
    }
    proof {
        assert(all.take(n as int) =~= all);
    }
    client.on_completions_arrival(&bundles);
    attach_reqs
}

/// Drains the channel and applies the batch: the control thread's pump,
/// run once per event-loop tick. The batch depends on concurrent senders,
/// so only the shape of the step is promised: some batch was applied.
pub fn main_cb(client: &mut Client, rx: &mut UnboundedReceiver<MainMessage>) -> (attach_reqs:
    Vec<u32>)
    requires
        old(client).wf(),
    ensures
        final(client).wf(),
        exists|bs: Seq<BundleView>| final(client)@ == spec_arrival(old(client)@, bs),
{
    let msgs = drain_messages(rx);
    process_messages(client, msgs)
}

} // verus!
