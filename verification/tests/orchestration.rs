use compleet::client::{AttachOutcome, Client};
use compleet::channel::{
    drain_messages, new_session, process_messages, send_attach, send_bundle, send_message,
    MainMessage,
};
use compleet::completion_bundle::{CompletionBundle, SourceOutcome};
use compleet::completion_item::CompletionItem;
use compleet::completion_source::{CompleetLsp, Lipsum, SourceKind};
use compleet::messages::Severity;
use compleet::setup::{Preferences, Settings};

fn client_with_sources(sources: Vec<SourceKind>) -> Client {
    let mut c = Client::new();
    let cfgs = sources.into_iter().map(Ok).collect();
    let errs = c.setup(
        Preferences::Parsed(Settings { sources: cfgs, enable_default_mappings: false }),
        1,
    );
    assert!(errs.is_empty());
    c
}

fn attach(c: &mut Client, buf: u32) {
    let out = c.on_buf_enter(buf, true, true);
    assert!(matches!(out, AttachOutcome::Attached));
}

fn success(texts: &[&str]) -> SourceOutcome {
    SourceOutcome::Success(
        texts.iter().map(|t| CompletionItem::new((*t).to_string())).collect(),
    )
}

fn displayed_texts(c: &Client) -> Option<Vec<String>> {
    c.displayed_items()
        .map(|items| items.iter().map(|i| i.text().to_string()).collect())
}

#[test]
fn attaching_editable_buffer_succeeds() {
    let mut c = client_with_sources(vec![SourceKind::Lsp(CompleetLsp {})]);
    assert!(!c.is_attached(7));
    attach(&mut c, 7);
    assert!(c.is_attached(7));
    assert!(matches!(c.on_buf_enter(7, true, true), AttachOutcome::AlreadyAttached));
}

#[test]
fn attaching_non_editable_buffer_changes_nothing() {
    let mut c = client_with_sources(vec![SourceKind::Lsp(CompleetLsp {})]);
    let out = c.on_buf_enter(7, false, true);
    assert!(matches!(out, AttachOutcome::NotModifiable));
    assert!(!c.is_attached(7));
}

#[test]
fn attaching_without_sources_is_refused() {
    let mut c = Client::new();
    let out = c.on_buf_enter(7, true, true);
    assert!(matches!(out, AttachOutcome::NoSource));
    assert!(!c.is_attached(7));
}

#[test]
fn host_attach_failure_leaves_buffer_unattached() {
    let mut c = client_with_sources(vec![SourceKind::Lsp(CompleetLsp {})]);
    let out = c.on_buf_enter(7, true, false);
    assert!(matches!(out, AttachOutcome::HostFailed));
    assert!(!c.is_attached(7));
}

#[test]
fn one_edit_builds_one_context_and_one_request_per_source() {
    let mut c = client_with_sources(vec![
        SourceKind::Lsp(CompleetLsp {}),
        SourceKind::Lipsum(Lipsum {}),
    ]);
    attach(&mut c, 3);
    let (ctx, reqs) = c.handle_edit(3, 0, 2, "he".to_string()).unwrap();
    assert_eq!(ctx.rev(), 1);
    assert_eq!(reqs.len(), 2);
    for (k, req) in reqs.iter().enumerate() {
        assert_eq!(req.source, k);
        assert_eq!(req.ctx.rev(), ctx.rev());
        assert_eq!(req.ctx.buf(), ctx.buf());
        assert_eq!(req.ctx.line(), ctx.line());
    }
}

#[test]
fn edit_in_unattached_buffer_dispatches_nothing() {
    let mut c = client_with_sources(vec![SourceKind::Lsp(CompleetLsp {})]);
    assert!(c.handle_edit(9, 0, 0, "x".to_string()).is_none());
}

#[test]
fn matching_bundle_is_displayed() {
    let mut c = client_with_sources(vec![SourceKind::Lsp(CompleetLsp {})]);
    attach(&mut c, 3);
    c.handle_edit(3, 0, 1, "h".to_string()).unwrap();
    let bundle = CompletionBundle { buf: 3, rev: 1, outcomes: vec![success(&["alpha"])] };
    assert!(c.handle_bundle(&bundle));
    assert_eq!(displayed_texts(&c), Some(vec!["alpha".to_string()]));
}

#[test]
fn stale_bundle_is_discarded() {
    let mut c = client_with_sources(vec![SourceKind::Lsp(CompleetLsp {})]);
    attach(&mut c, 3);
    c.handle_edit(3, 0, 1, "h".to_string()).unwrap();
    c.handle_edit(3, 0, 2, "he".to_string()).unwrap();
    let stale = CompletionBundle { buf: 3, rev: 1, outcomes: vec![success(&["old"])] };
    assert!(!c.handle_bundle(&stale));
    assert_eq!(displayed_texts(&c), None);
}

#[test]
fn superseded_dispatch_arriving_late_is_discarded() {
    // A buffer at revision 3 has a dispatch in flight; an edit advances it to
    // revision 4 and issues a second dispatch. The revision-3 bundle arrives
    // after revision-4's and is discarded: the display reflects revision 4.
    let mut c = client_with_sources(vec![SourceKind::Lsp(CompleetLsp {})]);
    attach(&mut c, 5);
    for text in ["a", "ab", "abc"] {
        c.handle_edit(5, 0, text.len(), text.to_string()).unwrap();
    }
    let in_flight = CompletionBundle { buf: 5, rev: 3, outcomes: vec![success(&["old"])] };
    let (ctx, _) = c.handle_edit(5, 0, 4, "abcd".to_string()).unwrap();
    assert_eq!(ctx.rev(), 4);
    let fresh = CompletionBundle { buf: 5, rev: 4, outcomes: vec![success(&["new"])] };
    c.on_completions_arrival(&vec![fresh, in_flight]);
    assert_eq!(displayed_texts(&c), Some(vec!["new".to_string()]));
}

#[test]
fn draining_empty_batch_is_a_noop() {
    let mut c = client_with_sources(vec![SourceKind::Lsp(CompleetLsp {})]);
    attach(&mut c, 3);
    let before = displayed_texts(&c);
    let attach_reqs = process_messages(&mut c, vec![]);
    assert!(attach_reqs.is_empty());
    assert_eq!(displayed_texts(&c), before);
    assert!(c.is_attached(3));
    assert!(!c.is_menu_open());
}

#[test]
fn applying_identical_bundle_twice_displays_the_same_list() {
    let mut c = client_with_sources(vec![SourceKind::Lsp(CompleetLsp {})]);
    attach(&mut c, 3);
    c.handle_edit(3, 0, 1, "h".to_string()).unwrap();
    let bundle = CompletionBundle { buf: 3, rev: 1, outcomes: vec![success(&["a", "b"])] };
    let copy = CompletionBundle { buf: 3, rev: 1, outcomes: vec![success(&["a", "b"])] };
    assert!(c.handle_bundle(&bundle));
    let once = displayed_texts(&c);
    assert!(c.handle_bundle(&copy));
    assert_eq!(displayed_texts(&c), once);
}

#[test]
fn failing_source_leaves_other_contributions_unchanged() {
    let with_failure = CompletionBundle {
        buf: 1,
        rev: 0,
        outcomes: vec![
            success(&["x"]),
            SourceOutcome::Failure("backend unreachable".to_string()),
            success(&["y", "z"]),
        ],
    };
    let with_other_failure = CompletionBundle {
        buf: 1,
        rev: 0,
        outcomes: vec![
            success(&["x"]),
            SourceOutcome::Failure("timed out".to_string()),
            success(&["y", "z"]),
        ],
    };
    let merged: Vec<String> =
        with_failure.merge().iter().map(|i| i.text().to_string()).collect();
    let merged_other: Vec<String> =
        with_other_failure.merge().iter().map(|i| i.text().to_string()).collect();
    assert_eq!(merged, vec!["x".to_string(), "y".to_string(), "z".to_string()]);
    assert_eq!(merged, merged_other);
}

#[test]
fn channel_delivers_attaches_and_bundles_in_order() {
    let (mut c, tx, mut rx) = new_session();
    let errs = c.setup(
        Preferences::Parsed(Settings {
            sources: vec![Ok(SourceKind::Lsp(CompleetLsp {}))],
            enable_default_mappings: false,
        }),
        1,
    );
    assert!(errs.is_empty());
    attach(&mut c, 2);
    assert!(send_attach(&tx, 8));
    let bundle = CompletionBundle { buf: 2, rev: 0, outcomes: vec![success(&["hit"])] };
    assert!(send_bundle(&tx, bundle));
    assert!(send_message(&tx, MainMessage::AttachBuf(9)));
    let msgs = drain_messages(&mut rx);
    assert_eq!(msgs.len(), 3);
    let attach_reqs = process_messages(&mut c, msgs);
    assert_eq!(attach_reqs, vec![8, 9]);
    assert_eq!(displayed_texts(&c), Some(vec!["hit".to_string()]));
    assert!(drain_messages(&mut rx).is_empty());
}

#[test]
fn detach_removes_buffer_and_defers_mid_event() {
    let mut c = client_with_sources(vec![SourceKind::Lsp(CompleetLsp {})]);
    attach(&mut c, 4);
    assert!(c.detach(4, true));
    assert!(c.is_attached(4));
    assert!(!c.detach(4, false));
    assert!(!c.is_attached(4));
}

#[test]
fn insert_leave_hides_menu_without_touching_buffers() {
    let mut c = client_with_sources(vec![SourceKind::Lsp(CompleetLsp {})]);
    attach(&mut c, 3);
    let bundle = CompletionBundle { buf: 3, rev: 0, outcomes: vec![success(&["a"])] };
    assert!(c.handle_bundle(&bundle));
    assert!(c.show_completions());
    assert!(c.is_menu_open());
    c.on_insert_leave();
    assert!(!c.is_menu_open());
    assert!(c.is_attached(3));
}

#[test]
fn start_commands_report_and_schedule() {
    let mut c = client_with_sources(vec![SourceKind::Lsp(CompleetLsp {})]);
    // a backend failure tears the listeners down; the start command restarts
    c.on_exit(1).unwrap();
    assert_eq!(c.augroup_id(), None);
    let first = c.compleet_start(true, 1, 11);
    assert!(first.schedule_attach);
    assert_eq!(first.notice.severity, Severity::Info);
    assert_eq!(c.augroup_id(), Some(11));
    let second = c.compleet_start(true, 1, 12);
    assert!(!second.schedule_attach);
    assert_eq!(second.notice.severity, Severity::Error);
    assert_eq!(c.augroup_id(), Some(11));
}

#[test]
fn starting_in_attached_buffer_is_refused() {
    let mut c = client_with_sources(vec![SourceKind::Lsp(CompleetLsp {})]);
    attach(&mut c, 6);
    let eff = c.compleet_start(false, 6, 13);
    assert!(!eff.schedule_attach);
    assert_eq!(eff.notice.severity, Severity::Error);
}

#[test]
fn starting_in_fresh_buffer_names_it() {
    let mut c = client_with_sources(vec![SourceKind::Lsp(CompleetLsp {})]);
    c.on_exit(1).unwrap();
    let eff = c.compleet_start(false, 42, 13);
    assert!(eff.schedule_attach);
    assert_eq!(eff.notice.severity, Severity::Info);
    assert_eq!(eff.notice.chunks[1].text, "42");
    assert_eq!(c.augroup_id(), Some(13));
}

#[test]
fn selection_wraps_in_both_directions() {
    let mut c = client_with_sources(vec![SourceKind::Lsp(CompleetLsp {})]);
    attach(&mut c, 3);
    let bundle =
        CompletionBundle { buf: 3, rev: 0, outcomes: vec![success(&["a", "b", "c"])] };
    assert!(c.handle_bundle(&bundle));
    assert!(c.show_completions());
    assert!(c.selected_completion().is_none());
    c.select_completion(true);
    assert_eq!(c.selected_completion().unwrap().text(), "a");
    c.select_completion(false);
    assert_eq!(c.selected_completion().unwrap().text(), "c");
    c.select_completion(true);
    assert_eq!(c.selected_completion().unwrap().text(), "a");
}
