use compleet::client::{Client, KeyAction, SHUTDOWN_EXIT_CODE};
use compleet::completion_bundle::{CompletionBundle, SourceOutcome};
use compleet::completion_context::CompletionContext;
use compleet::completion_item::{CompletionItem, CompletionItemBuilder};
use compleet::completion_source::{CompleetLsp, CompletionSource, Lipsum, SourceKind};
use compleet::messages::{to_chunks, u32_to_string, HlGroup, Severity};
use compleet::setup::{init_sources, ConfigError, Preferences, Settings};
use compleet::ui::{menu_geometry, DetailsPane};

fn lsp_client() -> Client {
    let mut c = Client::new();
    let errs = c.setup(
        Preferences::Parsed(Settings {
            sources: vec![Ok(SourceKind::Lsp(CompleetLsp {}))],
            enable_default_mappings: true,
        }),
        1,
    );
    assert!(errs.is_empty());
    c
}

#[test]
fn shutdown_exit_code_is_silent() {
    let mut c = lsp_client();
    assert!(c.on_buf_enter(3, true, true) == compleet::client::AttachOutcome::Attached);
    assert!(c.on_exit(SHUTDOWN_EXIT_CODE).is_none());
    assert!(c.is_attached(3));
}

#[test]
fn other_exit_codes_notify_once_with_the_code() {
    let mut c = lsp_client();
    let msg = c.on_exit(7).expect("an error notification");
    assert_eq!(msg.severity, Severity::Error);
    assert_eq!(msg.chunks.len(), 2);
    assert_eq!(msg.chunks[0].text, "The server just quit with exit code ");
    assert_eq!(msg.chunks[1].text, "7");
    assert_eq!(msg.chunks[1].hl, Some(HlGroup::Visual));
    assert!(!c.is_menu_open());
    assert!(c.augroup_id().is_none());
}

#[test]
fn exit_code_digits_render_in_full() {
    let mut c = lsp_client();
    let msg = c.on_exit(139).unwrap();
    assert_eq!(msg.chunks[1].text, "139");
}

#[test]
fn decimal_rendering_is_exact() {
    assert_eq!(u32_to_string(0), "0");
    assert_eq!(u32_to_string(7), "7");
    assert_eq!(u32_to_string(143), "143");
    assert_eq!(u32_to_string(12345), "12345");
    assert_eq!(u32_to_string(u32::MAX), "4294967295");
}

#[test]
fn to_chunks_highlights_backtick_spans() {
    let chunks = to_chunks("expected `bool`, found string");
    let texts: Vec<&str> = chunks.iter().map(|c| c.text.as_str()).collect();
    assert_eq!(texts, vec!["expected ", "`", "bool", "`", ", found string"]);
    assert_eq!(chunks[0].hl, None);
    assert_eq!(chunks[2].hl, Some(HlGroup::ErrorMsgField));
    assert_eq!(chunks[1].hl, None);
}

#[test]
fn to_chunks_without_backticks_is_one_plain_chunk() {
    let chunks = to_chunks("nothing quoted here");
    assert_eq!(chunks.len(), 1);
    assert_eq!(chunks[0].text, "nothing quoted here");
    assert_eq!(chunks[0].hl, None);
}

#[test]
fn invalid_source_config_names_path_and_blocks_nothing() {
    let cfgs: Vec<Result<SourceKind, ConfigError>> = vec![
        Err(ConfigError {
            path: "sources.lsp.enable".to_string(),
            msg: "expected `bool`".to_string(),
        }),
        Ok(SourceKind::Lipsum(Lipsum {})),
    ];
    let (enabled, errors) = init_sources(&cfgs);
    assert_eq!(enabled.len(), 1);
    assert_eq!(errors.len(), 1);
    let err = &errors[0];
    assert_eq!(err.severity, Severity::Error);
    assert_eq!(err.chunks[0].text, "Error for `");
    assert_eq!(err.chunks[1].text, "sources.lsp.enable");
    assert_eq!(err.chunks[1].hl, Some(HlGroup::OptionPath));
}

#[test]
fn setup_with_invalid_entry_still_enables_the_rest() {
    let mut c = Client::new();
    let errs = c.setup(
        Preferences::Parsed(Settings {
            sources: vec![
                Err(ConfigError {
                    path: "sources.lsp.enable".to_string(),
                    msg: "expected a boolean".to_string(),
                }),
                Ok(SourceKind::Lipsum(Lipsum {})),
            ],
            enable_default_mappings: false,
        }),
        1,
    );
    assert_eq!(errs.len(), 1);
    assert_eq!(errs[0].chunks[1].text, "sources.lsp.enable");
    assert_eq!(c.source_count(), 1);
}

#[test]
fn host_refused_attach_has_its_error_text() {
    let msg = Client::attach_error_msg();
    assert_eq!(msg.severity, Severity::Error);
    assert_eq!(msg.chunks.len(), 1);
    assert_eq!(msg.chunks[0].text, "Couldn't attach to buffer");
}

#[test]
fn setup_with_wrong_typed_value_reports_an_error() {
    let mut c = Client::new();
    let errs = c.setup(Preferences::WrongType, 1);
    assert_eq!(errs.len(), 1);
    assert_eq!(errs[0].severity, Severity::Error);
    assert_eq!(
        errs[0].chunks[0].text,
        "Invalid value. Please pass either a table or `nil` to the setup function"
    );
    assert_eq!(c.source_count(), 0);
}

#[test]
fn setup_without_sources_reports_an_error() {
    let mut c = Client::new();
    let errs = c.setup(Preferences::Missing, 1);
    assert_eq!(errs.len(), 1);
    assert_eq!(errs[0].severity, Severity::Error);
    assert_eq!(c.source_count(), 0);
}

#[test]
fn setup_with_malformed_table_reports_the_path() {
    let mut c = Client::new();
    let errs = c.setup(
        Preferences::Malformed {
            path: "ui.menu.max_height".to_string(),
            msg: "expected `u32`".to_string(),
        },
        1,
    );
    assert_eq!(errs.len(), 1);
    assert_eq!(errs[0].severity, Severity::Error);
    assert_eq!(errs[0].chunks[1].text, "ui.menu.max_height");
    assert_eq!(c.source_count(), 0);
}

#[test]
fn lsp_source_echoes_the_line() {
    let ctx = CompletionContext::new(1, 0, 2, "fo".to_string(), 5);
    let items = CompleetLsp {}.complete(&ctx).unwrap();
    assert_eq!(items.len(), 1);
    assert_eq!(items[0].text(), "lsp received fo");
}

#[test]
fn lipsum_source_produces_fixed_filler() {
    let ctx = CompletionContext::new(1, 0, 0, String::new(), 0);
    let items = Lipsum {}.complete(&ctx).unwrap();
    let texts: Vec<&str> = items.iter().map(|i| i.text()).collect();
    assert_eq!(texts, vec!["lorem", "ipsum"]);
}

#[test]
fn item_builder_round_trips_text() {
    let item = CompletionItemBuilder::new("candidate".to_string()).build();
    assert_eq!(item.text(), "candidate");
    assert_eq!(CompletionItem::new("direct".to_string()).text(), "direct");
}

#[test]
fn menu_geometry_caps_height_and_measures_width() {
    let items = vec![
        CompletionItem::new("ab".to_string()),
        CompletionItem::new("abcd".to_string()),
        CompletionItem::new("a".to_string()),
    ];
    assert_eq!(menu_geometry(&items, 2), (2, 4));
    assert_eq!(menu_geometry(&items, 10), (3, 4));
}

#[test]
fn details_pane_tracks_visibility_and_geometry() {
    let mut pane = DetailsPane::new(5);
    assert!(!pane.is_visible());
    pane.shown(9);
    assert!(pane.is_visible());
    assert_eq!(pane.dismiss(), Some(9));
    assert!(!pane.is_visible());
    assert_eq!(pane.dismiss(), None);
    let lines = vec!["abc".to_string(), "a".to_string()];
    assert_eq!(DetailsPane::plan_show(&lines), (3, 2));
    let long = vec!["x".repeat(120)];
    assert_eq!(DetailsPane::plan_show(&long), (79, 1));
}

#[test]
fn key_mappings_follow_menu_state() {
    let mut c = lsp_client();
    assert_eq!(c.tab_action(), KeyAction::PassThrough);
    assert_eq!(c.s_tab_action(), KeyAction::PassThrough);
    assert_eq!(c.cr_action(), KeyAction::PassThrough);
    assert!(c.on_buf_enter(3, true, true) == compleet::client::AttachOutcome::Attached);
    let bundle = CompletionBundle {
        buf: 3,
        rev: 0,
        outcomes: vec![SourceOutcome::Success(vec![CompletionItem::new("a".to_string())])],
    };
    assert!(c.handle_bundle(&bundle));
    assert_eq!(c.tab_action(), KeyAction::ShowCompletions);
    assert!(c.show_completions());
    assert_eq!(c.tab_action(), KeyAction::NextCompletion);
    assert_eq!(c.s_tab_action(), KeyAction::PrevCompletion);
    c.select_completion(true);
    assert_eq!(c.cr_action(), KeyAction::InsertSelected);
}
