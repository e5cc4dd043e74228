//! Session setup: user preferences and per-source configuration.
//!
//! Preferences come from the host already parsed into plain values; a
//! malformed table arrives as a structured, field-path-qualified error, not
//! a crash. Each enabled source carries its own configuration result, and an
//! invalid one produces a setup-time error naming the offending field path
//! without blocking any other source's initialization.

use vstd::prelude::*;
use vstd::string::StringExecFns;

use crate::completion_source::SourceKind;
use crate::messages::{
    msg_views, spec_to_chunks, to_chunks, Chunk, ChunkView, EchoMsg, HlGroup, MsgView, Severity,
};

verus! {

/// A structured configuration error: the path of the offending field and
/// what was wrong with its value.
pub struct ConfigError {
    pub path: String,
    pub msg: String,
}

/// The session settings the host's preference table parses into. Each
/// source entry is either a configured source or its configuration error.
pub struct Settings {
    pub sources: Vec<Result<SourceKind, ConfigError>>,
    pub enable_default_mappings: bool,
}

/// What the host handed to `setup`: nothing, a parsed table, a table whose
/// deserialization failed at one field, or a value of the wrong type.
pub enum Preferences {
    Missing,
    Parsed(Settings),
    Malformed { path: String, msg: String },
    WrongType,
}

/// The chunks of a configuration-error notice: the offending field path,
/// highlighted, then the message with its backtick-quoted spans emphasized.
pub open spec fn config_error_chunk_views(path: Seq<char>, msg: Seq<char>) -> Seq<ChunkView> {
    seq![
        (ChunkView { text: "Error for `"@, hl: None }),
        (ChunkView { text: path, hl: Some(HlGroup::OptionPath) }),
        (ChunkView { text: "`: "@, hl: None }),
    ] + spec_to_chunks(msg, false)
}

/// The notice one invalid configuration entry produces.
pub open spec fn config_error_view(e: ConfigError) -> MsgView {
    MsgView { severity: Severity::Error, chunks: config_error_chunk_views(e.path@, e.msg@) }
}

/// Builds the setup-time error naming the offending field path.
pub fn config_error_msg(path: &str, msg: &str) -> (r: EchoMsg)
    ensures
        r@.severity == Severity::Error,
        r@.chunks == config_error_chunk_views(path@, msg@),
{
    let mut chunks: Vec<Chunk> = Vec::new();
    chunks.push(Chunk { text: "Error for `".to_owned(), hl: None });
    chunks.push(Chunk { text: path.to_owned(), hl: Some(HlGroup::OptionPath) });
    chunks.push(Chunk { text: "`: ".to_owned(), hl: None });
    let mut tail = to_chunks(msg);
    chunks.append(&mut tail);
    let r = EchoMsg { severity: Severity::Error, chunks };
    proof {
        assert(r@.chunks =~~= config_error_chunk_views(path@, msg@));
    }
    r
}

/// The sources enabled by the first `n` entries: the well-configured ones,
/// in registration order.
pub open spec fn enabled_prefix(
    cfgs: Seq<Result<SourceKind, ConfigError>>,
    n: int,
) -> Seq<SourceKind>
    decreases n,
{
    if n <= 0 {
        Seq::empty()
    } else {
        let rest = enabled_prefix(cfgs, n - 1);
        match cfgs[n - 1] {
            Ok(k) => rest.push(k),
            Err(_) => rest,
        }
    }
}

/// The sources a configuration list enables.
pub open spec fn enabled_of(cfgs: Seq<Result<SourceKind, ConfigError>>) -> Seq<SourceKind> {
    enabled_prefix(cfgs, cfgs.len() as int)
}

/// The error notices of the first `n` entries, one per invalid entry, each
/// naming its own field path.
pub open spec fn errors_prefix(
    cfgs: Seq<Result<SourceKind, ConfigError>>,
    n: int,
) -> Seq<MsgView>
    decreases n,
{
    if n <= 0 {
        Seq::empty()
    } else {
        let rest = errors_prefix(cfgs, n - 1);
        match cfgs[n - 1] {
            Ok(_) => rest,
            Err(e) => rest.push(config_error_view(e)),
        }
    }
}

/// The error notices a configuration list produces.
pub open spec fn errors_of(cfgs: Seq<Result<SourceKind, ConfigError>>) -> Seq<MsgView> {
    errors_prefix(cfgs, cfgs.len() as int)
}

/// Initializes the sources of a configuration list: every well-configured
/// entry is enabled, in order; every invalid entry yields exactly one error
/// naming its field path, and blocks nothing else.
pub fn init_sources(cfgs: &Vec<Result<SourceKind, ConfigError>>) -> (r: (
    Vec<SourceKind>,
    Vec<EchoMsg>,
))
    ensures
        r.0@ == enabled_of(cfgs@),
        msg_views(r.1@) == errors_of(cfgs@),
{
    let mut enabled: Vec<SourceKind> = Vec::new();
    let mut errors: Vec<EchoMsg> = Vec::new();
    let n = cfgs.len();
    for i in 0..n
        invariant
            n == cfgs@.len(),
            enabled@ == enabled_prefix(cfgs@, i as int),
            msg_views(errors@) =~= errors_prefix(cfgs@, i as int),
    {
        match &cfgs[i] {
            Ok(k) => {
                enabled.push(*k);
            },
            Err(e) => {
                let ghost e0 = errors@;
                errors.push(config_error_msg(e.path.as_str(), e.msg.as_str()));
                proof {
                    assert(msg_views(errors@) =~~= msg_views(e0).push(
                        config_error_view(cfgs@[i as int]->Err_0),
                    ));
                }
            },
        }
    }
    (enabled, errors)
}

/// Two lists equal on a prefix enable the same sources over it.
proof fn lemma_enabled_prefix_agree(
    c1: Seq<Result<SourceKind, ConfigError>>,
    c2: Seq<Result<SourceKind, ConfigError>>,
    n: int,
)
    requires
        n <= c1.len(),
        n <= c2.len(),
        forall|j: int| 0 <= j < n ==> c1[j] == c2[j],
    ensures
        enabled_prefix(c1, n) == enabled_prefix(c2, n),
    decreases n,
{
    if n > 0 {
        lemma_enabled_prefix_agree(c1, c2, n - 1);
    }
}

/// Dropping an invalid entry leaves the enabled prefix unchanged.
proof fn lemma_enabled_remove(cfgs: Seq<Result<SourceKind, ConfigError>>, k: int, n: int)
    requires
        0 <= k < n <= cfgs.len(),
        cfgs[k] is Err,
    ensures
        enabled_prefix(cfgs, n) == enabled_prefix(cfgs.remove(k), n - 1),
    decreases n,
{
    let t = cfgs.remove(k);
    cfgs.remove_ensures(k);
    if n - 1 == k {
        lemma_enabled_prefix_agree(cfgs, t, k);
    } else {
        lemma_enabled_remove(cfgs, k, n - 1);
        assert(t[n - 2] == cfgs[n - 1]);
    }
}

/// A source with an invalid configuration value blocks no other source's
/// initialization: removing the invalid entry enables exactly the same
/// sources.
pub proof fn lemma_invalid_config_isolated(cfgs: Seq<Result<SourceKind, ConfigError>>, k: int)
    requires
        0 <= k < cfgs.len(),
        cfgs[k] is Err,
    ensures
        enabled_of(cfgs) == enabled_of(cfgs.remove(k)),
{
    lemma_enabled_remove(cfgs, k, cfgs.len() as int);
}

/// The notice echoed when setup finds no enabled source.
pub fn no_sources_msg() -> (r: EchoMsg)
    ensures
        r@.severity == Severity::Error,
        r@.chunks =~~= seq![
            (ChunkView { text: "No sources have been enabled"@, hl: None }),
        ],
{
    let mut chunks: Vec<Chunk> = Vec::new();
    chunks.push(Chunk { text: "No sources have been enabled".to_owned(), hl: None });
    EchoMsg { severity: Severity::Error, chunks }
}

/// The notice echoed when the preference value is neither a table nor
/// missing.
pub fn wrong_type_msg() -> (r: EchoMsg)
    ensures
        r@.severity == Severity::Error,
        r@.chunks =~~= seq![
            (ChunkView {
                text: "Invalid value. Please pass either a table or `nil` to the setup function"@,
                hl: None,
            }),
        ],
{
    let mut chunks: Vec<Chunk> = Vec::new();
    chunks.push(Chunk {
        text: "Invalid value. Please pass either a table or `nil` to the setup function".to_owned(),
        hl: None,
    });
    EchoMsg { severity: Severity::Error, chunks }
}

} // verus!
