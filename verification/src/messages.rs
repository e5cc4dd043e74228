//! User-visible notifications.
//!
//! Failures are converted to notifications at the boundary nearest the
//! affected action. A notification is a severity plus a list of highlighted
//! text chunks; the host displays it. `to_chunks` turns a message whose
//! backtick-quoted spans name fields into such a chunk list, and
//! `u32_to_string` renders the decimal digits a transport-error notification
//! carries.

use vstd::prelude::*;
use vstd::string::StrSliceExecFns;
use vstd::string::StringExecFns;

verus! {

/// Host notification severities for user-facing responses.
#[derive(Clone, Copy, PartialEq, Eq, Structural, Debug)]
pub enum Severity {
    Info,
    Error,
}

/// The highlight groups notification chunks are rendered with.
#[derive(Clone, Copy, PartialEq, Eq, Structural, Debug)]
pub enum HlGroup {
    /// A field name inside an error message.
    ErrorMsgField,
    /// The path of a configuration option inside an error message.
    OptionPath,
    /// Emphasis, used for the exit code of the backend and buffer numbers.
    Visual,
}

/// One piece of a notification: text plus an optional highlight group.
pub struct Chunk {
    pub text: String,
    pub hl: Option<HlGroup>,
}

/// The mathematical content of a chunk.
#[verifier::ext_equal]
pub ghost struct ChunkView {
    pub text: Seq<char>,
    pub hl: Option<HlGroup>,
}

impl View for Chunk {
    type V = ChunkView;

    open spec fn view(&self) -> ChunkView {
        ChunkView { text: self.text@, hl: self.hl }
    }
}

/// The views of a chunk list.
pub open spec fn chunk_views(s: Seq<Chunk>) -> Seq<ChunkView> {
    s.map_values(|c: Chunk| c@)
}

/// A user-visible notification.
pub struct EchoMsg {
    pub severity: Severity,
    pub chunks: Vec<Chunk>,
}

/// The mathematical content of a notification.
#[verifier::ext_equal]
pub ghost struct MsgView {
    pub severity: Severity,
    pub chunks: Seq<ChunkView>,
}

impl View for EchoMsg {
    type V = MsgView;

    open spec fn view(&self) -> MsgView {
        MsgView { severity: self.severity, chunks: chunk_views(self.chunks@) }
    }
}

/// The views of a notification list.
pub open spec fn msg_views(s: Seq<EchoMsg>) -> Seq<MsgView> {
    s.map_values(|m: EchoMsg| m@)
}

/// The decimal digit for a value below ten.
pub open spec fn digit_char(d: nat) -> char
    recommends
        d < 10,
{
    if d == 0 {
        '0'
    } else if d == 1 {
        '1'
    } else if d == 2 {
        '2'
    } else if d == 3 {
        '3'
    } else if d == 4 {
        '4'
    } else if d == 5 {
        '5'
    } else if d == 6 {
        '6'
    } else if d == 7 {
        '7'
    } else if d == 8 {
        '8'
    } else {
        '9'
    }
}

/// The decimal rendering of a number, most significant digit first.
pub open spec fn spec_digits(n: nat) -> Seq<char>
    decreases n,
{
    if n < 10 {
        seq![digit_char(n)]
    } else {
        spec_digits(n / 10).push(digit_char(n % 10))
    }
}

/// The one-character string for a decimal digit.
fn digit_str(d: u32) -> (r: &'static str)
    requires
        d < 10,
    ensures
        r@ == seq![digit_char(d as nat)],
{
    proof {
        reveal_strlit("0");
        reveal_strlit("1");
        reveal_strlit("2");
        reveal_strlit("3");
        reveal_strlit("4");
        reveal_strlit("5");
        reveal_strlit("6");
        reveal_strlit("7");
        reveal_strlit("8");
        reveal_strlit("9");
    }
    if d == 0 {
        "0"
    } else if d == 1 {
        "1"
    } else if d == 2 {
        "2"
    } else if d == 3 {
        "3"
    } else if d == 4 {
        "4"
    } else if d == 5 {
        "5"
    } else if d == 6 {
        "6"
    } else if d == 7 {
        "7"
    } else if d == 8 {
        "8"
    } else {
        "9"
    }
}

/// Renders a number as its decimal digits.
pub fn u32_to_string(n: u32) -> (r: String)
    ensures
        r@ == spec_digits(n as nat),
    decreases n,
{
    if n < 10 {
        digit_str(n).to_owned()
    } else {
        let mut s = u32_to_string(n / 10);
        s.append(digit_str(n % 10));
        proof {
            assert(s@ =~= spec_digits((n / 10) as nat).push(digit_char((n % 10) as nat)));
        }
        s
    }
}

/// The index of the first backtick in `s`, or `s.len()` if there is none.
pub open spec fn find_tick(s: Seq<char>) -> int
    decreases s.len(),
{
    if s.len() == 0 {
        0
    } else if s[0] == '`' {
        0
    } else {
        1 + find_tick(s.drop_first())
    }
}

/// `find_tick` points at the first backtick: no earlier character is one, and
/// the pointed-at character (if inside the string) is one.
pub proof fn lemma_find_tick(s: Seq<char>)
    ensures
        0 <= find_tick(s) <= s.len(),
        forall|j: int| 0 <= j < find_tick(s) ==> s[j] != '`',
        find_tick(s) < s.len() ==> s[find_tick(s)] == '`',
    decreases s.len(),
{
    if s.len() == 0 {
    } else if s[0] == '`' {
    } else {
        lemma_find_tick(s.drop_first());
        assert forall|j: int| 0 <= j < find_tick(s) implies s[j] != '`' by {
            if j > 0 {
                assert(s.drop_first()[j - 1] != '`');
            }
        }
        if find_tick(s) < s.len() {
            assert(s[find_tick(s)] == s.drop_first()[find_tick(s.drop_first())]);
        }
    }
}

/// Any index with no backtick before it that sits on a backtick (or at the
/// end) is `find_tick`.
pub proof fn lemma_find_tick_unique(s: Seq<char>, i: int)
    requires
        0 <= i <= s.len(),
        forall|j: int| 0 <= j < i ==> s[j] != '`',
        i < s.len() ==> s[i] == '`',
    ensures
        find_tick(s) == i,
{
    lemma_find_tick(s);
    if find_tick(s) < i {
        assert(s[find_tick(s)] != '`');
    }
    if i < find_tick(s) {
        assert(s[i] != '`');
    }
}

/// A chunk of plain text.
pub open spec fn plain_chunk(text: Seq<char>) -> ChunkView {
    ChunkView { text, hl: None }
}

/// A chunk holding one backtick, rendered plainly.
pub open spec fn tick_chunk() -> ChunkView {
    ChunkView { text: seq!['`'], hl: None }
}

/// A chunk naming a field, highlighted as such.
pub open spec fn field_chunk(text: Seq<char>) -> ChunkView {
    ChunkView { text, hl: Some(HlGroup::ErrorMsgField) }
}

/// The chunk list for a message whose backtick-quoted spans name fields:
/// spans at odd split positions are wrapped in backtick chunks and
/// highlighted, the rest stay plain.
pub open spec fn spec_to_chunks(s: Seq<char>, odd: bool) -> Seq<ChunkView>
    decreases s.len(),
    via spec_to_chunks_decreases
{
    let i = find_tick(s);
    let part = s.subrange(0, i);
    let head = if odd {
        seq![tick_chunk(), field_chunk(part), tick_chunk()]
    } else {
        seq![plain_chunk(part)]
    };
    if i == s.len() {
        head
    } else {
        head + spec_to_chunks(s.subrange(i + 1, s.len() as int), !odd)
    }
}

#[via_fn]
proof fn spec_to_chunks_decreases(s: Seq<char>, odd: bool) {
    lemma_find_tick(s);
}

/// Splits a message on backticks and highlights the quoted spans as field
/// names, so that `Error in \`foo\`` renders `foo` emphasized.
pub fn to_chunks(msg: &str) -> (r: Vec<Chunk>)
    ensures
        chunk_views(r@) == spec_to_chunks(msg@, false),
    decreases msg@.len(),
{
    to_chunks_rec(msg, false)
}

/// One backtick-delimited segment at a time: emits the chunks for the first
/// segment, then recurses past the backtick with the parity flipped.
fn to_chunks_rec(msg: &str, odd: bool) -> (r: Vec<Chunk>)
    ensures
        chunk_views(r@) == spec_to_chunks(msg@, odd),
    decreases msg@.len(),
{
    proof {
        lemma_find_tick(msg@);
        reveal_strlit("`");
    }
    let n = msg.unicode_len();
    let mut i: usize = 0;
    while i < n && msg.get_char(i) != '`'
        invariant
            0 <= i <= n,
            n == msg@.len(),
            forall|j: int| 0 <= j < i ==> msg@[j] != '`',
        decreases n - i,
    {
        i += 1;
    }
    proof {
        lemma_find_tick_unique(msg@, i as int);
    }
    let part = msg.substring_char(0, i);
    let mut r: Vec<Chunk> = Vec::new();
    if odd {
        r.push(Chunk { text: "`".to_owned(), hl: None });
        r.push(Chunk { text: part.to_owned(), hl: Some(HlGroup::ErrorMsgField) });
        r.push(Chunk { text: "`".to_owned(), hl: None });
    } else {
        r.push(Chunk { text: part.to_owned(), hl: None });
    }
    if i < n {
        let ghost head = chunk_views(r@);
        let rest = msg.substring_char(i + 1, n);
        let mut tail = to_chunks_rec(rest, !odd);
        r.append(&mut tail);
        proof {
            assert(chunk_views(r@) =~~= head + spec_to_chunks(rest@, !odd));
            assert(chunk_views(r@) =~~= spec_to_chunks(msg@, odd));
        }
    } else {
        proof {
            assert(chunk_views(r@) =~~= spec_to_chunks(msg@, odd));
        }
    }
    r
}

} // verus!
