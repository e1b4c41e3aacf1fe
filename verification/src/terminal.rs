//! The terminal output model: streaming UTF-8 decoding, bounded scrollback,
//! event splitting and the factual vocabulary of a terminal's life.
//!
//! A terminal is owned by the host and keyed by a fresh `terminal_id` per run.
//! Every event carries `epoch` and `seq`; a view that re-attaches takes a
//! snapshot and discards any event whose `seq` is below the snapshot's
//! `next_seq`. Terminal liveness says nothing about whether an agent is doing
//! anything useful, and nothing here claims otherwise.

use vstd::prelude::*;
use vstd::utf8::{
    decode_utf8, decode_utf8_split, is_char_boundary, length_of_first_scalar, pop_first_scalar,
    valid_utf8, valid_utf8_split,
};
use crate::error::{AppError, is_validation_error};
use crate::text::{push_char, push_decimal, decimal};

verus! {

/// Scrollback retained per terminal, in characters.
pub const RETAINED_OUTPUT_CHARS: usize = 200_000;
/// Upper bound on a single output event, so one burst cannot flood the IPC channel.
pub const MAX_EVENT_CHARS: usize = 16_384;
/// Upper bound on a single write from the UI into a pty.
pub const MAX_WRITE_CHARS: usize = 65_536;
pub const MIN_DIM: u16 = 1;
pub const MAX_DIM: u16 = 1_000;

/// Recorded when the application deliberately ends a terminal on quit. It
/// states the cause; it is not a claim that the work finished.
pub const OUTCOME_QUIT: &'static str = "terminated because Faiden quit";

/// Durable bookkeeping for a terminal run.
///
/// The host wires this to the store so that a terminal's start and its end are
/// recorded against the session that owns it. `ended` may be called more than
/// once for one run — a natural exit racing the quit path — and the
/// implementation is required to keep the first outcome rather than overwrite
/// it.
pub trait TerminalLifecycle: Send + Sync + 'static {
    /// Called before the child is spawned. An error aborts the start, so a
    /// terminal never runs without a durable owner.
    fn started(&self, terminal_id: &str, session_id: &str) -> Result<(), AppError>;

    fn ended(&self, terminal_id: &str, outcome: &str);
}

/// Used by tests and by any caller that does not persist runs.
pub struct NoLifecycle;

impl TerminalLifecycle for NoLifecycle {
    fn started(&self, _terminal_id: &str, _session_id: &str) -> (r: Result<(), AppError>)
        ensures
            r is Ok,
    {
        Ok(())
    }

    fn ended(&self, _terminal_id: &str, _outcome: &str) {
    }
}

#[derive(Debug, Clone, PartialEq, Eq)]
pub struct ExitInfo {
    pub exit_code: u32,
    pub success: bool,
    /// Verbatim from the OS (e.g. `Terminated by Killed`), never a judgement
    /// about whether the work succeeded.
    pub description: String,
    pub at: i64,
}

#[derive(Debug, Clone, PartialEq, Eq)]
pub enum TerminalEvent {
    Output { terminal_id: String, epoch: u64, seq: u64, chunk: String },
    Exit { terminal_id: String, epoch: u64, seq: u64, exit_code: u32, success: bool },
}

pub trait TerminalEvents: Send + Sync + 'static {
    fn emit(&self, event: TerminalEvent);
}

#[derive(Debug, Clone)]
pub struct TerminalSpec {
    pub session_id: String,
    pub cwd: Option<String>,
    /// Explicit argv. The command layer never forwards a caller-supplied value
    /// here: web content must not be able to choose the program.
    pub command: Option<Vec<String>>,
    pub cols: u16,
    pub rows: u16,
}

#[derive(Debug, Clone)]
pub struct TerminalInfo {
    pub terminal_id: String,
    pub session_id: String,
    pub epoch: u64,
    pub pid: Option<u32>,
    /// The directory the child was actually started in. It is the *initial*
    /// cwd only: the running shell can `cd` and that is not observed.
    pub cwd: Option<String>,
    pub command_label: String,
    pub started_at: i64,
    pub running: bool,
    pub exit: Option<ExitInfo>,
}

#[derive(Debug, Clone)]
pub struct TerminalSnapshot {
    pub info: TerminalInfo,
    pub data: String,
    pub next_seq: u64,
    pub truncated: bool,
}

/// The text recorded for a run that exited: `terminal process exited with code
/// N (description)`.
pub open spec fn exit_outcome_text(exit: ExitInfo) -> Seq<char> {
    "terminal process exited with code "@ + decimal(exit.exit_code as nat) + " ("@
        + exit.description@ + ")"@
}

/// The factual end of a run. Never phrased as success.
pub fn exit_outcome(exit: &ExitInfo) -> (s: String)
    ensures
        s@ == exit_outcome_text(*exit),
{
    let mut s = String::from_str("terminal process exited with code ");
    push_decimal(&mut s, exit.exit_code as u64);
    s.append(" (");
    s.append(exit.description.as_str());
    s.append(")");
    s
}

/// Terminal dimensions must each lie in `MIN_DIM..=MAX_DIM`; `cols` is checked
/// first.
pub fn validate_dims(cols: u16, rows: u16) -> (r: Result<(), AppError>)
    ensures
        (MIN_DIM <= cols <= MAX_DIM && MIN_DIM <= rows <= MAX_DIM) <==> r is Ok,
        !(MIN_DIM <= cols <= MAX_DIM) ==> (r matches Err(e) && is_validation_error(
            e,
            "cols"@,
            "must be between 1 and 1000"@,
        )),
        (MIN_DIM <= cols <= MAX_DIM && !(MIN_DIM <= rows <= MAX_DIM)) ==> (r matches Err(e)
            && is_validation_error(e, "rows"@, "must be between 1 and 1000"@)),
{
    if !(MIN_DIM <= cols && cols <= MAX_DIM) {
        return Err(AppError::validation("cols", "must be between 1 and 1000"));
    }
    if !(MIN_DIM <= rows && rows <= MAX_DIM) {
        return Err(AppError::validation("rows", "must be between 1 and 1000"));
    }
    Ok(())
}

// --- streaming UTF-8 --------------------------------------------------------

/// How many leading bytes of `bytes` form the longest valid UTF-8 prefix.
pub open spec fn valid_prefix_len(bytes: Seq<u8>) -> nat {
    choose|v: nat| is_max_valid_prefix(bytes, v)
}

pub open spec fn is_max_valid_prefix(bytes: Seq<u8>, v: nat) -> bool {
    &&& v <= bytes.len()
    &&& valid_utf8(bytes.take(v as int))
    &&& forall|k: int| v < k <= bytes.len() ==> !valid_utf8(#[trigger] bytes.take(k))
}

/// What `Utf8Error::error_len` reports for `std::str::from_utf8(bytes)`:
/// `None` when the input ends inside a sequence that could still complete,
/// otherwise the length of the invalid sequence at the error position.
pub uninterp spec fn utf8_error_len(bytes: Seq<u8>) -> Option<nat>;

/// `std::str::from_utf8`, with the error's two fields read out: the index up
/// to which the input is valid, and the length of the invalid sequence found
/// there (`None` for input that ends mid-sequence). As std documents it,
/// `valid_up_to` is the largest index whose prefix is valid, a reported
/// length is between 1 and 3 and lies within the input, and a reported length
/// means an unexpected byte was met: `None` is the only case in which more
/// bytes could complete the input, so no bytes appended to it make it valid.
#[verifier::external_body]
fn str_from_utf8(bytes: &[u8]) -> (r: Result<&str, (usize, Option<usize>)>)
    ensures
        r is Ok <==> valid_utf8(bytes@),
        r matches Ok(s) ==> s@ == decode_utf8(bytes@),
        r matches Err((v, l)) ==> {
            &&& is_max_valid_prefix(bytes@, v as nat)
            &&& v < bytes@.len()
            &&& match l {
                Some(n) => {
                    &&& utf8_error_len(bytes@) == Some(n as nat)
                    &&& 1 <= n <= 3
                    &&& v + n <= bytes@.len()
                    &&& forall|t: Seq<u8>| !valid_utf8(#[trigger] (bytes@ + t))
                },
                None => utf8_error_len(bytes@) is None,
            }
        },
{
    std::str::from_utf8(bytes).map_err(|e| (e.valid_up_to(), e.error_len()))
}

pub proof fn lemma_max_valid_prefix_unique(bytes: Seq<u8>, v: nat)
    requires
        is_max_valid_prefix(bytes, v),
    ensures
        valid_prefix_len(bytes) == v,
{
    let c = valid_prefix_len(bytes);
    assert(is_max_valid_prefix(bytes, c));
    if c < v {
        assert(!valid_utf8(bytes.take(v as int)));
    } else if c > v {
        assert(!valid_utf8(bytes.take(c as int)));
    }
}

/// Lossy streaming decode of `bytes`: the characters that can be emitted now,
/// with each invalid sequence replaced by U+FFFD, and the incomplete trailing
/// sequence held back for the next read.
pub open spec fn lossy_decode(bytes: Seq<u8>) -> (Seq<char>, Seq<u8>)
    decreases bytes.len(),
{
    if valid_utf8(bytes) {
        (decode_utf8(bytes), Seq::empty())
    } else {
        let v = valid_prefix_len(bytes);
        let head = decode_utf8(bytes.take(v as int));
        match utf8_error_len(bytes) {
            Some(n) => {
                if 1 <= n && v + n <= bytes.len() {
                    let rest = lossy_decode(bytes.skip((v + n) as int));
                    (head + seq!['\u{FFFD}'] + rest.0, rest.1)
                } else {
                    (head, bytes.skip(v as int))
                }
            },
            None => (head, bytes.skip(v as int)),
        }
    }
}

/// A valid prefix of valid UTF-8 ends on a character boundary.
proof fn lemma_prefix_is_boundary(p: Seq<u8>, q: Seq<u8>)
    requires
        valid_utf8(p),
        valid_utf8(p + q),
    ensures
        is_char_boundary(p + q, p.len() as int),
    decreases p.len(),
{
    if p.len() > 0 {
        let pq = p + q;
        assert(pq[0] == p[0]);
        let k = length_of_first_scalar(p);
        assert(length_of_first_scalar(pq) == k);
        assert(0 < k <= p.len());
        assert(pop_first_scalar(pq) =~= pop_first_scalar(p) + q);
        lemma_prefix_is_boundary(pop_first_scalar(p), q);
    }
}

/// Splitting valid UTF-8 after a valid prefix leaves a valid rest, and the
/// whole decodes to the prefix's characters followed by the rest's.
pub proof fn lemma_valid_prefix_split(p: Seq<u8>, q: Seq<u8>)
    requires
        valid_utf8(p),
        valid_utf8(p + q),
    ensures
        valid_utf8(q),
        decode_utf8(p + q) == decode_utf8(p) + decode_utf8(q),
{
    let pq = p + q;
    lemma_prefix_is_boundary(p, q);
    valid_utf8_split(pq, p.len() as int);
    decode_utf8_split(pq, p.len() as int);
    assert(pq.subrange(0, p.len() as int) =~= p);
    assert(pq.subrange(p.len() as int, pq.len() as int) =~= q);
}

/// What a decoder holding `pending` owes a stream that continues valid: for
/// every continuation `t` that makes `all + t` valid UTF-8, `pending + t` is
/// valid too and the whole stream decodes to `out` followed by it.
pub open spec fn loses_nothing(all: Seq<u8>, out: Seq<char>, pending: Seq<u8>) -> bool {
    forall|t: Seq<u8>|
        #[trigger] valid_utf8(all + t) ==> valid_utf8(pending + t) && decode_utf8(all + t) == out
            + decode_utf8(pending + t)
}

/// Holding back what one step kept and then decoding the next step loses
/// nothing of the two together.
pub proof fn lemma_loses_nothing_chain(a: Seq<u8>, o: Seq<char>, p: Seq<u8>, c: Seq<u8>, o2: Seq<char>, p2: Seq<u8>)
    requires
        loses_nothing(a, o, p),
        loses_nothing(p + c, o2, p2),
    ensures
        loses_nothing(a + c, o + o2, p2),
{
    assert forall|t: Seq<u8>| #[trigger] valid_utf8((a + c) + t) implies valid_utf8(p2 + t) && decode_utf8(
        (a + c) + t,
    ) == (o + o2) + decode_utf8(p2 + t) by {
        assert((a + c) + t =~= a + (c + t));
        assert(valid_utf8(a + (c + t)));
        assert((p + c) + t =~= p + (c + t));
        assert(valid_utf8((p + c) + t));
        assert(decode_utf8(a + (c + t)) == o + decode_utf8(p + (c + t)));
        assert(decode_utf8((p + c) + t) == o2 + decode_utf8(p2 + t));
        assert(o + (o2 + decode_utf8(p2 + t)) =~= (o + o2) + decode_utf8(p2 + t));
    }
}

/// The bytes of `chunks`, one after another.
pub open spec fn joined_bytes(chunks: Seq<Seq<u8>>) -> Seq<u8>
    decreases chunks.len(),
{
    if chunks.len() == 0 {
        Seq::empty()
    } else {
        joined_bytes(chunks.drop_last()) + chunks.last()
    }
}

/// The characters of `pieces`, one after another.
pub open spec fn joined_chars(pieces: Seq<Seq<char>>) -> Seq<char>
    decreases pieces.len(),
{
    if pieces.len() == 0 {
        Seq::empty()
    } else {
        joined_chars(pieces.drop_last()) + pieces.last()
    }
}

/// `outs[i]` and `held[i + 1]` are what a decoder holding `held[i]` gives for
/// `chunks[i]`, as `Utf8Decoder::push` ensures, starting from a fresh decoder.
pub open spec fn decoded_in_steps(chunks: Seq<Seq<u8>>, outs: Seq<Seq<char>>, held: Seq<Seq<u8>>) -> bool {
    &&& outs.len() == chunks.len()
    &&& held.len() == chunks.len() + 1
    &&& held[0] == Seq::<u8>::empty()
    &&& forall|i: int| 0 <= i < chunks.len() ==> {
        &&& (outs[i], held[i + 1]) == lossy_decode(#[trigger] held[i] + chunks[i])
        &&& loses_nothing(held[i] + chunks[i], outs[i], held[i + 1])
    }
}

proof fn lemma_steps_lose_nothing(chunks: Seq<Seq<u8>>, outs: Seq<Seq<char>>, held: Seq<Seq<u8>>, k: int)
    requires
        decoded_in_steps(chunks, outs, held),
        0 <= k <= chunks.len(),
    ensures
        loses_nothing(joined_bytes(chunks.take(k)), joined_chars(outs.take(k)), held[k]),
    decreases k,
{
    if k == 0 {
        assert(chunks.take(0) =~= Seq::<Seq<u8>>::empty());
        assert(outs.take(0) =~= Seq::<Seq<char>>::empty());
        assert forall|t: Seq<u8>| #[trigger] valid_utf8(joined_bytes(chunks.take(0)) + t) implies valid_utf8(
            held[0] + t,
        ) && decode_utf8(joined_bytes(chunks.take(0)) + t) == joined_chars(outs.take(0)) + decode_utf8(
            held[0] + t,
        ) by {
            assert(joined_bytes(chunks.take(0)) + t =~= t);
            assert(held[0] + t =~= t);
            assert(joined_chars(outs.take(0)) + decode_utf8(t) =~= decode_utf8(t));
        }
    } else {
        lemma_steps_lose_nothing(chunks, outs, held, k - 1);
        let i = k - 1;
        assert(held[i] + chunks[i] == held[i] + chunks[i]);
        lemma_loses_nothing_chain(
            joined_bytes(chunks.take(i)),
            joined_chars(outs.take(i)),
            held[i],
            chunks[i],
            outs[i],
            held[k],
        );
        assert(chunks.take(k).drop_last() =~= chunks.take(i));
        assert(outs.take(k).drop_last() =~= outs.take(i));
        assert(joined_bytes(chunks.take(k)) == joined_bytes(chunks.take(i)) + chunks[i]);
        assert(joined_chars(outs.take(k)) == joined_chars(outs.take(i)) + outs[i]);
    }
}

/// A stream that is valid UTF-8 as a whole, fed to a fresh decoder in any
/// split into chunks, comes out exactly: the pieces pushed out, one after
/// another, are its characters — no replacement character, none lost or
/// repeated — and nothing is held back after the last chunk.
pub proof fn law_decoding_across_chunks(chunks: Seq<Seq<u8>>, outs: Seq<Seq<char>>, held: Seq<Seq<u8>>)
    requires
        decoded_in_steps(chunks, outs, held),
        valid_utf8(joined_bytes(chunks)),
    ensures
        joined_chars(outs) == decode_utf8(joined_bytes(chunks)),
        held.last() == Seq::<u8>::empty(),
{
    let n = chunks.len() as int;
    assert(chunks.take(n) =~= chunks);
    assert(outs.take(n) =~= outs);
    if n == 0 {
        assert(joined_bytes(chunks) =~= Seq::<u8>::empty());
        assert(decode_utf8(Seq::<u8>::empty()) =~= Seq::<char>::empty());
    } else {
        let i = n - 1;
        lemma_steps_lose_nothing(chunks, outs, held, i);
        assert(chunks.take(n).drop_last() =~= chunks.take(i));
        assert(joined_bytes(chunks) == joined_bytes(chunks.take(i)) + chunks[i]);
        assert(valid_utf8(joined_bytes(chunks.take(i)) + chunks[i]));
        assert(valid_utf8(held[i] + chunks[i]));
        assert(lossy_decode(held[i] + chunks[i]) == (decode_utf8(held[i] + chunks[i]), Seq::<u8>::empty()));
        assert(held[n] == Seq::<u8>::empty());
        lemma_steps_lose_nothing(chunks, outs, held, n);
        assert(valid_utf8(joined_bytes(chunks) + Seq::<u8>::empty()));
        assert(joined_bytes(chunks) + Seq::<u8>::empty() =~= joined_bytes(chunks));
        assert(held[n] + Seq::<u8>::empty() =~= Seq::<u8>::empty());
        assert(decode_utf8(Seq::<u8>::empty()) =~= Seq::<char>::empty());
        assert(joined_chars(outs) + Seq::<char>::empty() =~= joined_chars(outs));
    }
}

/// Decodes a byte stream incrementally, holding back an incomplete trailing
/// sequence until the next read completes it.
#[derive(Debug, Default)]
pub struct Utf8Decoder {
    pending: Vec<u8>,
}

impl View for Utf8Decoder {
    type V = Seq<u8>;

    /// Bytes received but not yet emitted.
    closed spec fn view(&self) -> Seq<u8> {
        self.pending@
    }
}

impl Utf8Decoder {
    pub fn new() -> (d: Utf8Decoder)
        ensures
            d@ == Seq::<u8>::empty(),
    {
        Utf8Decoder { pending: Vec::new() }
    }

    /// True while an incomplete sequence is held back.
    pub fn has_pending(&self) -> (b: bool)
        ensures
            b == (self@.len() > 0),
    {
        self.pending.len() > 0
    }

    /// Emits everything the held-back bytes plus `bytes` decode to, and holds
    /// back what is still incomplete.
    pub fn push(&mut self, bytes: &[u8]) -> (out: String)
        ensures
            (out@, final(self)@) == lossy_decode(old(self)@ + bytes@),
            loses_nothing(old(self)@ + bytes@, out@, final(self)@),
    {
        self.pending.extend_from_slice(bytes);
        let ghost all = self.pending@;
        assert(all =~= old(self)@ + bytes@);
        let mut out = String::new();
        assert forall|t: Seq<u8>| #[trigger] valid_utf8(all + t) implies valid_utf8(all + t)
            && decode_utf8(all + t) == out@ + decode_utf8(all + t) by {
            assert(out@ + decode_utf8(all + t) =~= decode_utf8(all + t));
        }
        loop
            invariant
                all == old(self)@ + bytes@,
                lossy_decode(all) == (out@ + lossy_decode(self.pending@).0, lossy_decode(
                    self.pending@,
                ).1),
                loses_nothing(all, out@, self.pending@),
            decreases self.pending@.len(),
        {
            let ghost cur = self.pending@;
            let ghost out_before = out@;
            match str_from_utf8(self.pending.as_slice()) {
                Ok(s) => {
                    out.append(s);
                    self.pending.clear();
                    assert forall|t: Seq<u8>| #[trigger] valid_utf8(all + t) implies valid_utf8(
                        self.pending@ + t,
                    ) && decode_utf8(all + t) == out@ + decode_utf8(self.pending@ + t) by {
                        assert(valid_utf8(cur + t));
                        lemma_valid_prefix_split(cur, t);
                        assert(self.pending@ + t =~= t);
                        assert(out@ =~= out_before + decode_utf8(cur));
                    }
                    assert(lossy_decode(cur) == (decode_utf8(cur), Seq::<u8>::empty()));
                    assert(lossy_decode(all).0 =~= out@);
                    assert(lossy_decode(all).1 =~= self.pending@);
                    return out;
                },
                Err((v, l)) => {
                    proof {
                        lemma_max_valid_prefix_unique(cur, v as nat);
                    }
                    let rest = self.pending.split_off(v);
                    assert(self.pending@ =~= cur.take(v as int));
                    assert(rest@ =~= cur.skip(v as int));
                    match str_from_utf8(self.pending.as_slice()) {
                        Ok(s) => {
                            out.append(s);
                        },
                        Err(_) => {},
                    }
                    match l {
                        None => {
                            self.pending = rest;
                            assert forall|t: Seq<u8>| #[trigger] valid_utf8(all + t) implies valid_utf8(
                                self.pending@ + t,
                            ) && decode_utf8(all + t) == out@ + decode_utf8(self.pending@ + t) by {
                                assert(valid_utf8(cur + t));
                                assert(cur.take(v as int) + (cur.skip(v as int) + t) =~= cur + t);
                                lemma_valid_prefix_split(cur.take(v as int), cur.skip(v as int) + t);
                                assert(out@ =~= out_before + decode_utf8(cur.take(v as int)));
                            }
                            assert(lossy_decode(all).0 =~= out@);
                            assert(lossy_decode(all).1 =~= self.pending@);
                            return out;
                        },
                        Some(n) => {
                            push_char(&mut out, '\u{FFFD}');
                            let mut rest = rest;
                            let tail = rest.split_off(n);
                            assert(tail@ =~= cur.skip((v + n) as int));
                            self.pending = tail;
                            assert forall|t: Seq<u8>| #[trigger] valid_utf8(all + t) implies valid_utf8(
                                self.pending@ + t,
                            ) && decode_utf8(all + t) == out@ + decode_utf8(self.pending@ + t) by {
                                assert(valid_utf8(cur + t));
                            }
                            let ghost r = lossy_decode(cur.skip((v + n) as int));
                            assert(lossy_decode(all).0 =~= out@ + r.0);
                        },
                    }
                },
            }
        }
    }
}

// --- bounded scrollback -----------------------------------------------------

/// The text of a sequence of chunks, in order.
pub open spec fn chunks_text(chunks: Seq<String>) -> Seq<char>
    decreases chunks.len(),
{
    if chunks.len() == 0 {
        Seq::empty()
    } else {
        chunks_text(chunks.drop_last()) + chunks.last()@
    }
}

pub proof fn lemma_chunks_text_front(chunks: Seq<String>)
    requires
        chunks.len() > 0,
    ensures
        chunks_text(chunks) == chunks[0]@ + chunks_text(chunks.subrange(1, chunks.len() as int)),
    decreases chunks.len(),
{
    if chunks.len() == 1 {
        assert(chunks.drop_last() =~= Seq::<String>::empty());
        assert(chunks_text(chunks.drop_last()) == Seq::<char>::empty());
        assert(chunks.subrange(1, 1) =~= Seq::<String>::empty());
        assert(chunks_text(chunks.subrange(1, 1)) == Seq::<char>::empty());
        assert(chunks_text(chunks) =~= chunks[0]@);
        assert(chunks[0]@ + Seq::<char>::empty() =~= chunks[0]@);
    } else {
        let init = chunks.drop_last();
        lemma_chunks_text_front(init);
        assert(init.subrange(1, init.len() as int) =~= chunks.subrange(1, chunks.len() as int).drop_last());
        assert(chunks.subrange(1, chunks.len() as int).last() == chunks.last());
        assert(chunks_text(chunks) =~= chunks[0]@ + chunks_text(chunks.subrange(1, chunks.len() as int)));
    }
}

/// The newest `n` characters of `s` (all of `s` when it is shorter).
pub open spec fn newest(s: Seq<char>, n: nat) -> Seq<char> {
    if s.len() <= n { s } else { s.subrange(s.len() - n, s.len() as int) }
}

/// Retained terminal output: at most [`RETAINED_OUTPUT_CHARS`] characters,
/// dropped from the front on character boundaries, with the drop reported.
#[derive(Debug)]
pub struct OutputState {
    chunks: std::collections::VecDeque<String>,
    total_chars: usize,
    truncated: bool,
    next_seq: u64,
}

impl View for OutputState {
    /// (retained text, whether anything was ever dropped, next sequence number)
    type V = (Seq<char>, bool, u64);

    closed spec fn view(&self) -> (Seq<char>, bool, u64) {
        (chunks_text(self.chunks@), self.truncated, self.next_seq)
    }
}

impl OutputState {
    /// The character count kept alongside the chunks is their real length,
    /// and within the bound.
    pub closed spec fn wf(&self) -> bool {
        &&& self.total_chars == chunks_text(self.chunks@).len()
        &&& self.total_chars <= RETAINED_OUTPUT_CHARS
    }

    /// Empty, untruncated, with sequence numbers starting at 1.
    pub fn new() -> (s: OutputState)
        ensures
            s.wf(),
            s@ == (Seq::<char>::empty(), false, 1u64),
    {
        OutputState {
            chunks: std::collections::VecDeque::new(),
            total_chars: 0,
            truncated: false,
            next_seq: 1,
        }
    }

    pub fn truncated(&self) -> (t: bool)
        ensures
            t == self@.1,
    {
        self.truncated
    }

    pub fn next_seq(&self) -> (n: u64)
        ensures
            n == self@.2,
    {
        self.next_seq
    }

    /// Hands out the next sequence number; numbers never repeat.
    pub fn take_seq(&mut self) -> (seq: u64)
        requires
            old(self).wf(),
            old(self)@.2 < u64::MAX,
        ensures
            final(self).wf(),
            seq == old(self)@.2,
            final(self)@ == (old(self)@.0, old(self)@.1, (seq + 1) as u64),
    {
        let seq = self.next_seq;
        self.next_seq = self.next_seq + 1;
        seq
    }

    /// Appends a chunk, then drops from the front until the retained text fits
    /// the bound again. Dropping sets `truncated`, which then stays set.
    pub fn push(&mut self, chunk: &str)
        requires
            old(self).wf(),
        ensures
            final(self).wf(),
            final(self)@.0 == newest(old(self)@.0 + chunk@, RETAINED_OUTPUT_CHARS as nat),
            final(self)@.1 == (old(self)@.1 || old(self)@.0.len() + chunk@.len()
                > RETAINED_OUTPUT_CHARS),
            final(self)@.2 == old(self)@.2,
    {
        let len = chunk.unicode_len();
        if len == 0 {
            assert(old(self)@.0 + chunk@ =~= old(self)@.0);
            return;
        }
        let ghost all = self@.0 + chunk@;
        if len > RETAINED_OUTPUT_CHARS {
            // The chunk alone overflows the bound: only its own tail is kept.
            let kept = chunk.substring_char(len - RETAINED_OUTPUT_CHARS, len).to_string();
            let ghost k = kept;
            let mut only = std::collections::VecDeque::new();
            only.push_back(kept);
            proof {
                assert(only@ =~= seq![k]);
                assert(only@.drop_last() =~= Seq::<String>::empty());
                assert(chunks_text(only@.drop_last()) =~= Seq::<char>::empty());
                assert(chunks_text(only@) =~= k@);
                assert(k@ =~= all.subrange(all.len() - RETAINED_OUTPUT_CHARS, all.len() as int));
            }
            let next_seq = self.next_seq;
            *self = OutputState { chunks: only, total_chars: RETAINED_OUTPUT_CHARS, truncated: true, next_seq };
            assert(self@.0 =~= newest(all, RETAINED_OUTPUT_CHARS as nat));
            return;
        }
        let mut chunks = std::collections::VecDeque::new();
        std::mem::swap(&mut chunks, &mut self.chunks);
        let mut total = self.total_chars;
        let mut truncated = self.truncated;
        let ghost old_chunks = chunks@;
        chunks.push_back(chunk.to_string());
        assert(chunks@.drop_last() =~= old_chunks);
        total = total + len;
        assert(chunks_text(chunks@) =~= all);
        while total > RETAINED_OUTPUT_CHARS
            invariant
                total == chunks_text(chunks@).len(),
                total <= all.len(),
                chunks_text(chunks@) == all.subrange(all.len() - total, all.len() as int),
                total >= RETAINED_OUTPUT_CHARS || total == all.len(),
                all.len() > RETAINED_OUTPUT_CHARS ==> truncated || total == all.len(),
                total < all.len() ==> truncated,
                truncated ==> (old(self)@.1 || all.len() > RETAINED_OUTPUT_CHARS),
                truncated == old(self)@.1 || total < all.len() || all.len() > RETAINED_OUTPUT_CHARS,
                total <= all.len(),
                all.len() <= RETAINED_OUTPUT_CHARS + usize::MAX,
            decreases chunks@.len() + total,
        {
            let excess = total - RETAINED_OUTPUT_CHARS;
            let ghost before = chunks@;
            proof { lemma_chunks_text_front(before); }
            let front = chunks.pop_front().unwrap();
            assert(chunks@ =~= before.subrange(1, before.len() as int));
            let ghost rest_text = chunks_text(chunks@);
            let ghost cur = chunks_text(before);
            assert(cur == front@ + rest_text);
            assert(rest_text =~= cur.subrange(front@.len() as int, cur.len() as int));
            let front_len = front.unicode_len();
            truncated = true;
            if front_len <= excess {
                total = total - front_len;
                assert(chunks_text(chunks@) =~= all.subrange(all.len() - total, all.len() as int));
            } else {
                let kept = front.substring_char(excess, front_len).to_string();
                let ghost rest_chunks = chunks@;
                chunks.push_front(kept);
                total = total - excess;
                proof { lemma_chunks_text_front(chunks@); }
                assert(chunks@.subrange(1, chunks@.len() as int) =~= rest_chunks);
                assert(chunks_text(chunks@) == kept@ + rest_text);
                assert(kept@ + rest_text =~= cur.subrange(excess as int, cur.len() as int));
                assert(chunks_text(chunks@) =~= all.subrange(all.len() - total, all.len() as int));
            }
        }
        let next_seq = self.next_seq;
        *self = OutputState { chunks, total_chars: total, truncated, next_seq };
        assert(self@.0 =~= newest(all, RETAINED_OUTPUT_CHARS as nat));
    }

    /// The retained text, oldest first.
    pub fn text(&self) -> (s: String)
        ensures
            s@ == self@.0,
    {
        let mut s = String::new();
        let n = self.chunks.len();
        let mut i: usize = 0;
        while i < n
            invariant
                n == self.chunks@.len(),
                i <= n,
                s@ == chunks_text(self.chunks@.take(i as int)),
            decreases n - i,
        {
            s.append(self.chunks[i].as_str());
            assert(self.chunks@.take(i + 1).drop_last() =~= self.chunks@.take(i as int));
            i = i + 1;
        }
        assert(self.chunks@.take(n as int) =~= self.chunks@);
        s
    }
}

/// `text` cut into pieces of `max_chars` characters, the last one possibly
/// shorter. No pieces for empty text; a single piece when `max_chars` is 0.
pub open spec fn bounded_pieces(text: Seq<char>, max_chars: nat) -> Seq<Seq<char>>
    decreases text.len(),
{
    if text.len() == 0 {
        Seq::empty()
    } else if max_chars == 0 || text.len() <= max_chars {
        seq![text]
    } else {
        seq![text.take(max_chars as int)] + bounded_pieces(text.skip(max_chars as int), max_chars)
    }
}

/// Cuts output into IPC-sized pieces on character boundaries.
pub fn split_bounded(text: &str, max_chars: usize) -> (pieces: Vec<String>)
    ensures
        pieces@.map_values(|p: String| p@) == bounded_pieces(text@, max_chars as nat),
{
    let len = text.unicode_len();
    let mut pieces: Vec<String> = Vec::new();
    if len == 0 {
        assert(pieces@.map_values(|p: String| p@) =~= bounded_pieces(text@, max_chars as nat));
        return pieces;
    }
    if max_chars == 0 || len <= max_chars {
        pieces.push(text.to_string());
        assert(pieces@.map_values(|p: String| p@) =~= bounded_pieces(text@, max_chars as nat));
        return pieces;
    }
    let mut start: usize = 0;
    assert(text@.skip(0) =~= text@);
    assert(pieces@.map_values(|p: String| p@) =~= Seq::<Seq<char>>::empty());
    assert(Seq::<Seq<char>>::empty() + bounded_pieces(text@, max_chars as nat) =~= bounded_pieces(text@, max_chars as nat));
    while start < len
        invariant
            len == text@.len(),
            max_chars > 0,
            start <= len,
            pieces@.map_values(|p: String| p@) + bounded_pieces(text@.skip(start as int), max_chars as nat)
                == bounded_pieces(text@, max_chars as nat),
        decreases len - start,
    {
        let ghost rest = text@.skip(start as int);
        let end = if len - start <= max_chars { len } else { start + max_chars };
        let piece = text.substring_char(start, end).to_string();
        let ghost before = pieces@.map_values(|p: String| p@);
        pieces.push(piece);
        assert(pieces@.map_values(|p: String| p@) =~= before.push(piece@));
        if len - start <= max_chars {
            assert(bounded_pieces(rest, max_chars as nat) =~= seq![rest]);
            assert(piece@ =~= rest);
            assert(text@.skip(end as int) =~= Seq::<char>::empty());
            assert(bounded_pieces(text@.skip(end as int), max_chars as nat) =~= Seq::<Seq<char>>::empty());
        } else {
            assert(piece@ =~= rest.take(max_chars as int));
            assert(rest.skip(max_chars as int) =~= text@.skip(end as int));
        }
        assert(before.push(piece@) + bounded_pieces(text@.skip(end as int), max_chars as nat)
            =~= before + bounded_pieces(rest, max_chars as nat));
        start = end;
    }
    assert(text@.skip(len as int) =~= Seq::<char>::empty());
    assert(pieces@.map_values(|p: String| p@) + Seq::<Seq<char>>::empty() =~= pieces@.map_values(|p: String| p@));
    pieces
}


// --- starting, writing and ending a terminal ------------------------------------

/// The terminal names a session.
pub open spec fn start_named(spec: TerminalSpec) -> bool {
    crate::text::trimmed(spec.session_id@).len() > 0
}

/// Both dimensions are in bounds.
pub open spec fn start_sized(spec: TerminalSpec) -> bool {
    MIN_DIM <= spec.cols <= MAX_DIM && MIN_DIM <= spec.rows <= MAX_DIM
}

/// An explicit argv was given and it is empty.
pub open spec fn command_empty(spec: TerminalSpec) -> bool {
    spec.command matches Some(v) && v@.len() == 0
}

/// What a terminal's start is checked against before anything is spawned.
/// The session is named, the size is in bounds, a working directory is an
/// absolute path that `is_dir` reports as an existing directory, and an explicit
/// argv is not empty. Returns the working directory to start in.
pub fn check_start<F: Fn(&str) -> bool>(spec: &TerminalSpec, is_dir: F) -> (r: Result<Option<String>, AppError>)
    requires
        forall|p: &str| is_dir.requires((p,)),
    ensures
        crate::text::trimmed(spec.session_id@).len() == 0 ==> (r matches Err(e)
            && is_validation_error(e, "session_id"@, "must not be blank"@)),
        r is Ok ==> {
            &&& crate::text::trimmed(spec.session_id@).len() > 0
            &&& MIN_DIM <= spec.cols <= MAX_DIM && MIN_DIM <= spec.rows <= MAX_DIM
            &&& !(spec.command matches Some(v) && v@.len() == 0)
        },
        r matches Ok(Some(d)) ==> (spec.cwd == Some(d) && d@.len() > 0 && d@[0] == '/'
            && crate::agent::locate::probed(is_dir, d@, true)),
        r matches Ok(None) ==> spec.cwd is None,
        (start_named(*spec) && !(MIN_DIM <= spec.cols <= MAX_DIM)) ==> (r matches Err(e)
            && is_validation_error(e, "cols"@, "must be between 1 and 1000"@)),
        (start_named(*spec) && MIN_DIM <= spec.cols <= MAX_DIM && !(MIN_DIM <= spec.rows <= MAX_DIM))
            ==> (r matches Err(e) && is_validation_error(e, "rows"@, "must be between 1 and 1000"@)),
        (spec.cwd matches Some(d) && start_named(*spec) && start_sized(*spec) && (d@.len() == 0 || d@[0]
            != '/')) ==> (r matches Err(e) && is_validation_error(e, "cwd"@, "must be an absolute path"@)),
        (start_named(*spec) && start_sized(*spec) && spec.cwd is None) ==> if command_empty(*spec) {
            r matches Err(e) && is_validation_error(e, "command"@, "must not be empty"@)
        } else {
            r == Ok::<Option<String>, AppError>(None)
        },
        spec.cwd matches Some(d) ==> (start_named(*spec) && start_sized(*spec) && d@.len() > 0 && d@[0]
            == '/') ==> ((r matches Err(e) && is_validation_error(
            e,
            "cwd"@,
            d@ + " is not an existing directory"@,
        ) && crate::agent::locate::probed(is_dir, d@, false)) || (crate::agent::locate::probed(
            is_dir,
            d@,
            true,
        ) && if command_empty(*spec) {
            r matches Err(e) && is_validation_error(e, "command"@, "must not be empty"@)
        } else {
            r matches Ok(Some(c)) && c@ == d@
        })),
{
    if crate::text::str_trim(spec.session_id.as_str()).unicode_len() == 0 {
        return Err(AppError::validation("session_id", "must not be blank"));
    }
    validate_dims(spec.cols, spec.rows)?;
    let cwd = match &spec.cwd {
        None => None,
        Some(raw) => {
            if raw.unicode_len() == 0 || raw.get_char(0) != '/' {
                return Err(AppError::validation("cwd", "must be an absolute path"));
            }
            let p: &str = raw.as_str();
            let exists = is_dir(p);
            proof {
                assert(is_dir.ensures((p,), exists));
            }
            if !exists {
                let mut m = raw.clone();
                m.append(" is not an existing directory");
                return Err(AppError::validation("cwd", m.as_str()));
            }
            Some(raw.clone())
        },
    };
    match &spec.command {
        Some(v) => {
            if v.len() == 0 {
                return Err(AppError::validation("command", "must not be empty"));
            }
        },
        None => {},
    }
    Ok(cwd)
}

/// How a terminal's command is shown: its argv joined by spaces.
pub fn command_label(argv: &Vec<String>) -> (s: String)
    ensures
        s@ == crate::text::join_with(crate::text::views(argv@), " "@),
{
    crate::text::join_texts(argv, " ")
}

/// A write from the UI is bounded; a longer one is refused, never forwarded.
pub fn check_write(data: &str) -> (r: Result<(), AppError>)
    ensures
        data@.len() <= MAX_WRITE_CHARS ==> r is Ok,
        data@.len() > MAX_WRITE_CHARS ==> (r matches Err(e) && is_validation_error(
            e,
            "data"@,
            "a single write is limited to 65536 characters"@,
        )),
{
    if data.unicode_len() > MAX_WRITE_CHARS {
        return Err(AppError::validation("data", "a single write is limited to 65536 characters"));
    }
    Ok(())
}

/// The refusal for a session that already has a live terminal.
pub fn already_running(session_id: &str, terminal_id: &str) -> (e: AppError)
    ensures
        crate::error::is_conflict_error(
            e,
            "TERMINAL_ALREADY_RUNNING"@,
            "session "@ + session_id@ + " already has a running terminal ("@ + terminal_id@ + ")"@,
        ),
{
    let mut m = String::from_str("session ");
    m.append(session_id);
    m.append(" already has a running terminal (");
    m.append(terminal_id);
    m.append(")");
    AppError::conflict("TERMINAL_ALREADY_RUNNING", m.as_str())
}

/// The refusal for writing to or resizing a terminal that is gone:
/// `terminal {id} {state}`, where `state` says how it went.
pub fn terminal_gone(terminal_id: &str, state: &str) -> (e: AppError)
    ensures
        crate::error::is_conflict_error(
            e,
            "TERMINAL_EXITED"@,
            "terminal "@ + terminal_id@ + " "@ + state@,
        ),
{
    let mut m = String::from_str("terminal ");
    m.append(terminal_id);
    m.append(" ");
    m.append(state);
    AppError::conflict("TERMINAL_EXITED", m.as_str())
}

/// The lifecycle of one terminal as its threads see it.
#[derive(Debug)]
pub struct TerminalLife {
    pub running: bool,
    pub reader_done: bool,
    pub exit_emitted: bool,
    /// Set once the terminal's session has been signalled, so the bounded kill
    /// grace is paid once per terminal rather than once per caller.
    pub killed: bool,
    pub exit: Option<ExitInfo>,
}

impl TerminalLife {
    /// A terminal that has just started.
    pub fn new() -> (l: TerminalLife)
        ensures
            l.running && !l.reader_done && !l.exit_emitted && !l.killed && l.exit is None,
    {
        TerminalLife { running: true, reader_done: false, exit_emitted: false, killed: false, exit: None }
    }

    /// Claims the one kill of this terminal: `true` for the first caller while
    /// its exit has not been published, `false` for everyone after.
    pub fn claim_kill(&mut self) -> (first: bool)
        ensures
            first == !(old(self).exit_emitted || old(self).killed),
            final(self).killed == (old(self).killed || first),
            final(self).running == old(self).running,
            final(self).exit_emitted == old(self).exit_emitted,
            final(self).reader_done == old(self).reader_done,
            final(self).exit == old(self).exit,
    {
        if self.exit_emitted || self.killed {
            return false;
        }
        self.killed = true;
        true
    }

    /// Records the exit: the terminal no longer runs, and its exit is what
    /// every later view reports.
    pub fn record_exit(&mut self, exit: ExitInfo)
        ensures
            !final(self).running,
            final(self).exit_emitted,
            final(self).exit == Some(exit),
            final(self).killed == old(self).killed,
            final(self).reader_done == old(self).reader_done,
    {
        self.running = false;
        self.exit = Some(exit);
        self.exit_emitted = true;
    }
}

/// How many PIDs to make room for when the OS reports `hint` live processes:
/// the hint is a PID count, with headroom for processes that appear between
/// the sizing call and the real one.
pub fn capacity_for_hint(hint: i32) -> (n: usize)
    ensures
        n == (if hint > 0 { hint as int } else { 0 }) + 128,
{
    if hint > 0 {
        hint as usize + 128
    } else {
        128
    }
}

/// How many of the `cap` allocated slots hold a PID the OS wrote, given the
/// PID count it returned: never negative and never past what was allocated.
pub fn returned_len(count: i32, cap: usize) -> (n: usize)
    ensures
        n == if count <= 0 {
            0
        } else if count as int <= cap {
            count as int
        } else {
            cap as int
        },
{
    if count <= 0 {
        0
    } else if (count as usize) <= cap {
        count as usize
    } else {
        cap
    }
}


/// The shells tried, in order, when the login shell cannot be used.
pub open spec fn fallback_shell(k: int) -> Seq<char> {
    if k == 0 {
        "/bin/zsh"@
    } else if k == 1 {
        "/bin/bash"@
    } else {
        "/bin/sh"@
    }
}

/// The login shell is unusable: unset, not an absolute path, or reported
/// missing by `is_present`.
pub open spec fn login_rejected<F: Fn(&str) -> bool>(login_shell: Option<&str>, is_present: F) -> bool {
    match login_shell {
        None => true,
        Some(s) => s@.len() == 0 || s@[0] != '/' || crate::agent::locate::probed(is_present, s@, false),
    }
}

/// The argv a terminal runs when none is given: the user's login shell
/// (`login_shell`, from `$SHELL`) when it is an absolute path that `is_present`
/// reports present, otherwise the first of zsh, bash and sh that is_present, and
/// sh when none is reported; always started as a login shell. Never taken
/// from web content.
pub fn default_shell_argv<F: Fn(&str) -> bool>(login_shell: Option<&str>, is_present: F) -> (argv: Vec<String>)
    requires
        forall|p: &str| is_present.requires((p,)),
    ensures
        argv@.len() == 2,
        argv@[1]@ == "-l"@,
        ({
            let shell = argv@[0]@;
            ||| (login_shell matches Some(s) && shell == s@ && s@.len() > 0 && s@[0] == '/'
                && crate::agent::locate::probed(is_present, s@, true))
            ||| (login_rejected(login_shell, is_present) && exists|k: int|
                0 <= k < 3 && shell == fallback_shell(k) && crate::agent::locate::probed(
                    is_present,
                    fallback_shell(k),
                    true,
                ) && forall|j: int|
                    0 <= j < k ==> crate::agent::locate::probed(is_present, #[trigger] fallback_shell(j), false))
            ||| (login_rejected(login_shell, is_present) && shell == "/bin/sh"@ && forall|j: int|
                0 <= j < 3 ==> crate::agent::locate::probed(is_present, #[trigger] fallback_shell(j), false))
        }),
{
    proof {
        reveal_strlit("/bin/zsh");
        reveal_strlit("/bin/bash");
        reveal_strlit("/bin/sh");
        reveal_strlit("-l");
    }
    let mut argv: Vec<String> = Vec::new();
    match login_shell {
        Some(s) => {
            if s.unicode_len() > 0 && s.get_char(0) == '/' {
                let present = is_present(s);
                proof {
                    assert(is_present.ensures((s,), present));
                }
                if present {
                    argv.push(String::from_str(s));
                    argv.push(String::from_str("-l"));
                    return argv;
                }
            }
        },
        None => {},
    }
    let zsh = "/bin/zsh";
    let bash = "/bin/bash";
    let sh = "/bin/sh";
    let has_zsh = is_present(zsh);
    proof {
        assert(is_present.ensures((zsh,), has_zsh));
        assert(fallback_shell(0) == zsh@);
    }
    if has_zsh {
        argv.push(String::from_str(zsh));
    } else {
        let has_bash = is_present(bash);
        proof {
            assert(is_present.ensures((bash,), has_bash));
            assert(fallback_shell(1) == bash@);
        }
        if has_bash {
            argv.push(String::from_str(bash));
        } else {
            let has_sh = is_present(sh);
            proof {
                assert(is_present.ensures((sh,), has_sh));
                assert(fallback_shell(2) == sh@);
            }
            argv.push(String::from_str(sh));
            proof {
                if !has_sh {
                    assert forall|j: int| 0 <= j < 3 implies crate::agent::locate::probed(
                        is_present,
                        #[trigger] fallback_shell(j),
                        false,
                    ) by {
                        if j == 0 {
                            assert(is_present.ensures((zsh,), false));
                        } else if j == 1 {
                            assert(is_present.ensures((bash,), false));
                        } else {
                            assert(is_present.ensures((sh,), false));
                        }
                    }
                }
            }
        }
    }
    argv.push(String::from_str("-l"));
    argv
}

} // verus!
