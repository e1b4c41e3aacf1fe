//! Framing of the agent's stdout: one newline-terminated line at a time,
//! never buffering more than a limit. An oversized line is consumed and
//! reported, not accumulated.

use vstd::prelude::*;
use crate::terminal::{Utf8Decoder, lossy_decode};

verus! {

/// What a complete line of `raw` bytes is reported as: the bytes themselves,
/// or nothing and `true` when it exceeded `limit`.
pub open spec fn line_result(raw: Seq<u8>, limit: nat) -> (Seq<u8>, bool) {
    if raw.len() > limit {
        (Seq::empty(), true)
    } else {
        (raw, false)
    }
}

/// The first newline in `s`, if any.
pub open spec fn first_newline(s: Seq<u8>) -> Option<int> {
    if exists|i: int| 0 <= i < s.len() && s[i] == 10u8 {
        Some(choose|i: int| 0 <= i < s.len() && s[i] == 10u8 && forall|j: int| 0 <= j < i ==> s[j] != 10u8)
    } else {
        None
    }
}

/// Accumulates one line across reads.
pub struct LineReader {
    limit: usize,
    out: Vec<u8>,
    oversized: bool,
    raw: Ghost<Seq<u8>>,
}

impl View for LineReader {
    type V = Seq<u8>;

    /// The bytes of the current line received so far, without its newline.
    closed spec fn view(&self) -> Seq<u8> {
        self.raw@
    }
}

impl LineReader {
    /// The longest line this reader keeps.
    pub closed spec fn limit(&self) -> nat {
        self.limit as nat
    }

    pub closed spec fn wf(&self) -> bool {
        &&& self.oversized == (self.raw@.len() > self.limit)
        &&& self.out@ == if self.oversized {
            Seq::empty()
        } else {
            self.raw@
        }
    }

    pub fn new(limit: usize) -> (r: LineReader)
        ensures
            r.wf(),
            r@.len() == 0,
            r.limit() == limit,
    {
        LineReader { limit, out: Vec::new(), oversized: false, raw: Ghost(Seq::empty()) }
    }

    /// Takes what was just read. When it holds a newline, everything up to and
    /// including the first one is consumed and the completed line is returned;
    /// otherwise all of it is consumed and kept. Returns how many bytes were
    /// consumed.
    pub fn feed(&mut self, available: &[u8]) -> (r: (usize, Option<(Vec<u8>, bool)>))
        requires
            old(self).wf(),
        ensures
            final(self).wf(),
            final(self).limit() == old(self).limit(),
            match first_newline(available@) {
                Some(p) => {
                    &&& r.0 == p + 1
                    &&& r.1 matches Some((line, over)) && (line@, over) == line_result(
                        old(self)@ + available@.take(p),
                        old(self).limit(),
                    )
                    &&& final(self)@.len() == 0
                },
                None => {
                    &&& r.0 == available@.len()
                    &&& r.1 is None
                    &&& final(self)@ == old(self)@ + available@
                },
            },
    {
        let n = available.len();
        let mut i: usize = 0;
        while i < n && available[i] != 10u8
            invariant
                n == available@.len(),
                i <= n,
                forall|j: int| 0 <= j < i ==> available@[j] != 10u8,
                *self == *old(self),
            decreases n - i,
        {
            i = i + 1;
        }
        let ghost before = self.raw@;
        let fits = !self.oversized && self.out.len() <= self.limit && i <= self.limit - self.out.len();
        if fits {
            let mut k: usize = 0;
            while k < i
                invariant
                    i <= n,
                    n == available@.len(),
                    k <= i,
                    self.out@ == before + available@.take(k as int),
                    self.limit == old(self).limit,
                    self.raw == old(self).raw,
                    !self.oversized,
                decreases i - k,
            {
                self.out.push(available[k]);
                k = k + 1;
                assert(self.out@ =~= before + available@.take(k as int));
            }
            self.oversized = false;
        } else {
            self.out = Vec::new();
            self.oversized = true;
        }
        self.raw = Ghost(before + available@.take(i as int));
        proof {
            if i < n {
                assert(available@[i as int] == 10u8);
                assert(exists|j: int| 0 <= j < available@.len() && available@[j] == 10u8);
                let c = choose|j: int|
                    0 <= j < available@.len() && available@[j] == 10u8 && forall|m: int|
                        0 <= m < j ==> available@[m] != 10u8;
                assert(0 <= i < available@.len() && available@[i as int] == 10u8 && forall|m: int|
                    0 <= m < i ==> available@[m] != 10u8);
                if c < i {
                    assert(available@[c] != 10u8);
                } else if c > i {
                    assert(available@[i as int] != 10u8);
                }
                assert(c == i);
            } else {
                assert(available@.take(i as int) =~= available@);
                assert(!(exists|j: int| 0 <= j < available@.len() && available@[j] == 10u8));
            }
        }
        if i < n {
            let line = self.take_line();
            (i + 1, Some(line))
        } else {
            (n, None)
        }
    }

    fn take_line(&mut self) -> (line: (Vec<u8>, bool))
        requires
            old(self).wf(),
        ensures
            final(self).wf(),
            final(self)@.len() == 0,
            final(self).limit() == old(self).limit(),
            (line.0@, line.1) == line_result(old(self)@, old(self).limit()),
    {
        let mut out = Vec::new();
        std::mem::swap(&mut out, &mut self.out);
        let oversized = self.oversized;
        self.oversized = false;
        self.raw = Ghost(Seq::empty());
        (out, oversized)
    }

    /// At end of input: the unterminated last line, if any bytes of one
    /// arrived.
    pub fn finish(&mut self) -> (line: Option<(Vec<u8>, bool)>)
        requires
            old(self).wf(),
        ensures
            final(self).wf(),
            final(self)@.len() == 0,
            old(self)@.len() == 0 ==> line is None,
            old(self)@.len() > 0 ==> (line matches Some((l, over)) && (l@, over) == line_result(
                old(self)@,
                old(self).limit(),
            )),
    {
        if self.out.len() == 0 && !self.oversized {
            return None;
        }
        Some(self.take_line())
    }
}

/// What std's `from_utf8_lossy` makes of a complete line: each invalid
/// sequence, and an incomplete one at the end, becomes U+FFFD.
pub open spec fn lossy_line(bytes: Seq<u8>) -> Seq<char> {
    let (text, rest) = lossy_decode(bytes);
    if rest.len() > 0 {
        text.push('\u{FFFD}')
    } else {
        text
    }
}

pub open spec fn is_ascii_white(b: u8) -> bool {
    b == 32u8 || b == 9u8 || b == 10u8 || b == 12u8 || b == 13u8
}

/// What the reader does with one line.
#[derive(Debug)]
pub enum LineAction {
    /// Past the limit: a protocol fault, nothing to parse.
    Oversized,
    /// Only whitespace: skipped.
    Blank,
    /// Text to parse as a protocol message.
    Text(String),
}

/// Sorts one line read from the agent's stdout.
pub fn classify_line(bytes: &[u8], oversized: bool) -> (a: LineAction)
    ensures
        oversized ==> a is Oversized,
        !oversized && (forall|i: int| 0 <= i < bytes@.len() ==> is_ascii_white(#[trigger] bytes@[i]))
            ==> a is Blank,
        !oversized && (exists|i: int| 0 <= i < bytes@.len() && !is_ascii_white(#[trigger] bytes@[i]))
            ==> (a matches LineAction::Text(t) && t@ == lossy_line(bytes@)),
{
    if oversized {
        return LineAction::Oversized;
    }
    let mut i: usize = 0;
    let mut all_white = true;
    while i < bytes.len()
        invariant
            i <= bytes@.len(),
            all_white <==> forall|j: int| 0 <= j < i ==> is_ascii_white(#[trigger] bytes@[j]),
        decreases bytes@.len() - i,
    {
        let b = bytes[i];
        if !(b == 32u8 || b == 9u8 || b == 10u8 || b == 12u8 || b == 13u8) {
            all_white = false;
        }
        i = i + 1;
    }
    if all_white {
        return LineAction::Blank;
    }
    let mut decoder = Utf8Decoder::new();
    let mut text = decoder.push(bytes);
    if decoder.has_pending() {
        text.append("\u{FFFD}");
        proof {
            reveal_strlit("\u{FFFD}");
        }
    }
    proof {
        assert(Seq::<u8>::empty() + bytes@ =~= bytes@);
    }
    LineAction::Text(text)
}

} // verus!
