//! The streaming response bridge.
//!
//! The bridge consumes the raw bytes of a chunked, newline-delimited
//! `data: <json>` response, reassembles complete lines across arbitrary read
//! boundaries, skips unparsable frames, stops at the terminator sentinel, and
//! numbers each extracted text delta with a contiguous index starting at 0.
//! The running aggregate is always the in-order concatenation of the deltas
//! emitted so far, and [`lemma_feed_split`] shows the whole process is
//! independent of how the input bytes were split across reads.

use vstd::prelude::*;
use vstd::slice::{slice_subrange, slice_to_vec};
use vstd::string::StringSliceAdditionalSpecFns;
use vstd::string::StringExecFns;

verus! {

/// The text delta at `choices[0].delta.content` of a frame's JSON document,
/// when the frame parses that way; what the value is on given bytes is fixed
/// by the JSON format and the frame schema.
pub uninterp spec fn delta_of(frame: Seq<u8>) -> Option<Seq<char>>;

/// Relies on `serde_json::from_slice` and `serde_json::Value` navigation:
/// returns the string at `choices[0].delta.content` of the frame's JSON
/// document, or `None` when the frame does not parse that way. The result
/// depends on the frame bytes alone.
#[verifier::external_body]
fn parse_frame_delta(frame: &[u8]) -> (r: Option<String>)
    ensures
        (r is Some) == (delta_of(frame@) is Some),
        r matches Some(s) ==> delta_of(frame@) == Some(s@),
{
    let value: serde_json::Value = serde_json::from_slice(frame).ok()?;
    let content = value.get("choices")?.get(0)?.get("delta")?.get("content")?.as_str()?;
    Some(content.to_string())
}

/// ASCII whitespace trimmed from the ends of a reassembled frame line.
pub open spec fn is_ws_byte(b: u8) -> bool {
    b == 32 || b == 9 || b == 13 || b == 10
}

/// `b` with leading whitespace bytes removed.
pub open spec fn ltrim_b(b: Seq<u8>) -> Seq<u8>
    decreases b.len(),
{
    if b.len() > 0 && is_ws_byte(b[0]) {
        ltrim_b(b.drop_first())
    } else {
        b
    }
}

/// `b` with trailing whitespace bytes removed.
pub open spec fn rtrim_b(b: Seq<u8>) -> Seq<u8>
    decreases b.len(),
{
    if b.len() > 0 && is_ws_byte(b[b.len() - 1]) {
        rtrim_b(b.drop_last())
    } else {
        b
    }
}

/// `b` with whitespace bytes removed from both ends.
pub open spec fn trim_b(b: Seq<u8>) -> Seq<u8> {
    rtrim_b(ltrim_b(b))
}

/// The terminator sentinel line.
pub open spec fn sentinel_bytes() -> Seq<u8> {
    "data: [DONE]".spec_bytes()
}

/// The frame prefix introducing a data line.
pub open spec fn data_prefix_bytes() -> Seq<u8> {
    "data: ".spec_bytes()
}

/// Index of the first newline byte in `b`, or `b.len()` when there is none.
pub open spec fn first_nl_at(b: Seq<u8>) -> int
    decreases b.len(),
{
    if b.len() == 0 {
        0
    } else if b[0] == 10 {
        0
    } else {
        1 + first_nl_at(b.drop_first())
    }
}

proof fn lemma_first_nl_at_bounds(b: Seq<u8>)
    ensures
        0 <= first_nl_at(b) <= b.len(),
        first_nl_at(b) < b.len() ==> b[first_nl_at(b)] == 10,
        forall|j: int| 0 <= j < first_nl_at(b) ==> b[j] != 10,
    decreases b.len(),
{
    if b.len() == 0 {
    } else if b[0] == 10 {
    } else {
        lemma_first_nl_at_bounds(b.drop_first());
        assert(forall|j: int| 0 < j < b.len() ==> b[j] == b.drop_first()[j - 1]);
    }
}

proof fn lemma_first_nl_at_from_index(b: Seq<u8>, j: int)
    requires
        0 <= j <= b.len(),
        j < b.len() ==> b[j] == 10,
        forall|k: int| 0 <= k < j ==> b[k] != 10,
    ensures
        first_nl_at(b) == j,
{
    lemma_first_nl_at_bounds(b);
    if first_nl_at(b) < j {
        assert(b[first_nl_at(b)] == 10);
        assert(false);
    }
    if j < first_nl_at(b) {
        assert(b[j] != 10);
        assert(false);
    }
}

proof fn lemma_first_nl_at_append(a: Seq<u8>, b: Seq<u8>)
    requires
        first_nl_at(a) < a.len(),
    ensures
        first_nl_at(a + b) == first_nl_at(a),
{
    lemma_first_nl_at_bounds(a);
    assert(forall|k: int| 0 <= k < a.len() ==> (a + b)[k] == a[k]);
    lemma_first_nl_at_from_index(a + b, first_nl_at(a));
}

/// The ghost state of the bridge: buffered incomplete input, whether the
/// terminator has been seen, and the deltas emitted so far, in order.
pub struct BridgeModel {
    pub buffer: Seq<u8>,
    pub done: bool,
    pub deltas: Seq<Seq<char>>,
}

/// The state before any input.
pub open spec fn initial_model() -> BridgeModel {
    BridgeModel { buffer: Seq::empty(), done: false, deltas: Seq::empty() }
}

/// `st` with `extra` appended to its buffered input.
pub open spec fn model_app(st: BridgeModel, extra: Seq<u8>) -> BridgeModel {
    BridgeModel { buffer: st.buffer + extra, done: st.done, deltas: st.deltas }
}

/// Effect of one complete reassembled line on the bridge: blank lines and
/// undecodable or alien frames are skipped, the sentinel terminates the
/// stream, and a `data: ` frame with a non-empty decoded delta emits that
/// delta. Returns the new `done` flag and delta history.
pub open spec fn spec_line_effect(deltas: Seq<Seq<char>>, line: Seq<u8>) -> (bool, Seq<Seq<char>>) {
    let t = trim_b(line);
    if t.len() == 0 {
        (false, deltas)
    } else if t == sentinel_bytes() {
        (true, deltas)
    } else if data_prefix_bytes().is_prefix_of(t) {
        match delta_of(t.skip(data_prefix_bytes().len() as int)) {
            Some(d) => if d.len() > 0 {
                (false, deltas.push(d))
            } else {
                (false, deltas)
            },
            None => (false, deltas),
        }
    } else {
        (false, deltas)
    }
}

/// Process every complete line buffered in `st`, stopping at the terminator.
pub open spec fn spec_drain(st: BridgeModel) -> BridgeModel
    decreases st.buffer.len(),
{
    if st.done {
        st
    } else {
        let j = first_nl_at(st.buffer);
        if j < 0 || j >= st.buffer.len() {
            st
        } else {
            let e = spec_line_effect(st.deltas, st.buffer.take(j));
            spec_drain(BridgeModel { buffer: st.buffer.skip(j + 1), done: e.0, deltas: e.1 })
        }
    }
}

/// Feed one read's bytes to the bridge: buffer them, then process every
/// complete line.
pub open spec fn spec_feed(st: BridgeModel, input: Seq<u8>) -> BridgeModel {
    spec_drain(model_app(st, input))
}

proof fn lemma_drain_extend(st: BridgeModel, extra: Seq<u8>)
    ensures
        spec_drain(model_app(spec_drain(st), extra)) == spec_drain(model_app(st, extra)),
    decreases st.buffer.len(),
{
    if st.done {
    } else {
        lemma_first_nl_at_bounds(st.buffer);
        let j = first_nl_at(st.buffer);
        if j >= st.buffer.len() {
            // no complete line: spec_drain(st) == st
        } else {
            let e = spec_line_effect(st.deltas, st.buffer.take(j));
            let st_next = BridgeModel { buffer: st.buffer.skip(j + 1), done: e.0, deltas: e.1 };
            // one step of the extended state matches one step of st
            lemma_first_nl_at_append(st.buffer, extra);
            assert((st.buffer + extra).take(j) =~= st.buffer.take(j));
            assert((st.buffer + extra).skip(j + 1) =~= st.buffer.skip(j + 1) + extra);
            assert(spec_drain(model_app(st, extra)) == spec_drain(model_app(st_next, extra)));
            lemma_drain_extend(st_next, extra);
        }
    }
}

/// Splitting the input across reads does not matter: feeding `a` and then `b`
/// leaves the bridge exactly as feeding `a + b` at once does — for any split,
/// including splits in the middle of a frame.
pub proof fn lemma_feed_split(st: BridgeModel, a: Seq<u8>, b: Seq<u8>)
    ensures
        spec_feed(spec_feed(st, a), b) == spec_feed(st, a + b),
{
    lemma_drain_extend(model_app(st, a), b);
    assert((st.buffer + a) + b =~= st.buffer + (a + b));
    assert(model_app(model_app(st, a), b) == model_app(st, a + b));
}

proof fn lemma_sentinel_bytes_value()
    ensures
        sentinel_bytes().len() == 12,
        forall|k: int| 0 <= k < 12 ==> #[trigger] sentinel_bytes()[k] != 10,
        !is_ws_byte(sentinel_bytes()[0]),
        !is_ws_byte(sentinel_bytes()[11]),
{
    reveal_strlit("data: [DONE]");
    let s = "data: [DONE]"@;
    assert(s.len() == 12);
    assert(vstd::utf8::is_ascii_chars(s)) by {
        assert forall|i: int| 0 <= i < s.len() implies '\0' <= #[trigger] s[i] <= '\u{7f}' by {
            if i == 0 {
                assert(s[0] == 'd');
            }
        }
    }
    vstd::utf8::is_ascii_chars_encode_utf8(s);
    assert forall|k: int| 0 <= k < 12 implies #[trigger] sentinel_bytes()[k] != 10 by {
        assert(sentinel_bytes()[k] == s[k] as u8);
        assert(s[k] != '\n');
    }
    assert(sentinel_bytes()[0] == 'd' as u8);
    assert(sentinel_bytes()[11] == ']' as u8);
}

/// A stream holding only the terminator sentinel line — no content frames —
/// terminates the bridge with no chunks emitted and an empty aggregate.
pub proof fn lemma_sentinel_only_stream(input: Seq<u8>)
    requires
        input == sentinel_bytes() + seq![10u8],
    ensures
        spec_feed(initial_model(), input).deltas == Seq::<Seq<char>>::empty(),
        spec_feed(initial_model(), input).deltas.flatten() == Seq::<char>::empty(),
        spec_feed(initial_model(), input).done,
{
    lemma_sentinel_bytes_value();
    let st = model_app(initial_model(), input);
    assert(st.buffer =~= input);
    assert(input.len() == 13);
    assert(input[12] == 10);
    assert(forall|k: int| 0 <= k < 12 ==> input[k] == sentinel_bytes()[k]);
    lemma_first_nl_at_from_index(input, 12);
    assert(input.take(12) =~= sentinel_bytes());
    lemma_trim_b_is_subrange(sentinel_bytes(), 0, 12);
    assert(sentinel_bytes().subrange(0, 12) =~= sentinel_bytes());
    assert(trim_b(input.take(12)) == sentinel_bytes());
    let e = spec_line_effect(initial_model().deltas, input.take(12));
    assert(e.0);
    assert(e.1 =~~= Seq::<Seq<char>>::empty());
    let st_next = BridgeModel { buffer: input.skip(13), done: e.0, deltas: e.1 };
    assert(spec_drain(st) == spec_drain(st_next));
    assert(spec_drain(st_next) == st_next);
    assert(Seq::<Seq<char>>::empty().flatten() =~= Seq::<char>::empty());
}

/// One emitted chunk: the text delta and its contiguous index.
#[derive(Debug)]
pub struct StreamChunk {
    pub delta: String,
    pub index: u64,
}

/// The streaming bridge. Feed it reads with [`StreamBridge::push_bytes`]; it
/// hands back the newly completed chunks, keeps the running aggregate equal
/// to the concatenation of all emitted deltas, and remembers whether the
/// terminator sentinel has arrived.
pub struct StreamBridge {
    buffer: Vec<u8>,
    done: bool,
    aggregate: String,
    count: u64,
    deltas: Ghost<Seq<Seq<char>>>,
}

impl View for StreamBridge {
    type V = BridgeModel;

    closed spec fn view(&self) -> BridgeModel {
        BridgeModel { buffer: self.buffer@, done: self.done, deltas: self.deltas@ }
    }
}

impl StreamBridge {
    /// The bridge's invariant: the chunk counter equals the number of deltas
    /// emitted, and the aggregate is their in-order concatenation.
    pub closed spec fn wf(&self) -> bool {
        &&& self.count as nat == self.deltas@.len()
        &&& self.aggregate@ == self.deltas@.flatten()
    }

    /// A fresh bridge with nothing buffered and nothing emitted.
    pub fn new() -> (r: StreamBridge)
        ensures
            r.wf(),
            r@ == initial_model(),
    {
        let r = StreamBridge {
            buffer: Vec::new(),
            done: false,
            aggregate: String::new(),
            count: 0,
            deltas: Ghost(Seq::empty()),
        };
        proof {
            assert(r@ =~= initial_model());
            assert(r.deltas@.flatten() =~= Seq::<char>::empty());
        }
        r
    }

    /// Whether the terminator sentinel has been consumed.
    pub fn is_done(&self) -> (r: bool)
        ensures
            r == self@.done,
    {
        self.done
    }

    /// How many chunks have been emitted so far.
    pub fn chunk_count(&self) -> (r: u64)
        requires
            self.wf(),
        ensures
            r as nat == self@.deltas.len(),
    {
        self.count
    }

    /// The final aggregate text: the concatenation of all emitted deltas in
    /// index order. Empty when no non-empty delta was produced.
    pub fn aggregate_text(&self) -> (r: &String)
        requires
            self.wf(),
        ensures
            r@ == self@.deltas.flatten(),
    {
        &self.aggregate
    }

    /// Feed the bytes of one read. Buffers a trailing incomplete line, and
    /// returns the chunks completed by this read: their deltas extend the
    /// emitted history, and their indices continue contiguously from the
    /// chunks already emitted.
    pub fn push_bytes(&mut self, input: &[u8]) -> (chunks: Vec<StreamChunk>)
        requires
            old(self).wf(),
            old(self)@.deltas.len() + old(self)@.buffer.len() + input@.len() <= u64::MAX,
        ensures
            final(self).wf(),
            final(self)@ == spec_feed(old(self)@, input@),
            chunks@.len() == final(self)@.deltas.len() - old(self)@.deltas.len(),
            forall|k: int|
                0 <= k < chunks@.len() ==> chunks@[k].delta@ == final(self)@.deltas[old(
                    self,
                )@.deltas.len() + k] && chunks@[k].index as nat == old(self)@.deltas.len() + k,
    {
        let ghost orig = old(self)@;
        let ghost target = spec_feed(old(self)@, input@);
        let ghost bound = old(self)@.deltas.len() + old(self)@.buffer.len() + input@.len();
        let ghost base = old(self)@.deltas.len();

        let mut i: usize = 0;
        while i < input.len()
            invariant
                0 <= i <= input@.len(),
                self.buffer@ == orig.buffer + input@.subrange(0, i as int),
                self.done == orig.done,
                self.deltas@ == orig.deltas,
                self.count == old(self).count,
                self.aggregate == old(self).aggregate,
                old(self).wf(),
            decreases input@.len() - i,
        {
            let b = input[i];
            self.buffer.push(b);
            proof {
                assert(self.buffer@ =~= orig.buffer + input@.subrange(0, i + 1));
            }
            i += 1;
        }
        proof {
            assert(input@.subrange(0, input@.len() as int) =~= input@);
            assert(self@ == model_app(orig, input@));
            assert(self.wf());
        }

        let mut chunks: Vec<StreamChunk> = Vec::new();
        loop
            invariant
                self.wf(),
                spec_drain(self@) == target,
                self@.deltas.len() + self@.buffer.len() <= bound,
                bound <= u64::MAX,
                base <= self@.deltas.len(),
                chunks@.len() == self@.deltas.len() - base,
                forall|k: int|
                    0 <= k < chunks@.len() ==> chunks@[k].delta@ == self@.deltas[base + k]
                        && chunks@[k].index as nat == base + k,
            ensures
                final(self).wf(),
                final(self)@ == target,
                chunks@.len() == final(self)@.deltas.len() - base,
                forall|k: int|
                    0 <= k < chunks@.len() ==> chunks@[k].delta@ == final(self)@.deltas[base + k]
                        && chunks@[k].index as nat == base + k,
            decreases self@.buffer.len(),
        {
            if self.done {
                break ;
            }
            let n = self.buffer.len();
            let mut j: usize = 0;
            while j < n && *vstd::slice::slice_index_get(self.buffer.as_slice(), j) != 10
                invariant
                    n == self.buffer@.len(),
                    0 <= j <= n,
                    forall|k: int| 0 <= k < j ==> self.buffer@[k] != 10,
                decreases n - j,
            {
                j += 1;
            }
            if j == n {
                proof {
                    lemma_first_nl_at_from_index(self.buffer@, n as int);
                }
                break ;
            }
            // a complete line ends at j
            let ghost prev = self@;
            proof {
                lemma_first_nl_at_from_index(self.buffer@, j as int);
            }
            let line: Vec<u8> = slice_to_vec(slice_subrange(self.buffer.as_slice(), 0, j));
            let rest: Vec<u8> = slice_to_vec(slice_subrange(self.buffer.as_slice(), j + 1, n));
            self.buffer = rest;
            proof {
                assert(line@ =~= prev.buffer.take(j as int));
                assert(self.buffer@ =~= prev.buffer.skip(j as int + 1));
            }
            let ghost effect = spec_line_effect(prev.deltas, line@);
            let ghost stepped = BridgeModel {
                buffer: prev.buffer.skip(j as int + 1),
                done: effect.0,
                deltas: effect.1,
            };
            proof {
                assert(spec_drain(prev) == spec_drain(stepped));
            }

            let trimmed: Vec<u8> = trim_bytes(&line);
            if trimmed.len() == 0 {
                proof {
                    assert(self@ == stepped);
                }
            } else if slice_eq(trimmed.as_slice(), "data: [DONE]".as_bytes()) {
                self.done = true;
                proof {
                    assert(self@ == stepped);
                }
            } else if slice_has_prefix(trimmed.as_slice(), "data: ".as_bytes()) {
                let p = "data: ".as_bytes();
                let frame = slice_subrange(trimmed.as_slice(), p.len(), trimmed.len());
                proof {
                    assert(frame@ =~= trim_b(line@).skip(data_prefix_bytes().len() as int));
                }
                match parse_frame_delta(frame) {
                    Some(d) => {
                        if d.as_str().unicode_len() > 0 {
                            let ghost prev_deltas = self.deltas@;
                            self.aggregate.append(d.as_str());
                            let idx = self.count;
                            self.count = self.count + 1;
                            proof {
                                self.deltas@ = self.deltas@.push(d@);
                                prev_deltas.lemma_flatten_push(d@);
                                assert(self.aggregate@ == self.deltas@.flatten());
                                assert(self@ == stepped);
                            }
                            let ghost prev_chunks = chunks@;
                            chunks.push(StreamChunk { delta: d, index: idx });
                            proof {
                                assert(chunks@ == prev_chunks.push(
                                    StreamChunk { delta: d, index: idx },
                                ));
                            }
                        } else {
                            proof {
                                assert(self@ == stepped);
                            }
                        }
                    },
                    None => {
                        proof {
                            assert(self@ == stepped);
                        }
                    },
                }
            } else {
                proof {
                    assert(self@ == stepped);
                }
            }
        }
        chunks
    }
}

/// Exact byte-slice equality.
fn slice_eq(a: &[u8], b: &[u8]) -> (r: bool)
    ensures
        r == (a@ == b@),
{
    if a.len() != b.len() {
        assert(a@ != b@) by {
            assert(a@.len() != b@.len());
        }
        return false;
    }
    let n = a.len();
    let mut i: usize = 0;
    while i < n
        invariant
            n == a@.len(),
            n == b@.len(),
            0 <= i <= n,
            forall|j: int| 0 <= j < i ==> a@[j] == b@[j],
        decreases n - i,
    {
        if *vstd::slice::slice_index_get(a, i) != *vstd::slice::slice_index_get(b, i) {
            return false;
        }
        i += 1;
    }
    proof {
        assert(a@ =~= b@);
    }
    true
}

/// Whether `p` is a prefix of `a`.
fn slice_has_prefix(a: &[u8], p: &[u8]) -> (r: bool)
    ensures
        r == p@.is_prefix_of(a@),
{
    let pn = p.len();
    if pn > a.len() {
        return false;
    }
    let mut i: usize = 0;
    while i < pn
        invariant
            pn == p@.len(),
            pn <= a@.len(),
            0 <= i <= pn,
            forall|j: int| 0 <= j < i ==> a@[j] == p@[j],
        decreases pn - i,
    {
        if *vstd::slice::slice_index_get(a, i) != *vstd::slice::slice_index_get(p, i) {
            assert(!p@.is_prefix_of(a@)) by {
                assert(a@.subrange(0, pn as int)[i as int] != p@[i as int]);
            }
            return false;
        }
        i += 1;
    }
    proof {
        assert(a@.subrange(0, pn as int) =~= p@);
    }
    true
}

fn is_ws_byte_exec(b: u8) -> (r: bool)
    ensures
        r == is_ws_byte(b),
{
    b == 32 || b == 9 || b == 13 || b == 10
}

proof fn lemma_ltrim_b_at(s: Seq<u8>, i: int)
    requires
        0 <= i <= s.len(),
        forall|j: int| 0 <= j < i ==> is_ws_byte(s[j]),
        i < s.len() ==> !is_ws_byte(s[i]),
    ensures
        ltrim_b(s) == s.subrange(i, s.len() as int),
    decreases i,
{
    if i == 0 {
        assert(ltrim_b(s) =~= s.subrange(0, s.len() as int));
    } else {
        lemma_ltrim_b_at(s.drop_first(), i - 1);
        assert(s.drop_first().subrange(i - 1, s.drop_first().len() as int) =~= s.subrange(
            i,
            s.len() as int,
        ));
    }
}

proof fn lemma_rtrim_b_at(s: Seq<u8>, i: int)
    requires
        0 <= i <= s.len(),
        forall|j: int| i <= j < s.len() ==> is_ws_byte(s[j]),
        i > 0 ==> !is_ws_byte(s[i - 1]),
    ensures
        rtrim_b(s) == s.subrange(0, i),
    decreases s.len() - i,
{
    if i == s.len() {
        assert(rtrim_b(s) =~= s.subrange(0, i));
    } else {
        lemma_rtrim_b_at(s.drop_last(), i);
        assert(s.drop_last().subrange(0, i) =~= s.subrange(0, i));
    }
}

proof fn lemma_trim_b_is_subrange(s: Seq<u8>, lo: int, hi: int)
    requires
        0 <= lo <= hi <= s.len(),
        forall|j: int| 0 <= j < lo ==> is_ws_byte(s[j]),
        forall|j: int| hi <= j < s.len() ==> is_ws_byte(s[j]),
        lo < hi ==> !is_ws_byte(s[lo]) && !is_ws_byte(s[hi - 1]),
        lo == hi ==> lo == s.len(),
    ensures
        trim_b(s) == s.subrange(lo, hi),
{
    if lo == hi {
        lemma_ltrim_b_at(s, s.len() as int);
        assert(ltrim_b(s) =~= Seq::<u8>::empty());
        assert(rtrim_b(Seq::<u8>::empty()) =~= Seq::<u8>::empty());
        assert(s.subrange(lo, hi) =~= Seq::<u8>::empty());
    } else {
        lemma_ltrim_b_at(s, lo);
        let t = s.subrange(lo, s.len() as int);
        lemma_rtrim_b_at(t, hi - lo);
        assert(t.subrange(0, hi - lo) =~= s.subrange(lo, hi));
    }
}

/// Trim ASCII whitespace from both ends of a byte line.
fn trim_bytes(line: &Vec<u8>) -> (r: Vec<u8>)
    ensures
        r@ == trim_b(line@),
{
    let n = line.len();
    let mut lo: usize = 0;
    while lo < n && is_ws_byte_exec(line[lo])
        invariant
            n == line@.len(),
            0 <= lo <= n,
            forall|j: int| 0 <= j < lo ==> is_ws_byte(line@[j]),
        decreases n - lo,
    {
        lo += 1;
    }
    if lo == n {
        proof {
            lemma_trim_b_is_subrange(line@, n as int, n as int);
        }
        let r: Vec<u8> = Vec::new();
        proof {
            assert(r@ =~= line@.subrange(n as int, n as int));
        }
        return r;
    }
    let mut hi: usize = n;
    while hi > lo && is_ws_byte_exec(line[hi - 1])
        invariant
            n == line@.len(),
            0 <= lo <= hi <= n,
            lo < n,
            !is_ws_byte(line@[lo as int]),
            forall|j: int| hi <= j < n ==> is_ws_byte(line@[j]),
        decreases hi,
    {
        hi -= 1;
    }
    proof {
        lemma_trim_b_is_subrange(line@, lo as int, hi as int);
    }
    slice_to_vec(slice_subrange(line.as_slice(), lo, hi))
}

} // verus!
