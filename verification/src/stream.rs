//! The stream driver: turns transport byte chunks into SSE payloads.
//!
//! The driver is a state machine with two states, active and closed.
//! Each chunk is appended to the frame buffer; every complete frame is
//! decoded, empty payloads are dropped, and the termination sentinel
//! `[DONE]` closes the machine and discards everything after it.  The
//! unverified transport loop feeds the machine one event at a time:
//! a chunk, a transport failure, or the end of the stream.

use crate::error::StreamError;
use crate::event::decode_event;
use crate::json::doc_of;
use crate::json::is_valid_json;
use crate::json::lossy_of;
use crate::parse::completion_of;
use crate::parse::parse_payload;
use crate::parse::schema_ok;
use crate::types::spec_delta_content;
use crate::types::StreamCompletionResponse;
use crate::event::is_sentinel;
use crate::event::payload_of;
use crate::event::sentinel;
use crate::frame::first_delim;
use crate::frame::split_frames;
use crate::frame::FrameBuffer;
use vstd::prelude::*;

verus! {

/// Stateless front of the protocol engine; each call to
/// [`StreamWrapper::engine`] starts an independent stream.
#[derive(Debug, Clone, Copy)]
pub struct StreamWrapper;

impl StreamWrapper {
    /// A new stateless wrapper.
    pub fn new() -> Self {
        StreamWrapper
    }

    /// A fresh engine in its initial state, for one stream.
    pub fn engine(&self) -> (e: StreamEngine)
        ensures
            e@ == initial_view(),
    {
        StreamEngine::new()
    }
}

impl Default for StreamWrapper {
    fn default() -> Self {
        StreamWrapper
    }
}

/// Ghost state of the driver: what is buffered, and whether the
/// machine reached its terminal state.
pub ghost struct EngineView {
    /// Bytes received but not yet part of a complete frame.
    pub buffered: Seq<u8>,
    /// True after the sentinel, a transport failure, or stream end.
    pub closed: bool,
}

/// The state a stream starts in: nothing buffered, active.
pub open spec fn initial_view() -> EngineView {
    EngineView { buffered: Seq::empty(), closed: false }
}

/// A well-formed driver state never buffers a complete frame: frames
/// are extracted as soon as they are complete.
pub open spec fn wf(v: EngineView) -> bool {
    first_delim(v.buffered) + 2 > v.buffered.len()
}

/// The payloads emitted for a sequence of complete frames, and whether
/// the sentinel was reached: frames are decoded in order, empty
/// payloads are dropped, and the first sentinel payload stops
/// everything after it.
pub open spec fn emitted(frames: Seq<Seq<u8>>) -> (Seq<Seq<u8>>, bool)
    decreases frames.len(),
{
    if frames.len() == 0 {
        (Seq::empty(), false)
    } else {
        let p = payload_of(frames[0]);
        if p == sentinel() {
            (Seq::empty(), true)
        } else {
            let rest = emitted(frames.skip(1));
            if p.len() == 0 {
                rest
            } else {
                (seq![p] + rest.0, rest.1)
            }
        }
    }
}

/// One step of the driver: the payloads it emits for one chunk, and
/// its state afterwards.  A closed driver ignores the chunk.
pub open spec fn machine_step(v: EngineView, chunk: Seq<u8>) -> (Seq<Seq<u8>>, EngineView) {
    if v.closed {
        (Seq::empty(), v)
    } else {
        let fr = split_frames(v.buffered + chunk);
        let em = emitted(fr.0);
        (
            em.0,
            EngineView {
                buffered: if em.1 {
                    Seq::empty()
                } else {
                    fr.1
                },
                closed: em.1,
            },
        )
    }
}

/// The driver run over a whole sequence of chunks: all payloads in
/// order, and the final state.
pub open spec fn machine_run(v: EngineView, chunks: Seq<Seq<u8>>) -> (Seq<Seq<u8>>, EngineView)
    decreases chunks.len(),
{
    if chunks.len() == 0 {
        (Seq::empty(), v)
    } else {
        let first = machine_step(v, chunks[0]);
        let rest = machine_run(first.1, chunks.skip(1));
        (first.0 + rest.0, rest.1)
    }
}

/// Emission distributes over concatenation of frame sequences, up to
/// the sentinel: payloads after the sentinel are discarded.
proof fn lemma_emitted_append(f: Seq<Seq<u8>>, g: Seq<Seq<u8>>)
    ensures
        emitted(f).1 ==> emitted(f + g) == (emitted(f).0, true),
        !emitted(f).1 ==> emitted(f + g).0 == emitted(f).0 + emitted(g).0 && emitted(f + g).1
            == emitted(g).1,
    decreases f.len(),
{
    if f.len() == 0 {
        assert(f + g =~= g);
        assert(emitted(f).0 + emitted(g).0 =~= emitted(g).0);
    } else {
        assert((f + g)[0] == f[0]);
        assert((f + g).len() > 0);
        let p = payload_of(f[0]);
        if p == sentinel() {
        } else {
            assert((f + g).skip(1) =~= f.skip(1) + g);
            lemma_emitted_append(f.skip(1), g);
            if !emitted(f).1 && p.len() > 0 {
                assert(seq![p] + (emitted(f.skip(1)).0 + emitted(g).0) =~= (seq![p] + emitted(
                    f.skip(1),
                ).0) + emitted(g).0);
            }
        }
    }
}

/// A driver step leaves a well-formed state.
proof fn lemma_step_wf(v: EngineView, chunk: Seq<u8>)
    requires
        wf(v),
    ensures
        wf(machine_step(v, chunk).1),
{
    if !v.closed {
        let whole = v.buffered + chunk;
        crate::frame::lemma_split_frames_residue(whole);
        crate::frame::lemma_first_delim(Seq::<u8>::empty());
    }
}

/// Feeding one chunk and then another emits exactly what feeding
/// their concatenation emits, and leaves the driver in the same
/// state: chunk boundaries carry no meaning.
pub proof fn lemma_step_compose(v: EngineView, c1: Seq<u8>, c2: Seq<u8>)
    ensures
        machine_step(v, c1 + c2).0 == machine_step(v, c1).0 + machine_step(
            machine_step(v, c1).1,
            c2,
        ).0,
        machine_step(v, c1 + c2).1 == machine_step(machine_step(v, c1).1, c2).1,
{
    if v.closed {
        assert(machine_step(v, c1 + c2).0 =~= machine_step(v, c1).0 + machine_step(
            machine_step(v, c1).1,
            c2,
        ).0);
    } else {
        let w1 = v.buffered + c1;
        assert(v.buffered + (c1 + c2) =~= w1 + c2);
        crate::frame::lemma_split_frames_append(w1, c2);
        let f1 = split_frames(w1).0;
        let r1 = split_frames(w1).1;
        let f2 = split_frames(r1 + c2).0;
        assert(split_frames(w1 + c2).0 == f1 + f2);
        lemma_emitted_append(f1, f2);
        if emitted(f1).1 {
            assert(machine_step(v, c1 + c2).0 =~= machine_step(v, c1).0 + machine_step(
                machine_step(v, c1).1,
                c2,
            ).0);
        }
    }
}

/// Frame boundary independence: however a byte stream is cut into
/// chunks, the driver emits exactly the payloads of the whole stream
/// handed over as one chunk, and ends in the same state.  Since
/// [`StreamEngine::push_chunk`] turns payloads into items one for
/// one, in order, the items do not depend on the chunking either.
pub proof fn lemma_run_is_step_on_flatten(v: EngineView, chunks: Seq<Seq<u8>>)
    requires
        wf(v),
    ensures
        machine_run(v, chunks).0 == machine_step(v, chunks.flatten()).0,
        machine_run(v, chunks).1 == machine_step(v, chunks.flatten()).1,
    decreases chunks.len(),
{
    if chunks.len() == 0 {
        assert(chunks.flatten() == Seq::<u8>::empty());
        if !v.closed {
            assert(v.buffered + Seq::<u8>::empty() =~= v.buffered);
            assert(split_frames(v.buffered).0 =~= Seq::<Seq<u8>>::empty());
            assert(machine_step(v, Seq::<u8>::empty()).0 =~= machine_run(v, chunks).0);
            assert(machine_step(v, Seq::<u8>::empty()).1 == v);
        }
    } else {
        let c0 = chunks[0];
        let rest = chunks.skip(1);
        assert(chunks.flatten() == c0 + rest.flatten()) by {
            assert(chunks.first() == c0);
            assert(chunks.drop_first() =~= rest);
        }
        let after = machine_step(v, c0).1;
        lemma_step_wf(v, c0);
        lemma_run_is_step_on_flatten(after, rest);
        lemma_step_compose(v, c0, rest.flatten());
    }
}

/// Sentinel termination: once a chunk's frames reach the sentinel,
/// any further bytes of the same chunk, and any later chunk, change
/// neither the emitted payloads nor the state.
pub proof fn lemma_sentinel_termination(v: EngineView, chunk: Seq<u8>, extra: Seq<u8>)
    requires
        machine_step(v, chunk).1.closed,
    ensures
        machine_step(v, chunk + extra).0 == machine_step(v, chunk).0,
        machine_step(v, chunk + extra).1 == machine_step(v, chunk).1,
{
    lemma_step_compose(v, chunk, extra);
    assert(machine_step(v, chunk).0 + machine_step(machine_step(v, chunk).1, extra).0
        =~= machine_step(v, chunk).0);
}

/// The byte stream cut into one-byte chunks.
pub open spec fn unit_chunks(bytes: Seq<u8>) -> Seq<Seq<u8>> {
    Seq::new(bytes.len(), |i: int| seq![bytes[i]])
}

proof fn lemma_unit_chunks_flatten(bytes: Seq<u8>)
    ensures
        unit_chunks(bytes).flatten() == bytes,
    decreases bytes.len(),
{
    if bytes.len() == 0 {
        assert(unit_chunks(bytes).len() == 0);
        assert(unit_chunks(bytes).flatten() =~= bytes);
    } else {
        let u = unit_chunks(bytes);
        assert(u.first() == seq![bytes[0]]);
        assert(u.drop_first() =~= unit_chunks(bytes.skip(1)));
        lemma_unit_chunks_flatten(bytes.skip(1));
        assert(seq![bytes[0]] + bytes.skip(1) =~= bytes);
    }
}

/// Idempotent partial buffering: feeding a byte stream one byte per
/// call emits exactly the payloads of feeding it in one call.
pub proof fn lemma_byte_at_a_time(bytes: Seq<u8>)
    ensures
        machine_run(initial_view(), unit_chunks(bytes)).0 == machine_step(
            initial_view(),
            bytes,
        ).0,
{
    crate::frame::lemma_first_delim(Seq::<u8>::empty());
    lemma_run_is_step_on_flatten(initial_view(), unit_chunks(bytes));
    lemma_unit_chunks_flatten(bytes);
}

/// How one output item relates to the payload it came from.  A
/// payload whose text is valid JSON fitting the completion schema
/// yields exactly the completion its document stands for; any other
/// payload yields a malformed-payload error carrying exactly that
/// payload's text.
pub open spec fn item_matches(
    item: Result<StreamCompletionResponse, StreamError>,
    payload: Seq<u8>,
) -> bool {
    let text = lossy_of(payload);
    match item {
        Result::Ok(c) => {
            &&& is_valid_json(text)
            &&& schema_ok(doc_of(text))
            &&& c@ == completion_of(doc_of(text))
        },
        Result::Err(e) => {
            &&& !(is_valid_json(text) && schema_ok(doc_of(text)))
            &&& (e matches StreamError::MalformedPayload { payload: p, reason: _ }
                && p@ == text)
        },
    }
}

/// Two items that match one payload agree: both parse, to completions
/// with the same value, or both fail, carrying the same payload text.
/// With the payload sequence pinned by the driver laws, the item
/// sequence is therefore determined up to the failure reasons.
pub proof fn lemma_items_agree(
    a: Result<StreamCompletionResponse, StreamError>,
    b: Result<StreamCompletionResponse, StreamError>,
    payload: Seq<u8>,
)
    requires
        item_matches(a, payload),
        item_matches(b, payload),
    ensures
        a is Ok <==> b is Ok,
        a matches Result::Ok(ca) ==> (b matches Result::Ok(cb) && ca@ == cb@),
        a matches Result::Err(ea) ==> (b matches Result::Err(eb)
            && (ea matches StreamError::MalformedPayload { payload: pa, reason: _ }
            && (eb matches StreamError::MalformedPayload { payload: pb, reason: _ }
            && pa@ == pb@))),
{
}

/// What the delta extraction adapter shows of one item: errors pass
/// unchanged, an empty text is suppressed, a non-empty text passes.
pub open spec fn spec_visible(item: Result<StreamCompletionResponse, StreamError>) -> Option<
    Result<Seq<char>, StreamError>,
> {
    match item {
        Result::Ok(c) => if spec_delta_content(c).len() == 0 {
            None
        } else {
            Some(Result::Ok(spec_delta_content(c)))
        },
        Result::Err(e) => Some(Result::Err(e)),
    }
}

/// The delta extraction adapter for one item: extracts the first
/// choice's incremental text (empty when absent), suppresses items
/// that are successful empty texts, and passes every error through
/// unchanged.
pub fn visible_delta(item: Result<StreamCompletionResponse, StreamError>) -> (out: Option<
    Result<String, StreamError>,
>)
    ensures
        out is None <==> spec_visible(item) is None,
        out matches Some(Result::Ok(t)) ==> (spec_visible(item) matches Some(Result::Ok(s))
            && t@ == s),
        spec_visible(item) matches Some(Result::Ok(s)) ==> (out matches Some(Result::Ok(t))
            && t@ == s),
        out matches Some(Result::Err(e)) ==> spec_visible(item) == Some(
            Result::<Seq<char>, StreamError>::Err(e),
        ),
{
    match item {
        Result::Ok(c) => {
            let text = c.delta_content();
            if text.as_str().is_empty() {
                None
            } else {
                Some(Result::Ok(text))
            }
        },
        Result::Err(e) => Some(Result::Err(e)),
    }
}

/// The protocol engine for one stream: a frame buffer and the
/// active/closed state.
pub struct StreamEngine {
    buf: FrameBuffer,
    halted: bool,
}

impl View for StreamEngine {
    type V = EngineView;

    closed spec fn view(&self) -> EngineView {
        EngineView { buffered: self.buf@, closed: self.halted }
    }
}

impl StreamEngine {
    /// A fresh engine in its initial state.
    pub fn new() -> (e: Self)
        ensures
            e@ == initial_view(),
            wf(e@),
    {
        proof {
            crate::frame::lemma_first_delim(Seq::<u8>::empty());
        }
        StreamEngine { buf: FrameBuffer::new(), halted: false }
    }

    /// Whether the machine reached its terminal state; a closed
    /// engine emits nothing any more, and the caller stops pulling.
    pub fn is_closed(&self) -> (r: bool)
        ensures
            r == self@.closed,
    {
        self.halted
    }

    /// Feeds one transport chunk and returns every payload it
    /// completes, in order: exactly one driver step.
    pub fn push_payloads(&mut self, chunk: &[u8]) -> (out: Vec<Vec<u8>>)
        ensures
            out.deep_view() == machine_step(old(self)@, chunk@).0,
            final(self)@ == machine_step(old(self)@, chunk@).1,
            wf(old(self)@) ==> wf(final(self)@),
    {
        let ghost pre = self@;
        proof {
            if wf(pre) {
                lemma_step_wf(pre, chunk@);
            }
        }
        let mut out: Vec<Vec<u8>> = Vec::new();
        if self.halted {
            proof {
                assert(out.deep_view() =~= machine_step(pre, chunk@).0);
            }
            return out;
        }
        self.buf.append(chunk);
        proof {
            let whole = pre.buffered + chunk@;
            assert(machine_step(pre, chunk@).0 =~= out.deep_view() + emitted(
                split_frames(whole).0,
            ).0);
        }
        loop
            invariant_except_break
                !self.halted,
                !pre.closed,
                machine_step(pre, chunk@).0 == out.deep_view() + emitted(
                    split_frames(self@.buffered).0,
                ).0,
                machine_step(pre, chunk@).1.closed == emitted(split_frames(self@.buffered).0).1,
                !emitted(split_frames(self@.buffered).0).1 ==> machine_step(pre, chunk@).1.buffered
                    == split_frames(self@.buffered).1,
            ensures
                out.deep_view() == machine_step(pre, chunk@).0,
                self@ == machine_step(pre, chunk@).1,
            decreases self@.buffered.len(),
        {
            let ghost b0 = self@.buffered;
            let next = self.buf.extract_next_frame();
            match next {
                None => {
                    proof {
                        assert(b0 == self@.buffered);
                        assert(split_frames(b0).0 =~= Seq::<Seq<u8>>::empty());
                        assert(split_frames(b0).1 == b0);
                        assert(out.deep_view() =~= machine_step(pre, chunk@).0);
                    }
                    break;
                },
                Some(frame) => {
                    let ghost b1 = self@.buffered;
                    proof {
                        assert(first_delim(b0) + 2 <= b0.len());
                        assert(frame@ == b0.take(first_delim(b0) as int + 2));
                        assert(b1 == b0.skip(first_delim(b0) as int + 2));
                        assert(split_frames(b0).0 == seq![frame@] + split_frames(b1).0);
                        assert(split_frames(b0).1 == split_frames(b1).1);
                        assert(split_frames(b0).0[0] == frame@);
                        assert(split_frames(b0).0.skip(1) =~= split_frames(b1).0);
                    }
                    let payload = decode_event(&frame);
                    if is_sentinel(&payload) {
                        self.halted = true;
                        self.buf.take_residue();
                        proof {
                            assert(emitted(split_frames(b0).0).1);
                            assert(emitted(split_frames(b0).0).0 =~= Seq::<Seq<u8>>::empty());
                            assert(out.deep_view() =~= machine_step(pre, chunk@).0);
                            assert(self@.buffered =~= Seq::<u8>::empty());
                        }
                        break;
                    } else if payload.len() > 0 {
                        let ghost dv0 = out.deep_view();
                        out.push(payload);
                        proof {
                            let em0 = emitted(split_frames(b0).0);
                            let em1 = emitted(split_frames(b1).0);
                            assert(em0.0 == seq![payload_of(frame@)] + em1.0);
                            assert(em0.1 == em1.1);
                            assert(payload.deep_view() =~= payload@);
                            assert(out.deep_view() =~= dv0 + seq![payload_of(frame@)]);
                            assert(dv0 + (seq![payload_of(frame@)] + em1.0) =~= out.deep_view()
                                + em1.0);
                        }
                    } else {
                        proof {
                            assert(emitted(split_frames(b0).0) == emitted(split_frames(b1).0));
                        }
                    }
                },
            }
        }
        out
    }

    /// Feeds one transport chunk and returns one item for every
    /// payload it completes, in order: a parsed incremental
    /// completion, or a [`StreamError::MalformedPayload`] carrying the
    /// payload that did not parse.  A payload whose text is not valid
    /// JSON always yields the error item.
    pub fn push_chunk(&mut self, chunk: &[u8]) -> (items: Vec<
        Result<StreamCompletionResponse, StreamError>,
    >)
        ensures
            final(self)@ == machine_step(old(self)@, chunk@).1,
            items@.len() == machine_step(old(self)@, chunk@).0.len(),
            forall|i: int|
                0 <= i < items@.len() ==> #[trigger] item_matches(
                    items@[i],
                    machine_step(old(self)@, chunk@).0[i],
                ),
    {
        let ghost emitted_payloads = machine_step(self@, chunk@).0;
        let payloads = self.push_payloads(chunk);
        let mut items: Vec<Result<StreamCompletionResponse, StreamError>> = Vec::new();
        let n = payloads.len();
        let mut i: usize = 0;
        while i < n
            invariant
                i <= n,
                n == payloads@.len(),
                payloads.deep_view() == emitted_payloads,
                items@.len() == i,
                forall|j: int|
                    0 <= j < i ==> #[trigger] item_matches(items@[j], emitted_payloads[j]),
            decreases n - i,
        {
            proof {
                assert(payloads.deep_view()[i as int] == payloads@[i as int]@);
            }
            let item = parse_payload(payloads[i].as_slice());
            items.push(item);
            i = i + 1;
        }
        items
    }

    /// Ends the stream cleanly: closes the machine and hands back any
    /// residual unterminated bytes, for diagnostics only.  The residue
    /// is not an error and is never a payload.
    pub fn finish(&mut self) -> (residue: Vec<u8>)
        ensures
            residue@ == old(self)@.buffered,
            final(self)@.closed,
            final(self)@.buffered == Seq::<u8>::empty(),
    {
        self.halted = true;
        self.buf.take_residue()
    }

    /// Records a transport failure: closes the machine and returns
    /// the error item to surface.  Terminal, like the sentinel, but
    /// reported to the consumer.
    pub fn transport_failure(&mut self, message: String) -> (e: StreamError)
        ensures
            final(self)@.closed,
            final(self)@.buffered == Seq::<u8>::empty(),
            e == StreamError::TransportFailure(message),
    {
        self.halted = true;
        self.buf.take_residue();
        StreamError::TransportFailure(message)
    }
}

} // verus!
