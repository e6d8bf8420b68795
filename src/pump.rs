//! The output coalescer: PTY chunks are gathered into size- and time-bounded
//! binary frames, each tagged with the output opcode.
use vstd::prelude::*;
use bytes::BytesMut;
use vstd::string::StringExecFns;
use vstd::utf8::encode_utf8;
use crate::announce::{announced_path, watch_step, TtyWatch, WatchView};
use crate::registry::opt_chars;

verus! {

/// `bytes::BytesMut`, the growable byte buffer that holds the pending output.
#[verifier::external_type_specification]
#[verifier::external_body]
pub struct ExBytesMut(BytesMut);

/// The bytes a `BytesMut` holds.
pub uninterp spec fn buffer_contents(b: BytesMut) -> Seq<u8>;

/// Relies on `BytesMut::with_capacity`: a new buffer holds no bytes.
pub assume_specification[ BytesMut::with_capacity ](capacity: usize) -> (r: BytesMut)
    ensures
        buffer_contents(r) == Seq::<u8>::empty(),
;

/// Relies on `BytesMut::len`: the number of bytes held.
pub assume_specification[ BytesMut::len ](b: &BytesMut) -> (r: usize)
    ensures
        r == buffer_contents(*b).len(),
;

/// Relies on `BytesMut::is_empty`: whether no byte is held.
pub assume_specification[ BytesMut::is_empty ](b: &BytesMut) -> (r: bool)
    ensures
        r == (buffer_contents(*b).len() == 0),
;

/// Relies on `BytesMut::clear`: afterwards no byte is held.
pub assume_specification[ BytesMut::clear ](b: &mut BytesMut)
    ensures
        buffer_contents(*final(b)) == Seq::<u8>::empty(),
;

/// Relies on `BytesMut::extend_from_slice`: the bytes are appended. It
/// panics when the new length would overflow the capacity's range, which the
/// bound leaves out.
pub assume_specification[ BytesMut::extend_from_slice ](b: &mut BytesMut, extend: &[u8])
    requires
        buffer_contents(*old(b)).len() + extend@.len() <= isize::MAX,
    ensures
        buffer_contents(*final(b)) == buffer_contents(*old(b)) + extend@,
;

/// Relies on `BytesMut`'s `Deref`: the slice of the bytes held.
pub assume_specification[ <BytesMut as core::ops::Deref>::deref ](b: &BytesMut) -> (r: &[u8])
    ensures
        r@ == buffer_contents(*b),
;

/// The opcode of terminal output frames (`'0'`).
pub const OUTPUT_OPCODE: u8 = 0x30;

/// A frame is sent at once when this many bytes are buffered.
pub const FLUSH_THRESHOLD: usize = 32768;

/// A buffered chunk is sent at the latest this many milliseconds after it
/// arrived.
pub const IDLE_FLUSH_MS: u64 = 4;

/// The buffer's initial capacity.
pub const BUFFER_CAPACITY: usize = 16384;

/// The largest chunk the pump takes at once.
pub const MAX_CHUNK: usize = 0x4000_0000;

/// The frame that carries `payload`.
pub open spec fn frame_of(payload: Seq<u8>) -> Seq<u8> {
    seq![OUTPUT_OPCODE] + payload
}

/// An event of the pump's model: a chunk from the reader, or a flush (the
/// idle deadline passed, or the reader's channel closed).
pub enum PumpEvent {
    Chunk(Seq<u8>),
    Flush,
}

/// One step of the pump's model: the buffer after the event, and the frame
/// sent, if any.
pub open spec fn pump_step(buf: Seq<u8>, e: PumpEvent) -> (Seq<u8>, Option<Seq<u8>>) {
    match e {
        PumpEvent::Chunk(c) => if buf.len() + c.len() >= FLUSH_THRESHOLD {
            (Seq::empty(), Some(frame_of(buf + c)))
        } else {
            (buf + c, None)
        },
        PumpEvent::Flush => if buf.len() == 0 {
            (buf, None)
        } else {
            (Seq::empty(), Some(frame_of(buf)))
        },
    }
}

/// The buffer after a run of events, and the frames sent, in order.
pub open spec fn pump_run(buf: Seq<u8>, events: Seq<PumpEvent>) -> (Seq<u8>, Seq<Seq<u8>>)
    decreases events.len(),
{
    if events.len() == 0 {
        (buf, Seq::empty())
    } else {
        let (b1, f) = pump_step(buf, events[0]);
        let (b2, rest) = pump_run(b1, events.drop_first());
        match f {
            Some(frame) => (b2, seq![frame] + rest),
            None => (b2, rest),
        }
    }
}

/// The bytes that a run of events hands to the pump.
pub open spec fn chunk_bytes(events: Seq<PumpEvent>) -> Seq<u8>
    decreases events.len(),
{
    if events.len() == 0 {
        Seq::empty()
    } else {
        match events[0] {
            PumpEvent::Chunk(c) => c + chunk_bytes(events.drop_first()),
            PumpEvent::Flush => chunk_bytes(events.drop_first()),
        }
    }
}

/// The payloads of a run of frames, opcode stripped, joined.
pub open spec fn joined_payloads(frames: Seq<Seq<u8>>) -> Seq<u8>
    decreases frames.len(),
{
    if frames.len() == 0 {
        Seq::empty()
    } else {
        frames[0].drop_first() + joined_payloads(frames.drop_first())
    }
}

/// A frame as the protocol wants it: the output opcode, then at least one
/// byte.
pub open spec fn well_formed_frame(f: Seq<u8>) -> bool {
    f.len() > 1 && f[0] == OUTPUT_OPCODE
}

/// What the pump did with a chunk.
pub struct ChunkOutcome {
    /// The frame to send now: the buffer reached the flush threshold.
    pub frame: Option<Vec<u8>>,
    /// The chunk started a new batch: its idle deadline starts now.
    pub arm_deadline: bool,
    /// The TTY path that this chunk was the first to announce.
    pub announced: Option<String>,
}

/// The state of the sending side of one session.
pub struct OutputPump {
    buffer: BytesMut,
    watch: TtyWatch,
}

/// Builds the frame for the buffered bytes.
fn frame_from(payload: &[u8]) -> (r: Vec<u8>)
    requires
        payload@.len() < usize::MAX,
    ensures
        r@ == frame_of(payload@),
{
    let mut frame: Vec<u8> = Vec::with_capacity(payload.len() + 1);
    frame.push(OUTPUT_OPCODE);
    frame.extend_from_slice(payload);
    assert(frame@ =~= frame_of(payload@));
    frame
}

impl OutputPump {
    /// The bytes waiting to be sent.
    pub closed spec fn buffered(&self) -> Seq<u8> {
        buffer_contents(self.buffer)
    }

    /// What the pump's announce scan has seen.
    pub closed spec fn watch(&self) -> WatchView {
        self.watch@
    }

    /// A buffer is never left holding a full frame's worth.
    pub open spec fn wf(&self) -> bool {
        self.buffered().len() < FLUSH_THRESHOLD
    }

    pub fn new() -> (r: Self)
        ensures
            r.wf(),
            r.buffered() == Seq::<u8>::empty(),
            r.watch() == (WatchView { detected: false, observation: None }),
    {
        OutputPump { buffer: BytesMut::with_capacity(BUFFER_CAPACITY), watch: TtyWatch::new() }
    }

    pub fn has_pending(&self) -> (r: bool)
        ensures
            r == (self.buffered().len() > 0),
    {
        !self.buffer.is_empty()
    }

    /// This connection's TTY observation.
    pub fn observation(&self) -> (r: Option<String>)
        ensures
            opt_chars(r) == self.watch().observation,
    {
        self.watch.observation()
    }

    /// Takes one chunk from the reader. The chunk is buffered unchanged and
    /// scanned for the TTY announce; a frame is handed back as soon as the
    /// buffer reaches the flush threshold, and a chunk that starts a batch
    /// asks for the idle deadline.
    pub fn on_chunk(&mut self, chunk: &[u8]) -> (r: ChunkOutcome)
        requires
            old(self).wf(),
            chunk@.len() <= MAX_CHUNK,
        ensures
            final(self).wf(),
            (final(self).buffered(), match r.frame {
                Some(f) => Some(f@),
                None => None,
            }) == pump_step(old(self).buffered(), PumpEvent::Chunk(chunk@)),
            r.arm_deadline == (old(self).buffered().len() == 0 && final(self).buffered().len()
                > 0),
            final(self).watch() == watch_step(old(self).watch(), chunk@),
            opt_chars(r.announced) == if old(self).watch().detected {
                None
            } else {
                announced_path(chunk@)
            },
    {
        let announced = self.watch.observe(chunk);
        let was_empty = self.buffer.is_empty();
        self.buffer.extend_from_slice(chunk);
        if self.buffer.len() >= FLUSH_THRESHOLD {
            let frame = frame_from(&self.buffer);
            self.buffer.clear();
            ChunkOutcome { frame: Some(frame), arm_deadline: false, announced }
        } else {
            ChunkOutcome { frame: None, arm_deadline: was_empty && !self.buffer.is_empty(), announced }
        }
    }

    /// Sends what is buffered: at the idle deadline, and when the reader's
    /// channel closes. Nothing is sent for an empty buffer.
    pub fn flush(&mut self) -> (r: Option<Vec<u8>>)
        requires
            old(self).wf(),
        ensures
            final(self).wf(),
            final(self).buffered() == Seq::<u8>::empty(),
            final(self).watch() == old(self).watch(),
            (final(self).buffered(), match r {
                Some(f) => Some(f@),
                None => None,
            }) == pump_step(old(self).buffered(), PumpEvent::Flush),
    {
        if self.buffer.is_empty() {
            return None;
        }
        let frame = frame_from(&self.buffer);
        self.buffer.clear();
        Some(frame)
    }
}

/// The frame that reports a failure to the client: `Error: <message>` and a
/// line break, as terminal output.
pub fn error_frame(message: &str) -> (r: Vec<u8>)
    ensures
        r@ == frame_of(encode_utf8("Error: "@ + message@ + "\r\n"@)),
{
    let mut text = String::from_str("Error: ");
    text.append(message);
    text.append("\r\n");
    let bytes = text.as_str().as_bytes();
    let mut frame: Vec<u8> = Vec::new();
    frame.push(OUTPUT_OPCODE);
    frame.extend_from_slice(bytes);
    assert(frame@ =~= frame_of(bytes@));
    frame
}

/// Every frame the pump sends is well formed: the output opcode and a
/// non-empty payload.
pub proof fn lemma_frames_well_formed(buf: Seq<u8>, events: Seq<PumpEvent>)
    ensures
        forall|i: int|
            0 <= i < pump_run(buf, events).1.len() ==> well_formed_frame(
                #[trigger] pump_run(buf, events).1[i],
            ),
    decreases events.len(),
{
    if events.len() > 0 {
        let (b1, f) = pump_step(buf, events[0]);
        lemma_frames_well_formed(b1, events.drop_first());
        let rest = pump_run(b1, events.drop_first()).1;
        match f {
            Some(frame) => {
                assert(well_formed_frame(frame));
                assert forall|i: int| 0 <= i < pump_run(buf, events).1.len() implies well_formed_frame(
                    #[trigger] pump_run(buf, events).1[i],
                ) by {
                    if i > 0 {
                        assert(pump_run(buf, events).1[i] == rest[i - 1]);
                    }
                }
            },
            None => {},
        }
    }
}

/// The pump neither drops, reorders nor invents bytes: the payloads it sent,
/// followed by what it still buffers, are the buffer it started with followed
/// by every chunk, in order.
pub proof fn lemma_bytes_preserved(buf: Seq<u8>, events: Seq<PumpEvent>)
    ensures
        joined_payloads(pump_run(buf, events).1) + pump_run(buf, events).0 == buf + chunk_bytes(
            events,
        ),
    decreases events.len(),
{
    if events.len() == 0 {
        assert(joined_payloads(Seq::<Seq<u8>>::empty()) + buf =~= buf + Seq::<u8>::empty());
    } else {
        let (b1, f) = pump_step(buf, events[0]);
        lemma_bytes_preserved(b1, events.drop_first());
        let (b2, rest) = pump_run(b1, events.drop_first());
        match f {
            Some(frame) => {
                assert(frame.drop_first() =~= buf + match events[0] {
                    PumpEvent::Chunk(c) => c,
                    PumpEvent::Flush => Seq::<u8>::empty(),
                });
                assert((seq![frame] + rest).drop_first() =~= rest);
                assert((seq![frame] + rest)[0] == frame);
            },
            None => {},
        }
        match events[0] {
            PumpEvent::Chunk(c) => {
                assert(buf + chunk_bytes(events) =~= (buf + c) + chunk_bytes(events.drop_first()));
            },
            PumpEvent::Flush => {},
        }
        assert(joined_payloads(pump_run(buf, events).1) + pump_run(buf, events).0 =~= buf
            + chunk_bytes(events));
    }
}

/// A batch is bounded in size and in time: a chunk that brings the buffer to
/// the flush threshold is sent at once, and the idle deadline, which the first
/// chunk of a batch arms, sends whatever is buffered.
pub proof fn lemma_batch_bounded(buf: Seq<u8>, c: Seq<u8>)
    ensures
        buf.len() + c.len() >= FLUSH_THRESHOLD ==> pump_step(buf, PumpEvent::Chunk(c)) == (
            Seq::<u8>::empty(),
            Some(frame_of(buf + c)),
        ),
        buf.len() > 0 ==> pump_step(buf, PumpEvent::Flush) == (
            Seq::<u8>::empty(),
            Some(frame_of(buf)),
        ),
{
}

/// A session's output from start to close: starting empty and ending with the
/// flush at close, the payloads sent are exactly the bytes the child wrote.
pub proof fn lemma_output_complete(events: Seq<PumpEvent>)
    ensures
        joined_payloads(pump_run(Seq::empty(), events.push(PumpEvent::Flush)).1) == chunk_bytes(
            events,
        ),
{
    let all = events.push(PumpEvent::Flush);
    lemma_bytes_preserved(Seq::empty(), all);
    lemma_run_ends_empty(Seq::empty(), events);
    lemma_chunk_bytes_push_flush(events);
    assert(Seq::<u8>::empty() + chunk_bytes(all) =~= chunk_bytes(all));
    assert(joined_payloads(pump_run(Seq::empty(), all).1) + Seq::<u8>::empty() =~= joined_payloads(
        pump_run(Seq::empty(), all).1,
    ));
}

proof fn lemma_run_ends_empty(buf: Seq<u8>, events: Seq<PumpEvent>)
    ensures
        pump_run(buf, events.push(PumpEvent::Flush)).0 == Seq::<u8>::empty(),
    decreases events.len(),
{
    let all = events.push(PumpEvent::Flush);
    if events.len() == 0 {
        assert(all[0] == PumpEvent::Flush);
        assert(all.drop_first() =~= Seq::<PumpEvent>::empty());
        let b1 = pump_step(buf, PumpEvent::Flush).0;
        assert(pump_run(b1, Seq::<PumpEvent>::empty()).0 == b1);
    } else {
        let (b1, f) = pump_step(buf, events[0]);
        assert(all[0] == events[0]);
        assert(all.drop_first() =~= events.drop_first().push(PumpEvent::Flush));
        lemma_run_ends_empty(b1, events.drop_first());
    }
}

proof fn lemma_chunk_bytes_push_flush(events: Seq<PumpEvent>)
    ensures
        chunk_bytes(events.push(PumpEvent::Flush)) == chunk_bytes(events),
    decreases events.len(),
{
    let all = events.push(PumpEvent::Flush);
    if events.len() == 0 {
        assert(all[0] == PumpEvent::Flush);
        assert(all.drop_first() =~= Seq::<PumpEvent>::empty());
        assert(chunk_bytes(Seq::<PumpEvent>::empty()) == Seq::<u8>::empty());
    } else {
        assert(all[0] == events[0]);
        assert(all.drop_first() =~= events.drop_first().push(PumpEvent::Flush));
        lemma_chunk_bytes_push_flush(events.drop_first());
    }
}

} // verus!
