//! Reading one frame off a byte stream that may start mid-frame.
//!
//! The reader discards bytes until it sees the header, then collects the
//! rest of the frame. Whoever owns the device performs the reads it asks for
//! and hands back what happened.

use vstd::prelude::*;
use crate::error::GatewayError;
use crate::frame::{decode, decode_spec, encode_spec, lemma_round_trip, RobotState, FRAME_LEN, HEADER};

verus! {

/// What happened to the last read the reader asked for.
#[derive(Debug, PartialEq, Eq)]
pub enum ReadEvent {
    /// These bytes arrived.
    Data(Vec<u8>),
    /// The read ran out of time.
    TimedOut,
    /// The read failed for another reason.
    Failed(String),
}

/// What the reader wants next.
#[derive(Debug, PartialEq, Eq)]
pub enum ReadStep {
    /// Read exactly this many bytes and feed them back.
    Need(usize),
    /// A whole frame arrived and decoded to this state.
    Frame(RobotState),
    /// The read is over and failed.
    Failed(GatewayError),
}

/// The bytes of a frame that has begun to arrive (empty while still looking
/// for the header).
pub struct FrameReader {
    buf: Vec<u8>,
}

/// The frame bytes held after scanning `chunk` on top of `buf`: while
/// nothing is held, bytes other than the header are dropped; after the
/// header every byte is kept, up to a whole frame.
pub open spec fn absorb(buf: Seq<u8>, chunk: Seq<u8>) -> Seq<u8>
    decreases chunk.len(),
{
    if chunk.len() == 0 || buf.len() >= FRAME_LEN {
        buf
    } else {
        let next = if buf.len() == 0 && chunk[0] != HEADER {
            buf
        } else {
            buf.push(chunk[0])
        };
        absorb(next, chunk.drop_first())
    }
}

/// How many bytes to read next while `buf` is held: one at a time while
/// looking for the header, then the rest of the frame at once.
pub open spec fn need_for(buf: Seq<u8>) -> usize {
    if buf.len() == 0 {
        1
    } else {
        (FRAME_LEN - buf.len()) as usize
    }
}

/// The end of a read that collected the bytes `frame`.
pub open spec fn outcome(frame: Seq<u8>) -> ReadStep {
    match decode_spec(frame) {
        Ok(s) => ReadStep::Frame(s),
        Err(f) => ReadStep::Failed(GatewayError::InvalidFrame(f)),
    }
}

impl View for FrameReader {
    type V = Seq<u8>;

    closed spec fn view(&self) -> Seq<u8> {
        self.buf@
    }
}

impl FrameReader {
    /// Less than a frame is held, and what is held starts with the header.
    pub open spec fn wf(&self) -> bool {
        &&& self@.len() < FRAME_LEN
        &&& self@.len() > 0 ==> self@[0] == HEADER
    }

    /// A reader that holds nothing and looks for the header.
    pub fn new() -> (r: FrameReader)
        ensures
            r.wf(),
            r@ == Seq::<u8>::empty(),
    {
        FrameReader { buf: Vec::new() }
    }

    /// The read to perform next.
    pub fn request(&self) -> (r: ReadStep)
        requires
            self.wf(),
        ensures
            r == ReadStep::Need(need_for(self@)),
    {
        if self.buf.len() == 0 {
            ReadStep::Need(1)
        } else {
            ReadStep::Need(FRAME_LEN - self.buf.len())
        }
    }

    /// Takes in the result of a read. A failed read, or a whole frame, ends
    /// the read and leaves the reader empty for the next one.
    pub fn feed(&mut self, event: ReadEvent) -> (r: ReadStep)
        requires
            old(self).wf(),
        ensures
            final(self).wf(),
            match event {
                ReadEvent::Data(chunk) => {
                    let full = absorb(old(self)@, chunk@);
                    if full.len() < FRAME_LEN {
                        final(self)@ == full && r == ReadStep::Need(need_for(full))
                    } else {
                        final(self)@ == Seq::<u8>::empty() && r == outcome(full)
                    }
                },
                ReadEvent::TimedOut => final(self)@ == Seq::<u8>::empty() && r == ReadStep::Failed(
                    GatewayError::ReadTimeout,
                ),
                ReadEvent::Failed(m) => final(self)@ == Seq::<u8>::empty() && r == ReadStep::Failed(
                    GatewayError::ReadFailed(m),
                ),
            },
    {
        match event {
            ReadEvent::Data(chunk) => {
                let ghost start = self.buf@;
                let mut i: usize = 0;
                assert(chunk@.subrange(0, chunk@.len() as int) =~= chunk@);
                while i < chunk.len() && self.buf.len() < FRAME_LEN
                    invariant
                        i <= chunk.len(),
                        self.buf@.len() <= FRAME_LEN,
                        self.buf@.len() > 0 ==> self.buf@[0] == HEADER,
                        absorb(self.buf@, chunk@.subrange(i as int, chunk@.len() as int))
                            == absorb(start, chunk@),
                    decreases chunk.len() - i,
                {
                    let ghost rest = chunk@.subrange(i as int, chunk@.len() as int);
                    assert(rest.drop_first() =~= chunk@.subrange(i + 1, chunk@.len() as int));
                    let b = chunk[i];
                    if self.buf.len() > 0 || b == HEADER {
                        self.buf.push(b);
                    }
                    i = i + 1;
                }
                if self.buf.len() < FRAME_LEN {
                    assert(chunk@.subrange(i as int, chunk@.len() as int).len() == 0);
                    if self.buf.len() == 0 {
                        ReadStep::Need(1)
                    } else {
                        ReadStep::Need(FRAME_LEN - self.buf.len())
                    }
                } else {
                    let r = match decode(self.buf.as_slice()) {
                        Ok(s) => ReadStep::Frame(s),
                        Err(f) => ReadStep::Failed(GatewayError::InvalidFrame(f)),
                    };
                    self.buf = Vec::new();
                    r
                }
            },
            ReadEvent::TimedOut => {
                self.buf = Vec::new();
                ReadStep::Failed(GatewayError::ReadTimeout)
            },
            ReadEvent::Failed(m) => {
                self.buf = Vec::new();
                ReadStep::Failed(GatewayError::ReadFailed(m))
            },
        }
    }
}

/// After the header, every byte is kept as it comes, up to a whole frame.
proof fn lemma_absorb_keeps(buf: Seq<u8>, chunk: Seq<u8>)
    requires
        buf.len() > 0,
        buf.len() + chunk.len() <= FRAME_LEN,
    ensures
        absorb(buf, chunk) == buf + chunk,
    decreases chunk.len(),
{
    if chunk.len() == 0 {
        assert(buf + chunk =~= buf);
    } else {
        lemma_absorb_keeps(buf.push(chunk[0]), chunk.drop_first());
        assert(buf.push(chunk[0]) + chunk.drop_first() =~= buf + chunk);
    }
}

/// Before the header, bytes that are not the header are dropped.
proof fn lemma_absorb_skips(garbage: Seq<u8>, rest: Seq<u8>)
    requires
        forall|i: int| 0 <= i < garbage.len() ==> garbage[i] != HEADER,
    ensures
        absorb(Seq::empty(), garbage + rest) == absorb(Seq::empty(), rest),
    decreases garbage.len(),
{
    if garbage.len() == 0 {
        assert(garbage + rest =~= rest);
    } else {
        assert((garbage + rest).drop_first() =~= garbage.drop_first() + rest);
        assert((garbage + rest)[0] == garbage[0]);
        lemma_absorb_skips(garbage.drop_first(), rest);
    }
}

/// A stream of bytes other than the header, followed by the frame of a
/// state, leaves exactly that frame collected, and the read ends with that
/// state: the leading bytes are discarded.
pub proof fn lemma_resync(garbage: Seq<u8>, s: RobotState)
    requires
        forall|i: int| 0 <= i < garbage.len() ==> garbage[i] != HEADER,
    ensures
        absorb(Seq::empty(), garbage + encode_spec(s)) == encode_spec(s),
        outcome(encode_spec(s)) == ReadStep::Frame(s),
{
    let e = encode_spec(s);
    lemma_absorb_skips(garbage, e);
    lemma_absorb_keeps(Seq::<u8>::empty().push(e[0]), e.drop_first());
    assert(Seq::<u8>::empty().push(e[0]) + e.drop_first() =~= e);
    lemma_round_trip(s);
}

/// Feeding a stream in two pieces collects the same bytes as feeding it in
/// one: how the reads are cut does not matter.
pub proof fn lemma_absorb_split(buf: Seq<u8>, a: Seq<u8>, b: Seq<u8>)
    ensures
        absorb(absorb(buf, a), b) == absorb(buf, a + b),
    decreases a.len(),
{
    if a.len() == 0 {
        assert(a + b =~= b);
    } else if buf.len() >= FRAME_LEN {
        assert(absorb(buf, b) == buf);
    } else {
        let next = if buf.len() == 0 && a[0] != HEADER {
            buf
        } else {
            buf.push(a[0])
        };
        assert((a + b).drop_first() =~= a.drop_first() + b);
        assert((a + b)[0] == a[0]);
        lemma_absorb_split(next, a.drop_first(), b);
    }
}

} // verus!
