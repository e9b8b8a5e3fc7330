//! Framing of the serial byte stream into 192-byte frames.
//!
//! A sentinel byte starts a frame; the 192 bytes that follow it are the
//! pixels, row after row, red, green and blue each. A sentinel in the
//! middle of a frame restarts the frame, which makes the protocol
//! self-healing; a byte that arrived with a line error is dropped. Since
//! the sentinel always restarts framing, a payload cannot carry it.

use vstd::prelude::*;
use crate::image::{blank, bytes_of, lemma_pixels_of_bytes_of, pixels_of};
use crate::mailbox::{ledger, produced, Mailbox, Source};
use crate::pool::{FramePool, OwnedFrame};

verus! {

/// The byte that starts a frame.
pub const SENTINEL: u8 = 0xFF;

/// The number of payload bytes of a frame.
pub const PAYLOAD: usize = 192;

/// Where the receiver stands in the byte stream.
#[derive(Copy, Clone, Debug, PartialEq, Eq, Structural)]
pub enum Cursor {
    /// No frame is in progress: bytes are discarded until a sentinel.
    Resync,
    /// A frame is in progress; the next payload byte goes to this offset.
    Filling(usize),
}

/// The framing state: the cursor and the bytes of the buffer being filled.
pub struct Framing {
    pub cursor: Cursor,
    pub bytes: Seq<u8>,
}

/// The framing state once a byte has arrived. In this order: a byte with a
/// line error is dropped; a sentinel restarts the frame at offset 0; a byte
/// that arrives while no frame is in progress is ignored; any other byte is
/// written at the cursor, which moves on by one.
pub open spec fn fed(framing: Framing, byte: u8, line_error: bool) -> Framing {
    if line_error {
        framing
    } else if byte == SENTINEL {
        Framing { cursor: Cursor::Filling(0), ..framing }
    } else {
        match framing.cursor {
            Cursor::Resync => framing,
            Cursor::Filling(at) => Framing {
                cursor: Cursor::Filling((at + 1) as usize),
                bytes: framing.bytes.update(at as int, byte),
            },
        }
    }
}

/// Whether the frame in progress has all its bytes.
pub open spec fn complete(framing: Framing) -> bool {
    framing.cursor == Cursor::Filling(PAYLOAD)
}

/// Whether the cursor points into the buffer, as it does between bytes.
pub open spec fn in_frame(framing: Framing) -> bool {
    &&& framing.bytes.len() == PAYLOAD
    &&& framing.cursor matches Cursor::Filling(at) ==> at < PAYLOAD
}

/// The framing state once the first `n` bytes of `payload` have arrived
/// without line error.
pub open spec fn fed_all(framing: Framing, payload: Seq<u8>, n: nat) -> Framing
    decreases n,
{
    if n == 0 {
        framing
    } else {
        fed(fed_all(framing, payload, (n - 1) as nat), payload[n - 1], false)
    }
}

/// Whether `payload` can be carried: it holds no sentinel.
pub open spec fn carriable(payload: Seq<u8>) -> bool {
    forall|i: int| 0 <= i < payload.len() ==> #[trigger] payload[i] != SENTINEL
}

/// After a sentinel, the first `n` bytes of a payload stand at the start of
/// the buffer and the cursor stands behind them.
proof fn lemma_prefix_fed(start: Framing, payload: Seq<u8>, n: nat)
    requires
        start.bytes.len() == PAYLOAD,
        carriable(payload),
        n <= payload.len() <= PAYLOAD,
    ensures
        ({
            let now = fed_all(fed(start, SENTINEL, false), payload, n);
            &&& now.cursor == Cursor::Filling(n as usize)
            &&& now.bytes.len() == PAYLOAD
            &&& forall|i: int| 0 <= i < n ==> now.bytes[i] == payload[i]
        }),
    decreases n,
{
    if n > 0 {
        lemma_prefix_fed(start, payload, (n - 1) as nat);
        assert(payload[n - 1] != SENTINEL);
    }
}

/// A sentinel and the 192 bytes after it make a frame of exactly those
/// bytes, whatever was received before: neither the cursor nor the bytes
/// that the buffer held at the sentinel matter. No frame is complete before
/// the last byte.
pub proof fn lemma_frame_after_sentinel(start: Framing, payload: Seq<u8>)
    requires
        start.bytes.len() == PAYLOAD,
        payload.len() == PAYLOAD,
        carriable(payload),
    ensures
        complete(fed_all(fed(start, SENTINEL, false), payload, PAYLOAD as nat)),
        fed_all(fed(start, SENTINEL, false), payload, PAYLOAD as nat).bytes == payload,
        forall|n: nat|
            n < PAYLOAD ==> !complete(
                #[trigger] fed_all(fed(start, SENTINEL, false), payload, n),
            ),
{
    lemma_prefix_fed(start, payload, PAYLOAD as nat);
    assert(fed_all(fed(start, SENTINEL, false), payload, PAYLOAD as nat).bytes =~= payload);
    assert forall|n: nat| n < PAYLOAD implies !complete(
        #[trigger] fed_all(fed(start, SENTINEL, false), payload, n),
    ) by {
        lemma_prefix_fed(start, payload, n);
    }
}

/// A sentinel in the middle of a frame discards what was received of it:
/// framing restarts at offset 0, and the frame that the next 192 bytes
/// complete holds none of the discarded bytes.
pub proof fn lemma_sentinel_restarts(partial: Framing, payload: Seq<u8>)
    requires
        partial.bytes.len() == PAYLOAD,
        partial.cursor matches Cursor::Filling(at) && 0 < at < PAYLOAD,
        payload.len() == PAYLOAD,
        carriable(payload),
    ensures
        fed(partial, SENTINEL, false).cursor == Cursor::Filling(0),
        fed_all(fed(partial, SENTINEL, false), payload, PAYLOAD as nat).bytes == payload,
{
    lemma_frame_after_sentinel(partial, payload);
}

/// The receiving end of the serial line: the cursor and the buffer that
/// the frame in progress is written to.
pub struct Receiver {
    cursor: Cursor,
    frame: OwnedFrame,
}

impl Receiver {
    /// The cursor and the bytes of the buffer being filled.
    pub closed spec fn framing(&self) -> Framing {
        Framing { cursor: self.cursor, bytes: bytes_of(self.frame@) }
    }

    #[verifier::type_invariant]
    spec fn well_formed(&self) -> bool {
        self.cursor matches Cursor::Filling(at) ==> at < PAYLOAD
    }

    /// A receiver that fills `frame`. It accepts payload at once, from
    /// offset 0, as after a sentinel.
    pub fn new(frame: OwnedFrame) -> (receiver: Receiver)
        ensures
            receiver.framing() == (Framing { cursor: Cursor::Filling(0), bytes: bytes_of(frame@) }),
            in_frame(receiver.framing()),
    {
        Receiver { cursor: Cursor::Filling(0), frame }
    }

    /// Where the receiver stands.
    pub fn cursor(&self) -> (cursor: Cursor)
        ensures
            cursor == self.framing().cursor,
    {
        self.cursor
    }

    /// The buffer that the frame in progress is written to.
    pub fn frame(&self) -> (frame: &OwnedFrame)
        ensures
            bytes_of(frame@) == self.framing().bytes,
    {
        &self.frame
    }

    /// Takes one byte from the line, with the line's error flag for it.
    ///
    /// The byte is framed as [`fed`] says. When it completes a frame, the
    /// receiver claims a fresh buffer from `pool` to go on with and
    /// publishes the completed one to `mailbox`; with the pool exhausted
    /// the completed frame is dropped instead, and mailbox and pool stay as
    /// they were. Either way the receiver then waits for a sentinel, and
    /// the result is `true`: a frame was completed.
    pub fn receive_byte(
        &mut self,
        byte: u8,
        line_error: bool,
        mailbox: &mut Mailbox,
        pool: &mut FramePool,
    ) -> (completed: bool)
        ensures
            in_frame(old(self).framing()),
            in_frame(final(self).framing()),
            completed == complete(fed(old(self).framing(), byte, line_error)),
            !completed ==> final(self).framing() == fed(old(self).framing(), byte, line_error),
            completed ==> final(self).framing().cursor == Cursor::Resync,
            completed && old(pool).free_count() > 0 ==> final(self).framing().bytes == bytes_of(
                blank(),
            ),
            completed && old(pool).free_count() == 0 ==> final(self).framing().bytes == fed(
                old(self).framing(),
                byte,
                line_error,
            ).bytes,
            ledger(final(mailbox), final(pool)) == if completed {
                produced(
                    ledger(old(mailbox), old(pool)),
                    pixels_of(fed(old(self).framing(), byte, line_error).bytes),
                    Source::Ingest,
                )
            } else {
                ledger(old(mailbox), old(pool))
            },
            final(pool).capacity() == old(pool).capacity(),
    {
        proof {
            use_type_invariant(&*self);
        }
        if line_error {
            return false;
        }
        if byte == SENTINEL {
            self.cursor = Cursor::Filling(0);
            return false;
        }
        match self.cursor {
            Cursor::Resync => false,
            Cursor::Filling(at) => {
                self.frame.set_byte(at, byte);
                if at + 1 < PAYLOAD {
                    self.cursor = Cursor::Filling(at + 1);
                    false
                } else {
                    proof {
                        lemma_pixels_of_bytes_of(self.frame@);
                    }
                    match pool.allocate() {
                        Some(fresh) => {
                            let mut done: OwnedFrame = fresh;
                            std::mem::swap(&mut done, &mut self.frame);
                            mailbox.publish(done, Source::Ingest, pool);
                        },
                        None => {},
                    }
                    self.cursor = Cursor::Resync;
                    true
                }
            },
        }
    }
}

} // verus!
