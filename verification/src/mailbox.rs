//! The single-slot mailbox between the frame producers and the display,
//! and the bookkeeping of who holds which buffer.
//!
//! The mailbox holds at most one pending frame. Publishing over a frame
//! that was not consumed evicts it and returns its buffer to the pool: the
//! display gets the freshest frame, never a backlog.

use vstd::prelude::*;
use crate::image::Color;
use crate::pool::{FramePool, OwnedFrame};

verus! {

/// Which producer a pending frame came from.
#[derive(Copy, Clone, Debug, PartialEq, Eq, Structural)]
pub enum Source {
    /// The serial receiver.
    Ingest,
    /// The fallback pattern generator.
    Pattern,
}

/// A frame waiting in the mailbox.
pub struct Pending {
    pub pixels: Seq<Color>,
    pub source: Source,
}

/// What the mailbox and the pool hold between them: the pending frame, if
/// any, and the number of free buffers.
pub struct Ledger {
    pub pending: Option<Pending>,
    pub free: nat,
}

/// How many buffers the mailbox holds: one or none.
pub open spec fn waiting(ledger: Ledger) -> nat {
    if ledger.pending is Some {
        1
    } else {
        0
    }
}

/// The ledger once a free buffer has been claimed from the pool.
pub open spec fn claimed(ledger: Ledger) -> Ledger {
    Ledger { free: (ledger.free - 1) as nat, ..ledger }
}

/// The ledger once a frame has been published: it is the pending frame, and
/// the buffer of a frame that it evicted is free again.
pub open spec fn published(ledger: Ledger, pixels: Seq<Color>, source: Source) -> Ledger {
    Ledger { pending: Some(Pending { pixels, source }), free: ledger.free + waiting(ledger) }
}

/// The ledger once the pending frame, if any, has been taken out. The taker
/// now holds its buffer.
pub open spec fn taken(ledger: Ledger) -> Ledger {
    Ledger { pending: None, ..ledger }
}

/// The ledger once a pending frame that came from `source` has been thrown
/// away; a frame of the other producer stays.
pub open spec fn discarded(ledger: Ledger, source: Source) -> Ledger {
    if ledger.pending is Some && ledger.pending->0.source == source {
        Ledger { pending: None, free: ledger.free + 1 }
    } else {
        ledger
    }
}

/// The ledger once a producer has finished a frame: with a free buffer to
/// go on with, the frame is published; with the pool exhausted the frame is
/// dropped and nothing changes.
pub open spec fn produced(ledger: Ledger, pixels: Seq<Color>, source: Source) -> Ledger {
    if ledger.free > 0 {
        published(claimed(ledger), pixels, source)
    } else {
        ledger
    }
}

/// The ledger once the display has ended a sweep: it has swapped its buffer
/// for the pending frame, if there was one, and freed the old buffer.
pub open spec fn consumed(ledger: Ledger) -> Ledger {
    if ledger.pending is Some {
        Ledger { pending: None, free: ledger.free + 1 }
    } else {
        ledger
    }
}

/// Whether every buffer is accounted for: the free ones, the one in the
/// mailbox and those that `holders` tasks hold, one each, make up the
/// capacity.
pub open spec fn balanced(ledger: Ledger, holders: nat, capacity: nat) -> bool {
    ledger.free + waiting(ledger) + holders == capacity
}

/// The number of buffers that are owned never exceeds the capacity, and
/// the pool is exhausted exactly when all of them are owned.
pub proof fn lemma_owned_within_capacity(ledger: Ledger, holders: nat, capacity: nat)
    requires
        balanced(ledger, holders, capacity),
    ensures
        holders + waiting(ledger) <= capacity,
        ledger.free == 0 <==> holders + waiting(ledger) == capacity,
{
}

/// Whatever the tasks do, every buffer stays accounted for. A producer that
/// finishes a frame, the display that ends a sweep and the pattern
/// generator that withdraws its frame all keep as many buffers in their own
/// hands as they had, and move the others between pool and mailbox only.
pub proof fn lemma_steps_keep_balance(
    ledger: Ledger,
    holders: nat,
    capacity: nat,
    pixels: Seq<Color>,
    source: Source,
)
    requires
        balanced(ledger, holders, capacity),
    ensures
        balanced(produced(ledger, pixels, source), holders, capacity),
        balanced(consumed(ledger), holders, capacity),
        balanced(discarded(ledger, source), holders, capacity),
{
}

/// Last write wins: of two frames published with no consume in between,
/// the consumer sees the second and nothing after it, and the buffer of the
/// first is back in the pool.
pub proof fn lemma_last_publish_wins(
    ledger: Ledger,
    first: Seq<Color>,
    first_source: Source,
    second: Seq<Color>,
    second_source: Source,
)
    ensures
        ({
            let after = published(published(ledger, first, first_source), second, second_source);
            &&& after.pending == Some(Pending { pixels: second, source: second_source })
            &&& taken(after).pending is None
            &&& after.free == ledger.free + waiting(ledger) + 1
        }),
{
}

/// The mailbox: room for one pending frame.
pub struct Mailbox {
    slot: Option<OwnedFrame>,
    source: Source,
}

impl Mailbox {
    /// The frame that waits in the mailbox, if any.
    pub closed spec fn pending(&self) -> Option<Pending> {
        match self.slot {
            Some(frame) => Some(Pending { pixels: frame@, source: self.source }),
            None => None,
        }
    }

    /// An empty mailbox.
    pub fn new() -> (mailbox: Mailbox)
        ensures
            mailbox.pending() is None,
    {
        Mailbox { slot: None, source: Source::Ingest }
    }

    /// Whether a frame waits in the mailbox.
    pub fn is_pending(&self) -> (full: bool)
        ensures
            full == self.pending() is Some,
    {
        self.slot.is_some()
    }

    /// The frame that waits in the mailbox and where it came from.
    pub fn peek(&self) -> (found: Option<(&OwnedFrame, Source)>)
        ensures
            match found {
                Some((frame, source)) => self.pending() == Some(
                    Pending { pixels: frame@, source },
                ),
                None => self.pending() is None,
            },
    {
        match &self.slot {
            Some(frame) => Some((frame, self.source)),
            None => None,
        }
    }

    /// Puts `frame` into the mailbox. A frame that was waiting there is
    /// evicted and its buffer returned to `pool`.
    pub fn publish(&mut self, frame: OwnedFrame, source: Source, pool: &mut FramePool)
        ensures
            ledger(final(self), final(pool)) == published(
                ledger(old(self), old(pool)),
                frame@,
                source,
            ),
            final(pool).capacity() == old(pool).capacity(),
    {
        let mut slot: Option<OwnedFrame> = Some(frame);
        std::mem::swap(&mut self.slot, &mut slot);
        self.source = source;
        match slot {
            Some(evicted) => {
                pool.free(evicted);
            },
            None => {},
        }
    }

    /// Takes the pending frame out of the mailbox, which is empty
    /// afterwards. The caller owns the buffer from here on.
    pub fn take(&mut self) -> (frame: Option<OwnedFrame>)
        ensures
            final(self).pending() is None,
            match frame {
                Some(frame) => old(self).pending() is Some && old(self).pending()->0.pixels
                    == frame@,
                None => old(self).pending() is None,
            },
    {
        let mut slot: Option<OwnedFrame> = None;
        std::mem::swap(&mut self.slot, &mut slot);
        slot
    }

    /// Throws the pending frame away if it came from `source`, returning
    /// its buffer to `pool`; tells whether it did.
    pub fn discard(&mut self, source: Source, pool: &mut FramePool) -> (thrown: bool)
        ensures
            thrown == (old(self).pending() is Some && old(self).pending()->0.source == source),
            ledger(final(self), final(pool)) == discarded(ledger(old(self), old(pool)), source),
            final(pool).capacity() == old(pool).capacity(),
    {
        if self.slot.is_some() && self.source == source {
            match self.take() {
                Some(frame) => {
                    pool.free(frame);
                },
                None => {},
            }
            true
        } else {
            false
        }
    }
}

/// What `mailbox` and `pool` hold between them.
pub open spec fn ledger(mailbox: &Mailbox, pool: &FramePool) -> Ledger {
    Ledger { pending: mailbox.pending(), free: pool.free_count() }
}

} // verus!
