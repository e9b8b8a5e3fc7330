//! The display task: one row per tick, a new frame at the end of a sweep.

use vstd::prelude::*;
use crate::image::Color;
use crate::mailbox::{consumed, ledger, Mailbox};
use crate::matrix::{row_ops, Matrix};
use crate::pool::{FramePool, OwnedFrame};

verus! {

/// Full sweeps of the panel per second.
pub const REFRESH_RATE: u32 = 60;

/// Rows in a sweep.
pub const ROWS: usize = 8;

/// The time between two ticks of the display, in timer ticks, for a timer
/// that counts `ticks_per_second`: an eighth of a sweep.
pub fn row_period(ticks_per_second: u32) -> (period: u32)
    ensures
        period == ticks_per_second / 8 / 60,
{
    ticks_per_second / 8 / REFRESH_RATE
}

/// The pixels of row `row` of a frame.
pub open spec fn row_of(pixels: Seq<Color>, row: int) -> Seq<Color> {
    pixels.subrange(8 * row, 8 * row + 8)
}

/// The row that follows `row` in a sweep.
pub open spec fn row_after(row: int) -> int {
    (row + 1) % 8
}

/// The display task's own state: the frame on show and the row to send
/// next.
pub struct Display {
    next_row: usize,
    current: OwnedFrame,
}

impl Display {
    #[verifier::type_invariant]
    spec fn well_formed(&self) -> bool {
        self.next_row < ROWS
    }

    /// The row that the next tick sends.
    pub closed spec fn next_row(&self) -> int {
        self.next_row as int
    }

    /// The pixels of the frame on show.
    pub closed spec fn shown(&self) -> Seq<Color> {
        self.current@
    }

    /// A display that shows `frame`, starting at row 0.
    pub fn new(frame: OwnedFrame) -> (display: Display)
        ensures
            display.next_row() == 0,
            display.shown() == frame@,
    {
        Display { next_row: 0, current: frame }
    }

    /// The frame on show.
    pub fn current(&self) -> (frame: &OwnedFrame)
        ensures
            frame@ == self.shown(),
    {
        &self.current
    }

    /// The row that the next tick sends.
    pub fn upcoming_row(&self) -> (row: usize)
        ensures
            row == self.next_row(),
            row < 8,
    {
        proof {
            use_type_invariant(self);
        }
        self.next_row
    }

    /// One tick: sends the next row of the frame on show to `matrix`, which
    /// leaves that row lit and the others dark. After
    /// the last row of a sweep the display looks into `mailbox`: a pending
    /// frame becomes the frame on show and the old buffer goes back to
    /// `pool`; with the mailbox empty the display keeps its frame.
    pub fn tick(&mut self, matrix: &mut Matrix, mailbox: &mut Mailbox, pool: &mut FramePool)
        ensures
            0 <= old(self).next_row() < 8,
            final(matrix).driven(
                old(matrix),
                row_ops(old(self).next_row() as usize, row_of(old(self).shown(), old(self).next_row())),
            ),
            final(matrix).one_row_lit(old(self).next_row()),
            final(self).next_row() == row_after(old(self).next_row()),
            final(self).shown() == if old(self).next_row() == 7 && old(mailbox).pending() is Some {
                old(mailbox).pending()->0.pixels
            } else {
                old(self).shown()
            },
            ledger(final(mailbox), final(pool)) == if old(self).next_row() == 7 {
                consumed(ledger(old(mailbox), old(pool)))
            } else {
                ledger(old(mailbox), old(pool))
            },
            final(pool).capacity() == old(pool).capacity(),
    {
        proof {
            use_type_invariant(&*self);
        }
        let row: usize = self.next_row;
        matrix.send_row(row, self.current.image().row(row));
        if row == ROWS - 1 {
            match mailbox.take() {
                Some(next) => {
                    let mut shown: OwnedFrame = next;
                    std::mem::swap(&mut shown, &mut self.current);
                    pool.free(shown);
                },
                None => {},
            }
        }
        self.next_row = (row + 1) % ROWS;
    }
}

} // verus!
