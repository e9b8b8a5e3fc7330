//! The fallback pattern generator: a text that scrolls over the panel while
//! no frame arrives on the serial line.
//!
//! Liveness is judged by the activity counter, which the receiver bumps for
//! every completed frame. The generator compares the counter with the value
//! it saw last: unchanged, it animates; changed, it stands down for one
//! debounce interval.

use vstd::prelude::*;
use crate::image::{pixels_of, rgb, Color, Image};
use crate::mailbox::{discarded, ledger, produced, Mailbox, Source};
use crate::pool::FramePool;
use embedded_graphics::framebuffer::Framebuffer;
use embedded_graphics::geometry::Point;
use embedded_graphics::mono_font::MonoTextStyleBuilder;
use embedded_graphics::pixelcolor::raw::{BigEndian, RawU24};
use embedded_graphics::pixelcolor::{Rgb888, RgbColor};
use embedded_graphics::text::Text;
use embedded_graphics::Drawable;
use ibm437::IBM437_8X8_REGULAR;

verus! {

/// Milliseconds between two frames of the animation.
pub const ANIMATION_PERIOD_MS: u32 = 60;

/// Milliseconds that the generator stays quiet after live traffic.
pub const DEBOUNCE_MS: u32 = 1000;

/// Where the text starts when the generator first runs: off the right edge.
pub const FIRST_OFFSET: i32 = 10;

/// Where the text starts again after a pass or after live traffic.
pub const RESTART_OFFSET: i32 = 8;

/// The row of the text's baseline.
pub const BASELINE: i32 = 6;

/// Width of a glyph in pixels.
pub const GLYPH_WIDTH: i32 = 8;

/// Number of characters of the banner.
pub const BANNER_LEN: i32 = 49;

/// The text that scrolls by.
pub fn banner() -> (text: &'static str)
    ensures
        text@ == banner_text(),
        text@.len() == BANNER_LEN,
{
    let text = "This Rust SE202 project will get me a good grade?";
    proof {
        reveal_strlit("This Rust SE202 project will get me a good grade?");
    }
    text
}

/// The bytes of the 8×8 frame, in wire order, that show `text` in the 8×8
/// IBM437 font, in the colour (`r`, `g`, `b`) on black, with the left end
/// of its baseline at column `x`, row `y`.
pub uninterp spec fn drawn_text(text: Seq<char>, x: int, y: int, r: u8, g: u8, b: u8) -> Seq<u8>;

/// `embedded_graphics::text::Text::draw` with the `ibm437` 8×8 font, onto a
/// black `embedded_graphics::framebuffer::Framebuffer` of 8×8 pixels with
/// three bytes per pixel: the frame's bytes are a function of the text, the
/// position and the colour. Position and length are kept small so that the
/// renderer's coordinate arithmetic stays in range.
#[verifier::external_body]
fn draw_text(text: &str, x: i32, y: i32, color: Color) -> (bytes: [u8; 192])
    requires
        text@.len() <= 4096,
        -65536 <= x <= 65536,
        -65536 <= y <= 65536,
    ensures
        bytes@ == drawn_text(text@, x as int, y as int, color.r, color.g, color.b),
{
    let style = MonoTextStyleBuilder::new()
        .font(&IBM437_8X8_REGULAR)
        .text_color(Rgb888::new(color.r, color.g, color.b))
        .background_color(Rgb888::BLACK)
        .build();
    let mut target = Framebuffer::<Rgb888, RawU24, BigEndian, 8, 8, 192>::new();
    let _ = Text::new(text, Point::new(x, y), style).draw(&mut target);
    *target.data()
}

/// The activity counter after one more completed frame. It wraps around at
/// the end of its range: it is a heartbeat, compared for change only.
pub fn notice_change(changes: u32) -> (bumped: u32)
    ensures
        bumped == if changes == u32::MAX {
            0
        } else {
            changes + 1
        },
        bumped != changes,
{
    changes.wrapping_add(1)
}

/// The phase of the animation: the column where the text starts and the
/// colour it is drawn in (0 red, 1 green, 2 blue).
pub struct Phase {
    pub offset: int,
    pub color_index: int,
}

/// The column at which a pass of the banner ends: the text has left the
/// panel on the left.
pub open spec fn last_offset() -> int {
    -(GLYPH_WIDTH * BANNER_LEN)
}

/// The colour with the given index.
pub open spec fn palette(color_index: int) -> Color {
    if color_index == 0 {
        rgb(255, 0, 0)
    } else if color_index == 1 {
        rgb(0, 255, 0)
    } else {
        rgb(0, 0, 255)
    }
}

/// The phase after one frame of the animation: the text moves one column
/// to the left; at the end of a pass it starts again from the right in the
/// next colour.
pub open spec fn advanced(phase: Phase) -> Phase {
    if phase.offset - 1 == last_offset() {
        Phase { offset: RESTART_OFFSET as int, color_index: (phase.color_index + 1) % 3 }
    } else {
        Phase { offset: phase.offset - 1, ..phase }
    }
}

/// The phase after live traffic was seen: the text starts again from the
/// right, in the colour it had.
pub open spec fn rewound(phase: Phase) -> Phase {
    Phase { offset: RESTART_OFFSET as int, ..phase }
}

/// The frame, as bytes in wire order, that the animation shows in `phase`.
pub open spec fn pattern_bytes(phase: Phase) -> Seq<u8> {
    let color = palette(phase.color_index);
    drawn_text(banner_text(), phase.offset, BASELINE as int, color.r, color.g, color.b)
}

/// The characters of the banner.
pub open spec fn banner_text() -> Seq<char> {
    "This Rust SE202 project will get me a good grade?"@
}

/// The pattern generator's own state.
pub struct Screensaver {
    last_changes: u32,
    color_index: u8,
    offset: i32,
}

impl Screensaver {
    #[verifier::type_invariant]
    spec fn well_formed(&self) -> bool {
        &&& self.color_index < 3
        &&& last_offset() < self.offset <= FIRST_OFFSET
    }

    /// The value of the activity counter at the last tick.
    pub closed spec fn last_seen(&self) -> u32 {
        self.last_changes
    }

    /// The phase of the animation.
    pub closed spec fn phase(&self) -> Phase {
        Phase { offset: self.offset as int, color_index: self.color_index as int }
    }

    /// A generator that has seen the counter at 0 and starts the text off
    /// the right edge, in red.
    pub fn new() -> (saver: Screensaver)
        ensures
            saver.last_seen() == 0,
            saver.phase() == (Phase { offset: FIRST_OFFSET as int, color_index: 0 }),
    {
        Screensaver { last_changes: 0, color_index: 0, offset: FIRST_OFFSET }
    }

    /// Whether the generator would animate at a tick that reads `changes`.
    pub fn is_idle(&self, changes: u32) -> (idle: bool)
        ensures
            idle == (self.last_seen() == changes),
    {
        self.last_changes == changes
    }

    /// The column where the text starts in the current phase.
    pub fn offset(&self) -> (offset: i32)
        ensures
            offset == self.phase().offset,
            last_offset() < offset <= FIRST_OFFSET,
    {
        proof {
            use_type_invariant(self);
        }
        self.offset
    }

    /// The colour of the text in the current phase.
    pub fn color(&self) -> (color: Color)
        ensures
            color == palette(self.phase().color_index),
    {
        proof {
            use_type_invariant(self);
        }
        if self.color_index == 0 {
            Color::red()
        } else if self.color_index == 1 {
            Color::green()
        } else {
            Color::blue()
        }
    }

    /// Publishes `pattern` as the next frame of the animation and moves the
    /// phase on. With the pool exhausted nothing is published and the phase
    /// stays, to be tried again at the next tick.
    pub fn animate(&mut self, pattern: Image, mailbox: &mut Mailbox, pool: &mut FramePool)
        ensures
            ledger(final(mailbox), final(pool)) == produced(
                ledger(old(mailbox), old(pool)),
                pattern@,
                Source::Pattern,
            ),
            final(self).phase() == if old(pool).free_count() > 0 {
                advanced(old(self).phase())
            } else {
                old(self).phase()
            },
            final(self).last_seen() == old(self).last_seen(),
            final(pool).capacity() == old(pool).capacity(),
    {
        proof {
            use_type_invariant(&*self);
        }
        match pool.allocate() {
            Some(fresh) => {
                let mut frame = fresh;
                frame.store(pattern);
                mailbox.publish(frame, Source::Pattern, pool);
                if self.offset - 1 == -(GLYPH_WIDTH * BANNER_LEN) {
                    self.offset = RESTART_OFFSET;
                    self.color_index = (self.color_index + 1) % 3;
                } else {
                    self.offset = self.offset - 1;
                }
            },
            None => {},
        }
    }

    /// Stands down for live traffic: records `changes` as seen, rewinds the
    /// text, and withdraws a frame of its own that still waits in the
    /// mailbox. A frame of the receiver stays.
    pub fn stand_down(&mut self, changes: u32, mailbox: &mut Mailbox, pool: &mut FramePool)
        ensures
            ledger(final(mailbox), final(pool)) == discarded(
                ledger(old(mailbox), old(pool)),
                Source::Pattern,
            ),
            final(self).phase() == rewound(old(self).phase()),
            final(self).last_seen() == changes,
            final(pool).capacity() == old(pool).capacity(),
    {
        proof {
            use_type_invariant(&*self);
        }
        self.offset = RESTART_OFFSET;
        self.last_changes = changes;
        mailbox.discard(Source::Pattern, pool);
    }

    /// One tick of the generator, given the activity counter as read now.
    ///
    /// With the counter unchanged since the last tick, the line is idle:
    /// the next frame of the animation is drawn and published, and the
    /// generator asks to run again after the animation period. With the
    /// counter changed, frames are arriving: the generator stands down and
    /// asks to run again after the debounce interval.
    pub fn tick(&mut self, changes: u32, mailbox: &mut Mailbox, pool: &mut FramePool) -> (delay_ms:
        u32)
        ensures
            delay_ms == if old(self).last_seen() == changes {
                ANIMATION_PERIOD_MS
            } else {
                DEBOUNCE_MS
            },
            ledger(final(mailbox), final(pool)) == if old(self).last_seen() == changes {
                produced(
                    ledger(old(mailbox), old(pool)),
                    pixels_of(pattern_bytes(old(self).phase())),
                    Source::Pattern,
                )
            } else {
                discarded(ledger(old(mailbox), old(pool)), Source::Pattern)
            },
            final(self).phase() == if old(self).last_seen() != changes {
                rewound(old(self).phase())
            } else if old(pool).free_count() > 0 {
                advanced(old(self).phase())
            } else {
                old(self).phase()
            },
            final(self).last_seen() == changes,
            final(pool).capacity() == old(pool).capacity(),
    {
        proof {
            use_type_invariant(&*self);
        }
        if self.is_idle(changes) {
            let text = banner();
            let bytes = draw_text(text, self.offset, BASELINE, self.color());
            self.animate(Image::from_bytes(&bytes), mailbox, pool);
            ANIMATION_PERIOD_MS
        } else {
            self.stand_down(changes, mailbox, pool);
            DEBOUNCE_MS
        }
    }
}

} // verus!
