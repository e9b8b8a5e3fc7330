//! The protocol as the driver chip sees it: the bits that it shifts in.
//!
//! The chip samples the data line at every rising edge of the shift clock.
//! The laws below read the driver's pin operations that way and state which
//! bits arrive, so that the byte, channel and pixel order of the protocol
//! is fixed from the receiving side too.

use vstd::prelude::*;
use crate::image::Color;
use crate::matrix::{
    bank_init_ops, bit, bit_ops, bits_ops, byte_ops, clock_ticks, lat_pulse, lemma_settle_concat,
    lemma_settle_len, lemma_settle_single, lemma_settle_three, pixel_ops, pixels_ops, row_ops,
    rows_off, sck_pulse, settle, settle_one, slot, Pin, PinOp,
};

verus! {

/// The bit that `op` clocks into the chip when the lines stand at `levels`:
/// the level of the data line, if `op` raises the shift clock.
pub open spec fn clocked_by(levels: Seq<bool>, op: PinOp) -> Seq<bool> {
    if op == PinOp::Write(Pin::Sck, true) && !levels[slot(Pin::Sck)] {
        seq![levels[slot(Pin::Sda)]]
    } else {
        Seq::empty()
    }
}

/// The bits that `ops`, performed in order on lines that stand at `levels`,
/// clock into the chip.
pub open spec fn clocked(levels: Seq<bool>, ops: Seq<PinOp>) -> Seq<bool>
    decreases ops.len(),
{
    if ops.len() == 0 {
        Seq::empty()
    } else {
        clocked(levels, ops.drop_last()) + clocked_by(
            settle(levels, ops.drop_last()),
            ops.last(),
        )
    }
}

/// The low `n` bits of `byte`, most significant of them first.
pub open spec fn low_bits(byte: u8, n: nat) -> Seq<bool> {
    Seq::new(n, |i: int| bit(byte, (n - 1 - i) as u8))
}

/// The eight bits of `byte`, most significant first.
pub open spec fn bits_of(byte: u8) -> Seq<bool> {
    low_bits(byte, 8)
}

/// The 24 bits of a pixel on the wire: its gamma-corrected blue, green and
/// red bytes.
pub open spec fn pixel_bits(color: Color) -> Seq<bool> {
    let shown = color.corrected();
    bits_of(shown.b) + bits_of(shown.g) + bits_of(shown.r)
}

/// The bits of the first `n` pixels of `pixels`, last of them first.
pub open spec fn pixels_bits(pixels: Seq<Color>, n: nat) -> Seq<bool>
    decreases n,
{
    if n == 0 || n > pixels.len() {
        Seq::empty()
    } else {
        pixel_bits(pixels[n - 1]) + pixels_bits(pixels, (n - 1) as nat)
    }
}

/// What two stretches of operations clock in is what the first clocks in,
/// then what the second clocks in from where the first left the lines.
pub proof fn lemma_clocked_concat(levels: Seq<bool>, a: Seq<PinOp>, b: Seq<PinOp>)
    ensures
        clocked(levels, a + b) == clocked(levels, a) + clocked(settle(levels, a), b),
    decreases b.len(),
{
    if b.len() == 0 {
        assert(a + b =~= a);
        assert(clocked(levels, a) + Seq::<bool>::empty() =~= clocked(levels, a));
    } else {
        let front = b.drop_last();
        assert((a + b).drop_last() =~= a + front);
        assert((a + b).last() == b.last());
        lemma_clocked_concat(levels, a, front);
        lemma_settle_concat(levels, a, front);
        let tail = clocked_by(settle(settle(levels, a), front), b.last());
        assert(clocked(levels, a) + clocked(settle(levels, a), front) + tail =~= clocked(levels, a)
            + (clocked(settle(levels, a), front) + tail));
    }
}

/// A single operation clocks in at most one bit.
proof fn lemma_clocked_single(levels: Seq<bool>, op: PinOp)
    ensures
        clocked(levels, seq![op]) == clocked_by(levels, op),
{
    assert(seq![op].drop_last() =~= Seq::empty());
    assert(settle(levels, seq![op].drop_last()) == levels);
    assert(clocked(levels, seq![op].drop_last()) =~= Seq::empty());
    assert(Seq::<bool>::empty() + clocked_by(levels, op) =~= clocked_by(levels, op));
}

/// A clock pulse clocks in the level of the data line and leaves the data
/// line as it was and the clock low.
proof fn lemma_pulse_clocks_data(levels: Seq<bool>)
    requires
        levels.len() == 13,
    ensures
        clocked(levels, sck_pulse()) == seq![levels[slot(Pin::Sda)]],
        settle(levels, sck_pulse()).len() == 13,
        settle(levels, sck_pulse())[slot(Pin::Sda)] == levels[slot(Pin::Sda)],
        !settle(levels, sck_pulse())[slot(Pin::Sck)],
{
    let low = PinOp::Write(Pin::Sck, false);
    let high = PinOp::Write(Pin::Sck, true);
    assert(sck_pulse() =~= seq![low] + seq![high] + seq![low]);
    lemma_settle_three(levels, low, high, low);
    lemma_clocked_concat(levels, seq![low] + seq![high], seq![low]);
    lemma_clocked_concat(levels, seq![low], seq![high]);
    lemma_settle_concat(levels, seq![low], seq![high]);
    lemma_settle_single(levels, low);
    lemma_settle_single(settle_one(levels, low), high);
    lemma_clocked_single(levels, low);
    lemma_clocked_single(settle_one(levels, low), high);
    lemma_clocked_single(settle_one(settle_one(levels, low), high), low);
    assert(clocked(levels, sck_pulse()) =~= seq![levels[slot(Pin::Sda)]]);
}

/// Sending one bit clocks in that bit.
proof fn lemma_bit_clocked(levels: Seq<bool>, high: bool)
    requires
        levels.len() == 13,
    ensures
        clocked(levels, bit_ops(high)) == seq![high],
        settle(levels, bit_ops(high)).len() == 13,
{
    let data = PinOp::Write(Pin::Sda, high);
    lemma_clocked_concat(levels, seq![data], sck_pulse());
    lemma_settle_concat(levels, seq![data], sck_pulse());
    lemma_settle_single(levels, data);
    lemma_clocked_single(levels, data);
    lemma_pulse_clocks_data(settle_one(levels, data));
    assert(Seq::<bool>::empty() + seq![high] =~= seq![high]);
}

/// Sending the low bits of a byte clocks in those bits, most significant
/// first.
proof fn lemma_bits_clocked(levels: Seq<bool>, byte: u8, n: nat)
    requires
        levels.len() == 13,
        n <= 8,
    ensures
        clocked(levels, bits_ops(byte, n)) == low_bits(byte, n),
    decreases n,
{
    if n == 0 {
        assert(low_bits(byte, 0) =~= Seq::empty());
    } else {
        let first = bit_ops(bit(byte, (n - 1) as u8));
        let rest = bits_ops(byte, (n - 1) as nat);
        lemma_clocked_concat(levels, first, rest);
        lemma_bit_clocked(levels, bit(byte, (n - 1) as u8));
        lemma_bits_clocked(settle(levels, first), byte, (n - 1) as nat);
        assert(seq![bit(byte, (n - 1) as u8)] + low_bits(byte, (n - 1) as nat) =~= low_bits(
            byte,
            n,
        ));
    }
}

/// Sending a byte clocks in its eight bits, most significant first,
/// whatever the lines were before.
pub proof fn lemma_byte_clocked(levels: Seq<bool>, byte: u8)
    requires
        levels.len() == 13,
    ensures
        clocked(levels, byte_ops(byte)) == bits_of(byte),
{
    lemma_bits_clocked(levels, byte, 8);
}

/// Driving the row selects clocks nothing in.
proof fn lemma_rows_off_clock_nothing(levels: Seq<bool>, n: nat)
    requires
        n <= 8,
    ensures
        clocked(levels, rows_off().take(n as int)) == Seq::<bool>::empty(),
    decreases n,
{
    if n > 0 {
        let ops = rows_off().take(n as int);
        assert(ops.drop_last() =~= rows_off().take(n - 1));
        lemma_rows_off_clock_nothing(levels, (n - 1) as nat);
        assert(Seq::<bool>::empty() + Seq::<bool>::empty() =~= Seq::<bool>::empty());
    }
}

/// A latch pulse clocks nothing in.
proof fn lemma_latch_clocks_nothing(levels: Seq<bool>)
    ensures
        clocked(levels, lat_pulse()) == Seq::<bool>::empty(),
{
    let up = PinOp::Write(Pin::Lat, true);
    let down = PinOp::Write(Pin::Lat, false);
    assert(lat_pulse() =~= seq![up] + seq![down] + seq![up]);
    lemma_clocked_concat(levels, seq![up] + seq![down], seq![up]);
    lemma_clocked_concat(levels, seq![up], seq![down]);
    lemma_clocked_single(levels, up);
    lemma_clocked_single(settle(levels, seq![up]), down);
    lemma_clocked_single(settle(levels, seq![up] + seq![down]), up);
    assert(Seq::<bool>::empty() + Seq::<bool>::empty() =~= Seq::<bool>::empty());
}

/// Sending a pixel clocks in its 24 bits: blue, green, red, each
/// gamma-corrected. Releasing the rows on the way adds no bit.
pub proof fn lemma_pixel_clocked(levels: Seq<bool>, color: Color, release_rows: bool)
    requires
        levels.len() == 13,
    ensures
        clocked(levels, pixel_ops(color, release_rows)) == pixel_bits(color),
{
    let shown = color.corrected();
    let gap = if release_rows {
        rows_off()
    } else {
        Seq::empty()
    };
    let blue = byte_ops(shown.b);
    let green = byte_ops(shown.g);
    let red = byte_ops(shown.r);
    lemma_clocked_concat(levels, blue + gap + green, red);
    lemma_clocked_concat(levels, blue + gap, green);
    lemma_clocked_concat(levels, blue, gap);
    lemma_settle_len(levels, blue);
    lemma_settle_len(levels, blue + gap);
    lemma_settle_len(levels, blue + gap + green);
    lemma_byte_clocked(levels, shown.b);
    lemma_byte_clocked(settle(levels, blue + gap), shown.g);
    lemma_byte_clocked(settle(levels, blue + gap + green), shown.r);
    if release_rows {
        assert(rows_off().take(8) =~= rows_off());
        lemma_rows_off_clock_nothing(settle(levels, blue), 8);
    }
    assert(bits_of(shown.b) + Seq::<bool>::empty() =~= bits_of(shown.b));
}

/// Sending pixels clocks in their bits, last pixel first.
proof fn lemma_pixels_clocked(levels: Seq<bool>, pixels: Seq<Color>, n: nat)
    requires
        levels.len() == 13,
        n <= pixels.len(),
    ensures
        clocked(levels, pixels_ops(pixels, n)) == pixels_bits(pixels, n),
    decreases n,
{
    if n > 0 {
        let first = pixel_ops(pixels[n - 1], pixels.len() - n == 4);
        lemma_clocked_concat(levels, first, pixels_ops(pixels, (n - 1) as nat));
        lemma_pixel_clocked(levels, pixels[n - 1], pixels.len() - n == 4);
        lemma_settle_len(levels, first);
        lemma_pixels_clocked(settle(levels, first), pixels, (n - 1) as nat);
    }
}

/// What the chip receives of a row: the pixels in reverse column order,
/// each as gamma-corrected blue, green, red, each byte most significant
/// bit first; and nothing else, whatever the lines were before.
pub proof fn lemma_row_clocked(levels: Seq<bool>, row: usize, pixels: Seq<Color>)
    requires
        levels.len() == 13,
    ensures
        clocked(levels, row_ops(row, pixels)) == pixels_bits(pixels, pixels.len()),
{
    let shift = pixels_ops(pixels, pixels.len());
    let light = seq![PinOp::Write(Pin::Row(row), true)];
    lemma_clocked_concat(levels, shift + lat_pulse(), light);
    lemma_clocked_concat(levels, shift, lat_pulse());
    lemma_pixels_clocked(levels, pixels, pixels.len());
    lemma_latch_clocks_nothing(settle(levels, shift));
    lemma_clocked_single(settle(levels, shift + lat_pulse()), PinOp::Write(Pin::Row(row), true));
    assert(pixels_bits(pixels, pixels.len()) + Seq::<bool>::empty() + Seq::<bool>::empty()
        =~= pixels_bits(pixels, pixels.len()));
}

/// Clock pulses with the data line high clock in one-bits.
proof fn lemma_ticks_clocked(levels: Seq<bool>, n: nat)
    requires
        levels.len() == 13,
        levels[slot(Pin::Sda)],
    ensures
        clocked(levels, clock_ticks(n)) == Seq::new(n, |i: int| true),
    decreases n,
{
    if n == 0 {
        assert(Seq::new(0, |i: int| true) =~= Seq::<bool>::empty());
    } else {
        lemma_clocked_concat(levels, sck_pulse(), clock_ticks((n - 1) as nat));
        lemma_pulse_clocks_data(levels);
        lemma_ticks_clocked(settle(levels, sck_pulse()), (n - 1) as nat);
        assert(seq![true] + Seq::new((n - 1) as nat, |i: int| true) =~= Seq::new(
            n,
            |i: int| true,
        ));
    }
}

/// The initialisation of bank 0 clocks exactly 144 one-bits into the chip.
pub proof fn lemma_bank_init_clocked(levels: Seq<bool>)
    requires
        levels.len() == 13,
    ensures
        clocked(levels, bank_init_ops()) == Seq::new(144, |i: int| true),
{
    let select = PinOp::Write(Pin::Sb, false);
    let data = PinOp::Write(Pin::Sda, true);
    let back = PinOp::Write(Pin::Sb, true);
    let head = seq![select, data];
    assert(head =~= seq![select] + seq![data]);
    lemma_clocked_concat(levels, head + clock_ticks(144) + lat_pulse(), seq![back]);
    lemma_clocked_concat(levels, head + clock_ticks(144), lat_pulse());
    lemma_clocked_concat(levels, head, clock_ticks(144));
    lemma_clocked_concat(levels, seq![select], seq![data]);
    lemma_settle_concat(levels, seq![select], seq![data]);
    lemma_settle_single(levels, select);
    lemma_settle_single(settle_one(levels, select), data);
    lemma_clocked_single(levels, select);
    lemma_clocked_single(settle_one(levels, select), data);
    lemma_ticks_clocked(settle(levels, head), 144);
    lemma_latch_clocks_nothing(settle(levels, head + clock_ticks(144)));
    lemma_clocked_single(settle(levels, head + clock_ticks(144) + lat_pulse()), back);
    assert(Seq::<bool>::empty() + Seq::<bool>::empty() + Seq::new(144, |i: int| true)
        + Seq::<bool>::empty() + Seq::<bool>::empty() =~= Seq::new(144, |i: int| true));
}

} // verus!
