//! The bit-banged protocol that drives the panel's shift-register chip.
//!
//! The driver decides which control line changes when. It does not touch
//! hardware: every change is appended to a log of [`PinOp`]s that the caller
//! drains with [`Matrix::take_ops`] and performs in order. The contracts
//! state the log exactly, so the wire protocol is fixed bit for bit.

use vstd::prelude::*;
use crate::image::{Color, Image};

verus! {

/// A control line of the panel.
#[derive(Copy, Clone, Debug, PartialEq, Eq, Structural)]
pub enum Pin {
    /// Bank select.
    Sb,
    /// Latch.
    Lat,
    /// Reset.
    Rst,
    /// Shift clock.
    Sck,
    /// Serial data.
    Sda,
    /// Select line of the row with this index, 0 to 7.
    Row(usize),
}

/// One thing for the caller to do to the hardware.
#[derive(Copy, Clone, Debug, PartialEq, Eq, Structural)]
pub enum PinOp {
    /// Drive the line high (`true`) or low (`false`).
    Write(Pin, bool),
    /// Wait for at least this many milliseconds.
    DelayMs(u32),
}

/// Whether `pin` names a line of the panel.
pub open spec fn valid_pin(pin: Pin) -> bool {
    pin matches Pin::Row(r) ==> r < 8
}

/// Where the level of `pin` is kept: the rows first, then the five others.
pub open spec fn slot(pin: Pin) -> int {
    match pin {
        Pin::Row(r) => r as int,
        Pin::Sb => 8,
        Pin::Lat => 9,
        Pin::Rst => 10,
        Pin::Sck => 11,
        Pin::Sda => 12,
    }
}

/// The line levels once `op` has been performed on `levels`.
pub open spec fn settle_one(levels: Seq<bool>, op: PinOp) -> Seq<bool> {
    match op {
        PinOp::Write(pin, high) => if slot(pin) < levels.len() {
            levels.update(slot(pin), high)
        } else {
            levels
        },
        PinOp::DelayMs(_) => levels,
    }
}

/// The line levels once `ops` have been performed, in order, on `levels`.
pub open spec fn settle(levels: Seq<bool>, ops: Seq<PinOp>) -> Seq<bool>
    decreases ops.len(),
{
    if ops.len() == 0 {
        levels
    } else {
        settle_one(settle(levels, ops.drop_last()), ops.last())
    }
}

/// A brief high pulse of the shift clock.
pub open spec fn sck_pulse() -> Seq<PinOp> {
    seq![
        PinOp::Write(Pin::Sck, false),
        PinOp::Write(Pin::Sck, true),
        PinOp::Write(Pin::Sck, false),
    ]
}

/// A brief low pulse of the latch, which commits what was shifted in.
pub open spec fn lat_pulse() -> Seq<PinOp> {
    seq![
        PinOp::Write(Pin::Lat, true),
        PinOp::Write(Pin::Lat, false),
        PinOp::Write(Pin::Lat, true),
    ]
}

/// Bit `k` of `byte`, bit 0 being the least significant.
pub open spec fn bit(byte: u8, k: u8) -> bool {
    (byte >> k) & 1 == 1
}

/// One data bit: the level on the data line, then a clock pulse.
pub open spec fn bit_ops(high: bool) -> Seq<PinOp> {
    seq![PinOp::Write(Pin::Sda, high)] + sck_pulse()
}

/// The low `n` bits of `byte`, most significant of them first.
pub open spec fn bits_ops(byte: u8, n: nat) -> Seq<PinOp>
    decreases n,
{
    if n == 0 || n > 8 {
        Seq::empty()
    } else {
        bit_ops(bit(byte, (n - 1) as u8)) + bits_ops(byte, (n - 1) as nat)
    }
}

/// A whole byte, most significant bit first.
pub open spec fn byte_ops(byte: u8) -> Seq<PinOp> {
    bits_ops(byte, 8)
}

/// Every row select driven low, row 0 first.
pub open spec fn rows_off() -> Seq<PinOp> {
    Seq::new(8, |r: int| PinOp::Write(Pin::Row(r as usize), false))
}

/// One pixel: its gamma-corrected blue, green and red bytes. With
/// `release_rows` the row selects are driven low right after the blue byte.
pub open spec fn pixel_ops(color: Color, release_rows: bool) -> Seq<PinOp> {
    let shown = color.corrected();
    byte_ops(shown.b) + (if release_rows {
        rows_off()
    } else {
        Seq::empty()
    }) + byte_ops(shown.g) + byte_ops(shown.r)
}

/// The first `n` pixels of `pixels`, last of them first. The fifth pixel
/// sent has the row selects released after its blue byte: the chip's two
/// shift-register banks need the rows dark from there on.
pub open spec fn pixels_ops(pixels: Seq<Color>, n: nat) -> Seq<PinOp>
    decreases n,
{
    if n == 0 || n > pixels.len() {
        Seq::empty()
    } else {
        pixel_ops(pixels[n - 1], pixels.len() - n == 4) + pixels_ops(pixels, (n - 1) as nat)
    }
}

/// A whole row: the pixels in reverse column order, a latch pulse, then the
/// row's select line driven high.
pub open spec fn row_ops(row: usize, pixels: Seq<Color>) -> Seq<PinOp> {
    pixels_ops(pixels, pixels.len()) + lat_pulse() + seq![PinOp::Write(Pin::Row(row), true)]
}

/// `n` clock pulses.
pub open spec fn clock_ticks(n: nat) -> Seq<PinOp>
    decreases n,
{
    if n == 0 {
        Seq::empty()
    } else {
        sck_pulse() + clock_ticks((n - 1) as nat)
    }
}

/// Initialisation of the chip's bank 0: with bank select low, 144 one-bits
/// are clocked in and latched; bank select then returns high.
pub open spec fn bank_init_ops() -> Seq<PinOp> {
    seq![PinOp::Write(Pin::Sb, false), PinOp::Write(Pin::Sda, true)] + clock_ticks(144)
        + lat_pulse() + seq![PinOp::Write(Pin::Sb, true)]
}

/// What bringing the panel up takes: the idle levels (bank select and latch
/// high, all else low), 100 ms for the chip to settle, reset released, and
/// the initialisation of bank 0.
pub open spec fn power_on_ops() -> Seq<PinOp> {
    seq![
        PinOp::Write(Pin::Sb, true),
        PinOp::Write(Pin::Lat, true),
        PinOp::Write(Pin::Rst, false),
        PinOp::Write(Pin::Sck, false),
        PinOp::Write(Pin::Sda, false),
    ] + rows_off() + seq![PinOp::DelayMs(100), PinOp::Write(Pin::Rst, true)] + bank_init_ops()
}

/// The first `n` rows of a frame, row 0 first.
pub open spec fn image_ops(pixels: Seq<Color>, n: nat) -> Seq<PinOp>
    decreases n,
{
    if n == 0 {
        Seq::empty()
    } else {
        image_ops(pixels, (n - 1) as nat) + row_ops(
            (n - 1) as usize,
            pixels.subrange(8 * (n - 1), 8 * (n as int)),
        )
    }
}

/// Performing `a` and then `b` is performing `a + b`.
pub proof fn lemma_settle_concat(levels: Seq<bool>, a: Seq<PinOp>, b: Seq<PinOp>)
    ensures
        settle(levels, a + b) == settle(settle(levels, a), b),
    decreases b.len(),
{
    if b.len() == 0 {
        assert(a + b =~= a);
    } else {
        assert((a + b).drop_last() =~= a + b.drop_last());
        assert((a + b).last() == b.last());
        lemma_settle_concat(levels, a, b.drop_last());
    }
}

/// Performing operations neither adds nor removes a line.
pub proof fn lemma_settle_len(levels: Seq<bool>, ops: Seq<PinOp>)
    ensures
        settle(levels, ops).len() == levels.len(),
    decreases ops.len(),
{
    if ops.len() > 0 {
        lemma_settle_len(levels, ops.drop_last());
    }
}

/// Performing a single operation.
pub proof fn lemma_settle_single(levels: Seq<bool>, op: PinOp)
    ensures
        settle(levels, seq![op]) == settle_one(levels, op),
{
    assert(seq![op].drop_last() =~= Seq::empty());
    assert(settle(levels, seq![op].drop_last()) == levels);
}

/// Performing three operations in a row.
pub proof fn lemma_settle_three(levels: Seq<bool>, a: PinOp, b: PinOp, c: PinOp)
    ensures
        settle(levels, seq![a, b, c]) == settle_one(settle_one(settle_one(levels, a), b), c),
{
    assert(seq![a, b, c] =~= seq![a] + seq![b] + seq![c]);
    lemma_settle_concat(levels, seq![a] + seq![b], seq![c]);
    lemma_settle_concat(levels, seq![a], seq![b]);
    lemma_settle_single(levels, a);
    lemma_settle_single(settle_one(levels, a), b);
    lemma_settle_single(settle_one(settle_one(levels, a), b), c);
}

/// `levels` with every row select low.
pub open spec fn with_rows_dark(levels: Seq<bool>) -> Seq<bool> {
    Seq::new(
        13,
        |k: int|
            if k < 8 {
                false
            } else {
                levels[k]
            },
    )
}

/// The levels of a panel that is up and idle: bank select, latch, reset
/// and data high; the clock and every row select low.
pub open spec fn idle_levels() -> Seq<bool> {
    Seq::new(
        13,
        |k: int|
            k == slot(Pin::Sb) || k == slot(Pin::Lat) || k == slot(Pin::Rst) || k == slot(Pin::Sda),
    )
}

/// Whether no operation of `ops` drives a row select.
pub open spec fn leaves_rows(ops: Seq<PinOp>) -> bool {
    forall|i: int| 0 <= i < ops.len() ==> !(#[trigger] ops[i] matches PinOp::Write(Pin::Row(_), _))
}

/// Whether the first `n` row selects are low.
pub open spec fn dark_upto(levels: Seq<bool>, n: nat) -> bool {
    forall|r: int| 0 <= r < n ==> !#[trigger] levels[r]
}

/// Whether every row select is low.
pub open spec fn rows_dark(levels: Seq<bool>) -> bool {
    dark_upto(levels, 8)
}

/// Operations that drive no row select leave the row selects as they were.
proof fn lemma_rows_kept(levels: Seq<bool>, ops: Seq<PinOp>)
    requires
        levels.len() == 13,
        leaves_rows(ops),
    ensures
        forall|r: int| 0 <= r < 8 ==> settle(levels, ops)[r] == levels[r],
    decreases ops.len(),
{
    if ops.len() > 0 {
        let front = ops.drop_last();
        assert forall|i: int| 0 <= i < front.len() implies !(#[trigger] front[i] matches PinOp::Write(
            Pin::Row(_),
            _,
        )) by {
            assert(front[i] == ops[i]);
        }
        lemma_rows_kept(levels, front);
        lemma_settle_len(levels, front);
        assert(!(ops[ops.len() - 1] matches PinOp::Write(Pin::Row(_), _)));
    }
}

/// Shifting bits out drives no row select.
proof fn lemma_bits_leave_rows(byte: u8, n: nat)
    ensures
        leaves_rows(bits_ops(byte, n)),
    decreases n,
{
    if n == 0 || n > 8 {
    } else {
        lemma_bits_leave_rows(byte, (n - 1) as nat);
    }
}

/// A pixel sent without releasing the rows drives no row select.
proof fn lemma_pixel_leaves_rows(color: Color)
    ensures
        leaves_rows(pixel_ops(color, false)),
{
    let shown = color.corrected();
    lemma_bits_leave_rows(shown.b, 8);
    lemma_bits_leave_rows(shown.g, 8);
    lemma_bits_leave_rows(shown.r, 8);
}

/// From the sixth pixel sent on, no row select is driven.
proof fn lemma_late_pixels_leave_rows(pixels: Seq<Color>, n: nat)
    requires
        n + 5 <= pixels.len(),
    ensures
        leaves_rows(pixels_ops(pixels, n)),
    decreases n,
{
    if n > 0 {
        lemma_pixel_leaves_rows(pixels[n - 1]);
        lemma_late_pixels_leave_rows(pixels, (n - 1) as nat);
    }
}

/// Driving the first `n` row selects low leaves them low.
proof fn lemma_rows_off_upto(levels: Seq<bool>, n: nat)
    requires
        levels.len() == 13,
        n <= 8,
    ensures
        dark_upto(
            settle(levels, Seq::new(n, |k: int| PinOp::Write(Pin::Row(k as usize), false))),
            n,
        ),
    decreases n,
{
    if n > 0 {
        let ops = Seq::new(n, |k: int| PinOp::Write(Pin::Row(k as usize), false));
        let front = Seq::new((n - 1) as nat, |k: int| PinOp::Write(Pin::Row(k as usize), false));
        assert(ops.drop_last() =~= front);
        lemma_rows_off_upto(levels, (n - 1) as nat);
        lemma_settle_len(levels, front);
    }
}

/// The pixel that releases the rows leaves every row select low.
proof fn lemma_release_darkens(levels: Seq<bool>, color: Color)
    requires
        levels.len() == 13,
    ensures
        rows_dark(settle(levels, pixel_ops(color, true))),
{
    let shown = color.corrected();
    let head = byte_ops(shown.b) + rows_off();
    let tail = byte_ops(shown.g) + byte_ops(shown.r);
    assert(pixel_ops(color, true) =~= head + tail);
    lemma_settle_concat(levels, head, tail);
    lemma_settle_concat(levels, byte_ops(shown.b), rows_off());
    let shifted = settle(levels, byte_ops(shown.b));
    lemma_settle_len(levels, byte_ops(shown.b));
    assert(rows_off() =~= Seq::new(8, |k: int| PinOp::Write(Pin::Row(k as usize), false)));
    lemma_rows_off_upto(shifted, 8);
    let dark = settle(shifted, rows_off());
    assert(rows_dark(dark));
    lemma_settle_len(shifted, rows_off());
    lemma_bits_leave_rows(shown.g, 8);
    lemma_bits_leave_rows(shown.r, 8);
    assert(leaves_rows(tail));
    lemma_rows_kept(dark, tail);
    assert forall|r: int| 0 <= r < 8 implies !#[trigger] settle(dark, tail)[r] by {
        assert(!dark[r]);
    }
}

/// Once five pixels or more have gone out, every row select is low.
proof fn lemma_pixels_darken(levels: Seq<bool>, pixels: Seq<Color>, n: nat)
    requires
        levels.len() == 13,
        n <= pixels.len(),
        pixels.len() <= n + 4,
        pixels.len() >= 5,
    ensures
        rows_dark(settle(levels, pixels_ops(pixels, n))),
    decreases n,
{
    let release = pixels.len() - n == 4;
    let first = pixel_ops(pixels[n - 1], release);
    let rest = pixels_ops(pixels, (n - 1) as nat);
    lemma_settle_concat(levels, first, rest);
    let mid = settle(levels, first);
    lemma_settle_len(levels, first);
    if release {
        lemma_release_darkens(levels, pixels[n - 1]);
        lemma_late_pixels_leave_rows(pixels, (n - 1) as nat);
        lemma_rows_kept(mid, rest);
        assert forall|r: int| 0 <= r < 8 implies !#[trigger] settle(mid, rest)[r] by {
            assert(!mid[r]);
        }
    } else {
        lemma_pixels_darken(mid, pixels, (n - 1) as nat);
    }
}

/// Exactly one row is lit at a time: once a row of five pixels or more has
/// been sent, the select line of that row is high and the seven others are
/// low, whatever the lines were before; and the latch is back high.
pub proof fn lemma_one_row_lit(levels: Seq<bool>, row: usize, pixels: Seq<Color>)
    requires
        levels.len() == 13,
        row < 8,
        pixels.len() >= 5,
    ensures
        forall|r: int| 0 <= r < 8 ==> settle(levels, row_ops(row, pixels))[r] == (r == row),
        settle(levels, row_ops(row, pixels))[slot(Pin::Lat)],
{
    let shift = pixels_ops(pixels, pixels.len());
    let light = seq![PinOp::Write(Pin::Row(row), true)];
    lemma_settle_concat(levels, shift + lat_pulse(), light);
    lemma_settle_concat(levels, shift, lat_pulse());
    lemma_pixels_darken(levels, pixels, pixels.len());
    let dark = settle(levels, shift);
    lemma_settle_len(levels, shift);
    lemma_rows_kept(dark, lat_pulse());
    let latched = settle(dark, lat_pulse());
    lemma_settle_len(dark, lat_pulse());
    lemma_settle_three(
        dark,
        PinOp::Write(Pin::Lat, true),
        PinOp::Write(Pin::Lat, false),
        PinOp::Write(Pin::Lat, true),
    );
    lemma_settle_single(latched, PinOp::Write(Pin::Row(row), true));
}

/// The panel driver: the levels of the thirteen control lines and the
/// operations decided on but not yet handed to the caller.
pub struct Matrix {
    levels: [bool; 13],
    log: Vec<PinOp>,
}

impl Matrix {
    /// The level of every line, by [`slot`], once the logged operations
    /// have been performed.
    pub closed spec fn levels(&self) -> Seq<bool> {
        self.levels@
    }

    /// The operations waiting to be performed, oldest first.
    pub closed spec fn log(&self) -> Seq<PinOp> {
        self.log@
    }

    /// Whether this driver is `before` with `ops` decided since.
    pub open spec fn driven(&self, before: &Matrix, ops: Seq<PinOp>) -> bool {
        &&& self.log() == before.log() + ops
        &&& self.levels() == settle(before.levels(), ops)
    }

    /// Whether row `row` is lit and the seven other rows are dark.
    pub open spec fn one_row_lit(&self, row: int) -> bool {
        forall|r: int| 0 <= r < 8 ==> #[trigger] self.levels()[r] == (r == row)
    }

    /// There are thirteen lines.
    pub proof fn lemma_levels_len(&self)
        ensures
            self.levels().len() == 13,
    {
    }

    /// Deciding nothing changes nothing.
    pub proof fn lemma_driven_start(&self)
        ensures
            self.driven(self, Seq::empty()),
    {
        assert(self.log() + Seq::<PinOp>::empty() =~= self.log());
    }

    /// Operations decided in two stretches are decided as one.
    pub proof fn lemma_driven_then(&self, mid: &Matrix, before: &Matrix, a: Seq<PinOp>, b: Seq<PinOp>)
        requires
            mid.driven(before, a),
            self.driven(mid, b),
        ensures
            self.driven(before, a + b),
    {
        assert(before.log() + (a + b) =~= (before.log() + a) + b);
        lemma_settle_concat(before.levels(), a, b);
    }

    /// A driver for a panel that has just been powered: the lines are
    /// brought to their idle levels, the chip is given 100 ms, reset is
    /// released and bank 0 is initialised. No row can be sent before this
    /// has been decided, for there is no other way to make a driver.
    pub fn new() -> (matrix: Matrix)
        ensures
            matrix.log() == power_on_ops(),
            matrix.levels() == settle(Seq::new(13, |k: int| false), power_on_ops()),
            matrix.levels() == idle_levels(),
    {
        let mut matrix = Matrix { levels: [false;13], log: Vec::new() };
        let ghost start = matrix;
        assert(start.levels() =~= Seq::new(13, |k: int| false));
        let ghost idle = seq![
            PinOp::Write(Pin::Sb, true),
            PinOp::Write(Pin::Lat, true),
            PinOp::Write(Pin::Rst, false),
            PinOp::Write(Pin::Sck, false),
            PinOp::Write(Pin::Sda, false),
        ];
        matrix.write(Pin::Sb, true);
        let ghost m1 = matrix;
        matrix.write(Pin::Lat, true);
        let ghost m2 = matrix;
        matrix.write(Pin::Rst, false);
        let ghost m3 = matrix;
        matrix.write(Pin::Sck, false);
        let ghost m4 = matrix;
        matrix.write(Pin::Sda, false);
        let ghost m5 = matrix;
        proof {
            let a = seq![PinOp::Write(Pin::Sb, true)];
            let b = seq![PinOp::Write(Pin::Lat, true)];
            let c = seq![PinOp::Write(Pin::Rst, false)];
            let d = seq![PinOp::Write(Pin::Sck, false)];
            let e = seq![PinOp::Write(Pin::Sda, false)];
            m2.lemma_driven_then(&m1, &start, a, b);
            m3.lemma_driven_then(&m2, &start, a + b, c);
            m4.lemma_driven_then(&m3, &start, a + b + c, d);
            m5.lemma_driven_then(&m4, &start, a + b + c + d, e);
            assert(idle =~= a + b + c + d + e);
        }
        matrix.deactivate_rows();
        let ghost m6 = matrix;
        matrix.log.push(PinOp::DelayMs(100));
        let ghost m7 = matrix;
        proof {
            let wait = seq![PinOp::DelayMs(100)];
            assert(wait.drop_last() =~= Seq::empty());
            assert(settle(m6.levels(), wait.drop_last()) == m6.levels());
            assert(m7.log() =~= m6.log() + wait);
            assert(m7.driven(&m6, wait));
        }
        matrix.write(Pin::Rst, true);
        let ghost m8 = matrix;
        matrix.init_bank0();
        proof {
            let wait = seq![PinOp::DelayMs(100)];
            let release = seq![PinOp::Write(Pin::Rst, true)];
            m6.lemma_driven_then(&m5, &start, idle, rows_off());
            m7.lemma_driven_then(&m6, &start, idle + rows_off(), wait);
            m8.lemma_driven_then(&m7, &start, idle + rows_off() + wait, release);
            matrix.lemma_driven_then(
                &m8,
                &start,
                idle + rows_off() + wait + release,
                bank_init_ops(),
            );
            assert(seq![PinOp::DelayMs(100), PinOp::Write(Pin::Rst, true)] =~= wait + release);
            assert(power_on_ops() =~= idle + rows_off() + wait + release + bank_init_ops());
            assert(start.log() + power_on_ops() =~= power_on_ops());
            assert(matrix.levels() =~= idle_levels());
        }
        matrix
    }

    /// Hands over the operations decided so far, oldest first, for the
    /// caller to perform; the log is empty afterwards and the levels stand.
    pub fn take_ops(&mut self) -> (ops: Vec<PinOp>)
        ensures
            ops@ == old(self).log(),
            final(self).log() == Seq::<PinOp>::empty(),
            final(self).levels() == old(self).levels(),
    {
        let mut ops: Vec<PinOp> = Vec::new();
        std::mem::swap(&mut ops, &mut self.log);
        ops
    }

    /// The level that `pin` has once the logged operations are performed.
    pub fn is_high(&self, pin: Pin) -> (high: bool)
        requires
            valid_pin(pin),
        ensures
            high == self.levels()[slot(pin)],
    {
        let index: usize = match pin {
            Pin::Row(r) => r,
            Pin::Sb => 8,
            Pin::Lat => 9,
            Pin::Rst => 10,
            Pin::Sck => 11,
            Pin::Sda => 12,
        };
        self.levels[index]
    }

    /// Drives `pin` to `high`.
    fn write(&mut self, pin: Pin, high: bool)
        requires
            valid_pin(pin),
        ensures
            final(self).driven(old(self), seq![PinOp::Write(pin, high)]),
            final(self).levels() == old(self).levels().update(slot(pin), high),
    {
        let index: usize = match pin {
            Pin::Row(r) => r,
            Pin::Sb => 8,
            Pin::Lat => 9,
            Pin::Rst => 10,
            Pin::Sck => 11,
            Pin::Sda => 12,
        };
        self.levels[index] = high;
        self.log.push(PinOp::Write(pin, high));
        proof {
            lemma_settle_single(old(self).levels(), PinOp::Write(pin, high));
            assert(self.log() =~= old(self).log() + seq![PinOp::Write(pin, high)]);
        }
    }

    /// Make a brief high pulse of the shift clock.
    fn pulse_sck(&mut self)
        ensures
            final(self).driven(old(self), sck_pulse()),
            final(self).levels() == old(self).levels().update(slot(Pin::Sck), false),
    {
        let ghost start = *self;
        self.write(Pin::Sck, false);
        let ghost first = *self;
        self.write(Pin::Sck, true);
        let ghost second = *self;
        self.write(Pin::Sck, false);
        proof {
            let low = seq![PinOp::Write(Pin::Sck, false)];
            let high = seq![PinOp::Write(Pin::Sck, true)];
            second.lemma_driven_then(&first, &start, low, high);
            self.lemma_driven_then(&second, &start, low + high, low);
            assert(sck_pulse() =~= low + high + low);
            assert(self.levels() =~= start.levels().update(slot(Pin::Sck), false));
        }
    }

    /// Make a brief low pulse of the latch.
    fn pulse_lat(&mut self)
        ensures
            final(self).driven(old(self), lat_pulse()),
            final(self).levels() == old(self).levels().update(slot(Pin::Lat), true),
    {
        let ghost start = *self;
        self.write(Pin::Lat, true);
        let ghost first = *self;
        self.write(Pin::Lat, false);
        let ghost second = *self;
        self.write(Pin::Lat, true);
        proof {
            let high = seq![PinOp::Write(Pin::Lat, true)];
            let low = seq![PinOp::Write(Pin::Lat, false)];
            second.lemma_driven_then(&first, &start, high, low);
            self.lemma_driven_then(&second, &start, high + low, high);
            assert(lat_pulse() =~= high + low + high);
            assert(self.levels() =~= start.levels().update(slot(Pin::Lat), true));
        }
    }

    /// Set the select line of row `row` to `high`.
    fn row(&mut self, row: usize, high: bool)
        requires
            row < 8,
        ensures
            final(self).driven(old(self), seq![PinOp::Write(Pin::Row(row), high)]),
            final(self).levels() == old(self).levels().update(row as int, high),
    {
        self.write(Pin::Row(row), high);
    }

    /// Send a byte on the data line, most significant bit first, with a
    /// clock pulse after each bit.
    fn send_byte(&mut self, byte: u8)
        ensures
            final(self).driven(old(self), byte_ops(byte)),
    {
        let ghost start = *self;
        let ghost mut done: Seq<PinOp> = Seq::empty();
        let mut left: u8 = 8;
        proof {
            self.lemma_driven_start();
        }
        while left > 0
            invariant
                left <= 8,
                self.driven(&start, done),
                done + bits_ops(byte, left as nat) == byte_ops(byte),
            decreases left,
        {
            left -= 1;
            let high: bool = (byte >> left) & 1 == 1;
            let ghost before = *self;
            self.write(Pin::Sda, high);
            let ghost data_set = *self;
            self.pulse_sck();
            proof {
                self.lemma_driven_then(&data_set, &before, seq![PinOp::Write(Pin::Sda, high)], sck_pulse());
                self.lemma_driven_then(&before, &start, done, bit_ops(high));
                assert(done + bit_ops(high) + bits_ops(byte, left as nat) =~= done + (bit_ops(high)
                    + bits_ops(byte, left as nat)));
                done = done + bit_ops(high);
            }
        }
        assert(done + bits_ops(byte, 0) =~= done);
    }

    /// Turn every row off.
    fn deactivate_rows(&mut self)
        ensures
            final(self).driven(old(self), rows_off()),
            final(self).levels() == with_rows_dark(old(self).levels()),
    {
        let ghost start = *self;
        let ghost mut done: Seq<PinOp> = Seq::empty();
        proof {
            self.lemma_driven_start();
        }
        for r in 0..8usize
            invariant
                self.driven(&start, done),
                done == Seq::new(r as nat, |k: int| PinOp::Write(Pin::Row(k as usize), false)),
                self.levels() == Seq::new(
                    13,
                    |k: int|
                        if k < r {
                            false
                        } else {
                            start.levels()[k]
                        },
                ),
        {
            let ghost before = *self;
            self.row(r, false);
            proof {
                let op = seq![PinOp::Write(Pin::Row(r), false)];
                self.lemma_driven_then(&before, &start, done, op);
                assert(done + op =~= Seq::new(
                    (r + 1) as nat,
                    |k: int| PinOp::Write(Pin::Row(k as usize), false),
                ));
                done = done + op;
                assert(self.levels() =~= Seq::new(
                    13,
                    |k: int|
                        if k < r + 1 {
                            false
                        } else {
                            start.levels()[k]
                        },
                ));
            }
        }
        assert(self.levels() =~= with_rows_dark(start.levels()));
    }

    /// Send one pixel: gamma-corrected blue, green, red.
    fn send_pixel(&mut self, color: &Color, release_rows: bool)
        ensures
            final(self).driven(old(self), pixel_ops(*color, release_rows)),
    {
        let ghost start = *self;
        let shown: Color = color.gamma_correct();
        self.send_byte(shown.b);
        let ghost blue = *self;
        let ghost gap: Seq<PinOp> = if release_rows {
            rows_off()
        } else {
            Seq::empty()
        };
        if release_rows {
            self.deactivate_rows();
        } else {
            proof {
                self.lemma_driven_start();
            }
        }
        let ghost dark = *self;
        self.send_byte(shown.g);
        let ghost green = *self;
        self.send_byte(shown.r);
        proof {
            dark.lemma_driven_then(&blue, &start, byte_ops(shown.b), gap);
            green.lemma_driven_then(&dark, &start, byte_ops(shown.b) + gap, byte_ops(shown.g));
            self.lemma_driven_then(
                &green,
                &start,
                byte_ops(shown.b) + gap + byte_ops(shown.g),
                byte_ops(shown.r),
            );
        }
    }

    /// Send a full row of pixels in reverse column order, each pixel
    /// gamma-corrected and shifted out blue, green, red; then pulse the
    /// latch and light row `row`. The rows are turned off while the fifth
    /// pixel goes out, so that after a row of five pixels or more, `row` is
    /// the one row that is lit.
    pub fn send_row(&mut self, row: usize, pixels: &[Color])
        requires
            row < 8,
        ensures
            final(self).driven(old(self), row_ops(row, pixels@)),
            pixels@.len() >= 5 ==> final(self).one_row_lit(row as int),
    {
        let ghost start = *self;
        let ghost mut done: Seq<PinOp> = Seq::empty();
        let count: usize = pixels.len();
        let mut left: usize = count;
        proof {
            self.lemma_driven_start();
        }
        while left > 0
            invariant
                left <= count == pixels@.len(),
                self.driven(&start, done),
                done + pixels_ops(pixels@, left as nat) == pixels_ops(pixels@, count as nat),
            decreases left,
        {
            let release_rows: bool = count - left == 4;
            left -= 1;
            let ghost before = *self;
            self.send_pixel(&pixels[left], release_rows);
            proof {
                let sent = pixel_ops(pixels@[left as int], release_rows);
                self.lemma_driven_then(&before, &start, done, sent);
                assert(done + sent + pixels_ops(pixels@, left as nat) =~= done + (sent
                    + pixels_ops(pixels@, left as nat)));
                done = done + sent;
            }
        }
        assert(done + pixels_ops(pixels@, 0) =~= done);
        let ghost shifted = *self;
        self.pulse_lat();
        let ghost latched = *self;
        self.row(row, true);
        proof {
            latched.lemma_driven_then(&shifted, &start, done, lat_pulse());
            self.lemma_driven_then(
                &latched,
                &start,
                done + lat_pulse(),
                seq![PinOp::Write(Pin::Row(row), true)],
            );
            if pixels@.len() >= 5 {
                lemma_one_row_lit(start.levels(), row, pixels@);
            }
        }
    }

    /// Initialise bank 0: bank select low, 144 one-bits clocked in, a latch
    /// pulse, bank select high again.
    fn init_bank0(&mut self)
        ensures
            final(self).driven(old(self), bank_init_ops()),
            final(self).levels() == old(self).levels().update(slot(Pin::Sb), true).update(
                slot(Pin::Sda),
                true,
            ).update(slot(Pin::Sck), false).update(slot(Pin::Lat), true),
    {
        let ghost start = *self;
        self.write(Pin::Sb, false);
        let ghost selected = *self;
        self.write(Pin::Sda, true);
        let ghost head = seq![PinOp::Write(Pin::Sb, false), PinOp::Write(Pin::Sda, true)];
        proof {
            self.lemma_driven_then(
                &selected,
                &start,
                seq![PinOp::Write(Pin::Sb, false)],
                seq![PinOp::Write(Pin::Sda, true)],
            );
            assert(head =~= seq![PinOp::Write(Pin::Sb, false)] + seq![PinOp::Write(Pin::Sda, true)]);
        }
        let ghost mut done: Seq<PinOp> = head;
        let mut left: usize = 144;
        while left > 0
            invariant
                left <= 144,
                self.driven(&start, done),
                done + clock_ticks(left as nat) == head + clock_ticks(144),
                left == 144 ==> self.levels() == start.levels().update(
                    slot(Pin::Sb),
                    false,
                ).update(slot(Pin::Sda), true),
                left < 144 ==> self.levels() == start.levels().update(slot(Pin::Sb), false).update(
                    slot(Pin::Sda),
                    true,
                ).update(slot(Pin::Sck), false),
            decreases left,
        {
            left -= 1;
            let ghost before = *self;
            self.pulse_sck();
            proof {
                self.lemma_driven_then(&before, &start, done, sck_pulse());
                assert(done + sck_pulse() + clock_ticks(left as nat) =~= done + (sck_pulse()
                    + clock_ticks(left as nat)));
                done = done + sck_pulse();
            }
        }
        assert(done + clock_ticks(0) =~= done);
        let ghost clocked = *self;
        self.pulse_lat();
        let ghost latched = *self;
        self.write(Pin::Sb, true);
        proof {
            latched.lemma_driven_then(&clocked, &start, done, lat_pulse());
            self.lemma_driven_then(
                &latched,
                &start,
                done + lat_pulse(),
                seq![PinOp::Write(Pin::Sb, true)],
            );
            assert(self.levels() =~= start.levels().update(slot(Pin::Sb), true).update(
                slot(Pin::Sda),
                true,
            ).update(slot(Pin::Sck), false).update(slot(Pin::Lat), true));
        }
    }

    /// Display a full image, row by row, as fast as possible. The last row
    /// stays lit.
    pub fn display_image(&mut self, image: &Image)
        ensures
            final(self).driven(old(self), image_ops(image@, 8)),
            final(self).one_row_lit(7),
    {
        let ghost start = *self;
        proof {
            self.lemma_driven_start();
        }
        for i in 0..8usize
            invariant
                self.driven(&start, image_ops(image@, i as nat)),
                i > 0 ==> self.one_row_lit(i - 1),
        {
            let ghost before = *self;
            self.send_row(i, image.row(i));
            proof {
                self.lemma_driven_then(
                    &before,
                    &start,
                    image_ops(image@, i as nat),
                    row_ops(i, image@.subrange(8 * i, 8 * i + 8)),
                );
            }
        }
    }
}

} // verus!
