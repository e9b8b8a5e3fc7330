//! Colours and 8×8 frames.
//!
//! A frame always has its 64 pixels: a frame under construction is tracked
//! by the receiver's cursor, not by the frame's shape. Channels are stored
//! linear; gamma correction happens when a channel is sent to the panel.

use vstd::prelude::*;
use crate::gamma::{gamma, gamma_correct};

verus! {

/// One pixel: three linear 8-bit channels.
#[derive(Copy, Clone, Debug, PartialEq, Eq, Structural)]
pub struct Color {
    pub r: u8,
    pub g: u8,
    pub b: u8,
}

impl Default for Color {
    /// Black.
    fn default() -> (color: Color)
        ensures
            color == rgb(0, 0, 0),
    {
        Color { r: 0, g: 0, b: 0 }
    }
}

/// The colour with channels `r`, `g` and `b`.
pub open spec fn rgb(r: u8, g: u8, b: u8) -> Color {
    Color { r, g, b }
}

/// Clamps a wide channel value into the 8-bit range of a colour channel.
pub fn range_dealer(x: usize) -> (channel: u8)
    ensures
        channel as int == saturated(x as int),
{
    if x <= 255 {
        x as u8
    } else {
        255
    }
}

/// `x` limited to what a channel can hold.
pub open spec fn saturated(x: int) -> int {
    if x <= 255 {
        x
    } else {
        255
    }
}

/// A channel multiplied by `factor`, saturating at full intensity.
pub open spec fn channel_times(c: u8, factor: int) -> u8 {
    saturated(c * factor) as u8
}

/// A channel divided by `divisor`, rounded towards zero. Dividing by zero
/// saturates: a lit channel becomes fully lit, a dark one stays dark.
pub open spec fn channel_divided_by(c: u8, divisor: int) -> u8 {
    if divisor == 0 {
        if c == 0 {
            0u8
        } else {
            255u8
        }
    } else {
        (c as int / divisor) as u8
    }
}

fn scale_channel(c: u8, factor: usize) -> (scaled: u8)
    ensures
        scaled == channel_times(c, factor as int),
{
    if factor > 255 {
        assert(c != 0 ==> c * factor > 255) by (nonlinear_arith)
            requires
                factor > 255,
                c >= 0,
        ;
        assert(c == 0 ==> c * factor == 0) by (nonlinear_arith);
        if c == 0 {
            0
        } else {
            255
        }
    } else {
        assert(c * factor <= 255 * 255) by (nonlinear_arith)
            requires
                0 <= factor <= 255,
                0 <= c <= 255,
        ;
        range_dealer(c as usize * factor)
    }
}

fn divide_channel(c: u8, divisor: usize) -> (quotient: u8)
    ensures
        quotient == channel_divided_by(c, divisor as int),
{
    if divisor == 0 {
        if c == 0 {
            0
        } else {
            255
        }
    } else {
        let q: usize = c as usize / divisor;
        assert(q <= c) by (nonlinear_arith)
            requires
                q == c as int / divisor as int,
                divisor > 0,
                c >= 0,
        ;
        q as u8
    }
}

impl Color {
    /// The colour with the given channels.
    pub fn new(r: u8, g: u8, b: u8) -> (color: Color)
        ensures
            color == rgb(r, g, b),
    {
        Color { r, g, b }
    }

    /// No light at all.
    pub fn black() -> (color: Color)
        ensures
            color == rgb(0, 0, 0),
    {
        Color { r: 0, g: 0, b: 0 }
    }

    /// Full red.
    pub fn red() -> (color: Color)
        ensures
            color == rgb(255, 0, 0),
    {
        Color { r: 255, g: 0, b: 0 }
    }

    /// Full green.
    pub fn green() -> (color: Color)
        ensures
            color == rgb(0, 255, 0),
    {
        Color { r: 0, g: 255, b: 0 }
    }

    /// Full blue.
    pub fn blue() -> (color: Color)
        ensures
            color == rgb(0, 0, 255),
    {
        Color { r: 0, g: 0, b: 255 }
    }

    /// This colour with every channel gamma-corrected.
    pub open spec fn corrected(self) -> Color {
        Color { r: gamma(self.r), g: gamma(self.g), b: gamma(self.b) }
    }

    /// This colour with every channel multiplied by `factor`, saturating.
    pub open spec fn scaled(self, factor: int) -> Color {
        Color {
            r: channel_times(self.r, factor),
            g: channel_times(self.g, factor),
            b: channel_times(self.b, factor),
        }
    }

    /// This colour with every channel divided by `divisor`.
    pub open spec fn shared_out(self, divisor: int) -> Color {
        Color {
            r: channel_divided_by(self.r, divisor),
            g: channel_divided_by(self.g, divisor),
            b: channel_divided_by(self.b, divisor),
        }
    }

    /// Channel `k` of the colour in wire order: 0 red, 1 green, 2 blue.
    pub open spec fn channel(self, k: int) -> u8 {
        if k == 0 {
            self.r
        } else if k == 1 {
            self.g
        } else {
            self.b
        }
    }

    /// Gamma-corrects the three channels.
    pub fn gamma_correct(&self) -> (out: Color)
        ensures
            out == self.corrected(),
    {
        Color { r: gamma_correct(self.r), g: gamma_correct(self.g), b: gamma_correct(self.b) }
    }

    /// Multiplies the three channels by `factor`, saturating at 255.
    pub fn times(self, factor: usize) -> (out: Color)
        ensures
            out == self.scaled(factor as int),
    {
        Color {
            r: scale_channel(self.r, factor),
            g: scale_channel(self.g, factor),
            b: scale_channel(self.b, factor),
        }
    }

    /// Divides the three channels by `divisor`, rounding towards zero.
    pub fn divided_by(self, divisor: usize) -> (out: Color)
        ensures
            out == self.shared_out(divisor as int),
    {
        Color {
            r: divide_channel(self.r, divisor),
            g: divide_channel(self.g, divisor),
            b: divide_channel(self.b, divisor),
        }
    }
}

/// A frame: 64 pixels, row-major, always complete.
pub struct Image(pub [Color; 64]);

impl View for Image {
    type V = Seq<Color>;

    /// The 64 pixels, row after row.
    open spec fn view(&self) -> Seq<Color> {
        self.0@
    }
}

/// The pixels that 192 bytes spell out: three bytes each, red first.
pub open spec fn pixels_of(bytes: Seq<u8>) -> Seq<Color> {
    Seq::new(64, |i: int| rgb(bytes[3 * i], bytes[3 * i + 1], bytes[3 * i + 2]))
}

/// The 192 bytes that spell out 64 pixels: per pixel red, green, blue.
pub open spec fn bytes_of(pixels: Seq<Color>) -> Seq<u8> {
    Seq::new(192, |i: int| pixels[i / 3].channel(i % 3))
}

/// The all-black frame.
pub open spec fn blank() -> Seq<Color> {
    Seq::new(64, |i: int| rgb(0, 0, 0))
}

/// Pixels and bytes are two spellings of one frame: going from 64 pixels to
/// bytes and back gives the pixels again.
pub proof fn lemma_pixels_of_bytes_of(pixels: Seq<Color>)
    requires
        pixels.len() == 64,
    ensures
        pixels_of(bytes_of(pixels)) == pixels,
{
    assert(pixels_of(bytes_of(pixels)) =~= pixels);
}

/// Going from 192 bytes to pixels and back gives the bytes again.
pub proof fn lemma_bytes_of_pixels_of(bytes: Seq<u8>)
    requires
        bytes.len() == 192,
    ensures
        bytes_of(pixels_of(bytes)) == bytes,
{
    assert(bytes_of(pixels_of(bytes)) =~= bytes);
}

/// Whether pixel coordinates lie on the panel.
pub open spec fn on_panel(x: int, y: int) -> bool {
    0 <= x < 8 && 0 <= y < 8
}

impl Default for Image {
    /// The all-black frame.
    fn default() -> (image: Image)
        ensures
            image@ == blank(),
    {
        let image = Image::new_solid(Color::black());
        assert(image@ =~= blank());
        image
    }
}

impl Image {
    /// The frame as 192 bytes: per pixel red, green, blue.
    pub open spec fn bytes(&self) -> Seq<u8> {
        bytes_of(self@)
    }

    /// A frame with every pixel set to `color`.
    pub fn new_solid(color: Color) -> (image: Image)
        ensures
            image@ == Seq::new(64, |i: int| color),
    {
        let image = Image([color;64]);
        assert(image@ =~= Seq::new(64, |i: int| color));
        image
    }

    /// The eight pixels of row `row`, left to right.
    pub fn row(&self, row: usize) -> (pixels: &[Color])
        requires
            row < 8,
        ensures
            pixels@ == self@.subrange(8 * row, 8 * row + 8),
    {
        vstd::slice::slice_subrange(self.0.as_slice(), 8 * row, 8 * (row + 1))
    }

    /// A frame that fades `color` away from the top-left corner: the pixel
    /// in row `i`, column `j` is `color` divided by `1 + i * i + j`.
    pub fn gradient(color: Color) -> (image: Image)
        ensures
            forall|i: int, j: int|
                0 <= i < 8 && 0 <= j < 8 ==> #[trigger] image@[8 * i + j] == color.shared_out(
                    1 + i * i + j,
                ),
    {
        let mut grad = Image::new_solid(color);
        for i in 0..8usize
            invariant
                forall|r: int, c: int|
                    0 <= r < i && 0 <= c < 8 ==> #[trigger] grad@[8 * r + c] == color.shared_out(
                        1 + r * r + c,
                    ),
        {
            for j in 0..8usize
                invariant
                    i < 8,
                    forall|r: int, c: int|
                        0 <= r < i && 0 <= c < 8 ==> #[trigger] grad@[8 * r + c]
                            == color.shared_out(1 + r * r + c),
                    forall|c: int|
                        0 <= c < j ==> #[trigger] grad@[8 * i + c] == color.shared_out(
                            1 + i * i + c,
                        ),
            {
                assert(i * i <= 49) by (nonlinear_arith)
                    requires
                        0 <= i < 8,
                ;
                grad.set_pixel(i, j, color.divided_by(1 + i * i + j));
            }
        }
        grad
    }

    /// The pixel in row `row`, column `col`.
    pub fn pixel(&self, row: usize, col: usize) -> (color: &Color)
        requires
            8 * row + col < 64,
        ensures
            *color == self@[8 * row + col],
    {
        &self.0[8 * row + col]
    }

    /// Replaces the pixel in row `row`, column `col`.
    pub fn set_pixel(&mut self, row: usize, col: usize, color: Color)
        requires
            8 * row + col < 64,
        ensures
            final(self)@ == old(self)@.update(8 * row + col, color),
    {
        self.0[8 * row + col] = color;
    }

    /// Byte `pos` of the frame in wire order.
    pub fn byte(&self, pos: usize) -> (value: u8)
        requires
            pos < 192,
        ensures
            value == self.bytes()[pos as int],
    {
        let color: &Color = &self.0[pos / 3];
        let k: usize = pos % 3;
        if k == 0 {
            color.r
        } else if k == 1 {
            color.g
        } else {
            color.b
        }
    }

    /// Overwrites byte `pos` of the frame in wire order; every other byte
    /// stays as it was.
    pub fn set_byte(&mut self, pos: usize, value: u8)
        requires
            pos < 192,
        ensures
            final(self).bytes() == old(self).bytes().update(pos as int, value),
        no_unwind
    {
        let k: usize = pos % 3;
        let mut color: Color = self.0[pos / 3];
        if k == 0 {
            color.r = value;
        } else if k == 1 {
            color.g = value;
        } else {
            color.b = value;
        }
        self.0[pos / 3] = color;
        assert(self.bytes() =~= old(self).bytes().update(pos as int, value));
    }

    /// The frame as 192 bytes in wire order.
    pub fn to_bytes(&self) -> (bytes: [u8; 192])
        ensures
            bytes@ == self.bytes(),
    {
        let mut bytes: [u8; 192] = [0u8;192];
        for pos in 0..192usize
            invariant
                forall|k: int| 0 <= k < pos ==> bytes@[k] == self.bytes()[k],
        {
            bytes[pos] = self.byte(pos);
        }
        assert(bytes@ =~= self.bytes());
        bytes
    }

    /// The frame that 192 bytes in wire order spell out.
    pub fn from_bytes(bytes: &[u8; 192]) -> (image: Image)
        ensures
            image@ == pixels_of(bytes@),
            image.bytes() == bytes@,
    {
        let mut image = Image::new_solid(Color::black());
        for i in 0..64usize
            invariant
                forall|k: int| 0 <= k < i ==> image@[k] == pixels_of(bytes@)[k],
        {
            let color = Color { r: bytes[3 * i], g: bytes[3 * i + 1], b: bytes[3 * i + 2] };
            assert(color == pixels_of(bytes@)[i as int]);
            let ghost before = image@;
            image.0[i] = color;
            assert(image@ == before.update(i as int, color));
        }
        assert(image@ =~= pixels_of(bytes@));
        assert(image.bytes() =~= bytes@);
        image
    }

    /// Sets the pixel at column `x`, row `y` to `color` when the point lies
    /// on the panel; a point outside it is ignored.
    pub fn draw_pixel(&mut self, x: i32, y: i32, color: Color)
        ensures
            on_panel(x as int, y as int) ==> final(self)@ == old(self)@.update(x + 8 * y, color),
            !on_panel(x as int, y as int) ==> final(self)@ == old(self)@,
    {
        if x >= 0 && x < 8 && y >= 0 && y < 8 {
            let index: usize = (x + y * 8) as usize;
            self.set_pixel(0, index, color);
        }
    }
}

} // verus!
