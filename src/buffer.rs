//! RGBA colors, images held as row-major byte buffers, and single-pixel access.

use vstd::prelude::*;

verus! {

/// An RGBA color with four 8-bit channels.
#[derive(Clone, Copy, Debug, PartialEq, Eq, Structural)]
pub struct Color {
    pub r: u8,
    pub g: u8,
    pub b: u8,
    pub a: u8,
}

impl Color {
    pub fn rgba(r: u8, g: u8, b: u8, a: u8) -> (c: Color)
        ensures
            c == (Color { r, g, b, a }),
    {
        Color { r, g, b, a }
    }
}

/// Channel `c` of a color, in R, G, B, A order.
pub open spec fn channel(color: Color, c: int) -> u8 {
    if c == 0 {
        color.r
    } else if c == 1 {
        color.g
    } else if c == 2 {
        color.b
    } else {
        color.a
    }
}

/// Everything that can go wrong in this library.
#[derive(Clone, Debug, PartialEq, Eq)]
pub enum RasterError {
    /// The placed image does not intersect the canvas at all.
    OutsideCanvas,
    /// The blend mode name (already lowercased) is not one of the known modes.
    InvalidBlendMode(String),
    /// The resize mode name is not one of the known modes.
    InvalidResizeMode(String),
    /// The anchor name is not one of the nine known anchors.
    InvalidPosition(String),
    /// A pixel coordinate lies outside the image.
    PixelOutOfBounds(i32, i32),
    /// Requested dimensions are negative, or too large to hold.
    InvalidDimensions,
}

/// The position in a row-major RGBA buffer of width `w` of channel `c` of pixel `(x, y)`.
pub open spec fn byte_index(w: int, x: int, y: int, c: int) -> int {
    (y * w + x) * 4 + c
}

/// The column of the pixel that byte `k` of a buffer of width `w` belongs to.
pub open spec fn column_of(w: int, k: int) -> int {
    (k / 4) % w
}

/// The row of the pixel that byte `k` of a buffer of width `w` belongs to.
pub open spec fn row_of(w: int, k: int) -> int {
    (k / 4) / w
}

/// The channel that byte `k` of a buffer holds.
pub open spec fn channel_of(k: int) -> int {
    k % 4
}

/// Decoding a byte position gives back the pixel and channel it was built from.
pub proof fn lemma_byte_index(w: int, h: int, x: int, y: int, c: int)
    requires
        0 <= x < w,
        0 <= y < h,
        0 <= c < 4,
    ensures
        0 <= byte_index(w, x, y, c) < w * h * 4,
        channel_of(byte_index(w, x, y, c)) == c,
        column_of(w, byte_index(w, x, y, c)) == x,
        row_of(w, byte_index(w, x, y, c)) == y,
{
    let p = y * w + x;
    let k = p * 4 + c;
    assert(0 <= p < w * h) by (nonlinear_arith)
        requires
            0 <= x < w,
            0 <= y < h,
            p == y * w + x,
    ;
    vstd::arithmetic::div_mod::lemma_fundamental_div_mod_converse(k, 4, p, c);
    vstd::arithmetic::div_mod::lemma_fundamental_div_mod_converse(p, w, y, x);
}

/// Encoding the pixel and channel a byte position decodes to gives the position back.
pub proof fn lemma_decoded_byte_index(w: int, k: int)
    requires
        w > 0,
        k >= 0,
    ensures
        byte_index(w, column_of(w, k), row_of(w, k), channel_of(k)) == k,
        0 <= column_of(w, k) < w,
        0 <= row_of(w, k),
        0 <= channel_of(k) < 4,
{
    vstd::arithmetic::div_mod::lemma_fundamental_div_mod(k, 4);
    vstd::arithmetic::div_mod::lemma_fundamental_div_mod(k / 4, w);
    assert(((k / 4) / w) * w == w * ((k / 4) / w)) by (nonlinear_arith);
    vstd::arithmetic::div_mod::lemma_mod_bound(k / 4, w);
    vstd::arithmetic::div_mod::lemma_div_pos_is_pos(k / 4, w);
}

/// Walking a buffer byte by byte: the byte at `k` is channel `c` of pixel
/// `(cx, cy)`, and the next byte is the next channel, the next pixel of the row,
/// or the first pixel of the next row.
pub proof fn lemma_next_byte(w: int, h: int, cx: int, cy: int, c: int, k: int)
    requires
        0 <= cx < w,
        0 <= cy,
        0 <= c < 4,
        k == byte_index(w, cx, cy, c),
        k < w * h * 4,
    ensures
        cy < h,
        channel_of(k) == c,
        column_of(w, k) == cx,
        row_of(w, k) == cy,
        c < 3 ==> k + 1 == byte_index(w, cx, cy, c + 1),
        c == 3 && cx + 1 < w ==> k + 1 == byte_index(w, cx + 1, cy, 0),
        c == 3 && cx + 1 == w ==> k + 1 == byte_index(w, 0, cy + 1, 0),
{
    if cy >= h {
        assert(k >= w * h * 4) by (nonlinear_arith)
            requires
                cy >= h,
                0 <= cx < w,
                0 <= c,
                k == (cy * w + cx) * 4 + c,
        ;
    }
    lemma_byte_index(w, h, cx, cy, c);
    assert((cy + 1) * w == cy * w + w) by (nonlinear_arith);
}

/// An image: `width` by `height` pixels, stored row-major, four bytes per
/// pixel in R, G, B, A order.
#[derive(Clone, Debug, PartialEq, Eq)]
pub struct Image {
    pub width: i32,
    pub height: i32,
    pub bytes: Vec<u8>,
}

impl Image {
    /// The buffer holds exactly four bytes for each pixel.
    pub open spec fn wf(&self) -> bool {
        &&& self.width >= 0
        &&& self.height >= 0
        &&& self.bytes@.len() == self.width * self.height * 4
    }

    pub open spec fn in_bounds(&self, x: int, y: int) -> bool {
        0 <= x < self.width && 0 <= y < self.height
    }

    /// The color of pixel `(x, y)`.
    pub open spec fn pixel_at(&self, x: int, y: int) -> Color {
        let w = self.width as int;
        Color {
            r: self.bytes@[byte_index(w, x, y, 0)],
            g: self.bytes@[byte_index(w, x, y, 1)],
            b: self.bytes@[byte_index(w, x, y, 2)],
            a: self.bytes@[byte_index(w, x, y, 3)],
        }
    }

    /// A `width` by `height` image whose bytes are all zero.
    pub fn blank(width: i32, height: i32) -> (img: Image)
        requires
            width >= 0,
            height >= 0,
            width * height * 4 <= usize::MAX,
        ensures
            img.wf(),
            img.width == width,
            img.height == height,
            forall|k: int| 0 <= k < img.bytes@.len() ==> img.bytes@[k] == 0u8,
    {
        let len: usize = (width as usize) * (height as usize) * 4;
        let mut bytes: Vec<u8> = Vec::with_capacity(len);
        let mut k: usize = 0;
        while k < len
            invariant
                k <= len,
                bytes@.len() == k,
                forall|j: int| 0 <= j < k ==> bytes@[j] == 0u8,
            decreases len - k,
        {
            bytes.push(0u8);
            k = k + 1;
        }
        Image { width, height, bytes }
    }

    /// Position of the first byte of pixel `(x, y)`, which must lie inside the image.
    fn pixel_offset(&self, x: i32, y: i32) -> (r: usize)
        requires
            self.wf(),
            self.in_bounds(x as int, y as int),
        ensures
            r as int == byte_index(self.width as int, x as int, y as int, 0),
            r as int + 3 < self.bytes@.len(),
    {
        let byte_count: usize = self.bytes.len();
        proof {
            assert(byte_count == self.bytes@.len());
            lemma_byte_index(self.width as int, self.height as int, x as int, y as int, 3);
            assert(0 <= (y as int) * (self.width as int) <= (y as int) * (self.width as int) + x);
        }
        let row: usize = (y as usize) * (self.width as usize);
        (row + (x as usize)) * 4
    }

    /// Reads pixel `(x, y)`.
    pub fn get_pixel(&self, x: i32, y: i32) -> (r: Result<Color, RasterError>)
        requires
            self.wf(),
        ensures
            self.in_bounds(x as int, y as int) ==> r == Ok::<Color, RasterError>(
                self.pixel_at(x as int, y as int),
            ),
            !self.in_bounds(x as int, y as int) ==> r == Err::<Color, RasterError>(
                RasterError::PixelOutOfBounds(x, y),
            ),
    {
        if x < 0 || y < 0 || x >= self.width || y >= self.height {
            return Err(RasterError::PixelOutOfBounds(x, y));
        }
        let i = self.pixel_offset(x, y);
        Ok(Color::rgba(self.bytes[i], self.bytes[i + 1], self.bytes[i + 2], self.bytes[i + 3]))
    }

    /// Writes `color` to pixel `(x, y)`; every other byte stays as it was.
    pub fn set_pixel(&mut self, x: i32, y: i32, color: Color) -> (r: Result<(), RasterError>)
        requires
            old(self).wf(),
        ensures
            final(self).wf(),
            final(self).width == old(self).width,
            final(self).height == old(self).height,
            old(self).in_bounds(x as int, y as int) ==> {
                &&& r == Ok::<(), RasterError>(())
                &&& final(self).bytes@ == old(self).bytes@.update(
                    byte_index(old(self).width as int, x as int, y as int, 0),
                    color.r,
                ).update(byte_index(old(self).width as int, x as int, y as int, 1), color.g).update(
                    byte_index(old(self).width as int, x as int, y as int, 2),
                    color.b,
                ).update(byte_index(old(self).width as int, x as int, y as int, 3), color.a)
            },
            !old(self).in_bounds(x as int, y as int) ==> {
                &&& r == Err::<(), RasterError>(RasterError::PixelOutOfBounds(x, y))
                &&& *final(self) == *old(self)
            },
    {
        if x < 0 || y < 0 || x >= self.width || y >= self.height {
            return Err(RasterError::PixelOutOfBounds(x, y));
        }
        let i = self.pixel_offset(x, y);
        self.bytes.set(i, color.r);
        self.bytes.set(i + 1, color.g);
        self.bytes.set(i + 2, color.b);
        self.bytes.set(i + 3, color.a);
        Ok(())
    }
}

} // verus!
