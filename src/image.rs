//! RGBA pixels and a flat, row-major image buffer with its plain-text image form.
use vstd::prelude::*;

use crate::text::{byte_of_word, decimal, parse_byte, push_decimal, split_white_space, words};

verus! {

/// A 32-bit RGBA pixel.
#[derive(Copy, Clone, Debug, PartialEq, Eq, Structural)]
pub struct Pixel {
    pub red: u8,
    pub green: u8,
    pub blue: u8,
    pub alfa: u8,
}

/// The opaque pixel with the given colour.
pub open spec fn opaque(red: u8, green: u8, blue: u8) -> Pixel {
    Pixel { red, green, blue, alfa: 255 }
}

/// The background pixel: opaque black.
pub open spec fn background() -> Pixel {
    opaque(0, 0, 0)
}

/// Why a text could not be read as a pixel.
#[derive(Copy, Clone, Debug, PartialEq, Eq, Structural)]
pub enum PixelParseError {
    /// A word is not a decimal number in `0..=255`.
    InvalidNumber,
    /// The text holds this many numbers, not three.
    WrongCount(usize),
}

/// The bytes that the words of `s` write, if every word writes one.
pub open spec fn byte_words(s: Seq<char>) -> Option<Seq<u8>> {
    let w = words(s);
    if forall|j: int| 0 <= j < w.len() ==> (#[trigger] parse_byte(w[j])) is Some {
        Some(w.map_values(|t: Seq<char>| parse_byte(t)->0))
    } else {
        None
    }
}

/// What reading the text `s` as a pixel gives.
pub open spec fn pixel_of_text(s: Seq<char>) -> Result<Pixel, PixelParseError> {
    match byte_words(s) {
        None => Err(PixelParseError::InvalidNumber),
        Some(v) => if v.len() == 3 {
            Ok(opaque(v[0], v[1], v[2]))
        } else {
            Err(PixelParseError::WrongCount(v.len() as usize))
        },
    }
}

/// The text of a pixel in the plain format: ` red green blue `.
pub open spec fn pixel_text(p: Pixel) -> Seq<char> {
    seq![' '] + decimal(p.red as nat) + seq![' '] + decimal(p.green as nat) + seq![' ']
        + decimal(p.blue as nat) + seq![' ']
}

impl Pixel {
    /// Creates an opaque pixel with the given red, green and blue.
    pub fn new(red: u8, green: u8, blue: u8) -> (r: Self)
        ensures
            r == opaque(red, green, blue),
    {
        Self { red, green, blue, alfa: 255 }
    }

    /// Creates an opaque pixel from a `(red, green, blue)` triple.
    pub fn from_rgb_tuple(rgb: (u8, u8, u8)) -> (r: Self)
        ensures
            r == opaque(rgb.0, rgb.1, rgb.2),
    {
        let (red, green, blue) = rgb;
        Self::new(red, green, blue)
    }

    /// Reads a pixel from three white-space separated numbers in `0..=255`.
    ///
    /// White space may lead, trail and repeat between the numbers.
    pub fn from_string(rgb: &str) -> (r: Result<Self, PixelParseError>)
        ensures
            r == pixel_of_text(rgb@),
    {
        let toks = split_white_space(rgb);
        let ghost w = words(rgb@);
        let mut values: Vec<u8> = Vec::new();
        let mut j: usize = 0;
        while j < toks.len()
            invariant
                toks.len() == w.len(),
                w == words(rgb@),
                forall|k: int| 0 <= k < toks.len() ==> #[trigger] toks[k]@ == w[k],
                j <= toks.len(),
                values.len() == j,
                forall|k: int| 0 <= k < j ==> (#[trigger] parse_byte(w[k])) == Some(values[k]),
            decreases toks.len() - j,
        {
            match byte_of_word(&toks[j]) {
                Some(b) => {
                    values.push(b);
                },
                None => {
                    assert(parse_byte(w[j as int]) is None);
                    return Err(PixelParseError::InvalidNumber);
                },
            }
            j = j + 1;
        }
        let ghost v = w.map_values(|t: Seq<char>| parse_byte(t)->0);
        assert(byte_words(rgb@) == Some(v));
        assert(values@ =~= v);
        if values.len() == 3 {
            Ok(Pixel::new(values[0], values[1], values[2]))
        } else {
            Err(PixelParseError::WrongCount(values.len()))
        }
    }

    /// The pixel in the plain format: ` red green blue `; alpha is not written.
    pub fn plain_ppm_pixel_format(&self) -> (r: String)
        ensures
            r@ == pixel_text(*self),
    {
        let mut out = String::new();
        out.append(" ");
        push_decimal(&mut out, self.red as usize);
        out.append(" ");
        push_decimal(&mut out, self.green as usize);
        out.append(" ");
        push_decimal(&mut out, self.blue as usize);
        out.append(" ");
        proof {
            reveal_strlit(" ");
        }
        assert(out@ =~= pixel_text(*self));
        out
    }
}

impl Default for Pixel {
    /// Opaque black.
    fn default() -> (r: Self)
        ensures
            r == background(),
    {
        Self::new(0, 0, 0)
    }
}

/// A pixel buffer of `n` background pixels.
pub open spec fn blank(n: nat) -> Seq<Pixel> {
    Seq::new(n, |i: int| background())
}

pub open spec fn with_red(p: Pixel, value: u8) -> Pixel {
    Pixel { red: value, ..p }
}

pub open spec fn with_green(p: Pixel, value: u8) -> Pixel {
    Pixel { green: value, ..p }
}

pub open spec fn with_blue(p: Pixel, value: u8) -> Pixel {
    Pixel { blue: value, ..p }
}

/// How many pixels the plain format puts on one line: the widest pixel text,
/// ` 255 255 255 `, is 13 characters long, and five of them fit in 70.
pub const PIXELS_PER_LINE: usize = 5;

/// The header of the plain format: magic number, size and largest channel value.
pub open spec fn ppm_header(width: nat, height: nat) -> Seq<char> {
    seq!['P', '3', '\n'] + decimal(width) + seq![' '] + decimal(height) + seq!['\n', '2', '5', '5', '\n']
}

/// The pixels in the plain format, a line break after each fifth pixel.
pub open spec fn ppm_body(px: Seq<Pixel>) -> Seq<char>
    decreases px.len(),
{
    if px.len() == 0 {
        Seq::empty()
    } else {
        ppm_body(px.drop_last()) + pixel_text(px.last()) + if (px.len() - 1) % (PIXELS_PER_LINE as int)
            == PIXELS_PER_LINE - 1 {
            seq!['\n']
        } else {
            Seq::empty()
        }
    }
}

/// A two-dimensional image: `width * height` pixels, row by row, the pixel at
/// column `x` and row `y` at index `x + y * width`.
pub struct Image {
    pub width: usize,
    pub height: usize,
    buffer: Vec<Pixel>,
}

/// What an image is: its size and its pixels, row by row.
pub ghost struct ImageModel {
    pub width: nat,
    pub height: nat,
    pub pixels: Seq<Pixel>,
}

impl ImageModel {
    /// The buffer holds one pixel for each column of each row.
    pub open spec fn wf(self) -> bool {
        self.pixels.len() == self.width * self.height
    }

    /// The image in the plain text format.
    pub open spec fn ppm_text(self) -> Seq<char> {
        ppm_header(self.width, self.height) + ppm_body(self.pixels)
    }
}

impl View for Image {
    type V = ImageModel;

    closed spec fn view(&self) -> ImageModel {
        ImageModel { width: self.width as nat, height: self.height as nat, pixels: self.buffer@ }
    }
}

impl Image {
    /// The pixels, row by row.
    pub open spec fn pixels(&self) -> Seq<Pixel> {
        self@.pixels
    }

    pub open spec fn wf(&self) -> bool {
        self@.wf()
    }

    /// Creates an image of the given size, every pixel opaque black.
    pub fn new(width: usize, height: usize) -> (r: Self)
        requires
            width * height <= usize::MAX,
        ensures
            r.wf(),
            r@.width == width,
            r@.height == height,
            r.pixels() == blank((width * height) as nat),
    {
        let n = width * height;
        let mut buffer: Vec<Pixel> = Vec::new();
        while buffer.len() < n
            invariant
                buffer.len() <= n,
                buffer@ == blank(buffer.len() as nat),
            decreases n - buffer.len(),
        {
            buffer.push(Pixel::default());
            assert(buffer@ =~= blank(buffer.len() as nat));
        }
        Self { width, height, buffer }
    }

    /// Sets the red channel of the pixel at `index`.
    pub fn set_red(&mut self, index: u64, value: u8)
        requires
            index < old(self).pixels().len(),
        ensures
            final(self)@.width == old(self)@.width,
            final(self)@.height == old(self)@.height,
            final(self).pixels() == old(self).pixels().update(
                index as int,
                with_red(old(self).pixels()[index as int], value),
            ),
    {
        let i = index as usize;
        let mut p = self.buffer[i];
        p.red = value;
        self.buffer.set(i, p);
    }

    /// Sets the green channel of the pixel at `index`.
    pub fn set_green(&mut self, index: u64, value: u8)
        requires
            index < old(self).pixels().len(),
        ensures
            final(self)@.width == old(self)@.width,
            final(self)@.height == old(self)@.height,
            final(self).pixels() == old(self).pixels().update(
                index as int,
                with_green(old(self).pixels()[index as int], value),
            ),
    {
        let i = index as usize;
        let mut p = self.buffer[i];
        p.green = value;
        self.buffer.set(i, p);
    }

    /// Sets the blue channel of the pixel at `index`.
    pub fn set_blue(&mut self, index: u64, value: u8)
        requires
            index < old(self).pixels().len(),
        ensures
            final(self)@.width == old(self)@.width,
            final(self)@.height == old(self)@.height,
            final(self).pixels() == old(self).pixels().update(
                index as int,
                with_blue(old(self).pixels()[index as int], value),
            ),
    {
        let i = index as usize;
        let mut p = self.buffer[i];
        p.blue = value;
        self.buffer.set(i, p);
    }

    /// Replaces the pixel at `index`.
    pub fn set_pixel(&mut self, index: usize, pixel: Pixel)
        requires
            index < old(self).pixels().len(),
        ensures
            final(self)@.width == old(self)@.width,
            final(self)@.height == old(self)@.height,
            final(self).pixels() == old(self).pixels().update(index as int, pixel),
    {
        self.buffer.set(index, pixel);
    }

    /// The image in the plain text format: the magic number, `width height` and
    /// `255`, each on a line of its own, then ` red green blue ` for each
    /// pixel, five pixels to a line.
    pub fn plain_ppm_format(&self) -> (r: String)
        ensures
            r@ == self@.ppm_text(),
    {
        proof {
            reveal_strlit("P3\n");
            reveal_strlit(" ");
            reveal_strlit("\n255\n");
        }
        let mut out = String::new();
        out.append("P3\n");
        push_decimal(&mut out, self.width);
        out.append(" ");
        push_decimal(&mut out, self.height);
        out.append("\n255\n");
        let ghost header = out@;
        assert(header =~= ppm_header(self.width as nat, self.height as nat));
        let mut i: usize = 0;
        while i < self.buffer.len()
            invariant
                i <= self.buffer.len(),
                header == ppm_header(self.width as nat, self.height as nat),
                out@ == header + ppm_body(self.buffer@.take(i as int)),
            decreases self.buffer.len() - i,
        {
            let ghost before = out@;
            let text = self.buffer[i].plain_ppm_pixel_format();
            out.append(text.as_str());
            if i % PIXELS_PER_LINE == PIXELS_PER_LINE - 1 {
                out.append("\n");
                proof {
                    reveal_strlit("\n");
                }
                assert(out@ == before + pixel_text(self.buffer@[i as int]) + seq!['\n']);
            }
            let ghost next = self.buffer@.take(i + 1);
            assert(next.drop_last() =~= self.buffer@.take(i as int));
            assert(next.last() == self.buffer@[i as int]);
            assert(out@ =~= header + ppm_body(self.buffer@.take(i + 1)));
            i = i + 1;
        }
        assert(self.buffer@.take(i as int) =~= self.buffer@);
        out
    }

    /// The pixels, row by row, for reading only.
    pub fn raw_pixels(&self) -> (r: &[Pixel])
        ensures
            r@ == self.pixels(),
    {
        self.buffer.as_slice()
    }

    /// Sets every pixel back to opaque black.
    pub fn clear_buffer(&mut self)
        ensures
            final(self)@.width == old(self)@.width,
            final(self)@.height == old(self)@.height,
            final(self).pixels() == blank(old(self).pixels().len()),
    {
        let mut i: usize = 0;
        while i < self.buffer.len()
            invariant
                i <= self.buffer.len(),
                self.buffer.len() == old(self).pixels().len(),
                self.width == old(self).width,
                self.height == old(self).height,
                forall|k: int| 0 <= k < i ==> #[trigger] self.buffer@[k] == background(),
            decreases self.buffer.len() - i,
        {
            self.buffer.set(i, Pixel::default());
            i = i + 1;
        }
        assert(self.buffer@ =~= blank(old(self).pixels().len()));
    }
}

} // verus!
