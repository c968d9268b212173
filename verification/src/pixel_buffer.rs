//! The output buffer of a render: a rectangle of colours, one per pixel.

use vstd::prelude::*;
use vstd::arithmetic::div_mod::{
    lemma_div_pos_is_pos, lemma_fundamental_div_mod, lemma_fundamental_div_mod_converse_div,
    lemma_fundamental_div_mod_converse_mod, lemma_mod_bound, lemma_multiply_divide_lt,
};

verus! {

/// A colour as it is stored in the output: one byte per channel.
#[derive(Clone, Copy, Debug, PartialEq, Eq, Structural)]
pub struct Rgb {
    pub r: u8,
    pub g: u8,
    pub b: u8,
}

/// The mathematical content of a pixel buffer: its resolution and its
/// colours, row by row.
pub struct Frame {
    pub width: nat,
    pub height: nat,
    pub pixels: Seq<Rgb>,
}

impl Frame {
    /// There is one colour for each pixel.
    pub open spec fn wf(self) -> bool {
        self.pixels.len() == self.width * self.height
    }

    /// Whether `(x, y)` names a pixel of the frame.
    pub open spec fn contains(self, x: int, y: int) -> bool {
        0 <= x < self.width && 0 <= y < self.height
    }

    /// The colour of pixel `(x, y)`.
    pub open spec fn at(self, x: int, y: int) -> Rgb {
        self.pixels[y * self.width + x]
    }

    /// The frame with pixel `(x, y)` replaced by `colour`.
    pub open spec fn set(self, x: int, y: int, colour: Rgb) -> Frame {
        Frame { pixels: self.pixels.update(y * self.width + x, colour), ..self }
    }

    /// The colours as raw bytes: three for each pixel, red, green and blue,
    /// row by row.
    pub open spec fn bytes(self) -> Seq<u8> {
        Seq::new(
            3 * self.pixels.len(),
            |i: int|
                if i % 3 == 0 {
                    self.pixels[i / 3].r
                } else if i % 3 == 1 {
                    self.pixels[i / 3].g
                } else {
                    self.pixels[i / 3].b
                },
        )
    }
}

/// The colour every pixel has until it is written.
pub open spec fn background() -> Rgb {
    Rgb { r: 0, g: 0, b: 0 }
}

/// The place of a pixel among the colours of a frame lies inside the frame,
/// and the pixel can be read back from it.
pub proof fn place_of_pixel(width: nat, height: nat, x: int, y: int)
    requires
        0 <= x < width,
        0 <= y < height,
    ensures
        0 <= y * width + x < width * height,
        (y * width + x) % (width as int) == x,
        (y * width + x) / (width as int) == y,
{
    assert(0 <= y * width && y * width + x < width * height) by (nonlinear_arith)
        requires
            0 <= x < width,
            0 <= y < height,
    ;
    lemma_fundamental_div_mod_converse_mod(y * width + x, width as int, y, x);
    lemma_fundamental_div_mod_converse_div(y * width + x, width as int, y, x);
}

/// Every place among the colours of a frame is the place of one pixel.
pub proof fn pixel_of_place(width: nat, height: nat, k: int)
    requires
        0 <= k < width * height,
    ensures
        0 <= k % (width as int) < width,
        0 <= k / (width as int) < height,
        (k / (width as int)) * width + k % (width as int) == k,
{
    assert(width > 0) by (nonlinear_arith)
        requires
            0 <= k < width * height,
    ;
    lemma_fundamental_div_mod(k, width as int);
    lemma_mod_bound(k, width as int);
    lemma_div_pos_is_pos(k, width as int);
    lemma_multiply_divide_lt(k, width as int, height as int);
    assert((k / (width as int)) * width == width * (k / (width as int))) by (nonlinear_arith);
}

/// A rectangle of colours, stored row by row.
pub struct PixelBuffer {
    width: u32,
    height: u32,
    pixels: Vec<Rgb>,
}

impl View for PixelBuffer {
    type V = Frame;

    closed spec fn view(&self) -> Frame {
        Frame { width: self.width as nat, height: self.height as nat, pixels: self.pixels@ }
    }
}

impl PixelBuffer {
    /// Holds of every pixel buffer: it has one colour for each pixel, and
    /// its colours take no more bytes than one allocation can hold.
    #[verifier::type_invariant]
    pub open spec fn wf(&self) -> bool {
        self@.wf() && 3 * self@.pixels.len() <= isize::MAX
    }

    /// A buffer of the given resolution with every pixel at the background
    /// colour, unless its colours would take more bytes than one allocation
    /// can hold.
    pub fn new(width: u32, height: u32) -> (buffer: Option<PixelBuffer>)
        ensures
            buffer is Some <==> 3 * (width * height) <= isize::MAX,
            buffer matches Some(b) ==> {
                &&& b@.wf()
                &&& b@.width == width
                &&& b@.height == height
                &&& forall|k: int| 0 <= k < b@.pixels.len() ==> b@.pixels[k] == background()
            },
    {
        assert(width * height <= u64::MAX) by (nonlinear_arith)
            requires
                width <= u32::MAX,
                height <= u32::MAX,
        ;
        let count: u64 = (width as u64) * (height as u64);
        if count > (isize::MAX / 3) as u64 {
            return None;
        }
        let pixels = vec![Rgb { r: 0, g: 0, b: 0 }; count as usize];
        Some(PixelBuffer { width, height, pixels })
    }

    /// The number of pixels in a row.
    pub fn width(&self) -> (width: u32)
        ensures
            width == self@.width,
    {
        self.width
    }

    /// The number of rows.
    pub fn height(&self) -> (height: u32)
        ensures
            height == self@.height,
    {
        self.height
    }

    /// The colour of pixel `(x, y)`, or `None` where the frame has no such
    /// pixel.
    pub fn pixel(&self, x: u32, y: u32) -> (colour: Option<Rgb>)
        ensures
            colour == if self@.contains(x as int, y as int) {
                Some(self@.at(x as int, y as int))
            } else {
                None
            },
    {
        if x >= self.width || y >= self.height {
            return None;
        }
        proof {
            use_type_invariant(self);
            place_of_pixel(self.width as nat, self.height as nat, x as int, y as int);
            assert(self.pixels.len() == self.width * self.height);
        }
        Some(self.pixels[y as usize * self.width as usize + x as usize])
    }

    /// The colours as raw bytes, as an image encoder takes them.
    pub fn to_bytes(&self) -> (bytes: Vec<u8>)
        ensures
            bytes@ == self@.bytes(),
    {
        let mut bytes: Vec<u8> = Vec::new();
        let mut index: usize = 0;
        while index < self.pixels.len()
            invariant
                index <= self.pixels.len(),
                bytes@.len() == 3 * index,
                forall|i: int| 0 <= i < bytes@.len() ==> bytes@[i] == self@.bytes()[i],
            decreases self.pixels.len() - index,
        {
            let colour = self.pixels[index];
            bytes.push(colour.r);
            bytes.push(colour.g);
            bytes.push(colour.b);
            index = index + 1;
        }
        assert(bytes@ =~= self@.bytes());
        bytes
    }

    /// Writes `colour` to pixel `(x, y)` and leaves every other pixel as it
    /// is. Where the frame has no such pixel, nothing is written.
    pub fn set_pixel(&mut self, x: u32, y: u32, colour: Rgb)
        ensures
            final(self)@ == if old(self)@.contains(x as int, y as int) {
                old(self)@.set(x as int, y as int, colour)
            } else {
                old(self)@
            },
    {
        if x >= self.width || y >= self.height {
            return ;
        }
        proof {
            use_type_invariant(&*self);
            place_of_pixel(self.width as nat, self.height as nat, x as int, y as int);
            assert(self.pixels.len() == self.width * self.height);
        }
        let index = y as usize * self.width as usize + x as usize;
        self.pixels[index] = colour;
    }
}

} // verus!
