//! The software framebuffer.

use vstd::prelude::*;

use crate::text;

verus! {

/// The byte order of a pixel.
#[derive(Debug, Clone, Copy, PartialEq, Eq, Structural)]
pub enum SurfacePixelFormat {
    Rgba8,
    Bgra8,
}

impl SurfacePixelFormat {
    pub fn bytes_per_pixel(self) -> (r: usize)
        ensures
            r == 4,
    {
        4
    }
}

#[derive(Debug, Clone, Copy, PartialEq, Eq, Structural)]
pub enum SoftRenderError {
    /// The dimensions cannot be represented by the backing buffer.
    DimensionsTooLarge { width: u32, height: u32 },
}

impl SoftRenderError {
    /// The sentence shown to people.
    pub fn to_text(&self) -> (r: String)
        ensures
            ({
                let SoftRenderError::DimensionsTooLarge { width, height } = *self;
                r@ == "software framebuffer dimensions are too large: "@ + text::decimal(width as nat)
                    + "x"@ + text::decimal(height as nat)
            }),
    {
        match self {
            SoftRenderError::DimensionsTooLarge { width, height } => {
                let w = text::decimal_string(*width as u64);
                let h = text::decimal_string(*height as u64);
                let head = text::join3(
                    "software framebuffer dimensions are too large: ",
                    w.as_str(),
                    "x",
                );
                text::join2(head.as_str(), h.as_str())
            },
        }
    }
}

/// Who owns the pixels: the framebuffer, or the host that lent them.
#[derive(Debug)]
pub enum SoftPixelStorage {
    Owned(Vec<u8>),
    Lent(Vec<u8>),
}

impl SoftPixelStorage {
    pub open spec fn view(&self) -> Seq<u8> {
        match *self {
            SoftPixelStorage::Owned(bytes) => bytes@,
            SoftPixelStorage::Lent(bytes) => bytes@,
        }
    }
}

/// A platform-independent framebuffer with tightly packed rows.
#[derive(Debug)]
pub struct SoftFramebuffer {
    pub width: u32,
    pub height: u32,
    pub stride: usize,
    pub format: SurfacePixelFormat,
    pub pixels: SoftPixelStorage,
}

/// Bytes per row and bytes in all; `None` when they cannot be addressed.
pub open spec fn layout_of(width: u32, height: u32) -> Option<(int, int)> {
    if 4 * width > usize::MAX || 4 * width * height > usize::MAX {
        None
    } else {
        Some((4 * width, 4 * width * height))
    }
}

fn layout(width: u32, height: u32, format: SurfacePixelFormat) -> (r: Result<
    (usize, usize),
    SoftRenderError,
>)
    ensures
        match r {
            Ok(v) => layout_of(width, height) == Some((v.0 as int, v.1 as int)),
            Err(e) => layout_of(width, height) is None && e
                == (SoftRenderError::DimensionsTooLarge { width, height }),
        },
{
    let stride: usize = match (width as usize).checked_mul(format.bytes_per_pixel()) {
        Some(v) => v,
        None => return Err(SoftRenderError::DimensionsTooLarge { width, height }),
    };
    match stride.checked_mul(height as usize) {
        Some(len) => Ok((stride, len)),
        None => Err(SoftRenderError::DimensionsTooLarge { width, height }),
    }
}

/// The bytes of a pixel in the given order.
pub open spec fn pixel_of(format: SurfacePixelFormat, r: u8, g: u8, b: u8, a: u8) -> Seq<u8> {
    match format {
        SurfacePixelFormat::Rgba8 => seq![r, g, b, a],
        SurfacePixelFormat::Bgra8 => seq![b, g, r, a],
    }
}

impl SoftFramebuffer {
    pub open spec fn wf(&self) -> bool {
        layout_of(self.width, self.height) == Some((self.stride as int, self.pixels@.len() as int))
    }

    /// Whether a framebuffer of this size can be addressed.
    pub fn layout_exists(width: u32, height: u32, format: SurfacePixelFormat) -> (r: bool)
        ensures
            r == (layout_of(width, height) is Some),
    {
        match layout(width, height, format) {
            Ok(_) => true,
            Err(_) => false,
        }
    }

    /// A new framebuffer, all of it transparent black.
    pub fn new(width: u32, height: u32, format: SurfacePixelFormat) -> (r: Result<Self, SoftRenderError>)
        ensures
            match r {
                Ok(f) => {
                    &&& f.wf()
                    &&& f.width == width && f.height == height && f.format == format
                    &&& f.pixels is Owned
                    &&& forall|i: int| 0 <= i < f.pixels@.len() ==> f.pixels@[i] == 0
                },
                Err(e) => layout_of(width, height) is None && e
                    == (SoftRenderError::DimensionsTooLarge { width, height }),
            },
    {
        match layout(width, height, format) {
            Ok((stride, len)) => Ok(
                SoftFramebuffer {
                    width,
                    height,
                    stride,
                    format,
                    pixels: SoftPixelStorage::Owned(vec![0u8; len]),
                },
            ),
            Err(e) => Err(e),
        }
    }

    /// Takes over an allocation of exactly the right size.
    pub fn from_pixels(width: u32, height: u32, format: SurfacePixelFormat, pixels: Vec<u8>) -> (r: Result<
        Self,
        SoftRenderError,
    >)
        ensures
            match r {
                Ok(f) => {
                    &&& f.wf()
                    &&& f.width == width && f.height == height && f.format == format
                    &&& f.pixels == SoftPixelStorage::Owned(pixels)
                },
                Err(e) => {
                    &&& match layout_of(width, height) {
                        None => true,
                        Some(l) => l.1 != pixels@.len(),
                    }
                    &&& e == (SoftRenderError::DimensionsTooLarge { width, height })
                },
            },
    {
        match layout(width, height, format) {
            Ok((stride, len)) => if pixels.len() != len {
                Err(SoftRenderError::DimensionsTooLarge { width, height })
            } else {
                Ok(
                    SoftFramebuffer {
                        width,
                        height,
                        stride,
                        format,
                        pixels: SoftPixelStorage::Owned(pixels),
                    },
                )
            },
            Err(e) => Err(e),
        }
    }

    /// Gives an owned allocation back.
    pub fn into_pixels(self) -> (r: Vec<u8>)
        requires
            self.pixels is Owned,
        ensures
            self.pixels == SoftPixelStorage::Owned(r),
    {
        match self.pixels {
            SoftPixelStorage::Owned(bytes) => bytes,
            SoftPixelStorage::Lent(bytes) => bytes,
        }
    }

    /// Takes over a surface that the host lends, of exactly the right size.
    pub fn from_astra_surface(width: u32, height: u32, format: SurfacePixelFormat, pixels: Vec<u8>) -> (r:
        Result<Self, SoftRenderError>)
        ensures
            match r {
                Ok(f) => {
                    &&& f.wf()
                    &&& f.width == width && f.height == height && f.format == format
                    &&& f.pixels == SoftPixelStorage::Lent(pixels)
                },
                Err(e) => {
                    &&& match layout_of(width, height) {
                        None => true,
                        Some(l) => l.1 != pixels@.len(),
                    }
                    &&& e == (SoftRenderError::DimensionsTooLarge { width, height })
                },
            },
    {
        match layout(width, height, format) {
            Ok((stride, len)) => if pixels.len() != len {
                Err(SoftRenderError::DimensionsTooLarge { width, height })
            } else {
                Ok(
                    SoftFramebuffer {
                        width,
                        height,
                        stride,
                        format,
                        pixels: SoftPixelStorage::Lent(pixels),
                    },
                )
            },
            Err(e) => Err(e),
        }
    }

    /// Gives a lent surface back.
    pub fn into_astra_surface(self) -> (r: Vec<u8>)
        requires
            self.pixels is Lent,
        ensures
            self.pixels == SoftPixelStorage::Lent(r),
    {
        match self.pixels {
            SoftPixelStorage::Owned(bytes) => bytes,
            SoftPixelStorage::Lent(bytes) => bytes,
        }
    }

    /// Changes the size; all pixels become transparent black.
    pub fn resize(&mut self, width: u32, height: u32) -> (r: Result<(), SoftRenderError>)
        ensures
            match r {
                Ok(_) => {
                    &&& final(self).wf()
                    &&& final(self).width == width && final(self).height == height
                    &&& final(self).format == old(self).format
                    &&& final(self).pixels is Owned
                    &&& forall|i: int|
                        0 <= i < final(self).pixels@.len() ==> final(self).pixels@[i] == 0
                },
                Err(e) => {
                    &&& layout_of(width, height) is None
                    &&& e == (SoftRenderError::DimensionsTooLarge { width, height })
                    &&& *final(self) == *old(self)
                },
            },
    {
        match layout(width, height, self.format) {
            Ok((stride, len)) => {
                self.width = width;
                self.height = height;
                self.stride = stride;
                self.pixels = SoftPixelStorage::Owned(vec![0u8; len]);
                Ok(())
            },
            Err(e) => Err(e),
        }
    }

    pub fn width(&self) -> (r: u32)
        ensures
            r == self.width,
    {
        self.width
    }

    pub fn height(&self) -> (r: u32)
        ensures
            r == self.height,
    {
        self.height
    }

    pub fn stride(&self) -> (r: usize)
        ensures
            r == self.stride,
    {
        self.stride
    }

    pub fn format(&self) -> (r: SurfacePixelFormat)
        ensures
            r == self.format,
    {
        self.format
    }

    pub fn pixels(&self) -> (r: &[u8])
        ensures
            r@ == self.pixels@,
    {
        match &self.pixels {
            SoftPixelStorage::Owned(bytes) => bytes.as_slice(),
            SoftPixelStorage::Lent(bytes) => bytes.as_slice(),
        }
    }

    /// The pixels, to be drawn on.
    pub fn pixels_mut(&mut self) -> (r: &mut [u8])
        ensures
            r@ == old(self).pixels@,
            final(self).pixels@ == final(r)@,
            final(self).width == old(self).width,
            final(self).height == old(self).height,
            final(self).stride == old(self).stride,
            final(self).format == old(self).format,
            final(self).pixels is Owned == old(self).pixels is Owned,
    {
        match &mut self.pixels {
            SoftPixelStorage::Owned(bytes) => bytes.as_mut_slice(),
            SoftPixelStorage::Lent(bytes) => bytes.as_mut_slice(),
        }
    }

    fn fill(pixels: &mut Vec<u8>, p0: u8, p1: u8, p2: u8, p3: u8)
        requires
            old(pixels)@.len() % 4 == 0,
        ensures
            final(pixels)@ == Seq::new(
                old(pixels)@.len(),
                |i: int| seq![p0, p1, p2, p3][i % 4],
            ),
    {
        let ghost pixel = seq![p0, p1, p2, p3];
        let ghost len = pixels@.len();
        let mut i: usize = 0;
        while i < pixels.len()
            invariant
                pixels@.len() == len,
                len % 4 == 0,
                i <= len,
                i % 4 == 0,
                pixel == seq![p0, p1, p2, p3],
                forall|j: int| 0 <= j < i ==> pixels@[j] == pixel[j % 4],
            decreases len - i,
        {
            pixels.set(i, p0);
            pixels.set(i + 1, p1);
            pixels.set(i + 2, p2);
            pixels.set(i + 3, p3);
            i = i + 4;
        }
        assert(pixels@ =~= Seq::new(len, |i: int| pixel[i % 4]));
    }

    /// Fills the framebuffer with one color.
    pub fn clear_rgba(&mut self, r: u8, g: u8, b: u8, a: u8)
        requires
            old(self).wf(),
        ensures
            final(self).wf(),
            final(self).width == old(self).width,
            final(self).height == old(self).height,
            final(self).format == old(self).format,
            final(self).pixels is Owned == old(self).pixels is Owned,
            final(self).pixels@ == Seq::new(
                old(self).pixels@.len(),
                |i: int| pixel_of(old(self).format, r, g, b, a)[i % 4],
            ),
    {
        let (p0, p2): (u8, u8) = match self.format {
            SurfacePixelFormat::Rgba8 => (r, b),
            SurfacePixelFormat::Bgra8 => (b, r),
        };
        proof {
            let w = self.width as int;
            let h = self.height as int;
            assert(4 * w * h == 4 * (w * h)) by (nonlinear_arith);
            assert((4 * (w * h)) % 4 == 0) by {
                vstd::arithmetic::div_mod::lemma_mod_multiples_basic(w * h, 4);
            }
        }
        match &mut self.pixels {
            SoftPixelStorage::Owned(bytes) => Self::fill(bytes, p0, g, p2, a),
            SoftPixelStorage::Lent(bytes) => Self::fill(bytes, p0, g, p2, a),
        }
    }
}

// ----------------------------------------------------------------------- laws

/// A framebuffer holds four bytes for each pixel and nothing else: rows follow one another
/// without gaps, and the bytes of the pixel in column `x` and row `y` lie inside. Only one
/// that cannot be addressed is refused.
pub proof fn law_framebuffer_holds_its_pixels(width: u32, height: u32, x: int, y: int)
    ensures
        layout_of(width, height) is None ==> width > 0 && (height as int * width as int * 4
            > usize::MAX || width as int * 4 > usize::MAX),
        layout_of(width, height) matches Some((stride, len)) ==> {
            &&& stride == 4 * width
            &&& len == stride * height
            &&& len <= usize::MAX
            &&& 0 <= x < width && 0 <= y < height ==> {
                &&& 0 <= y * stride + 4 * x
                &&& y * stride + 4 * x + 4 <= len
                &&& x + 1 == width && y + 1 == height ==> y * stride + 4 * x + 4 == len
            }
        },
{
    let w = width as int;
    let h = height as int;
    assert(4 * w * h == h * w * 4) by (nonlinear_arith);
    if 0 <= x < w && 0 <= y < h {
        assert(0 <= y * (4 * w) && y * (4 * w) + 4 * w <= (4 * w) * h) by (nonlinear_arith)
            requires
                0 <= y < h,
                0 <= w,
        ;
        assert(y + 1 == h ==> y * (4 * w) + 4 * w == (4 * w) * h) by (nonlinear_arith);
    }
}

/// The parts of a color lie where the order of bytes puts them: red first and blue third, or
/// the other way round, with green second and the opacity last.
pub proof fn law_colors_lie_in_their_order(r: u8, g: u8, b: u8, a: u8)
    ensures
        pixel_of(SurfacePixelFormat::Rgba8, r, g, b, a)[0] == r,
        pixel_of(SurfacePixelFormat::Rgba8, r, g, b, a)[2] == b,
        pixel_of(SurfacePixelFormat::Bgra8, r, g, b, a)[0] == b,
        pixel_of(SurfacePixelFormat::Bgra8, r, g, b, a)[2] == r,
        forall|format: SurfacePixelFormat| #[trigger]
            pixel_of(format, r, g, b, a).len() == 4 && pixel_of(format, r, g, b, a)[1] == g
                && pixel_of(format, r, g, b, a)[3] == a,
{
}

}
