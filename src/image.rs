//! Decoded 8-bit RGB images and nearest-texel lookup with edge clamping.
use vstd::prelude::*;

verus! {

/// Number of bytes that encode one RGB pixel.
pub const BYTES_PER_PIXEL: usize = 3;

/// The colour handed out for every lookup into an image that holds no data.
pub open spec fn magenta() -> Seq<u8> {
    seq![255u8, 0u8, 255u8]
}

/// What an image holds: its size in pixels and its row-major RGB bytes.
pub ghost struct ImageView {
    pub width: int,
    pub height: int,
    pub data: Seq<u8>,
}

/// `x` clamped to the half-open range `[low, high)`.
pub open spec fn clamp_index(x: int, low: int, high: int) -> int {
    if x < low {
        low
    } else if x < high {
        x
    } else {
        high - 1
    }
}

/// Byte offset of pixel `(x, y)`, each coordinate first clamped into the image.
pub open spec fn texel_offset(v: ImageView, x: int, y: int) -> int {
    clamp_index(y, 0, v.height) * (BYTES_PER_PIXEL * v.width) + clamp_index(x, 0, v.width)
        * BYTES_PER_PIXEL
}

/// The three bytes of pixel `(x, y)` (coordinates clamped to the image), or magenta when
/// the image holds no data.
pub open spec fn texel(v: ImageView, x: int, y: int) -> Seq<u8> {
    if v.data.len() == 0 {
        magenta()
    } else {
        v.data.subrange(texel_offset(v, x, y), texel_offset(v, x, y) + 3)
    }
}

/// Whether `data` is exactly the RGB bytes of a non-empty `width` by `height` image.
pub open spec fn is_rgb_buffer(width: int, height: int, data: Seq<u8>) -> bool {
    &&& width > 0
    &&& height > 0
    &&& data.len() == BYTES_PER_PIXEL * width * height
}

/// A decoded image: either empty (missing or unreadable source) or a full
/// buffer of `width * height` RGB pixels, row 0 at the top.
pub struct Image {
    bytes_per_pixel: usize,
    bytes_per_scanline: usize,
    bdata: Vec<u8>,
    width: i32,
    height: i32,
}

impl View for Image {
    type V = ImageView;

    closed spec fn view(&self) -> ImageView {
        ImageView { width: self.width as int, height: self.height as int, data: self.bdata@ }
    }
}

impl Image {
    #[verifier::type_invariant]
    spec fn well_formed(self) -> bool {
        &&& self.bytes_per_pixel == BYTES_PER_PIXEL
        &&& self.bytes_per_scanline == BYTES_PER_PIXEL * self.width
        &&& if self.bdata@.len() == 0 {
            self.width == 0 && self.height == 0
        } else {
            is_rgb_buffer(self.width as int, self.height as int, self.bdata@)
        }
    }

    /// The empty image: every lookup into it gives magenta.
    pub fn empty() -> (r: Image)
        ensures
            r@.width == 0,
            r@.height == 0,
            r@.data.len() == 0,
    {
        Image { bytes_per_pixel: BYTES_PER_PIXEL, bytes_per_scanline: 0, bdata: Vec::new(), width: 0, height: 0 }
    }

    /// Wraps decoded RGB bytes. A buffer whose length does not match the size
    /// (or a size that is not positive) is treated as a corrupt source and gives
    /// the empty image.
    pub fn new(width: i32, height: i32, bdata: Vec<u8>) -> (r: Image)
        ensures
            is_rgb_buffer(width as int, height as int, bdata@) ==> r@ == (ImageView {
                width: width as int,
                height: height as int,
                data: bdata@,
            }),
            !is_rgb_buffer(width as int, height as int, bdata@) ==> r@.width == 0 && r@.height
                == 0 && r@.data.len() == 0,
    {
        if width <= 0 || height <= 0 {
            return Image::empty();
        }
        let w: usize = width as usize;
        let h: usize = height as usize;
        let n: usize = bdata.len();
        // The sizes are compared by division so that no product can overflow.
        if n % BYTES_PER_PIXEL != 0 || (n / BYTES_PER_PIXEL) % w != 0 || (n / BYTES_PER_PIXEL) / w
            != h {
            proof {
                lemma_rgb_length_split(w as int, h as int, n as int);
            }
            return Image::empty();
        }
        proof {
            lemma_rgb_length_split(w as int, h as int, n as int);
            assert(3 * w <= 3 * w * h) by (nonlinear_arith)
                requires
                    h >= 1,
                    w >= 1,
            ;
        }
        Image { bytes_per_pixel: BYTES_PER_PIXEL, bytes_per_scanline: 3 * w, bdata, width, height }
    }

    /// Width in pixels (0 for the empty image).
    pub fn width(&self) -> (r: i32)
        ensures
            r as int == self@.width,
    {
        self.width
    }

    /// Height in pixels (0 for the empty image).
    pub fn height(&self) -> (r: i32)
        ensures
            r as int == self@.height,
    {
        self.height
    }

    /// Whether the image holds no pixel data.
    pub fn is_empty(&self) -> (r: bool)
        ensures
            r == (self@.data.len() == 0),
    {
        self.bdata.len() == 0
    }

    /// The RGB bytes of pixel `(x, y)`, with `x` clamped to `[0, width)` and `y` to
    /// `[0, height)`; magenta when the image holds no data.
    pub fn pixel_data(&self, x: usize, y: usize) -> (r: [u8; 3])
        ensures
            r@ == texel(self@, x as int, y as int),
    {
        proof {
            use_type_invariant(self);
        }
        if self.bdata.len() == 0 {
            let m: [u8; 3] = [255u8, 0u8, 255u8];
            assert(m@ =~= magenta());
            return m;
        }
        let w: usize = self.width as usize;
        let h: usize = self.height as usize;
        let cx: usize = Self::clamp(x, 0, w);
        let cy: usize = Self::clamp(y, 0, h);
        proof {
            lemma_offset_in_buffer(w as int, h as int, cx as int, cy as int);
        }
        let idx: usize = cy * self.bytes_per_scanline + cx * self.bytes_per_pixel;
        let r: [u8; 3] = [self.bdata[idx], self.bdata[idx + 1], self.bdata[idx + 2]];
        assert(r@ =~= self.bdata@.subrange(idx as int, idx + 3));
        r
    }

    /// `x` clamped to the half-open range `[low, high)`.
    fn clamp(x: usize, low: usize, high: usize) -> (r: usize)
        requires
            low < high,
        ensures
            r as int == clamp_index(x as int, low as int, high as int),
            low <= r < high,
    {
        if x < low {
            return low;
        }
        if x < high {
            return x;
        }
        high - 1
    }
}

/// For positive `w` and `h`, `n` is `3 * w * h` exactly when the divisions used by
/// [`Image::new`] come out even and give `h`.
proof fn lemma_rgb_length_split(w: int, h: int, n: int)
    requires
        w > 0,
        h > 0,
        n >= 0,
    ensures
        (n == 3 * w * h) <==> (n % 3 == 0 && (n / 3) % w == 0 && (n / 3) / w == h),
{
    if n == 3 * w * h {
        assert(n == 3 * (w * h)) by (nonlinear_arith)
            requires
                n == 3 * w * h,
        ;
        assert(n % 3 == 0 && n / 3 == w * h) by (nonlinear_arith)
            requires
                n == 3 * (w * h),
        ;
        assert((w * h) % w == 0 && (w * h) / w == h) by (nonlinear_arith)
            requires
                w > 0,
        ;
    }
    if n % 3 == 0 && (n / 3) % w == 0 && (n / 3) / w == h {
        assert(n == 3 * w * h) by (nonlinear_arith)
            requires
                n % 3 == 0,
                (n / 3) % w == 0,
                (n / 3) / w == h,
                w > 0,
        ;
    }
}

/// The three bytes at the offset of a pixel inside a `w` by `h` image lie in its buffer.
proof fn lemma_offset_in_buffer(w: int, h: int, cx: int, cy: int)
    requires
        0 <= cx < w,
        0 <= cy < h,
    ensures
        0 <= cy * (3 * w) + cx * 3,
        cy * (3 * w) + cx * 3 + 3 <= 3 * w * h,
{
    assert(0 <= cy * (3 * w) + cx * 3 && cy * (3 * w) + cx * 3 + 3 <= 3 * w * h)
        by (nonlinear_arith)
        requires
            0 <= cx < w,
            0 <= cy < h,
    ;
}

/// A texture that looks its colours up in a decoded image.
pub struct ImageTexture {
    img: Image,
}

impl View for ImageTexture {
    type V = ImageView;

    closed spec fn view(&self) -> ImageView {
        self.img@
    }
}

impl ImageTexture {
    /// A texture over `img`; an empty image makes every lookup magenta.
    pub fn new(img: Image) -> (r: ImageTexture)
        ensures
            r@ == img@,
    {
        ImageTexture { img }
    }

    /// The image this texture reads from.
    pub fn image(&self) -> (r: &Image)
        ensures
            r@ == self@,
    {
        &self.img
    }

    /// The RGB bytes of texel `(i, j)`, clamped to the image, or magenta when the
    /// image holds no data.
    pub fn texel(&self, i: usize, j: usize) -> (r: [u8; 3])
        ensures
            r@ == texel(self@, i as int, j as int),
    {
        self.img.pixel_data(i, j)
    }
}

} // verus!
