use vstd::prelude::*;

verus! {

/// Bytes per pixel in an output buffer: red, green, blue.
pub const CHANNELS: usize = 3;

/// The pixel raster of an image: `width` pixels per row, `height` rows,
/// addressed row-major by a linear index.
pub struct PixelGrid {
    pub width: usize,
    pub height: usize,
}

/// The byte at position `j` of a buffer that holds `pixels` row-major,
/// three channels per pixel.
pub open spec fn packed_byte(pixels: Seq<[u8; 3]>, j: int) -> u8 {
    pixels[j / 3]@[j % 3]
}

impl PixelGrid {
    /// Every byte of the buffer can be addressed.
    pub open spec fn wf(&self) -> bool {
        self.width * self.height * 3 <= usize::MAX
    }

    pub open spec fn num_pixels(&self) -> nat {
        (self.width * self.height) as nat
    }

    /// A grid of the given size, if its buffer length fits in `usize`.
    pub fn new(width: usize, height: usize) -> (r: Option<PixelGrid>)
        ensures
            r.is_some() <==> width * height * 3 <= usize::MAX,
            r matches Some(g) ==> g.wf() && g.width == width && g.height == height,
    {
        match width.checked_mul(height) {
            Some(n) => match n.checked_mul(CHANNELS) {
                Some(_) => Some(PixelGrid { width, height }),
                None => None,
            },
            None => {
                proof {
                    vstd::arithmetic::mul::lemma_mul_inequality(
                        1,
                        3,
                        width as int * height as int,
                    );
                }
                None
            },
        }
    }

    /// Number of pixels in the grid.
    pub fn pixel_count(&self) -> (r: usize)
        requires
            self.wf(),
        ensures
            r == self.num_pixels(),
    {
        self.width * self.height
    }

    /// Length in bytes of a buffer that holds the whole grid.
    pub fn buffer_len(&self) -> (r: usize)
        requires
            self.wf(),
        ensures
            r == self.num_pixels() * 3,
    {
        self.width * self.height * CHANNELS
    }

    /// Column and row of the pixel at linear index `i`.
    pub fn pixel_coords(&self, i: usize) -> (r: (usize, usize))
        requires
            self.wf(),
            i < self.num_pixels(),
        ensures
            r.0 == i % self.width,
            r.1 == i / self.width,
            r.0 < self.width,
            r.1 < self.height,
            i == r.1 * self.width + r.0,
    {
        proof {
            let w = self.width as int;
            let h = self.height as int;
            vstd::arithmetic::mul::lemma_mul_basics(h);
            vstd::arithmetic::div_mod::lemma_fundamental_div_mod(i as int, w);
            vstd::arithmetic::mul::lemma_mul_is_commutative(w, i as int / w);
            assert(i as int / w < h) by (nonlinear_arith)
                requires
                    w > 0,
                    i < w * h,
                    i == w * (i as int / w) + i as int % w,
                    i as int % w >= 0,
            ;
        }
        (i % self.width, i / self.width)
    }
}

/// Writes each pixel's three channels into `buffer`, pixel `i` at bytes
/// `3 * i` to `3 * i + 2`.
pub fn fill_buffer(buffer: &mut Vec<u8>, pixels: &Vec<[u8; 3]>)
    requires
        old(buffer)@.len() == pixels@.len() * 3,
    ensures
        final(buffer)@.len() == pixels@.len() * 3,
        forall|j: int|
            0 <= j < final(buffer)@.len() ==> #[trigger] final(buffer)@[j] == packed_byte(
                pixels@,
                j,
            ),
{
    let n = pixels.len();
    let len = buffer.len();
    let mut i: usize = 0;
    while i < n
        invariant
            n == pixels@.len(),
            len == n * 3,
            i <= n,
            buffer@.len() == n * 3,
            forall|j: int| 0 <= j < i * 3 ==> #[trigger] buffer@[j] == packed_byte(pixels@, j),
        decreases n - i,
    {
        let pixel = pixels[i];
        let mut k: usize = 0;
        while k < CHANNELS
            invariant
                n == pixels@.len(),
                len == n * 3,
                i < n,
                k <= 3,
                pixel == pixels@[i as int],
                buffer@.len() == n * 3,
                forall|j: int|
                    0 <= j < i * 3 + k ==> #[trigger] buffer@[j] == packed_byte(pixels@, j),
            decreases 3 - k,
        {
            assert(i * 3 + k < len) by (nonlinear_arith)
                requires
                    i < n,
                    k < 3,
                    len == n * 3,
            ;
            let j = i * CHANNELS + k;
            assert(j / 3 == i && j % 3 == k) by (nonlinear_arith)
                requires
                    j == i * 3 + k,
                    k < 3,
            ;
            buffer.set(j, pixel[k]);
            k += 1;
        }
        i += 1;
    }
}

} // verus!
