use vstd::prelude::*;
use image::{ImageBuffer, Rgb};
use vstd::arithmetic::div_mod::lemma_fundamental_div_mod_converse;

verus! {

/// An 8-bit RGB pixel buffer of the `image` crate. Verus sees it only through
/// `image_samples` and `image_dims`.
#[verifier::external_body]
pub struct PixelBuffer {
    pub image: ImageBuffer<Rgb<u8>, Vec<u8>>,
}

/// The samples of a pixel buffer: three channels per pixel, pixels in row-major order.
pub uninterp spec fn image_samples(buf: PixelBuffer) -> Seq<u8>;

/// The width and height of a pixel buffer.
pub uninterp spec fn image_dims(buf: PixelBuffer) -> (u32, u32);

/// Relies on `ImageBuffer::new`: a `width x height` buffer whose `3 * width * height`
/// samples are all zero. It panics when `3 * width`, or that times `height`, overflows `usize`.
#[verifier::external_body]
fn new_buffer(width: u32, height: u32) -> (buf: PixelBuffer)
    requires
        3 * width <= usize::MAX,
        3 * width * height <= usize::MAX,
    ensures
        image_dims(buf) == (width, height),
        image_samples(buf) == Seq::new((3 * width * height) as nat, |i: int| 0u8),
{
    PixelBuffer { image: ImageBuffer::new(width, height) }
}

/// Relies on `ImageBuffer::put_pixel`: the three samples of pixel `(x, y)`, from index
/// `3 * (y * width + x)` on, become `[r, g, b]`. It panics outside the image.
#[verifier::external_body]
fn put_rgb(buf: &mut PixelBuffer, x: u32, y: u32, r: u8, g: u8, b: u8)
    requires
        x < image_dims(*old(buf)).0,
        y < image_dims(*old(buf)).1,
    ensures
        image_dims(*final(buf)) == image_dims(*old(buf)),
        image_samples(*final(buf)) == image_samples(*old(buf)).update(
            3 * (y * image_dims(*old(buf)).0 + x),
            r,
        ).update(3 * (y * image_dims(*old(buf)).0 + x) + 1, g).update(
            3 * (y * image_dims(*old(buf)).0 + x) + 2,
            b,
        ),
{
    buf.image.put_pixel(x, y, Rgb([r, g, b]))
}

/// Red channel of the colour of escape count `v`.
pub open spec fn red(v: nat) -> u8 {
    (v % 255) as u8
}

/// Green channel of the colour of escape count `v`.
pub open spec fn green(v: nat) -> u8 {
    ((3 * v) % 256) as u8
}

/// Blue channel of the colour of escape count `v`.
pub open spec fn blue(v: nat) -> u8 {
    ((7 * v) % 256) as u8
}

/// Channel `c` (0 red, 1 green, 2 blue) of the colour of escape count `v`.
pub open spec fn channel(v: nat, c: int) -> u8 {
    if c == 0 {
        red(v)
    } else if c == 1 {
        green(v)
    } else {
        blue(v)
    }
}

/// The samples of the rasterized grid: sample `k` is channel `k % 3` of the colour of
/// the cell of pixel `k / 3`, pixels in row-major order.
pub open spec fn raster_samples(grid: Seq<Vec<usize>>, width: nat, height: nat) -> Seq<u8> {
    Seq::new(
        3 * width * height,
        |k: int| channel(grid[(k / 3) / width as int]@[(k / 3) % width as int] as nat, k % 3),
    )
}

/// The colour of an escape count: `(v mod 255, 3v mod 256, 7v mod 256)`.
pub fn pixel_color(v: usize) -> (rgb: (u8, u8, u8))
    ensures
        rgb == (red(v as nat), green(v as nat), blue(v as nat)),
{
    let low: usize = v % 256;
    proof {
        assert((3 * v) % 256 == (3 * low) % 256 && (7 * v) % 256 == (7 * low) % 256)
            by (nonlinear_arith)
            requires
                low == v % 256,
        ;
    }
    ((v % 255) as u8, ((3 * low) % 256) as u8, ((7 * low) % 256) as u8)
}

proof fn lemma_pixel_index(x: int, y: int, w: int, h: int, c: int)
    requires
        0 <= x < w,
        0 <= y < h,
        0 <= c < 3,
    ensures
        y * w + x < w * h,
        3 * (y * w + x) + c < 3 * w * h,
        (3 * (y * w + x) + c) / 3 == y * w + x,
        (3 * (y * w + x) + c) % 3 == c,
        (y * w + x) / w == y,
        (y * w + x) % w == x,
{
    assert(y * w + x < w * h) by (nonlinear_arith)
        requires
            0 <= x < w,
            0 <= y < h,
    ;
    assert(3 * w * h == 3 * (w * h)) by (nonlinear_arith);
    lemma_fundamental_div_mod_converse(3 * (y * w + x) + c, 3, y * w + x, c);
    lemma_fundamental_div_mod_converse(y * w + x, w, y, x);
}

/// Colours a `height x width` grid of escape counts into a new pixel buffer, row by row,
/// pixel `(x, y)` taking the colour of `grid[y][x]`.
pub fn rasterize(grid: &Vec<Vec<usize>>, width: u32, height: u32) -> (buf: PixelBuffer)
    requires
        grid@.len() == height,
        forall|y: int| 0 <= y < height ==> (#[trigger] grid@[y])@.len() == width,
        3 * width <= usize::MAX,
        3 * width * height <= usize::MAX,
    ensures
        image_dims(buf) == (width, height),
        image_samples(buf) == raster_samples(grid@, width as nat, height as nat),
{
    let ghost target = raster_samples(grid@, width as nat, height as nat);
    let ghost w = width as int;
    let mut buf = new_buffer(width, height);
    let mut y: u32 = 0;
    while y < height
        invariant
            y <= height,
            grid@.len() == height,
            forall|j: int| 0 <= j < height ==> (#[trigger] grid@[j])@.len() == width,
            target == raster_samples(grid@, width as nat, height as nat),
            w == width,
            image_dims(buf) == (width, height),
            image_samples(buf).len() == target.len(),
            forall|k: int| 0 <= k < 3 * (y * w) ==> image_samples(buf)[k] == target[k],
        decreases height - y,
    {
        let row = &grid[y as usize];
        let mut x: u32 = 0;
        while x < width
            invariant
                x <= width,
                y < height,
                row@ == grid@[y as int]@,
                row@.len() == width,
                target == raster_samples(grid@, width as nat, height as nat),
                w == width,
                image_dims(buf) == (width, height),
                image_samples(buf).len() == target.len(),
                forall|k: int| 0 <= k < 3 * (y * w + x) ==> image_samples(buf)[k] == target[k],
            decreases width - x,
        {
            let (r, g, b) = pixel_color(row[x as usize]);
            let ghost i = y * w + x;
            proof {
                lemma_pixel_index(x as int, y as int, w, height as int, 0);
                lemma_pixel_index(x as int, y as int, w, height as int, 1);
                lemma_pixel_index(x as int, y as int, w, height as int, 2);
            }
            let ghost before = image_samples(buf);
            put_rgb(&mut buf, x, y, r, g, b);
            proof {
                assert forall|k: int| 0 <= k < 3 * (i + 1) implies image_samples(buf)[k]
                    == target[k] by {
                    if k >= 3 * i {
                        assert(target[k] == channel(grid@[y as int]@[x as int] as nat, k - 3 * i));
                    } else {
                        assert(image_samples(buf)[k] == before[k]);
                    }
                }
            }
            x = x + 1;
        }
        proof {
            assert(y * w + w == (y + 1) * w) by (nonlinear_arith);
        }
        y = y + 1;
    }
    proof {
        assert(3 * (height * w) == 3 * w * height) by (nonlinear_arith);
        assert(image_samples(buf) =~= target);
    }
    buf
}

/// Each pixel is coloured from its own cell alone: the three samples of pixel `(x, y)`
/// are the red, green and blue channels of the colour of `grid[y][x]`.
pub proof fn lemma_pixel_samples(grid: Seq<Vec<usize>>, width: nat, height: nat, x: nat, y: nat)
    requires
        x < width,
        y < height,
    ensures
        ({
            let s = raster_samples(grid, width, height);
            let i = 3 * (y * width + x) as int;
            let v = grid[y as int]@[x as int] as nat;
            &&& i + 2 < s.len()
            &&& s[i] == red(v)
            &&& s[i + 1] == green(v)
            &&& s[i + 2] == blue(v)
        }),
{
    lemma_pixel_index(x as int, y as int, width as int, height as int, 0);
    lemma_pixel_index(x as int, y as int, width as int, height as int, 1);
    lemma_pixel_index(x as int, y as int, width as int, height as int, 2);
}

/// Rasterizing is deterministic: two buffers rasterized from the same grid at the same
/// size hold the same pixels.
pub proof fn lemma_rasterize_deterministic(
    grid: Seq<Vec<usize>>,
    width: u32,
    height: u32,
    a: PixelBuffer,
    b: PixelBuffer,
)
    requires
        image_dims(a) == (width, height),
        image_samples(a) == raster_samples(grid, width as nat, height as nat),
        image_dims(b) == (width, height),
        image_samples(b) == raster_samples(grid, width as nat, height as nat),
    ensures
        image_dims(a) == image_dims(b),
        image_samples(a) == image_samples(b),
{
}

} // verus!
