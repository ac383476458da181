//! The fixed-size pixel buffer: a width-by-height grid of pixels with
//! coordinate indexing, row-major iteration, and deterministic
//! serialization to the plain-text P3 image format.

use vstd::prelude::*;

use crate::color::Pixel;
use crate::color::dec_bytes;
use crate::color::pixel_bytes;
use crate::color::push_dec;

verus! {

/// A pixel address: column `x`, row `y`.
pub struct ImageCoordinate {
    pub x: usize,
    pub y: usize,
}

/// The channel value of the red-green gradient at position `v` of an axis
/// of `dim` pixels: `v * 256 / (dim - 1)`, reduced into the 8-bit range.
pub open spec fn ppm_scale(v: int, dim: int) -> int
    recommends
        2 <= dim,
{
    let q = v * 256 / (dim - 1);
    if q > 255 {
        255
    } else {
        q
    }
}

/// The text rendering of one pixel row: the renderings of its pixels in
/// order.
pub open spec fn row_bytes(row: Seq<Pixel>) -> Seq<u8>
    decreases row.len(),
{
    if row.len() == 0 {
        Seq::empty()
    } else {
        row_bytes(row.drop_last()) + pixel_bytes(row.last())
    }
}

/// The text rendering of the pixel grid: the renderings of its rows, top
/// row first.
pub open spec fn rows_bytes(rows: Seq<Seq<Pixel>>) -> Seq<u8>
    decreases rows.len(),
{
    if rows.len() == 0 {
        Seq::empty()
    } else {
        rows_bytes(rows.drop_last()) + row_bytes(rows.last())
    }
}

/// The P3 header: the format tag, the two dimensions and the maximum
/// channel value on one line, then a blank separator line.
pub open spec fn header_bytes(w: nat, h: nat) -> Seq<u8> {
    seq![80u8, 51u8, 32u8] + dec_bytes(w) + seq![32u8] + dec_bytes(h) + seq![32u8] + dec_bytes(
        255,
    ) + seq![10u8, 10u8]
}

/// The complete serialized image: header, blank line, then one line per
/// pixel in row-major order.
pub open spec fn ppm_bytes(w: nat, h: nat, rows: Seq<Seq<Pixel>>) -> Seq<u8> {
    header_bytes(w, h) + rows_bytes(rows)
}

/// The pixels of the grid as one sequence, in row-major order.
pub open spec fn flatten_rows(rows: Seq<Seq<Pixel>>) -> Seq<Pixel>
    decreases rows.len(),
{
    if rows.len() == 0 {
        Seq::empty()
    } else {
        flatten_rows(rows.drop_last()) + rows.last()
    }
}

/// Row-major order of the flattened grid: a grid of rows of width `w`
/// flattens to exactly `rows * w` pixels, and the pixel at column `x` of
/// row `y` stands at position `y * w + x`.
pub proof fn lemma_flatten_rows_row_major(rows: Seq<Seq<Pixel>>, w: int)
    requires
        w >= 0,
        forall|y: int| 0 <= y < rows.len() ==> (#[trigger] rows[y]).len() == w,
    ensures
        flatten_rows(rows).len() == rows.len() * w,
        forall|y: int, x: int|
            0 <= y < rows.len() && 0 <= x < w ==> flatten_rows(rows)[y * w + x] == #[trigger] rows[y][x],
    decreases rows.len(),
{
    if rows.len() == 0 {
        assert(flatten_rows(rows).len() == rows.len() * w);
    } else {
        let m = rows.len() - 1;
        let front = rows.drop_last();
        lemma_flatten_rows_row_major(front, w);
        assert(rows.len() * w == m * w + w) by (nonlinear_arith)
            requires
                m == rows.len() - 1,
        {
        }
        assert(flatten_rows(rows).len() == rows.len() * w);
        assert forall|y: int, x: int|
            0 <= y < rows.len() && 0 <= x < w implies flatten_rows(rows)[y * w + x]
            == #[trigger] rows[y][x] by {
            if y < m {
                assert(front[y][x] == rows[y][x]);
                assert(y * w + x < m * w) by (nonlinear_arith)
                    requires
                        0 <= y < m,
                        0 <= x < w,
                {
                }
                assert(flatten_rows(rows)[y * w + x] == flatten_rows(front)[y * w + x]);
            } else {
                assert(y == m);
                assert(y * w + x - m * w == x);
                assert(flatten_rows(rows)[y * w + x] == rows.last()[x]);
            }
        }
    }
}

/// A grid of `WIDTH` by `HEIGHT` pixels, owned exclusively, created once
/// and mutated in place through coordinate indexing.
pub struct Image<const WIDTH: usize, const HEIGHT: usize> {
    pixels: Vec<Vec<Pixel>>,
}

impl<const WIDTH: usize, const HEIGHT: usize> Image<WIDTH, HEIGHT> {
    /// The pixel grid as a sequence of rows, top row first.
    pub closed spec fn grid(self) -> Seq<Seq<Pixel>> {
        Seq::new(self.pixels@.len(), |y: int| self.pixels@[y]@)
    }

    /// Well-formedness: exactly `HEIGHT` rows of exactly `WIDTH` pixels.
    pub open spec fn wf(self) -> bool {
        &&& self.grid().len() == HEIGHT
        &&& forall|y: int| 0 <= y < HEIGHT ==> (#[trigger] self.grid()[y]).len() == WIDTH
    }

    /// The gradient's red-channel value for column `x`.
    pub fn ppm_scale_x(x: usize) -> (r: u8)
        requires
            2 <= WIDTH,
            WIDTH * 256 <= usize::MAX,
            x < WIDTH,
        ensures
            r as int == ppm_scale(x as int, WIDTH as int),
    {
        let q = x * 256 / (WIDTH - 1);
        if q > 255 {
            255
        } else {
            q as u8
        }
    }

    /// The gradient's green-channel value for row `y`.
    pub fn ppm_scale_y(y: usize) -> (r: u8)
        requires
            2 <= HEIGHT,
            HEIGHT * 256 <= usize::MAX,
            y < HEIGHT,
        ensures
            r as int == ppm_scale(y as int, HEIGHT as int),
    {
        let q = y * 256 / (HEIGHT - 1);
        if q > 255 {
            255
        } else {
            q as u8
        }
    }

    /// Builds the red-green gradient image: the red channel scales with
    /// the column, the green channel with the row, and blue stays zero.
    pub fn generate_red_green_scan() -> (r: Self)
        requires
            2 <= WIDTH,
            2 <= HEIGHT,
            WIDTH * 256 <= usize::MAX,
            HEIGHT * 256 <= usize::MAX,
        ensures
            r.wf(),
            forall|y: int, x: int|
                0 <= y < HEIGHT && 0 <= x < WIDTH ==> {
                    let p = #[trigger] r.grid()[y][x];
                    p.r == ppm_scale(x, WIDTH as int) && p.g == ppm_scale(y, HEIGHT as int)
                        && p.b == 0
                },
    {
        let mut pixels: Vec<Vec<Pixel>> = Vec::new();
        let mut y: usize = 0;
        while y < HEIGHT
            invariant
                2 <= WIDTH,
                2 <= HEIGHT,
                WIDTH * 256 <= usize::MAX,
                HEIGHT * 256 <= usize::MAX,
                y <= HEIGHT,
                pixels@.len() == y,
                forall|yy: int| 0 <= yy < y ==> (#[trigger] pixels@[yy])@.len() == WIDTH,
                forall|yy: int, xx: int|
                    0 <= yy < y && 0 <= xx < WIDTH ==> {
                        let p = #[trigger] pixels@[yy]@[xx];
                        p.r == ppm_scale(xx, WIDTH as int) && p.g == ppm_scale(yy, HEIGHT as int)
                            && p.b == 0
                    },
            decreases HEIGHT - y,
        {
            let mut row: Vec<Pixel> = Vec::new();
            let mut x: usize = 0;
            while x < WIDTH
                invariant
                    2 <= WIDTH,
                    2 <= HEIGHT,
                    WIDTH * 256 <= usize::MAX,
                    HEIGHT * 256 <= usize::MAX,
                    y < HEIGHT,
                    x <= WIDTH,
                    row@.len() == x,
                    forall|xx: int|
                        0 <= xx < x ==> {
                            let p = #[trigger] row@[xx];
                            p.r == ppm_scale(xx, WIDTH as int) && p.g == ppm_scale(
                                y as int,
                                HEIGHT as int,
                            ) && p.b == 0
                        },
                decreases WIDTH - x,
            {
                row.push(Pixel::new(Self::ppm_scale_x(x), Self::ppm_scale_y(y), 0));
                x = x + 1;
            }
            pixels.push(row);
            y = y + 1;
        }
        Image { pixels }
    }

    /// The pixel at the given coordinate.
    pub fn get(&self, index: ImageCoordinate) -> (r: Pixel)
        requires
            self.wf(),
            index.x < WIDTH,
            index.y < HEIGHT,
        ensures
            r == self.grid()[index.y as int][index.x as int],
    {
        proof {
            assert(self.grid().len() == self.pixels@.len());
            assert(self.grid()[index.y as int] == self.pixels@[index.y as int]@);
        }
        self.pixels[index.y][index.x]
    }

    /// Replaces the pixel at the given coordinate, leaving every other
    /// pixel as it was.
    pub fn set(&mut self, index: ImageCoordinate, p: Pixel)
        requires
            old(self).wf(),
            index.x < WIDTH,
            index.y < HEIGHT,
        ensures
            final(self).wf(),
            final(self).grid()[index.y as int][index.x as int] == p,
            forall|yy: int, xx: int|
                0 <= yy < HEIGHT && 0 <= xx < WIDTH && !(yy == index.y && xx == index.x)
                    ==> #[trigger] final(self).grid()[yy][xx] == old(self).grid()[yy][xx],
    {
        proof {
            assert(self.grid().len() == self.pixels@.len());
            assert(self.grid()[index.y as int] == self.pixels@[index.y as int]@);
        }
        self.pixels[index.y][index.x] = p;
        proof {
            assert(self.grid().len() == self.pixels@.len());
            assert(self.grid()[index.y as int][index.x as int] == p);
            assert forall|yy: int, xx: int|
                0 <= yy < HEIGHT && 0 <= xx < WIDTH && !(yy == index.y && xx == index.x)
                    implies #[trigger] self.grid()[yy][xx] == old(self).grid()[yy][xx] by {
                assert(self.grid()[yy] == self.pixels@[yy]@);
                assert(old(self).grid()[yy] == old(self).pixels@[yy]@);
            }
            assert forall|yy: int| 0 <= yy < HEIGHT implies (#[trigger] self.grid()[yy]).len()
                == WIDTH by {
                assert(self.grid()[yy] == self.pixels@[yy]@);
                assert(old(self).grid()[yy] == old(self).pixels@[yy]@);
                assert(old(self).grid()[yy].len() == WIDTH);
            }
            assert(self.wf());
        }
    }

    /// Consumes the image, yielding its pixels as one forward sequence in
    /// row-major order: row 0 left to right, then row 1, and so on; a
    /// `WIDTH` by `HEIGHT` image yields exactly `WIDTH * HEIGHT` pixels.
    pub fn into_pixels(self) -> (r: Vec<Pixel>)
        requires
            self.wf(),
        ensures
            r@ == flatten_rows(self.grid()),
            r@.len() == HEIGHT * WIDTH,
            forall|y: int, x: int|
                0 <= y < HEIGHT && 0 <= x < WIDTH ==> r@[y * WIDTH + x] == #[trigger] self.grid()[y][x],
    {
        let ghost g = self.grid();
        let mut out: Vec<Pixel> = Vec::new();
        let mut y: usize = 0;
        while y < HEIGHT
            invariant
                self.wf(),
                g == self.grid(),
                y <= HEIGHT,
                out@ == flatten_rows(g.take(y as int)),
            decreases HEIGHT - y,
        {
            let mut x: usize = 0;
            while x < WIDTH
                invariant
                    self.wf(),
                    g == self.grid(),
                    y < HEIGHT,
                    x <= WIDTH,
                    out@ == flatten_rows(g.take(y as int)) + g[y as int].take(x as int),
                decreases WIDTH - x,
            {
                out.push(self.pixels[y][x]);
                proof {
                    assert(g[y as int].take(x + 1 as int) =~= g[y as int].take(x as int).push(
                        g[y as int][x as int],
                    ));
                }
                x = x + 1;
            }
            proof {
                assert(g[y as int].take(WIDTH as int) =~= g[y as int]);
                assert(g.take(y + 1 as int).drop_last() =~= g.take(y as int));
                assert(flatten_rows(g.take(y + 1 as int)) == flatten_rows(g.take(y as int)) + g[y as int]);
            }
            y = y + 1;
        }
        proof {
            assert(g.take(HEIGHT as int) =~= g);
            lemma_flatten_rows_row_major(g, WIDTH as int);
            assert(HEIGHT * WIDTH == g.len() * (WIDTH as int)) by (nonlinear_arith)
                requires
                    g.len() == HEIGHT,
            {
            }
        }
        out
    }

    /// Serializes the image: the P3 header, a blank line, then one text
    /// line per pixel in row-major order, top row first.
    pub fn to_ppm(&self) -> (r: Vec<u8>)
        requires
            self.wf(),
        ensures
            r@ == ppm_bytes(WIDTH as nat, HEIGHT as nat, self.grid()),
    {
        let ghost g = self.grid();
        let mut out: Vec<u8> = Vec::new();
        out.push(80);
        out.push(51);
        out.push(32);
        push_dec(&mut out, WIDTH as u64);
        out.push(32);
        push_dec(&mut out, HEIGHT as u64);
        out.push(32);
        push_dec(&mut out, 255);
        out.push(10);
        out.push(10);
        proof {
            assert(out@ =~= header_bytes(WIDTH as nat, HEIGHT as nat));
        }
        let mut y: usize = 0;
        while y < HEIGHT
            invariant
                self.wf(),
                g == self.grid(),
                y <= HEIGHT,
                out@ == header_bytes(WIDTH as nat, HEIGHT as nat) + rows_bytes(g.take(y as int)),
            decreases HEIGHT - y,
        {
            let mut x: usize = 0;
            while x < WIDTH
                invariant
                    self.wf(),
                    g == self.grid(),
                    y < HEIGHT,
                    x <= WIDTH,
                    out@ == header_bytes(WIDTH as nat, HEIGHT as nat) + rows_bytes(
                        g.take(y as int),
                    ) + row_bytes(g[y as int].take(x as int)),
                decreases WIDTH - x,
            {
                let p = self.pixels[y][x];
                p.render_into(&mut out);
                proof {
                    assert(g[y as int].take(x + 1 as int).drop_last() =~= g[y as int].take(
                        x as int,
                    ));
                    assert(g[y as int].take(x + 1 as int).last() == g[y as int][x as int]);
                }
                x = x + 1;
            }
            proof {
                assert(g[y as int].take(WIDTH as int) =~= g[y as int]);
                assert(g.take(y + 1 as int).drop_last() =~= g.take(y as int));
                assert(g.take(y + 1 as int).last() == g[y as int]);
            }
            y = y + 1;
        }
        proof {
            assert(g.take(HEIGHT as int) =~= g);
        }
        out
    }
}

impl<const WIDTH: usize, const HEIGHT: usize> Default for Image<WIDTH, HEIGHT> {
    /// The all-black image: a `WIDTH` by `HEIGHT` grid of zeroed pixels.
    fn default() -> (r: Self)
        ensures
            r.wf(),
            forall|y: int, x: int|
                0 <= y < HEIGHT && 0 <= x < WIDTH ==> {
                    let p = #[trigger] r.grid()[y][x];
                    p.r == 0 && p.g == 0 && p.b == 0
                },
    {
        let mut pixels: Vec<Vec<Pixel>> = Vec::new();
        let mut y: usize = 0;
        while y < HEIGHT
            invariant
                y <= HEIGHT,
                pixels@.len() == y,
                forall|yy: int| 0 <= yy < y ==> (#[trigger] pixels@[yy])@.len() == WIDTH,
                forall|yy: int, xx: int|
                    0 <= yy < y && 0 <= xx < WIDTH ==> {
                        let p = #[trigger] pixels@[yy]@[xx];
                        p.r == 0 && p.g == 0 && p.b == 0
                    },
            decreases HEIGHT - y,
        {
            let mut row: Vec<Pixel> = Vec::new();
            let mut x: usize = 0;
            while x < WIDTH
                invariant
                    x <= WIDTH,
                    row@.len() == x,
                    forall|xx: int|
                        0 <= xx < x ==> {
                            let p = #[trigger] row@[xx];
                            p.r == 0 && p.g == 0 && p.b == 0
                        },
                decreases WIDTH - x,
            {
                row.push(Pixel::new(0, 0, 0));
                x = x + 1;
            }
            pixels.push(row);
            y = y + 1;
        }
        Image { pixels }
    }
}

} // verus!
