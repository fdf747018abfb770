//! The shared framebuffer: a fixed-size grid of packed `0x00RRGGBB` cells
//! with alpha-blending writes.
//!
//! A cell stores a 32-bit word whose top (alpha) byte is always zero: the
//! alpha byte of an incoming paint colour is a blend instruction, never a
//! persisted channel.

use vstd::prelude::*;

verus! {

/// Linear interpolation of one 8-bit channel from `x` (destination) toward
/// `y` (source) with weight `a / 255`.
pub open spec fn spec_mix(x: u8, y: u8, a: u8) -> u8 {
    (((x as int) * (255 - a as int) + (y as int) * (a as int)) / 255) as u8
}

proof fn lemma_mix_in_range(x: u8, y: u8, a: u8)
    ensures
        0 <= (x as int) * (255 - a as int) + (y as int) * (a as int) <= 255 * 255,
        x <= y ==> x <= spec_mix(x, y, a) <= y,
        y <= x ==> y <= spec_mix(x, y, a) <= x,
        a == 255 ==> spec_mix(x, y, a) == y,
        a == 0 ==> spec_mix(x, y, a) == x,
{
    let xi = x as int;
    let yi = y as int;
    let ai = a as int;
    let n = xi * (255 - ai) + yi * ai;
    assert(0 <= n <= 255 * 255) by (nonlinear_arith)
        requires
            n == xi * (255 - ai) + yi * ai,
            0 <= xi <= 255 && 0 <= yi <= 255 && 0 <= ai <= 255;
    assert(xi <= yi ==> xi <= n / 255 <= yi) by (nonlinear_arith)
        requires
            n == xi * (255 - ai) + yi * ai,
            0 <= xi && 0 <= yi && 0 <= ai <= 255;
    assert(yi <= xi ==> yi <= n / 255 <= xi) by (nonlinear_arith)
        requires
            n == xi * (255 - ai) + yi * ai,
            0 <= xi && 0 <= yi && 0 <= ai <= 255;
    assert(ai == 255 ==> n / 255 == yi) by (nonlinear_arith)
        requires
            n == xi * (255 - ai) + yi * ai,
            0 <= yi;
    assert(ai == 0 ==> n / 255 == xi) by (nonlinear_arith)
        requires
            n == xi * (255 - ai) + yi * ai,
            0 <= xi;
}

/// One blended channel. `alpha = 255` paints `y` exactly, `alpha = 0` keeps
/// `x` exactly, and any alpha yields a value between the two endpoints.
pub fn mix(x: u8, y: u8, a: u8) -> (r: u8)
    ensures
        r == spec_mix(x, y, a),
        a == 255 ==> r == y,
        a == 0 ==> r == x,
        x <= y ==> x <= r <= y,
        y <= x ==> y <= r <= x,
{
    proof {
        lemma_mix_in_range(x, y, a);
    }
    let n: u32 = (x as u32) * (255 - a as u32) + (y as u32) * (a as u32);
    (n / 255) as u8
}

/// The alpha byte of a packed `0xAARRGGBB` word.
pub open spec fn alpha_of(v: u32) -> u8 {
    (v >> 24) as u8
}

/// The red byte of a packed word.
pub open spec fn red_of(v: u32) -> u8 {
    ((v >> 16) & 0xff) as u8
}

/// The green byte of a packed word.
pub open spec fn green_of(v: u32) -> u8 {
    ((v >> 8) & 0xff) as u8
}

/// The blue byte of a packed word.
pub open spec fn blue_of(v: u32) -> u8 {
    (v & 0xff) as u8
}

/// Three channels packed as `0x00RRGGBB`: the alpha byte is forced to zero.
pub open spec fn pack_rgb(r: u8, g: u8, b: u8) -> u32 {
    ((r as u32) << 16) | ((g as u32) << 8) | (b as u32)
}

/// The value a cell holds after painting `src` (packed `0xAARRGGBB`) over
/// `dst`: each colour channel interpolated with weight `alpha_of(src) / 255`,
/// the stored alpha byte forced to zero.
pub open spec fn spec_blend(dst: u32, src: u32) -> u32 {
    pack_rgb(
        spec_mix(red_of(dst), red_of(src), alpha_of(src)),
        spec_mix(green_of(dst), green_of(src), alpha_of(src)),
        spec_mix(blue_of(dst), blue_of(src), alpha_of(src)),
    )
}

/// `m` lies between `a` and `b`, whichever of the two is smaller.
pub open spec fn channel_between(a: u8, m: u8, b: u8) -> bool {
    (a <= m <= b) || (b <= m <= a)
}

proof fn lemma_pack_parts(r: u8, g: u8, b: u8)
    ensures
        red_of(pack_rgb(r, g, b)) == r,
        green_of(pack_rgb(r, g, b)) == g,
        blue_of(pack_rgb(r, g, b)) == b,
        alpha_of(pack_rgb(r, g, b)) == 0,
        pack_rgb(r, g, b) < 0x1000000,
{
    let v = ((r as u32) << 16) | ((g as u32) << 8) | (b as u32);
    assert(((v >> 16) & 0xff) as u8 == r && ((v >> 8) & 0xff) as u8 == g && (v & 0xff) as u8 == b
        && (v >> 24) as u8 == 0 && v < 0x1000000) by (bit_vector)
        requires
            v == ((r as u32) << 16) | ((g as u32) << 8) | (b as u32);
}

proof fn lemma_pack_unpack(v: u32)
    ensures
        pack_rgb(red_of(v), green_of(v), blue_of(v)) == v & 0xffffff,
        v < 0x1000000 ==> pack_rgb(red_of(v), green_of(v), blue_of(v)) == v,
{
    assert(((((v >> 16) & 0xff) as u8 as u32) << 16) | ((((v >> 8) & 0xff) as u8 as u32) << 8) | (
    (v & 0xff) as u8 as u32) == v & 0xffffff) by (bit_vector);
    assert(v < 0x1000000 ==> v & 0xffffff == v) by (bit_vector);
}

/// What the blend promises: an opaque paint replaces the RGB outright, a
/// fully transparent one changes nothing, and any paint leaves each channel
/// between the two endpoints, with the stored alpha byte zero.
pub proof fn lemma_blend_properties(dst: u32, src: u32)
    ensures
        spec_blend(dst, src) < 0x1000000,
        alpha_of(spec_blend(dst, src)) == 0,
        alpha_of(src) == 255 ==> spec_blend(dst, src) == src & 0xffffff,
        alpha_of(src) == 0 && dst < 0x1000000 ==> spec_blend(dst, src) == dst,
        channel_between(red_of(dst), red_of(spec_blend(dst, src)), red_of(src)),
        channel_between(green_of(dst), green_of(spec_blend(dst, src)), green_of(src)),
        channel_between(blue_of(dst), blue_of(spec_blend(dst, src)), blue_of(src)),
{
    let a = alpha_of(src);
    let r = spec_mix(red_of(dst), red_of(src), a);
    let g = spec_mix(green_of(dst), green_of(src), a);
    let b = spec_mix(blue_of(dst), blue_of(src), a);
    lemma_mix_in_range(red_of(dst), red_of(src), a);
    lemma_mix_in_range(green_of(dst), green_of(src), a);
    lemma_mix_in_range(blue_of(dst), blue_of(src), a);
    lemma_pack_parts(r, g, b);
    lemma_pack_unpack(src);
    lemma_pack_unpack(dst);
}

/// Blends the packed paint colour `src` (`0xAARRGGBB`) into the cell `x`
/// (`0x00RRGGBB`), storing the result with its alpha byte forced to zero.
pub fn mix_in_place(x: &mut u32, y: u32)
    ensures
        *final(x) == spec_blend(*old(x), y),
        *final(x) < 0x1000000,
        alpha_of(y) == 255 ==> *final(x) == y & 0xffffff,
        alpha_of(y) == 0 && *old(x) < 0x1000000 ==> *final(x) == *old(x),
{
    let a = (y >> 24) as u8;
    let yr = ((y >> 16) & 0xff) as u8;
    let yg = ((y >> 8) & 0xff) as u8;
    let yb = (y & 0xff) as u8;
    let xr = ((*x >> 16) & 0xff) as u8;
    let xg = ((*x >> 8) & 0xff) as u8;
    let xb = (*x & 0xff) as u8;
    let r = mix(xr, yr, a);
    let g = mix(xg, yg, a);
    let b = mix(xb, yb, a);
    proof {
        lemma_blend_properties(*x, y);
    }
    *x = ((r as u32) << 16) | ((g as u32) << 8) | (b as u32);
}

/// The deterministic pattern a fresh canvas is filled with, so that an
/// untouched canvas is visibly non-trivial. Always below `0x1000000`.
pub open spec fn init_pixel(x: usize, y: usize) -> u32 {
    ((((x as u64) ^ ((((y as u64) % 0x40000) * 64) as u64)) % 0x1000000) as u32)
}

proof fn lemma_cell_order(w: int, x1: int, y1: int, x2: int, y2: int)
    requires
        0 <= x1 < w,
        0 <= x2 < w,
        0 <= y1,
        y1 < y2 || (y1 == y2 && x1 < x2),
    ensures
        y1 * w + x1 < y2 * w + x2,
{
    assert(y1 < y2 ==> y1 * w + w <= y2 * w) by (nonlinear_arith)
        requires 0 < w;
}

proof fn lemma_grid_bound(w: int, h: int, x: int, y: int)
    requires
        0 <= x < w,
        0 <= y < h,
    ensures
        0 <= y * w + x < w * h,
{
    assert(y * w + w <= h * w) by (nonlinear_arith)
        requires 0 < w && y < h;
}

/// The shared framebuffer: `width * height` packed `0x00RRGGBB` cells, row
/// by row, with fixed dimensions for its whole lifetime.
pub struct Canvas {
    pub width: usize,
    pub height: usize,
    pub cells: Vec<u32>,
}

impl Canvas {
    /// Well-formed: one cell for every coordinate, each with a zero alpha
    /// byte.
    pub open spec fn wf(self) -> bool {
        &&& self.cells@.len() == (self.width as int) * (self.height as int)
        &&& (self.width as int) * (self.height as int) <= usize::MAX
        &&& forall|i: int| 0 <= i < self.cells@.len() ==> self.cells@[i] < 0x1000000
    }

    /// Where the cell for `(x, y)` sits in the row-major cell vector.
    pub open spec fn idx(self, x: int, y: int) -> int {
        y * self.width + x
    }

    /// The packed RGB value stored for `(x, y)`.
    pub open spec fn cell(self, x: int, y: int) -> u32 {
        self.cells@[self.idx(x, y)]
    }

    /// `(x, y)` addresses a cell.
    pub open spec fn in_bounds(self, x: int, y: int) -> bool {
        0 <= x < self.width && 0 <= y < self.height
    }

    /// A fresh canvas, every cell holding its coordinate pattern.
    pub fn new(width: usize, height: usize) -> (r: Canvas)
        requires
            (width as int) * (height as int) <= usize::MAX,
        ensures
            r.wf(),
            r.width == width,
            r.height == height,
            forall|x: usize, y: usize|
                r.in_bounds(x as int, y as int) ==> r.cell(x as int, y as int) == init_pixel(x, y),
    {
        let mut cells: Vec<u32> = Vec::new();
        let mut y: usize = 0;
        while y < height
            invariant
                y <= height,
                (width as int) * (height as int) <= usize::MAX,
                cells@.len() == y * width,
                forall|i: int| 0 <= i < cells@.len() ==> cells@[i] < 0x1000000,
                forall|xx: usize, yy: usize|
                    xx < width && yy < y ==> cells@[yy * width + xx] == init_pixel(xx, yy),
            decreases height - y,
        {
            let mut x: usize = 0;
            while x < width
                invariant
                    x <= width,
                    y < height,
                    (width as int) * (height as int) <= usize::MAX,
                    cells@.len() == y * width + x,
                    forall|i: int| 0 <= i < cells@.len() ==> cells@[i] < 0x1000000,
                    forall|xx: usize, yy: usize|
                        xx < width && (yy < y || (yy == y && xx < x)) ==> cells@[yy * width
                            + xx] == init_pixel(xx, yy),
                decreases width - x,
            {
                let ym: u64 = ((y as u64) % 0x40000) * 64;
                let p: u32 = (((x as u64) ^ ym) % 0x1000000) as u32;
                cells.push(p);
                proof {
                    assert forall|xx: usize, yy: usize|
                        xx < width && (yy < y || (yy == y && xx < x)) implies #[trigger] (yy * width
                        + xx) < y * width + x by {
                        lemma_cell_order(width as int, xx as int, yy as int, x as int, y as int);
                    };
                }
                x = x + 1;
            }
            proof {
                assert((y + 1) * (width as int) == y * (width as int) + width) by (nonlinear_arith);
            }
            y = y + 1;
        }
        proof {
            assert((height as int) * (width as int) == (width as int) * (height as int))
                by (nonlinear_arith);
        }
        Canvas { width, height, cells }
    }

    /// The current RGB value at an in-bounds coordinate; never reports an
    /// alpha byte.
    pub fn get(&self, x: usize, y: usize) -> (r: u32)
        requires
            self.wf(),
            self.in_bounds(x as int, y as int),
        ensures
            r == self.cell(x as int, y as int),
            r < 0x1000000,
    {
        proof {
            lemma_grid_bound(self.width as int, self.height as int, x as int, y as int);
        }
        self.cells[y * self.width + x]
    }

    /// Paints `src` (packed `0xAARRGGBB`) over the cell at an in-bounds
    /// coordinate: the one target cell becomes the blend of its old value
    /// with `src`, every other cell and both dimensions stay as they were.
    pub fn blend_set(&mut self, x: usize, y: usize, src: u32)
        requires
            old(self).wf(),
            old(self).in_bounds(x as int, y as int),
        ensures
            final(self).wf(),
            final(self).width == old(self).width,
            final(self).height == old(self).height,
            final(self).cells@ == old(self).cells@.update(
                old(self).idx(x as int, y as int),
                spec_blend(old(self).cell(x as int, y as int), src),
            ),
            alpha_of(src) == 255 ==> final(self).cell(x as int, y as int) == src & 0xffffff,
            alpha_of(src) == 0 ==> final(self).cell(x as int, y as int) == old(self).cell(
                x as int,
                y as int,
            ),
            channel_between(
                red_of(old(self).cell(x as int, y as int)),
                red_of(final(self).cell(x as int, y as int)),
                red_of(src),
            ),
            channel_between(
                green_of(old(self).cell(x as int, y as int)),
                green_of(final(self).cell(x as int, y as int)),
                green_of(src),
            ),
            channel_between(
                blue_of(old(self).cell(x as int, y as int)),
                blue_of(final(self).cell(x as int, y as int)),
                blue_of(src),
            ),
    {
        proof {
            lemma_grid_bound(self.width as int, self.height as int, x as int, y as int);
            lemma_blend_properties(self.cell(x as int, y as int), src);
        }
        let i = y * self.width + x;
        let mut v = self.cells[i];
        mix_in_place(&mut v, src);
        self.cells[i] = v;
    }
}

} // verus!
