use vstd::prelude::*;

use crate::error::FireError;
use crate::palette::Palette;
use crate::palette::Rgba;
use crate::rng::FireRng;
use crate::rng::decay_from;
use crate::rng::next_state;

verus! {

/// Rows strictly above this row index are never sources of a tick, so the
/// top margin of the grid stays permanently cold.
pub const DECAY_MARGIN: usize = 5;

/// The cellular-automaton state of the fire effect: a `width` x `height`
/// grid of palette intensity indices, stored row-major, together with the
/// palette size it must respect and the injected random source.
#[derive(Clone, Debug, PartialEq, Eq)]
pub struct FireField {
    /// Row-major intensity indices; the cell at row `y`, column `x` sits at
    /// `y * width + x`.
    pub grid: Vec<usize>,
    pub width: usize,
    pub height: usize,
    /// The size of the palette the grid indexes into.
    pub palette_len: usize,
    /// The seedable source of decay draws.
    pub rng: FireRng,
}

/// What one tick does to one written cell, given the pre-tick value of the
/// source cell directly below it: a cold source turns it cold, a burning
/// source hands its value up, cooled by at most one.
pub open spec fn step_cell_ok(src: int, dst: int) -> bool {
    &&& (src == 0 ==> dst == 0)
    &&& dst <= src
    &&& (src > 0 ==> src - 1 <= dst)
}

/// Everything one tick promises of the grid: geometry kept, cells kept
/// inside the palette range, every row outside the written band (the rows
/// from `DECAY_MARGIN - 1` up to but excluding the ignition row) unchanged,
/// and every written cell decayed from the source cell below it.
pub open spec fn step_rel(pre: FireField, post: FireField) -> bool {
    &&& post.width == pre.width
    &&& post.height == pre.height
    &&& post.palette_len == pre.palette_len
    &&& post.grid@.len() == pre.grid@.len()
    &&& (pre.cells_in_range() ==> post.cells_in_range())
    &&& forall|y: int, x: int|
        0 <= y < pre.height && 0 <= x < pre.width && !(DECAY_MARGIN - 1 <= y < pre.height - 1)
            ==> (#[trigger] post.cell(y, x)) == pre.cell(y, x)
    &&& forall|y: int, x: int|
        DECAY_MARGIN - 1 <= y < pre.height - 1 && 0 <= x < pre.width ==> step_cell_ok(
            pre.cell(y + 1, x),
            #[trigger] post.cell(y, x),
        )
}

/// The generator state after one tick has processed the sources at flat
/// positions `[from, to)` of the pre-tick grid, starting from state `s`:
/// each burning source consumes exactly one draw, cold sources consume
/// none.
pub open spec fn rng_state_after(pre: Seq<usize>, from: int, to: int, s: u64) -> u64
    decreases to - from,
{
    if from >= to {
        s
    } else if pre[from] == 0 {
        rng_state_after(pre, from + 1, to, s)
    } else {
        rng_state_after(pre, from + 1, to, next_state(s))
    }
}

/// The exact value one tick writes above the source at flat position `i`,
/// given the pre-tick grid and the generator state `s0` at the start of the
/// tick; `start` is the flat position of the first source of the tick.
pub open spec fn stepped_cell(pre: Seq<usize>, start: int, i: int, s0: u64) -> int {
    if pre[i] == 0 {
        0
    } else {
        pre[i] - decay_from(next_state(rng_state_after(pre, start, i, s0)))
    }
}

/// Processing one more source extends the generator run by one draw when
/// that source burns and by none when it is cold.
proof fn lemma_rng_state_after_snoc(pre: Seq<usize>, from: int, to: int, s: u64)
    requires
        from <= to,
    ensures
        rng_state_after(pre, from, to + 1, s) == (if pre[to] == 0 {
            rng_state_after(pre, from, to, s)
        } else {
            next_state(rng_state_after(pre, from, to, s))
        }),
    decreases to - from,
{
    if from < to {
        if pre[from] == 0 {
            lemma_rng_state_after_snoc(pre, from + 1, to, s);
        } else {
            lemma_rng_state_after_snoc(pre, from + 1, to, next_state(s));
        }
    } else {
        assert(rng_state_after(pre, from + 1, to + 1, s) == s);
        assert(rng_state_after(pre, from + 1, to + 1, next_state(s)) == next_state(s));
        assert(rng_state_after(pre, from, to, s) == s);
    }
}

/// The four bytes of pixel `i` in a raster buffer hold the channels of
/// color `c`, in r, g, b, a order.
pub open spec fn pixel_ok(b: Seq<u8>, i: int, c: Rgba) -> bool {
    &&& b[4 * i] == c.r
    &&& b[4 * i + 1] == c.g
    &&& b[4 * i + 2] == c.b
    &&& b[4 * i + 3] == c.a
}

/// Row-major index arithmetic: where a cell's flat index lands.
proof fn lemma_flat_index(width: int, height: int, y: int, x: int)
    by (nonlinear_arith)
    requires
        0 < width,
        0 <= x < width,
        0 <= y < height,
    ensures
        0 <= y * width + x < height * width,
        y < height - 1 ==> y * width + x < (height - 1) * width,
        y == height - 1 ==> (height - 1) * width <= y * width + x,
        (y - 1) * width + x == y * width + x - width,
{
}

/// Row-major indexing is injective over cells of one grid.
proof fn lemma_flat_injective(width: int, y1: int, x1: int, y2: int, x2: int)
    by (nonlinear_arith)
    requires
        0 < width,
        0 <= x1 < width,
        0 <= x2 < width,
        0 <= y1,
        0 <= y2,
    ensures
        y1 * width + x1 == y2 * width + x2 ==> (y1 == y2 && x1 == x2),
{
}

/// A zero-filled row-major grid with the bottom row seeded at the hottest
/// palette index.
fn seeded_grid(width: usize, height: usize, palette_len: usize) -> (g: Vec<usize>)
    requires
        0 < width,
        0 < height,
        2 <= palette_len,
        width * height * 4 <= usize::MAX,
    ensures
        g@.len() == width * height,
        forall|i: int| 0 <= i < g@.len() ==> #[trigger] g@[i] < palette_len,
        forall|i: int| 0 <= i < (height - 1) * width ==> #[trigger] g@[i] == 0,
        forall|i: int| (height - 1) * width <= i < g@.len() ==> #[trigger] g@[i] == palette_len - 1,
{
    proof {
        lemma_flat_index(width as int, height as int, height as int - 1, 0);
        assert((height - 1) * width + width == height * width) by (nonlinear_arith);
    }
    let total: usize = width * height;
    let mut g: Vec<usize> = vec![0usize; total];
    let bottom_start: usize = (height - 1) * width;
    let mut x: usize = 0;
    while x < width
        invariant
            0 < width,
            0 < height,
            2 <= palette_len,
            x <= width,
            total == width * height,
            bottom_start == (height - 1) * width,
            bottom_start + width == total,
            g@.len() == total,
            forall|i: int| 0 <= i < bottom_start ==> #[trigger] g@[i] == 0,
            forall|i: int| bottom_start <= i < bottom_start + x ==> #[trigger] g@[i] == palette_len
                - 1,
            forall|i: int| bottom_start + x <= i < g@.len() ==> #[trigger] g@[i] == 0,
        decreases width - x,
    {
        g[bottom_start + x] = palette_len - 1;
        x += 1;
    }
    proof {
        assert forall|i: int| 0 <= i < g@.len() implies #[trigger] g@[i] < palette_len by {
            if i < bottom_start {
                assert(g@[i] == 0);
            } else {
                assert(g@[i] == palette_len - 1);
            }
        }
    }
    g
}

impl FireField {
    /// The flat index of the cell at row `y`, column `x`.
    pub open spec fn idx(self, y: int, x: int) -> int {
        y * self.width + x
    }

    /// The intensity index stored at row `y`, column `x`.
    pub open spec fn cell(self, y: int, x: int) -> int {
        self.grid@[self.idx(y, x)] as int
    }

    /// The grid geometry agrees with itself, the palette has at least two
    /// stops, and a 4-byte pixel per cell still fits in a byte buffer.
    pub open spec fn dims_ok(self) -> bool {
        &&& 0 < self.width
        &&& 0 < self.height
        &&& 2 <= self.palette_len
        &&& self.grid@.len() == self.width * self.height
        &&& self.width * self.height * 4 <= usize::MAX
    }

    /// Every cell holds a valid palette index.
    pub open spec fn cells_in_range(self) -> bool {
        forall|i: int| 0 <= i < self.grid@.len() ==> #[trigger] self.grid@[i] < self.palette_len
    }

    /// The bottom row — the perpetual fire source — burns at the hottest
    /// palette index.
    pub open spec fn ignition_ok(self) -> bool {
        forall|x: int|
            0 <= x < self.width ==> #[trigger] self.cell(self.height - 1, x) == self.palette_len
                - 1
    }

    /// The field's invariant; established by `create`, preserved by every
    /// operation, re-established from scratch by `resize`.
    pub open spec fn wf(self) -> bool {
        self.dims_ok() && self.cells_in_range() && self.ignition_ok()
    }

    /// A freshly seeded field of the given geometry: everything cold except
    /// the ignition row.
    pub open spec fn is_fresh(self, width: int, height: int, palette_len: int) -> bool {
        &&& self.wf()
        &&& self.width == width
        &&& self.height == height
        &&& self.palette_len == palette_len
        &&& forall|y: int, x: int|
            0 <= y < height - 1 && 0 <= x < width ==> #[trigger] self.cell(y, x) == 0
    }

    /// Allocates a fresh field: a zero-filled grid whose bottom row is
    /// seeded at the hottest palette index. Fails exactly when a dimension
    /// is zero.
    pub fn create(width: usize, height: usize, palette_len: usize, rng: FireRng) -> (r: Result<
        FireField,
        FireError,
    >)
        requires
            2 <= palette_len,
            width * height * 4 <= usize::MAX,
        ensures
            (width == 0 || height == 0) ==> r == Err::<FireField, FireError>(
                FireError::InvalidDimensions,
            ),
            (width != 0 && height != 0) ==> (r matches Ok(f) && f.is_fresh(
                width as int,
                height as int,
                palette_len as int,
            ) && f.rng == rng),
    {
        if width == 0 || height == 0 {
            return Err(FireError::InvalidDimensions);
        }
        let grid = seeded_grid(width, height, palette_len);
        let f = FireField { grid, width, height, palette_len, rng };
        proof {
            lemma_fresh_from_flat(f);
        }
        Ok(f)
    }

    /// Reallocates the grid to the new dimensions, discarding all prior
    /// simulation state and reseeding the ignition row on the new bottom
    /// edge. Fails exactly when a new dimension is zero, and then leaves
    /// the field untouched.
    pub fn resize(&mut self, new_width: usize, new_height: usize) -> (r: Result<(), FireError>)
        requires
            old(self).dims_ok(),
            new_width * new_height * 4 <= usize::MAX,
        ensures
            (new_width == 0 || new_height == 0) ==> (r == Err::<(), FireError>(
                FireError::InvalidDimensions,
            ) && *final(self) == *old(self)),
            (new_width != 0 && new_height != 0) ==> (r == Ok::<(), FireError>(())
                && final(self).is_fresh(
                new_width as int,
                new_height as int,
                old(self).palette_len as int,
            ) && final(self).rng == old(self).rng),
    {
        if new_width == 0 || new_height == 0 {
            return Err(FireError::InvalidDimensions);
        }
        self.grid = seeded_grid(new_width, new_height, self.palette_len);
        self.width = new_width;
        self.height = new_height;
        proof {
            lemma_fresh_from_flat(*self);
        }
        Ok(())
    }

    /// The given byte sequence is exactly this field rendered through the
    /// given palette: four bytes per cell, row-major, each cell's intensity
    /// index mapped to the palette color at that index.
    pub open spec fn raster_bytes_ok(self, palette: Palette, b: Seq<u8>) -> bool {
        &&& b.len() == self.width * self.height * 4
        &&& forall|i: int|
            0 <= i < self.width * self.height ==> #[trigger] pixel_ok(
                b,
                i,
                palette.entries@[self.grid@[i] as int],
            )
    }

    /// Writes the palette-mapped color of every cell into the corresponding
    /// 4-byte slot of `out`, in row-major order. Fails exactly when `out`
    /// does not hold four bytes per cell, and then leaves `out` untouched;
    /// nothing partial is ever observable.
    pub fn rasterize(&self, palette: &Palette, out: &mut Vec<u8>) -> (r: Result<(), FireError>)
        requires
            self.dims_ok(),
            self.cells_in_range(),
            palette.entries@.len() == self.palette_len,
        ensures
            old(out)@.len() != self.width * self.height * 4 ==> (r == Err::<(), FireError>(
                FireError::BufferSizeMismatch,
            ) && final(out)@ == old(out)@),
            old(out)@.len() == self.width * self.height * 4 ==> (r == Ok::<(), FireError>(())
                && self.raster_bytes_ok(*palette, final(out)@)),
    {
        let total: usize = self.width * self.height;
        let expected: usize = total * 4;
        if out.len() != expected {
            return Err(FireError::BufferSizeMismatch);
        }
        let mut i: usize = 0;
        while i < total
            invariant
                self.dims_ok(),
                self.cells_in_range(),
                palette.entries@.len() == self.palette_len,
                total == self.width * self.height,
                expected == total * 4,
                out@.len() == expected,
                i <= total,
                forall|j: int|
                    0 <= j < i ==> #[trigger] pixel_ok(
                        out@,
                        j,
                        palette.entries@[self.grid@[j] as int],
                    ),
            decreases total - i,
        {
            let ghost out0 = out@;
            let v: usize = self.grid[i];
            let c = palette.entries[v];
            let base: usize = 4 * i;
            out[base] = c.r;
            out[base + 1] = c.g;
            out[base + 2] = c.b;
            out[base + 3] = c.a;
            proof {
                assert forall|j: int| 0 <= j < i + 1 implies #[trigger] pixel_ok(
                    out@,
                    j,
                    palette.entries@[self.grid@[j] as int],
                ) by {
                    if j < i {
                        assert(pixel_ok(out0, j, palette.entries@[self.grid@[j] as int]));
                    }
                }
            }
            i += 1;
        }
        Ok(())
    }

    /// Advances the simulation by exactly one tick, in place. Every source
    /// cell from the margin row down to the bottom hands its intensity to
    /// the cell directly above: a cold source turns that cell cold, a
    /// burning source passes its value up, cooled by a random draw of 0 or
    /// 1. The ignition row is never written, so the fire source is
    /// perpetual. Rows are processed from the margin row downward and left
    /// to right, so every write lands in a row whose sources were already
    /// read. Never fails.
    pub fn step(&mut self)
        requires
            old(self).dims_ok(),
            old(self).cells_in_range(),
        ensures
            step_rel(*old(self), *final(self)),
            final(self).dims_ok(),
            final(self).cells_in_range(),
            old(self).ignition_ok() ==> final(self).ignition_ok(),
            final(self).rng.state == rng_state_after(
                old(self).grid@,
                DECAY_MARGIN * old(self).width,
                old(self).height * old(self).width,
                old(self).rng.state,
            ),
            forall|y: int, x: int|
                DECAY_MARGIN - 1 <= y < old(self).height - 1 && 0 <= x < old(self).width ==> (
                #[trigger] final(self).cell(y, x)) == stepped_cell(
                    old(self).grid@,
                    DECAY_MARGIN * old(self).width,
                    (y + 1) * old(self).width + x,
                    old(self).rng.state,
                ),
    {
        let w: usize = self.width;
        let h: usize = self.height;
        let ghost pre = *self;
        let mut y: usize = DECAY_MARGIN;
        while y < h
            invariant
                pre.dims_ok(),
                pre.cells_in_range(),
                w == pre.width,
                h == pre.height,
                self.width == pre.width,
                self.height == pre.height,
                self.palette_len == pre.palette_len,
                self.grid@.len() == pre.grid@.len(),
                DECAY_MARGIN <= y,
                y <= h || y == DECAY_MARGIN,
                self.cells_in_range(),
                forall|yy: int, xx: int|
                    0 <= yy < h && 0 <= xx < w && !(DECAY_MARGIN - 1 <= yy < y - 1) ==> (
                    #[trigger] self.cell(yy, xx)) == pre.cell(yy, xx),
                forall|yy: int, xx: int|
                    DECAY_MARGIN - 1 <= yy < y - 1 && 0 <= xx < w ==> step_cell_ok(
                        pre.cell(yy + 1, xx),
                        #[trigger] self.cell(yy, xx),
                    ),
                self.rng.state == rng_state_after(
                    pre.grid@,
                    DECAY_MARGIN * w,
                    y * w,
                    pre.rng.state,
                ),
                forall|yy: int, xx: int|
                    DECAY_MARGIN - 1 <= yy < y - 1 && 0 <= xx < w ==> (#[trigger] self.cell(
                        yy,
                        xx,
                    )) == stepped_cell(pre.grid@, DECAY_MARGIN * w, (yy + 1) * w + xx, pre.rng.state),
            decreases h - y,
        {
            let mut x: usize = 0;
            while x < w
                invariant
                    pre.dims_ok(),
                    pre.cells_in_range(),
                    w == pre.width,
                    h == pre.height,
                    self.width == pre.width,
                    self.height == pre.height,
                    self.palette_len == pre.palette_len,
                    self.grid@.len() == pre.grid@.len(),
                    DECAY_MARGIN <= y < h,
                    x <= w,
                    self.cells_in_range(),
                    forall|yy: int, xx: int|
                        0 <= yy < h && 0 <= xx < w && !(DECAY_MARGIN - 1 <= yy < y) ==> (
                        #[trigger] self.cell(yy, xx)) == pre.cell(yy, xx),
                    forall|xx: int|
                        x <= xx < w ==> (#[trigger] self.cell(y - 1, xx)) == pre.cell(y - 1, xx),
                    forall|yy: int, xx: int|
                        DECAY_MARGIN - 1 <= yy < y - 1 && 0 <= xx < w ==> step_cell_ok(
                            pre.cell(yy + 1, xx),
                            #[trigger] self.cell(yy, xx),
                        ),
                    forall|xx: int|
                        0 <= xx < x ==> step_cell_ok(
                            pre.cell(y as int, xx),
                            #[trigger] self.cell(y - 1, xx),
                        ),
                    self.rng.state == rng_state_after(
                        pre.grid@,
                        DECAY_MARGIN * w,
                        y * w + x,
                        pre.rng.state,
                    ),
                    forall|yy: int, xx: int|
                        DECAY_MARGIN - 1 <= yy < y - 1 && 0 <= xx < w ==> (#[trigger] self.cell(
                            yy,
                            xx,
                        )) == stepped_cell(
                            pre.grid@,
                            DECAY_MARGIN * w,
                            (yy + 1) * w + xx,
                            pre.rng.state,
                        ),
                    forall|xx: int|
                        0 <= xx < x ==> (#[trigger] self.cell(y - 1, xx)) == stepped_cell(
                            pre.grid@,
                            DECAY_MARGIN * w,
                            y * w + xx,
                            pre.rng.state,
                        ),
                decreases w - x,
            {
                let ghost cur = *self;
                proof {
                    lemma_flat_index(w as int, h as int, y as int, x as int);
                    lemma_flat_index(w as int, h as int, y as int - 1, x as int);
                }
                let src_i: usize = y * w + x;
                let v: usize = self.grid[src_i];
                let dst_i: usize = src_i - w;
                proof {
                    assert(v == cur.cell(y as int, x as int));
                    assert(v == pre.cell(y as int, x as int));
                    assert(v == pre.grid@[src_i as int]);
                    assert(5 * (w as int) <= (y as int) * (w as int)) by (nonlinear_arith)
                        requires
                            5 <= y as int,
                            0 <= w as int,
                    ;
                    lemma_rng_state_after_snoc(
                        pre.grid@,
                        DECAY_MARGIN * (w as int),
                        src_i as int,
                        pre.rng.state,
                    );
                }
                let newval: usize;
                if v == 0 {
                    newval = 0;
                } else {
                    let d: usize = self.rng.next_decay();
                    newval = v - d;
                }
                proof {
                    assert(self.rng.state == rng_state_after(
                        pre.grid@,
                        DECAY_MARGIN * (w as int),
                        src_i as int + 1,
                        pre.rng.state,
                    ));
                    assert(newval as int == stepped_cell(
                        pre.grid@,
                        DECAY_MARGIN * (w as int),
                        src_i as int,
                        pre.rng.state,
                    ));
                }
                proof {
                    assert(self.grid@ == cur.grid@);
                }
                self.grid[dst_i] = newval;
                proof {
                    let wi: int = w as int;
                    let hi: int = h as int;
                    let yi: int = y as int;
                    let xi: int = x as int;
                    assert(dst_i == (yi - 1) * wi + xi);
                    assert(self.grid@ == cur.grid@.update(dst_i as int, newval));
                    assert(step_cell_ok(pre.cell(yi, xi), newval as int));
                    assert(self.cell(yi - 1, xi) == newval);
                    assert forall|yy: int, xx: int|
                        0 <= yy < hi && 0 <= xx < wi && !(yy == yi - 1 && xx == xi) implies (
                    #[trigger] self.cell(yy, xx)) == cur.cell(yy, xx) by {
                        lemma_flat_index(wi, hi, yy, xx);
                        lemma_flat_injective(wi, yy, xx, yi - 1, xi);
                    }
                }
                x += 1;
            }
            proof {
                assert((y as int + 1) * (w as int) == (y as int) * (w as int) + (w as int))
                    by (nonlinear_arith);
            }
            y += 1;
        }
        proof {
            if h <= DECAY_MARGIN {
                assert((h as int) * (w as int) <= 5 * (w as int)) by (nonlinear_arith)
                    requires
                        h as int <= 5,
                        0 <= w as int,
                ;
            }
        }
    }
}

/// A grid that is flat-zero below the bottom-row offset and flat-hottest
/// from there on is fresh in row/column terms.
proof fn lemma_fresh_from_flat(f: FireField)
    requires
        f.dims_ok(),
        forall|i: int| 0 <= i < (f.height - 1) * f.width ==> #[trigger] f.grid@[i] == 0,
        forall|i: int|
            (f.height - 1) * f.width <= i < f.grid@.len() ==> #[trigger] f.grid@[i]
                == f.palette_len - 1,
    ensures
        f.is_fresh(f.width as int, f.height as int, f.palette_len as int),
{
    let w: int = f.width as int;
    let h: int = f.height as int;
    assert forall|y: int, x: int| 0 <= y < h - 1 && 0 <= x < w implies #[trigger] f.cell(y, x)
        == 0 by {
        lemma_flat_index(w, h, y, x);
    }
    assert forall|x: int| 0 <= x < w implies #[trigger] f.cell(h - 1, x) == f.palette_len - 1 by {
        lemma_flat_index(w, h, h - 1, x);
    }
    assert forall|i: int| 0 <= i < f.grid@.len() implies #[trigger] f.grid@[i]
        < f.palette_len by {
        if i < (h - 1) * w {
            assert(f.grid@[i] == 0);
        } else {
            assert(f.grid@[i] == f.palette_len - 1);
        }
    }
}

} // verus!
