use vstd::arithmetic::div_mod::{
    lemma_add_mod_noop, lemma_fundamental_div_mod, lemma_fundamental_div_mod_converse_mod,
    lemma_mod_division_less_than_divisor, lemma_small_mod,
};
use vstd::prelude::*;

verus! {

/// Width of the bitmap in pixels.
pub const WIDTH: usize = 64;

/// Height of the bitmap in pixels.
pub const HEIGHT: usize = 32;

/// Number of cells of the bitmap.
pub const CELLS: usize = 64 * 32;

/// The 64x32 monochrome bitmap.  Sprites are drawn by XOR, most significant
/// bit leftmost, and coordinates wrap around both grid dimensions, so a
/// sprite drawn near an edge continues at the opposite edge.  The grid is
/// kept row-major: cell `(x, y)` is entry `y * 64 + x`.
pub struct FrameBuffer {
    pub grid: Vec<bool>,
}

impl View for FrameBuffer {
    type V = Seq<bool>;

    open spec fn view(&self) -> Seq<bool> {
        self.grid@
    }
}

/// One cell of the grid, for the renderer.
pub struct Pixel {
    pub x: usize,
    pub y: usize,
    pub state: bool,
}

/// An all-unset grid.
pub open spec fn blank() -> Seq<bool> {
    Seq::new(2048, |k: int| false)
}

/// Bit `j` of a sprite row byte, most significant first.
pub open spec fn bit_of(b: u8, j: int) -> bool {
    (b >> ((7 - j) as u8)) & 1 == 1
}

/// The flat cell that bit `j` of a row drawn at column `x0` on grid row
/// `y` lands on; both positions wrap.
pub open spec fn row_cell(x0: int, y: int, j: int) -> int {
    (y % 32) * 64 + (x0 + j) % 64
}

/// Whether the first `jmax` bits of row byte `b`, drawn at (`x0`, `y`),
/// cover flat cell `k` with a set bit.
pub open spec fn row_hits_upto(b: u8, x0: int, y: int, k: int, jmax: int) -> bool {
    exists|j: int| 0 <= j < jmax && k == row_cell(x0, y, j) && bit_of(b, j)
}

/// Whether row byte `b`, drawn at (`x0`, `y`), covers flat cell `k` with a
/// set bit.
pub open spec fn row_hits(b: u8, x0: int, y: int, k: int) -> bool {
    row_hits_upto(b, x0, y, k, 8)
}

/// The grid after one 8-pixel row is XOR-drawn.
pub open spec fn draw_row(grid: Seq<bool>, x0: int, y: int, b: u8) -> Seq<bool> {
    Seq::new(grid.len(), |k: int| grid[k] != row_hits(b, x0, y, k))
}

/// Whether one row turns off a pixel that was lit.
pub open spec fn row_collides(grid: Seq<bool>, x0: int, y: int, b: u8) -> bool {
    exists|k: int| 0 <= k < grid.len() && grid[k] && row_hits(b, x0, y, k)
}

/// The grid after a whole sprite is drawn, one row per byte, downward from
/// row `y0`.
pub open spec fn draw_sprite(grid: Seq<bool>, x0: int, y0: int, rows: Seq<u8>) -> Seq<bool>
    decreases rows.len(),
{
    if rows.len() == 0 {
        grid
    } else {
        draw_sprite(draw_row(grid, x0, y0, rows[0]), x0, y0 + 1, rows.skip(1))
    }
}

/// Whether drawing the sprite turns off any pixel that was lit when its
/// row was drawn.
pub open spec fn sprite_collides(grid: Seq<bool>, x0: int, y0: int, rows: Seq<u8>) -> bool
    decreases rows.len(),
{
    if rows.len() == 0 {
        false
    } else {
        row_collides(grid, x0, y0, rows[0]) || sprite_collides(
            draw_row(grid, x0, y0, rows[0]),
            x0,
            y0 + 1,
            rows.skip(1),
        )
    }
}

/// Drawing a sprite is drawing all rows but the last, then the last row.
proof fn lemma_sprite_snoc(grid: Seq<bool>, x0: int, y0: int, rows: Seq<u8>)
    requires
        rows.len() > 0,
    ensures
        draw_sprite(grid, x0, y0, rows) == draw_row(
            draw_sprite(grid, x0, y0, rows.drop_last()),
            x0,
            y0 + rows.len() - 1,
            rows.last(),
        ),
        sprite_collides(grid, x0, y0, rows) == (sprite_collides(grid, x0, y0, rows.drop_last())
            || row_collides(
            draw_sprite(grid, x0, y0, rows.drop_last()),
            x0,
            y0 + rows.len() - 1,
            rows.last(),
        )),
    decreases rows.len(),
{
    if rows.len() == 1 {
        let g1 = draw_row(grid, x0, y0, rows[0]);
        assert(rows.drop_last() =~= Seq::<u8>::empty());
        assert(rows.skip(1) =~= Seq::<u8>::empty());
        assert(draw_sprite(g1, x0, y0 + 1, Seq::<u8>::empty()) == g1);
        assert(draw_sprite(grid, x0, y0, Seq::<u8>::empty()) == grid);
        assert(!sprite_collides(g1, x0, y0 + 1, Seq::<u8>::empty()));
        assert(!sprite_collides(grid, x0, y0, Seq::<u8>::empty()));
        assert(draw_sprite(grid, x0, y0, rows) == g1);
        assert(sprite_collides(grid, x0, y0, rows) == row_collides(grid, x0, y0, rows[0]));
        assert(rows.last() == rows[0]);
    } else {
        let g1 = draw_row(grid, x0, y0, rows[0]);
        let tail = rows.skip(1);
        lemma_sprite_snoc(g1, x0, y0 + 1, tail);
        assert(tail.drop_last() =~= rows.drop_last().skip(1));
        assert(tail.last() == rows.last());
        assert(rows.drop_last()[0] == rows[0]);
        assert(rows.drop_last().len() > 0);
        assert(draw_sprite(grid, x0, y0, rows.drop_last()) == draw_sprite(
            g1,
            x0,
            y0 + 1,
            rows.drop_last().skip(1),
        ));
        assert(sprite_collides(grid, x0, y0, rows.drop_last()) == (row_collides(
            grid,
            x0,
            y0,
            rows[0],
        ) || sprite_collides(g1, x0, y0 + 1, rows.drop_last().skip(1))));
        assert(draw_sprite(grid, x0, y0, rows) == draw_sprite(g1, x0, y0 + 1, tail));
        assert(sprite_collides(grid, x0, y0, rows) == (row_collides(grid, x0, y0, rows[0])
            || sprite_collides(g1, x0, y0 + 1, tail)));
    }
}

/// Two bits of one row land on different cells.
proof fn lemma_row_cell_injective(x0: int, y: int, j1: int, j2: int)
    requires
        0 <= j1 < 64,
        0 <= j2 < 64,
        j1 != j2,
    ensures
        row_cell(x0, y, j1) != row_cell(x0, y, j2),
{
    lemma_fundamental_div_mod(x0 + j1, 64);
    lemma_fundamental_div_mod(x0 + j2, 64);
    lemma_mod_division_less_than_divisor(x0 + j1, 64);
    lemma_mod_division_less_than_divisor(x0 + j2, 64);
    if (x0 + j1) % 64 == (x0 + j2) % 64 {
        let q1 = (x0 + j1) / 64;
        let q2 = (x0 + j2) / 64;
        assert(j1 - j2 == 64 * (q1 - q2));
    }
}

/// A row cell lies inside the grid.
proof fn lemma_row_cell_in_range(x0: int, y: int, j: int)
    ensures
        0 <= row_cell(x0, y, j) < 2048,
        0 <= (y % 32) * 64 <= 1984,
        0 <= (x0 + j) % 64 < 64,
{
    lemma_mod_division_less_than_divisor(y, 32);
    lemma_mod_division_less_than_divisor(x0 + j, 64);
}

/// The eight pixels of a sprite row byte, most significant bit first.
pub fn iterate_u8(u: u8) -> (r: Vec<bool>)
    ensures
        r@.len() == 8,
        forall|j: int| 0 <= j < 8 ==> r@[j] == bit_of(u, j),
{
    let mut r: Vec<bool> = Vec::new();
    let mut j: usize = 0;
    while j < 8
        invariant
            j <= 8,
            r@.len() == j,
            forall|jj: int| 0 <= jj < j ==> r@[jj] == bit_of(u, jj),
        decreases 8 - j,
    {
        let sh: u8 = (7 - j) as u8;
        r.push(((u >> sh) & 1) == 1);
        j += 1;
    }
    r
}

impl FrameBuffer {
    /// The grid holds its whole 64x32 extent.
    pub open spec fn wf(self) -> bool {
        self@.len() == CELLS
    }

    /// A dark grid.
    pub fn new() -> (r: Self)
        ensures
            r.wf(),
            forall|k: int| 0 <= k < CELLS ==> !r@[k],
    {
        let mut fb = FrameBuffer { grid: Vec::new() };
        fb.reset();
        fb
    }

    /// Clears the whole grid to unset.
    pub fn reset(&mut self)
        ensures
            final(self).wf(),
            forall|k: int| 0 <= k < CELLS ==> !final(self)@[k],
    {
        let mut grid: Vec<bool> = Vec::new();
        let mut k: usize = 0;
        while k < CELLS
            invariant
                k <= CELLS,
                grid@.len() == k,
                forall|kk: int| 0 <= kk < k ==> !grid@[kk],
            decreases CELLS - k,
        {
            grid.push(false);
            k += 1;
        }
        self.grid = grid;
    }

    /// A finite, restartable, read-only traversal of the grid for the
    /// renderer: every cell with its coordinates and state, row-major.
    pub fn iter(&self) -> (r: Vec<Pixel>)
        requires
            self.wf(),
        ensures
            r@.len() == CELLS,
            forall|k: int|
                #![trigger r@[k]]
                0 <= k < CELLS ==> r@[k].y * 64 + r@[k].x == k && r@[k].x < 64 && r@[k].y < 32
                    && r@[k].state == self@[k],
    {
        let mut r: Vec<Pixel> = Vec::new();
        let mut y: usize = 0;
        while y < HEIGHT
            invariant
                self.wf(),
                y <= HEIGHT,
                r@.len() == y * 64,
                forall|k: int|
                    #![trigger r@[k]]
                    0 <= k < y * 64 ==> r@[k].y * 64 + r@[k].x == k && r@[k].x < 64 && r@[k].y < 32
                        && r@[k].state == self@[k],
            decreases HEIGHT - y,
        {
            let mut x: usize = 0;
            while x < WIDTH
                invariant
                    self.wf(),
                    y < HEIGHT,
                    x <= WIDTH,
                    r@.len() == y * 64 + x,
                    forall|k: int|
                        #![trigger r@[k]]
                        0 <= k < y * 64 + x ==> r@[k].y * 64 + r@[k].x == k && r@[k].x < 64
                            && r@[k].y < 32 && r@[k].state == self@[k],
                decreases WIDTH - x,
            {
                let k = y * 64 + x;
                let ghost r0 = r@;
                r.push(Pixel { x, y, state: self.grid[k] });
                proof {
                    assert forall|kk: int|
                        #![trigger r@[kk]]
                        0 <= kk < y * 64 + x + 1 implies r@[kk].y * 64 + r@[kk].x == kk
                        && r@[kk].x < 64 && r@[kk].y < 32 && r@[kk].state == self@[kk] by {
                        if kk < y * 64 + x {
                            assert(r@[kk] == r0[kk]);
                        } else {
                            assert(kk == k as int);
                        }
                    }
                }
                x += 1;
            }
            y += 1;
        }
        r
    }

    /// XOR-draws one 8-pixel row at column `x` on grid row `ry`; the ghost
    /// argument carries the unreduced row position.  Reports whether a lit
    /// pixel was turned off.
    fn write_row(&mut self, x: usize, ry: usize, b: u8, Ghost(yy): Ghost<int>) -> (collided: bool)
        requires
            old(self).wf(),
            ry < 32,
            ry == yy % 32,
        ensures
            final(self).wf(),
            final(self)@ == draw_row(old(self)@, x as int, yy, b),
            collided == row_collides(old(self)@, x as int, yy, b),
    {
        let ghost g0 = self.grid@;
        let ghost x0 = x as int;
        let cx = x % 64;
        let base = ry * 64;
        let bits = iterate_u8(b);
        let mut collided = false;
        let mut j: usize = 0;
        while j < 8
            invariant
                self.grid@.len() == 2048,
                g0.len() == 2048,
                j <= 8,
                cx == x0 % 64,
                0 <= cx < 64,
                ry < 32,
                ry == yy % 32,
                base == ry * 64,
                bits@.len() == 8,
                forall|jj: int| 0 <= jj < 8 ==> bits@[jj] == bit_of(b, jj),
                forall|k: int|
                    0 <= k < 2048 ==> self.grid@[k] == (g0[k] != row_hits_upto(
                        b,
                        x0,
                        yy,
                        k,
                        j as int,
                    )),
                collided == exists|k: int|
                    0 <= k < 2048 && g0[k] && row_hits_upto(b, x0, yy, k, j as int),
            decreases 8 - j,
        {
            let ghost jj = j as int;
            let ghost col0 = collided;
            if bits[j] {
                let px = if cx + j >= 64 {
                    cx + j - 64
                } else {
                    cx + j
                };
                let idx = base + px;
                proof {
                    lemma_add_mod_noop(x0, jj, 64);
                    lemma_small_mod(jj as nat, 64);
                    if cx + jj >= 64 {
                        lemma_fundamental_div_mod_converse_mod(cx + jj, 64, 1, cx + jj - 64);
                    } else {
                        lemma_small_mod((cx + jj) as nat, 64);
                    }
                    assert(px == (x0 + jj) % 64);
                    assert(idx == row_cell(x0, yy, jj));
                    lemma_row_cell_in_range(x0, yy, jj);
                    assert(!row_hits_upto(b, x0, yy, idx as int, jj)) by {
                        if row_hits_upto(b, x0, yy, idx as int, jj) {
                            let j2 = choose|j2: int|
                                0 <= j2 < jj && idx == row_cell(x0, yy, j2) && bit_of(b, j2);
                            lemma_row_cell_injective(x0, yy, j2, jj);
                        }
                    }
                }
                let old_v = self.grid[idx];
                if old_v {
                    collided = true;
                }
                self.grid.set(idx, !old_v);
                proof {
                    assert forall|k: int| 0 <= k < 2048 implies self.grid@[k] == (g0[k]
                        != row_hits_upto(b, x0, yy, k, jj + 1)) by {
                        if k == idx {
                            assert(0 <= jj < jj + 1 && k == row_cell(x0, yy, jj) && bit_of(b, jj));
                            assert(row_hits_upto(b, x0, yy, k, jj + 1));
                        } else {
                            assert(row_hits_upto(b, x0, yy, k, jj + 1) == row_hits_upto(
                                b,
                                x0,
                                yy,
                                k,
                                jj,
                            )) by {
                                if row_hits_upto(b, x0, yy, k, jj + 1) {
                                    let j2 = choose|j2: int|
                                        0 <= j2 < jj + 1 && k == row_cell(x0, yy, j2) && bit_of(
                                            b,
                                            j2,
                                        );
                                    assert(j2 != jj);
                                    assert(row_hits_upto(b, x0, yy, k, jj));
                                }
                            }
                        }
                    }
                    assert(collided == exists|k: int|
                        0 <= k < 2048 && g0[k] && row_hits_upto(b, x0, yy, k, jj + 1)) by {
                        assert(old_v == g0[idx as int]);
                        if collided {
                            if col0 {
                                let k = choose|k: int|
                                    0 <= k < 2048 && g0[k] && row_hits_upto(b, x0, yy, k, jj);
                                let j2 = choose|j2: int|
                                    0 <= j2 < jj && k == row_cell(x0, yy, j2) && bit_of(b, j2);
                                assert(0 <= j2 < jj + 1 && k == row_cell(x0, yy, j2) && bit_of(
                                    b,
                                    j2,
                                ));
                                assert(row_hits_upto(b, x0, yy, k, jj + 1));
                            } else {
                                assert(old_v);
                                assert(0 <= jj < jj + 1 && idx as int == row_cell(x0, yy, jj)
                                    && bit_of(b, jj));
                                assert(row_hits_upto(b, x0, yy, idx as int, jj + 1));
                            }
                        } else {
                            if exists|k: int|
                                0 <= k < 2048 && g0[k] && row_hits_upto(b, x0, yy, k, jj + 1) {
                                let k = choose|k: int|
                                    0 <= k < 2048 && g0[k] && row_hits_upto(b, x0, yy, k, jj + 1);
                                let j2 = choose|j2: int|
                                    0 <= j2 < jj + 1 && k == row_cell(x0, yy, j2) && bit_of(b, j2);
                                if j2 == jj {
                                    assert(k == idx);
                                    assert(false);
                                } else {
                                    assert(row_hits_upto(b, x0, yy, k, jj));
                                    assert(false);
                                }
                            }
                        }
                    }
                }
            } else {
                proof {
                    assert forall|k: int| 0 <= k < 2048 implies row_hits_upto(b, x0, yy, k, jj + 1)
                        == row_hits_upto(b, x0, yy, k, jj) by {
                        if row_hits_upto(b, x0, yy, k, jj + 1) {
                            let j2 = choose|j2: int|
                                0 <= j2 < jj + 1 && k == row_cell(x0, yy, j2) && bit_of(b, j2);
                            assert(j2 != jj);
                            assert(row_hits_upto(b, x0, yy, k, jj));
                        }
                    }
                }
            }
            j += 1;
        }
        proof {
            assert(self.grid@ =~= draw_row(g0, x0, yy, b));
        }
        collided
    }

    /// XOR-draws a sprite at (`x`, `y`): each byte is a row of 8 pixels,
    /// most significant bit first, rows descending; positions wrap around
    /// the grid dimensions.  Reports whether any pixel went from lit to
    /// unlit.
    pub fn write(&mut self, x: usize, y: usize, bytes: &[u8]) -> (collided: bool)
        requires
            old(self).wf(),
        ensures
            final(self).wf(),
            final(self)@ == draw_sprite(old(self)@, x as int, y as int, bytes@),
            collided == sprite_collides(old(self)@, x as int, y as int, bytes@),
    {
        let ghost g0 = self.grid@;
        let mut collided = false;
        let mut ry = y % 32;
        let mut i: usize = 0;
        while i < bytes.len()
            invariant
                self.grid@.len() == 2048,
                g0.len() == 2048,
                i <= bytes@.len(),
                ry < 32,
                ry as int == (y as int + i as int) % 32,
                self.grid@ == draw_sprite(g0, x as int, y as int, bytes@.take(i as int)),
                collided == sprite_collides(g0, x as int, y as int, bytes@.take(i as int)),
            decreases bytes@.len() - i,
        {
            let b = bytes[i];
            let c = self.write_row(x, ry, b, Ghost(y as int + i as int));
            collided = collided || c;
            proof {
                let taken = bytes@.take(i as int + 1);
                assert(taken.drop_last() =~= bytes@.take(i as int));
                assert(taken.last() == bytes@[i as int]);
                lemma_sprite_snoc(g0, x as int, y as int, taken);
                lemma_add_mod_noop(y as int + i as int, 1, 32);
                lemma_small_mod(1nat, 32);
                if ry == 31 {
                    lemma_fundamental_div_mod_converse_mod(32, 32, 1, 0);
                } else {
                    lemma_small_mod((ry + 1) as nat, 32);
                }
            }
            ry = if ry == 31 {
                0
            } else {
                ry + 1
            };
            i += 1;
        }
        proof {
            assert(bytes@.take(i as int) =~= bytes@);
        }
        collided
    }
}

impl Default for FrameBuffer {
    /// A dark grid.
    fn default() -> (r: Self)
        ensures
            r.wf(),
            forall|k: int| 0 <= k < CELLS ==> !r@[k],
    {
        FrameBuffer::new()
    }
}

} // verus!
