//! The monochrome framebuffer: a fixed 64x32 grid of pixels with toroidal
//! addressing. Sprites are composited by XOR, and a draw reports a collision
//! exactly when it turns some previously lit pixel off.

use vstd::arithmetic::div_mod::{
    lemma_add_mod_noop, lemma_add_mod_noop_right, lemma_mod_bound, lemma_mod_multiples_vanish,
    lemma_mod_sub_multiples_vanish, lemma_small_mod, lemma_sub_mod_noop, lemma_sub_mod_noop_right,
};
use vstd::prelude::*;

verus! {

/// Width of the framebuffer in pixels.
pub const WIDTH: usize = 64;

/// Height of the framebuffer in pixels.
pub const HEIGHT: usize = 32;

/// Whether bit `bit` (0 is the most significant, leftmost pixel) of a sprite
/// row byte is set.
pub open spec fn sprite_bit(b: u8, bit: int) -> bool {
    b & (0x80u8 >> (bit as u8)) != 0
}

/// Whether the sprite drawn at `(x, y)` touches the pixel at row `r`, column
/// `c`. Coordinates wrap toroidally, so the touching sprite row is
/// `(r - y) mod 32` and the touching bit is `(c - x) mod 64`, if in range.
pub open spec fn draw_hits(sprite: Seq<u8>, x: int, y: int, r: int, c: int) -> bool {
    let row = (r - y) % 32;
    let col = (c - x) % 64;
    row < sprite.len() && col < 8 && sprite_bit(sprite[row], col)
}

/// A well-formed pixel grid: 32 rows of 64 columns.
pub open spec fn grid_wf(g: Seq<Seq<bool>>) -> bool {
    g.len() == 32 && (forall|r: int| 0 <= r < 32 ==> #[trigger] g[r].len() == 64)
}

/// The all-dark grid.
pub open spec fn spec_blank_grid() -> Seq<Seq<bool>> {
    Seq::new(32, |r: int| Seq::new(64, |c: int| false))
}

/// The grid after XOR-compositing `sprite` at `(x, y)`: every touched pixel
/// is flipped, every other pixel keeps its value.
pub open spec fn spec_draw_grid(g: Seq<Seq<bool>>, sprite: Seq<u8>, x: int, y: int) -> Seq<
    Seq<bool>,
> {
    Seq::new(32, |r: int| Seq::new(64, |c: int| g[r][c] != draw_hits(sprite, x, y, r, c)))
}

/// Whether a draw that took the grid from `before` to `after` collided: some
/// pixel that was lit before is dark after.
pub open spec fn spec_collision(before: Seq<Seq<bool>>, after: Seq<Seq<bool>>) -> bool {
    exists|r: int, c: int| 0 <= r < 32 && 0 <= c < 64 && #[trigger] before[r][c] && !after[r][c]
}

/// Like [`draw_hits`], but restricted to the sprite positions strictly before
/// row `rows`, plus the first `bits` bits of row `rows` itself.
spec fn hit_upto(sprite: Seq<u8>, x: int, y: int, r: int, c: int, rows: int, bits: int) -> bool {
    let row = (r - y) % 32;
    let col = (c - x) % 64;
    row < sprite.len() && col < 8 && (row < rows || (row == rows && col < bits)) && sprite_bit(
        sprite[row],
        col,
    )
}

/// Wrapped offsetting lands where subtracting the base points back:
/// the wrapped coordinate `(v % m + k) % m` has offset `k` from `v`.
proof fn lemma_wrap_index(v: int, k: int, m: int)
    requires
        0 < m,
        0 <= v,
        0 <= k < m,
    ensures
        0 <= (v % m + k) % m < m,
        ((v % m + k) % m - v) % m == k,
{
    lemma_mod_bound(v % m + k, m);
    let a = (v % m + k) % m;
    lemma_sub_mod_noop_right(a, v, m);
    lemma_sub_mod_noop(v % m + k, v, m);
    assert((a - v) % m == (v % m + k - v) % m);
    vstd::arithmetic::div_mod::lemma_fundamental_div_mod(v, m);
    assert(v % m + k - v == m * (-(v / m)) + k) by {
        assert(m * (-(v / m)) == -(m * (v / m))) by (nonlinear_arith);
    }
    lemma_mod_multiples_vanish(-(v / m), k, m);
    lemma_small_mod(k as nat, m as nat);
}

/// The converse of [`lemma_wrap_index`]: a coordinate whose offset from the
/// base is `(r - v) % m` is reached by wrapped offsetting.
proof fn lemma_wrap_index_covers(v: int, r: int, m: int)
    requires
        0 < m,
        0 <= v,
        0 <= r < m,
    ensures
        (v % m + (r - v) % m) % m == r,
{
    lemma_mod_bound(r - v, m);
    lemma_add_mod_noop(v, (r - v) % m, m);
    lemma_small_mod(((r - v) % m) as nat, m as nat);
    assert((v % m + (r - v) % m) % m == (v + (r - v) % m) % m);
    lemma_add_mod_noop_right(v, r - v, m);
    lemma_small_mod(r as nat, m as nat);
}

/// Law: XOR-drawing is its own inverse. Drawing the identical sprite at the
/// identical location twice restores the prior pixel state exactly, and the
/// second call collides exactly where the first call turned a pixel on.
pub proof fn lemma_draw_involution(g: Seq<Seq<bool>>, sprite: Seq<u8>, x: int, y: int)
    requires
        grid_wf(g),
    ensures
        spec_draw_grid(spec_draw_grid(g, sprite, x, y), sprite, x, y) =~~= g,
        spec_collision(spec_draw_grid(g, sprite, x, y), g) == (exists|r: int, c: int|
            0 <= r < 32 && 0 <= c < 64 && (#[trigger] spec_draw_grid(g, sprite, x, y)[r][c])
                && !g[r][c]),
{
    let g1 = spec_draw_grid(g, sprite, x, y);
    let g2 = spec_draw_grid(g1, sprite, x, y);
    assert(g2 =~~= g);
    if spec_collision(g1, g2) {
        let (r, c) = choose|r: int, c: int|
            0 <= r < 32 && 0 <= c < 64 && #[trigger] g1[r][c] && !g2[r][c];
        assert(g1[r][c] && !g[r][c]);
    }
    if exists|r: int, c: int| 0 <= r < 32 && 0 <= c < 64 && (#[trigger] g1[r][c]) && !g[r][c] {
        let (r, c) = choose|r: int, c: int|
            0 <= r < 32 && 0 <= c < 64 && (#[trigger] g1[r][c]) && !g[r][c];
        assert(g1[r][c] && !g2[r][c]);
        assert(spec_collision(g1, g2));
    }
}

/// Law: drawing wraps toroidally. A sprite bit whose column extends past the
/// right edge lands at the left edge of the same wrapped row, and one whose
/// row extends past the bottom edge lands at the top; on-screen bits land at
/// `(x + bit, y + row)` directly.
pub proof fn lemma_draw_wraps(
    g: Seq<Seq<bool>>,
    sprite: Seq<u8>,
    x: int,
    y: int,
    row: int,
    bit: int,
)
    requires
        grid_wf(g),
        sprite.len() <= 32,
        0 <= x < 64,
        0 <= y < 32,
        0 <= row < sprite.len(),
        0 <= bit < 8,
    ensures
        ({
            let r = if y + row < 32 {
                y + row
            } else {
                y + row - 32
            };
            let c = if x + bit < 64 {
                x + bit
            } else {
                x + bit - 64
            };
            spec_draw_grid(g, sprite, x, y)[r][c] == (g[r][c] != sprite_bit(sprite[row], bit))
        }),
{
    let r = if y + row < 32 {
        y + row
    } else {
        y + row - 32
    };
    let c = if x + bit < 64 {
        x + bit
    } else {
        x + bit - 64
    };
    assert((r - y) % 32 == row) by {
        if y + row < 32 {
            lemma_small_mod(row as nat, 32);
        } else {
            lemma_mod_sub_multiples_vanish(row, 32);
            lemma_small_mod(row as nat, 32);
        }
    }
    assert((c - x) % 64 == bit) by {
        if x + bit < 64 {
            lemma_small_mod(bit as nat, 64);
        } else {
            lemma_mod_sub_multiples_vanish(bit, 64);
            lemma_small_mod(bit as nat, 64);
        }
    }
}

/// The fixed-size monochrome bitmap.
pub struct Display {
    data: Vec<Vec<bool>>,
}

impl View for Display {
    type V = Seq<Seq<bool>>;

    closed spec fn view(&self) -> Seq<Seq<bool>> {
        self.data@.map_values(|row: Vec<bool>| row@)
    }
}

impl Display {
    /// The grid always keeps its fixed dimensions.
    pub open spec fn wf(&self) -> bool {
        grid_wf(self@)
    }

    /// A blank display: every pixel dark.
    pub fn new() -> (d: Display)
        ensures
            d.wf(),
            d@ =~~= spec_blank_grid(),
    {
        let mut data: Vec<Vec<bool>> = Vec::new();
        while data.len() < HEIGHT
            invariant
                data@.len() <= 32,
                forall|r: int|
                    0 <= r < data@.len() ==> (#[trigger] data@[r])@ =~= Seq::new(
                        64,
                        |c: int| false,
                    ),
            decreases 32 - data@.len(),
        {
            let mut row: Vec<bool> = Vec::new();
            while row.len() < WIDTH
                invariant
                    row@.len() <= 64,
                    forall|c: int| 0 <= c < row@.len() ==> !(#[trigger] row@[c]),
                decreases 64 - row@.len(),
            {
                row.push(false);
            }
            assert(row@ =~= Seq::new(64, |c: int| false));
            data.push(row);
        }
        let d = Display { data };
        assert(d@ =~~= spec_blank_grid());
        d
    }

    /// Sets every pixel to dark.
    pub fn clear(&mut self)
        requires
            old(self).wf(),
        ensures
            final(self).wf(),
            final(self)@ =~~= spec_blank_grid(),
    {
        let blank = Display::new();
        *self = blank;
    }

    /// The pixel at column `x`, row `y`.
    pub fn get_pixel(&self, x: usize, y: usize) -> (p: bool)
        requires
            self.wf(),
            x < 64,
            y < 32,
        ensures
            p == self@[y as int][x as int],
    {
        proof {
            assert(self@.len() == self.data@.len());
            assert(self@[y as int] == self.data@[y as int]@);
        }
        self.data[y][x]
    }

    /// XOR-composites `sprite` at `(x, y)`, one byte per row, the most
    /// significant bit leftmost, wrapping at both edges; reports whether any
    /// previously lit pixel was turned off.
    pub fn draw(&mut self, x: usize, y: usize, sprite: &[u8]) -> (collision: bool)
        requires
            old(self).wf(),
            sprite@.len() <= 32,
        ensures
            final(self).wf(),
            final(self)@ == spec_draw_grid(old(self)@, sprite@, x as int, y as int),
            collision == spec_collision(old(self)@, final(self)@),
    {
        let ghost g0 = self@;
        let ghost xi = x as int;
        let ghost yi = y as int;
        let mut collision = false;
        let mut row: usize = 0;
        while row < sprite.len()
            invariant
                self.wf(),
                sprite@.len() <= 32,
                row <= sprite@.len(),
                g0 == old(self)@,
                grid_wf(g0),
                xi == x as int,
                yi == y as int,
                forall|r: int, c: int|
                    0 <= r < 32 && 0 <= c < 64 ==> #[trigger] self@[r][c] == (g0[r][c] != hit_upto(
                        sprite@,
                        xi,
                        yi,
                        r,
                        c,
                        row as int,
                        0,
                    )),
                collision == spec_collision(g0, self@),
            decreases sprite@.len() - row,
        {
            let byte = sprite[row];
            let py = (y % HEIGHT + row) % HEIGHT;
            proof {
                lemma_wrap_index(yi, row as int, 32);
            }
            let mut bit: usize = 0;
            while bit < 8
                invariant
                    self.wf(),
                    sprite@.len() <= 32,
                    row < sprite@.len(),
                    bit <= 8,
                    byte == sprite@[row as int],
                    py == (yi % 32 + row) % 32,
                    py < 32,
                    (py - yi) % 32 == row as int,
                    g0 == old(self)@,
                    grid_wf(g0),
                    xi == x as int,
                    yi == y as int,
                    forall|r: int, c: int|
                        0 <= r < 32 && 0 <= c < 64 ==> #[trigger] self@[r][c] == (g0[r][c]
                            != hit_upto(sprite@, xi, yi, r, c, row as int, bit as int)),
                    collision == spec_collision(g0, self@),
                decreases 8 - bit,
            {
                let ghost pre = self@;
                proof {
                    lemma_wrap_index(xi, bit as int, 64);
                }
                let px = (x % WIDTH + bit) % WIDTH;
                if byte & (0x80u8 >> (bit as u8)) != 0 {
                    proof {
                        assert(self@.len() == self.data@.len());
                        assert(self@[py as int] == self.data@[py as int]@);
                        assert(self@[py as int].len() == 64);
                    }
                    let cur = self.data[py][px];
                    assert(cur == self@[py as int][px as int]);
                    assert(cur == g0[py as int][px as int]);
                    if cur {
                        collision = true;
                    }
                    let row_ref = &mut self.data[py];
                    row_ref[px] = !cur;
                    proof {
                        assert(self@ =~~= pre.update(
                            py as int,
                            pre[py as int].update(px as int, !cur),
                        ));
                    }
                }
                proof {
                    assert forall|r: int, c: int| 0 <= r < 32 && 0 <= c < 64 implies #[trigger] self@[r][c]
                        == (g0[r][c] != hit_upto(sprite@, xi, yi, r, c, row as int, bit + 1)) by {
                        if (r - yi) % 32 == row as int && (c - xi) % 64 == bit as int {
                            lemma_wrap_index_covers(yi, r, 32);
                            lemma_wrap_index_covers(xi, c, 64);
                            assert(r == py as int && c == px as int);
                        } else {
                            assert(hit_upto(sprite@, xi, yi, r, c, row as int, bit + 1) == hit_upto(
                                sprite@,
                                xi,
                                yi,
                                r,
                                c,
                                row as int,
                                bit as int,
                            ));
                            assert(self@[r][c] == pre[r][c]);
                        }
                    }
                    if collision != spec_collision(g0, pre) {
                        // collision was just set: the struck pixel is the witness
                        assert(g0[py as int][px as int] && !self@[py as int][px as int]);
                        assert(spec_collision(g0, self@));
                    } else {
                        assert forall|r: int, c: int|
                            0 <= r < 32 && 0 <= c < 64 && #[trigger] g0[r][c] && !self@[r][c] implies spec_collision(
                            g0,
                            pre,
                        ) by {
                            assert(pre[r][c] == g0[r][c] || !pre[r][c]);
                        }
                        assert(spec_collision(g0, self@) == spec_collision(g0, pre));
                    }
                }
                bit = bit + 1;
            }
            proof {
                assert forall|r: int, c: int| 0 <= r < 32 && 0 <= c < 64 implies hit_upto(
                    sprite@,
                    xi,
                    yi,
                    r,
                    c,
                    row as int,
                    8,
                ) == hit_upto(sprite@, xi, yi, r, c, row as int + 1, 0) by {
                    lemma_mod_bound(c - xi, 64);
                }
            }
            row = row + 1;
        }
        proof {
            assert(self@ =~~= spec_draw_grid(g0, sprite@, xi, yi));
        }
        collision
    }
}

impl Default for Display {
    /// The same blank display as [`Display::new`] builds.
    fn default() -> (d: Display)
        ensures
            d.wf(),
            d@ =~~= spec_blank_grid(),
    {
        Display::new()
    }
}

} // verus!
