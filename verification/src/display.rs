use vstd::prelude::*;

use crate::helpers::{bit_set, bit_to_bool};

verus! {

/// Width of the pixel grid.
pub const SCREEN_WIDTH: usize = 64;

/// Height of the pixel grid.
pub const SCREEN_HEIGHT: usize = 32;

/// Whether the grid index `i` names a pixel that a sprite of `rows` rows
/// anchored at column `x`, row `y` touches: rows clip at the bottom edge and
/// the 8 columns of each row clip at the right edge, with no wraparound.
pub open spec fn sprite_covers(x: int, y: int, rows: int, i: int) -> bool {
    let px = i % 64;
    let py = i / 64;
    y <= py < y + rows && x <= px < x + 8
}

/// The sprite bit that lands on grid index `i` for a sprite anchored at
/// (`x`, `y`): row `py - y` of the sprite, counting bits from the most
/// significant.
pub open spec fn sprite_bit_at(sprite: Seq<u8>, x: int, y: int, i: int) -> bool {
    bit_set(sprite[i / 64 - y], (i % 64 - x) as u8)
}

/// The grid after XOR-drawing `sprite` anchored at (`x`, `y`) onto `g`:
/// every covered pixel is XOR-composed with its sprite bit, every other
/// pixel is kept.
pub open spec fn grid_after_draw(g: Seq<bool>, sprite: Seq<u8>, x: int, y: int) -> Seq<bool> {
    Seq::new(
        g.len(),
        |i: int|
            if sprite_covers(x, y, sprite.len() as int, i) {
                g[i] != sprite_bit_at(sprite, x, y, i)
            } else {
                g[i]
            },
    )
}

/// Whether XOR-drawing `sprite` anchored at (`x`, `y`) onto `g` erases some
/// pixel: a covered pixel is lit both on the grid and in the sprite.
pub open spec fn draw_collision(g: Seq<bool>, sprite: Seq<u8>, x: int, y: int) -> bool {
    exists|i: int|
        0 <= i < g.len() && sprite_covers(x, y, sprite.len() as int, i) && g[i]
            && sprite_bit_at(sprite, x, y, i)
}

/// Whether index `i` is among the first `t` pixels a sprite draw anchored at
/// (`x`, `y`) visits, walking each row's 8 bits before the next row.
pub open spec fn covers_upto(x: int, y: int, t: int, i: int) -> bool {
    let px = i % 64;
    let py = i / 64;
    y <= py && x <= px < x + 8 && (py - y) * 8 + (px - x) < t
}

/// The grid after the first `t` visited pixels have been XOR-composed.
pub open spec fn grid_upto(g: Seq<bool>, sprite: Seq<u8>, x: int, y: int, t: int) -> Seq<bool> {
    Seq::new(
        g.len(),
        |i: int|
            if covers_upto(x, y, t, i) {
                g[i] != sprite_bit_at(sprite, x, y, i)
            } else {
                g[i]
            },
    )
}

/// Whether some pixel among the first `t` visited was erased.
pub open spec fn collision_upto(g: Seq<bool>, sprite: Seq<u8>, x: int, y: int, t: int) -> bool {
    exists|i: int|
        0 <= i < g.len() && covers_upto(x, y, t, i) && g[i] && sprite_bit_at(sprite, x, y, i)
}

/// A grid position decomposes uniquely into its row and column.
proof fn lemma_grid_index(px: int, py: int)
    requires
        0 <= px < 64,
        0 <= py,
    ensures
        (py * 64 + px) / 64 == py,
        (py * 64 + px) % 64 == px,
{
    assert((py * 64 + px) / 64 == py && (py * 64 + px) % 64 == px) by (nonlinear_arith)
        requires
            0 <= px < 64,
            0 <= py,
    ;
}

/// Boolean pixel grid of `SCREEN_WIDTH` x `SCREEN_HEIGHT` pixels, row-major,
/// with a flag recording whether the buffer changed since last presented.
pub struct Display {
    /// The pixels, row-major: index `row * SCREEN_WIDTH + column`.
    pub pixels: Vec<bool>,
    /// Whether the grid changed since the flag was last consumed.
    pub redraw_flag: bool,
}

impl View for Display {
    type V = Seq<bool>;

    open spec fn view(&self) -> Seq<bool> {
        self.pixels@
    }
}

impl Display {
    /// Structural invariant: one slot per grid pixel.
    pub open spec fn wf(self) -> bool {
        self.pixels.len() == SCREEN_WIDTH * SCREEN_HEIGHT
    }

    /// A blank display with the redraw flag clear.
    pub fn new() -> (d: Display)
        ensures
            d.wf(),
            forall|i: int| 0 <= i < SCREEN_WIDTH * SCREEN_HEIGHT ==> !d.pixels@[i],
            !d.redraw_flag,
    {
        Display { pixels: vec![false; SCREEN_WIDTH * SCREEN_HEIGHT], redraw_flag: false }
    }

    /// Whether the grid changed since the flag was last consumed.
    pub fn redraw_needed(&self) -> (r: bool)
        ensures
            r == self.redraw_flag,
    {
        self.redraw_flag
    }

    /// XOR-draw `sprite` (one byte per row, most significant bit leftmost)
    /// anchored at column `x_coord`, row `y_coord`; returns 1 when any lit
    /// pixel was erased, 0 otherwise, and marks the display changed. Rows
    /// falling below the grid and bits falling past its right edge are
    /// clipped.
    pub fn draw(&mut self, sprite: &Vec<u8>, x_coord: u8, y_coord: u8) -> (carry: u8)
        requires
            old(self).wf(),
            x_coord < SCREEN_WIDTH,
            y_coord < SCREEN_HEIGHT,
        ensures
            final(self).wf(),
            final(self)@ == grid_after_draw(old(self)@, sprite@, x_coord as int, y_coord as int),
            carry == (if draw_collision(old(self)@, sprite@, x_coord as int, y_coord as int) {
                1u8
            } else {
                0u8
            }),
            final(self).redraw_flag,
    {
        let ghost g0 = self.pixels@;
        let ghost x = x_coord as int;
        let ghost y = y_coord as int;
        let ghost rows = sprite@.len() as int;

        self.redraw_flag = true;

        let mut carry: u8 = 0;
        let mut k: usize = 0;
        while k < sprite.len() && y_coord as usize + k < SCREEN_HEIGHT
            invariant
                self.wf(),
                self.redraw_flag,
                sprite@.len() == rows,
                g0.len() == SCREEN_WIDTH * SCREEN_HEIGHT,
                x == x_coord as int,
                y == y_coord as int,
                x_coord < SCREEN_WIDTH,
                y_coord < SCREEN_HEIGHT,
                k <= rows,
                k <= SCREEN_HEIGHT,
                self.pixels@ == grid_upto(g0, sprite@, x, y, 8 * k),
                carry == (if collision_upto(g0, sprite@, x, y, 8 * k) {
                    1u8
                } else {
                    0u8
                }),
            decreases rows - k,
        {
            let sprite_byte = sprite[k];
            let y_pos = y_coord as usize + k;
            let mut j: usize = 0;
            while j < 8 && x_coord as usize + j < SCREEN_WIDTH
                invariant
                    self.wf(),
                    self.redraw_flag,
                    sprite@.len() == rows,
                    g0.len() == SCREEN_WIDTH * SCREEN_HEIGHT,
                    x == x_coord as int,
                    y == y_coord as int,
                    x_coord < SCREEN_WIDTH,
                    y_coord < SCREEN_HEIGHT,
                    k < rows,
                    y_pos == y + k,
                    y_pos < SCREEN_HEIGHT,
                    sprite_byte == sprite@[k as int],
                    j <= 8,
                    self.pixels@ == grid_upto(g0, sprite@, x, y, 8 * k + j),
                    carry == (if collision_upto(g0, sprite@, x, y, 8 * k + j) {
                        1u8
                    } else {
                        0u8
                    }),
                decreases 8 - j,
            {
                let ghost t = 8 * k + j;
                let x_pos = x_coord as usize + j;
                let pixel_index = y_pos * SCREEN_WIDTH + x_pos;
                proof {
                    lemma_grid_index(x_pos as int, y_pos as int);
                }
                let sprite_pixel = bit_to_bool(sprite_byte, j as u8);
                let old_pixel = self.pixels[pixel_index];

                if old_pixel && sprite_pixel {
                    self.pixels.set(pixel_index, false);
                    carry = 0x1;
                } else if sprite_pixel {
                    self.pixels.set(pixel_index, true);
                }

                proof {
                    let gt = grid_upto(g0, sprite@, x, y, t);
                    // The pixel visited at step t was untouched so far.
                    assert(!covers_upto(x, y, t, pixel_index as int));
                    assert(gt[pixel_index as int] == g0[pixel_index as int]);
                    // Exactly the visited pixel joins the covered set.
                    assert forall|i: int| #![trigger covers_upto(x, y, t + 1, i)]
                        0 <= i < g0.len() implies (covers_upto(x, y, t + 1, i)
                        <==> (covers_upto(x, y, t, i) || i == pixel_index as int)) by {
                        if i != pixel_index as int {
                            if i % 64 == x + j && i / 64 == y + k {
                                lemma_grid_index(x + j, y + k);
                                assert(i == 64 * (i / 64) + i % 64) by (nonlinear_arith);
                                assert(i == pixel_index as int);
                            }
                        }
                    }
                    assert(self.pixels@ =~= grid_upto(g0, sprite@, x, y, t + 1));
                    if old_pixel && sprite_pixel {
                        assert(collision_upto(g0, sprite@, x, y, t + 1));
                    } else {
                        assert(collision_upto(g0, sprite@, x, y, t + 1) == collision_upto(
                            g0,
                            sprite@,
                            x,
                            y,
                            t,
                        )) by {
                            if collision_upto(g0, sprite@, x, y, t + 1) {
                                let w = choose|i: int|
                                    0 <= i < g0.len() && covers_upto(x, y, t + 1, i) && g0[i]
                                        && sprite_bit_at(sprite@, x, y, i);
                                assert(w != pixel_index as int);
                                assert(covers_upto(x, y, t, w));
                            }
                            if collision_upto(g0, sprite@, x, y, t) {
                                let w = choose|i: int|
                                    0 <= i < g0.len() && covers_upto(x, y, t, i) && g0[i]
                                        && sprite_bit_at(sprite@, x, y, i);
                                assert(covers_upto(x, y, t + 1, w));
                            }
                        }
                    }
                }
                j = j + 1;
            }

            proof {
                // Whether the row ended or clipped at the right edge, the
                // covered set is that of the full row.
                assert forall|i: int| #![trigger covers_upto(x, y, 8 * k + j, i)]
                    0 <= i < g0.len() implies (covers_upto(x, y, 8 * k + j, i)
                    <==> covers_upto(x, y, 8 * (k + 1), i)) by {
                    assert(0 <= i % 64 < 64) by (nonlinear_arith)
                        requires
                            0 <= i < g0.len(),
                    ;
                }
                assert(grid_upto(g0, sprite@, x, y, 8 * k + j) =~= grid_upto(
                    g0,
                    sprite@,
                    x,
                    y,
                    8 * (k + 1),
                ));
                assert(collision_upto(g0, sprite@, x, y, 8 * k + j) == collision_upto(
                    g0,
                    sprite@,
                    x,
                    y,
                    8 * (k + 1),
                )) by {
                    if collision_upto(g0, sprite@, x, y, 8 * k + j) {
                        let w = choose|i: int|
                            0 <= i < g0.len() && covers_upto(x, y, 8 * k + j, i) && g0[i]
                                && sprite_bit_at(sprite@, x, y, i);
                        assert(covers_upto(x, y, 8 * (k + 1), w));
                    }
                    if collision_upto(g0, sprite@, x, y, 8 * (k + 1)) {
                        let w = choose|i: int|
                            0 <= i < g0.len() && covers_upto(x, y, 8 * (k + 1), i) && g0[i]
                                && sprite_bit_at(sprite@, x, y, i);
                        assert(covers_upto(x, y, 8 * k + j, w));
                    }
                }
            }
            k = k + 1;
        }

        proof {
            // Whether the sprite ended or clipped at the bottom edge, the
            // covered set is that of the whole sprite.
            assert forall|i: int| #![trigger covers_upto(x, y, 8 * k, i)]
                0 <= i < g0.len() implies (covers_upto(x, y, 8 * k, i)
                <==> sprite_covers(x, y, rows, i)) by {
                assert(0 <= i % 64 < 64 && 0 <= i / 64 < 32) by (nonlinear_arith)
                    requires
                        0 <= i < g0.len(),
                        g0.len() == 2048,
                ;
            }
            assert(self.pixels@ =~= grid_after_draw(g0, sprite@, x, y));
            assert(collision_upto(g0, sprite@, x, y, 8 * k) == draw_collision(g0, sprite@, x, y))
                by {
                if collision_upto(g0, sprite@, x, y, 8 * k) {
                    let w = choose|i: int|
                        0 <= i < g0.len() && covers_upto(x, y, 8 * k, i) && g0[i] && sprite_bit_at(
                            sprite@,
                            x,
                            y,
                            i,
                        );
                    assert(sprite_covers(x, y, rows, w));
                }
                if draw_collision(g0, sprite@, x, y) {
                    let w = choose|i: int|
                        0 <= i < g0.len() && sprite_covers(x, y, rows, i) && g0[i] && sprite_bit_at(
                            sprite@,
                            x,
                            y,
                            i,
                        );
                    assert(covers_upto(x, y, 8 * k, w));
                }
            }
        }
        carry
    }

    /// Zero every pixel; clearing is not itself a draw: it produces no
    /// collision and leaves the redraw flag as it was.
    pub fn clear(&mut self)
        requires
            old(self).wf(),
        ensures
            final(self).wf(),
            final(self)@.len() == old(self)@.len(),
            forall|i: int| 0 <= i < final(self)@.len() ==> !final(self)@[i],
            final(self).redraw_flag == old(self).redraw_flag,
    {
        let flag = self.redraw_flag;
        self.pixels = vec![false; SCREEN_WIDTH * SCREEN_HEIGHT];
        self.redraw_flag = flag;
    }
}

/// Drawing the same sprite twice at the same anchor restores every pixel:
/// the second draw erases exactly the pixels the first one lit, and it
/// reports a collision exactly when the first draw lit some pixel.
pub proof fn lemma_draw_twice_restores(g: Seq<bool>, sprite: Seq<u8>, x: int, y: int)
    ensures
        grid_after_draw(grid_after_draw(g, sprite, x, y), sprite, x, y) == g,
        draw_collision(grid_after_draw(g, sprite, x, y), sprite, x, y) == (exists|i: int|
            0 <= i < g.len() && sprite_covers(x, y, sprite.len() as int, i) && !g[i]
                && sprite_bit_at(sprite, x, y, i)),
{
    let g1 = grid_after_draw(g, sprite, x, y);
    assert(grid_after_draw(g1, sprite, x, y) =~= g);
    if draw_collision(g1, sprite, x, y) {
        let w = choose|i: int|
            0 <= i < g1.len() && sprite_covers(x, y, sprite.len() as int, i) && g1[i]
                && sprite_bit_at(sprite, x, y, i);
        assert(!g[w] && sprite_bit_at(sprite, x, y, w));
    }
    if exists|i: int|
        0 <= i < g.len() && sprite_covers(x, y, sprite.len() as int, i) && !g[i] && sprite_bit_at(
            sprite,
            x,
            y,
            i,
        ) {
        let w = choose|i: int|
            0 <= i < g.len() && sprite_covers(x, y, sprite.len() as int, i) && !g[i]
                && sprite_bit_at(sprite, x, y, i);
        assert(g1[w] && sprite_bit_at(sprite, x, y, w));
    }
}

} // verus!
