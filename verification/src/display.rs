//! Sprite drawing on the 64 x 32 monochrome framebuffer.
//!
//! The framebuffer is a flat row-major sequence of 2048 cells. A draw XORs an
//! `n`-row, 8-column sprite into the grid at an anchor (x0, y0) that the
//! caller has already wrapped into the grid; individual pixels that fall
//! outside the grid are clipped (not wrapped) and never written. A drawn
//! pixel that was already set before its toggle raises the collision flag.

use vstd::prelude::*;

verus! {

/// Whether sprite-row byte `b` has the pixel at column offset `col` set;
/// column 0 is the most significant bit.
pub open spec fn sprite_bit(b: u8, col: u8) -> bool
    recommends
        col < 8,
{
    b & (0x80u8 >> col) != 0
}

/// Whether a draw of the sprite at `mem[i..i + n]`, anchored at (x0, y0),
/// toggles the framebuffer cell `pos`, counting only sprite pixels that come
/// strictly before row `rows`, or in row `rows` itself before column `cols`.
/// The full draw is the prefix with `rows == n` and `cols == 0`.
pub open spec fn draw_touches_prefix(
    mem: Seq<u8>,
    i: int,
    x0: int,
    y0: int,
    rows: int,
    cols: int,
    pos: int,
) -> bool
    recommends
        0 <= pos < 2048,
{
    let r = pos / 64;
    let c = pos % 64;
    &&& y0 <= r
    &&& x0 <= c < x0 + 8
    &&& (r - y0 < rows || (r - y0 == rows && c - x0 < cols))
    &&& sprite_bit(mem[i + (r - y0)], (c - x0) as u8)
}

/// Whether the complete draw of the `n`-row sprite toggles cell `pos`.
pub open spec fn draw_touches(mem: Seq<u8>, i: int, x0: int, y0: int, n: int, pos: int) -> bool
    recommends
        0 <= pos < 2048,
{
    draw_touches_prefix(mem, i, x0, y0, n, 0, pos)
}

/// Whether some cell toggled by the given sprite-pixel prefix holds a lit
/// pixel in `d`.
pub open spec fn prefix_collision(
    d: Seq<u8>,
    mem: Seq<u8>,
    i: int,
    x0: int,
    y0: int,
    rows: int,
    cols: int,
) -> bool {
    exists|pos: int|
        0 <= pos < 2048 && #[trigger] draw_touches_prefix(mem, i, x0, y0, rows, cols, pos) && d[pos]
            == 1
}

/// The framebuffer after the draw: every touched cell is XOR-toggled, every
/// other cell keeps its value.
pub open spec fn draw_display(d: Seq<u8>, mem: Seq<u8>, i: int, x0: int, y0: int, n: int) -> Seq<
    u8,
> {
    Seq::new(2048, |pos: int| if draw_touches(mem, i, x0, y0, n, pos) { d[pos] ^ 1 } else { d[pos] })
}

/// Whether the draw collides: some toggled cell already held a lit pixel.
pub open spec fn draw_collision(d: Seq<u8>, mem: Seq<u8>, i: int, x0: int, y0: int, n: int) -> bool {
    prefix_collision(d, mem, i, x0, y0, n, 0)
}

/// Two sprite-pixel prefixes that toggle the same cells collide on the same
/// framebuffers.
proof fn lemma_prefix_collision_same(
    d: Seq<u8>,
    mem: Seq<u8>,
    i: int,
    x0: int,
    y0: int,
    rows1: int,
    cols1: int,
    rows2: int,
    cols2: int,
)
    requires
        forall|pos: int|
            0 <= pos < 2048 ==> (#[trigger] draw_touches_prefix(mem, i, x0, y0, rows1, cols1, pos)
                <==> #[trigger] draw_touches_prefix(mem, i, x0, y0, rows2, cols2, pos)),
    ensures
        prefix_collision(d, mem, i, x0, y0, rows1, cols1) == prefix_collision(
            d,
            mem,
            i,
            x0,
            y0,
            rows2,
            cols2,
        ),
{
    if prefix_collision(d, mem, i, x0, y0, rows1, cols1) {
        let pos = choose|pos: int|
            0 <= pos < 2048 && #[trigger] draw_touches_prefix(mem, i, x0, y0, rows1, cols1, pos)
                && d[pos] == 1;
        assert(draw_touches_prefix(mem, i, x0, y0, rows2, cols2, pos));
    }
    if prefix_collision(d, mem, i, x0, y0, rows2, cols2) {
        let pos = choose|pos: int|
            0 <= pos < 2048 && #[trigger] draw_touches_prefix(mem, i, x0, y0, rows2, cols2, pos)
                && d[pos] == 1;
        assert(draw_touches_prefix(mem, i, x0, y0, rows1, cols1, pos));
    }
}

/// Extending a prefix by exactly the one cell `idx` adds exactly `d[idx]`'s
/// state to the collision test.
proof fn lemma_prefix_collision_extend(
    d: Seq<u8>,
    mem: Seq<u8>,
    i: int,
    x0: int,
    y0: int,
    rows: int,
    cols: int,
    idx: int,
)
    requires
        0 <= idx < 2048,
        draw_touches_prefix(mem, i, x0, y0, rows, cols + 1, idx),
        forall|pos: int|
            0 <= pos < 2048 ==> (#[trigger] draw_touches_prefix(mem, i, x0, y0, rows, cols + 1, pos)
                <==> (#[trigger] draw_touches_prefix(mem, i, x0, y0, rows, cols, pos) || pos
                == idx)),
    ensures
        prefix_collision(d, mem, i, x0, y0, rows, cols + 1) == (prefix_collision(
            d,
            mem,
            i,
            x0,
            y0,
            rows,
            cols,
        ) || d[idx] == 1),
{
    if prefix_collision(d, mem, i, x0, y0, rows, cols + 1) {
        let pos = choose|pos: int|
            0 <= pos < 2048 && #[trigger] draw_touches_prefix(mem, i, x0, y0, rows, cols + 1, pos)
                && d[pos] == 1;
        assert(draw_touches_prefix(mem, i, x0, y0, rows, cols, pos) || pos == idx);
    }
    if prefix_collision(d, mem, i, x0, y0, rows, cols) {
        let pos = choose|pos: int|
            0 <= pos < 2048 && #[trigger] draw_touches_prefix(mem, i, x0, y0, rows, cols, pos)
                && d[pos] == 1;
        assert(draw_touches_prefix(mem, i, x0, y0, rows, cols + 1, pos));
    }
    if d[idx] == 1 {
        assert(prefix_collision(d, mem, i, x0, y0, rows, cols + 1));
    }
}

/// XOR-draws the sprite of `n` rows read at `mem[i..i + n]` into `display`
/// at anchor (x0, y0), clipping pixels that fall off the grid, and returns 1
/// exactly when some toggled cell was already lit, else 0. Every toggled
/// cell's collision test sees its value from before the draw, since no cell
/// is toggled twice within one draw.
pub fn draw_sprite(display: &mut [u8; 2048], mem: &[u8; 4096], i: u16, x0: u8, y0: u8, n: u8) -> (vf: u8)
    requires
        x0 < 64,
        y0 < 32,
        n < 16,
        i + n <= 4096,
    ensures
        final(display)@ == draw_display(old(display)@, mem@, i as int, x0 as int, y0 as int, n as int),
        vf == if draw_collision(old(display)@, mem@, i as int, x0 as int, y0 as int, n as int) {
            1u8
        } else {
            0u8
        },
{
    let ghost im = i as int;
    let ghost xm = x0 as int;
    let ghost ym = y0 as int;
    let mut vf: u8 = 0;
    let mut row: u8 = 0;
    while row < n
        invariant
            x0 < 64,
            y0 < 32,
            n < 16,
            i + n <= 4096,
            im == i as int && xm == x0 as int && ym == y0 as int,
            row <= n,
            forall|pos: int|
                0 <= pos < 2048 ==> #[trigger] display@[pos] == if draw_touches_prefix(
                    mem@,
                    im,
                    xm,
                    ym,
                    row as int,
                    0,
                    pos,
                ) {
                    old(display)@[pos] ^ 1
                } else {
                    old(display)@[pos]
                },
            vf == if prefix_collision(old(display)@, mem@, im, xm, ym, row as int, 0) {
                1u8
            } else {
                0u8
            },
        decreases n - row,
    {
        let sprite = mem[(i + row as u16) as usize];
        let mut col: u8 = 0;
        while col < 8
            invariant
                x0 < 64,
                y0 < 32,
                n < 16,
                i + n <= 4096,
                im == i as int && xm == x0 as int && ym == y0 as int,
                row < n,
                col <= 8,
                sprite == mem@[im + row],
                forall|pos: int|
                    0 <= pos < 2048 ==> #[trigger] display@[pos] == if draw_touches_prefix(
                        mem@,
                        im,
                        xm,
                        ym,
                        row as int,
                        col as int,
                        pos,
                    ) {
                        old(display)@[pos] ^ 1
                    } else {
                        old(display)@[pos]
                    },
                vf == if prefix_collision(old(display)@, mem@, im, xm, ym, row as int, col as int) {
                    1u8
                } else {
                    0u8
                },
            decreases 8 - col,
        {
            let ghost rg = row as int;
            let ghost cg = col as int;
            if sprite & (0x80 >> col) != 0 {
                let xi = x0 as usize + col as usize;
                let yi = y0 as usize + row as usize;
                if xi < 64 && yi < 32 {
                    let idx = yi * 64 + xi;
                    assert(idx < 2048);
                    proof {
                        assert(idx as int / 64 == yi && idx as int % 64 == xi);
                        assert(!draw_touches_prefix(mem@, im, xm, ym, rg, cg, idx as int));
                        assert(draw_touches_prefix(mem@, im, xm, ym, rg, cg + 1, idx as int));
                        assert forall|pos: int| 0 <= pos < 2048 implies (#[trigger] draw_touches_prefix(
                            mem@,
                            im,
                            xm,
                            ym,
                            rg,
                            cg + 1,
                            pos,
                        ) <==> (#[trigger] draw_touches_prefix(mem@, im, xm, ym, rg, cg, pos) || pos
                            == idx)) by {
                            assert(pos == idx ==> pos / 64 == yi && pos % 64 == xi);
                        }
                        lemma_prefix_collision_extend(
                            old(display)@,
                            mem@,
                            im,
                            xm,
                            ym,
                            rg,
                            cg,
                            idx as int,
                        );
                    }
                    if display[idx] == 1 {
                        vf = 1;
                    }
                    display[idx] = display[idx] ^ 1;
                } else {
                    proof {
                        assert forall|pos: int| 0 <= pos < 2048 implies (#[trigger] draw_touches_prefix(
                            mem@,
                            im,
                            xm,
                            ym,
                            rg,
                            cg + 1,
                            pos,
                        ) <==> #[trigger] draw_touches_prefix(mem@, im, xm, ym, rg, cg, pos)) by {
                            assert(pos / 64 < 32 && pos % 64 < 64);
                        }
                        lemma_prefix_collision_same(
                            old(display)@,
                            mem@,
                            im,
                            xm,
                            ym,
                            rg,
                            cg + 1,
                            rg,
                            cg,
                        );
                    }
                }
            } else {
                proof {
                    assert forall|pos: int| 0 <= pos < 2048 implies (#[trigger] draw_touches_prefix(
                        mem@,
                        im,
                        xm,
                        ym,
                        rg,
                        cg + 1,
                        pos,
                    ) <==> #[trigger] draw_touches_prefix(mem@, im, xm, ym, rg, cg, pos)) by {
                        if draw_touches_prefix(mem@, im, xm, ym, rg, cg + 1, pos)
                            && !draw_touches_prefix(mem@, im, xm, ym, rg, cg, pos) {
                            assert(pos % 64 - xm == cg);
                            assert(sprite_bit(mem@[im + rg], col));
                        }
                    }
                    lemma_prefix_collision_same(
                        old(display)@,
                        mem@,
                        im,
                        xm,
                        ym,
                        rg,
                        cg + 1,
                        rg,
                        cg,
                    );
                }
            }
            col = col + 1;
        }
        proof {
            assert forall|pos: int| 0 <= pos < 2048 implies (#[trigger] draw_touches_prefix(
                mem@,
                im,
                xm,
                ym,
                row as int,
                8,
                pos,
            ) <==> #[trigger] draw_touches_prefix(mem@, im, xm, ym, row as int + 1, 0, pos)) by {
            }
            lemma_prefix_collision_same(
                old(display)@,
                mem@,
                im,
                xm,
                ym,
                row as int,
                8,
                row as int + 1,
                0,
            );
        }
        row = row + 1;
    }
    proof {
        assert(display@ =~= draw_display(old(display)@, mem@, im, xm, ym, n as int));
    }
    vf
}

/// Drawing the same sprite at the same anchor twice restores the framebuffer
/// exactly: the toggle is an XOR, its own inverse, and untouched cells never
/// change.
pub proof fn lemma_draw_twice_restores(d: Seq<u8>, mem: Seq<u8>, i: int, x0: int, y0: int, n: int)
    requires
        d.len() == 2048,
    ensures
        draw_display(draw_display(d, mem, i, x0, y0, n), mem, i, x0, y0, n) == d,
{
    assert(forall|b: u8| b ^ 1 ^ 1 == b) by (bit_vector);
    assert(draw_display(draw_display(d, mem, i, x0, y0, n), mem, i, x0, y0, n) =~= d);
}

/// The second of two identical draws collides exactly when the sprite
/// toggles some cell that was unlit before the first draw: the first draw
/// flipped every toggled cell, so a cell lit at the second draw is one that
/// started dark.
pub proof fn lemma_second_draw_collision(d: Seq<u8>, mem: Seq<u8>, i: int, x0: int, y0: int, n: int)
    requires
        d.len() == 2048,
        forall|pos: int| 0 <= pos < 2048 ==> d[pos] == 0 || #[trigger] d[pos] == 1,
    ensures
        draw_collision(draw_display(d, mem, i, x0, y0, n), mem, i, x0, y0, n) <==> exists|pos: int|
            0 <= pos < 2048 && #[trigger] draw_touches(mem, i, x0, y0, n, pos) && d[pos] == 0,
{
    assert(forall|b: u8| (b == 0 || b == 1) ==> ((b ^ 1 == 1) <==> b == 0)) by (bit_vector);
    let d1 = draw_display(d, mem, i, x0, y0, n);
    if draw_collision(d1, mem, i, x0, y0, n) {
        let pos = choose|pos: int|
            0 <= pos < 2048 && #[trigger] draw_touches_prefix(mem, i, x0, y0, n, 0, pos) && d1[pos]
                == 1;
        assert(d1[pos] == d[pos] ^ 1);
        assert(draw_touches(mem, i, x0, y0, n, pos) && d[pos] == 0);
    }
    if exists|pos: int| 0 <= pos < 2048 && #[trigger] draw_touches(mem, i, x0, y0, n, pos) && d[pos]
        == 0 {
        let pos = choose|pos: int|
            0 <= pos < 2048 && #[trigger] draw_touches(mem, i, x0, y0, n, pos) && d[pos] == 0;
        assert(d1[pos] == d[pos] ^ 1);
        assert(draw_touches_prefix(mem, i, x0, y0, n, 0, pos) && d1[pos] == 1);
        assert(draw_collision(d1, mem, i, x0, y0, n));
    }
}

} // verus!
