//! The sprite-blit model. The display is a 64x32 bitmap of single-bit cells,
//! stored row-major as one flat sequence; cell (r, c) lives at index
//! `r * 64 + c`. A sprite is 8 pixels wide and up to 15 rows tall, one byte
//! per row, most-significant bit leftmost. Drawing XORs the sprite's lit
//! pixels onto the display with wraparound on both axes, and reports a
//! collision when a lit cell is flipped off.

use vstd::prelude::*;
use vstd::arithmetic::div_mod::lemma_fundamental_div_mod;

verus! {

/// Display columns.
pub const DISPLAY_WIDTH: usize = 64;

/// Display rows.
pub const DISPLAY_HEIGHT: usize = 32;

/// Cells of the whole display.
pub const DISPLAY_CELLS: usize = 64 * 32;

/// Bit `bit` of a sprite row byte, counting the most significant bit as 0:
/// the pixel `bit` columns right of the sprite's left edge.
pub open spec fn sprite_row_bit(b: u8, bit: int) -> bool {
    (b >> ((7 - bit) as u8)) & 1 == 1
}

/// The sprite drawn from address `i` of memory `m` has a lit pixel at row
/// `rr`, bit `bb`.
pub open spec fn sprite_pixel_at(m: Seq<u8>, i: int, rr: int, bb: int) -> bool {
    sprite_row_bit(m[i + rr], bb)
}

/// Flat index of display cell (r, c).
pub open spec fn cell_index(r: int, c: int) -> int {
    r * 64 + c
}

/// Sprite row `rr`, bit `bb` is lit and lands on display cell (r, c), with
/// wraparound on both axes.
pub open spec fn draw_hit(m: Seq<u8>, i: int, vx: int, vy: int, rr: int, bb: int, r: int, c: int) -> bool {
    sprite_pixel_at(m, i, rr, bb) && r == (vy + rr) % 32 && c == (vx + bb) % 64
}

/// Cell (r, c) is flipped by some lit sprite pixel lexicographically before
/// position (row, bit): a row above `row`, or row `row` left of `bit`.
pub open spec fn flips_upto(m: Seq<u8>, i: int, vx: int, vy: int, row: int, bit: int, r: int, c: int) -> bool {
    exists|rr: int, bb: int|
        0 <= rr && 0 <= bb < 8 && (rr < row || (rr == row && bb < bit)) && #[trigger] draw_hit(
            m,
            i,
            vx,
            vy,
            rr,
            bb,
            r,
            c,
        )
}

/// Cell (r, c) is flipped by drawing the `n`-row sprite at address `i`.
pub open spec fn flips(m: Seq<u8>, i: int, vx: int, vy: int, n: int, r: int, c: int) -> bool {
    flips_upto(m, i, vx, vy, n, 0, r, c)
}

/// A cell's state after an XOR with a lit pixel.
pub open spec fn flip_cell(v: u8) -> u8 {
    if v == 0 {
        1u8
    } else {
        0u8
    }
}

/// The display after drawing the `n`-row sprite at address `i` of `m` to
/// position (vx, vy): every cell some lit pixel lands on is flipped, every
/// other cell keeps its state.
pub open spec fn blit_display(d: Seq<u8>, m: Seq<u8>, i: int, vx: int, vy: int, n: int) -> Seq<u8> {
    Seq::new(
        d.len(),
        |j: int|
            if flips(m, i, vx, vy, n, j / 64, j % 64) {
                flip_cell(d[j])
            } else {
                d[j]
            },
    )
}

/// Some sprite pixel drawn before position (row, bit) lands on a cell that
/// is lit in display `d`.
pub open spec fn collision_upto(d: Seq<u8>, m: Seq<u8>, i: int, vx: int, vy: int, row: int, bit: int) -> bool {
    exists|r: int, c: int|
        0 <= r < 32 && 0 <= c < 64 && #[trigger] flips_upto(m, i, vx, vy, row, bit, r, c) && d[
            cell_index(r, c)
        ] == 1
}

/// The draw's collision flag: some lit sprite pixel lands on a lit cell.
pub open spec fn blit_collision(d: Seq<u8>, m: Seq<u8>, i: int, vx: int, vy: int, n: int) -> bool {
    collision_upto(d, m, i, vx, vy, n, 0)
}

/// The sprite has at least one lit pixel among its `n` rows.
pub open spec fn sprite_has_lit_pixel(m: Seq<u8>, i: int, n: int) -> bool {
    exists|rr: int, bb: int| 0 <= rr < n && 0 <= bb < 8 && #[trigger] sprite_pixel_at(m, i, rr, bb)
}

/// Every cell is unlit or lit, nothing else.
pub open spec fn display_wf(d: Seq<u8>) -> bool {
    d.len() == DISPLAY_CELLS && forall|j: int|
        0 <= j < DISPLAY_CELLS ==> #[trigger] d[j] == 0 || d[j] == 1
}

/// Two offsets under the same base with the same remainder are equal when
/// both lie within one period.
proof fn lemma_mod_window_inj(base: int, a: int, b: int, k: int)
    requires
        k > 0,
        0 <= a < k,
        0 <= b < k,
        (base + a) % k == (base + b) % k,
    ensures
        a == b,
{
    let qa = (base + a) / k;
    let qb = (base + b) / k;
    lemma_fundamental_div_mod(base + a, k);
    lemma_fundamental_div_mod(base + b, k);
    assert(a - b == k * qa - k * qb);
    assert(k * qa - k * qb == k * (qa - qb)) by (nonlinear_arith);
    assert(qa == qb) by (nonlinear_arith)
        requires
            k > 0,
            -k < k * (qa - qb) < k,
    ;
}

/// Distinct sprite positions land on distinct cells: rows stay distinct
/// modulo 32 because a sprite is at most 15 rows tall, and bits stay
/// distinct modulo 64 because a row is 8 pixels wide.
proof fn lemma_draw_hit_inj(
    m: Seq<u8>,
    i: int,
    vx: int,
    vy: int,
    rr1: int,
    bb1: int,
    rr2: int,
    bb2: int,
    r: int,
    c: int,
)
    requires
        0 <= rr1 < 32,
        0 <= rr2 < 32,
        0 <= bb1 < 8,
        0 <= bb2 < 8,
        draw_hit(m, i, vx, vy, rr1, bb1, r, c),
        draw_hit(m, i, vx, vy, rr2, bb2, r, c),
    ensures
        rr1 == rr2,
        bb1 == bb2,
{
    lemma_mod_window_inj(vy, rr1, rr2, 32);
    lemma_mod_window_inj(vx, bb1, bb2, 64);
}

/// Nothing is drawn before the first position.
pub proof fn lemma_flips_upto_empty(m: Seq<u8>, i: int, vx: int, vy: int, r: int, c: int)
    ensures
        !flips_upto(m, i, vx, vy, 0, 0, r, c),
{
    if flips_upto(m, i, vx, vy, 0, 0, r, c) {
        let (rr, bb) = choose|rr: int, bb: int|
            0 <= rr && 0 <= bb < 8 && (rr < 0 || (rr == 0 && bb < 0)) && #[trigger] draw_hit(
                m,
                i,
                vx,
                vy,
                rr,
                bb,
                r,
                c,
            );
        assert(false);
    }
}

/// Advancing one bit within a row adds exactly the hit of that position.
pub proof fn lemma_flips_upto_bit(
    m: Seq<u8>,
    i: int,
    vx: int,
    vy: int,
    row: int,
    bit: int,
    r: int,
    c: int,
)
    requires
        0 <= row,
        0 <= bit < 8,
    ensures
        flips_upto(m, i, vx, vy, row, bit + 1, r, c) <==> (flips_upto(m, i, vx, vy, row, bit, r, c)
            || draw_hit(m, i, vx, vy, row, bit, r, c)),
{
    if flips_upto(m, i, vx, vy, row, bit + 1, r, c) {
        let (rr, bb) = choose|rr: int, bb: int|
            0 <= rr && 0 <= bb < 8 && (rr < row || (rr == row && bb < bit + 1)) && #[trigger] draw_hit(
                m,
                i,
                vx,
                vy,
                rr,
                bb,
                r,
                c,
            );
        if rr == row && bb == bit {
            assert(draw_hit(m, i, vx, vy, row, bit, r, c));
        } else {
            assert(rr < row || (rr == row && bb < bit));
            assert(flips_upto(m, i, vx, vy, row, bit, r, c));
        }
    }
    if flips_upto(m, i, vx, vy, row, bit, r, c) {
        let (rr, bb) = choose|rr: int, bb: int|
            0 <= rr && 0 <= bb < 8 && (rr < row || (rr == row && bb < bit)) && #[trigger] draw_hit(
                m,
                i,
                vx,
                vy,
                rr,
                bb,
                r,
                c,
            );
        assert(flips_upto(m, i, vx, vy, row, bit + 1, r, c));
    }
    if draw_hit(m, i, vx, vy, row, bit, r, c) {
        assert(flips_upto(m, i, vx, vy, row, bit + 1, r, c));
    }
}

/// Finishing a row is the same as standing at the start of the next row.
pub proof fn lemma_flips_upto_row(m: Seq<u8>, i: int, vx: int, vy: int, row: int, r: int, c: int)
    ensures
        flips_upto(m, i, vx, vy, row, 8, r, c) <==> flips_upto(m, i, vx, vy, row + 1, 0, r, c),
{
    if flips_upto(m, i, vx, vy, row, 8, r, c) {
        let (rr, bb) = choose|rr: int, bb: int|
            0 <= rr && 0 <= bb < 8 && (rr < row || (rr == row && bb < 8)) && #[trigger] draw_hit(
                m,
                i,
                vx,
                vy,
                rr,
                bb,
                r,
                c,
            );
        assert(rr < row + 1);
        assert(flips_upto(m, i, vx, vy, row + 1, 0, r, c));
    }
    if flips_upto(m, i, vx, vy, row + 1, 0, r, c) {
        let (rr, bb) = choose|rr: int, bb: int|
            0 <= rr && 0 <= bb < 8 && (rr < row + 1 || (rr == row + 1 && bb < 0)) && #[trigger] draw_hit(
                m,
                i,
                vx,
                vy,
                rr,
                bb,
                r,
                c,
            );
        assert(rr < row || (rr == row && bb < 8));
        assert(flips_upto(m, i, vx, vy, row, 8, r, c));
    }
}

/// No collision can have been seen before the first position.
pub proof fn lemma_collision_upto_empty(d: Seq<u8>, m: Seq<u8>, i: int, vx: int, vy: int)
    ensures
        !collision_upto(d, m, i, vx, vy, 0, 0),
{
    if collision_upto(d, m, i, vx, vy, 0, 0) {
        let (r, c) = choose|r: int, c: int|
            0 <= r < 32 && 0 <= c < 64 && #[trigger] flips_upto(m, i, vx, vy, 0, 0, r, c) && d[
                cell_index(r, c)
            ] == 1;
        lemma_flips_upto_empty(m, i, vx, vy, r, c);
    }
}

/// Advancing one bit adds exactly the collision, if any, of that position's
/// target cell.
pub proof fn lemma_collision_upto_bit(
    d: Seq<u8>,
    m: Seq<u8>,
    i: int,
    vx: int,
    vy: int,
    row: int,
    bit: int,
)
    requires
        0 <= vx,
        0 <= vy,
        0 <= row < 32,
        0 <= bit < 8,
    ensures
        collision_upto(d, m, i, vx, vy, row, bit + 1) <==> (collision_upto(d, m, i, vx, vy, row, bit)
            || (sprite_pixel_at(m, i, row, bit) && d[cell_index((vy + row) % 32, (vx + bit) % 64)]
            == 1)),
{
    let tr = (vy + row) % 32;
    let tc = (vx + bit) % 64;
    if collision_upto(d, m, i, vx, vy, row, bit + 1) {
        let (r, c) = choose|r: int, c: int|
            0 <= r < 32 && 0 <= c < 64 && #[trigger] flips_upto(m, i, vx, vy, row, bit + 1, r, c)
                && d[cell_index(r, c)] == 1;
        lemma_flips_upto_bit(m, i, vx, vy, row, bit, r, c);
        if flips_upto(m, i, vx, vy, row, bit, r, c) {
            assert(collision_upto(d, m, i, vx, vy, row, bit));
        } else {
            assert(draw_hit(m, i, vx, vy, row, bit, r, c));
            assert(r == tr && c == tc);
        }
    }
    if collision_upto(d, m, i, vx, vy, row, bit) {
        let (r, c) = choose|r: int, c: int|
            0 <= r < 32 && 0 <= c < 64 && #[trigger] flips_upto(m, i, vx, vy, row, bit, r, c) && d[
                cell_index(r, c)
            ] == 1;
        lemma_flips_upto_bit(m, i, vx, vy, row, bit, r, c);
        assert(collision_upto(d, m, i, vx, vy, row, bit + 1));
    }
    if sprite_pixel_at(m, i, row, bit) && d[cell_index(tr, tc)] == 1 {
        assert(draw_hit(m, i, vx, vy, row, bit, tr, tc));
        lemma_flips_upto_bit(m, i, vx, vy, row, bit, tr, tc);
        assert(flips_upto(m, i, vx, vy, row, bit + 1, tr, tc));
        assert(collision_upto(d, m, i, vx, vy, row, bit + 1));
    }
}

/// Finishing a row leaves the collision seen so far unchanged.
pub proof fn lemma_collision_upto_row(d: Seq<u8>, m: Seq<u8>, i: int, vx: int, vy: int, row: int)
    ensures
        collision_upto(d, m, i, vx, vy, row, 8) <==> collision_upto(d, m, i, vx, vy, row + 1, 0),
{
    if collision_upto(d, m, i, vx, vy, row, 8) {
        let (r, c) = choose|r: int, c: int|
            0 <= r < 32 && 0 <= c < 64 && #[trigger] flips_upto(m, i, vx, vy, row, 8, r, c) && d[
                cell_index(r, c)
            ] == 1;
        lemma_flips_upto_row(m, i, vx, vy, row, r, c);
        assert(collision_upto(d, m, i, vx, vy, row + 1, 0));
    }
    if collision_upto(d, m, i, vx, vy, row + 1, 0) {
        let (r, c) = choose|r: int, c: int|
            0 <= r < 32 && 0 <= c < 64 && #[trigger] flips_upto(m, i, vx, vy, row + 1, 0, r, c)
                && d[cell_index(r, c)] == 1;
        lemma_flips_upto_row(m, i, vx, vy, row, r, c);
        assert(collision_upto(d, m, i, vx, vy, row, 8));
    }
}

/// No lit pixel lands strictly before its own position, so the cell a pixel
/// lands on has not been flipped yet when the pixel reaches it.
pub proof fn lemma_no_earlier_hit_on_target(
    m: Seq<u8>,
    i: int,
    vx: int,
    vy: int,
    row: int,
    bit: int,
    r: int,
    c: int,
)
    requires
        0 <= vx,
        0 <= vy,
        0 <= row < 32,
        0 <= bit < 8,
        draw_hit(m, i, vx, vy, row, bit, r, c),
    ensures
        !flips_upto(m, i, vx, vy, row, bit, r, c),
{
    if flips_upto(m, i, vx, vy, row, bit, r, c) {
        let (rr, bb) = choose|rr: int, bb: int|
            0 <= rr && 0 <= bb < 8 && (rr < row || (rr == row && bb < bit)) && #[trigger] draw_hit(
                m,
                i,
                vx,
                vy,
                rr,
                bb,
                r,
                c,
            );
        lemma_draw_hit_inj(m, i, vx, vy, rr, bb, row, bit, r, c);
        assert(false);
    }
}

/// Sprite-blit self-inverse: drawing the same sprite at the same
/// coordinates twice in succession returns the display to its pre-draw
/// state, because each affected cell is flipped exactly once per draw.
pub proof fn lemma_blit_self_inverse(d: Seq<u8>, m: Seq<u8>, i: int, vx: int, vy: int, n: int)
    requires
        display_wf(d),
    ensures
        blit_display(blit_display(d, m, i, vx, vy, n), m, i, vx, vy, n) == d,
{
    let d1 = blit_display(d, m, i, vx, vy, n);
    let d2 = blit_display(d1, m, i, vx, vy, n);
    assert forall|j: int| 0 <= j < DISPLAY_CELLS implies d2[j] == d[j] by {
        if flips(m, i, vx, vy, n, j / 64, j % 64) {
            assert(d1[j] == flip_cell(d[j]));
            assert(d2[j] == flip_cell(flip_cell(d[j])));
        }
    }
    assert(d2 =~= d);
}

/// The second of two identical draws reports a collision exactly when the
/// sprite has a lit pixel, provided the first draw lit some cell that was
/// unlit before it (in particular, whenever the touched cells start unlit).
pub proof fn lemma_second_blit_collision(d: Seq<u8>, m: Seq<u8>, i: int, vx: int, vy: int, n: int)
    requires
        display_wf(d),
        0 <= vx,
        0 <= vy,
        sprite_has_lit_pixel(m, i, n) ==> exists|r: int, c: int|
            0 <= r < 32 && 0 <= c < 64 && #[trigger] flips(m, i, vx, vy, n, r, c) && d[
                cell_index(r, c)
            ] == 0,
    ensures
        blit_collision(blit_display(d, m, i, vx, vy, n), m, i, vx, vy, n) == sprite_has_lit_pixel(
            m,
            i,
            n,
        ),
{
    let d1 = blit_display(d, m, i, vx, vy, n);
    if sprite_has_lit_pixel(m, i, n) {
        let (r, c) = choose|r: int, c: int|
            0 <= r < 32 && 0 <= c < 64 && #[trigger] flips(m, i, vx, vy, n, r, c) && d[
                cell_index(r, c)
            ] == 0;
        let j = cell_index(r, c);
        assert(0 <= j < DISPLAY_CELLS) by (nonlinear_arith)
            requires
                0 <= r < 32 && 0 <= c < 64 && j == r * 64 + c,
        ;
        assert(j / 64 == r && j % 64 == c) by (nonlinear_arith)
            requires
                0 <= r && 0 <= c < 64 && j == r * 64 + c,
        ;
        assert(d1[j] == flip_cell(d[j]));
        assert(d1[cell_index(r, c)] == 1);
        assert(collision_upto(d1, m, i, vx, vy, n, 0));
    }
    if blit_collision(d1, m, i, vx, vy, n) {
        let (r, c) = choose|r: int, c: int|
            0 <= r < 32 && 0 <= c < 64 && #[trigger] flips_upto(m, i, vx, vy, n, 0, r, c) && d1[
                cell_index(r, c)
            ] == 1;
        let (rr, bb) = choose|rr: int, bb: int|
            0 <= rr && 0 <= bb < 8 && (rr < n || (rr == n && bb < 0)) && #[trigger] draw_hit(
                m,
                i,
                vx,
                vy,
                rr,
                bb,
                r,
                c,
            );
        assert(sprite_pixel_at(m, i, rr, bb));
        assert(sprite_has_lit_pixel(m, i, n));
    }
}

} // verus!
