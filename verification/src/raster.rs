//! The display: a 64 x 32 grid of logical cells, each shown as a 16 x 16 block
//! of packed 0x00RRGGBB pixels in a 1024 x 512 buffer, and the sprite blitter.

use vstd::prelude::*;

verus! {

/// Width of the pixel buffer.
pub const WIDTH: usize = 1024;

/// Height of the pixel buffer.
pub const HEIGHT: usize = 512;

/// Number of pixels in the buffer.
pub const PIXELS: usize = 524288;

/// Logical columns.
pub const COLS: usize = 64;

/// Logical rows.
pub const ROWS: usize = 32;

/// Width and height of the pixel block that shows one logical cell.
pub const CELL: usize = 16;

/// The colour of an unlit cell.
pub const OFF_COLOR: u32 = 0x004D4D4D;

/// The colour of a lit cell.
pub const ON_COLOR: u32 = 0x00FF0000;

/// The logical column that pixel `p` belongs to.
pub open spec fn pixel_col(p: int) -> int {
    (p % 1024) / 16
}

/// The logical row that pixel `p` belongs to.
pub open spec fn pixel_row(p: int) -> int {
    p / 16384
}

/// The pixel that is sampled for the state of cell (`cx`, `cy`): the top left
/// one of its block.
pub open spec fn sample_index(cx: int, cy: int) -> int {
    cy * 16384 + cx * 16
}

/// A cell is lit when its sampled pixel has the lit colour.
pub open spec fn cell_lit(screen: Seq<u32>, cx: int, cy: int) -> bool {
    screen[sample_index(cx, cy)] == ON_COLOR
}

/// The colour a cell takes when it is flipped.
pub open spec fn flipped(color: u32) -> u32 {
    if color == ON_COLOR {
        OFF_COLOR
    } else {
        ON_COLOR
    }
}

/// Bit `col` of sprite row `row`, the most significant bit being column 0.
pub open spec fn sprite_bit(sprite: Seq<u8>, row: int, col: int) -> bool {
    (sprite[row] >> ((7 - col) as u8)) & 1u8 == 1u8
}

/// The sprite column that falls on logical column `cx` when the sprite is
/// placed at horizontal position `x`.
pub open spec fn sprite_col(x: int, cx: int) -> int {
    (cx + 64 - x % 64) % 64
}

/// The sprite row that falls on logical row `cy` when the sprite is placed at
/// vertical position `y`.
pub open spec fn sprite_row(y: int, cy: int) -> int {
    (cy + 32 - y % 32) % 32
}

/// The position of a sprite bit in row-major order.
pub open spec fn bit_order(row: int, col: int) -> int {
    row * 8 + col
}

/// Whether one of the first `k` bits of the sprite, in row-major order, is set
/// and falls on cell (`cx`, `cy`).
pub open spec fn covers_before(sprite: Seq<u8>, x: int, y: int, cx: int, cy: int, k: int) -> bool {
    let col = sprite_col(x, cx);
    let row = sprite_row(y, cy);
    col < 8 && row < sprite.len() && bit_order(row, col) < k && sprite_bit(sprite, row, col)
}

/// Whether a set bit of the sprite falls on cell (`cx`, `cy`).
pub open spec fn sprite_covers(sprite: Seq<u8>, x: int, y: int, cx: int, cy: int) -> bool {
    covers_before(sprite, x, y, cx, cy, 8 * (sprite.len() as int))
}

/// The buffer after the first `k` bits of the sprite were drawn: each covered
/// cell is flipped, every pixel of its block alike.
pub open spec fn drawn_before(screen: Seq<u32>, sprite: Seq<u8>, x: int, y: int, k: int) -> Seq<u32> {
    Seq::new(
        screen.len(),
        |p: int|
            if covers_before(sprite, x, y, pixel_col(p), pixel_row(p), k) {
                flipped(screen[sample_index(pixel_col(p), pixel_row(p))])
            } else {
                screen[p]
            },
    )
}

/// The buffer after the sprite was drawn at (`x`, `y`).
pub open spec fn spec_draw(screen: Seq<u32>, sprite: Seq<u8>, x: int, y: int) -> Seq<u32> {
    drawn_before(screen, sprite, x, y, 8 * (sprite.len() as int))
}

/// Whether one of the first `k` bits of the sprite falls on a lit cell.
pub open spec fn collides_before(screen: Seq<u32>, sprite: Seq<u8>, x: int, y: int, k: int) -> bool {
    exists|cx: int, cy: int|
        0 <= cx < 64 && 0 <= cy < 32 && #[trigger] covers_before(sprite, x, y, cx, cy, k)
            && cell_lit(screen, cx, cy)
}

/// Whether drawing the sprite at (`x`, `y`) turns a lit cell off.
pub open spec fn spec_collides(screen: Seq<u32>, sprite: Seq<u8>, x: int, y: int) -> bool {
    collides_before(screen, sprite, x, y, 8 * (sprite.len() as int))
}

/// The buffer with cell (`cx`, `cy`) flipped.
pub open spec fn spec_flip(screen: Seq<u32>, cx: int, cy: int) -> Seq<u32> {
    Seq::new(
        screen.len(),
        |p: int|
            if pixel_col(p) == cx && pixel_row(p) == cy {
                flipped(screen[sample_index(cx, cy)])
            } else {
                screen[p]
            },
    )
}

/// The buffer with every cell unlit.
pub open spec fn spec_clear(screen: Seq<u32>) -> Seq<u32> {
    Seq::new(screen.len(), |p: int| OFF_COLOR)
}

/// Sets every pixel to the unlit colour.
pub fn clear_screen(screen: &mut [u32; 524288])
    ensures
        final(screen)@ == spec_clear(old(screen)@),
{
    let mut p: usize = 0;
    while p < 524288
        invariant
            p <= 524288,
            forall|q: int| 0 <= q < p ==> screen@[q] == OFF_COLOR,
        decreases 524288 - p,
    {
        screen[p] = OFF_COLOR;
        p = p + 1;
    }
    assert(screen@ =~= spec_clear(old(screen)@));
}

/// Whether pixel `p` lies in the block of cell (`cx`, `cy`), in one of its
/// first `j` pixel rows or among the first `i` pixels of row `j`.
pub open spec fn painted(p: int, cx: int, cy: int, j: int, i: int) -> bool {
    let px = p % 1024;
    let py = p / 1024;
    cx * 16 <= px < cx * 16 + 16 && cy * 16 <= py < cy * 16 + 16 && (py < cy * 16 + j || (py == cy
        * 16 + j && px < cx * 16 + i))
}

/// The pixels of a cell's block are those whose row and column fall within it.
pub proof fn lemma_block_pixels(p: int, cx: int, cy: int)
    requires
        0 <= p < 524288,
        0 <= cx < 64,
        0 <= cy < 32,
    ensures
        painted(p, cx, cy, 16, 0) == (pixel_col(p) == cx && pixel_row(p) == cy),
        0 <= pixel_col(p) < 64,
        0 <= pixel_row(p) < 32,
{
    let px = p % 1024;
    let py = p / 1024;
    assert(p / 16384 == py / 16);
}

/// Flips cell (`cx`, `cy`), writing all 256 pixels of its block, and reports
/// whether the cell was lit before.
pub fn flip_cell(screen: &mut [u32; 524288], cx: usize, cy: usize) -> (was_lit: bool)
    requires
        cx < 64,
        cy < 32,
    ensures
        was_lit == cell_lit(old(screen)@, cx as int, cy as int),
        final(screen)@ == spec_flip(old(screen)@, cx as int, cy as int),
{
    let base: usize = cy * 16384 + cx * 16;
    let was_lit = screen[base] == ON_COLOR;
    let color: u32 = if was_lit {
        OFF_COLOR
    } else {
        ON_COLOR
    };
    let mut j: usize = 0;
    while j < 16
        invariant
            j <= 16,
            cx < 64,
            cy < 32,
            base == cy * 16384 + cx * 16,
            forall|p: int|
                0 <= p < 524288 ==> #[trigger] screen@[p] == if painted(
                    p,
                    cx as int,
                    cy as int,
                    j as int,
                    0,
                ) {
                    color
                } else {
                    old(screen)@[p]
                },
        decreases 16 - j,
    {
        let mut i: usize = 0;
        while i < 16
            invariant
                i <= 16,
                j < 16,
                cx < 64,
                cy < 32,
                base == cy * 16384 + cx * 16,
                forall|p: int|
                    0 <= p < 524288 ==> #[trigger] screen@[p] == if painted(
                        p,
                        cx as int,
                        cy as int,
                        j as int,
                        i as int,
                    ) {
                        color
                    } else {
                        old(screen)@[p]
                    },
            decreases 16 - i,
        {
            let at: usize = base + j * 1024 + i;
            let ghost prev = screen@;
            proof {
                assert(at / 1024 == cy * 16 + j);
                assert(at % 1024 == cx * 16 + i);
            }
            screen[at] = color;
            proof {
                assert forall|p: int| 0 <= p < 524288 implies #[trigger] screen@[p] == if painted(
                    p,
                    cx as int,
                    cy as int,
                    j as int,
                    i + 1,
                ) {
                    color
                } else {
                    old(screen)@[p]
                } by {
                    if p != at {
                        assert(screen@[p] == prev[p]);
                        assert(p == (p / 1024) * 1024 + p % 1024);
                        assert(p / 1024 != at / 1024 || p % 1024 != at % 1024);
                    }
                }
            }
            i = i + 1;
        }
        j = j + 1;
    }
    proof {
        assert forall|p: int| 0 <= p < 524288 implies screen@[p] == spec_flip(
            old(screen)@,
            cx as int,
            cy as int,
        )[p] by {
            lemma_block_pixels(p, cx as int, cy as int);
        }
    }
    assert(screen@ =~= spec_flip(old(screen)@, cx as int, cy as int));
    was_lit
}

/// Sprite column `col` placed at `x` lands on logical column `(x + col) mod 64`
/// and on no other.
pub proof fn lemma_landing_col(x: int, col: int, ax: int)
    requires
        0 <= x,
        0 <= col < 64,
        0 <= ax < 64,
    ensures
        0 <= (x + col) % 64 < 64,
        sprite_col(x, (x + col) % 64) == col,
        sprite_col(x, ax) == col ==> ax == (x + col) % 64,
{
}

/// Sprite row `row` placed at `y` lands on logical row `(y + row) mod 32` and
/// on no other.
pub proof fn lemma_landing_row(y: int, row: int, ay: int)
    requires
        0 <= y,
        0 <= row < 32,
        0 <= ay < 32,
    ensures
        0 <= (y + row) % 32 < 32,
        sprite_row(y, (y + row) % 32) == row,
        sprite_row(y, ay) == row ==> ay == (y + row) % 32,
{
}

/// The sampled pixel of a cell lies in that cell.
pub proof fn lemma_sample_in_cell(cx: int, cy: int)
    requires
        0 <= cx < 64,
        0 <= cy < 32,
    ensures
        0 <= sample_index(cx, cy) < 524288,
        pixel_col(sample_index(cx, cy)) == cx,
        pixel_row(sample_index(cx, cy)) == cy,
{
}

/// The cells covered by the first `k + 1` bits are those covered by the first
/// `k`, and the landing cell of bit `k` if that bit is set.
pub proof fn lemma_covers_step(
    sprite: Seq<u8>,
    x: int,
    y: int,
    row: int,
    col: int,
    ax: int,
    ay: int,
)
    requires
        sprite.len() <= 32,
        0 <= row < sprite.len(),
        0 <= col < 8,
        0 <= x,
        0 <= y,
        0 <= ax < 64,
        0 <= ay < 32,
    ensures
        covers_before(sprite, x, y, ax, ay, bit_order(row, col) + 1) == (covers_before(
            sprite,
            x,
            y,
            ax,
            ay,
            bit_order(row, col),
        ) || (sprite_bit(sprite, row, col) && ax == (x + col) % 64 && ay == (y + row) % 32)),
{
    lemma_landing_col(x, col, ax);
    lemma_landing_row(y, row, ay);
    let c = sprite_col(x, ax);
    let r = sprite_row(y, ay);
    if c < 8 && r < sprite.len() {
        assert(bit_order(r, c) < bit_order(row, col) + 1 <==> (bit_order(r, c) < bit_order(
            row,
            col,
        ) || (r == row && c == col)));
    }
}

/// Drawing one more bit of the sprite: a set bit flips the cell it falls on,
/// which no earlier bit has touched, and a clear bit changes nothing.
pub proof fn lemma_draw_step(screen: Seq<u32>, sprite: Seq<u8>, x: int, y: int, row: int, col: int)
    requires
        screen.len() == 524288,
        sprite.len() <= 32,
        0 <= row < sprite.len(),
        0 <= col < 8,
        0 <= x,
        0 <= y,
    ensures
        cell_lit(
            drawn_before(screen, sprite, x, y, bit_order(row, col)),
            (x + col) % 64,
            (y + row) % 32,
        ) == cell_lit(screen, (x + col) % 64, (y + row) % 32),
        drawn_before(screen, sprite, x, y, bit_order(row, col) + 1) == if sprite_bit(
            sprite,
            row,
            col,
        ) {
            spec_flip(
                drawn_before(screen, sprite, x, y, bit_order(row, col)),
                (x + col) % 64,
                (y + row) % 32,
            )
        } else {
            drawn_before(screen, sprite, x, y, bit_order(row, col))
        },
{
    let k = bit_order(row, col);
    let cx = (x + col) % 64;
    let cy = (y + row) % 32;
    let before = drawn_before(screen, sprite, x, y, k);
    let after = drawn_before(screen, sprite, x, y, k + 1);
    let target = if sprite_bit(sprite, row, col) {
        spec_flip(before, cx, cy)
    } else {
        before
    };
    lemma_landing_col(x, col, cx);
    lemma_landing_row(y, row, cy);
    lemma_sample_in_cell(cx, cy);
    assert(!covers_before(sprite, x, y, cx, cy, k));
    assert(before[sample_index(cx, cy)] == screen[sample_index(cx, cy)]);
    assert forall|p: int| 0 <= p < 524288 implies after[p] == target[p] by {
        lemma_block_pixels(p, cx, cy);
        lemma_covers_step(sprite, x, y, row, col, pixel_col(p), pixel_row(p));
    }
    assert(after =~= target);
}

/// Drawing one more bit of the sprite collides when an earlier bit did, or
/// when the bit is set and falls on a lit cell.
pub proof fn lemma_collide_step(
    screen: Seq<u32>,
    sprite: Seq<u8>,
    x: int,
    y: int,
    row: int,
    col: int,
)
    requires
        sprite.len() <= 32,
        0 <= row < sprite.len(),
        0 <= col < 8,
        0 <= x,
        0 <= y,
    ensures
        collides_before(screen, sprite, x, y, bit_order(row, col) + 1) == (collides_before(
            screen,
            sprite,
            x,
            y,
            bit_order(row, col),
        ) || (sprite_bit(sprite, row, col) && cell_lit(screen, (x + col) % 64, (y + row) % 32))),
{
    let k = bit_order(row, col);
    let cx = (x + col) % 64;
    let cy = (y + row) % 32;
    lemma_landing_col(x, col, cx);
    lemma_landing_row(y, row, cy);
    if collides_before(screen, sprite, x, y, k + 1) {
        let (ax, ay) = choose|ax: int, ay: int|
            0 <= ax < 64 && 0 <= ay < 32 && #[trigger] covers_before(sprite, x, y, ax, ay, k + 1)
                && cell_lit(screen, ax, ay);
        lemma_covers_step(sprite, x, y, row, col, ax, ay);
        if covers_before(sprite, x, y, ax, ay, k) {
            assert(collides_before(screen, sprite, x, y, k));
        }
    }
    if collides_before(screen, sprite, x, y, k) {
        let (ax, ay) = choose|ax: int, ay: int|
            0 <= ax < 64 && 0 <= ay < 32 && #[trigger] covers_before(sprite, x, y, ax, ay, k)
                && cell_lit(screen, ax, ay);
        lemma_covers_step(sprite, x, y, row, col, ax, ay);
        assert(covers_before(sprite, x, y, ax, ay, k + 1));
    }
    if sprite_bit(sprite, row, col) && cell_lit(screen, cx, cy) {
        lemma_covers_step(sprite, x, y, row, col, cx, cy);
        assert(covers_before(sprite, x, y, cx, cy, k + 1));
    }
}

/// Draws the `rows` bytes of `memory` from `start` on as a sprite at (`x`, `y`):
/// each set bit flips the cell it falls on, columns wrapping at 64 and rows at
/// 32. Returns whether a lit cell was turned off.
pub fn draw_sprite(
    screen: &mut [u32; 524288],
    memory: &[u8; 4096],
    start: usize,
    rows: usize,
    x: u8,
    y: u8,
) -> (collided: bool)
    requires
        rows <= 32,
        start + rows <= 4096,
    ensures
        final(screen)@ == spec_draw(
            old(screen)@,
            memory@.subrange(start as int, start + rows),
            x as int,
            y as int,
        ),
        collided == spec_collides(
            old(screen)@,
            memory@.subrange(start as int, start + rows),
            x as int,
            y as int,
        ),
{
    let ghost sprite = memory@.subrange(start as int, start + rows);
    let ghost first = old(screen)@;
    let mut collided = false;
    let mut row: usize = 0;
    assert(screen@ =~= drawn_before(first, sprite, x as int, y as int, 0));
    while row < rows
        invariant
            row <= rows,
            rows <= 32,
            start + rows <= 4096,
            sprite == memory@.subrange(start as int, start + rows),
            first.len() == 524288,
            screen@ == drawn_before(first, sprite, x as int, y as int, 8 * row),
            collided == collides_before(first, sprite, x as int, y as int, 8 * row),
        decreases rows - row,
    {
        let byte: u8 = memory[start + row];
        let mut col: u8 = 0;
        while col < 8
            invariant
                col <= 8,
                row < rows,
                rows <= 32,
                sprite.len() == rows,
                byte == sprite[row as int],
                first.len() == 524288,
                screen@ == drawn_before(first, sprite, x as int, y as int, 8 * row + col),
                collided == collides_before(first, sprite, x as int, y as int, 8 * row + col),
            decreases 8 - col,
        {
            proof {
                lemma_draw_step(first, sprite, x as int, y as int, row as int, col as int);
                lemma_collide_step(first, sprite, x as int, y as int, row as int, col as int);
            }
            if (byte >> (7 - col)) & 1 == 1 {
                let cx: usize = (x as usize + col as usize) % 64;
                let cy: usize = (y as usize + row) % 32;
                let was_lit = flip_cell(screen, cx, cy);
                if was_lit {
                    collided = true;
                }
            }
            col = col + 1;
        }
        row = row + 1;
    }
    collided
}

/// Reports whether cell (`cx`, `cy`) is lit.
pub fn cell_is_lit(screen: &[u32; 524288], cx: usize, cy: usize) -> (lit: bool)
    requires
        cx < 64,
        cy < 32,
    ensures
        lit == cell_lit(screen@, cx as int, cy as int),
{
    screen[cy * 16384 + cx * 16] == ON_COLOR
}

/// Bit (`row`, `col`) of a sprite placed at (`x`, `y`) decides the cell in
/// column `(x + col) mod 64` and row `(y + row) mod 32`: columns that pass
/// the right edge come back at the left, rows that pass the bottom at the top.
pub proof fn lemma_bit_lands(sprite: Seq<u8>, x: int, y: int, row: int, col: int)
    requires
        sprite.len() <= 32,
        0 <= row < sprite.len(),
        0 <= col < 8,
        0 <= x,
        0 <= y,
    ensures
        sprite_covers(sprite, x, y, (x + col) % 64, (y + row) % 32) == sprite_bit(sprite, row, col),
{
    lemma_landing_col(x, col, 0);
    lemma_landing_row(y, row, 0);
}

/// Whether some set bit (`row`, `col`) of the sprite, placed at (`x`, `y`),
/// lands on cell (`cx`, `cy`): `(x + col) mod 64` is `cx` and
/// `(y + row) mod 32` is `cy`.
pub open spec fn some_bit_lands(sprite: Seq<u8>, x: int, y: int, cx: int, cy: int) -> bool {
    exists|row: int, col: int|
        0 <= row < sprite.len() && 0 <= col < 8 && #[trigger] sprite_bit(sprite, row, col) && (x
            + col) % 64 == cx && (y + row) % 32 == cy
}

/// A sprite no taller than the screen covers a cell exactly when one of its
/// set bits lands on it.
pub proof fn lemma_covers_iff_bit_lands(sprite: Seq<u8>, x: int, y: int, cx: int, cy: int)
    requires
        sprite.len() <= 32,
        0 <= x,
        0 <= y,
        0 <= cx < 64,
        0 <= cy < 32,
    ensures
        sprite_covers(sprite, x, y, cx, cy) == some_bit_lands(sprite, x, y, cx, cy),
{
    if sprite_covers(sprite, x, y, cx, cy) {
        let col = sprite_col(x, cx);
        let row = sprite_row(y, cy);
        assert((x + col) % 64 == cx);
        assert((y + row) % 32 == cy);
        assert(sprite_bit(sprite, row, col));
    }
    if some_bit_lands(sprite, x, y, cx, cy) {
        let (row, col) = choose|row: int, col: int|
            0 <= row < sprite.len() && 0 <= col < 8 && #[trigger] sprite_bit(sprite, row, col) && (x
                + col) % 64 == cx && (y + row) % 32 == cy;
        lemma_bit_lands(sprite, x, y, row, col);
    }
}

/// Drawing flips exactly the cells that the sprite covers.
pub proof fn lemma_draw_flips(screen: Seq<u32>, sprite: Seq<u8>, x: int, y: int, cx: int, cy: int)
    requires
        screen.len() == 524288,
        0 <= cx < 64,
        0 <= cy < 32,
    ensures
        cell_lit(spec_draw(screen, sprite, x, y), cx, cy) == (cell_lit(screen, cx, cy)
            != sprite_covers(sprite, x, y, cx, cy)),
{
    lemma_sample_in_cell(cx, cy);
}

/// Drawing the same sprite twice at the same place leaves every cell as it
/// was, and the second draw collides on each covered cell that was unlit at
/// first.
pub proof fn lemma_draw_twice(screen: Seq<u32>, sprite: Seq<u8>, x: int, y: int, cx: int, cy: int)
    requires
        screen.len() == 524288,
        0 <= cx < 64,
        0 <= cy < 32,
    ensures
        cell_lit(spec_draw(spec_draw(screen, sprite, x, y), sprite, x, y), cx, cy) == cell_lit(
            screen,
            cx,
            cy,
        ),
        sprite_covers(sprite, x, y, cx, cy) && !cell_lit(screen, cx, cy) ==> spec_collides(
            spec_draw(screen, sprite, x, y),
            sprite,
            x,
            y,
        ),
{
    let once = spec_draw(screen, sprite, x, y);
    lemma_draw_flips(screen, sprite, x, y, cx, cy);
    lemma_draw_flips(once, sprite, x, y, cx, cy);
    if sprite_covers(sprite, x, y, cx, cy) && !cell_lit(screen, cx, cy) {
        assert(covers_before(sprite, x, y, cx, cy, 8 * (sprite.len() as int)) && cell_lit(
            once,
            cx,
            cy,
        ));
    }
}

/// The buffer shows cells only: every pixel has the colour of the sampled
/// pixel of its block.
pub open spec fn blocks_uniform(screen: Seq<u32>) -> bool {
    &&& screen.len() == 524288
    &&& forall|p: int|
        0 <= p < 524288 ==> #[trigger] screen[p] == screen[sample_index(pixel_col(p), pixel_row(p))]
}

/// A cleared buffer shows cells only, all of them unlit.
pub proof fn lemma_clear_uniform(screen: Seq<u32>, cx: int, cy: int)
    requires
        screen.len() == 524288,
        0 <= cx < 64,
        0 <= cy < 32,
    ensures
        blocks_uniform(spec_clear(screen)),
        !cell_lit(spec_clear(screen), cx, cy),
{
    lemma_sample_in_cell(cx, cy);
    assert forall|p: int| 0 <= p < 524288 implies #[trigger] spec_clear(screen)[p] == spec_clear(
        screen,
    )[sample_index(pixel_col(p), pixel_row(p))] by {
        lemma_block_pixels(p, 0, 0);
        lemma_sample_in_cell(pixel_col(p), pixel_row(p));
    }
}

/// Flipping a cell writes its whole block: a buffer that shows cells only
/// still does so afterwards.
pub proof fn lemma_flip_keeps_blocks(screen: Seq<u32>, cx: int, cy: int)
    requires
        blocks_uniform(screen),
    ensures
        blocks_uniform(spec_flip(screen, cx, cy)),
{
    let after = spec_flip(screen, cx, cy);
    assert forall|p: int| 0 <= p < 524288 implies #[trigger] after[p] == after[sample_index(
        pixel_col(p),
        pixel_row(p),
    )] by {
        lemma_block_pixels(p, 0, 0);
        lemma_sample_in_cell(pixel_col(p), pixel_row(p));
    }
}

/// Drawing writes whole blocks: a buffer that shows cells only still does so
/// after a sprite was drawn.
pub proof fn lemma_draw_keeps_blocks(screen: Seq<u32>, sprite: Seq<u8>, x: int, y: int)
    requires
        blocks_uniform(screen),
    ensures
        blocks_uniform(spec_draw(screen, sprite, x, y)),
{
    let after = spec_draw(screen, sprite, x, y);
    assert forall|p: int| 0 <= p < 524288 implies #[trigger] after[p] == after[sample_index(
        pixel_col(p),
        pixel_row(p),
    )] by {
        lemma_block_pixels(p, 0, 0);
        lemma_sample_in_cell(pixel_col(p), pixel_row(p));
    }
}

} // verus!
