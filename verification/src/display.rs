//! The framebuffer: 64 by 32 pixels, each on or off. Sprites are drawn by
//! exclusive or, and wrap around at the edges.

use vstd::prelude::*;

verus! {

/// The number of pixels in a row.
pub const DISPLAY_WIDTH: usize = 64;

/// The number of rows.
pub const DISPLAY_HEIGHT: usize = 32;

/// The number of pixels.
pub const DISPLAY_SIZE: usize = 2048;

/// Whether the bit of a sprite row at column `sx` is set. The most
/// significant bit is column 0, the leftmost.
pub open spec fn sprite_bit(byte: u8, sx: u8) -> bool {
    sx < 8 && byte & (0x80u8 >> sx) != 0
}

/// The place in the grid, row by row, of the pixel that column `sx` of row
/// `k` of a sprite drawn at `(x, y)` falls on. Both coordinates wrap.
pub open spec fn cell_at(x: int, y: int, k: int, sx: int) -> int {
    ((y + k) % 32) * 64 + (x + sx) % 64
}

/// The grid after the first `bits` columns of row `k` of a sprite have been
/// drawn: each pixel under a set bit is flipped.
pub open spec fn xor_row(grid: Seq<bool>, x: int, y: int, byte: u8, k: int, bits: int) -> Seq<bool>
    decreases bits,
{
    if bits <= 0 {
        grid
    } else {
        let before = xor_row(grid, x, y, byte, k, bits - 1);
        let cell = cell_at(x, y, k, bits - 1);
        if sprite_bit(byte, (bits - 1) as u8) {
            before.update(cell, !before[cell])
        } else {
            before
        }
    }
}

/// Whether one of the first `bits` columns of row `k` of a sprite flips a
/// pixel that was on just before.
pub open spec fn row_collides(grid: Seq<bool>, x: int, y: int, byte: u8, k: int, bits: int) -> bool
    decreases bits,
{
    if bits <= 0 {
        false
    } else {
        let before = xor_row(grid, x, y, byte, k, bits - 1);
        row_collides(grid, x, y, byte, k, bits - 1) || (sprite_bit(byte, (bits - 1) as u8)
            && before[cell_at(x, y, k, bits - 1)])
    }
}

/// The grid after a sprite has been drawn at `(x, y)`, row after row from
/// the top.
pub open spec fn drawn(grid: Seq<bool>, x: int, y: int, sprite: Seq<u8>) -> Seq<bool>
    decreases sprite.len(),
{
    if sprite.len() == 0 {
        grid
    } else {
        xor_row(
            drawn(grid, x, y, sprite.drop_last()),
            x,
            y,
            sprite.last(),
            sprite.len() - 1,
            8,
        )
    }
}

/// Whether drawing a sprite at `(x, y)` turns off a pixel that was on just
/// before it was flipped.
pub open spec fn collides(grid: Seq<bool>, x: int, y: int, sprite: Seq<u8>) -> bool
    decreases sprite.len(),
{
    if sprite.len() == 0 {
        false
    } else {
        collides(grid, x, y, sprite.drop_last()) || row_collides(
            drawn(grid, x, y, sprite.drop_last()),
            x,
            y,
            sprite.last(),
            sprite.len() - 1,
            8,
        )
    }
}

/// The grid with every pixel off.
pub open spec fn cleared() -> Seq<bool> {
    Seq::new(DISPLAY_SIZE as nat, |i: int| false)
}

/// The framebuffer of the machine.
#[derive(Debug)]
pub struct Display {
    mem: [bool; 2048],
}

impl View for Display {
    type V = Seq<bool>;

    /// The pixels row by row, 64 to a row: the pixel at `(x, y)` is at
    /// `y * 64 + x`.
    closed spec fn view(&self) -> Seq<bool> {
        self.mem@
    }
}

impl Display {
    /// A display has 2048 pixels.
    pub proof fn lemma_len(&self)
        ensures
            self@.len() == DISPLAY_SIZE,
    {
    }

    /// The display with every pixel off.
    pub fn new() -> (r: Display)
        ensures
            r@ == cleared(),
    {
        let r = Display { mem: [false;2048] };
        assert(r@ =~= cleared());
        r
    }

    /// Turns every pixel off.
    pub fn clear(&mut self)
        ensures
            final(self)@ == cleared(),
    {
        let mut i: usize = 0;
        while i < DISPLAY_SIZE
            invariant
                i <= DISPLAY_SIZE,
                self@.len() == DISPLAY_SIZE,
                forall|j: int| 0 <= j < i ==> !self@[j],
            decreases DISPLAY_SIZE - i,
        {
            self.mem[i] = false;
            i = i + 1;
        }
        assert(self@ =~= cleared());
    }

    /// Draws a sprite at `(x, y)`: the rows from the top down, each byte a
    /// row of eight pixels with the most significant bit leftmost. A set bit
    /// flips its pixel. Says whether a pixel that was on has been turned
    /// off.
    pub fn draw(&mut self, x: usize, y: usize, sprite: &[u8]) -> (collided: bool)
        ensures
            final(self)@ == drawn(old(self)@, x as int, y as int, sprite@),
            collided == collides(old(self)@, x as int, y as int, sprite@),
    {
        let x0: usize = x % DISPLAY_WIDTH;
        let y0: usize = y % DISPLAY_HEIGHT;
        let mut collision = false;
        let mut sy: usize = 0;
        assert(sprite@.take(0) =~= Seq::<u8>::empty());
        while sy < sprite.len()
            invariant
                sy <= sprite@.len(),
                x0 == x % 64,
                y0 == y % 32,
                self@.len() == DISPLAY_SIZE,
                self@ == drawn(old(self)@, x as int, y as int, sprite@.take(sy as int)),
                collision == collides(old(self)@, x as int, y as int, sprite@.take(sy as int)),
            decreases sprite@.len() - sy,
        {
            let byte: u8 = sprite[sy];
            let dy: usize = (y0 + sy % DISPLAY_HEIGHT) % DISPLAY_HEIGHT;
            let ghost row_start = self@;
            let mut sx: u8 = 0;
            while sx < 8
                invariant
                    sx <= 8,
                    x0 == x % 64,
                    dy == (y + sy) % 32,
                    self@.len() == DISPLAY_SIZE,
                    row_start.len() == DISPLAY_SIZE,
                    self@ == xor_row(row_start, x as int, y as int, byte, sy as int, sx as int),
                    collision == (collides(old(self)@, x as int, y as int, sprite@.take(sy as int))
                        || row_collides(row_start, x as int, y as int, byte, sy as int, sx as int)),
                decreases 8 - sx,
            {
                if byte & (0x80u8 >> sx) != 0 {
                    let dx: usize = (x0 + sx as usize) % DISPLAY_WIDTH;
                    let index: usize = dy * DISPLAY_WIDTH + dx;
                    assert(index == cell_at(x as int, y as int, sy as int, sx as int));
                    if self.mem[index] {
                        collision = true;
                    }
                    let lit: bool = self.mem[index];
                    self.mem[index] = !lit;
                }
                sx = sx + 1;
            }
            proof {
                assert(sprite@.take(sy + 1).drop_last() =~= sprite@.take(sy as int));
                assert(sprite@.take(sy + 1).last() == byte);
            }
            sy = sy + 1;
        }
        assert(sprite@.take(sy as int) =~= sprite@);
        collision
    }

    /// Whether the pixel at column `x` of row `y` is on.
    pub fn get(&self, x: usize, y: usize) -> (lit: bool)
        requires
            x < DISPLAY_WIDTH,
            y < DISPLAY_HEIGHT,
        ensures
            lit == self@[y * 64 + x],
    {
        self.mem[y * DISPLAY_WIDTH + x]
    }
}

/// The row of the grid that row `k` of a sprite drawn at height `y` falls
/// on.
pub open spec fn grid_row(y: int, k: int) -> int {
    (y + k) % 32
}

/// Whether the first `bits` columns of row `k` of a sprite flip the pixel at
/// place `i` an odd number of times.
pub open spec fn row_toggles(x: int, y: int, byte: u8, k: int, i: int, bits: int) -> bool
    decreases bits,
{
    if bits <= 0 {
        false
    } else {
        row_toggles(x, y, byte, k, i, bits - 1) != (sprite_bit(byte, (bits - 1) as u8) && cell_at(
            x,
            y,
            k,
            bits - 1,
        ) == i)
    }
}

/// Whether a sprite drawn at `(x, y)` flips the pixel at place `i` an odd
/// number of times.
pub open spec fn toggles(x: int, y: int, sprite: Seq<u8>, i: int) -> bool
    decreases sprite.len(),
{
    if sprite.len() == 0 {
        false
    } else {
        toggles(x, y, sprite.drop_last(), i) != row_toggles(
            x,
            y,
            sprite.last(),
            sprite.len() - 1,
            i,
            8,
        )
    }
}

/// Whether a sprite has a bit set.
pub open spec fn has_set_bit(sprite: Seq<u8>) -> bool {
    exists|k: int, sx: u8| 0 <= k < sprite.len() && #[trigger] sprite_bit(sprite[k], sx)
}

/// Every pixel that a sprite falls on lies in the grid.
pub proof fn lemma_cell_in_grid(x: int, y: int, k: int, sx: int)
    requires
        0 <= x,
        0 <= y,
        0 <= k,
        0 <= sx,
    ensures
        0 <= cell_at(x, y, k, sx) < DISPLAY_SIZE,
        cell_at(x, y, k, sx) / 64 == (y + k) % 32,
        cell_at(x, y, k, sx) % 64 == (x + sx) % 64,
{
}

/// Drawing part of a row flips exactly the pixels that the part flips an odd
/// number of times, and leaves the size of the grid as it was.
pub proof fn lemma_xor_row(grid: Seq<bool>, x: int, y: int, byte: u8, k: int, bits: int)
    requires
        grid.len() == DISPLAY_SIZE,
        0 <= x,
        0 <= y,
        0 <= k,
        0 <= bits <= 8,
    ensures
        xor_row(grid, x, y, byte, k, bits).len() == DISPLAY_SIZE,
        forall|i: int|
            0 <= i < DISPLAY_SIZE ==> #[trigger] xor_row(grid, x, y, byte, k, bits)[i] == (grid[i]
                != row_toggles(x, y, byte, k, i, bits)),
    decreases bits,
{
    if bits > 0 {
        lemma_xor_row(grid, x, y, byte, k, bits - 1);
        lemma_cell_in_grid(x, y, k, bits - 1);
    }
}

/// Drawing a sprite flips exactly the pixels that the sprite flips an odd
/// number of times, and leaves the size of the grid as it was.
pub proof fn lemma_drawn(grid: Seq<bool>, x: int, y: int, sprite: Seq<u8>)
    requires
        grid.len() == DISPLAY_SIZE,
        0 <= x,
        0 <= y,
    ensures
        drawn(grid, x, y, sprite).len() == DISPLAY_SIZE,
        forall|i: int|
            0 <= i < DISPLAY_SIZE ==> #[trigger] drawn(grid, x, y, sprite)[i] == (grid[i] != toggles(
                x,
                y,
                sprite,
                i,
            )),
    decreases sprite.len(),
{
    if sprite.len() > 0 {
        lemma_drawn(grid, x, y, sprite.drop_last());
        lemma_xor_row(
            drawn(grid, x, y, sprite.drop_last()),
            x,
            y,
            sprite.last(),
            sprite.len() - 1,
            8,
        );
    }
}

/// Drawing the same sprite twice at the same place gives the grid back as
/// it was before the first.
pub proof fn lemma_draw_twice_restores(grid: Seq<bool>, x: int, y: int, sprite: Seq<u8>)
    requires
        grid.len() == DISPLAY_SIZE,
        0 <= x,
        0 <= y,
    ensures
        drawn(drawn(grid, x, y, sprite), x, y, sprite) == grid,
{
    lemma_drawn(grid, x, y, sprite);
    lemma_drawn(drawn(grid, x, y, sprite), x, y, sprite);
    assert(drawn(drawn(grid, x, y, sprite), x, y, sprite) =~= grid);
}

/// Part of a row flips no pixel outside the row, and none before the
/// column where the part ends, counted from the sprite's left edge.
proof fn lemma_row_toggles_only_its_cells(x: int, y: int, byte: u8, k: int, i: int, bits: int)
    requires
        0 <= x,
        0 <= y,
        0 <= k,
        0 <= bits <= 8,
    ensures
        row_toggles(x, y, byte, k, i, bits) ==> i / 64 == (y + k) % 32,
        forall|sx: int|
            bits <= sx < 8 && i == cell_at(x, y, k, sx) ==> !row_toggles(x, y, byte, k, i, bits),
    decreases bits,
{
    if bits > 0 {
        lemma_row_toggles_only_its_cells(x, y, byte, k, i, bits - 1);
        lemma_cell_in_grid(x, y, k, bits - 1);
        assert forall|sx: int| bits <= sx < 8 && i == cell_at(x, y, k, sx) implies !row_toggles(
            x,
            y,
            byte,
            k,
            i,
            bits,
        ) by {
            lemma_cell_in_grid(x, y, k, sx);
        }
    }
}

/// A whole row flips the pixel under column `sx` exactly if the bit of that
/// column is set.
proof fn lemma_row_toggles_at_cell(x: int, y: int, byte: u8, k: int, sx: int, bits: int)
    requires
        0 <= x,
        0 <= y,
        0 <= k,
        0 <= sx < bits <= 8,
    ensures
        row_toggles(x, y, byte, k, cell_at(x, y, k, sx), bits) == sprite_bit(byte, sx as u8),
    decreases bits,
{
    let i = cell_at(x, y, k, sx);
    if bits - 1 == sx {
        lemma_row_toggles_only_its_cells(x, y, byte, k, i, bits - 1);
    } else {
        lemma_row_toggles_at_cell(x, y, byte, k, sx, bits - 1);
        lemma_cell_in_grid(x, y, k, sx);
        lemma_cell_in_grid(x, y, k, bits - 1);
    }
}

/// A sprite flips no pixel of a row that none of its rows falls on.
proof fn lemma_toggles_only_its_rows(x: int, y: int, sprite: Seq<u8>, i: int)
    requires
        0 <= x,
        0 <= y,
        forall|j: int| 0 <= j < sprite.len() ==> #[trigger] grid_row(y, j) != i / 64,
    ensures
        !toggles(x, y, sprite, i),
    decreases sprite.len(),
{
    if sprite.len() > 0 {
        lemma_toggles_only_its_rows(x, y, sprite.drop_last(), i);
        lemma_row_toggles_only_its_cells(x, y, sprite.last(), sprite.len() - 1, i, 8);
        assert(grid_row(y, sprite.len() - 1) != i / 64);
    }
}

/// Of a sprite of at most 32 rows, only row `k` flips pixels of the row of
/// the grid that row `k` falls on.
proof fn lemma_toggles_of_one_row(x: int, y: int, sprite: Seq<u8>, k: int, i: int)
    requires
        0 <= x,
        0 <= y,
        0 <= k < sprite.len() <= 32,
        i / 64 == (y + k) % 32,
    ensures
        toggles(x, y, sprite, i) == row_toggles(x, y, sprite[k], k, i, 8),
    decreases sprite.len(),
{
    if sprite.len() - 1 == k {
        lemma_toggles_only_its_rows(x, y, sprite.drop_last(), i);
    } else {
        lemma_toggles_of_one_row(x, y, sprite.drop_last(), k, i);
        lemma_row_toggles_only_its_cells(x, y, sprite.last(), sprite.len() - 1, i, 8);
    }
}

/// Part of a row turns no pixel off where none of the row's pixels is on.
proof fn lemma_row_on_dark_cells(grid: Seq<bool>, x: int, y: int, byte: u8, k: int, bits: int)
    requires
        grid.len() == DISPLAY_SIZE,
        0 <= x,
        0 <= y,
        0 <= k,
        0 <= bits <= 8,
        forall|sx: int| 0 <= sx < 8 ==> !grid[#[trigger] cell_at(x, y, k, sx)],
    ensures
        !row_collides(grid, x, y, byte, k, bits),
    decreases bits,
{
    if bits > 0 {
        lemma_row_on_dark_cells(grid, x, y, byte, k, bits - 1);
        let cell = cell_at(x, y, k, bits - 1);
        lemma_cell_in_grid(x, y, k, bits - 1);
        lemma_xor_row(grid, x, y, byte, k, bits - 1);
        lemma_row_toggles_only_its_cells(x, y, byte, k, cell, bits - 1);
    }
}

/// Drawing a sprite of at most 32 rows on a display with every pixel off
/// turns no pixel off.
pub proof fn lemma_first_draw_does_not_collide(x: int, y: int, sprite: Seq<u8>)
    requires
        0 <= x,
        0 <= y,
        sprite.len() <= 32,
    ensures
        !collides(cleared(), x, y, sprite),
    decreases sprite.len(),
{
    if sprite.len() > 0 {
        let rest = sprite.drop_last();
        let k = sprite.len() - 1;
        lemma_first_draw_does_not_collide(x, y, rest);
        lemma_drawn(cleared(), x, y, rest);
        let grid = drawn(cleared(), x, y, rest);
        assert forall|sx: int| 0 <= sx < 8 implies !grid[#[trigger] cell_at(x, y, k, sx)] by {
            lemma_cell_in_grid(x, y, k, sx);
            lemma_toggles_only_its_rows(x, y, rest, cell_at(x, y, k, sx));
        }
        lemma_row_on_dark_cells(grid, x, y, sprite.last(), k, 8);
    }
}

/// A row that turns a pixel off after some of its columns does so after
/// all of them.
proof fn lemma_row_collides_grows(grid: Seq<bool>, x: int, y: int, byte: u8, k: int, bits: int)
    requires
        0 <= bits <= 8,
        row_collides(grid, x, y, byte, k, bits),
    ensures
        row_collides(grid, x, y, byte, k, 8),
    decreases 8 - bits,
{
    if bits < 8 {
        lemma_row_collides_grows(grid, x, y, byte, k, bits + 1);
    }
}

/// A sprite whose first rows turn a pixel off turns one off.
proof fn lemma_collides_grows(grid: Seq<bool>, x: int, y: int, sprite: Seq<u8>, rows: int)
    requires
        0 <= rows <= sprite.len(),
        collides(grid, x, y, sprite.take(rows)),
    ensures
        collides(grid, x, y, sprite),
    decreases sprite.len() - rows,
{
    if rows < sprite.len() {
        assert(sprite.take(rows + 1).drop_last() =~= sprite.take(rows));
        lemma_collides_grows(grid, x, y, sprite, rows + 1);
    } else {
        assert(sprite.take(rows) =~= sprite);
    }
}

/// Drawing a sprite of at most 32 rows, one bit of which is set, a second
/// time on a display that had every pixel off before the first, turns a
/// pixel off.
pub proof fn lemma_second_draw_collides(x: int, y: int, sprite: Seq<u8>)
    requires
        0 <= x,
        0 <= y,
        sprite.len() <= 32,
        has_set_bit(sprite),
    ensures
        collides(drawn(cleared(), x, y, sprite), x, y, sprite),
{
    let (k, sx) = choose|k: int, sx: u8|
        0 <= k < sprite.len() && #[trigger] sprite_bit(sprite[k], sx);
    let once = drawn(cleared(), x, y, sprite);
    let cell = cell_at(x, y, k, sx as int);
    let byte = sprite[k];
    lemma_cell_in_grid(x, y, k, sx as int);
    lemma_drawn(cleared(), x, y, sprite);
    // After the first draw the pixel is on: only row `k` reaches it, and
    // there only column `sx`.
    assert(once[cell]) by {
        lemma_toggles_of_one_row(x, y, sprite, k, cell);
        lemma_row_toggles_at_cell(x, y, byte, k, sx as int, 8);
    }
    // It is still on when the second draw comes to it.
    let rows_before = drawn(once, x, y, sprite.take(k));
    let before = xor_row(rows_before, x, y, byte, k, sx as int);
    assert(before[cell]) by {
        lemma_drawn(once, x, y, sprite.take(k));
        lemma_toggles_only_its_rows(x, y, sprite.take(k), cell);
        lemma_xor_row(rows_before, x, y, byte, k, sx as int);
        lemma_row_toggles_only_its_cells(x, y, byte, k, cell, sx as int);
    }
    assert(row_collides(rows_before, x, y, byte, k, sx + 1));
    lemma_row_collides_grows(rows_before, x, y, byte, k, sx + 1);
    assert(sprite.take(k + 1).drop_last() =~= sprite.take(k));
    assert(sprite.take(k + 1).last() == byte);
    assert(collides(once, x, y, sprite.take(k + 1)));
    lemma_collides_grows(once, x, y, sprite, k + 1);
}

} // verus!
