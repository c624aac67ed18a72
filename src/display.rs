use vstd::prelude::*;

verus! {

/// Width of the framebuffer in pixels.
pub const WIDTH: usize = 64;

/// Height of the framebuffer in pixels.
pub const HEIGHT: usize = 32;

/// Number of pixels in one sprite row (one byte, most significant bit first).
pub const SPRITE_WIDTH: u8 = 8;

/// A grid of `HEIGHT` rows of `WIDTH` pixels each.
pub open spec fn is_grid(s: Seq<Seq<bool>>) -> bool {
    &&& s.len() == HEIGHT
    &&& forall|y: int| 0 <= y < HEIGHT ==> #[trigger] s[y].len() == WIDTH
}

/// The framebuffer with every pixel off.
pub open spec fn blank_screen() -> Seq<Seq<bool>> {
    Seq::new(HEIGHT as nat, |y: int| Seq::new(WIDTH as nat, |x: int| false))
}

/// Whether bit `lx` of a sprite row is set, counting from the most
/// significant bit.
pub open spec fn sprite_bit(byte: u8, lx: int) -> bool {
    0 <= lx < 8 && byte & (0x80u8 >> (lx as u8)) != 0
}

/// The column, within a sprite row drawn at column `x`, that lands on screen
/// column `px` once columns wrap around the screen width.
pub open spec fn column_offset(x: int, px: int) -> int {
    (px - x) % (WIDTH as int)
}

/// Whether the first `n` bits of a sprite row drawn at column `x` toggle
/// screen column `px`.
pub open spec fn row_hits(x: int, byte: u8, n: int, px: int) -> bool {
    column_offset(x, px) < n && sprite_bit(byte, column_offset(x, px))
}

/// A pixel row after XOR-ing the first `n` bits of a sprite row onto it at
/// column `x`.
pub open spec fn xor_row(row: Seq<bool>, x: int, byte: u8, n: int) -> Seq<bool> {
    Seq::new(WIDTH as nat, |px: int| row[px] != row_hits(x, byte, n, px))
}

/// Whether one of the first `n` set bits of a sprite row, drawn at column
/// `x`, lands on a pixel of `row` that is already set.
pub open spec fn row_collides(row: Seq<bool>, x: int, byte: u8, n: int) -> bool
    decreases n,
{
    if n <= 0 {
        false
    } else {
        row_collides(row, x, byte, n - 1) || (sprite_bit(byte, n - 1) && row[(x + n - 1) % (
        WIDTH as int)])
    }
}

/// The screen row on which sprite row `k` lands when the sprite starts at row `y`.
pub open spec fn sprite_row(y: int, k: int) -> int {
    (y + k) % (HEIGHT as int)
}

/// The screen after drawing `sprite` at `(x, y)`: each row, in order, is
/// XOR-ed onto the screen row it lands on, wrapping at the edges.
pub open spec fn drawn(s: Seq<Seq<bool>>, x: int, y: int, sprite: Seq<u8>) -> Seq<Seq<bool>>
    decreases sprite.len(),
{
    if sprite.len() == 0 {
        s
    } else {
        let prev = drawn(s, x, y, sprite.drop_last());
        let row = sprite_row(y, sprite.len() - 1);
        prev.update(row, xor_row(prev[row], x, sprite.last(), SPRITE_WIDTH as int))
    }
}

/// Whether drawing `sprite` at `(x, y)` turns off a pixel that was set when
/// its bit was drawn.
pub open spec fn collides(s: Seq<Seq<bool>>, x: int, y: int, sprite: Seq<u8>) -> bool
    decreases sprite.len(),
{
    if sprite.len() == 0 {
        false
    } else {
        let prev = drawn(s, x, y, sprite.drop_last());
        let row = sprite_row(y, sprite.len() - 1);
        collides(s, x, y, sprite.drop_last()) || row_collides(
            prev[row],
            x,
            sprite.last(),
            SPRITE_WIDTH as int,
        )
    }
}

proof fn lemma_column_offset_unique(x: int, px: int, qx: int)
    requires
        0 <= px < WIDTH,
        0 <= qx < WIDTH,
        column_offset(x, px) == column_offset(x, qx),
    ensures
        px == qx,
{
    assert((px - x) % 64 == (qx - x) % 64 ==> (px - qx) % 64 == 0) by (nonlinear_arith);
}

/// Drawing keeps the shape of the grid.
pub proof fn lemma_drawn_grid(s: Seq<Seq<bool>>, x: int, y: int, sprite: Seq<u8>)
    requires
        is_grid(s),
    ensures
        is_grid(drawn(s, x, y, sprite)),
    decreases sprite.len(),
{
    if sprite.len() > 0 {
        lemma_drawn_grid(s, x, y, sprite.drop_last());
    }
}

/// Whether an odd number of the set bits of `sprite`, drawn at `(x, y)`,
/// land on pixel `(px, py)`.
pub open spec fn hit_parity(x: int, y: int, sprite: Seq<u8>, px: int, py: int) -> bool
    decreases sprite.len(),
{
    if sprite.len() == 0 {
        false
    } else {
        hit_parity(x, y, sprite.drop_last(), px, py) != (py == sprite_row(y, sprite.len() - 1)
            && row_hits(x, sprite.last(), SPRITE_WIDTH as int, px))
    }
}

/// Whether bit `lx` of sprite row `k` is set.
pub open spec fn has_bit(sprite: Seq<u8>, k: int, lx: int) -> bool {
    0 <= k < sprite.len() && 0 <= lx < SPRITE_WIDTH && sprite_bit(sprite[k], lx)
}

/// Whether every pixel that a set bit of `sprite` lands on is `on` in `s`.
pub open spec fn touched_pixels_are(s: Seq<Seq<bool>>, x: int, y: int, sprite: Seq<u8>, on: bool) -> bool {
    forall|k: int, lx: int|
        #[trigger] has_bit(sprite, k, lx) ==> s[sprite_row(y, k)][(x + lx) % (WIDTH as int)] == on
}

proof fn lemma_rows_distinct(y: int, j: int, k: int)
    requires
        0 <= j < k < HEIGHT,
    ensures
        sprite_row(y, j) != sprite_row(y, k),
{
}

proof fn lemma_row_bounds(y: int, k: int)
    ensures
        0 <= sprite_row(y, k) < HEIGHT,
{
}

/// Each pixel after a draw is the pixel before, XOR the parity of the bits
/// that land on it.
proof fn lemma_drawn_pixel(s: Seq<Seq<bool>>, x: int, y: int, sprite: Seq<u8>)
    requires
        is_grid(s),
    ensures
        forall|py: int, px: int|
            0 <= py < HEIGHT && 0 <= px < WIDTH ==> #[trigger] drawn(s, x, y, sprite)[py][px] == (
            s[py][px] != hit_parity(x, y, sprite, px, py)),
    decreases sprite.len(),
{
    if sprite.len() > 0 {
        lemma_drawn_pixel(s, x, y, sprite.drop_last());
        lemma_drawn_grid(s, x, y, sprite.drop_last());
        lemma_row_bounds(y, sprite.len() - 1);
    }
}

/// No bit lands on a row that no sprite row is drawn on.
proof fn lemma_parity_untouched_row(x: int, y: int, sprite: Seq<u8>, px: int, py: int)
    requires
        forall|j: int| 0 <= j < sprite.len() ==> sprite_row(y, j) != py,
    ensures
        !hit_parity(x, y, sprite, px, py),
    decreases sprite.len(),
{
    if sprite.len() > 0 {
        lemma_parity_untouched_row(x, y, sprite.drop_last(), px, py);
    }
}

/// With at most `HEIGHT` rows, only sprite row `k` lands on its screen row.
proof fn lemma_parity_single_row(x: int, y: int, sprite: Seq<u8>, k: int, px: int)
    requires
        sprite.len() <= HEIGHT,
        0 <= k < sprite.len(),
    ensures
        hit_parity(x, y, sprite, px, sprite_row(y, k)) == row_hits(
            x,
            sprite[k],
            SPRITE_WIDTH as int,
            px,
        ),
    decreases sprite.len(),
{
    let last = sprite.len() - 1;
    if k == last {
        assert forall|j: int| 0 <= j < sprite.drop_last().len() implies sprite_row(y, j)
            != sprite_row(y, k) by {
            lemma_rows_distinct(y, j, k);
        }
        lemma_parity_untouched_row(x, y, sprite.drop_last(), px, sprite_row(y, k));
    } else {
        lemma_parity_single_row(x, y, sprite.drop_last(), k, px);
        lemma_rows_distinct(y, k, last);
    }
}

proof fn lemma_row_collides_none(row: Seq<bool>, x: int, byte: u8, n: int)
    requires
        n <= SPRITE_WIDTH,
        forall|lx: int| 0 <= lx < n && sprite_bit(byte, lx) ==> !row[(x + lx) % (WIDTH as int)],
    ensures
        !row_collides(row, x, byte, n),
    decreases n,
{
    if n > 0 {
        lemma_row_collides_none(row, x, byte, n - 1);
    }
}

proof fn lemma_row_collides_some(row: Seq<bool>, x: int, byte: u8, n: int, lx: int)
    requires
        0 <= lx < n,
        sprite_bit(byte, lx),
        row[(x + lx) % (WIDTH as int)],
    ensures
        row_collides(row, x, byte, n),
    decreases n,
{
    if lx < n - 1 {
        lemma_row_collides_some(row, x, byte, n - 1, lx);
    }
}

/// Screen row `sprite_row(y, k)` is untouched by the sprite rows before `k`.
proof fn lemma_prefix_keeps_row(t: Seq<Seq<bool>>, x: int, y: int, sprite: Seq<u8>, px: int)
    requires
        is_grid(t),
        0 < sprite.len() <= HEIGHT,
        0 <= px < WIDTH,
    ensures
        drawn(t, x, y, sprite.drop_last())[sprite_row(y, sprite.len() - 1)][px] == t[sprite_row(
            y,
            sprite.len() - 1,
        )][px],
{
    let k = sprite.len() - 1;
    lemma_drawn_pixel(t, x, y, sprite.drop_last());
    lemma_row_bounds(y, k);
    assert forall|j: int| 0 <= j < sprite.drop_last().len() implies sprite_row(y, j) != sprite_row(
        y,
        k,
    ) by {
        lemma_rows_distinct(y, j, k);
    }
    lemma_parity_untouched_row(x, y, sprite.drop_last(), px, sprite_row(y, k));
}

/// A sprite of at most `HEIGHT` rows drawn where all its pixels are off
/// reports no collision.
proof fn lemma_no_collision_on_clear(t: Seq<Seq<bool>>, x: int, y: int, sprite: Seq<u8>)
    requires
        is_grid(t),
        sprite.len() <= HEIGHT,
        touched_pixels_are(t, x, y, sprite, false),
    ensures
        !collides(t, x, y, sprite),
    decreases sprite.len(),
{
    if sprite.len() > 0 {
        let k = sprite.len() - 1;
        let init = sprite.drop_last();
        assert forall|j: int, lx: int| #[trigger] has_bit(init, j, lx) implies t[sprite_row(y, j)][(x
            + lx) % (WIDTH as int)] == false by {
            assert(has_bit(sprite, j, lx));
        }
        lemma_no_collision_on_clear(t, x, y, init);
        let row = drawn(t, x, y, init)[sprite_row(y, k)];
        assert forall|lx: int| 0 <= lx < SPRITE_WIDTH && sprite_bit(sprite.last(), lx) implies !row[(x
            + lx) % (WIDTH as int)] by {
            assert(has_bit(sprite, k, lx));
            lemma_prefix_keeps_row(t, x, y, sprite, (x + lx) % (WIDTH as int));
        }
        lemma_row_collides_none(row, x, sprite.last(), SPRITE_WIDTH as int);
    }
}

/// A sprite of at most `HEIGHT` rows with a set bit, drawn where all its
/// pixels are on, reports a collision.
proof fn lemma_collision_on_set(t: Seq<Seq<bool>>, x: int, y: int, sprite: Seq<u8>, k: int, lx: int)
    requires
        is_grid(t),
        sprite.len() <= HEIGHT,
        touched_pixels_are(t, x, y, sprite, true),
        has_bit(sprite, k, lx),
    ensures
        collides(t, x, y, sprite),
    decreases sprite.len(),
{
    let last = sprite.len() - 1;
    let init = sprite.drop_last();
    if k == last {
        let row = drawn(t, x, y, init)[sprite_row(y, last)];
        lemma_prefix_keeps_row(t, x, y, sprite, (x + lx) % (WIDTH as int));
        lemma_row_collides_some(row, x, sprite.last(), SPRITE_WIDTH as int, lx);
    } else {
        assert forall|j: int, m: int| #[trigger] has_bit(init, j, m) implies t[sprite_row(y, j)][(x
            + m) % (WIDTH as int)] == true by {
            assert(has_bit(sprite, j, m));
        }
        assert(has_bit(init, k, lx));
        lemma_collision_on_set(t, x, y, init, k, lx);
    }
}

/// Drawing a sprite twice at the same place restores every pixel.
pub proof fn lemma_draw_twice_restores(s: Seq<Seq<bool>>, x: int, y: int, sprite: Seq<u8>)
    requires
        is_grid(s),
    ensures
        drawn(drawn(s, x, y, sprite), x, y, sprite) == s,
{
    let once = drawn(s, x, y, sprite);
    let twice = drawn(once, x, y, sprite);
    lemma_drawn_grid(s, x, y, sprite);
    lemma_drawn_grid(once, x, y, sprite);
    lemma_drawn_pixel(s, x, y, sprite);
    lemma_drawn_pixel(once, x, y, sprite);
    assert forall|py: int| 0 <= py < HEIGHT implies twice[py] =~= s[py] by {
        assert forall|px: int| 0 <= px < WIDTH implies twice[py][px] == s[py][px] by {
            assert(twice[py][px] == (once[py][px] != hit_parity(x, y, sprite, px, py)));
            assert(once[py][px] == (s[py][px] != hit_parity(x, y, sprite, px, py)));
        }
    }
    assert(twice =~= s);
}

/// Drawing a sprite of at most `HEIGHT` rows with some bit set, where all
/// the pixels it lands on are off, reports no collision; drawing it again at
/// the same place reports one and restores every pixel.
pub proof fn lemma_double_draw(s: Seq<Seq<bool>>, x: int, y: int, sprite: Seq<u8>, k: int, lx: int)
    requires
        is_grid(s),
        sprite.len() <= HEIGHT,
        has_bit(sprite, k, lx),
        touched_pixels_are(s, x, y, sprite, false),
    ensures
        !collides(s, x, y, sprite),
        collides(drawn(s, x, y, sprite), x, y, sprite),
        drawn(drawn(s, x, y, sprite), x, y, sprite) == s,
{
    let once = drawn(s, x, y, sprite);
    lemma_no_collision_on_clear(s, x, y, sprite);
    lemma_draw_twice_restores(s, x, y, sprite);
    lemma_drawn_grid(s, x, y, sprite);
    lemma_drawn_pixel(s, x, y, sprite);
    assert forall|j: int, m: int| #[trigger] has_bit(sprite, j, m) implies once[sprite_row(y, j)][(x
        + m) % (WIDTH as int)] == true by {
        let px = (x + m) % (WIDTH as int);
        lemma_row_bounds(y, j);
        lemma_parity_single_row(x, y, sprite, j, px);
        assert(column_offset(x, px) == m);
    }
    lemma_collision_on_set(once, x, y, sprite, k, lx);
}

/// The 64×32 monochrome framebuffer, stored row by row.
pub struct Screen {
    pub pixels: [[bool; WIDTH]; HEIGHT],
}

impl Screen {
    pub open spec fn view(&self) -> Seq<Seq<bool>> {
        Seq::new(HEIGHT as nat, |y: int| self.pixels@[y]@)
    }

    pub proof fn lemma_grid(&self)
        ensures
            is_grid(self@),
    {
    }

    /// A screen with every pixel off.
    pub fn new() -> (r: Self)
        ensures
            r@ == blank_screen(),
    {
        let r = Screen { pixels: [[false; WIDTH]; HEIGHT] };
        assert(r@ =~~= blank_screen());
        r
    }

    /// Toggles the pixel at `(x, y)`.
    pub fn pixel_set(&mut self, x: usize, y: usize)
        requires
            x < WIDTH,
            y < HEIGHT,
        ensures
            final(self)@ == old(self)@.update(
                y as int,
                old(self)@[y as int].update(x as int, !old(self)@[y as int][x as int]),
            ),
    {
        let mut row = self.pixels[y];
        row[x] = !row[x];
        self.pixels[y] = row;
        assert(self@ =~= old(self)@.update(
            y as int,
            old(self)@[y as int].update(x as int, !old(self)@[y as int][x as int]),
        ));
    }

    pub fn is_pixel_set(&self, x: usize, y: usize) -> (r: bool)
        requires
            x < WIDTH,
            y < HEIGHT,
        ensures
            r == self@[y as int][x as int],
    {
        self.pixels[y][x]
    }

    /// Turns every pixel off.
    pub fn clear(&mut self)
        ensures
            final(self)@ == blank_screen(),
    {
        self.pixels = [[false; WIDTH]; HEIGHT];
        assert(self@ =~~= blank_screen());
    }

    /// XORs one sprite row onto screen row `dy`, starting at column `x`,
    /// and reports whether a set pixel was turned off.
    fn draw_row(&mut self, x: usize, dy: usize, b: u8) -> (r: bool)
        requires
            dy < HEIGHT,
        ensures
            final(self)@ == old(self)@.update(
                dy as int,
                xor_row(old(self)@[dy as int], x as int, b, SPRITE_WIDTH as int),
            ),
            r == row_collides(old(self)@[dy as int], x as int, b, SPRITE_WIDTH as int),
    {
        let ghost prev = self@;
        let ghost row0 = prev[dy as int];
        proof {
            self.lemma_grid();
        }
        let x0: usize = x % WIDTH;
        let mut pixel_collision = false;
        assert(xor_row(row0, x as int, b, 0) =~= row0);
        assert(prev.update(dy as int, row0) =~= prev);
        for lx in 0..SPRITE_WIDTH
            invariant
                x0 == x % WIDTH,
                dy < HEIGHT,
                is_grid(prev),
                row0 == prev[dy as int],
                self@ == prev.update(dy as int, xor_row(row0, x as int, b, lx as int)),
                pixel_collision == row_collides(row0, x as int, b, lx as int),
        {
            if b & (0x80u8 >> lx) != 0 {
                let dx: usize = (x0 + lx as usize) % WIDTH;
                assert(column_offset(x as int, dx as int) == lx as int);
                assert(dx == (x + lx) % (WIDTH as int));
                pixel_collision = pixel_collision || self.is_pixel_set(dx, dy);
                self.pixel_set(dx, dy);
                assert forall|px: int| 0 <= px < WIDTH && column_offset(x as int, px) == lx
                    implies px == dx by {
                    lemma_column_offset_unique(x as int, px, dx as int);
                }
                assert(self@[dy as int] =~= xor_row(row0, x as int, b, lx + 1));
            } else {
                assert(!sprite_bit(b, lx as int));
                assert(xor_row(row0, x as int, b, lx as int) =~= xor_row(row0, x as int, b, lx + 1));
            }
            assert(self@ =~= prev.update(dy as int, xor_row(row0, x as int, b, lx + 1)));
        }
        pixel_collision
    }

    /// XORs `sprite` onto the screen with its top-left corner at `(x, y)`,
    /// wrapping around the edges, and reports whether a set pixel was
    /// turned off.
    pub fn draw_sprite(&mut self, x: usize, y: usize, sprite: &[u8]) -> (r: bool)
        ensures
            final(self)@ == drawn(old(self)@, x as int, y as int, sprite@),
            r == collides(old(self)@, x as int, y as int, sprite@),
    {
        let mut pixel_collision = false;
        let ghost s0 = self@;
        let y0: usize = y % HEIGHT;
        for ly in 0..sprite.len()
            invariant
                s0 == old(self)@,
                y0 == y % HEIGHT,
                self@ == drawn(s0, x as int, y as int, sprite@.take(ly as int)),
                pixel_collision == collides(s0, x as int, y as int, sprite@.take(ly as int)),
        {
            let b = sprite[ly];
            let dy: usize = (y0 + ly % HEIGHT) % HEIGHT;
            assert(dy == sprite_row(y as int, ly as int));
            let row_collision = self.draw_row(x, dy, b);
            pixel_collision = pixel_collision || row_collision;
            proof {
                assert(sprite@.take(ly + 1).drop_last() =~= sprite@.take(ly as int));
            }
        }
        assert(sprite@.take(sprite.len() as int) =~= sprite@);
        pixel_collision
    }
}

} // verus!
