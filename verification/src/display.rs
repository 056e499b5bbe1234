//! The framebuffer: a 64x32 grid of one-bit pixels, row-major, changed only
//! by clearing it or by XOR-ing a sprite into it.
//!
//! A sprite is a sequence of bytes, one per line, most significant bit
//! leftmost. It wraps around both screen edges.

use vstd::prelude::*;

verus! {

/// Pixels per line.
pub const SCREEN_WIDTH: usize = 64;

/// Lines on the screen.
pub const SCREEN_HEIGHT: usize = 32;

/// Pixels on the screen.
pub const SCREEN_PIXELS: usize = 2048;

/// The place of the pixel in column `px` of line `py` in the row-major grid.
pub open spec fn pixel_index(px: int, py: int) -> int {
    py * 64 + px
}

/// Whether column `c` of a sprite row is set, column 0 being the most
/// significant bit.
pub open spec fn sprite_bit(row: u8, c: int) -> bool {
    0 <= c < 8 && (row >> ((7 - c) as u8)) & 1 == 1
}

/// The pixel that column `c` of a sprite row lands on, when the row is drawn
/// on line `line` with its leftmost column at `x`.
pub open spec fn target(x: int, line: int, c: int) -> int {
    pixel_index((x + c) % 64, line % 32)
}

/// Whether a set bit of `row`, drawn on line `line` with its leftmost column
/// at `x`, lands on pixel `i`.
pub open spec fn row_covers(x: int, line: int, row: u8, i: int) -> bool {
    i / 64 == line % 32 && sprite_bit(row, ((i % 64) - x) % 64)
}

/// The screen after one sprite row has been XOR-ed into it.
pub open spec fn blit_row_spec(s: Seq<bool>, x: int, line: int, row: u8) -> Seq<bool> {
    Seq::new(s.len(), |i: int| s[i] ^ row_covers(x, line, row, i))
}

/// Whether one of the first `limit` columns of `row` is set and lands on a
/// pixel that is lit in `s`.
pub open spec fn row_collides_below(s: Seq<bool>, x: int, line: int, row: u8, limit: int) -> bool {
    exists|c: int| 0 <= c < limit && #[trigger] sprite_bit(row, c) && s[target(x, line, c)]
}

/// Whether a set bit of `row` lands on a pixel that is lit in `s`.
pub open spec fn row_collides(s: Seq<bool>, x: int, line: int, row: u8) -> bool {
    row_collides_below(s, x, line, row, 8)
}

/// Whether pixel `i` ends up flipped once the whole sprite is drawn at
/// `(x, y)`: an odd number of set sprite bits land on it.
pub open spec fn flips(x: int, y: int, rows: Seq<u8>, i: int) -> bool
    decreases rows.len(),
{
    if rows.len() == 0 {
        false
    } else {
        flips(x, y, rows.drop_last(), i) ^ row_covers(x, y + rows.len() - 1, rows.last(), i)
    }
}

/// The screen after the sprite `rows` has been drawn at `(x, y)`.
pub open spec fn blit_spec(s: Seq<bool>, x: int, y: int, rows: Seq<u8>) -> Seq<bool> {
    Seq::new(s.len(), |i: int| s[i] ^ flips(x, y, rows, i))
}

/// Whether drawing the sprite `rows` at `(x, y)`, row by row, ever sets a
/// bit onto a pixel that is lit at that moment.
pub open spec fn collides(s: Seq<bool>, x: int, y: int, rows: Seq<u8>) -> bool
    decreases rows.len(),
{
    if rows.len() == 0 {
        false
    } else {
        collides(s, x, y, rows.drop_last()) || row_collides(
            blit_spec(s, x, y, rows.drop_last()),
            x,
            y + rows.len() - 1,
            rows.last(),
        )
    }
}

/// Whether a set bit of the sprite lands on pixel `i`, for a sprite of at
/// most 32 rows, where no two rows share a line.
pub open spec fn sprite_covers(x: int, y: int, rows: Seq<u8>, i: int) -> bool {
    let r = ((i / 64) - y) % 32;
    r < rows.len() && sprite_bit(rows[r], ((i % 64) - x) % 64)
}

/// The screen when the first `limit` columns of a sprite row have been
/// XOR-ed into it.
spec fn row_begun(s: Seq<bool>, x: int, line: int, row: u8, limit: int) -> Seq<bool> {
    Seq::new(
        s.len(),
        |i: int| s[i] ^ (row_covers(x, line, row, i) && ((i % 64) - x) % 64 < limit),
    )
}

/// A blank screen.
pub open spec fn blank() -> Seq<bool> {
    Seq::new(2048, |i: int| false)
}

/// The monochrome framebuffer.
#[derive(Clone, Debug)]
pub struct Framebuffer {
    pixels: Vec<bool>,
}

impl View for Framebuffer {
    type V = Seq<bool>;

    closed spec fn view(&self) -> Seq<bool> {
        self.pixels@
    }
}

impl Framebuffer {
    /// The grid holds exactly 64x32 pixels.
    pub open spec fn wf(&self) -> bool {
        self@.len() == 2048
    }

    /// A blank framebuffer.
    pub fn new() -> (fb: Framebuffer)
        ensures
            fb.wf(),
            fb@ == blank(),
    {
        let mut pixels: Vec<bool> = Vec::new();
        let mut i: usize = 0;
        while i < SCREEN_PIXELS
            invariant
                i <= SCREEN_PIXELS,
                pixels@.len() == i,
                forall|k: int| 0 <= k < i ==> !pixels@[k],
            decreases SCREEN_PIXELS - i,
        {
            pixels.push(false);
            i += 1;
        }
        assert(pixels@ =~= blank());
        Framebuffer { pixels }
    }

    /// Turns every pixel off.
    pub fn clear(&mut self)
        requires
            old(self).wf(),
        ensures
            final(self).wf(),
            final(self)@ == blank(),
    {
        let mut i: usize = 0;
        while i < SCREEN_PIXELS
            invariant
                i <= SCREEN_PIXELS,
                self.pixels@.len() == 2048,
                forall|k: int| 0 <= k < i ==> !self.pixels@[k],
            decreases SCREEN_PIXELS - i,
        {
            self.pixels.set(i, false);
            i += 1;
        }
        assert(self.pixels@ =~= blank());
    }

    /// The pixel in column `x` of line `y`, or `None` off the screen.
    pub fn get(&self, x: usize, y: usize) -> (pixel: Option<bool>)
        requires
            self.wf(),
        ensures
            pixel == if x < 64 && y < 32 {
                Some(self@[pixel_index(x as int, y as int)])
            } else {
                None
            },
    {
        if x < SCREEN_WIDTH && y < SCREEN_HEIGHT {
            Some(self.pixels[y * SCREEN_WIDTH + x])
        } else {
            None
        }
    }

    /// The whole grid, row-major, for a renderer to read between steps.
    pub fn pixels(&self) -> (grid: &[bool])
        ensures
            grid@ == self@,
    {
        self.pixels.as_slice()
    }

    /// XORs one sprite row into line `line`, leftmost column at `x`.
    fn blit_row(&mut self, x: u8, line: usize, row: u8) -> (hit: bool)
        requires
            old(self).wf(),
            line < 32,
        ensures
            final(self).wf(),
            final(self)@ == blit_row_spec(old(self)@, x as int, line as int, row),
            hit == row_collides(old(self)@, x as int, line as int, row),
    {
        let mut hit = false;
        let mut c: u8 = 0;
        proof {
            lemma_row_not_begun(self@, x as int, line as int, row);
        }
        while c < 8
            invariant
                c <= 8,
                line < 32,
                old(self)@.len() == 2048,
                self.pixels@ == row_begun(old(self)@, x as int, line as int, row, c as int),
                hit == row_collides_below(old(self)@, x as int, line as int, row, c as int),
            decreases 8 - c,
        {
            let bit: bool = (row >> (7 - c)) & 1 == 1;
            let px: usize = (x as usize + c as usize) % SCREEN_WIDTH;
            let at: usize = line * SCREEN_WIDTH + px;
            proof {
                lemma_row_next_column(old(self)@, x as int, line as int, row, c as int);
            }
            let lit: bool = self.pixels[at];
            if bit && lit {
                hit = true;
            }
            self.pixels.set(at, lit ^ bit);
            c += 1;
        }
        proof {
            lemma_row_done(old(self)@, x as int, line as int, row);
        }
        hit
    }

    /// Draws the sprite `rows` with its top-left corner at `(x, y)`,
    /// wrapping around both screen edges, and reports whether it collided.
    ///
    /// Each pixel is flipped exactly if an odd number of set sprite bits
    /// land on it. The result is `true` exactly if some set bit landed on a
    /// pixel that was lit when that bit was drawn.
    ///
    /// A sprite of at most 32 rows never lands twice on a pixel: a pixel is
    /// then flipped exactly if a set bit lands on it, and the result is
    /// `true` exactly if a set bit landed on a pixel that was lit before the
    /// draw.
    pub fn blit(&mut self, x: u8, y: u8, rows: &[u8]) -> (collision: bool)
        requires
            old(self).wf(),
        ensures
            final(self).wf(),
            final(self)@ == blit_spec(old(self)@, x as int, y as int, rows@),
            collision == collides(old(self)@, x as int, y as int, rows@),
            rows@.len() <= 32 ==> forall|i: int|
                0 <= i < 2048 ==> final(self)@[i] == (old(self)@[i] ^ #[trigger] sprite_covers(
                    x as int,
                    y as int,
                    rows@,
                    i,
                )),
            rows@.len() <= 32 ==> (collision <==> exists|i: int|
                0 <= i < 2048 && old(self)@[i] && #[trigger] sprite_covers(
                    x as int,
                    y as int,
                    rows@,
                    i,
                )),
            rows@.len() <= 32 ==> (collision <==> exists|r: int, c: int| #[trigger]
                bit_hits(old(self)@, x as int, y as int, rows@, r, c)),
    {
        let mut collision = false;
        let mut line: usize = y as usize % SCREEN_HEIGHT;
        let mut r: usize = 0;
        assert(rows@.take(0) =~= Seq::<u8>::empty());
        assert(self@ =~= blit_spec(old(self)@, x as int, y as int, rows@.take(0)));
        while r < rows.len()
            invariant
                r <= rows.len(),
                line == (y + r) % 32,
                self.wf(),
                old(self).wf(),
                self@ == blit_spec(old(self)@, x as int, y as int, rows@.take(r as int)),
                collision == collides(old(self)@, x as int, y as int, rows@.take(r as int)),
            decreases rows.len() - r,
        {
            let row: u8 = rows[r];
            let ghost before = self@;
            let hit = self.blit_row(x, line, row);
            proof {
                let done = rows@.take(r as int);
                let next = rows@.take(r as int + 1);
                assert(next.drop_last() =~= done);
                assert(next.last() == row);
                lemma_same_line(before, x as int, line as int, y as int + r, row);
                assert(self@ =~= blit_spec(old(self)@, x as int, y as int, next));
            }
            collision = collision || hit;
            line = if line + 1 == SCREEN_HEIGHT {
                0
            } else {
                line + 1
            };
            r += 1;
        }
        assert(rows@.take(rows@.len() as int) =~= rows@);
        proof {
            if rows@.len() <= 32 {
                lemma_collides_short_sprite(old(self)@, x as int, y as int, rows@);
                lemma_collides_by_bits(old(self)@, x as int, y as int, rows@);
                assert forall|i: int| 0 <= i < 2048 implies self@[i] == (old(self)@[i]
                    ^ #[trigger] sprite_covers(x as int, y as int, rows@, i)) by {
                    lemma_flips_short_sprite(x as int, y as int, rows@, i);
                }
            }
        }
        collision
    }
}

/// Drawing the same sprite twice at the same place restores the screen:
/// whatever was flipped is flipped back.
pub proof fn lemma_blit_twice_restores(s: Seq<bool>, x: int, y: int, rows: Seq<u8>)
    ensures
        blit_spec(blit_spec(s, x, y, rows), x, y, rows) == s,
{
    assert(blit_spec(blit_spec(s, x, y, rows), x, y, rows) =~= s);
}

/// A sprite of no rows changes nothing and collides with nothing.
pub proof fn lemma_blit_empty(s: Seq<bool>, x: int, y: int)
    ensures
        blit_spec(s, x, y, Seq::<u8>::empty()) == s,
        !collides(s, x, y, Seq::<u8>::empty()),
{
    assert(blit_spec(s, x, y, Seq::<u8>::empty()) =~= s);
}

/// Where column `c` of a row lands: a pixel of the screen, on the row's
/// line, `c` columns right of `x` with wrap-around.
proof fn lemma_target(x: int, line: int, c: int)
    requires
        0 <= c < 64,
    ensures
        0 <= target(x, line, c) < 2048,
        target(x, line, c) / 64 == line % 32,
        ((target(x, line, c) % 64) - x) % 64 == c,
{
}

/// Before any column of a row is drawn the screen is as it was.
proof fn lemma_row_not_begun(s: Seq<bool>, x: int, line: int, row: u8)
    ensures
        row_begun(s, x, line, row, 0) == s,
{
    assert(row_begun(s, x, line, row, 0) =~= s);
}

/// Drawing column `c` of a row flips the pixel it lands on, which no
/// earlier column has touched, exactly if its bit is set, and makes the
/// row collide exactly if that bit is set and the pixel lit.
proof fn lemma_row_next_column(s: Seq<bool>, x: int, line: int, row: u8, c: int)
    requires
        s.len() == 2048,
        0 <= line < 32,
        0 <= c < 8,
    ensures
        target(x, line, c) == line * 64 + (x + c) % 64,
        0 <= target(x, line, c) < 2048,
        sprite_bit(row, c) == ((row >> ((7 - c) as u8)) & 1 == 1),
        row_begun(s, x, line, row, c)[target(x, line, c)] == s[target(x, line, c)],
        row_begun(s, x, line, row, c + 1) == row_begun(s, x, line, row, c).update(
            target(x, line, c),
            s[target(x, line, c)] ^ sprite_bit(row, c),
        ),
        row_collides_below(s, x, line, row, c + 1) == (row_collides_below(s, x, line, row, c) || (
        sprite_bit(row, c) && s[target(x, line, c)])),
{
    let t = target(x, line, c);
    lemma_target(x, line, c);
    let before = row_begun(s, x, line, row, c);
    let after = row_begun(s, x, line, row, c + 1);
    assert forall|i: int| 0 <= i < 2048 implies after[i] == before.update(
        t,
        s[t] ^ sprite_bit(row, c),
    )[i] by {
        if i != t && row_covers(x, line, row, i) {
            lemma_target_of_covered(x, line, i);
        }
    }
    assert(after =~= before.update(t, s[t] ^ sprite_bit(row, c)));
    if row_collides_below(s, x, line, row, c + 1) {
        let w = choose|w: int|
            0 <= w < c + 1 && #[trigger] sprite_bit(row, w) && s[target(x, line, w)];
        if w < c {
            assert(row_collides_below(s, x, line, row, c));
        }
    }
    if row_collides_below(s, x, line, row, c) {
        let w = choose|w: int| 0 <= w < c && #[trigger] sprite_bit(row, w) && s[target(x, line, w)];
        assert(0 <= w < c + 1 && sprite_bit(row, w) && s[target(x, line, w)]);
    }
}

/// Once all eight columns are drawn the row is drawn.
proof fn lemma_row_done(s: Seq<bool>, x: int, line: int, row: u8)
    ensures
        row_begun(s, x, line, row, 8) == blit_row_spec(s, x, line, row),
{
    assert(row_begun(s, x, line, row, 8) =~= blit_row_spec(s, x, line, row));
}

/// A pixel on a row's line is where the column that reaches it lands.
proof fn lemma_target_of_covered(x: int, line: int, i: int)
    requires
        0 <= i < 2048,
        i / 64 == line % 32,
    ensures
        0 <= ((i % 64) - x) % 64 < 64,
        target(x, line, ((i % 64) - x) % 64) == i,
{
}

/// Row `k` of a sprite drawn at line `y` is the only one of its first 32
/// rows on the line it is drawn on.
proof fn lemma_line_of_row(y: int, k: int, i: int)
    requires
        0 <= k < 32,
        0 <= i < 2048,
    ensures
        (i / 64 == (y + k) % 32) <==> ((i / 64) - y) % 32 == k,
{
}

/// The pixels that a short sprite covers are those that its last row
/// covers and those that the rows before it cover, and no pixel is both.
proof fn lemma_sprite_covers_step(x: int, y: int, rows: Seq<u8>, i: int)
    requires
        0 < rows.len() <= 32,
        0 <= i < 2048,
    ensures
        sprite_covers(x, y, rows, i) <==> (sprite_covers(x, y, rows.drop_last(), i) || row_covers(
            x,
            y + rows.len() - 1,
            rows.last(),
            i,
        )),
        !(sprite_covers(x, y, rows.drop_last(), i) && row_covers(
            x,
            y + rows.len() - 1,
            rows.last(),
            i,
        )),
{
    lemma_line_of_row(y, rows.len() - 1, i);
}

/// For a sprite of at most 32 rows, a pixel of the screen is flipped exactly
/// if a set sprite bit lands on it.
pub proof fn lemma_flips_short_sprite(x: int, y: int, rows: Seq<u8>, i: int)
    requires
        rows.len() <= 32,
        0 <= i < 2048,
    ensures
        flips(x, y, rows, i) == sprite_covers(x, y, rows, i),
    decreases rows.len(),
{
    if rows.len() > 0 {
        lemma_flips_short_sprite(x, y, rows.drop_last(), i);
        lemma_sprite_covers_step(x, y, rows, i);
    }
}

/// A row collides exactly if it covers a lit pixel of the screen.
proof fn lemma_row_collides_pixels(s: Seq<bool>, x: int, line: int, row: u8)
    requires
        s.len() == 2048,
    ensures
        row_collides(s, x, line, row) <==> exists|i: int|
            0 <= i < 2048 && s[i] && #[trigger] row_covers(x, line, row, i),
{
    if row_collides(s, x, line, row) {
        let c = choose|c: int| 0 <= c < 8 && #[trigger] sprite_bit(row, c) && s[target(x, line, c)];
        lemma_target(x, line, c);
        assert(row_covers(x, line, row, target(x, line, c)));
    }
    if exists|i: int| 0 <= i < 2048 && s[i] && #[trigger] row_covers(x, line, row, i) {
        let i = choose|i: int| 0 <= i < 2048 && s[i] && #[trigger] row_covers(x, line, row, i);
        lemma_target_of_covered(x, line, i);
        assert(sprite_bit(row, ((i % 64) - x) % 64));
    }
}

/// The rows before the last leave the last row's line as it was.
proof fn lemma_last_row_lands_on_untouched_line(s: Seq<bool>, x: int, y: int, rows: Seq<u8>)
    requires
        s.len() == 2048,
        0 < rows.len() <= 32,
    ensures
        row_collides(blit_spec(s, x, y, rows.drop_last()), x, y + rows.len() - 1, rows.last())
            == row_collides(s, x, y + rows.len() - 1, rows.last()),
{
    let rest = rows.drop_last();
    let line = y + rows.len() - 1;
    let drawn = blit_spec(s, x, y, rest);
    assert forall|c: int| 0 <= c < 8 implies drawn[#[trigger] target(x, line, c)] == s[target(
        x,
        line,
        c,
    )] by {
        let t = target(x, line, c);
        lemma_target(x, line, c);
        lemma_flips_short_sprite(x, y, rest, t);
        lemma_line_of_row(y, rows.len() - 1, t);
    }
    if row_collides(drawn, x, line, rows.last()) {
        let c = choose|c: int|
            0 <= c < 8 && #[trigger] sprite_bit(rows.last(), c) && drawn[target(x, line, c)];
        assert(s[target(x, line, c)]);
    }
    if row_collides(s, x, line, rows.last()) {
        let c = choose|c: int|
            0 <= c < 8 && #[trigger] sprite_bit(rows.last(), c) && s[target(x, line, c)];
        assert(drawn[target(x, line, c)]);
    }
}

/// For a sprite of at most 32 rows, the collision flag is set exactly if a
/// set sprite bit lands on a pixel that was lit before the draw.
pub proof fn lemma_collides_short_sprite(s: Seq<bool>, x: int, y: int, rows: Seq<u8>)
    requires
        s.len() == 2048,
        rows.len() <= 32,
    ensures
        collides(s, x, y, rows) <==> exists|i: int|
            0 <= i < 2048 && s[i] && #[trigger] sprite_covers(x, y, rows, i),
    decreases rows.len(),
{
    if rows.len() > 0 {
        let rest = rows.drop_last();
        let line = y + rows.len() - 1;
        let row = rows.last();
        lemma_collides_short_sprite(s, x, y, rest);
        lemma_last_row_lands_on_untouched_line(s, x, y, rows);
        lemma_row_collides_pixels(s, x, line, row);
        if collides(s, x, y, rows) {
            if row_collides(s, x, line, row) {
                let i = choose|i: int|
                    0 <= i < 2048 && s[i] && #[trigger] row_covers(x, line, row, i);
                lemma_sprite_covers_step(x, y, rows, i);
                assert(sprite_covers(x, y, rows, i));
            } else {
                let i = choose|i: int|
                    0 <= i < 2048 && s[i] && #[trigger] sprite_covers(x, y, rest, i);
                lemma_sprite_covers_step(x, y, rows, i);
                assert(sprite_covers(x, y, rows, i));
            }
        }
        if exists|i: int| 0 <= i < 2048 && s[i] && #[trigger] sprite_covers(x, y, rows, i) {
            let i = choose|i: int| 0 <= i < 2048 && s[i] && #[trigger] sprite_covers(x, y, rows, i);
            lemma_sprite_covers_step(x, y, rows, i);
            if sprite_covers(x, y, rest, i) {
            } else {
                assert(row_covers(x, line, row, i));
            }
        }
    }
}

/// Whether column `c` of row `r` of the sprite is set and lands on a pixel
/// that is lit in `s`.
pub open spec fn bit_hits(s: Seq<bool>, x: int, y: int, rows: Seq<u8>, r: int, c: int) -> bool {
    &&& 0 <= r < rows.len()
    &&& 0 <= c < 8
    &&& sprite_bit(rows[r], c)
    &&& s[pixel_index((x + c) % 64, (y + r) % 32)]
}

/// For a sprite of at most 32 rows, the collision flag is set exactly if
/// some set bit of some row lands, with wrap-around, on a pixel that was
/// lit before the draw: the flag speaks of the whole sprite, not of its
/// last row or pixel.
pub proof fn lemma_collides_by_bits(s: Seq<bool>, x: int, y: int, rows: Seq<u8>)
    requires
        s.len() == 2048,
        rows.len() <= 32,
    ensures
        collides(s, x, y, rows) <==> exists|r: int, c: int| #[trigger] bit_hits(s, x, y, rows, r, c),
{
    lemma_collides_short_sprite(s, x, y, rows);
    if collides(s, x, y, rows) {
        let i = choose|i: int| 0 <= i < 2048 && s[i] && #[trigger] sprite_covers(x, y, rows, i);
        let r = ((i / 64) - y) % 32;
        let c = ((i % 64) - x) % 64;
        lemma_line_of_row(y, r, i);
        lemma_target_of_covered(x, y + r, i);
        assert(bit_hits(s, x, y, rows, r, c));
    }
    if exists|r: int, c: int| #[trigger] bit_hits(s, x, y, rows, r, c) {
        let (r, c) = choose|r: int, c: int| #[trigger] bit_hits(s, x, y, rows, r, c);
        let i = target(x, y + r, c);
        lemma_target(x, y + r, c);
        lemma_line_of_row(y, r, i);
        assert(s[i] && sprite_covers(x, y, rows, i));
    }
}

/// Drawing onto pixels that are all off never reports a collision.
pub proof fn lemma_no_collision_on_dark_pixels(s: Seq<bool>, x: int, y: int, rows: Seq<u8>)
    requires
        s.len() == 2048,
        rows.len() <= 32,
        forall|i: int| 0 <= i < 2048 && sprite_covers(x, y, rows, i) ==> !s[i],
    ensures
        !collides(s, x, y, rows),
{
    lemma_collides_short_sprite(s, x, y, rows);
}

/// Lines that agree modulo the screen height are the same line.
proof fn lemma_same_line(s: Seq<bool>, x: int, line: int, other: int, row: u8)
    requires
        line % 32 == other % 32,
    ensures
        row_collides(s, x, line, row) == row_collides(s, x, other, row),
        forall|i: int| row_covers(x, line, row, i) == row_covers(x, other, row, i),
{
    assert forall|c: int| target(x, line, c) == target(x, other, c) by {}
}

} // verus!
