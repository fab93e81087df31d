use vstd::prelude::*;
use vstd::arithmetic::div_mod::{lemma_fundamental_div_mod, lemma_mod_multiples_basic};

verus! {

/// The width of the screen, in pixels.
pub const WIDTH: usize = 64;

/// The height of the screen, in pixels.
pub const HEIGHT: usize = 32;

/// The value of a byte read as a two's-complement signed byte.
pub open spec fn signed(b: u8) -> int {
    if b < 128 { b as int } else { b as int - 256 }
}

/// Whether the signed sum of `v` and `offset`, which `wrapX` and `wrapY`
/// compute in a signed byte, fits there and has a magnitude that fits too.
pub open spec fn wrap_ok(v: u8, offset: u8) -> bool {
    let s = signed(v) + signed(offset);
    -128 < s && s <= 127
}

/// A coordinate `v` and every offset below `count` added to it stay within
/// what `wrap_ok` admits.
pub open spec fn coord_ok(v: u8, count: int) -> bool {
    count <= 0 || (signed(v) > -128 && signed(v) + count - 1 <= 127)
}

/// Whether `coord_ok(v, count)` holds.
pub(crate) fn coord_fits(v: u8, count: u16) -> (ok: bool)
    ensures
        ok == coord_ok(v, count as int),
{
    let sv: i32 = if v < 128 { v as i32 } else { v as i32 - 256 };
    count == 0 || (sv > -128 && sv + count as i32 - 1 <= 127)
}

/// The coordinate that `wrapX` (`size` 64) and `wrapY` (`size` 32) give: the
/// signed sum of `v` and `offset`; past the far edge it is taken modulo
/// `size`, and below zero its magnitude is taken modulo `size`.
pub open spec fn spec_wrap(v: u8, offset: u8, size: int) -> int {
    let s = signed(v) + signed(offset);
    if s < 0 {
        (-s) % size
    } else if s >= size {
        s % size
    } else {
        s
    }
}

/// The horizontal coordinate `x + offset`, wrapped onto the 64 columns.
#[allow(non_snake_case)]
pub fn wrapX(x: u8, offset: u8) -> (r: u8)
    requires
        wrap_ok(x, offset),
    ensures
        r as int == spec_wrap(x, offset, 64),
        r < 64,
{
    let sx: i16 = if x < 128 { x as i16 } else { x as i16 - 256 };
    let so: i16 = if offset < 128 { offset as i16 } else { offset as i16 - 256 };
    let new: i16 = sx + so;
    if new > 63 {
        (new % 64) as u8
    } else if new < 0 {
        ((-new) % 64) as u8
    } else {
        new as u8
    }
}

/// The vertical coordinate `y + offset`, wrapped onto the 32 rows.
#[allow(non_snake_case)]
pub fn wrapY(y: u8, offset: u8) -> (r: u8)
    requires
        wrap_ok(y, offset),
    ensures
        r as int == spec_wrap(y, offset, 32),
        r < 32,
{
    let sy: i16 = if y < 128 { y as i16 } else { y as i16 - 256 };
    let so: i16 = if offset < 128 { offset as i16 } else { offset as i16 - 256 };
    let new: i16 = sy + so;
    if new < 0 {
        ((-new) % 32) as u8
    } else if new > 31 {
        (new % 32) as u8
    } else {
        new as u8
    }
}

/// Where pixel (`x`, `y`) stands in the screen buffer.
pub open spec fn screen_index(x: int, y: int) -> int {
    x * 32 + y
}

/// Bit `n` of a sprite row, counted from the most significant bit: the pixel
/// of column `n` of the row.
pub open spec fn row_bit(row: u8, n: int) -> u8 {
    (row >> ((7 - n) as u8)) & 1u8
}

/// The screen and the collision flag after the first `k` pixels of sprite row
/// `row` were drawn at (`x`, `y`), one after the other: each pixel of the row
/// is XORed onto the screen at column `wrapX(x, n)`, and a collision is a
/// pixel that was on and is now off.
pub open spec fn draw_row_upto(screen: Seq<u8>, x: u8, y: u8, row: u8, k: nat) -> (Seq<u8>, bool)
    decreases k,
{
    if k == 0 {
        (screen, false)
    } else {
        let prev = draw_row_upto(screen, x, y, row, (k - 1) as nat);
        let idx = screen_index(spec_wrap(x, (k - 1) as u8, 64), y as int);
        let old_pixel = prev.0[idx];
        let new_pixel = old_pixel ^ row_bit(row, k - 1);
        (prev.0.update(idx, new_pixel), prev.1 || (new_pixel == 0 && old_pixel == 1))
    }
}

/// The screen and the collision flag after the eight pixels of sprite row
/// `row` were drawn at (`x`, `y`).
pub open spec fn draw_row(screen: Seq<u8>, x: u8, y: u8, row: u8) -> (Seq<u8>, bool) {
    draw_row_upto(screen, x, y, row, 8)
}

/// The screen and the collision flag after the first `k` rows of a sprite
/// were drawn at (`x`, `y`): row `n` goes to line `wrapY(y, n)`, and a
/// collision in any row is a collision of the sprite.
pub open spec fn draw_sprite_upto(screen: Seq<u8>, x: u8, y: u8, rows: Seq<u8>, k: nat) -> (Seq<u8>, bool)
    decreases k,
{
    if k == 0 {
        (screen, false)
    } else {
        let prev = draw_sprite_upto(screen, x, y, rows, (k - 1) as nat);
        let line = spec_wrap(y, (k - 1) as u8, 32) as u8;
        let drawn = draw_row(prev.0, x, line, rows[k - 1]);
        (drawn.0, prev.1 || drawn.1)
    }
}

/// The screen and the collision flag after sprite `rows` was drawn at
/// (`x`, `y`).
pub open spec fn draw_sprite(screen: Seq<u8>, x: u8, y: u8, rows: Seq<u8>) -> (Seq<u8>, bool) {
    draw_sprite_upto(screen, x, y, rows, rows.len())
}

/// A screen buffer: 2048 pixels, each 0 (off) or 1 (on).
pub open spec fn screen_wf(screen: Seq<u8>) -> bool {
    &&& screen.len() == 2048
    &&& forall|i: int| 0 <= i < 2048 ==> #[trigger] screen[i] <= 1
}

/// The screen: 64 columns of 32 pixels, column after column.
pub struct Gfx {
    pub screen: [u8; 2048],
}

impl View for Gfx {
    type V = Seq<u8>;

    open spec fn view(&self) -> Seq<u8> {
        self.screen@
    }
}

proof fn lemma_xor_bit(a: u8, row: u8, s: u8)
    by (bit_vector)
    requires
        a <= 1,
        s < 8,
    ensures
        (a ^ ((row >> s) & 1u8)) <= 1,
        ((row >> s) & 1u8) <= 1,
{
}

pub(crate) proof fn lemma_coord_ok(v: u8, count: int, k: u8)
    requires
        coord_ok(v, count),
        0 <= k < count,
        count <= 128,
    ensures
        wrap_ok(v, k),
{
}

proof fn lemma_wrap_range(v: u8, offset: u8, size: int)
    requires
        size > 0,
    ensures
        0 <= spec_wrap(v, offset, size) < size,
{
}

impl Gfx {
    /// Every pixel is 0 or 1.
    pub open spec fn wf(&self) -> bool {
        screen_wf(self@)
    }

    /// A dark screen.
    pub fn new() -> (gfx: Gfx)
        ensures
            gfx@ == Seq::new(2048, |i: int| 0u8),
            gfx.wf(),
    {
        let gfx = Gfx { screen: [0u8; 2048] };
        assert(gfx@ =~= Seq::new(2048, |i: int| 0u8));
        gfx
    }

    /// The pixel at column `x`, line `y`.
    pub fn pixel(&self, x: usize, y: usize) -> (p: u8)
        requires
            x < 64,
            y < 32,
        ensures
            p == self@[screen_index(x as int, y as int)],
    {
        self.screen[x * 32 + y]
    }

    /// Draws sprite row `row` at column `x`, line `y`: XORs its eight pixels
    /// onto the screen, the most significant bit at `x`, and answers whether
    /// a pixel that was on went off.
    pub fn draw(&mut self, x: u8, y: u8, row: u8) -> (collision: bool)
        requires
            old(self).wf(),
            y < 32,
            coord_ok(x, 8),
        ensures
            final(self).wf(),
            (final(self)@, collision) == draw_row(old(self)@, x, y, row),
    {
        let mut collision = false;
        let mut n: u8 = 0;
        while n < 8
            invariant
                n <= 8,
                y < 32,
                coord_ok(x, 8),
                self.wf(),
                (self@, collision) == draw_row_upto(old(self)@, x, y, row, n as nat),
            decreases 8 - n,
        {
            proof {
                lemma_coord_ok(x, 8, n);
            }
            let col = wrapX(x, n);
            let idx = col as usize * 32 + y as usize;
            let screen_pixel = self.screen[idx];
            let new_pixel = screen_pixel ^ ((row >> (7 - n)) & 1);
            proof {
                lemma_xor_bit(screen_pixel, row, (7 - n) as u8);
            }
            self.screen[idx] = new_pixel;
            if new_pixel == 0 && screen_pixel == 1 {
                collision = true;
            }
            n = n + 1;
        }
        collision
    }
}

/// What drawing the first `k` pixels of a sprite row XORs onto the pixel at
/// `i`, whatever the screen held.
pub open spec fn row_mask(x: u8, y: u8, row: u8, k: nat, i: int) -> u8
    decreases k,
{
    if k == 0 {
        0u8
    } else {
        let idx = screen_index(spec_wrap(x, (k - 1) as u8, 64), y as int);
        row_mask(x, y, row, (k - 1) as nat, i) ^ (if i == idx { row_bit(row, k - 1) } else { 0u8 })
    }
}

/// What drawing the first `k` rows of a sprite XORs onto the pixel at `i`,
/// whatever the screen held.
pub open spec fn sprite_mask(x: u8, y: u8, rows: Seq<u8>, k: nat, i: int) -> u8
    decreases k,
{
    if k == 0 {
        0u8
    } else {
        let line = spec_wrap(y, (k - 1) as u8, 32) as u8;
        sprite_mask(x, y, rows, (k - 1) as nat, i) ^ row_mask(x, line, rows[k - 1], 8, i)
    }
}

proof fn lemma_xor_laws(a: u8, b: u8, c: u8)
    by (bit_vector)
    ensures
        (a ^ b) ^ c == a ^ (b ^ c),
        a ^ 0u8 == a,
        (a ^ b) ^ b == a,
{
}

proof fn lemma_draw_row_is_xor(screen: Seq<u8>, x: u8, y: u8, row: u8, k: nat)
    requires
        screen.len() == 2048,
        y < 32,
    ensures
        draw_row_upto(screen, x, y, row, k).0 == Seq::new(2048, |i: int| screen[i] ^ row_mask(x, y, row, k, i)),
    decreases k,
{
    if k == 0 {
        assert forall|i: int| 0 <= i < 2048 implies screen[i] == (screen[i] ^ row_mask(x, y, row, 0, i)) by {
            lemma_xor_laws(screen[i], 0u8, 0u8);
        }
        assert(screen =~= Seq::new(2048, |i: int| screen[i] ^ row_mask(x, y, row, 0, i)));
    } else {
        lemma_draw_row_is_xor(screen, x, y, row, (k - 1) as nat);
        lemma_wrap_range(x, (k - 1) as u8, 64);
        let idx = screen_index(spec_wrap(x, (k - 1) as u8, 64), y as int);
        let b = row_bit(row, k - 1);
        let next = draw_row_upto(screen, x, y, row, k).0;
        let target = Seq::new(2048, |i: int| screen[i] ^ row_mask(x, y, row, k, i));
        assert forall|i: int| 0 <= i < 2048 implies next[i] == target[i] by {
            let m = row_mask(x, y, row, (k - 1) as nat, i);
            if i == idx {
                lemma_xor_laws(screen[i], m, b);
            } else {
                lemma_xor_laws(screen[i], m, 0u8);
                lemma_xor_laws(m, 0u8, 0u8);
            }
        }
        assert(next =~= target);
    }
}

proof fn lemma_draw_sprite_is_xor(screen: Seq<u8>, x: u8, y: u8, rows: Seq<u8>, k: nat)
    requires
        screen.len() == 2048,
        k <= rows.len(),
    ensures
        draw_sprite_upto(screen, x, y, rows, k).0 == Seq::new(2048, |i: int| screen[i] ^ sprite_mask(x, y, rows, k, i)),
    decreases k,
{
    if k == 0 {
        assert forall|i: int| 0 <= i < 2048 implies screen[i] == (screen[i] ^ sprite_mask(x, y, rows, 0, i)) by {
            lemma_xor_laws(screen[i], 0u8, 0u8);
        }
        assert(screen =~= Seq::new(2048, |i: int| screen[i] ^ sprite_mask(x, y, rows, 0, i)));
    } else {
        lemma_draw_sprite_is_xor(screen, x, y, rows, (k - 1) as nat);
        let prev = draw_sprite_upto(screen, x, y, rows, (k - 1) as nat).0;
        lemma_wrap_range(y, (k - 1) as u8, 32);
        let line = spec_wrap(y, (k - 1) as u8, 32) as u8;
        lemma_draw_row_is_xor(prev, x, line, rows[k - 1], 8);
        let next = draw_sprite_upto(screen, x, y, rows, k).0;
        let target = Seq::new(2048, |i: int| screen[i] ^ sprite_mask(x, y, rows, k, i));
        assert forall|i: int| 0 <= i < 2048 implies next[i] == target[i] by {
            lemma_xor_laws(screen[i], sprite_mask(x, y, rows, (k - 1) as nat, i), row_mask(x, line, rows[k - 1], 8, i));
        }
        assert(next =~= target);
    }
}

/// Drawing the same sprite row twice at the same place leaves the screen as
/// it was: drawing XORs, so a second drawing erases the first.
pub proof fn law_draw_row_twice_restores(screen: Seq<u8>, x: u8, y: u8, row: u8)
    requires
        screen.len() == 2048,
        y < 32,
    ensures
        draw_row(draw_row(screen, x, y, row).0, x, y, row).0 == screen,
{
    let once = draw_row(screen, x, y, row).0;
    lemma_draw_row_is_xor(screen, x, y, row, 8);
    lemma_draw_row_is_xor(once, x, y, row, 8);
    let twice = draw_row(once, x, y, row).0;
    assert forall|i: int| 0 <= i < 2048 implies twice[i] == screen[i] by {
        lemma_xor_laws(screen[i], row_mask(x, y, row, 8, i), 0u8);
    }
    assert(twice =~= screen);
}

/// Drawing the same sprite twice at the same place leaves the screen as it
/// was.
pub proof fn law_draw_sprite_twice_restores(screen: Seq<u8>, x: u8, y: u8, rows: Seq<u8>)
    requires
        screen.len() == 2048,
    ensures
        draw_sprite(draw_sprite(screen, x, y, rows).0, x, y, rows).0 == screen,
{
    let once = draw_sprite(screen, x, y, rows).0;
    lemma_draw_sprite_is_xor(screen, x, y, rows, rows.len());
    lemma_draw_sprite_is_xor(once, x, y, rows, rows.len());
    let twice = draw_sprite(once, x, y, rows).0;
    assert forall|i: int| 0 <= i < 2048 implies twice[i] == screen[i] by {
        lemma_xor_laws(screen[i], sprite_mask(x, y, rows, rows.len(), i), 0u8);
    }
    assert(twice =~= screen);
}

proof fn lemma_draw_row_keeps_binary(screen: Seq<u8>, x: u8, y: u8, row: u8, k: nat)
    requires
        screen_wf(screen),
        y < 32,
        k <= 8,
    ensures
        screen_wf(draw_row_upto(screen, x, y, row, k).0),
    decreases k,
{
    if k > 0 {
        lemma_draw_row_keeps_binary(screen, x, y, row, (k - 1) as nat);
        lemma_wrap_range(x, (k - 1) as u8, 64);
        let prev = draw_row_upto(screen, x, y, row, (k - 1) as nat).0;
        let idx = screen_index(spec_wrap(x, (k - 1) as u8, 64), y as int);
        lemma_xor_bit(prev[idx], row, (7 - (k - 1)) as u8);
    }
}

/// Drawing the pixels of a sprite row onto a screen of 0s and 1s reports a
/// collision exactly where some pixel of the row that is set landed on a
/// pixel that was lit (by the screen, or by an earlier pixel of the row).
pub proof fn law_row_collision(screen: Seq<u8>, x: u8, y: u8, row: u8, k: nat)
    requires
        screen_wf(screen),
        y < 32,
        k <= 8,
    ensures
        draw_row_upto(screen, x, y, row, k).1 <==> exists|n: int| 0 <= n < k && {
            let before = #[trigger] draw_row_upto(screen, x, y, row, n as nat).0;
            &&& before[screen_index(spec_wrap(x, n as u8, 64), y as int)] == 1
            &&& row_bit(row, n) == 1
        },
    decreases k,
{
    if k > 0 {
        law_row_collision(screen, x, y, row, (k - 1) as nat);
        lemma_draw_row_keeps_binary(screen, x, y, row, (k - 1) as nat);
        lemma_wrap_range(x, (k - 1) as u8, 64);
        let prev = draw_row_upto(screen, x, y, row, (k - 1) as nat).0;
        let idx = screen_index(spec_wrap(x, (k - 1) as u8, 64), y as int);
        lemma_xor_bit(prev[idx], row, (7 - (k - 1)) as u8);
        lemma_xor_cases(prev[idx], row_bit(row, k - 1));
        let n = k - 1;
        assert(draw_row_upto(screen, x, y, row, n as nat).0 == prev);
    }
}

proof fn lemma_xor_cases(a: u8, b: u8)
    by (bit_vector)
    requires
        a <= 1,
        b <= 1,
    ensures
        (a ^ b == 0 && a == 1) <==> (a == 1 && b == 1),
{
}

/// Drawing a sprite reports a collision exactly where the drawing of one of
/// its rows (onto the screen as the earlier rows left it) reported one: the
/// flag of the sprite is the or of the flags of its rows, so a collision in
/// a row is never lost by the rows after it.
pub proof fn law_sprite_collision_is_any_row(screen: Seq<u8>, x: u8, y: u8, rows: Seq<u8>, k: nat)
    requires
        k <= rows.len(),
    ensures
        draw_sprite_upto(screen, x, y, rows, k).1 <==> exists|j: int| 0 <= j < k && (#[trigger] draw_row(
            draw_sprite_upto(screen, x, y, rows, j as nat).0,
            x,
            spec_wrap(y, j as u8, 32) as u8,
            rows[j],
        )).1,
        k < rows.len() && draw_sprite_upto(screen, x, y, rows, k).1 ==> draw_sprite_upto(screen, x, y, rows, k + 1).1,
    decreases k,
{
    if k > 0 {
        law_sprite_collision_is_any_row(screen, x, y, rows, (k - 1) as nat);
        let j = k - 1;
        assert(draw_sprite_upto(screen, x, y, rows, j as nat) == draw_sprite_upto(screen, x, y, rows, (k - 1) as nat));
    }
}

/// The wrapped coordinate is below `size`. Where the signed sum `s` of the
/// coordinate and the offset is not negative, it differs from `s` by a
/// multiple of `size` (and is `s` itself where `s` is on screen); where `s`
/// is negative, it differs from the magnitude `-s` by a multiple of `size`.
pub proof fn law_wrap(v: u8, offset: u8, size: int)
    requires
        size > 0,
    ensures
        0 <= spec_wrap(v, offset, size) < size,
        signed(v) + signed(offset) >= 0 ==> (spec_wrap(v, offset, size) - (signed(v) + signed(offset))) % size == 0,
        signed(v) + signed(offset) < 0 ==> (spec_wrap(v, offset, size) + (signed(v) + signed(offset))) % size == 0,
        0 <= signed(v) + signed(offset) < size ==> spec_wrap(v, offset, size) == signed(v) + signed(offset),
{
    let s = signed(v) + signed(offset);
    if s >= 0 {
        lemma_mod_minus_self(s, size);
        lemma_mod_multiples_basic(0, size);
    } else {
        lemma_mod_minus_self(-s, size);
        assert(((-s) % size + s) == ((-s) % size - (-s)));
    }
}

proof fn lemma_mod_minus_self(a: int, size: int)
    requires
        a >= 0,
        size > 0,
    ensures
        (a % size - a) % size == 0,
{
    lemma_fundamental_div_mod(a, size);
    assert(a % size - a == (-(a / size)) * size) by (nonlinear_arith)
        requires a == size * (a / size) + a % size;
    lemma_mod_multiples_basic(-(a / size), size);
}

proof fn lemma_row_bits(row: u8)
    by (bit_vector)
    ensures
        (row >> 7u8) & 1u8 == row / 128 % 2,
        (row >> 6u8) & 1u8 == row / 64 % 2,
        (row >> 5u8) & 1u8 == row / 32 % 2,
        (row >> 4u8) & 1u8 == row / 16 % 2,
        (row >> 3u8) & 1u8 == row / 8 % 2,
        (row >> 2u8) & 1u8 == row / 4 % 2,
        (row >> 1u8) & 1u8 == row / 2 % 2,
        (row >> 0u8) & 1u8 == row % 2,
        0u8 ^ ((row >> 7u8) & 1u8) == (row >> 7u8) & 1u8,
        0u8 ^ ((row >> 6u8) & 1u8) == (row >> 6u8) & 1u8,
        0u8 ^ ((row >> 5u8) & 1u8) == (row >> 5u8) & 1u8,
        0u8 ^ ((row >> 4u8) & 1u8) == (row >> 4u8) & 1u8,
        0u8 ^ ((row >> 3u8) & 1u8) == (row >> 3u8) & 1u8,
        0u8 ^ ((row >> 2u8) & 1u8) == (row >> 2u8) & 1u8,
        0u8 ^ ((row >> 1u8) & 1u8) == (row >> 1u8) & 1u8,
        0u8 ^ ((row >> 0u8) & 1u8) == (row >> 0u8) & 1u8,
{
}

/// A sprite row drawn on a dark screen, away from the edges, lights the
/// pixels of its set bits, most significant bit leftmost, at columns `x` to
/// `x + 7` of line `y`, lights nothing else, and collides with nothing.
#[verifier::rlimit(60)]
pub proof fn law_row_on_dark_screen(x: u8, y: u8, row: u8)
    requires
        x <= 56,
        y < 32,
    ensures
        ({
            let drawn = draw_row(Seq::new(2048, |i: int| 0u8), x, y, row);
            &&& !drawn.1
            &&& drawn.0[screen_index(x as int, y as int)] == row / 128 % 2
            &&& drawn.0[screen_index(x + 1, y as int)] == row / 64 % 2
            &&& drawn.0[screen_index(x + 2, y as int)] == row / 32 % 2
            &&& drawn.0[screen_index(x + 3, y as int)] == row / 16 % 2
            &&& drawn.0[screen_index(x + 4, y as int)] == row / 8 % 2
            &&& drawn.0[screen_index(x + 5, y as int)] == row / 4 % 2
            &&& drawn.0[screen_index(x + 6, y as int)] == row / 2 % 2
            &&& drawn.0[screen_index(x + 7, y as int)] == row % 2
            &&& forall|i: int| 0 <= i < 2048 && !(x * 32 + y <= i <= (x + 7) * 32 + y && (i - y) % 32 == 0)
                ==> #[trigger] drawn.0[i] == 0
        }),
{
    let dark = Seq::new(2048, |i: int| 0u8);
    lemma_row_bits(row);
    reveal_with_fuel(draw_row_upto, 9);
    let d1 = draw_row_upto(dark, x, y, row, 1);
    let d2 = draw_row_upto(dark, x, y, row, 2);
    let d3 = draw_row_upto(dark, x, y, row, 3);
    let d4 = draw_row_upto(dark, x, y, row, 4);
    let d5 = draw_row_upto(dark, x, y, row, 5);
    let d6 = draw_row_upto(dark, x, y, row, 6);
    let d7 = draw_row_upto(dark, x, y, row, 7);
    let d8 = draw_row_upto(dark, x, y, row, 8);
    assert(spec_wrap(x, 0, 64) == x);
    assert(spec_wrap(x, 1, 64) == x + 1);
    assert(spec_wrap(x, 2, 64) == x + 2);
    assert(spec_wrap(x, 3, 64) == x + 3);
    assert(spec_wrap(x, 4, 64) == x + 4);
    assert(spec_wrap(x, 5, 64) == x + 5);
    assert(spec_wrap(x, 6, 64) == x + 6);
    assert(spec_wrap(x, 7, 64) == x + 7);
    assert(d1.0 == dark.update(x * 32 + y, row_bit(row, 0)));
    assert(d2.0 == d1.0.update((x + 1) * 32 + y, row_bit(row, 1)));
    assert(d3.0 == d2.0.update((x + 2) * 32 + y, row_bit(row, 2)));
    assert(d4.0 == d3.0.update((x + 3) * 32 + y, row_bit(row, 3)));
    assert(d5.0 == d4.0.update((x + 4) * 32 + y, row_bit(row, 4)));
    assert(d6.0 == d5.0.update((x + 5) * 32 + y, row_bit(row, 5)));
    assert(d7.0 == d6.0.update((x + 6) * 32 + y, row_bit(row, 6)));
    assert(d8.0 == d7.0.update((x + 7) * 32 + y, row_bit(row, 7)));
    assert(!d8.1);
}

/// A screen with every pixel off.
pub open spec fn dark_screen() -> Seq<u8> {
    Seq::new(2048, |p: int| 0u8)
}

/// The pixel in column `c` (0 leftmost) of sprite row `row`: bit `7 - c` of
/// the byte.
pub open spec fn pixel_of(row: u8, c: int) -> u8 {
    if c == 0 { row / 128 % 2 }
    else if c == 1 { row / 64 % 2 }
    else if c == 2 { row / 32 % 2 }
    else if c == 3 { row / 16 % 2 }
    else if c == 4 { row / 8 % 2 }
    else if c == 5 { row / 4 % 2 }
    else if c == 6 { row / 2 % 2 }
    else { row % 2 }
}

proof fn lemma_zero_xor(m: u8)
    by (bit_vector)
    ensures
        0u8 ^ m == m,
        m ^ 0u8 == m,
{
}

proof fn lemma_row_mask_off_line(x: u8, y: u8, row: u8, k: nat, i: int)
    requires
        y < 32,
        0 <= i < 2048,
        i % 32 != y,
    ensures
        row_mask(x, y, row, k, i) == 0,
    decreases k,
{
    if k > 0 {
        lemma_row_mask_off_line(x, y, row, (k - 1) as nat, i);
        lemma_wrap_range(x, (k - 1) as u8, 64);
        let w = spec_wrap(x, (k - 1) as u8, 64);
        assert((w * 32 + y) % 32 == y) by (nonlinear_arith)
            requires 0 <= w < 64, 0 <= y < 32;
        lemma_zero_xor(0u8);
    }
}

proof fn lemma_row_mask_on_dark(x: u8, y: u8, row: u8, i: int)
    requires
        x <= 56,
        y < 32,
        0 <= i < 2048,
    ensures
        row_mask(x, y, row, 8, i) == (if i % 32 == y && x <= i / 32 < x + 8 { pixel_of(row, i / 32 - x) } else { 0u8 }),
{
    let dark = Seq::new(2048, |k: int| 0u8);
    lemma_draw_row_is_xor(dark, x, y, row, 8);
    law_row_on_dark_screen(x, y, row);
    lemma_zero_xor(row_mask(x, y, row, 8, i));
    let drawn = draw_row(dark, x, y, row).0;
    assert(drawn[i] == row_mask(x, y, row, 8, i));
    let q = i / 32;
    let m = i % 32;
    assert(i == q * 32 + m && 0 <= m < 32) by (nonlinear_arith)
        requires 0 <= i, q == i / 32, m == i % 32;
    if m == y && x <= q < x + 8 {
        let c = q - x;
        assert(i == screen_index(x + c, y as int));
        assert(c == 0 || c == 1 || c == 2 || c == 3 || c == 4 || c == 5 || c == 6 || c == 7);
    } else {
        assert(!(x * 32 + y <= i <= (x + 7) * 32 + y && (i - y) % 32 == 0)) by (nonlinear_arith)
            requires i == q * 32 + m, 0 <= m < 32, 0 <= y < 32, !(m == y && x <= q < x + 8), 0 <= x;
    }
}

/// A sprite drawn on a dark screen, away from the edges (columns `x` to
/// `x + 7`, lines `y` to `y + n - 1`), shows row `j` on line `y + j`, each
/// row's set bits lit left to right from column `x`, and lights nothing else.
pub proof fn law_sprite_on_dark_screen(x: u8, y: u8, rows: Seq<u8>, k: nat)
    requires
        x <= 56,
        y as int + rows.len() <= 32,
        k <= rows.len(),
    ensures
        forall|i: int| 0 <= i < 2048 ==> #[trigger] draw_sprite_upto(dark_screen(), x, y, rows, k).0[i]
            == (if y <= i % 32 < y + k && x <= i / 32 < x + 8 { pixel_of(rows[i % 32 - y], i / 32 - x) } else { 0u8 }),
        draw_sprite_upto(dark_screen(), x, y, rows, k).0.len() == 2048,
    decreases k,
{
    let dark = dark_screen();
    if k > 0 {
        law_sprite_on_dark_screen(x, y, rows, (k - 1) as nat);
        let prev = draw_sprite_upto(dark, x, y, rows, (k - 1) as nat).0;
        let j = k - 1;
        let line = spec_wrap(y, j as u8, 32);
        assert(line == y + j);
        lemma_draw_row_is_xor(prev, x, (y + j) as u8, rows[j], 8);
        let next = draw_sprite_upto(dark, x, y, rows, k).0;
        assert forall|i: int| 0 <= i < 2048 implies #[trigger] next[i]
            == (if y <= i % 32 < y + k && x <= i / 32 < x + 8 { pixel_of(rows[i % 32 - y], i / 32 - x) } else { 0u8 }) by {
            let m = row_mask(x, (y + j) as u8, rows[j], 8, i);
            assert(next[i] == prev[i] ^ m);
            if i % 32 == y + j {
                lemma_row_mask_on_dark(x, (y + j) as u8, rows[j], i);
                lemma_zero_xor(m);
            } else {
                lemma_row_mask_off_line(x, (y + j) as u8, rows[j], 8, i);
                lemma_zero_xor(prev[i]);
            }
        }
    }
}

} // verus!
