//! The monochrome framebuffer: a fixed 64x32 grid of boolean pixels,
//! row-major, mutated only by clearing the screen and by the XOR sprite
//! blit with collision detection.

use vstd::prelude::*;
use vstd::arithmetic::div_mod::lemma_add_mod_noop;
use vstd::arithmetic::div_mod::lemma_mod_multiples_vanish;
use vstd::arithmetic::div_mod::lemma_small_mod;

verus! {

/// Row-major cell index of the pixel at column `x`, row `y`.
pub open spec fn pix(x: int, y: int) -> int {
    y * 64 + x
}

/// Bit `i` (most-significant first, `0 <= i < 8`) of one sprite row byte.
pub open spec fn sprite_row_bit(row: u8, i: int) -> bool {
    (row >> ((7 - i) as u8)) & 1 == 1
}

/// An all-off framebuffer.
pub open spec fn blank() -> Seq<bool> {
    Seq::new(2048, |k: int| false)
}

/// The framebuffer after XOR-blitting bits `0 .. k` of the sprite row byte
/// `row` onto screen row `yj` starting at column `x mod 64`. A sprite bit of
/// 1 flips the target pixel; a sprite bit of 0 leaves it untouched.
pub open spec fn blit_row_v(vr: Seq<bool>, x: int, yj: int, row: u8, k: int) -> Seq<bool>
    decreases k,
{
    if k <= 0 {
        vr
    } else {
        let prev = blit_row_v(vr, x, yj, row, k - 1);
        let i = k - 1;
        if sprite_row_bit(row, i) {
            let c = pix((x + i) % 64, yj);
            prev.update(c, !prev[c])
        } else {
            prev
        }
    }
}

/// Whether blitting bits `0 .. k` of `row` flips any pixel that was on.
pub open spec fn blit_row_c(vr: Seq<bool>, x: int, yj: int, row: u8, k: int) -> bool
    decreases k,
{
    if k <= 0 {
        false
    } else {
        let prev = blit_row_v(vr, x, yj, row, k - 1);
        let i = k - 1;
        blit_row_c(vr, x, yj, row, k - 1) || (sprite_row_bit(row, i) && prev[pix(
            (x + i) % 64,
            yj,
        )])
    }
}

/// The framebuffer after blitting the first `j` rows of the sprite `s` at
/// base coordinates `(x mod 64, y mod 32)`; both axes wrap independently.
pub open spec fn blit_v(vr: Seq<bool>, x: int, y: int, s: Seq<u8>, j: int) -> Seq<bool>
    decreases j,
{
    if j <= 0 {
        vr
    } else {
        blit_row_v(blit_v(vr, x, y, s, j - 1), x, (y + (j - 1)) % 32, s[j - 1], 8)
    }
}

/// Whether blitting the first `j` rows of `s` flips any pixel that was on
/// at the moment it was flipped.
pub open spec fn blit_c(vr: Seq<bool>, x: int, y: int, s: Seq<u8>, j: int) -> bool
    decreases j,
{
    if j <= 0 {
        false
    } else {
        blit_c(vr, x, y, s, j - 1) || blit_row_c(
            blit_v(vr, x, y, s, j - 1),
            x,
            (y + (j - 1)) % 32,
            s[j - 1],
            8,
        )
    }
}

/// The framebuffer as bytes, one `0`/`1` byte per pixel, row-major.
pub open spec fn vram_bytes(vr: Seq<bool>) -> Seq<u8> {
    Seq::new(vr.len(), |k: int| if vr[k] { 1u8 } else { 0u8 })
}

/// The 64x32 monochrome framebuffer.
pub struct Display {
    pub vram: Vec<bool>,
}

impl Display {
    /// The framebuffer always holds exactly 64 * 32 cells.
    pub open spec fn wf(self) -> bool {
        self.vram.len() == 2048
    }

    /// A fresh framebuffer with every pixel off.
    pub fn new() -> (d: Display)
        ensures
            d.wf(),
            d.vram@ == blank(),
    {
        let mut vram: Vec<bool> = Vec::new();
        let mut k: usize = 0;
        while k < 2048
            invariant
                k <= 2048,
                vram@ =~= Seq::new(k as nat, |j: int| false),
            decreases 2048 - k,
        {
            vram.push(false);
            k = k + 1;
        }
        proof {
            assert(vram@ =~= blank());
        }
        Display { vram }
    }

    /// Clear the screen: every pixel off.
    pub fn cls(&mut self)
        ensures
            final(self).wf(),
            final(self).vram@ == blank(),
    {
        let fresh = Display::new();
        self.vram = fresh.vram;
    }

    /// Set the pixel at column `x`, row `y` to `is_on`.
    pub fn set_pixel(&mut self, x: usize, y: usize, is_on: bool)
        requires
            old(self).wf(),
            x < 64,
            y < 32,
        ensures
            final(self).wf(),
            final(self).vram@ == old(self).vram@.update(pix(x as int, y as int), is_on),
    {
        self.vram[x + y * 64] = is_on;
    }

    /// Read the pixel at column `x`, row `y`.
    pub fn get_pixel(&mut self, x: usize, y: usize) -> (on: bool)
        requires
            old(self).wf(),
            x < 64,
            y < 32,
        ensures
            *final(self) == *old(self),
            on == old(self).vram@[pix(x as int, y as int)],
    {
        self.vram[x + y * 64]
    }

    /// XOR-blit the sprite (one byte per 8-pixel row, most-significant bit
    /// leftmost) at base coordinates `(x mod 64, y mod 32)`, wrapping both
    /// axes; report whether any pixel that was on was flipped off.
    pub fn draw(&mut self, x: usize, y: usize, sprite: &[u8]) -> (collision: bool)
        requires
            old(self).wf(),
        ensures
            final(self).wf(),
            final(self).vram@ == blit_v(
                old(self).vram@,
                x as int,
                y as int,
                sprite@,
                sprite@.len() as int,
            ),
            collision == blit_c(
                old(self).vram@,
                x as int,
                y as int,
                sprite@,
                sprite@.len() as int,
            ),
    {
        let rows = sprite.len();
        let xm = x % 64;
        let ym = y % 32;
        let mut collision = false;
        let mut j: usize = 0;
        while j < rows
            invariant
                old(self).wf(),
                self.wf(),
                j <= rows,
                rows == sprite@.len(),
                xm == (x as int) % 64,
                ym == (y as int) % 32,
                self.vram@ == blit_v(old(self).vram@, x as int, y as int, sprite@, j as int),
                collision == blit_c(old(self).vram@, x as int, y as int, sprite@, j as int),
            decreases rows - j,
        {
            let row = sprite[j];
            let yj = (ym + j % 32) % 32;
            proof {
                lemma_add_mod_noop(y as int, j as int, 32);
                assert(yj == (y + j) % 32);
            }
            let ghost base = self.vram@;
            let mut i: usize = 0;
            while i < 8
                invariant
                    old(self).wf(),
                    self.wf(),
                    i <= 8,
                    j < rows,
                    rows == sprite@.len(),
                    xm == (x as int) % 64,
                    row == sprite@[j as int],
                    yj < 32,
                    yj == (y + j) % 32,
                    base == blit_v(old(self).vram@, x as int, y as int, sprite@, j as int),
                    self.vram@ == blit_row_v(base, x as int, yj as int, row, i as int),
                    collision == (blit_c(old(self).vram@, x as int, y as int, sprite@, j as int)
                        || blit_row_c(base, x as int, yj as int, row, i as int)),
                decreases 8 - i,
            {
                let bit = (row >> ((7 - i) as u8)) & 1;
                if bit == 1 {
                    let xi = (xm + i) % 64;
                    proof {
                        lemma_add_mod_noop(x as int, i as int, 64);
                        lemma_small_mod(i as nat, 64);
                        assert(xi == (x + i) % 64);
                    }
                    let old_val = self.get_pixel(xi, yj);
                    if old_val {
                        collision = true;
                    }
                    self.set_pixel(xi, yj, !old_val);
                }
                i = i + 1;
            }
            j = j + 1;
        }
        collision
    }

    /// The framebuffer contents as a vector of `0`/`1` bytes, row-major.
    pub fn copy_vram_to_vec(&self) -> (v: Vec<u8>)
        requires
            self.wf(),
        ensures
            v@ == vram_bytes(self.vram@),
    {
        let mut v: Vec<u8> = Vec::new();
        let mut k: usize = 0;
        while k < self.vram.len()
            invariant
                self.wf(),
                k <= 2048,
                v@ =~= vram_bytes(self.vram@).subrange(0, k as int),
            decreases 2048 - k,
        {
            let b: u8 = if self.vram[k] {
                1
            } else {
                0
            };
            v.push(b);
            k = k + 1;
        }
        proof {
            assert(v@ =~= vram_bytes(self.vram@));
        }
        v
    }
}

/// Some bit among the first `k` of the sprite row byte `row`, blitted at
/// base column `x` on screen row `yj`, targets cell `c`.
pub open spec fn row_hit_upto(x: int, yj: int, row: u8, k: int, c: int) -> bool {
    exists|i: int|
        0 <= i < k && #[trigger] sprite_row_bit(row, i) && c == pix((x + i) % 64, yj)
}

/// Some set bit among the first `jmax` sprite rows targets cell `c`.
pub open spec fn hit_upto(x: int, y: int, s: Seq<u8>, jmax: int, c: int) -> bool {
    exists|j: int, i: int|
        0 <= j < jmax && 0 <= i < 8 && #[trigger] sprite_row_bit(s[j], i) && c == pix(
            (x + i) % 64,
            (y + j) % 32,
        )
}

/// Some set bit among the first `jmax` sprite rows targets a cell that is
/// on in `vr`.
pub open spec fn collides_upto(vr: Seq<bool>, x: int, y: int, s: Seq<u8>, jmax: int) -> bool {
    exists|j: int, i: int|
        0 <= j < jmax && 0 <= i < 8 && #[trigger] sprite_row_bit(s[j], i) && vr[pix(
            (x + i) % 64,
            (y + j) % 32,
        )]
}

proof fn lemma_mod_plus_small(a: int, d: int, m: int)
    requires
        0 <= a,
        0 < d < m,
    ensures
        (a + d) % m != a % m,
{
    let r = a % m;
    lemma_add_mod_noop(a, d, m);
    lemma_small_mod(d as nat, m as nat);
    if r + d < m {
        lemma_small_mod((r + d) as nat, m as nat);
    } else {
        lemma_mod_multiples_vanish(-1, r + d, m);
        lemma_small_mod((r + d - m) as nat, m as nat);
    }
}

proof fn lemma_no_earlier_bit_targets(x: int, yj: int, row: u8, k: int)
    requires
        0 <= x,
        0 < k <= 8,
    ensures
        !row_hit_upto(x, yj, row, k - 1, pix((x + (k - 1)) % 64, yj)),
{
    let c0 = pix((x + (k - 1)) % 64, yj);
    if row_hit_upto(x, yj, row, k - 1, c0) {
        let i1: int = choose|i: int|
            0 <= i < k - 1 && #[trigger] sprite_row_bit(row, i) && c0 == pix((x + i) % 64, yj);
        lemma_mod_plus_small(x + i1, (k - 1) - i1, 64);
        assert(false);
    }
}

proof fn lemma_blit_row_v_pointwise(vr: Seq<bool>, x: int, yj: int, row: u8, k: int)
    requires
        vr.len() == 2048,
        0 <= x,
        0 <= yj < 32,
        0 <= k <= 8,
    ensures
        blit_row_v(vr, x, yj, row, k).len() == 2048,
        forall|c: int|
            0 <= c < 2048 ==> blit_row_v(vr, x, yj, row, k)[c] == (vr[c] != row_hit_upto(
                x,
                yj,
                row,
                k,
                c,
            )),
    decreases k,
{
    if k > 0 {
        lemma_blit_row_v_pointwise(vr, x, yj, row, k - 1);
        let prev = blit_row_v(vr, x, yj, row, k - 1);
        let i0 = k - 1;
        if sprite_row_bit(row, i0) {
            let c0 = pix((x + i0) % 64, yj);
            lemma_no_earlier_bit_targets(x, yj, row, k);
            assert forall|c: int| 0 <= c < 2048 implies blit_row_v(vr, x, yj, row, k)[c] == (
            vr[c] != row_hit_upto(x, yj, row, k, c)) by {
                if c == c0 {
                    assert(row_hit_upto(x, yj, row, k, c0));
                } else {
                    if row_hit_upto(x, yj, row, k, c) {
                        let i1: int = choose|i: int|
                            0 <= i < k && #[trigger] sprite_row_bit(row, i) && c == pix(
                                (x + i) % 64,
                                yj,
                            );
                        assert(i1 < k - 1);
                        assert(row_hit_upto(x, yj, row, k - 1, c));
                    }
                    if row_hit_upto(x, yj, row, k - 1, c) {
                        let i1: int = choose|i: int|
                            0 <= i < k - 1 && #[trigger] sprite_row_bit(row, i) && c == pix(
                                (x + i) % 64,
                                yj,
                            );
                        assert(row_hit_upto(x, yj, row, k, c));
                    }
                }
            }
        } else {
            assert forall|c: int| 0 <= c < 2048 implies blit_row_v(vr, x, yj, row, k)[c] == (
            vr[c] != row_hit_upto(x, yj, row, k, c)) by {
                if row_hit_upto(x, yj, row, k, c) {
                    let i1: int = choose|i: int|
                        0 <= i < k && #[trigger] sprite_row_bit(row, i) && c == pix(
                            (x + i) % 64,
                            yj,
                        );
                    assert(i1 < k - 1);
                    assert(row_hit_upto(x, yj, row, k - 1, c));
                }
                if row_hit_upto(x, yj, row, k - 1, c) {
                    let i1: int = choose|i: int|
                        0 <= i < k - 1 && #[trigger] sprite_row_bit(row, i) && c == pix(
                            (x + i) % 64,
                            yj,
                        );
                    assert(row_hit_upto(x, yj, row, k, c));
                }
            }
        }
    }
}

proof fn lemma_blit_row_c_char(vr: Seq<bool>, x: int, yj: int, row: u8, k: int)
    requires
        vr.len() == 2048,
        0 <= x,
        0 <= yj < 32,
        0 <= k <= 8,
    ensures
        blit_row_c(vr, x, yj, row, k) == exists|i: int|
            0 <= i < k && #[trigger] sprite_row_bit(row, i) && vr[pix((x + i) % 64, yj)],
    decreases k,
{
    if k > 0 {
        lemma_blit_row_c_char(vr, x, yj, row, k - 1);
        lemma_blit_row_v_pointwise(vr, x, yj, row, k - 1);
        let prev = blit_row_v(vr, x, yj, row, k - 1);
        let i0 = k - 1;
        if sprite_row_bit(row, i0) {
            let c0 = pix((x + i0) % 64, yj);
            lemma_no_earlier_bit_targets(x, yj, row, k);
            assert(prev[c0] == vr[c0]);
        }
        if blit_row_c(vr, x, yj, row, k) {
            if blit_row_c(vr, x, yj, row, k - 1) {
                let i1: int = choose|i: int|
                    0 <= i < k - 1 && #[trigger] sprite_row_bit(row, i) && vr[pix(
                        (x + i) % 64,
                        yj,
                    )];
                assert(0 <= i1 < k && sprite_row_bit(row, i1) && vr[pix((x + i1) % 64, yj)]);
            } else {
                assert(sprite_row_bit(row, i0) && vr[pix((x + i0) % 64, yj)]);
            }
        }
        if exists|i: int|
            0 <= i < k && #[trigger] sprite_row_bit(row, i) && vr[pix((x + i) % 64, yj)] {
            let i1: int = choose|i: int|
                0 <= i < k && #[trigger] sprite_row_bit(row, i) && vr[pix((x + i) % 64, yj)];
            if i1 < k - 1 {
                assert(blit_row_c(vr, x, yj, row, k - 1));
            } else {
                assert(prev[pix((x + i0) % 64, yj)]);
            }
        }
    }
}

proof fn lemma_no_earlier_row_targets(x: int, y: int, s: Seq<u8>, jm: int, i: int, c: int)
    requires
        0 <= x,
        0 <= y,
        0 < jm <= s.len() <= 32,
        0 <= i < 8,
        c == pix((x + i) % 64, (y + (jm - 1)) % 32),
    ensures
        !hit_upto(x, y, s, jm - 1, c),
{
    if hit_upto(x, y, s, jm - 1, c) {
        let (j1, i1): (int, int) = choose|j: int, i1: int|
            0 <= j < jm - 1 && 0 <= i1 < 8 && #[trigger] sprite_row_bit(s[j], i1) && c == pix(
                (x + i1) % 64,
                (y + j) % 32,
            );
        assert(0 <= (x + i1) % 64 < 64);
        assert(0 <= (x + i) % 64 < 64);
        assert(0 <= (y + j1) % 32 < 32);
        assert(0 <= (y + (jm - 1)) % 32 < 32);
        assert((y + j1) % 32 == (y + (jm - 1)) % 32);
        lemma_mod_plus_small(y + j1, (jm - 1) - j1, 32);
        assert(false);
    }
}

/// Law: for a sprite of at most 32 rows, each set sprite bit targets its
/// own cell, so the blit flips exactly the targeted cells and leaves every
/// other cell alone.
pub proof fn lemma_blit_v_pointwise(vr: Seq<bool>, x: int, y: int, s: Seq<u8>, jm: int)
    requires
        vr.len() == 2048,
        0 <= x,
        0 <= y,
        0 <= jm <= s.len() <= 32,
    ensures
        blit_v(vr, x, y, s, jm).len() == 2048,
        forall|c: int|
            0 <= c < 2048 ==> blit_v(vr, x, y, s, jm)[c] == (vr[c] != hit_upto(x, y, s, jm, c)),
    decreases jm,
{
    if jm > 0 {
        lemma_blit_v_pointwise(vr, x, y, s, jm - 1);
        let base = blit_v(vr, x, y, s, jm - 1);
        let yj = (y + (jm - 1)) % 32;
        let row = s[jm - 1];
        lemma_blit_row_v_pointwise(base, x, yj, row, 8);
        assert forall|c: int| 0 <= c < 2048 implies blit_v(vr, x, y, s, jm)[c] == (vr[c]
            != hit_upto(x, y, s, jm, c)) by {
            if row_hit_upto(x, yj, row, 8, c) {
                let i1: int = choose|i: int|
                    0 <= i < 8 && #[trigger] sprite_row_bit(row, i) && c == pix(
                        (x + i) % 64,
                        yj,
                    );
                lemma_no_earlier_row_targets(x, y, s, jm, i1, c);
                assert(hit_upto(x, y, s, jm, c));
            } else {
                if hit_upto(x, y, s, jm, c) {
                    let (j1, i1): (int, int) = choose|j: int, i: int|
                        0 <= j < jm && 0 <= i < 8 && #[trigger] sprite_row_bit(s[j], i) && c
                            == pix((x + i) % 64, (y + j) % 32);
                    if j1 == jm - 1 {
                        assert(row_hit_upto(x, yj, row, 8, c));
                        assert(false);
                    }
                    assert(hit_upto(x, y, s, jm - 1, c));
                }
                if hit_upto(x, y, s, jm - 1, c) {
                    let (j1, i1): (int, int) = choose|j: int, i: int|
                        0 <= j < jm - 1 && 0 <= i < 8 && #[trigger] sprite_row_bit(s[j], i) && c
                            == pix((x + i) % 64, (y + j) % 32);
                    assert(hit_upto(x, y, s, jm, c));
                }
            }
        }
    }
}

/// Law: for a sprite of at most 32 rows, the blit reports a collision
/// exactly when some set sprite bit targets a cell that was already on.
pub proof fn lemma_blit_c_char(vr: Seq<bool>, x: int, y: int, s: Seq<u8>, jm: int)
    requires
        vr.len() == 2048,
        0 <= x,
        0 <= y,
        0 <= jm <= s.len() <= 32,
    ensures
        blit_c(vr, x, y, s, jm) == collides_upto(vr, x, y, s, jm),
    decreases jm,
{
    if jm > 0 {
        lemma_blit_c_char(vr, x, y, s, jm - 1);
        lemma_blit_v_pointwise(vr, x, y, s, jm - 1);
        let base = blit_v(vr, x, y, s, jm - 1);
        let yj = (y + (jm - 1)) % 32;
        let row = s[jm - 1];
        lemma_blit_row_c_char(base, x, yj, row, 8);
        assert forall|i: int| 0 <= i < 8 && sprite_row_bit(row, i) implies base[pix(
            (x + i) % 64,
            yj,
        )] == vr[pix((x + i) % 64, yj)] by {
            lemma_no_earlier_row_targets(x, y, s, jm, i, pix((x + i) % 64, yj));
        }
        if blit_c(vr, x, y, s, jm) {
            if blit_c(vr, x, y, s, jm - 1) {
                let (j1, i1): (int, int) = choose|j: int, i: int|
                    0 <= j < jm - 1 && 0 <= i < 8 && #[trigger] sprite_row_bit(s[j], i) && vr[pix(
                        (x + i) % 64,
                        (y + j) % 32,
                    )];
                assert(collides_upto(vr, x, y, s, jm));
            } else {
                let i1: int = choose|i: int|
                    0 <= i < 8 && #[trigger] sprite_row_bit(row, i) && base[pix((x + i) % 64, yj)];
                assert(vr[pix((x + i1) % 64, (y + (jm - 1)) % 32)]);
                assert(collides_upto(vr, x, y, s, jm));
            }
        }
        if collides_upto(vr, x, y, s, jm) {
            let (j1, i1): (int, int) = choose|j: int, i: int|
                0 <= j < jm && 0 <= i < 8 && #[trigger] sprite_row_bit(s[j], i) && vr[pix(
                    (x + i) % 64,
                    (y + j) % 32,
                )];
            if j1 == jm - 1 {
                assert(base[pix((x + i1) % 64, yj)]);
                assert(blit_row_c(base, x, yj, row, 8));
            } else {
                assert(collides_upto(vr, x, y, s, jm - 1));
            }
        }
    }
}

/// Law: drawing a sprite of at most 32 rows twice at the same coordinates
/// with nothing in between restores the framebuffer exactly, and the
/// second draw reports a collision precisely when the first draw turned
/// some pixel on (that is, some set sprite bit targeted an off pixel).
pub proof fn lemma_draw_twice_restores(vr: Seq<bool>, x: int, y: int, s: Seq<u8>)
    requires
        vr.len() == 2048,
        0 <= x,
        0 <= y,
        s.len() <= 32,
    ensures
        blit_v(blit_v(vr, x, y, s, s.len() as int), x, y, s, s.len() as int) == vr,
        blit_c(blit_v(vr, x, y, s, s.len() as int), x, y, s, s.len() as int) == (exists|
            j: int,
            i: int,
        |
            0 <= j < s.len() && 0 <= i < 8 && #[trigger] sprite_row_bit(s[j], i) && !vr[pix(
                (x + i) % 64,
                (y + j) % 32,
            )]),
{
    let jm = s.len() as int;
    let v1 = blit_v(vr, x, y, s, jm);
    lemma_blit_v_pointwise(vr, x, y, s, jm);
    lemma_blit_v_pointwise(v1, x, y, s, jm);
    assert forall|c: int| 0 <= c < 2048 implies blit_v(v1, x, y, s, jm)[c] == vr[c] by {}
    assert(blit_v(v1, x, y, s, jm) =~= vr);
    lemma_blit_c_char(v1, x, y, s, jm);
    if collides_upto(v1, x, y, s, jm) {
        let (j1, i1): (int, int) = choose|j: int, i: int|
            0 <= j < jm && 0 <= i < 8 && #[trigger] sprite_row_bit(s[j], i) && v1[pix(
                (x + i) % 64,
                (y + j) % 32,
            )];
        let c = pix((x + i1) % 64, (y + j1) % 32);
        assert(hit_upto(x, y, s, jm, c));
        assert(!vr[c]);
    }
    if exists|j: int, i: int|
        0 <= j < s.len() && 0 <= i < 8 && #[trigger] sprite_row_bit(s[j], i) && !vr[pix(
            (x + i) % 64,
            (y + j) % 32,
        )] {
        let (j1, i1): (int, int) = choose|j: int, i: int|
            0 <= j < jm && 0 <= i < 8 && #[trigger] sprite_row_bit(s[j], i) && !vr[pix(
                (x + i) % 64,
                (y + j) % 32,
            )];
        let c = pix((x + i1) % 64, (y + j1) % 32);
        assert(hit_upto(x, y, s, jm, c));
        assert(v1[c]);
        assert(collides_upto(v1, x, y, s, jm));
    }
}

} // verus!
