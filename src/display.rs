use vstd::prelude::*;

use crate::machine::{
    MachineView, Processor, RAM_SIZE_BYTE, SCREEN_HEIGHT, SCREEN_WIDTH, VF, VRAM_START,
};

verus! {

/// Pixel `k` of a byte, counting from the most significant bit (`k == 0`).
pub open spec fn bit_at(byte: u8, k: int) -> bool {
    ((byte >> ((7 - k) as u8)) & 1u8) == 1u8
}

/// The display byte that holds pixel (`px`, `py`).
pub open spec fn pixel_address(px: int, py: int) -> int {
    VRAM_START + py * 8 + px / 8
}

/// Whether pixel (`px`, `py`) is lit in memory `ram`.
pub open spec fn pixel(ram: Seq<u8>, px: int, py: int) -> bool {
    bit_at(ram[pixel_address(px, py)], px % 8)
}

pub open spec fn on_screen(px: int, py: int) -> bool {
    0 <= px < SCREEN_WIDTH && 0 <= py < SCREEN_HEIGHT
}

/// The sprite row that lands on screen row `py` when drawing from row `vy`.
pub open spec fn sprite_row(vy: u8, py: int) -> int {
    (py - vy) % (SCREEN_HEIGHT as int)
}

/// The sprite column that lands on screen column `px` when drawing from
/// column `vx`.
pub open spec fn sprite_col(vx: u8, px: int) -> int {
    (px - vx) % (SCREEN_WIDTH as int)
}

/// Whether the sprite drawn at (`vx`, `vy`) has a lit pixel on (`px`, `py`).
/// Both coordinates wrap around the screen, pixel by pixel.
pub open spec fn incoming(sprite: Seq<u8>, vx: u8, vy: u8, px: int, py: int) -> bool {
    let row = sprite_row(vy, py);
    let col = sprite_col(vx, px);
    row < sprite.len() && col < 8 && bit_at(sprite[row], col)
}

/// Whether some pixel that the sprite lights is already lit.
pub open spec fn collides(ram: Seq<u8>, sprite: Seq<u8>, vx: u8, vy: u8) -> bool {
    exists|px: int, py: int|
        on_screen(px, py) && #[trigger] pixel(ram, px, py) && #[trigger] incoming(
            sprite,
            vx,
            vy,
            px,
            py,
        )
}

/// The `n` sprite rows stored from address `I` on, wrapping around memory.
pub open spec fn sprite_of(s: MachineView, n: int) -> Seq<u8> {
    Seq::new(n as nat, |r: int| s.ram[(s.i + r) % (RAM_SIZE_BYTE as int)])
}

/// Memory `t` is memory `s` with every pixel toggled where `lit` holds, and no
/// byte outside the display changed.
pub open spec fn toggled(s: Seq<u8>, t: Seq<u8>, lit: spec_fn(int, int) -> bool) -> bool {
    &&& t.len() == s.len()
    &&& forall|a: int| 0 <= a < VRAM_START ==> #[trigger] t[a] == s[a]
    &&& forall|px: int, py: int|
        on_screen(px, py) ==> #[trigger] pixel(t, px, py) == (pixel(s, px, py) != lit(px, py))
}

/// The effect of drawing the `n`-row sprite at `I` at the coordinates held in
/// registers `x` and `y`: each lit sprite pixel toggles the screen pixel it
/// lands on; `VF` tells whether a lit pixel met a lit one; PC advances.
/// The coordinates are those the registers hold before `VF` changes.
pub open spec fn drawn(s: MachineView, t: MachineView, x: int, y: int, n: int) -> bool {
    let sprite = sprite_of(s, n);
    let vx = s.v[x];
    let vy = s.v[y];
    &&& toggled(s.ram, t.ram, |px: int, py: int| incoming(sprite, vx, vy, px, py))
    &&& t == MachineView {
        ram: t.ram,
        v: s.v.update(VF as int, if collides(s.ram, sprite, vx, vy) { 1u8 } else { 0u8 }),
        pc: ((s.pc + 2) % (RAM_SIZE_BYTE as int)) as usize,
        ..s
    }
}

/// Whether sprite pixel (`row`, `col`) comes before pixel (`r`, `b`) in
/// drawing order.
spec fn before(row: int, col: int, r: int, b: int) -> bool {
    row < r || (row == r && col < b)
}

/// Lit sprite pixels that are drawn before sprite pixel (`r`, `b`).
spec fn lit_before(sprite: Seq<u8>, vx: u8, vy: u8, r: int, b: int) -> spec_fn(int, int) -> bool {
    |px: int, py: int|
        incoming(sprite, vx, vy, px, py) && before(sprite_row(vy, py), sprite_col(vx, px), r, b)
}

proof fn lemma_toggle_bit(d: u8, s: u8, t: u8)
    requires
        s < 8,
        t < 8,
    ensures
        ((((d ^ (1u8 << s)) >> t) & 1u8) == 1u8) == ((((d >> t) & 1u8) == 1u8) != (s == t)),
{
    assert(((((d ^ (1u8 << s)) >> t) & 1u8) == 1u8) == ((((d >> t) & 1u8) == 1u8) != (s == t)))
        by (bit_vector)
        requires
            s < 8,
            t < 8,
    ;
}

proof fn lemma_xor_zero(d: u8)
    ensures
        d ^ 0u8 == d,
{
    assert(d ^ 0u8 == d) by (bit_vector);
}

/// Screen row `p` is the one that sprite row `r` lands on exactly when its
/// offset from `base` is `r`.
pub(crate) proof fn lemma_row_wrap(base: u8, r: int, p: int)
    requires
        0 <= r < 32,
        0 <= p < 32,
    ensures
        ((p - base) % 32 == r) <==> (p == (base + r) % 32),
{
}

pub(crate) proof fn lemma_col_wrap(base: u8, c: int, p: int)
    requires
        0 <= c < 64,
        0 <= p < 64,
    ensures
        ((p - base) % 64 == c) <==> (p == (base + c) % 64),
{
}

impl Processor {
    /// Toggles pixel (`x`, `y`) if `color` is set, and tells whether it was
    /// lit before and `color` is set.
    pub fn set_pixel(&mut self, x: usize, y: usize, color: bool) -> (collision: bool)
        requires
            old(self).wf(),
            x < SCREEN_WIDTH,
            y < SCREEN_HEIGHT,
        ensures
            final(self).wf(),
            final(self)@ == (MachineView { ram: final(self)@.ram, ..old(self)@ }),
            toggled(
                old(self)@.ram,
                final(self)@.ram,
                |px: int, py: int| color && px == x && py == y,
            ),
            collision == (color && pixel(old(self)@.ram, x as int, y as int)),
    {
        let ghost s = self@;
        let address = VRAM_START + y * 8 + x / 8;
        let data = self.ram[address];
        let shift = (7 - x % 8) as u8;
        let mask: u8 = if color {
            1u8 << shift
        } else {
            0u8
        };
        self.ram[address] = data ^ mask;
        proof {
            let lit = |px: int, py: int| color && px == x && py == y;
            assert forall|px: int, py: int| on_screen(px, py) implies #[trigger] pixel(
                self.ram@,
                px,
                py,
            ) == (pixel(s.ram, px, py) != lit(px, py)) by {
                if pixel_address(px, py) == address {
                    let t = (7 - px % 8) as u8;
                    if color {
                        lemma_toggle_bit(data, shift, t);
                    } else {
                        lemma_xor_zero(data);
                    }
                }
            }
        }
        color && ((data >> shift) & 1u8) == 1u8
    }

    /// Draws the `n`-row sprite stored at `I` at the coordinates held in
    /// registers `x` and `y` (see `drawn`). All sprite rows are read before
    /// any pixel changes.
    pub fn draw(&mut self, x: usize, y: usize, n: usize)
        requires
            old(self).wf(),
            x < 16,
            y < 16,
            n < 16,
        ensures
            final(self).wf(),
            drawn(old(self)@, final(self)@, x as int, y as int, n as int),
    {
        let ghost s = self@;
        let vx = self.v[x];
        let vy = self.v[y];
        let mut sprite: Vec<u8> = Vec::new();
        let mut r: usize = 0;
        while r < n
            invariant
                self@ == s,
                s.wf(),
                n < 16,
                r <= n,
                sprite@ == sprite_of(s, r as int),
            decreases n - r,
        {
            sprite.push(self.ram[(self.i + r) % RAM_SIZE_BYTE]);
            r = r + 1;
            assert(sprite@ =~= sprite_of(s, r as int));
        }
        let ghost sp = sprite@;
        let mut collision = false;
        let mut r: usize = 0;
        while r < n
            invariant
                s.wf(),
                n < 16,
                x < 16,
                y < 16,
                r <= n,
                sprite@ == sp,
                sp == sprite_of(s, n as int),
                vx == s.v[x as int],
                vy == s.v[y as int],
                self.wf(),
                self@ == (MachineView { ram: self@.ram, ..s }),
                toggled(s.ram, self@.ram, lit_before(sp, vx, vy, r as int, 0)),
                collision == exists|px: int, py: int|
                    on_screen(px, py) && #[trigger] pixel(s.ram, px, py) && #[trigger] lit_before(
                        sp,
                        vx,
                        vy,
                        r as int,
                        0,
                    )(px, py),
            decreases n - r,
        {
            let py = (vy as usize + r) % SCREEN_HEIGHT;
            let row_byte = sprite[r];
            let mut b: usize = 0;
            while b < 8
                invariant
                    s.wf(),
                    n < 16,
                    r < n,
                    b <= 8,
                    sprite@ == sp,
                    sp == sprite_of(s, n as int),
                    row_byte == sp[r as int],
                    py == (vy + r) % 32,
                    self.wf(),
                    self@ == (MachineView { ram: self@.ram, ..s }),
                    toggled(s.ram, self@.ram, lit_before(sp, vx, vy, r as int, b as int)),
                    collision == exists|px: int, py: int|
                        on_screen(px, py) && #[trigger] pixel(s.ram, px, py)
                            && #[trigger] lit_before(sp, vx, vy, r as int, b as int)(px, py),
                decreases 8 - b,
            {
                let color = ((row_byte >> ((7 - b) as u8)) & 1u8) == 1u8;
                let px = (vx as usize + b) % SCREEN_WIDTH;
                let ghost before_ram = self@.ram;
                let hit = self.set_pixel(px, py, color);
                proof {
                    let old_lit = lit_before(sp, vx, vy, r as int, b as int);
                    let new_lit = lit_before(sp, vx, vy, r as int, b + 1);
                    lemma_row_wrap(vy, r as int, py as int);
                    lemma_col_wrap(vx, b as int, px as int);
                    assert forall|qx: int, qy: int| on_screen(qx, qy) implies #[trigger] new_lit(
                        qx,
                        qy,
                    ) == (old_lit(qx, qy) != (color && qx == px && qy == py)) by {
                        lemma_row_wrap(vy, r as int, qy);
                        lemma_col_wrap(vx, b as int, qx);
                    }
                    assert forall|qx: int, qy: int| on_screen(qx, qy) implies #[trigger] pixel(
                        self@.ram,
                        qx,
                        qy,
                    ) == (pixel(s.ram, qx, qy) != new_lit(qx, qy)) by {
                        assert(pixel(before_ram, qx, qy) == (pixel(s.ram, qx, qy) != old_lit(
                            qx,
                            qy,
                        )));
                    }
                    assert(!old_lit(px as int, py as int));
                    assert(pixel(before_ram, px as int, py as int) == pixel(
                        s.ram,
                        px as int,
                        py as int,
                    ));
                    let new_collision = collision || hit;
                    if hit {
                        assert(new_lit(px as int, py as int));
                        assert(pixel(s.ram, px as int, py as int));
                    }
                    if collision {
                        let (wx, wy) = choose|wx: int, wy: int|
                            on_screen(wx, wy) && #[trigger] pixel(s.ram, wx, wy) && #[trigger] old_lit(
                                wx,
                                wy,
                            );
                        assert(new_lit(wx, wy));
                    }
                    if !new_collision {
                        assert forall|qx: int, qy: int|
                            on_screen(qx, qy) && #[trigger] pixel(s.ram, qx, qy) implies !#[trigger] new_lit(
                            qx,
                            qy,
                        ) by {
                            if new_lit(qx, qy) {
                                if qx == px && qy == py {
                                } else {
                                    assert(old_lit(qx, qy));
                                }
                            }
                        }
                    }
                }
                if hit {
                    collision = true;
                }
                b = b + 1;
            }
            proof {
                let lit8 = lit_before(sp, vx, vy, r as int, 8);
                let next = lit_before(sp, vx, vy, r + 1, 0);
                assert forall|qx: int, qy: int| #[trigger] lit8(qx, qy) == next(qx, qy) by {}
                assert forall|qx: int, qy: int| on_screen(qx, qy) implies #[trigger] pixel(
                    self@.ram,
                    qx,
                    qy,
                ) == (pixel(s.ram, qx, qy) != next(qx, qy)) by {
                    assert(lit8(qx, qy) == next(qx, qy));
                }
                if collision {
                    let (wx, wy) = choose|wx: int, wy: int|
                        on_screen(wx, wy) && #[trigger] pixel(s.ram, wx, wy) && #[trigger] lit8(wx, wy);
                    assert(next(wx, wy));
                } else {
                    assert forall|qx: int, qy: int|
                        on_screen(qx, qy) && #[trigger] pixel(s.ram, qx, qy) implies !#[trigger] next(
                        qx,
                        qy,
                    ) by {
                        assert(lit8(qx, qy) == next(qx, qy));
                    }
                }
            }
            r = r + 1;
        }
        self.v[VF] = if collision {
            1u8
        } else {
            0u8
        };
        self.pc = (self.pc + 2) % RAM_SIZE_BYTE;
        proof {
            let lit_n = lit_before(sp, vx, vy, n as int, 0);
            let inc = |px: int, py: int| incoming(sp, vx, vy, px, py);
            assert forall|qx: int, qy: int| #[trigger] lit_n(qx, qy) == inc(qx, qy) by {}
            assert forall|qx: int, qy: int| on_screen(qx, qy) implies #[trigger] pixel(
                self@.ram,
                qx,
                qy,
            ) == (pixel(s.ram, qx, qy) != inc(qx, qy)) by {
                assert(lit_n(qx, qy) == inc(qx, qy));
            }
            if collision {
                let (wx, wy) = choose|wx: int, wy: int|
                    on_screen(wx, wy) && #[trigger] pixel(s.ram, wx, wy) && #[trigger] lit_n(wx, wy);
                assert(incoming(sp, vx, vy, wx, wy));
            }
            if collides(s.ram, sp, vx, vy) {
                let (wx, wy) = choose|wx: int, wy: int|
                    on_screen(wx, wy) && #[trigger] pixel(s.ram, wx, wy) && #[trigger] incoming(
                        sp,
                        vx,
                        vy,
                        wx,
                        wy,
                    );
                assert(lit_n(wx, wy));
            }
            assert(self@.v =~= s.v.update(
                VF as int,
                if collides(s.ram, sp, vx, vy) {
                    1u8
                } else {
                    0u8
                },
            ));
        }
    }
}

} // verus!
