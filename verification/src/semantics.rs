//! The mathematical model of the machine and of one instruction cycle.
//!
//! [`ChipView`] is the abstract state: plain sequences and integers, one field
//! per hardware structure. Every instruction of the dispatch table is a
//! specification function from state to state (or to a [`Fault`]), and
//! [`spec_cycle`] composes fetch, decode, execute and the timer tick exactly
//! as the executable engine does.

use vstd::prelude::*;

use vstd::arithmetic::div_mod::lemma_add_mod_noop;
use vstd::arithmetic::div_mod::lemma_fundamental_div_mod;
use vstd::arithmetic::div_mod::lemma_fundamental_div_mod_converse_div;
use vstd::arithmetic::div_mod::lemma_fundamental_div_mod_converse_mod;
use vstd::arithmetic::div_mod::lemma_mod_add_multiples_vanish;
use vstd::arithmetic::div_mod::lemma_mod_bound;
use vstd::arithmetic::div_mod::lemma_small_mod;

verus! {

/// The fatal conditions the engine reports instead of corrupting state, plus
/// the rejection of an oversize program image at load time.
#[derive(Clone, Copy, Debug, PartialEq, Eq, Structural)]
pub enum Fault {
    /// A program image does not fit between the load origin and the top of memory.
    OversizeProgram,
    /// A call was issued with the sixteen-entry return stack already full.
    StackOverflow,
    /// A return was issued with the return stack empty.
    StackUnderflow,
    /// A computed memory, key or fetch address falls outside its range.
    AddressOutOfRange,
}

/// The abstract machine state.
///
/// `mem` holds 4096 bytes, `v` the sixteen byte registers (register 15 doubles
/// as the flag register), `stack` the sixteen return slots, `gfx` the 64x32
/// framebuffer row-major (pixel `(px, py)` at index `py * 64 + px`), and
/// `keys` the sixteen-entry input latch.
#[verifier::ext_equal]
pub struct ChipView {
    pub mem: Seq<u8>,
    pub v: Seq<u8>,
    pub stack: Seq<u16>,
    pub gfx: Seq<bool>,
    pub keys: Seq<bool>,
    pub pc: u16,
    pub sp: u8,
    pub i_reg: u16,
    pub delay: u8,
    pub sound: u8,
}

impl ChipView {
    /// Shape of a well-formed state: every container has its hardware size,
    /// the stack pointer stays within the sixteen slots, and every return
    /// slot holds an address whose two-byte step forward still fits.
    pub open spec fn wf(self) -> bool {
        &&& self.mem.len() == 4096
        &&& self.v.len() == 16
        &&& self.stack.len() == 16
        &&& self.gfx.len() == 2048
        &&& self.keys.len() == 16
        &&& self.sp <= 16
        &&& forall|k: int| 0 <= k < 16 ==> self.stack[k] <= 0xFFFD
    }
}

// ---------------------------------------------------------------------------
// Decoding
// ---------------------------------------------------------------------------

/// Top nibble of an instruction word: the family selector.
pub open spec fn op_family(w: u16) -> int {
    w as int / 0x1000
}

/// Low twelve bits: an address or wide constant.
pub open spec fn op_nnn(w: u16) -> u16 {
    (w as int % 0x1000) as u16
}

/// Low byte: a constant or a sub-opcode.
pub open spec fn op_nn(w: u16) -> u8 {
    (w as int % 0x100) as u8
}

/// Low nibble: a short constant or a sub-opcode.
pub open spec fn op_n(w: u16) -> u8 {
    (w as int % 0x10) as u8
}

/// Second nibble from the top: the first register index.
pub open spec fn op_x(w: u16) -> int {
    (w as int / 0x100) % 0x10
}

/// Third nibble from the top: the second register index.
pub open spec fn op_y(w: u16) -> int {
    (w as int / 0x10) % 0x10
}

/// The instruction word at the program counter: high byte first.
pub open spec fn fetched(s: ChipView) -> u16 {
    (s.mem[s.pc as int] * 256 + s.mem[s.pc as int + 1]) as u16
}

// ---------------------------------------------------------------------------
// Small helpers
// ---------------------------------------------------------------------------

/// Byte addition, wrapping.
pub open spec fn wrap_add8(a: u8, b: u8) -> u8 {
    ((a + b) % 256) as u8
}

/// Byte subtraction, wrapping.
pub open spec fn wrap_sub8(a: u8, b: u8) -> u8 {
    ((a - b + 256) % 256) as u8
}

/// Advance the program counter by `k` bytes.
pub open spec fn bump_pc(s: ChipView, k: u16) -> ChipView {
    ChipView { pc: (s.pc + k) as u16, ..s }
}

/// One countdown step of a timer: minus one, floored at zero.
pub open spec fn dec_timer(t: u8) -> u8 {
    if t > 0 {
        (t - 1) as u8
    } else {
        0u8
    }
}

/// The per-cycle timer tick applied after every executed instruction.
pub open spec fn tick(s: ChipView) -> ChipView {
    ChipView { delay: dec_timer(s.delay), sound: dec_timer(s.sound), ..s }
}

/// Lowest pressed key at or above index `i`, if any.
pub open spec fn first_pressed(keys: Seq<bool>, i: int) -> Option<u8>
    decreases 16 - i,
{
    if i < 0 || i >= 16 {
        None
    } else if keys[i] {
        Some(i as u8)
    } else {
        first_pressed(keys, i + 1)
    }
}

// ---------------------------------------------------------------------------
// Sprite drawing
// ---------------------------------------------------------------------------

/// Bit `c` of a sprite row byte, counting the most significant bit as the
/// leftmost column 0.
pub open spec fn sprite_row_bit(b: u8, c: int) -> bool {
    (b >> ((7 - c) as u8)) & 1 == 1
}

/// Inverse of wrapped placement: the offset `off` such that
/// `(base + off) % m == p`, for `p` in `[0, m)`.
pub open spec fn wrap_back(base: int, p: int, m: int) -> int {
    (p - base % m + m) % m
}

/// Whether pixel index `pi` is flipped once the sprite cells strictly before
/// row `rr`, column `cc` (in row-major cell order) have been composed.
/// A pixel is hit by at most one cell, found by inverting the wraparound.
pub open spec fn covers_upto(
    mem: Seq<u8>,
    i: int,
    vx: int,
    vy: int,
    rr: int,
    cc: int,
    pi: int,
) -> bool {
    let px = pi % 64;
    let py = pi / 64;
    let r = wrap_back(vy, py, 32);
    let c = wrap_back(vx, px, 64);
    &&& c < 8
    &&& sprite_row_bit(mem[i + r], c)
    &&& (r < rr || (r == rr && c < cc))
}

/// Whether the full `rows`-row sprite at origin `(vx, vy)` flips pixel `pi`.
pub open spec fn sprite_covers(
    mem: Seq<u8>,
    i: int,
    vx: int,
    vy: int,
    rows: int,
    pi: int,
) -> bool {
    covers_upto(mem, i, vx, vy, rows, 0, pi)
}

/// The framebuffer after XOR-composing the sprite: each pixel is flipped
/// exactly when some set sprite bit lands on it, both axes wrapping.
pub open spec fn draw_gfx(
    gfx: Seq<bool>,
    mem: Seq<u8>,
    i: int,
    vx: int,
    vy: int,
    rows: int,
) -> Seq<bool> {
    Seq::new(gfx.len(), |pi: int| gfx[pi] ^ sprite_covers(mem, i, vx, vy, rows, pi))
}

/// Whether some sprite cell strictly before row `rr`, column `cc` lands on a
/// pixel of `gfx` that was already lit.
pub open spec fn collision_upto(
    gfx: Seq<bool>,
    mem: Seq<u8>,
    i: int,
    vx: int,
    vy: int,
    rr: int,
    cc: int,
) -> bool {
    exists|pi: int|
        0 <= pi < 2048 && #[trigger] covers_upto(mem, i, vx, vy, rr, cc, pi) && gfx[pi]
}

/// Whether some set sprite bit lands on a pixel that was already lit.
pub open spec fn draw_collision(
    gfx: Seq<bool>,
    mem: Seq<u8>,
    i: int,
    vx: int,
    vy: int,
    rows: int,
) -> bool {
    collision_upto(gfx, mem, i, vx, vy, rows, 0)
}

/// The wrapped placement of offsets is invertible: placing offset `off` from
/// `base` and asking which offset lands there gives `off` back.
pub proof fn lemma_wrap_round_trip(base: int, off: int, m: int)
    requires
        0 <= base,
        0 <= off < m,
        0 < m,
    ensures
        wrap_back(base, (base + off) % m, m) == off,
{
    let b = base % m;
    lemma_mod_bound(base, m);
    lemma_add_mod_noop(base, off, m);
    lemma_small_mod(off as nat, m as nat);
    let p = (base + off) % m;
    assert(p == (b + off) % m);
    if b + off < m {
        lemma_small_mod((b + off) as nat, m as nat);
        assert(p == b + off);
        assert(wrap_back(base, p, m) == (off + m) % m);
        lemma_mod_add_multiples_vanish(off, m);
        lemma_small_mod(off as nat, m as nat);
    } else {
        lemma_fundamental_div_mod_converse_mod(b + off, m, 1, b + off - m);
        assert(p == b + off - m);
        assert(wrap_back(base, p, m) == off % m);
        lemma_small_mod(off as nat, m as nat);
    }
}

/// The offset the inversion returns does land on the pixel coordinate it was
/// asked about, and lies within one wrap period.
pub proof fn lemma_wrap_cover(base: int, p: int, m: int)
    requires
        0 <= base,
        0 <= p < m,
        0 < m,
    ensures
        0 <= wrap_back(base, p, m) < m,
        (base + wrap_back(base, p, m)) % m == p,
{
    let b = base % m;
    lemma_mod_bound(base, m);
    let r = wrap_back(base, p, m);
    lemma_mod_bound(p - b + m, m);
    if p >= b {
        lemma_fundamental_div_mod_converse_mod(p - b + m, m, 1, p - b);
        assert(r == p - b);
        lemma_add_mod_noop(base, r, m);
        lemma_small_mod(r as nat, m as nat);
        lemma_small_mod(p as nat, m as nat);
        assert((base + r) % m == (b + r) % m);
    } else {
        lemma_small_mod((p - b + m) as nat, m as nat);
        assert(r == p - b + m);
        lemma_add_mod_noop(base, r, m);
        lemma_small_mod(r as nat, m as nat);
        assert((base + r) % m == (b + r) % m);
        lemma_mod_add_multiples_vanish(p, m);
        lemma_small_mod(p as nat, m as nat);
        assert(b + r == p + m);
    }
}

/// What one sprite cell does to the draw: the cell at row `rr`, column `cc`
/// lands on pixel `t` and no other pixel's coverage changes when the cell is
/// composed; the collision account gains exactly that cell's hit.
pub proof fn lemma_draw_cell(
    g0: Seq<bool>,
    mem: Seq<u8>,
    i: int,
    vx: int,
    vy: int,
    rr: int,
    cc: int,
)
    requires
        g0.len() == 2048,
        0 <= vx,
        0 <= vy,
        0 <= rr < 32,
        0 <= cc < 8,
    ensures
        ({
            let py = (vy + rr) % 32;
            let px = (vx + cc) % 64;
            let t = py * 64 + px;
            let bit = sprite_row_bit(mem[i + rr], cc);
            &&& 0 <= t < 2048
            &&& py == t / 64
            &&& px == t % 64
            &&& !covers_upto(mem, i, vx, vy, rr, cc, t)
            &&& covers_upto(mem, i, vx, vy, rr, cc + 1, t) == bit
            &&& forall|pi: int|
                0 <= pi < 2048 && pi != t ==> covers_upto(mem, i, vx, vy, rr, cc + 1, pi)
                    == covers_upto(mem, i, vx, vy, rr, cc, pi)
            &&& collision_upto(g0, mem, i, vx, vy, rr, cc + 1) == (collision_upto(
                g0,
                mem,
                i,
                vx,
                vy,
                rr,
                cc,
            ) || (bit && g0[t]))
        }),
{
    let py = (vy + rr) % 32;
    let px = (vx + cc) % 64;
    let t = py * 64 + px;
    let bit = sprite_row_bit(mem[i + rr], cc);
    lemma_mod_bound(vy + rr, 32);
    lemma_mod_bound(vx + cc, 64);
    lemma_fundamental_div_mod_converse_mod(t, 64, py, px);
    lemma_fundamental_div_mod_converse_div(t, 64, py, px);
    lemma_wrap_round_trip(vy, rr, 32);
    lemma_wrap_round_trip(vx, cc, 64);
    assert(wrap_back(vy, py, 32) == rr);
    assert(wrap_back(vx, px, 64) == cc);
    assert forall|pi: int| 0 <= pi < 2048 && pi != t implies covers_upto(
        mem,
        i,
        vx,
        vy,
        rr,
        cc + 1,
        pi,
    ) == covers_upto(mem, i, vx, vy, rr, cc, pi) by {
        let py2 = pi / 64;
        let px2 = pi % 64;
        lemma_mod_bound(pi, 64);
        assert(0 <= py2 < 32);
        if wrap_back(vy, py2, 32) == rr && wrap_back(vx, px2, 64) == cc {
            lemma_wrap_cover(vy, py2, 32);
            lemma_wrap_cover(vx, px2, 64);
            assert(py2 == py);
            assert(px2 == px);
            lemma_fundamental_div_mod(pi, 64);
            assert(pi == t);
        }
    }
    if collision_upto(g0, mem, i, vx, vy, rr, cc + 1) {
        let pi = choose|pi: int|
            0 <= pi < 2048 && #[trigger] covers_upto(mem, i, vx, vy, rr, cc + 1, pi) && g0[pi];
        if pi == t {
            assert(bit && g0[t]);
        } else {
            assert(covers_upto(mem, i, vx, vy, rr, cc, pi));
            assert(collision_upto(g0, mem, i, vx, vy, rr, cc));
        }
    }
    if collision_upto(g0, mem, i, vx, vy, rr, cc) {
        let pi = choose|pi: int|
            0 <= pi < 2048 && #[trigger] covers_upto(mem, i, vx, vy, rr, cc, pi) && g0[pi];
        assert(covers_upto(mem, i, vx, vy, rr, cc + 1, pi));
        assert(collision_upto(g0, mem, i, vx, vy, rr, cc + 1));
    }
    if bit && g0[t] {
        assert(covers_upto(mem, i, vx, vy, rr, cc + 1, t));
        assert(collision_upto(g0, mem, i, vx, vy, rr, cc + 1));
    }
}

/// Finishing the eight columns of a row is the same as standing at the start
/// of the next row, for coverage and for the collision account alike.
pub proof fn lemma_draw_row_edge(
    g0: Seq<bool>,
    mem: Seq<u8>,
    i: int,
    vx: int,
    vy: int,
    rr: int,
)
    requires
        g0.len() == 2048,
    ensures
        forall|pi: int|
            0 <= pi < 2048 ==> covers_upto(mem, i, vx, vy, rr, 8, pi) == covers_upto(
                mem,
                i,
                vx,
                vy,
                rr + 1,
                0,
                pi,
            ),
        collision_upto(g0, mem, i, vx, vy, rr, 8) == collision_upto(g0, mem, i, vx, vy, rr + 1, 0),
{
    assert forall|pi: int| 0 <= pi < 2048 implies covers_upto(mem, i, vx, vy, rr, 8, pi)
        == covers_upto(mem, i, vx, vy, rr + 1, 0, pi) by {}
    if collision_upto(g0, mem, i, vx, vy, rr, 8) {
        let pi = choose|pi: int|
            0 <= pi < 2048 && #[trigger] covers_upto(mem, i, vx, vy, rr, 8, pi) && g0[pi];
        assert(covers_upto(mem, i, vx, vy, rr + 1, 0, pi));
    }
    if collision_upto(g0, mem, i, vx, vy, rr + 1, 0) {
        let pi = choose|pi: int|
            0 <= pi < 2048 && #[trigger] covers_upto(mem, i, vx, vy, rr + 1, 0, pi) && g0[pi];
        assert(covers_upto(mem, i, vx, vy, rr, 8, pi));
    }
}

/// Before any cell is composed nothing is covered and nothing has collided.
pub proof fn lemma_draw_start(g0: Seq<bool>, mem: Seq<u8>, i: int, vx: int, vy: int)
    requires
        g0.len() == 2048,
    ensures
        forall|pi: int| 0 <= pi < 2048 ==> !covers_upto(mem, i, vx, vy, 0, 0, pi),
        !collision_upto(g0, mem, i, vx, vy, 0, 0),
{
    if collision_upto(g0, mem, i, vx, vy, 0, 0) {
        let pi = choose|pi: int|
            0 <= pi < 2048 && #[trigger] covers_upto(mem, i, vx, vy, 0, 0, pi) && g0[pi];
        assert(false);
    }
}

// ---------------------------------------------------------------------------
// Instruction semantics, by family
// ---------------------------------------------------------------------------

/// Family 0x0: clear the framebuffer (sub-opcode 0xE0), return from a
/// subroutine (0xEE, landing just past the call), otherwise a no-op skip.
pub open spec fn spec_op0(s: ChipView, nn: u8) -> Result<ChipView, Fault> {
    if nn == 0xE0 {
        Ok(bump_pc(ChipView { gfx: Seq::new(2048, |pi: int| false), ..s }, 2))
    } else if nn == 0xEE {
        if s.sp == 0 {
            Err(Fault::StackUnderflow)
        } else {
            Ok(
                ChipView {
                    sp: (s.sp - 1) as u8,
                    pc: (s.stack[s.sp - 1] + 2) as u16,
                    ..s
                },
            )
        }
    } else {
        Ok(bump_pc(s, 2))
    }
}

/// Families 0x1 and 0xB: set the program counter directly, no extra step.
pub open spec fn spec_jump(s: ChipView, location: u16) -> ChipView {
    ChipView { pc: location, ..s }
}

/// Family 0x2: push the address of the call itself, then jump.
pub open spec fn spec_call(s: ChipView, location: u16) -> Result<ChipView, Fault> {
    if s.sp >= 16 {
        Err(Fault::StackOverflow)
    } else {
        Ok(
            ChipView {
                stack: s.stack.update(s.sp as int, s.pc),
                sp: (s.sp + 1) as u8,
                pc: location,
                ..s
            },
        )
    }
}

/// Skip the next instruction when the two bytes are equal.
pub open spec fn spec_se(s: ChipView, a: u8, b: u8) -> ChipView {
    bump_pc(s, if a == b { 4 } else { 2 })
}

/// Skip the next instruction when the two bytes differ.
pub open spec fn spec_sne(s: ChipView, a: u8, b: u8) -> ChipView {
    bump_pc(s, if a != b { 4 } else { 2 })
}

/// Load a constant into a register.
pub open spec fn spec_ld(s: ChipView, x: int, constant: u8) -> ChipView {
    bump_pc(ChipView { v: s.v.update(x, constant), ..s }, 2)
}

/// Add a constant to a register, wrapping, with no flag.
pub open spec fn spec_add(s: ChipView, x: int, constant: u8) -> ChipView {
    bump_pc(ChipView { v: s.v.update(x, wrap_add8(s.v[x], constant)), ..s }, 2)
}

/// Family 0x8: register-to-register moves, bitwise operations, wrapping
/// arithmetic with carry and borrow flags, and the two shifts. The flag
/// writes happen in the same order as the hardware description, so an
/// instruction naming register 15 itself overwrites in that order.
pub open spec fn spec_op8(s: ChipView, n: u8, x: int, y: int) -> ChipView {
    let vx = s.v[x];
    let vy = s.v[y];
    let v1 = if n == 0x0 {
        s.v.update(x, vy)
    } else if n == 0x1 {
        s.v.update(x, vx | vy)
    } else if n == 0x2 {
        s.v.update(x, vx & vy)
    } else if n == 0x3 {
        s.v.update(x, vx ^ vy)
    } else if n == 0x4 {
        s.v.update(x, wrap_add8(vx, vy)).update(15, if vx + vy > 255 { 1u8 } else { 0u8 })
    } else if n == 0x5 {
        s.v.update(x, wrap_sub8(vx, vy)).update(15, if vx >= vy { 1u8 } else { 0u8 })
    } else if n == 0x6 {
        let v0 = s.v.update(15, (vx % 2) as u8);
        v0.update(x, v0[x] / 2)
    } else if n == 0x7 {
        s.v.update(x, wrap_sub8(vy, vx)).update(15, if vy >= vx { 1u8 } else { 0u8 })
    } else if n == 0xE {
        let v0 = s.v.update(15, vx / 128);
        v0.update(x, ((v0[x] * 2) % 256) as u8)
    } else {
        s.v
    };
    bump_pc(ChipView { v: v1, ..s }, 2)
}

/// Family 0xA: load the index register.
pub open spec fn spec_ldi(s: ChipView, constant: u16) -> ChipView {
    bump_pc(ChipView { i_reg: constant, ..s }, 2)
}

/// Family 0xD: XOR-blit an `n`-row sprite read from memory at the index
/// register, register 15 becoming the collision flag. Register 15 is zeroed
/// before the origin registers are read, and the whole instruction faults,
/// leaving the state untouched, when the sprite bytes reach past memory.
pub open spec fn spec_draw(s: ChipView, x: int, y: int, n: u8) -> Result<ChipView, Fault> {
    if s.i_reg + n > 4096 {
        Err(Fault::AddressOutOfRange)
    } else {
        let zeroed = s.v.update(15, 0u8);
        let vx = zeroed[x] as int;
        let vy = zeroed[y] as int;
        let i = s.i_reg as int;
        let hit = draw_collision(s.gfx, s.mem, i, vx, vy, n as int);
        Ok(
            bump_pc(
                ChipView {
                    gfx: draw_gfx(s.gfx, s.mem, i, vx, vy, n as int),
                    v: zeroed.update(15, if hit { 1u8 } else { 0u8 }),
                    ..s
                },
                2,
            ),
        )
    }
}

/// Family 0xE: skip on the state of the key named by a register; a register
/// value outside the sixteen keys is an out-of-range fault.
pub open spec fn spec_ope(s: ChipView, x: int, nn: u8) -> Result<ChipView, Fault> {
    if nn == 0x9E || nn == 0xA1 {
        if s.v[x] >= 16 {
            Err(Fault::AddressOutOfRange)
        } else {
            let pressed = s.keys[s.v[x] as int];
            Ok(bump_pc(s, if pressed == (nn == 0x9E) { 4 } else { 2 }))
        }
    } else {
        Ok(bump_pc(s, 2))
    }
}

/// Family 0xF: timers, the blocking key wait, index arithmetic, the font
/// lookup, the decimal split, and the register file block transfers
/// (inclusive of register `x`). Memory accesses past the top of memory are
/// faults; an unknown sub-opcode is a no-op skip.
pub open spec fn spec_opf(s: ChipView, x: int, nn: u8) -> Result<ChipView, Fault> {
    let vx = s.v[x];
    let i = s.i_reg as int;
    if nn == 0x07 {
        Ok(bump_pc(ChipView { v: s.v.update(x, s.delay), ..s }, 2))
    } else if nn == 0x0A {
        match first_pressed(s.keys, 0) {
            Some(k) => Ok(bump_pc(ChipView { v: s.v.update(x, k), ..s }, 2)),
            None => Ok(s),
        }
    } else if nn == 0x15 {
        Ok(bump_pc(ChipView { delay: vx, ..s }, 2))
    } else if nn == 0x18 {
        Ok(bump_pc(ChipView { sound: vx, ..s }, 2))
    } else if nn == 0x1E {
        let sum = s.i_reg + vx;
        Ok(
            bump_pc(
                ChipView {
                    i_reg: (sum % 0x10000) as u16,
                    v: s.v.update(15, if sum > 0xFFFF { 1u8 } else { 0u8 }),
                    ..s
                },
                2,
            ),
        )
    } else if nn == 0x29 {
        Ok(bump_pc(ChipView { i_reg: (vx * 5) as u16, ..s }, 2))
    } else if nn == 0x33 {
        if i + 2 >= 4096 {
            Err(Fault::AddressOutOfRange)
        } else {
            Ok(
                bump_pc(
                    ChipView {
                        mem: s.mem.update(i, vx / 100).update(i + 1, (vx / 10) % 10).update(
                            i + 2,
                            vx % 10,
                        ),
                        ..s
                    },
                    2,
                ),
            )
        }
    } else if nn == 0x55 {
        if i + x >= 4096 {
            Err(Fault::AddressOutOfRange)
        } else {
            Ok(
                bump_pc(
                    ChipView {
                        mem: Seq::new(
                            4096,
                            |j: int| if i <= j <= i + x { s.v[j - i] } else { s.mem[j] },
                        ),
                        ..s
                    },
                    2,
                ),
            )
        }
    } else if nn == 0x65 {
        if i + x >= 4096 {
            Err(Fault::AddressOutOfRange)
        } else {
            Ok(
                bump_pc(
                    ChipView {
                        v: Seq::new(16, |k: int| if k <= x { s.mem[i + k] } else { s.v[k] }),
                        ..s
                    },
                    2,
                ),
            )
        }
    } else {
        Ok(bump_pc(s, 2))
    }
}

/// Loading a program image: the bytes land verbatim from the load origin
/// 0x200 upward; an image that would reach past the top of memory is
/// rejected whole.
pub open spec fn spec_load(s: ChipView, data: Seq<u8>) -> Result<ChipView, Fault> {
    if data.len() + 0x200 > 4096 {
        Err(Fault::OversizeProgram)
    } else {
        Ok(
            ChipView {
                mem: Seq::new(
                    4096,
                    |j: int|
                        if 0x200 <= j < 0x200 + data.len() {
                            data[j - 0x200]
                        } else {
                            s.mem[j]
                        },
                ),
                ..s
            },
        )
    }
}

// ---------------------------------------------------------------------------
// The cycle
// ---------------------------------------------------------------------------

/// Execute one decoded instruction word. `rb` is the byte the random source
/// produced for this cycle; only family 0xC reads it.
pub open spec fn spec_exec(s: ChipView, w: u16, rb: u8) -> Result<ChipView, Fault> {
    let fam = op_family(w);
    if fam == 0x0 {
        spec_op0(s, op_nn(w))
    } else if fam == 0x1 {
        Ok(spec_jump(s, op_nnn(w)))
    } else if fam == 0x2 {
        spec_call(s, op_nnn(w))
    } else if fam == 0x3 {
        Ok(spec_se(s, s.v[op_x(w)], op_nn(w)))
    } else if fam == 0x4 {
        Ok(spec_sne(s, s.v[op_x(w)], op_nn(w)))
    } else if fam == 0x5 {
        Ok(spec_se(s, s.v[op_x(w)], s.v[op_y(w)]))
    } else if fam == 0x6 {
        Ok(spec_ld(s, op_x(w), op_nn(w)))
    } else if fam == 0x7 {
        Ok(spec_add(s, op_x(w), op_nn(w)))
    } else if fam == 0x8 {
        Ok(spec_op8(s, op_n(w), op_x(w), op_y(w)))
    } else if fam == 0x9 {
        Ok(spec_sne(s, s.v[op_x(w)], s.v[op_y(w)]))
    } else if fam == 0xA {
        Ok(spec_ldi(s, op_nnn(w)))
    } else if fam == 0xB {
        Ok(spec_jump(s, (op_nnn(w) + s.v[0]) as u16))
    } else if fam == 0xC {
        Ok(spec_ld(s, op_x(w), rb & op_nn(w)))
    } else if fam == 0xD {
        spec_draw(s, op_x(w), op_y(w), op_n(w))
    } else if fam == 0xE {
        spec_ope(s, op_x(w), op_nn(w))
    } else {
        spec_opf(s, op_x(w), op_nn(w))
    }
}

/// One full cycle: fault unless both fetch bytes lie in memory, else fetch,
/// decode, execute, and tick both timers. A fault leaves the state as it was.
pub open spec fn spec_cycle(s: ChipView, rb: u8) -> Result<ChipView, Fault> {
    if s.pc + 1 >= 4096 {
        Err(Fault::AddressOutOfRange)
    } else {
        match spec_exec(s, fetched(s), rb) {
            Ok(s1) => Ok(tick(s1)),
            Err(f) => Err(f),
        }
    }
}

/// How an executable step with outcome `r` and final state `post` must relate
/// to a specified transition `out` from state `pre`.
pub open spec fn obeys(
    pre: ChipView,
    post: ChipView,
    r: Result<(), Fault>,
    out: Result<ChipView, Fault>,
) -> bool {
    match out {
        Ok(s2) => r == Ok::<(), Fault>(()) && post == s2,
        Err(f) => r == Err::<(), Fault>(f) && post == pre,
    }
}

/// What one executable cycle driven by random byte `rb` must do.
pub open spec fn cycle_outcome(pre: ChipView, rb: u8, post: ChipView, r: Result<(), Fault>) -> bool {
    obeys(pre, post, r, spec_cycle(pre, rb))
}

// ---------------------------------------------------------------------------
// The initial state
// ---------------------------------------------------------------------------

/// The built-in font: sixteen glyphs of five row bytes each, digits 0-9 then
/// A-F, stored from address 0.
pub open spec fn font() -> Seq<u8> {
    seq![
        0xF0u8, 0x90, 0x90, 0x90, 0xF0, // 0
        0x20, 0x60, 0x20, 0x20, 0x70, // 1
        0xF0, 0x10, 0xF0, 0x80, 0xF0, // 2
        0xF0, 0x10, 0xF0, 0x10, 0xF0, // 3
        0x90, 0x90, 0xF0, 0x10, 0x10, // 4
        0xF0, 0x80, 0xF0, 0x10, 0xF0, // 5
        0xF0, 0x80, 0xF0, 0x90, 0xF0, // 6
        0xF0, 0x10, 0x20, 0x40, 0x40, // 7
        0xF0, 0x90, 0xF0, 0x90, 0xF0, // 8
        0xF0, 0x90, 0xF0, 0x10, 0xF0, // 9
        0xF0, 0x90, 0xF0, 0x90, 0x90, // A
        0xE0, 0x90, 0xE0, 0x90, 0xE0, // B
        0xF0, 0x80, 0x80, 0x80, 0xF0, // C
        0xE0, 0x90, 0x90, 0x90, 0xE0, // D
        0xF0, 0x80, 0xF0, 0x80, 0xF0, // E
        0xF0, 0x80, 0xF0, 0x80, 0x80, // F
    ]
}

/// The machine at construction: font in low memory, all else zeroed, the
/// program counter at the load origin.
pub open spec fn spec_init() -> ChipView {
    ChipView {
        mem: Seq::new(4096, |k: int| if k < 80 { font()[k] } else { 0u8 }),
        v: Seq::new(16, |k: int| 0u8),
        stack: Seq::new(16, |k: int| 0u16),
        gfx: Seq::new(2048, |k: int| false),
        keys: Seq::new(16, |k: int| false),
        pc: 0x200,
        sp: 0,
        i_reg: 0,
        delay: 0,
        sound: 0,
    }
}

} // verus!
