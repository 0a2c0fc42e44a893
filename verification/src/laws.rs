//! Machine-wide properties of the instruction semantics, each proved once
//! and for all states the model allows.

use vstd::prelude::*;

use vstd::arithmetic::div_mod::lemma_fundamental_div_mod_converse_div;
use vstd::arithmetic::div_mod::lemma_fundamental_div_mod_converse_mod;
use vstd::arithmetic::div_mod::lemma_small_mod;

use crate::semantics::ChipView;
use crate::semantics::dec_timer;
use crate::semantics::draw_gfx;
use crate::semantics::fetched;
use crate::semantics::lemma_wrap_round_trip;
use crate::semantics::op_family;
use crate::semantics::op_nn;
use crate::semantics::op_nnn;
use crate::semantics::spec_cycle;
use crate::semantics::spec_op8;
use crate::semantics::sprite_row_bit;
use crate::semantics::wrap_back;

verus! {

/// The add instruction of family 0x8 (sub-opcode 0x4) leaves register 15 at 1
/// exactly when the byte addition of the two operands overflows 255.
pub proof fn lemma_add_carry_flag(s: ChipView, x: int, y: int)
    requires
        s.wf(),
        0 <= x < 16,
        0 <= y < 16,
    ensures
        spec_op8(s, 0x4, x, y).v[15] == (
        if s.v[x] + s.v[y] > 255 {
            1u8
        } else {
            0u8
        }),
{
}

/// The subtract instruction of family 0x8 (sub-opcode 0x5) leaves register 15
/// at 1 exactly when no borrow occurs, that is when the minuend is at least
/// the subtrahend.
pub proof fn lemma_sub_no_borrow_flag(s: ChipView, x: int, y: int)
    requires
        s.wf(),
        0 <= x < 16,
        0 <= y < 16,
    ensures
        spec_op8(s, 0x5, x, y).v[15] == (
        if s.v[x] >= s.v[y] {
            1u8
        } else {
            0u8
        }),
{
}

/// Drawing the identical sprite at the identical origin twice in succession
/// restores the framebuffer exactly: XOR compositing is its own inverse.
pub proof fn lemma_draw_involution(
    gfx: Seq<bool>,
    mem: Seq<u8>,
    i: int,
    vx: int,
    vy: int,
    rows: int,
)
    requires
        gfx.len() == 2048,
    ensures
        draw_gfx(draw_gfx(gfx, mem, i, vx, vy, rows), mem, i, vx, vy, rows) == gfx,
{
    assert(draw_gfx(draw_gfx(gfx, mem, i, vx, vy, rows), mem, i, vx, vy, rows) =~= gfx);
}

/// Horizontal wraparound: a sprite drawn with origin `(63, 0)` puts its
/// second pixel column (bit 1 of each row byte) at `x == 0`, not off-grid.
pub proof fn lemma_draw_wraps_horizontal(gfx: Seq<bool>, mem: Seq<u8>, i: int, n: int, r: int)
    requires
        gfx.len() == 2048,
        0 <= r < n <= 15,
    ensures
        draw_gfx(gfx, mem, i, 63, 0, n)[r * 64] == (gfx[r * 64] ^ sprite_row_bit(mem[i + r], 1)),
{
    let pi = r * 64;
    lemma_fundamental_div_mod_converse_div(pi, 64, r, 0);
    lemma_fundamental_div_mod_converse_mod(pi, 64, r, 0);
    lemma_wrap_round_trip(0, r, 32);
    lemma_small_mod(r as nat, 32nat);
    assert(wrap_back(0, r, 32) == r);
    assert(wrap_back(63, 0, 64) == 1);
}

/// Vertical wraparound: a sprite drawn with origin `(0, 31)` puts its second
/// row (the byte at one past the index register) at `y == 0`, not off-grid.
pub proof fn lemma_draw_wraps_vertical(gfx: Seq<bool>, mem: Seq<u8>, i: int, n: int, c: int)
    requires
        gfx.len() == 2048,
        2 <= n <= 15,
        0 <= c < 8,
    ensures
        draw_gfx(gfx, mem, i, 0, 31, n)[c] == (gfx[c] ^ sprite_row_bit(mem[i + 1], c)),
{
    lemma_fundamental_div_mod_converse_div(c, 64, 0, c);
    lemma_fundamental_div_mod_converse_mod(c, 64, 0, c);
    lemma_wrap_round_trip(0, c, 64);
    lemma_small_mod(c as nat, 64nat);
    assert(wrap_back(0, c, 64) == c);
    assert(wrap_back(31, 0, 32) == 1);
}

/// A jump instruction (family 0x1) sets the program counter to its operand
/// exactly, with no extra increment.
pub proof fn lemma_jump_exact(s: ChipView, rb: u8)
    requires
        s.wf(),
        s.pc + 1 < 4096,
        op_family(fetched(s)) == 0x1,
    ensures
        spec_cycle(s, rb) is Ok,
        spec_cycle(s, rb)->Ok_0.pc == op_nnn(fetched(s)),
{
}

/// A call followed immediately by a return lands the program counter on the
/// address just past the call, with the stack pointer back where it started.
pub proof fn lemma_call_return_round_trip(s: ChipView, rb1: u8, rb2: u8)
    requires
        s.wf(),
        s.pc + 1 < 4096,
        op_family(fetched(s)) == 0x2,
        s.sp < 16,
        op_nnn(fetched(s)) + 1 < 4096,
        s.mem[op_nnn(fetched(s)) as int] == 0x00,
        s.mem[op_nnn(fetched(s)) as int + 1] == 0xEE,
    ensures
        spec_cycle(s, rb1) is Ok,
        spec_cycle(spec_cycle(s, rb1)->Ok_0, rb2) is Ok,
        spec_cycle(spec_cycle(s, rb1)->Ok_0, rb2)->Ok_0.pc == s.pc + 2,
        spec_cycle(spec_cycle(s, rb1)->Ok_0, rb2)->Ok_0.sp == s.sp,
{
    let s1 = spec_cycle(s, rb1)->Ok_0;
    assert(s1.pc == op_nnn(fetched(s)));
    assert(s1.sp == s.sp + 1);
    assert(s1.stack[s.sp as int] == s.pc);
    assert(fetched(s1) == 0x00EE);
}

/// Each timer counts down by one per cycle while nonzero and floors at zero,
/// for every cycle whose instruction does not itself set that timer.
pub proof fn lemma_timer_countdown(s: ChipView, rb: u8)
    requires
        s.wf(),
        spec_cycle(s, rb) is Ok,
        !(op_family(fetched(s)) == 0xF && op_nn(fetched(s)) == 0x15),
        !(op_family(fetched(s)) == 0xF && op_nn(fetched(s)) == 0x18),
    ensures
        spec_cycle(s, rb)->Ok_0.delay == dec_timer(s.delay),
        spec_cycle(s, rb)->Ok_0.sound == dec_timer(s.sound),
{
}

} // verus!
