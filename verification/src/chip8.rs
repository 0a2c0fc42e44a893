//! The executable machine, verified against the model in [`crate::semantics`].

use vstd::prelude::*;

use crate::semantics::ChipView;
use crate::semantics::Fault;
use crate::semantics::font;
use crate::semantics::obeys;
use crate::semantics::spec_add;
use crate::semantics::spec_call;
use crate::semantics::spec_init;
use crate::semantics::spec_jump;
use crate::semantics::spec_ld;
use crate::semantics::spec_ldi;
use crate::semantics::spec_load;
use crate::semantics::collision_upto;
use crate::semantics::covers_upto;
use crate::semantics::cycle_outcome;
use crate::semantics::fetched;
use crate::semantics::first_pressed;
use crate::semantics::lemma_draw_cell;
use crate::semantics::lemma_draw_row_edge;
use crate::semantics::lemma_draw_start;
use crate::semantics::spec_draw;
use crate::semantics::spec_op0;
use crate::semantics::spec_op8;
use crate::semantics::spec_ope;
use crate::semantics::spec_opf;
use crate::semantics::spec_se;
use crate::semantics::spec_sne;

verus! {

/// The machine state: memory, registers, return stack, framebuffer, input
/// latch, timers, and the presentation scale the surrounding program may
/// carry along. All containers keep their hardware size (see
/// [`ChipView::wf`]); the view maps each onto the abstract state.
pub struct Chip8 {
    pub screen_scale: u32,
    gfx: Vec<bool>,
    key_pressed: Vec<bool>,
    memory: Vec<u8>,
    v: Vec<u8>,
    stack: Vec<u16>,
    pc: u16,
    sp: u8,
    i_reg: u16,
    delay_timer: u8,
    sound_timer: u8,
}

impl View for Chip8 {
    type V = ChipView;

    closed spec fn view(&self) -> ChipView {
        ChipView {
            mem: self.memory@,
            v: self.v@,
            stack: self.stack@,
            gfx: self.gfx@,
            keys: self.key_pressed@,
            pc: self.pc,
            sp: self.sp,
            i_reg: self.i_reg,
            delay: self.delay_timer,
            sound: self.sound_timer,
        }
    }
}

impl Chip8 {
    pub const SCREEN_WIDTH: usize = 64;

    pub const SCREEN_HEIGHT: usize = 32;

    /// The machine is well formed exactly when its abstract state is.
    pub open spec fn wf(&self) -> bool {
        self@.wf()
    }

    /// The presentation scale, visible to specifications.
    pub closed spec fn spec_screen_scale(&self) -> u32 {
        self.screen_scale
    }

    /// Write the sixteen five-byte font glyphs into low memory.
    pub fn load_hex_digits(memory: Vec<u8>) -> (r: Vec<u8>)
        requires
            memory@.len() == 4096,
        ensures
            r@.len() == 4096,
            forall|k: int| 0 <= k < 80 ==> r@[k] == font()[k],
            forall|k: int| 80 <= k < 4096 ==> r@[k] == memory@[k],
    {
        let mut memory = memory;
        memory.set(0, 0xF0);
        memory.set(1, 0x90);
        memory.set(2, 0x90);
        memory.set(3, 0x90);
        memory.set(4, 0xF0);
        memory.set(5, 0x20);
        memory.set(6, 0x60);
        memory.set(7, 0x20);
        memory.set(8, 0x20);
        memory.set(9, 0x70);
        memory.set(10, 0xF0);
        memory.set(11, 0x10);
        memory.set(12, 0xF0);
        memory.set(13, 0x80);
        memory.set(14, 0xF0);
        memory.set(15, 0xF0);
        memory.set(16, 0x10);
        memory.set(17, 0xF0);
        memory.set(18, 0x10);
        memory.set(19, 0xF0);
        memory.set(20, 0x90);
        memory.set(21, 0x90);
        memory.set(22, 0xF0);
        memory.set(23, 0x10);
        memory.set(24, 0x10);
        memory.set(25, 0xF0);
        memory.set(26, 0x80);
        memory.set(27, 0xF0);
        memory.set(28, 0x10);
        memory.set(29, 0xF0);
        memory.set(30, 0xF0);
        memory.set(31, 0x80);
        memory.set(32, 0xF0);
        memory.set(33, 0x90);
        memory.set(34, 0xF0);
        memory.set(35, 0xF0);
        memory.set(36, 0x10);
        memory.set(37, 0x20);
        memory.set(38, 0x40);
        memory.set(39, 0x40);
        memory.set(40, 0xF0);
        memory.set(41, 0x90);
        memory.set(42, 0xF0);
        memory.set(43, 0x90);
        memory.set(44, 0xF0);
        memory.set(45, 0xF0);
        memory.set(46, 0x90);
        memory.set(47, 0xF0);
        memory.set(48, 0x10);
        memory.set(49, 0xF0);
        memory.set(50, 0xF0);
        memory.set(51, 0x90);
        memory.set(52, 0xF0);
        memory.set(53, 0x90);
        memory.set(54, 0x90);
        memory.set(55, 0xE0);
        memory.set(56, 0x90);
        memory.set(57, 0xE0);
        memory.set(58, 0x90);
        memory.set(59, 0xE0);
        memory.set(60, 0xF0);
        memory.set(61, 0x80);
        memory.set(62, 0x80);
        memory.set(63, 0x80);
        memory.set(64, 0xF0);
        memory.set(65, 0xE0);
        memory.set(66, 0x90);
        memory.set(67, 0x90);
        memory.set(68, 0x90);
        memory.set(69, 0xE0);
        memory.set(70, 0xF0);
        memory.set(71, 0x80);
        memory.set(72, 0xF0);
        memory.set(73, 0x80);
        memory.set(74, 0xF0);
        memory.set(75, 0xF0);
        memory.set(76, 0x80);
        memory.set(77, 0xF0);
        memory.set(78, 0x80);
        memory.set(79, 0x80);
        memory
    }

    /// A fresh machine: font loaded, everything else zeroed, the program
    /// counter at the load origin.
    pub fn new() -> (chip: Chip8)
        ensures
            chip.wf(),
            chip@ == spec_init(),
            chip.spec_screen_scale() == 1,
    {
        let memory: Vec<u8> = vec![0u8; 4096];
        let memory = Chip8::load_hex_digits(memory);
        let chip = Chip8 {
            gfx: vec![false; 2048],
            key_pressed: vec![false; 16],
            memory,
            v: vec![0u8; 16],
            stack: vec![0u16; 16],
            i_reg: 0,
            pc: 0x200,
            sp: 0,
            delay_timer: 0,
            sound_timer: 0,
            screen_scale: 1,
        };
        proof {
            assert(chip@.mem =~= spec_init().mem);
            assert(chip@.v =~= spec_init().v);
            assert(chip@.stack =~= spec_init().stack);
            assert(chip@.gfx =~= spec_init().gfx);
            assert(chip@.keys =~= spec_init().keys);
            assert(chip@ =~= spec_init());
        }
        chip
    }

    /// Copy a program image into memory from the load origin upward; an
    /// image that would reach past the top of memory is rejected whole and
    /// the machine is left untouched.
    pub fn load_into_memory(&mut self, data: Vec<u8>) -> (r: Result<(), Fault>)
        requires
            old(self).wf(),
        ensures
            final(self).wf(),
            obeys(old(self)@, final(self)@, r, spec_load(old(self)@, data@)),
            final(self).spec_screen_scale() == old(self).spec_screen_scale(),
    {
        if data.len() > 4096 - 0x200 {
            return Err(Fault::OversizeProgram);
        }
        let mut k: usize = 0;
        while k < data.len()
            invariant
                self@ == (ChipView { mem: self@.mem, ..old(self)@ }),
                self.spec_screen_scale() == old(self).spec_screen_scale(),
                self@.mem.len() == 4096,
                k <= data@.len(),
                data@.len() <= 3584,
                forall|j: int| 0x200 <= j < 0x200 + k ==> self@.mem[j] == data@[j - 0x200],
                forall|j: int|
                    (0 <= j < 0x200 || 0x200 + k <= j < 4096) ==> self@.mem[j] == old(
                        self,
                    )@.mem[j],
            decreases data@.len() - k,
        {
            let byte = data[k];
            self.memory.set(0x200 + k, byte);
            k = k + 1;
        }
        proof {
            let out = spec_load(old(self)@, data@)->Ok_0;
            assert(self@.mem =~= out.mem);
            assert(self@ =~= out);
        }
        Ok(())
    }

    /// Family 0x0: clear the screen, return from a subroutine, or skip.
    pub fn opcode0(&mut self, subcode: u8) -> (r: Result<(), Fault>)
        requires
            old(self).wf(),
            old(self)@.pc <= 0xFFFD,
        ensures
            final(self).wf(),
            obeys(old(self)@, final(self)@, r, spec_op0(old(self)@, subcode)),
            final(self).spec_screen_scale() == old(self).spec_screen_scale(),
    {
        if subcode == 0xE0 {
            self.gfx = vec![false; 2048];
            self.pc = self.pc + 2;
            proof {
                assert(self@.gfx =~= spec_op0(old(self)@, subcode)->Ok_0.gfx);
                assert(self@ =~= spec_op0(old(self)@, subcode)->Ok_0);
            }
        } else if subcode == 0xEE {
            if self.sp == 0 {
                return Err(Fault::StackUnderflow);
            }
            self.sp = self.sp - 1;
            let addr = self.stack[self.sp as usize];
            self.pc = addr + 2;
        } else {
            self.pc = self.pc + 2;
        }
        Ok(())
    }

    /// Families 0x1 and 0xB: set the program counter directly.
    pub fn jump(&mut self, location: u16)
        requires
            old(self).wf(),
        ensures
            final(self).wf(),
            final(self)@ == spec_jump(old(self)@, location),
            final(self).spec_screen_scale() == old(self).spec_screen_scale(),
    {
        self.pc = location;
    }

    /// Family 0x2: push the address of the call itself, then jump.
    pub fn call(&mut self, location: u16) -> (r: Result<(), Fault>)
        requires
            old(self).wf(),
            old(self)@.pc <= 0xFFFD,
        ensures
            final(self).wf(),
            obeys(old(self)@, final(self)@, r, spec_call(old(self)@, location)),
            final(self).spec_screen_scale() == old(self).spec_screen_scale(),
    {
        if self.sp >= 16 {
            return Err(Fault::StackOverflow);
        }
        self.stack.set(self.sp as usize, self.pc);
        self.sp = self.sp + 1;
        self.pc = location;
        Ok(())
    }

    /// Skip the next instruction when the two bytes are equal.
    pub fn se(&mut self, x: u8, y: u8)
        requires
            old(self).wf(),
            old(self)@.pc <= 0xFFFB,
        ensures
            final(self).wf(),
            final(self)@ == spec_se(old(self)@, x, y),
            final(self).spec_screen_scale() == old(self).spec_screen_scale(),
    {
        self.pc = self.pc + if x == y { 4 } else { 2 };
    }

    /// Skip the next instruction when the two bytes differ.
    pub fn sne(&mut self, x: u8, y: u8)
        requires
            old(self).wf(),
            old(self)@.pc <= 0xFFFB,
        ensures
            final(self).wf(),
            final(self)@ == spec_sne(old(self)@, x, y),
            final(self).spec_screen_scale() == old(self).spec_screen_scale(),
    {
        self.pc = self.pc + if x != y { 4 } else { 2 };
    }

    /// Family 0x6: load a constant into a register.
    pub fn ld(&mut self, register_number: usize, constant: u8)
        requires
            old(self).wf(),
            register_number < 16,
            old(self)@.pc <= 0xFFFD,
        ensures
            final(self).wf(),
            final(self)@ == spec_ld(old(self)@, register_number as int, constant),
            final(self).spec_screen_scale() == old(self).spec_screen_scale(),
    {
        self.v.set(register_number, constant);
        self.pc = self.pc + 2;
    }

    /// Family 0x7: add a constant to a register, wrapping, with no flag.
    pub fn add(&mut self, register_number: usize, constant: u8)
        requires
            old(self).wf(),
            register_number < 16,
            old(self)@.pc <= 0xFFFD,
        ensures
            final(self).wf(),
            final(self)@ == spec_add(old(self)@, register_number as int, constant),
            final(self).spec_screen_scale() == old(self).spec_screen_scale(),
    {
        let sum = self.v[register_number] as u16 + constant as u16;
        self.v.set(register_number, (sum % 256) as u8);
        self.pc = self.pc + 2;
    }

    /// Family 0x8: moves, bitwise operations, wrapping arithmetic with the
    /// carry and borrow flags, and the two shifts.
    pub fn opcode8(&mut self, subcode: u8, x: usize, y: usize)
        requires
            old(self).wf(),
            x < 16,
            y < 16,
            old(self)@.pc <= 0xFFFD,
        ensures
            final(self).wf(),
            final(self)@ == spec_op8(old(self)@, subcode, x as int, y as int),
            final(self).spec_screen_scale() == old(self).spec_screen_scale(),
    {
        let vx = self.v[x];
        let vy = self.v[y];
        if subcode == 0x0 {
            self.v.set(x, vy);
        } else if subcode == 0x1 {
            self.v.set(x, vx | vy);
        } else if subcode == 0x2 {
            self.v.set(x, vx & vy);
        } else if subcode == 0x3 {
            self.v.set(x, vx ^ vy);
        } else if subcode == 0x4 {
            let sum = vx as u16 + vy as u16;
            self.v.set(x, (sum % 256) as u8);
            self.v.set(15, if sum > 255 { 1 } else { 0 });
        } else if subcode == 0x5 {
            if vx >= vy {
                self.v.set(x, vx - vy);
                self.v.set(15, 1);
            } else {
                self.v.set(x, (256 + vx as u16 - vy as u16) as u8);
                self.v.set(15, 0);
            }
        } else if subcode == 0x6 {
            self.v.set(15, vx % 2);
            let cur = self.v[x];
            self.v.set(x, cur / 2);
        } else if subcode == 0x7 {
            if vy >= vx {
                self.v.set(x, vy - vx);
                self.v.set(15, 1);
            } else {
                self.v.set(x, (256 + vy as u16 - vx as u16) as u8);
                self.v.set(15, 0);
            }
        } else if subcode == 0xE {
            self.v.set(15, vx / 128);
            let cur = self.v[x];
            self.v.set(x, ((cur as u16 * 2) % 256) as u8);
        }
        self.pc = self.pc + 2;
    }

    /// Family 0xA: load the index register.
    pub fn ldi(&mut self, constant: u16)
        requires
            old(self).wf(),
            old(self)@.pc <= 0xFFFD,
        ensures
            final(self).wf(),
            final(self)@ == spec_ldi(old(self)@, constant),
            final(self).spec_screen_scale() == old(self).spec_screen_scale(),
    {
        self.i_reg = constant;
        self.pc = self.pc + 2;
    }

    /// Family 0xD: XOR-blit an `n`-row sprite read from memory at the index
    /// register onto the framebuffer, both axes wrapping, register 15
    /// becoming the collision flag.
    pub fn display_sprite(&mut self, x: usize, y: usize, n: usize) -> (r: Result<(), Fault>)
        requires
            old(self).wf(),
            x < 16,
            y < 16,
            n <= 15,
            old(self)@.pc <= 0xFFFD,
        ensures
            final(self).wf(),
            obeys(old(self)@, final(self)@, r, spec_draw(old(self)@, x as int, y as int, n as u8)),
            final(self).spec_screen_scale() == old(self).spec_screen_scale(),
    {
        let base = self.i_reg as usize;
        if base + n > 4096 {
            return Err(Fault::AddressOutOfRange);
        }
        self.v.set(15, 0);
        let vx = self.v[x] as usize;
        let vy = self.v[y] as usize;
        let ghost g0 = old(self)@.gfx;
        let ghost mem0 = old(self)@.mem;
        proof {
            lemma_draw_start(g0, mem0, base as int, vx as int, vy as int);
        }
        let mut rr: usize = 0;
        while rr < n
            invariant
                old(self).wf(),
                rr <= n,
                n <= 15,
                x < 16,
                y < 16,
                g0 == old(self)@.gfx,
                mem0 == old(self)@.mem,
                base == old(self)@.i_reg,
                base + n <= 4096,
                vx == old(self)@.v.update(15, 0u8)[x as int],
                vy == old(self)@.v.update(15, 0u8)[y as int],
                self@ == (ChipView { gfx: self@.gfx, v: self@.v, ..old(self)@ }),
                self.spec_screen_scale() == old(self).spec_screen_scale(),
                self@.gfx.len() == 2048,
                self@.v.len() == 16,
                self@.gfx == Seq::new(
                    2048,
                    |pi: int|
                        g0[pi] ^ covers_upto(mem0, base as int, vx as int, vy as int, rr as int, 0, pi),
                ),
                self@.v == old(self)@.v.update(
                    15,
                    if collision_upto(g0, mem0, base as int, vx as int, vy as int, rr as int, 0) {
                        1u8
                    } else {
                        0u8
                    },
                ),
            decreases n - rr,
        {
            let byte = self.memory[base + rr];
            let mut cc: usize = 0;
            while cc < 8
                invariant
                    old(self).wf(),
                    rr < n,
                    cc <= 8,
                    n <= 15,
                    x < 16,
                    y < 16,
                    g0 == old(self)@.gfx,
                    mem0 == old(self)@.mem,
                    base == old(self)@.i_reg,
                    base + n <= 4096,
                    vx == old(self)@.v.update(15, 0u8)[x as int],
                    vy == old(self)@.v.update(15, 0u8)[y as int],
                    byte == mem0[base + rr],
                    self@ == (ChipView { gfx: self@.gfx, v: self@.v, ..old(self)@ }),
                    self.spec_screen_scale() == old(self).spec_screen_scale(),
                    self@.gfx.len() == 2048,
                    self@.v.len() == 16,
                    self@.gfx == Seq::new(
                        2048,
                        |pi: int|
                            g0[pi] ^ covers_upto(
                                mem0,
                                base as int,
                                vx as int,
                                vy as int,
                                rr as int,
                                cc as int,
                                pi,
                            ),
                    ),
                    self@.v == old(self)@.v.update(
                        15,
                        if collision_upto(
                            g0,
                            mem0,
                            base as int,
                            vx as int,
                            vy as int,
                            rr as int,
                            cc as int,
                        ) {
                            1u8
                        } else {
                            0u8
                        },
                    ),
                decreases 8 - cc,
            {
                proof {
                    lemma_draw_cell(g0, mem0, base as int, vx as int, vy as int, rr as int, cc as int);
                }
                let sh: u8 = (7 - cc) as u8;
                let bit_set = ((byte >> sh) & 1) == 1;
                if bit_set {
                    let px: usize = (vx + cc) % 64;
                    let py: usize = (vy + rr) % 32;
                    let t: usize = py * 64 + px;
                    let cur = self.gfx[t];
                    if cur {
                        self.v.set(15, 1);
                        proof {
                            assert(self@.v =~= old(self)@.v.update(15, 1u8));
                        }
                    }
                    self.gfx.set(t, !cur);
                    proof {
                        assert(self@.gfx =~= Seq::new(
                            2048,
                            |pi: int|
                                g0[pi] ^ covers_upto(
                                    mem0,
                                    base as int,
                                    vx as int,
                                    vy as int,
                                    rr as int,
                                    cc + 1,
                                    pi,
                                ),
                        ));
                    }
                } else {
                    proof {
                        assert(self@.gfx =~= Seq::new(
                            2048,
                            |pi: int|
                                g0[pi] ^ covers_upto(
                                    mem0,
                                    base as int,
                                    vx as int,
                                    vy as int,
                                    rr as int,
                                    cc + 1,
                                    pi,
                                ),
                        ));
                    }
                }
                cc = cc + 1;
            }
            proof {
                lemma_draw_row_edge(g0, mem0, base as int, vx as int, vy as int, rr as int);
                assert(self@.gfx =~= Seq::new(
                    2048,
                    |pi: int|
                        g0[pi] ^ covers_upto(
                            mem0,
                            base as int,
                            vx as int,
                            vy as int,
                            rr + 1,
                            0,
                            pi,
                        ),
                ));
            }
            rr = rr + 1;
        }
        self.pc = self.pc + 2;
        proof {
            let out = spec_draw(old(self)@, x as int, y as int, n as u8)->Ok_0;
            assert(self@.gfx =~= out.gfx);
            assert(self@.v =~= out.v);
            assert(self@ =~= out);
        }
        Ok(())
    }

    /// Family 0xE: skip on the state of the key named by a register.
    pub fn opcodee(&mut self, x: usize, nn: u8) -> (r: Result<(), Fault>)
        requires
            old(self).wf(),
            x < 16,
            old(self)@.pc <= 0xFFFB,
        ensures
            final(self).wf(),
            obeys(old(self)@, final(self)@, r, spec_ope(old(self)@, x as int, nn)),
            final(self).spec_screen_scale() == old(self).spec_screen_scale(),
    {
        if nn == 0x9E || nn == 0xA1 {
            let reg = self.v[x];
            if reg >= 16 {
                return Err(Fault::AddressOutOfRange);
            }
            let pressed = self.key_pressed[reg as usize];
            self.pc = self.pc + if pressed == (nn == 0x9E) { 4 } else { 2 };
        } else {
            self.pc = self.pc + 2;
        }
        Ok(())
    }

    /// One fetch-decode-execute cycle driven by the given random byte (only
    /// family 0xC reads it), followed by the timer tick. A fault leaves the
    /// machine exactly as it was.
    pub fn cycle_with(&mut self, rand_byte: u8) -> (r: Result<(), Fault>)
        requires
            old(self).wf(),
        ensures
            final(self).wf(),
            cycle_outcome(old(self)@, rand_byte, final(self)@, r),
            final(self).spec_screen_scale() == old(self).spec_screen_scale(),
    {
        if self.pc >= 4095 {
            return Err(Fault::AddressOutOfRange);
        }
        let hi = self.memory[self.pc as usize] as u16;
        let lo = self.memory[self.pc as usize + 1] as u16;
        let w = hi * 256 + lo;
        proof {
            assert(w == fetched(old(self)@));
        }
        let nnn = w % 0x1000;
        let nn = (w % 0x100) as u8;
        let n = (w % 0x10) as u8;
        let xi = ((w / 0x100) % 0x10) as usize;
        let yi = ((w / 0x10) % 0x10) as usize;
        let instr = w / 0x1000;
        let r: Result<(), Fault> = if instr == 0x0 {
            self.opcode0(nn)
        } else if instr == 0x1 {
            self.jump(nnn);
            Ok(())
        } else if instr == 0x2 {
            self.call(nnn)
        } else if instr == 0x3 {
            let a = self.v[xi];
            self.se(a, nn);
            Ok(())
        } else if instr == 0x4 {
            let a = self.v[xi];
            self.sne(a, nn);
            Ok(())
        } else if instr == 0x5 {
            let a = self.v[xi];
            let b = self.v[yi];
            self.se(a, b);
            Ok(())
        } else if instr == 0x6 {
            self.ld(xi, nn);
            Ok(())
        } else if instr == 0x7 {
            self.add(xi, nn);
            Ok(())
        } else if instr == 0x8 {
            self.opcode8(n, xi, yi);
            Ok(())
        } else if instr == 0x9 {
            let a = self.v[xi];
            let b = self.v[yi];
            self.sne(a, b);
            Ok(())
        } else if instr == 0xA {
            self.ldi(nnn);
            Ok(())
        } else if instr == 0xB {
            let v0 = self.v[0];
            self.jump(nnn + v0 as u16);
            Ok(())
        } else if instr == 0xC {
            self.ld(xi, rand_byte & nn);
            Ok(())
        } else if instr == 0xD {
            self.display_sprite(xi, yi, n as usize)
        } else if instr == 0xE {
            self.opcodee(xi, nn)
        } else {
            self.opcodef(xi, nn)
        };
        match r {
            Ok(()) => {
                if self.delay_timer > 0 {
                    self.delay_timer = self.delay_timer - 1;
                }
                if self.sound_timer > 0 {
                    self.sound_timer = self.sound_timer - 1;
                }
                Ok(())
            },
            Err(f) => Err(f),
        }
    }

    /// Draws one byte from the process-wide random generator.
    ///
    /// Relies on rand::random: it returns some byte; nothing is assumed of
    /// the value drawn.
    #[verifier::external_body]
    fn random_byte() -> u8 {
        rand::random::<u8>()
    }

    /// One instruction cycle against the current machine state, the random
    /// source supplying the byte that family 0xC masks. Whatever byte came
    /// back, the step follows the specified cycle for that byte.
    pub fn emulate_cycle(&mut self) -> (r: Result<(), Fault>)
        requires
            old(self).wf(),
        ensures
            final(self).wf(),
            exists|rb: u8| cycle_outcome(old(self)@, rb, final(self)@, r),
            final(self).spec_screen_scale() == old(self).spec_screen_scale(),
    {
        let rb = Chip8::random_byte();
        let r = self.cycle_with(rb);
        proof {
            assert(cycle_outcome(old(self)@, rb, self@, r));
        }
        r
    }

    /// The program counter.
    pub fn pc(&self) -> (r: u16)
        ensures
            r == self@.pc,
    {
        self.pc
    }

    /// The stack pointer.
    pub fn sp(&self) -> (r: u8)
        ensures
            r == self@.sp,
    {
        self.sp
    }

    /// The index register.
    pub fn i_reg(&self) -> (r: u16)
        ensures
            r == self@.i_reg,
    {
        self.i_reg
    }

    /// The delay timer's current value.
    pub fn delay_timer(&self) -> (r: u8)
        ensures
            r == self@.delay,
    {
        self.delay_timer
    }

    /// The sound timer's current value.
    pub fn sound_timer(&self) -> (r: u8)
        ensures
            r == self@.sound,
    {
        self.sound_timer
    }

    /// Whether the sound timer asks for sound right now.
    pub fn sound_active(&self) -> (r: bool)
        ensures
            r == (self@.sound > 0),
    {
        self.sound_timer > 0
    }

    /// General register `idx`.
    pub fn v(&self, idx: usize) -> (r: u8)
        requires
            self.wf(),
            idx < 16,
        ensures
            r == self@.v[idx as int],
    {
        self.v[idx]
    }

    /// The byte at memory address `addr`.
    pub fn mem(&self, addr: usize) -> (r: u8)
        requires
            self.wf(),
            addr < 4096,
        ensures
            r == self@.mem[addr as int],
    {
        self.memory[addr]
    }

    /// Return-stack slot `idx`.
    pub fn stack_at(&self, idx: usize) -> (r: u16)
        requires
            self.wf(),
            idx < 16,
        ensures
            r == self@.stack[idx as int],
    {
        self.stack[idx]
    }

    /// The pixel at column `px`, row `py` of the framebuffer.
    pub fn pixel(&self, px: usize, py: usize) -> (r: bool)
        requires
            self.wf(),
            px < 64,
            py < 32,
        ensures
            r == self@.gfx[py * 64 + px],
    {
        self.gfx[py * 64 + px]
    }

    /// A consistent full-grid copy of the framebuffer, row-major.
    pub fn gfx_snapshot(&self) -> (r: Vec<bool>)
        requires
            self.wf(),
        ensures
            r@ == self@.gfx,
    {
        let r = self.gfx.clone();
        proof {
            assert(r@ =~= self@.gfx);
        }
        r
    }

    /// Write one byte of memory.
    pub fn write_mem(&mut self, addr: usize, value: u8)
        requires
            old(self).wf(),
            addr < 4096,
        ensures
            final(self).wf(),
            final(self)@ == (ChipView { mem: old(self)@.mem.update(addr as int, value), ..old(self)@ }),
            final(self).spec_screen_scale() == old(self).spec_screen_scale(),
    {
        self.memory.set(addr, value);
    }

    /// Write one general register.
    pub fn set_v(&mut self, idx: usize, value: u8)
        requires
            old(self).wf(),
            idx < 16,
        ensures
            final(self).wf(),
            final(self)@ == (ChipView { v: old(self)@.v.update(idx as int, value), ..old(self)@ }),
            final(self).spec_screen_scale() == old(self).spec_screen_scale(),
    {
        self.v.set(idx, value);
    }

    /// Set the index register.
    pub fn set_i_reg(&mut self, value: u16)
        requires
            old(self).wf(),
        ensures
            final(self).wf(),
            final(self)@ == (ChipView { i_reg: value, ..old(self)@ }),
            final(self).spec_screen_scale() == old(self).spec_screen_scale(),
    {
        self.i_reg = value;
    }

    /// Set the delay timer.
    pub fn set_delay_timer(&mut self, value: u8)
        requires
            old(self).wf(),
        ensures
            final(self).wf(),
            final(self)@ == (ChipView { delay: value, ..old(self)@ }),
            final(self).spec_screen_scale() == old(self).spec_screen_scale(),
    {
        self.delay_timer = value;
    }

    /// Set the sound timer.
    pub fn set_sound_timer(&mut self, value: u8)
        requires
            old(self).wf(),
        ensures
            final(self).wf(),
            final(self)@ == (ChipView { sound: value, ..old(self)@ }),
            final(self).spec_screen_scale() == old(self).spec_screen_scale(),
    {
        self.sound_timer = value;
    }

    /// Replace the whole sixteen-entry key latch in one exclusive write, as
    /// the input collaborator does once per polling interval.
    pub fn set_key_pressed(&mut self, keys: Vec<bool>)
        requires
            old(self).wf(),
            keys@.len() == 16,
        ensures
            final(self).wf(),
            final(self)@ == (ChipView { keys: keys@, ..old(self)@ }),
            final(self).spec_screen_scale() == old(self).spec_screen_scale(),
    {
        self.key_pressed = keys;
    }

    /// Family 0xF: timers, the blocking key wait, index arithmetic, the font
    /// lookup, the decimal split, and the register block transfers.
    pub fn opcodef(&mut self, x: usize, nn: u8) -> (r: Result<(), Fault>)
        requires
            old(self).wf(),
            x < 16,
            old(self)@.pc <= 0xFFFD,
        ensures
            final(self).wf(),
            obeys(old(self)@, final(self)@, r, spec_opf(old(self)@, x as int, nn)),
            final(self).spec_screen_scale() == old(self).spec_screen_scale(),
    {
        if nn == 0x07 {
            let t = self.delay_timer;
            self.v.set(x, t);
            self.pc = self.pc + 2;
        } else if nn == 0x0A {
            let mut k: usize = 0;
            while k < 16 && !self.key_pressed[k]
                invariant
                    self@ == old(self)@,
                    self.spec_screen_scale() == old(self).spec_screen_scale(),
                    self@.keys.len() == 16,
                    k <= 16,
                    first_pressed(self@.keys, 0) == first_pressed(self@.keys, k as int),
                decreases 16 - k,
            {
                k = k + 1;
            }
            if k < 16 {
                self.v.set(x, k as u8);
                self.pc = self.pc + 2;
            }
        } else if nn == 0x15 {
            self.delay_timer = self.v[x];
            self.pc = self.pc + 2;
        } else if nn == 0x18 {
            self.sound_timer = self.v[x];
            self.pc = self.pc + 2;
        } else if nn == 0x1E {
            let sum = self.i_reg as u32 + self.v[x] as u32;
            self.i_reg = (sum % 0x10000) as u16;
            self.v.set(15, if sum > 0xFFFF { 1 } else { 0 });
            self.pc = self.pc + 2;
        } else if nn == 0x29 {
            self.i_reg = self.v[x] as u16 * 5;
            self.pc = self.pc + 2;
        } else if nn == 0x33 {
            let base = self.i_reg as usize;
            if base + 2 >= 4096 {
                return Err(Fault::AddressOutOfRange);
            }
            let vx = self.v[x];
            self.memory.set(base, vx / 100);
            self.memory.set(base + 1, (vx / 10) % 10);
            self.memory.set(base + 2, vx % 10);
            self.pc = self.pc + 2;
        } else if nn == 0x55 {
            let base = self.i_reg as usize;
            if base + x >= 4096 {
                return Err(Fault::AddressOutOfRange);
            }
            let mut k: usize = 0;
            while k <= x
                invariant
                    self@ == (ChipView { mem: self@.mem, ..old(self)@ }),
                    self.spec_screen_scale() == old(self).spec_screen_scale(),
                    self@.mem.len() == 4096,
                    self@.v.len() == 16,
                    k <= x + 1,
                    x < 16,
                    base == old(self)@.i_reg,
                    base + x < 4096,
                    forall|j: int|
                        base <= j < base + k ==> self@.mem[j] == old(self)@.v[j - base],
                    forall|j: int|
                        (0 <= j < base || base + k <= j < 4096) ==> self@.mem[j] == old(
                            self,
                        )@.mem[j],
                decreases x + 1 - k,
            {
                let byte = self.v[k];
                self.memory.set(base + k, byte);
                k = k + 1;
            }
            self.pc = self.pc + 2;
            proof {
                let out = spec_opf(old(self)@, x as int, nn)->Ok_0;
                assert(self@.mem =~= out.mem);
                assert(self@ =~= out);
            }
        } else if nn == 0x65 {
            let base = self.i_reg as usize;
            if base + x >= 4096 {
                return Err(Fault::AddressOutOfRange);
            }
            let mut k: usize = 0;
            while k <= x
                invariant
                    self@ == (ChipView { v: self@.v, ..old(self)@ }),
                    self.spec_screen_scale() == old(self).spec_screen_scale(),
                    self@.v.len() == 16,
                    self@.mem.len() == 4096,
                    k <= x + 1,
                    x < 16,
                    base == old(self)@.i_reg,
                    base + x < 4096,
                    forall|j: int| 0 <= j < k ==> self@.v[j] == old(self)@.mem[base + j],
                    forall|j: int| k <= j < 16 ==> self@.v[j] == old(self)@.v[j],
                decreases x + 1 - k,
            {
                let byte = self.memory[base + k];
                self.v.set(k, byte);
                k = k + 1;
            }
            self.pc = self.pc + 2;
            proof {
                let out = spec_opf(old(self)@, x as int, nn)->Ok_0;
                assert(self@.v =~= out.v);
                assert(self@ =~= out);
            }
        } else {
            self.pc = self.pc + 2;
        }
        Ok(())
    }
}

} // verus!
