use vstd::prelude::*;

use crate::host::random_byte;
use crate::instruction::{decode, decode_spec, Instruction};
use crate::machine::{
    MachineView, Mode, Processor, FONT_START, GLYPH_SIZE_BYTE, KEY_COUNT, RAM_SIZE_BYTE,
    STACK_SIZE, VF, VRAM_SIZE_BYTE, VRAM_START,
};
use crate::semantics::{advance, executes, next_state, offset_from};

verus! {

/// Instructions that only decide where PC goes next.
spec fn is_flow(ins: Instruction) -> bool {
    ins is Return || ins is Jump || ins is Call || ins is JumpOffset || ins is SkipIfEqual
        || ins is SkipIfNotEqual || ins is SkipIfRegsEqual || ins is SkipIfRegsNotEqual
        || ins is SkipIfKey || ins is SkipIfNotKey || ins is Unknown
}

/// Instructions that compute a register from registers and immediates.
spec fn is_arithmetic(ins: Instruction) -> bool {
    ins is LoadImmediate || ins is AddImmediate || ins is Move || ins is Or || ins is And
        || ins is Xor || ins is Add || ins is Sub || ins is ShiftRight || ins is SubReversed
        || ins is ShiftLeft || ins is Random
}

/// Instructions on the index register, memory, timers and the key wait.
spec fn is_special(ins: Instruction) -> bool {
    ins is LoadIndex || ins is ReadDelay || ins is AwaitKey || ins is SetDelay || ins is SetSound
        || ins is AddIndex || ins is FontGlyph || ins is StoreBcd || ins is StoreRegisters
        || ins is LoadRegisters
}

/// Going forward around memory from `base`, address `(base + k) % 4096` lies
/// `k` bytes on, and no other address does.
pub(crate) proof fn lemma_offset(base: usize, k: int, a: int)
    requires
        base < RAM_SIZE_BYTE,
        0 <= k < RAM_SIZE_BYTE,
        0 <= a < RAM_SIZE_BYTE,
    ensures
        (offset_from(base, a) == k) <==> (a == (base + k) % (RAM_SIZE_BYTE as int)),
        0 <= offset_from(base, a) < RAM_SIZE_BYTE,
{
}

impl Processor {
    /// Runs the instruction with code `opcode`. `random` is the byte that the
    /// random instruction combines with its mask; other instructions ignore it.
    pub fn execute(&mut self, opcode: u16, random: u8)
        requires
            old(self).wf(),
        ensures
            final(self).wf(),
            executes(old(self)@, final(self)@, decode_spec(opcode), random),
    {
        let ins = decode(opcode);
        match ins {
            Instruction::ClearScreen => self.clear_screen(),
            Instruction::Draw { x, y, n } => self.draw(x, y, n),
            Instruction::Return | Instruction::Jump { .. } | Instruction::Call { .. }
            | Instruction::JumpOffset { .. } | Instruction::SkipIfEqual { .. }
            | Instruction::SkipIfNotEqual { .. } | Instruction::SkipIfRegsEqual { .. }
            | Instruction::SkipIfRegsNotEqual { .. } | Instruction::SkipIfKey { .. }
            | Instruction::SkipIfNotKey { .. } | Instruction::Unknown => self.run_flow(ins),
            Instruction::LoadImmediate { .. } | Instruction::AddImmediate { .. }
            | Instruction::Move { .. } | Instruction::Or { .. } | Instruction::And { .. }
            | Instruction::Xor { .. } | Instruction::Add { .. } | Instruction::Sub { .. }
            | Instruction::ShiftRight { .. } | Instruction::SubReversed { .. }
            | Instruction::ShiftLeft { .. } | Instruction::Random { .. } => self.run_arithmetic(
                ins,
                random,
            ),
            _ => self.run_special(ins),
        }
    }

    /// Runs the instruction with code `opcode`, drawing a fresh random byte
    /// for the random instruction.
    pub fn execute_opcode(&mut self, opcode: u16)
        requires
            old(self).wf(),
        ensures
            final(self).wf(),
            exists|random: u8| executes(old(self)@, final(self)@, decode_spec(opcode), random),
    {
        let random = if opcode / 0x1000 == 0xc {
            random_byte()
        } else {
            0u8
        };
        self.execute(opcode, random);
    }

    /// Clears every pixel of the display.
    fn clear_screen(&mut self)
        requires
            old(self).wf(),
        ensures
            final(self).wf(),
            final(self)@ == next_state(old(self)@, Instruction::ClearScreen, 0),
    {
        let ghost s = self@;
        let mut k: usize = 0;
        while k < VRAM_SIZE_BYTE
            invariant
                k <= VRAM_SIZE_BYTE,
                s.wf(),
                self@ == (MachineView { ram: self@.ram, ..s }),
                self.ram@ == Seq::new(
                    RAM_SIZE_BYTE as nat,
                    |a: int|
                        if VRAM_START <= a < VRAM_START + k {
                            0u8
                        } else {
                            s.ram[a]
                        },
                ),
            decreases VRAM_SIZE_BYTE - k,
        {
            self.ram[VRAM_START + k] = 0;
            k = k + 1;
            assert(self.ram@ =~= Seq::new(
                RAM_SIZE_BYTE as nat,
                |a: int|
                    if VRAM_START <= a < VRAM_START + k {
                        0u8
                    } else {
                        s.ram[a]
                    },
            ));
        }
        self.pc = (self.pc + 2) % RAM_SIZE_BYTE;
        assert(self@.ram =~= next_state(s, Instruction::ClearScreen, 0).ram);
    }

    /// Jumps, calls, returns and skips.
    fn run_flow(&mut self, ins: Instruction)
        requires
            old(self).wf(),
            ins.well_formed(),
            is_flow(ins),
        ensures
            final(self).wf(),
            final(self)@ == next_state(old(self)@, ins, 0),
    {
        let ghost s = self@;
        match ins {
            Instruction::Return => {
                if self.sp == 0 {
                    self.halt = true;
                } else {
                    self.sp = self.sp - 1;
                    self.pc = (self.stack[self.sp] + 2) % RAM_SIZE_BYTE;
                }
            },
            Instruction::Jump { addr } => {
                if addr == self.pc {
                    self.halt = true;
                }
                self.pc = addr;
            },
            Instruction::Call { addr } => {
                if self.sp >= STACK_SIZE {
                    self.halt = true;
                } else {
                    self.stack[self.sp] = self.pc;
                    self.sp = self.sp + 1;
                    self.pc = addr;
                }
            },
            Instruction::JumpOffset { addr } => {
                self.pc = (addr + self.v[0] as usize) % RAM_SIZE_BYTE;
            },
            Instruction::SkipIfEqual { x, nn } => {
                let step: usize = if self.v[x] == nn {
                    4
                } else {
                    2
                };
                self.pc = (self.pc + step) % RAM_SIZE_BYTE;
            },
            Instruction::SkipIfNotEqual { x, nn } => {
                let step: usize = if self.v[x] != nn {
                    4
                } else {
                    2
                };
                self.pc = (self.pc + step) % RAM_SIZE_BYTE;
            },
            Instruction::SkipIfRegsEqual { x, y } => {
                let step: usize = if self.v[x] == self.v[y] {
                    4
                } else {
                    2
                };
                self.pc = (self.pc + step) % RAM_SIZE_BYTE;
            },
            Instruction::SkipIfRegsNotEqual { x, y } => {
                let step: usize = if self.v[x] != self.v[y] {
                    4
                } else {
                    2
                };
                self.pc = (self.pc + step) % RAM_SIZE_BYTE;
            },
            Instruction::SkipIfKey { x } => {
                let down = self.key_down(self.v[x]);
                let step: usize = if down {
                    4
                } else {
                    2
                };
                self.pc = (self.pc + step) % RAM_SIZE_BYTE;
            },
            Instruction::SkipIfNotKey { x } => {
                let down = self.key_down(self.v[x]);
                let step: usize = if !down {
                    4
                } else {
                    2
                };
                self.pc = (self.pc + step) % RAM_SIZE_BYTE;
            },
            _ => {
                self.pc = (self.pc + 2) % RAM_SIZE_BYTE;
            },
        }
        assert(self@.stack =~= next_state(s, ins, 0).stack);
    }

    /// Whether the key that register value `key` names is held down.
    fn key_down(&self, key: u8) -> (r: bool)
        requires
            self.wf(),
        ensures
            r == crate::semantics::key_down(self@.key_state, key),
    {
        (key as usize) < KEY_COUNT && self.key_state[key as usize]
    }

    /// Register loads and bitwise operations; `random` feeds the random
    /// instruction.
    fn run_arithmetic(&mut self, ins: Instruction, random: u8)
        requires
            old(self).wf(),
            ins.well_formed(),
            is_arithmetic(ins),
        ensures
            final(self).wf(),
            final(self)@ == next_state(old(self)@, ins, random),
    {
        let ghost s = self@;
        match ins {
            Instruction::LoadImmediate { x, nn } => {
                self.v[x] = nn;
            },
            Instruction::AddImmediate { x, nn } => {
                self.v[x] = ((self.v[x] as u16 + nn as u16) % 256) as u8;
            },
            Instruction::Move { x, y } => {
                self.v[x] = self.v[y];
            },
            Instruction::Or { x, y } => {
                self.v[x] = self.v[x] | self.v[y];
            },
            Instruction::And { x, y } => {
                self.v[x] = self.v[x] & self.v[y];
            },
            Instruction::Xor { x, y } => {
                self.v[x] = self.v[x] ^ self.v[y];
            },
            Instruction::Random { x, nn } => {
                self.v[x] = random & nn;
            },
            _ => {
                self.run_flagged(ins);
                return ;
            },
        }
        self.pc = (self.pc + 2) % RAM_SIZE_BYTE;
        assert(self@.v =~= next_state(s, ins, random).v);
    }

    /// Arithmetic that reports a carry, a borrow or a shifted-out bit in VF.
    #[verifier::rlimit(100)]
    fn run_flagged(&mut self, ins: Instruction)
        requires
            old(self).wf(),
            ins.well_formed(),
            ins is Add || ins is Sub || ins is ShiftRight || ins is SubReversed || ins is ShiftLeft,
        ensures
            final(self).wf(),
            final(self)@ == next_state(old(self)@, ins, 0),
    {
        let ghost s = self@;
        let (x, value, flag): (usize, u8, u8) = match ins {
            Instruction::Add { x, y } => {
                let sum: u16 = self.v[x] as u16 + self.v[y] as u16;
                (x, (sum % 256) as u8, if sum >= 256 {
                    1
                } else {
                    0
                })
            },
            Instruction::Sub { x, y } => {
                let (vx, vy) = (self.v[x], self.v[y]);
                (x, ((vx as u16 + 256 - vy as u16) % 256) as u8, if vx >= vy {
                    1
                } else {
                    0
                })
            },
            Instruction::ShiftRight { x } => (x, self.v[x] / 2, self.v[x] % 2),
            Instruction::SubReversed { x, y } => {
                let (vx, vy) = (self.v[x], self.v[y]);
                (x, ((vy as u16 + 256 - vx as u16) % 256) as u8, if vy >= vx {
                    1
                } else {
                    0
                })
            },
            Instruction::ShiftLeft { x } => (x, ((self.v[x] as u16 * 2) % 256) as u8, self.v[x]
                / 128),
            _ => (0, self.v[0], self.v[VF]),
        };
        self.v[x] = value;
        self.v[VF] = flag;
        self.pc = (self.pc + 2) % RAM_SIZE_BYTE;
        assert(self@.v =~= next_state(s, ins, 0).v);
    }

    /// The index register, memory transfers, timers and the key wait.
    fn run_special(&mut self, ins: Instruction)
        requires
            old(self).wf(),
            ins.well_formed(),
            is_special(ins),
        ensures
            final(self).wf(),
            final(self)@ == next_state(old(self)@, ins, 0),
    {
        let ghost s = self@;
        match ins {
            Instruction::LoadIndex { addr } => {
                self.i = addr;
            },
            Instruction::ReadDelay { x } => {
                self.v[x] = self.delay_timer;
            },
            Instruction::AwaitKey { x } => {
                self.mode = Mode::AwaitingKey { target: x };
                return ;
            },
            Instruction::SetDelay { x } => {
                self.delay_timer = self.v[x];
            },
            Instruction::SetSound { x } => {
                self.sound_timer = self.v[x];
            },
            Instruction::AddIndex { x } => {
                self.i = (self.i + self.v[x] as usize) % RAM_SIZE_BYTE;
            },
            Instruction::FontGlyph { x } => {
                self.i = FONT_START + self.v[x] as usize * GLYPH_SIZE_BYTE;
            },
            Instruction::StoreBcd { x } => {
                let value = self.v[x];
                let i = self.i;
                self.ram[i] = value / 100;
                self.ram[(i + 1) % RAM_SIZE_BYTE] = (value % 100) / 10;
                self.ram[(i + 2) % RAM_SIZE_BYTE] = value % 10;
            },
            Instruction::StoreRegisters { x } => {
                self.store_registers(x);
            },
            Instruction::LoadRegisters { x } => {
                self.load_registers(x);
            },
            _ => {},
        }
        self.pc = (self.pc + 2) % RAM_SIZE_BYTE;
        assert(self@.ram =~= next_state(s, ins, 0).ram);
        assert(self@.v =~= next_state(s, ins, 0).v);
    }

    /// Copies registers V0 to Vx to memory from address I on.
    fn store_registers(&mut self, x: usize)
        requires
            old(self).wf(),
            x < 16,
        ensures
            final(self).wf(),
            final(self)@ == (MachineView {
                ram: Seq::new(
                    RAM_SIZE_BYTE as nat,
                    |a: int|
                        if offset_from(old(self)@.i, a) <= x {
                            old(self)@.v[offset_from(old(self)@.i, a)]
                        } else {
                            old(self)@.ram[a]
                        },
                ),
                ..old(self)@
            }),
    {
        let ghost s = self@;
        let mut k: usize = 0;
        while k <= x
            invariant
                x < 16,
                k <= x + 1,
                s.wf(),
                self@ == (MachineView { ram: self@.ram, ..s }),
                self.ram@ == Seq::new(
                    RAM_SIZE_BYTE as nat,
                    |a: int|
                        if offset_from(s.i, a) < k {
                            s.v[offset_from(s.i, a)]
                        } else {
                            s.ram[a]
                        },
                ),
            decreases x + 1 - k,
        {
            let a = (self.i + k) % RAM_SIZE_BYTE;
            self.ram[a] = self.v[k];
            proof {
                assert forall|b: int| 0 <= b < RAM_SIZE_BYTE implies #[trigger] self.ram@[b] == (
                if offset_from(s.i, b) < k + 1 {
                    s.v[offset_from(s.i, b)]
                } else {
                    s.ram[b]
                }) by {
                    lemma_offset(s.i, k as int, b);
                }
            }
            k = k + 1;
            assert(self.ram@ =~= Seq::new(
                RAM_SIZE_BYTE as nat,
                |a: int|
                    if offset_from(s.i, a) < k {
                        s.v[offset_from(s.i, a)]
                    } else {
                        s.ram[a]
                    },
            ));
        }
        assert(self.ram@ =~= Seq::new(
            RAM_SIZE_BYTE as nat,
            |a: int|
                if offset_from(s.i, a) <= x {
                    s.v[offset_from(s.i, a)]
                } else {
                    s.ram[a]
                },
        ));
    }

    /// Fills registers V0 to Vx from memory at address I on.
    fn load_registers(&mut self, x: usize)
        requires
            old(self).wf(),
            x < 16,
        ensures
            final(self).wf(),
            final(self)@ == (MachineView {
                v: Seq::new(
                    16,
                    |k: int|
                        if k <= x {
                            old(self)@.ram[advance(old(self)@.i, k) as int]
                        } else {
                            old(self)@.v[k]
                        },
                ),
                ..old(self)@
            }),
    {
        let ghost s = self@;
        let mut k: usize = 0;
        while k <= x
            invariant
                x < 16,
                k <= x + 1,
                s.wf(),
                self@ == (MachineView { v: self@.v, ..s }),
                self.v@ == Seq::new(
                    16,
                    |j: int|
                        if j < k {
                            s.ram[advance(s.i, j) as int]
                        } else {
                            s.v[j]
                        },
                ),
            decreases x + 1 - k,
        {
            self.v[k] = self.ram[(self.i + k) % RAM_SIZE_BYTE];
            k = k + 1;
            assert(self.v@ =~= Seq::new(
                16,
                |j: int|
                    if j < k {
                        s.ram[advance(s.i, j) as int]
                    } else {
                        s.v[j]
                    },
            ));
        }
        assert(self.v@ =~= Seq::new(
            16,
            |j: int|
                if j <= x {
                    s.ram[advance(s.i, j) as int]
                } else {
                    s.v[j]
                },
        ));
    }
}

} // verus!
