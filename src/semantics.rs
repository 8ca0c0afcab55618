use vstd::prelude::*;

use crate::display::drawn;
use crate::instruction::Instruction;
use crate::machine::{
    MachineView, Mode, FONT_START, GLYPH_SIZE_BYTE, KEY_COUNT, RAM_SIZE_BYTE, STACK_SIZE, VF,
    VRAM_START,
};

verus! {

/// Address `a` moved forward by `by` bytes, wrapping around memory.
pub open spec fn advance(a: usize, by: int) -> usize {
    ((a + by) % (RAM_SIZE_BYTE as int)) as usize
}

/// PC after a conditional skip: past the next instruction if `cond` holds,
/// else to the next instruction.
pub open spec fn skip_if(pc: usize, cond: bool) -> usize {
    if cond {
        advance(pc, 4)
    } else {
        advance(pc, 2)
    }
}

/// Whether the key named by register value `key` is held down; values above
/// 15 name no key.
pub open spec fn key_down(keys: Seq<bool>, key: u8) -> bool {
    key < KEY_COUNT && keys[key as int]
}

/// How far address `a` lies past address `base`, going forward around memory.
pub open spec fn offset_from(base: usize, a: int) -> int {
    (a - base) % (RAM_SIZE_BYTE as int)
}

/// The state after instruction `ins` runs in state `s`; `random` is the byte
/// the random instruction uses. Drawing is described by `drawn` instead.
pub open spec fn next_state(s: MachineView, ins: Instruction, random: u8) -> MachineView {
    let next = advance(s.pc, 2);
    match ins {
        Instruction::ClearScreen => MachineView {
            ram: Seq::new(
                RAM_SIZE_BYTE as nat,
                |a: int|
                    if a >= VRAM_START {
                        0u8
                    } else {
                        s.ram[a]
                    },
            ),
            pc: next,
            ..s
        },
        Instruction::Return => if s.sp == 0 {
            MachineView { halt: true, ..s }
        } else {
            MachineView {
                sp: (s.sp - 1) as usize,
                pc: advance(s.stack[s.sp - 1], 2),
                ..s
            }
        },
        Instruction::Jump { addr } => MachineView { pc: addr, halt: s.halt || addr == s.pc, ..s },
        Instruction::Call { addr } => if s.sp >= STACK_SIZE {
            MachineView { halt: true, ..s }
        } else {
            MachineView {
                stack: s.stack.update(s.sp as int, s.pc),
                sp: (s.sp + 1) as usize,
                pc: addr,
                ..s
            }
        },
        Instruction::SkipIfEqual { x, nn } => MachineView {
            pc: skip_if(s.pc, s.v[x as int] == nn),
            ..s
        },
        Instruction::SkipIfNotEqual { x, nn } => MachineView {
            pc: skip_if(s.pc, s.v[x as int] != nn),
            ..s
        },
        Instruction::SkipIfRegsEqual { x, y } => MachineView {
            pc: skip_if(s.pc, s.v[x as int] == s.v[y as int]),
            ..s
        },
        Instruction::SkipIfRegsNotEqual { x, y } => MachineView {
            pc: skip_if(s.pc, s.v[x as int] != s.v[y as int]),
            ..s
        },
        Instruction::LoadImmediate { x, nn } => MachineView {
            v: s.v.update(x as int, nn),
            pc: next,
            ..s
        },
        Instruction::AddImmediate { x, nn } => MachineView {
            v: s.v.update(x as int, ((s.v[x as int] + nn) % 256) as u8),
            pc: next,
            ..s
        },
        Instruction::Move { x, y } => MachineView {
            v: s.v.update(x as int, s.v[y as int]),
            pc: next,
            ..s
        },
        Instruction::Or { x, y } => MachineView {
            v: s.v.update(x as int, s.v[x as int] | s.v[y as int]),
            pc: next,
            ..s
        },
        Instruction::And { x, y } => MachineView {
            v: s.v.update(x as int, s.v[x as int] & s.v[y as int]),
            pc: next,
            ..s
        },
        Instruction::Xor { x, y } => MachineView {
            v: s.v.update(x as int, s.v[x as int] ^ s.v[y as int]),
            pc: next,
            ..s
        },
        Instruction::Add { x, y } => {
            let sum = s.v[x as int] + s.v[y as int];
            MachineView {
                v: s.v.update(x as int, (sum % 256) as u8).update(
                    VF as int,
                    if sum >= 256 {
                        1u8
                    } else {
                        0u8
                    },
                ),
                pc: next,
                ..s
            }
        },
        Instruction::Sub { x, y } => MachineView {
            v: s.v.update(x as int, ((s.v[x as int] - s.v[y as int]) % 256) as u8).update(
                VF as int,
                if s.v[x as int] >= s.v[y as int] {
                    1u8
                } else {
                    0u8
                },
            ),
            pc: next,
            ..s
        },
        Instruction::ShiftRight { x } => MachineView {
            v: s.v.update(x as int, s.v[x as int] / 2).update(VF as int, s.v[x as int] % 2),
            pc: next,
            ..s
        },
        Instruction::SubReversed { x, y } => MachineView {
            v: s.v.update(x as int, ((s.v[y as int] - s.v[x as int]) % 256) as u8).update(
                VF as int,
                if s.v[y as int] >= s.v[x as int] {
                    1u8
                } else {
                    0u8
                },
            ),
            pc: next,
            ..s
        },
        Instruction::ShiftLeft { x } => MachineView {
            v: s.v.update(x as int, ((s.v[x as int] * 2) % 256) as u8).update(
                VF as int,
                s.v[x as int] / 128,
            ),
            pc: next,
            ..s
        },
        Instruction::LoadIndex { addr } => MachineView { i: addr, pc: next, ..s },
        Instruction::JumpOffset { addr } => MachineView {
            pc: advance(addr, s.v[0] as int),
            ..s
        },
        Instruction::Random { x, nn } => MachineView {
            v: s.v.update(x as int, random & nn),
            pc: next,
            ..s
        },
        Instruction::Draw { .. } => s,
        Instruction::SkipIfKey { x } => MachineView {
            pc: skip_if(s.pc, key_down(s.key_state, s.v[x as int])),
            ..s
        },
        Instruction::SkipIfNotKey { x } => MachineView {
            pc: skip_if(s.pc, !key_down(s.key_state, s.v[x as int])),
            ..s
        },
        Instruction::ReadDelay { x } => MachineView {
            v: s.v.update(x as int, s.delay_timer),
            pc: next,
            ..s
        },
        Instruction::AwaitKey { x } => MachineView { mode: Mode::AwaitingKey { target: x }, ..s },
        Instruction::SetDelay { x } => MachineView {
            delay_timer: s.v[x as int],
            pc: next,
            ..s
        },
        Instruction::SetSound { x } => MachineView {
            sound_timer: s.v[x as int],
            pc: next,
            ..s
        },
        Instruction::AddIndex { x } => MachineView {
            i: advance(s.i, s.v[x as int] as int),
            pc: next,
            ..s
        },
        Instruction::FontGlyph { x } => MachineView {
            i: (FONT_START + s.v[x as int] * GLYPH_SIZE_BYTE) as usize,
            pc: next,
            ..s
        },
        Instruction::StoreBcd { x } => {
            let value = s.v[x as int];
            MachineView {
                ram: s.ram.update(s.i as int, value / 100).update(
                    advance(s.i, 1) as int,
                    (value % 100) / 10,
                ).update(advance(s.i, 2) as int, value % 10),
                pc: next,
                ..s
            }
        },
        Instruction::StoreRegisters { x } => MachineView {
            ram: Seq::new(
                RAM_SIZE_BYTE as nat,
                |a: int|
                    if offset_from(s.i, a) <= x {
                        s.v[offset_from(s.i, a)]
                    } else {
                        s.ram[a]
                    },
            ),
            pc: next,
            ..s
        },
        Instruction::LoadRegisters { x } => MachineView {
            v: Seq::new(
                16,
                |k: int|
                    if k <= x {
                        s.ram[advance(s.i, k) as int]
                    } else {
                        s.v[k]
                    },
            ),
            pc: next,
            ..s
        },
        Instruction::Unknown => MachineView { pc: next, ..s },
    }
}

/// Running instruction `ins` in state `s` can end in state `t`, `random` being
/// the byte drawn for the random instruction.
pub open spec fn executes(s: MachineView, t: MachineView, ins: Instruction, random: u8) -> bool {
    match ins {
        Instruction::Draw { x, y, n } => drawn(s, t, x as int, y as int, n as int),
        _ => t == next_state(s, ins, random),
    }
}

} // verus!
