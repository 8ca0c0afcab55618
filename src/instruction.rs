use vstd::prelude::*;

verus! {

/// One decoded instruction. `x` and `y` name registers (0 to 15), `nn` is an
/// immediate byte, `addr` a twelve-bit address and `n` a sprite height.
#[derive(Clone, Copy, Debug, PartialEq, Eq)]
pub enum Instruction {
    ClearScreen,
    Return,
    Jump { addr: usize },
    Call { addr: usize },
    SkipIfEqual { x: usize, nn: u8 },
    SkipIfNotEqual { x: usize, nn: u8 },
    SkipIfRegsEqual { x: usize, y: usize },
    SkipIfRegsNotEqual { x: usize, y: usize },
    LoadImmediate { x: usize, nn: u8 },
    AddImmediate { x: usize, nn: u8 },
    Move { x: usize, y: usize },
    Or { x: usize, y: usize },
    And { x: usize, y: usize },
    Xor { x: usize, y: usize },
    Add { x: usize, y: usize },
    Sub { x: usize, y: usize },
    ShiftRight { x: usize },
    SubReversed { x: usize, y: usize },
    ShiftLeft { x: usize },
    LoadIndex { addr: usize },
    JumpOffset { addr: usize },
    Random { x: usize, nn: u8 },
    Draw { x: usize, y: usize, n: usize },
    SkipIfKey { x: usize },
    SkipIfNotKey { x: usize },
    ReadDelay { x: usize },
    AwaitKey { x: usize },
    SetDelay { x: usize },
    SetSound { x: usize },
    AddIndex { x: usize },
    FontGlyph { x: usize },
    StoreBcd { x: usize },
    StoreRegisters { x: usize },
    LoadRegisters { x: usize },
    /// Any code that no other variant describes; it only advances PC.
    Unknown,
}

/// The instruction that a sixteen-bit code stands for. The top four bits pick
/// the family; `x` is the second nibble, `y` the third, `n` the last one, `nn`
/// the low byte and `addr` the low twelve bits.
pub open spec fn decode_spec(op: u16) -> Instruction {
    let family = op / 0x1000;
    let x = ((op / 0x100) % 0x10) as usize;
    let y = ((op / 0x10) % 0x10) as usize;
    let n = (op % 0x10) as usize;
    let nn = (op % 0x100) as u8;
    let addr = (op % 0x1000) as usize;
    if family == 0x0 {
        if op == 0x00e0 {
            Instruction::ClearScreen
        } else if op == 0x00ee {
            Instruction::Return
        } else {
            Instruction::Unknown
        }
    } else if family == 0x1 {
        Instruction::Jump { addr }
    } else if family == 0x2 {
        Instruction::Call { addr }
    } else if family == 0x3 {
        Instruction::SkipIfEqual { x, nn }
    } else if family == 0x4 {
        Instruction::SkipIfNotEqual { x, nn }
    } else if family == 0x5 {
        Instruction::SkipIfRegsEqual { x, y }
    } else if family == 0x6 {
        Instruction::LoadImmediate { x, nn }
    } else if family == 0x7 {
        Instruction::AddImmediate { x, nn }
    } else if family == 0x8 {
        if n == 0x0 {
            Instruction::Move { x, y }
        } else if n == 0x1 {
            Instruction::Or { x, y }
        } else if n == 0x2 {
            Instruction::And { x, y }
        } else if n == 0x3 {
            Instruction::Xor { x, y }
        } else if n == 0x4 {
            Instruction::Add { x, y }
        } else if n == 0x5 {
            Instruction::Sub { x, y }
        } else if n == 0x6 {
            Instruction::ShiftRight { x }
        } else if n == 0x7 {
            Instruction::SubReversed { x, y }
        } else if n == 0xe {
            Instruction::ShiftLeft { x }
        } else {
            Instruction::Unknown
        }
    } else if family == 0x9 {
        Instruction::SkipIfRegsNotEqual { x, y }
    } else if family == 0xa {
        Instruction::LoadIndex { addr }
    } else if family == 0xb {
        Instruction::JumpOffset { addr }
    } else if family == 0xc {
        Instruction::Random { x, nn }
    } else if family == 0xd {
        Instruction::Draw { x, y, n }
    } else if family == 0xe {
        if nn == 0x9e {
            Instruction::SkipIfKey { x }
        } else if nn == 0xa1 {
            Instruction::SkipIfNotKey { x }
        } else {
            Instruction::Unknown
        }
    } else {
        if nn == 0x07 {
            Instruction::ReadDelay { x }
        } else if nn == 0x0a {
            Instruction::AwaitKey { x }
        } else if nn == 0x15 {
            Instruction::SetDelay { x }
        } else if nn == 0x18 {
            Instruction::SetSound { x }
        } else if nn == 0x1e {
            Instruction::AddIndex { x }
        } else if nn == 0x29 {
            Instruction::FontGlyph { x }
        } else if nn == 0x33 {
            Instruction::StoreBcd { x }
        } else if nn == 0x55 {
            Instruction::StoreRegisters { x }
        } else if nn == 0x65 {
            Instruction::LoadRegisters { x }
        } else {
            Instruction::Unknown
        }
    }
}

impl Instruction {
    /// Register, address and height fields are in range.
    pub open spec fn well_formed(self) -> bool {
        match self {
            Instruction::Jump { addr } | Instruction::Call { addr }
            | Instruction::LoadIndex { addr } | Instruction::JumpOffset { addr } => addr < 0x1000,
            Instruction::SkipIfEqual { x, .. } | Instruction::SkipIfNotEqual { x, .. }
            | Instruction::LoadImmediate { x, .. } | Instruction::AddImmediate { x, .. }
            | Instruction::Random { x, .. } | Instruction::ShiftRight { x }
            | Instruction::ShiftLeft { x } | Instruction::SkipIfKey { x }
            | Instruction::SkipIfNotKey { x } | Instruction::ReadDelay { x }
            | Instruction::AwaitKey { x } | Instruction::SetDelay { x }
            | Instruction::SetSound { x } | Instruction::AddIndex { x }
            | Instruction::FontGlyph { x } | Instruction::StoreBcd { x }
            | Instruction::StoreRegisters { x } | Instruction::LoadRegisters { x } => x < 16,
            Instruction::SkipIfRegsEqual { x, y } | Instruction::SkipIfRegsNotEqual { x, y }
            | Instruction::Move { x, y } | Instruction::Or { x, y } | Instruction::And { x, y }
            | Instruction::Xor { x, y } | Instruction::Add { x, y } | Instruction::Sub { x, y }
            | Instruction::SubReversed { x, y } => x < 16 && y < 16,
            Instruction::Draw { x, y, n } => x < 16 && y < 16 && n < 16,
            _ => true,
        }
    }
}

/// Decodes a sixteen-bit instruction code.
pub fn decode(op: u16) -> (r: Instruction)
    ensures
        r == decode_spec(op),
        r.well_formed(),
{
    let family: u16 = op / 0x1000;
    let x = ((op / 0x100) % 0x10) as usize;
    let y = ((op / 0x10) % 0x10) as usize;
    let n = (op % 0x10) as usize;
    let nn = (op % 0x100) as u8;
    let addr = (op % 0x1000) as usize;
    if family == 0x0 {
        if op == 0x00e0 {
            Instruction::ClearScreen
        } else if op == 0x00ee {
            Instruction::Return
        } else {
            Instruction::Unknown
        }
    } else if family == 0x1 {
        Instruction::Jump { addr }
    } else if family == 0x2 {
        Instruction::Call { addr }
    } else if family == 0x3 {
        Instruction::SkipIfEqual { x, nn }
    } else if family == 0x4 {
        Instruction::SkipIfNotEqual { x, nn }
    } else if family == 0x5 {
        Instruction::SkipIfRegsEqual { x, y }
    } else if family == 0x6 {
        Instruction::LoadImmediate { x, nn }
    } else if family == 0x7 {
        Instruction::AddImmediate { x, nn }
    } else if family == 0x8 {
        if n == 0x0 {
            Instruction::Move { x, y }
        } else if n == 0x1 {
            Instruction::Or { x, y }
        } else if n == 0x2 {
            Instruction::And { x, y }
        } else if n == 0x3 {
            Instruction::Xor { x, y }
        } else if n == 0x4 {
            Instruction::Add { x, y }
        } else if n == 0x5 {
            Instruction::Sub { x, y }
        } else if n == 0x6 {
            Instruction::ShiftRight { x }
        } else if n == 0x7 {
            Instruction::SubReversed { x, y }
        } else if n == 0xe {
            Instruction::ShiftLeft { x }
        } else {
            Instruction::Unknown
        }
    } else if family == 0x9 {
        Instruction::SkipIfRegsNotEqual { x, y }
    } else if family == 0xa {
        Instruction::LoadIndex { addr }
    } else if family == 0xb {
        Instruction::JumpOffset { addr }
    } else if family == 0xc {
        Instruction::Random { x, nn }
    } else if family == 0xd {
        Instruction::Draw { x, y, n }
    } else if family == 0xe {
        if nn == 0x9e {
            Instruction::SkipIfKey { x }
        } else if nn == 0xa1 {
            Instruction::SkipIfNotKey { x }
        } else {
            Instruction::Unknown
        }
    } else {
        if nn == 0x07 {
            Instruction::ReadDelay { x }
        } else if nn == 0x0a {
            Instruction::AwaitKey { x }
        } else if nn == 0x15 {
            Instruction::SetDelay { x }
        } else if nn == 0x18 {
            Instruction::SetSound { x }
        } else if nn == 0x1e {
            Instruction::AddIndex { x }
        } else if nn == 0x29 {
            Instruction::FontGlyph { x }
        } else if nn == 0x33 {
            Instruction::StoreBcd { x }
        } else if nn == 0x55 {
            Instruction::StoreRegisters { x }
        } else if nn == 0x65 {
            Instruction::LoadRegisters { x }
        } else {
            Instruction::Unknown
        }
    }
}

} // verus!
