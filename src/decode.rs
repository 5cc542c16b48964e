//! Instruction fetch and decoding.
use vstd::prelude::*;
use crate::machine::{Chip8State, Machine, LAST_PC};

verus! {

/// The operation class: the top four bits of the instruction word.
pub open spec fn op_of(w: u16) -> u16 {
    w >> 12u16
}

/// The address operand: the low twelve bits.
pub open spec fn addr_of(w: u16) -> u16 {
    w & 0x0FFF
}

/// The first register operand: bits 8 to 11.
pub open spec fn x_of(w: u16) -> u8 {
    ((w & 0x0F00) >> 8u16) as u8
}

/// The second register operand: bits 4 to 7.
pub open spec fn y_of(w: u16) -> u8 {
    ((w & 0x00F0) >> 4u16) as u8
}

/// The low nibble.
pub open spec fn n_of(w: u16) -> u8 {
    (w & 0x000F) as u8
}

/// The low byte.
pub open spec fn kk_of(w: u16) -> u8 {
    (w & 0x00FF) as u8
}

/// One instruction of the base set, with its decoded operands.
#[derive(PartialEq, Eq, Structural, Clone, Copy, Debug)]
pub enum Instruction {
    /// 00E0: clear the framebuffer.
    Clear,
    /// 00EE: return from a subroutine.
    Return,
    /// 1NNN: jump to NNN.
    Jump { addr: u16 },
    /// 2NNN: call the subroutine at NNN.
    Call { addr: u16 },
    /// 3XKK: skip the next instruction if VX == KK.
    SkipEqImm { x: u8, kk: u8 },
    /// 4XKK: skip the next instruction if VX != KK.
    SkipNeImm { x: u8, kk: u8 },
    /// 5XY0: skip the next instruction if VX == VY.
    SkipEqReg { x: u8, y: u8 },
    /// 6XKK: VX = KK.
    LoadImm { x: u8, kk: u8 },
    /// 7XKK: VX = VX + KK, wrapping.
    AddImm { x: u8, kk: u8 },
    /// 8XY0: VX = VY.
    Move { x: u8, y: u8 },
    /// 8XY4: VX = VX + VY, VF = carry.
    AddReg { x: u8, y: u8 },
    /// 8XY5: VX = VX - VY, VF = not borrow.
    SubReg { x: u8, y: u8 },
    /// 8XY7: VX = VY - VX, VF = not borrow.
    SubnReg { x: u8, y: u8 },
    /// 9XY0: skip the next instruction if VX != VY.
    SkipNeReg { x: u8, y: u8 },
    /// ANNN: I = NNN.
    SetIndex { addr: u16 },
    /// BNNN: jump to NNN + V0.
    JumpOffset { addr: u16 },
    /// CXKK: VX = random byte & KK.
    Random { x: u8, kk: u8 },
    /// DXYN: draw an N-row sprite from memory at I at (VX, VY).
    Draw { x: u8, y: u8, n: u8 },
    /// EX9E: skip the next instruction if key VX is held.
    SkipKey { x: u8 },
    /// EXA1: skip the next instruction if key VX is not held.
    SkipNotKey { x: u8 },
    /// FX07: VX = delay timer.
    ReadDelay { x: u8 },
    /// FX0A: wait for a key press and store its code in VX.
    WaitKey { x: u8 },
    /// FX15: delay timer = VX.
    SetDelay { x: u8 },
    /// FX18: sound timer = VX.
    SetSound { x: u8 },
    /// FX1E: I = I + VX.
    AddIndex { x: u8 },
    /// FX29: I = VX * 5, the glyph address of digit VX.
    FontChar { x: u8 },
    /// FX33: store VX as three decimal digits at I, I+1, I+2.
    Bcd { x: u8 },
    /// FX55: store V0..=VX at I.., then I += X + 1.
    Store { x: u8 },
    /// FX65: load V0..=VX from I.., then I += X + 1.
    Load { x: u8 },
}

impl Instruction {
    /// Operands are in range: register indices and heights below 16,
    /// addresses below 4096.
    pub open spec fn wf(self) -> bool {
        match self {
            Instruction::Clear | Instruction::Return => true,
            Instruction::Jump { addr } | Instruction::Call { addr } | Instruction::SetIndex { addr }
            | Instruction::JumpOffset { addr } => addr < 4096,
            Instruction::SkipEqImm { x, kk } | Instruction::SkipNeImm { x, kk } | Instruction::LoadImm {
                x,
                kk,
            } | Instruction::AddImm { x, kk } | Instruction::Random { x, kk } => x < 16,
            Instruction::SkipEqReg { x, y } | Instruction::Move { x, y } | Instruction::AddReg { x, y }
            | Instruction::SubReg { x, y } | Instruction::SubnReg { x, y } | Instruction::SkipNeReg {
                x,
                y,
            } => x < 16 && y < 16,
            Instruction::Draw { x, y, n } => x < 16 && y < 16 && n < 16,
            Instruction::SkipKey { x } | Instruction::SkipNotKey { x } | Instruction::ReadDelay { x }
            | Instruction::WaitKey { x } | Instruction::SetDelay { x } | Instruction::SetSound { x }
            | Instruction::AddIndex { x } | Instruction::FontChar { x } | Instruction::Bcd { x }
            | Instruction::Store { x } | Instruction::Load { x } => x < 16,
        }
    }
}

/// The instruction that a word encodes, or `None` where it encodes none.
pub open spec fn spec_decode(w: u16) -> Option<Instruction> {
    let op = op_of(w);
    let addr = addr_of(w);
    let x = x_of(w);
    let y = y_of(w);
    let n = n_of(w);
    let kk = kk_of(w);
    if w == 0x00E0 {
        Some(Instruction::Clear)
    } else if w == 0x00EE {
        Some(Instruction::Return)
    } else if op == 0x1 {
        Some(Instruction::Jump { addr })
    } else if op == 0x2 {
        Some(Instruction::Call { addr })
    } else if op == 0x3 {
        Some(Instruction::SkipEqImm { x, kk })
    } else if op == 0x4 {
        Some(Instruction::SkipNeImm { x, kk })
    } else if op == 0x5 && n == 0 {
        Some(Instruction::SkipEqReg { x, y })
    } else if op == 0x6 {
        Some(Instruction::LoadImm { x, kk })
    } else if op == 0x7 {
        Some(Instruction::AddImm { x, kk })
    } else if op == 0x8 && n == 0x0 {
        Some(Instruction::Move { x, y })
    } else if op == 0x8 && n == 0x4 {
        Some(Instruction::AddReg { x, y })
    } else if op == 0x8 && n == 0x5 {
        Some(Instruction::SubReg { x, y })
    } else if op == 0x8 && n == 0x7 {
        Some(Instruction::SubnReg { x, y })
    } else if op == 0x9 && n == 0 {
        Some(Instruction::SkipNeReg { x, y })
    } else if op == 0xA {
        Some(Instruction::SetIndex { addr })
    } else if op == 0xB {
        Some(Instruction::JumpOffset { addr })
    } else if op == 0xC {
        Some(Instruction::Random { x, kk })
    } else if op == 0xD {
        Some(Instruction::Draw { x, y, n })
    } else if op == 0xE && kk == 0x9E {
        Some(Instruction::SkipKey { x })
    } else if op == 0xE && kk == 0xA1 {
        Some(Instruction::SkipNotKey { x })
    } else if op == 0xF && kk == 0x07 {
        Some(Instruction::ReadDelay { x })
    } else if op == 0xF && kk == 0x0A {
        Some(Instruction::WaitKey { x })
    } else if op == 0xF && kk == 0x15 {
        Some(Instruction::SetDelay { x })
    } else if op == 0xF && kk == 0x18 {
        Some(Instruction::SetSound { x })
    } else if op == 0xF && kk == 0x1E {
        Some(Instruction::AddIndex { x })
    } else if op == 0xF && kk == 0x29 {
        Some(Instruction::FontChar { x })
    } else if op == 0xF && kk == 0x33 {
        Some(Instruction::Bcd { x })
    } else if op == 0xF && kk == 0x55 {
        Some(Instruction::Store { x })
    } else if op == 0xF && kk == 0x65 {
        Some(Instruction::Load { x })
    } else {
        None
    }
}

/// Every decoded instruction has its operands in range.
pub proof fn lemma_decode_wf(w: u16)
    ensures
        spec_decode(w) matches Some(ins) ==> ins.wf(),
{
    assert(addr_of(w) < 4096) by (bit_vector);
    assert(x_of(w) < 16) by (bit_vector);
    assert(y_of(w) < 16) by (bit_vector);
    assert(n_of(w) < 16) by (bit_vector);
}

/// Decodes an instruction word into the instruction it encodes.
pub fn decode(w: u16) -> (r: Option<Instruction>)
    ensures
        r == spec_decode(w),
        r matches Some(ins) ==> ins.wf(),
{
    proof {
        lemma_decode_wf(w);
    }
    let op = w >> 12u16;
    let addr = w & 0x0FFF;
    let x = ((w & 0x0F00) >> 8u16) as u8;
    let y = ((w & 0x00F0) >> 4u16) as u8;
    let n = (w & 0x000F) as u8;
    let kk = (w & 0x00FF) as u8;
    if w == 0x00E0 {
        Some(Instruction::Clear)
    } else if w == 0x00EE {
        Some(Instruction::Return)
    } else if op == 0x1 {
        Some(Instruction::Jump { addr })
    } else if op == 0x2 {
        Some(Instruction::Call { addr })
    } else if op == 0x3 {
        Some(Instruction::SkipEqImm { x, kk })
    } else if op == 0x4 {
        Some(Instruction::SkipNeImm { x, kk })
    } else if op == 0x5 && n == 0 {
        Some(Instruction::SkipEqReg { x, y })
    } else if op == 0x6 {
        Some(Instruction::LoadImm { x, kk })
    } else if op == 0x7 {
        Some(Instruction::AddImm { x, kk })
    } else if op == 0x8 && n == 0x0 {
        Some(Instruction::Move { x, y })
    } else if op == 0x8 && n == 0x4 {
        Some(Instruction::AddReg { x, y })
    } else if op == 0x8 && n == 0x5 {
        Some(Instruction::SubReg { x, y })
    } else if op == 0x8 && n == 0x7 {
        Some(Instruction::SubnReg { x, y })
    } else if op == 0x9 && n == 0 {
        Some(Instruction::SkipNeReg { x, y })
    } else if op == 0xA {
        Some(Instruction::SetIndex { addr })
    } else if op == 0xB {
        Some(Instruction::JumpOffset { addr })
    } else if op == 0xC {
        Some(Instruction::Random { x, kk })
    } else if op == 0xD {
        Some(Instruction::Draw { x, y, n })
    } else if op == 0xE && kk == 0x9E {
        Some(Instruction::SkipKey { x })
    } else if op == 0xE && kk == 0xA1 {
        Some(Instruction::SkipNotKey { x })
    } else if op == 0xF && kk == 0x07 {
        Some(Instruction::ReadDelay { x })
    } else if op == 0xF && kk == 0x0A {
        Some(Instruction::WaitKey { x })
    } else if op == 0xF && kk == 0x15 {
        Some(Instruction::SetDelay { x })
    } else if op == 0xF && kk == 0x18 {
        Some(Instruction::SetSound { x })
    } else if op == 0xF && kk == 0x1E {
        Some(Instruction::AddIndex { x })
    } else if op == 0xF && kk == 0x29 {
        Some(Instruction::FontChar { x })
    } else if op == 0xF && kk == 0x33 {
        Some(Instruction::Bcd { x })
    } else if op == 0xF && kk == 0x55 {
        Some(Instruction::Store { x })
    } else if op == 0xF && kk == 0x65 {
        Some(Instruction::Load { x })
    } else {
        None
    }
}

/// The big-endian word formed by the two bytes at the program counter.
pub open spec fn fetched(m: Machine) -> u16 {
    ((m.memory[m.pc as int] as u16) << 8u16) | (m.memory[m.pc + 1] as u16)
}

/// Reads the instruction word at the program counter.
pub fn fetch_instruction(state: &Chip8State) -> (r: u16)
    requires
        state.pc <= LAST_PC,
    ensures
        r == fetched(state@),
{
    let pc = state.pc as usize;
    let byte1 = state.memory[pc] as u16;
    let byte2 = state.memory[pc + 1] as u16;
    (byte1 << 8u16) | byte2
}

} // verus!
