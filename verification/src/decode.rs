//! Decoding of 16-bit instruction words into dispatchable instructions.
//!
//! Decoding is total: every 16-bit word maps to exactly one variant of
//! [`Instruction`]; words that match no known shape map to
//! [`Instruction::Unknown`], which executes as a no-op report.
use vstd::prelude::*;

verus! {

/// One decoded CHIP-8 instruction. `x` and `y` are register indices
/// (always below 16), `n` a 4-bit literal, `nn` an 8-bit literal and
/// `nnn` a 12-bit address (always below 4096).
#[derive(Clone, Copy, Debug, PartialEq, Eq, Structural)]
pub enum Instruction {
    ClearScreen,
    Return,
    Jump { nnn: u16 },
    Call { nnn: u16 },
    SkipEqImm { x: u8, nn: u8 },
    SkipNeImm { x: u8, nn: u8 },
    SkipEqReg { x: u8, y: u8 },
    SetImm { x: u8, nn: u8 },
    AddImm { x: u8, nn: u8 },
    CopyReg { x: u8, y: u8 },
    OrReg { x: u8, y: u8 },
    AndReg { x: u8, y: u8 },
    XorReg { x: u8, y: u8 },
    AddReg { x: u8, y: u8 },
    SubReg { x: u8, y: u8 },
    ShrReg { x: u8, y: u8 },
    SubnReg { x: u8, y: u8 },
    ShlReg { x: u8, y: u8 },
    SkipNeReg { x: u8, y: u8 },
    SetIndex { nnn: u16 },
    JumpOffset { x: u8, nnn: u16 },
    RandomAnd { x: u8, nn: u8 },
    Draw { x: u8, y: u8, n: u8 },
    SkipKeyDown { x: u8 },
    SkipKeyUp { x: u8 },
    ReadDelay { x: u8 },
    SetDelay { x: u8 },
    SetSound { x: u8 },
    AddIndex { x: u8 },
    WaitKey { x: u8 },
    FontAddr { x: u8 },
    StoreBcd { x: u8 },
    StoreRegs { x: u8 },
    LoadRegs { x: u8 },
    Unknown { word: u16 },
}

/// Operation family: bits 12..=15 of the instruction word.
pub open spec fn op_of(w: u16) -> u16 {
    (w >> 12) & 0xF
}

/// First register index: bits 8..=11.
pub open spec fn x_of(w: u16) -> u16 {
    (w >> 8) & 0xF
}

/// Second register index: bits 4..=7.
pub open spec fn y_of(w: u16) -> u16 {
    (w >> 4) & 0xF
}

/// 4-bit literal: bits 0..=3.
pub open spec fn n_of(w: u16) -> u16 {
    w & 0xF
}

/// 8-bit literal: bits 0..=7.
pub open spec fn nn_of(w: u16) -> u16 {
    w & 0xFF
}

/// 12-bit address literal: bits 0..=11.
pub open spec fn nnn_of(w: u16) -> u16 {
    w & 0xFFF
}

/// The decoding function: which instruction a 16-bit word denotes.
pub open spec fn spec_decode(w: u16) -> Instruction {
    let op = op_of(w);
    let x = x_of(w) as u8;
    let y = y_of(w) as u8;
    let n = n_of(w) as u8;
    let nn = nn_of(w) as u8;
    let nnn = nnn_of(w);
    if w == 0x00E0 {
        Instruction::ClearScreen
    } else if w == 0x00EE {
        Instruction::Return
    } else if op == 0x1 {
        Instruction::Jump { nnn }
    } else if op == 0x2 {
        Instruction::Call { nnn }
    } else if op == 0x3 {
        Instruction::SkipEqImm { x, nn }
    } else if op == 0x4 {
        Instruction::SkipNeImm { x, nn }
    } else if op == 0x5 && n == 0x0 {
        Instruction::SkipEqReg { x, y }
    } else if op == 0x6 {
        Instruction::SetImm { x, nn }
    } else if op == 0x7 {
        Instruction::AddImm { x, nn }
    } else if op == 0x8 && n == 0x0 {
        Instruction::CopyReg { x, y }
    } else if op == 0x8 && n == 0x1 {
        Instruction::OrReg { x, y }
    } else if op == 0x8 && n == 0x2 {
        Instruction::AndReg { x, y }
    } else if op == 0x8 && n == 0x3 {
        Instruction::XorReg { x, y }
    } else if op == 0x8 && n == 0x4 {
        Instruction::AddReg { x, y }
    } else if op == 0x8 && n == 0x5 {
        Instruction::SubReg { x, y }
    } else if op == 0x8 && n == 0x6 {
        Instruction::ShrReg { x, y }
    } else if op == 0x8 && n == 0x7 {
        Instruction::SubnReg { x, y }
    } else if op == 0x8 && n == 0xE {
        Instruction::ShlReg { x, y }
    } else if op == 0x9 && n == 0x0 {
        Instruction::SkipNeReg { x, y }
    } else if op == 0xA {
        Instruction::SetIndex { nnn }
    } else if op == 0xB {
        Instruction::JumpOffset { x, nnn }
    } else if op == 0xC {
        Instruction::RandomAnd { x, nn }
    } else if op == 0xD {
        Instruction::Draw { x, y, n }
    } else if op == 0xE && y == 0x9 && n == 0xE {
        Instruction::SkipKeyDown { x }
    } else if op == 0xE && y == 0xA && n == 0x1 {
        Instruction::SkipKeyUp { x }
    } else if op == 0xF && y == 0x0 && n == 0x7 {
        Instruction::ReadDelay { x }
    } else if op == 0xF && y == 0x1 && n == 0x5 {
        Instruction::SetDelay { x }
    } else if op == 0xF && y == 0x1 && n == 0x8 {
        Instruction::SetSound { x }
    } else if op == 0xF && y == 0x1 && n == 0xE {
        Instruction::AddIndex { x }
    } else if op == 0xF && y == 0x0 && n == 0xA {
        Instruction::WaitKey { x }
    } else if op == 0xF && y == 0x2 && n == 0x9 {
        Instruction::FontAddr { x }
    } else if op == 0xF && y == 0x3 && n == 0x3 {
        Instruction::StoreBcd { x }
    } else if op == 0xF && y == 0x5 && n == 0x5 {
        Instruction::StoreRegs { x }
    } else if op == 0xF && y == 0x6 && n == 0x5 {
        Instruction::LoadRegs { x }
    } else {
        Instruction::Unknown { word: w }
    }
}

/// Field ranges every decoded instruction satisfies: register indices and
/// 4-bit literals below 16, addresses below 4096.
pub open spec fn ins_wf(ins: Instruction) -> bool {
    match ins {
        Instruction::ClearScreen => true,
        Instruction::Return => true,
        Instruction::Jump { nnn } => nnn < 4096,
        Instruction::Call { nnn } => nnn < 4096,
        Instruction::SkipEqImm { x, nn } => x < 16,
        Instruction::SkipNeImm { x, nn } => x < 16,
        Instruction::SkipEqReg { x, y } => x < 16 && y < 16,
        Instruction::SetImm { x, nn } => x < 16,
        Instruction::AddImm { x, nn } => x < 16,
        Instruction::CopyReg { x, y } => x < 16 && y < 16,
        Instruction::OrReg { x, y } => x < 16 && y < 16,
        Instruction::AndReg { x, y } => x < 16 && y < 16,
        Instruction::XorReg { x, y } => x < 16 && y < 16,
        Instruction::AddReg { x, y } => x < 16 && y < 16,
        Instruction::SubReg { x, y } => x < 16 && y < 16,
        Instruction::ShrReg { x, y } => x < 16 && y < 16,
        Instruction::SubnReg { x, y } => x < 16 && y < 16,
        Instruction::ShlReg { x, y } => x < 16 && y < 16,
        Instruction::SkipNeReg { x, y } => x < 16 && y < 16,
        Instruction::SetIndex { nnn } => nnn < 4096,
        Instruction::JumpOffset { x, nnn } => x < 16 && nnn < 4096,
        Instruction::RandomAnd { x, nn } => x < 16,
        Instruction::Draw { x, y, n } => x < 16 && y < 16 && n < 16,
        Instruction::SkipKeyDown { x } => x < 16,
        Instruction::SkipKeyUp { x } => x < 16,
        Instruction::ReadDelay { x } => x < 16,
        Instruction::SetDelay { x } => x < 16,
        Instruction::SetSound { x } => x < 16,
        Instruction::AddIndex { x } => x < 16,
        Instruction::WaitKey { x } => x < 16,
        Instruction::FontAddr { x } => x < 16,
        Instruction::StoreBcd { x } => x < 16,
        Instruction::StoreRegs { x } => x < 16,
        Instruction::LoadRegs { x } => x < 16,
        Instruction::Unknown { word } => true,
    }
}

/// Every decoded instruction has its fields in range: decoding never
/// produces a register index, literal or address outside its width.
pub proof fn lemma_decode_wf(w: u16)
    ensures
        ins_wf(spec_decode(w)),
{
    assert((w >> 12) & 0xF < 16) by (bit_vector);
    assert((w >> 8) & 0xF < 16) by (bit_vector);
    assert((w >> 4) & 0xF < 16) by (bit_vector);
    assert(w & 0xF < 16) by (bit_vector);
    assert(w & 0xFFF < 4096) by (bit_vector);
}

/// Decode one 16-bit instruction word. Total: accepts any word and
/// returns the unique instruction it denotes.
pub fn decode(w: u16) -> (r: Instruction)
    ensures
        r == spec_decode(w),
        ins_wf(r),
{
    proof {
        lemma_decode_wf(w);
    }
    let op: u16 = (w >> 12) & 0xF;
    let x: u8 = ((w >> 8) & 0xF) as u8;
    let y: u8 = ((w >> 4) & 0xF) as u8;
    let n: u8 = (w & 0xF) as u8;
    let nn: u8 = (w & 0xFF) as u8;
    let nnn: u16 = w & 0xFFF;
    if w == 0x00E0 {
        Instruction::ClearScreen
    } else if w == 0x00EE {
        Instruction::Return
    } else if op == 0x1 {
        Instruction::Jump { nnn }
    } else if op == 0x2 {
        Instruction::Call { nnn }
    } else if op == 0x3 {
        Instruction::SkipEqImm { x, nn }
    } else if op == 0x4 {
        Instruction::SkipNeImm { x, nn }
    } else if op == 0x5 && n == 0x0 {
        Instruction::SkipEqReg { x, y }
    } else if op == 0x6 {
        Instruction::SetImm { x, nn }
    } else if op == 0x7 {
        Instruction::AddImm { x, nn }
    } else if op == 0x8 && n == 0x0 {
        Instruction::CopyReg { x, y }
    } else if op == 0x8 && n == 0x1 {
        Instruction::OrReg { x, y }
    } else if op == 0x8 && n == 0x2 {
        Instruction::AndReg { x, y }
    } else if op == 0x8 && n == 0x3 {
        Instruction::XorReg { x, y }
    } else if op == 0x8 && n == 0x4 {
        Instruction::AddReg { x, y }
    } else if op == 0x8 && n == 0x5 {
        Instruction::SubReg { x, y }
    } else if op == 0x8 && n == 0x6 {
        Instruction::ShrReg { x, y }
    } else if op == 0x8 && n == 0x7 {
        Instruction::SubnReg { x, y }
    } else if op == 0x8 && n == 0xE {
        Instruction::ShlReg { x, y }
    } else if op == 0x9 && n == 0x0 {
        Instruction::SkipNeReg { x, y }
    } else if op == 0xA {
        Instruction::SetIndex { nnn }
    } else if op == 0xB {
        Instruction::JumpOffset { x, nnn }
    } else if op == 0xC {
        Instruction::RandomAnd { x, nn }
    } else if op == 0xD {
        Instruction::Draw { x, y, n }
    } else if op == 0xE && y == 0x9 && n == 0xE {
        Instruction::SkipKeyDown { x }
    } else if op == 0xE && y == 0xA && n == 0x1 {
        Instruction::SkipKeyUp { x }
    } else if op == 0xF && y == 0x0 && n == 0x7 {
        Instruction::ReadDelay { x }
    } else if op == 0xF && y == 0x1 && n == 0x5 {
        Instruction::SetDelay { x }
    } else if op == 0xF && y == 0x1 && n == 0x8 {
        Instruction::SetSound { x }
    } else if op == 0xF && y == 0x1 && n == 0xE {
        Instruction::AddIndex { x }
    } else if op == 0xF && y == 0x0 && n == 0xA {
        Instruction::WaitKey { x }
    } else if op == 0xF && y == 0x2 && n == 0x9 {
        Instruction::FontAddr { x }
    } else if op == 0xF && y == 0x3 && n == 0x3 {
        Instruction::StoreBcd { x }
    } else if op == 0xF && y == 0x5 && n == 0x5 {
        Instruction::StoreRegs { x }
    } else if op == 0xF && y == 0x6 && n == 0x5 {
        Instruction::LoadRegs { x }
    } else {
        Instruction::Unknown { word: w }
    }
}

} // verus!
