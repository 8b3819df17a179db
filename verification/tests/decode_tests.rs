use chip8::decode::{decode, Instruction};

#[test]
fn decode_is_total_over_all_words() {
    // Every 16-bit value decodes to exactly one instruction; none panics.
    let mut known: u32 = 0;
    let mut unknown: u32 = 0;
    for w in 0..=0xFFFFu16 {
        match decode(w) {
            Instruction::Unknown { word } => {
                assert_eq!(word, w);
                unknown += 1;
            }
            _ => {
                known += 1;
            }
        }
    }
    assert_eq!(known + unknown, 65536);
    assert!(known > 0 && unknown > 0);
}

#[test]
fn decode_one_of_each_family() {
    assert_eq!(decode(0x00E0), Instruction::ClearScreen);
    assert_eq!(decode(0x00EE), Instruction::Return);
    assert_eq!(decode(0x1ABC), Instruction::Jump { nnn: 0xABC });
    assert_eq!(decode(0x2123), Instruction::Call { nnn: 0x123 });
    assert_eq!(decode(0x3A42), Instruction::SkipEqImm { x: 0xA, nn: 0x42 });
    assert_eq!(decode(0x4B17), Instruction::SkipNeImm { x: 0xB, nn: 0x17 });
    assert_eq!(decode(0x5120), Instruction::SkipEqReg { x: 1, y: 2 });
    assert_eq!(decode(0x6A42), Instruction::SetImm { x: 0xA, nn: 0x42 });
    assert_eq!(decode(0x7C05), Instruction::AddImm { x: 0xC, nn: 0x05 });
    assert_eq!(decode(0x8120), Instruction::CopyReg { x: 1, y: 2 });
    assert_eq!(decode(0x8341), Instruction::OrReg { x: 3, y: 4 });
    assert_eq!(decode(0x8562), Instruction::AndReg { x: 5, y: 6 });
    assert_eq!(decode(0x8783), Instruction::XorReg { x: 7, y: 8 });
    assert_eq!(decode(0x8124), Instruction::AddReg { x: 1, y: 2 });
    assert_eq!(decode(0x8125), Instruction::SubReg { x: 1, y: 2 });
    assert_eq!(decode(0x8126), Instruction::ShrReg { x: 1, y: 2 });
    assert_eq!(decode(0x8127), Instruction::SubnReg { x: 1, y: 2 });
    assert_eq!(decode(0x812E), Instruction::ShlReg { x: 1, y: 2 });
    assert_eq!(decode(0x9120), Instruction::SkipNeReg { x: 1, y: 2 });
    assert_eq!(decode(0xA9F3), Instruction::SetIndex { nnn: 0x9F3 });
    assert_eq!(decode(0xB123), Instruction::JumpOffset { x: 1, nnn: 0x123 });
    assert_eq!(decode(0xC7F0), Instruction::RandomAnd { x: 7, nn: 0xF0 });
    assert_eq!(decode(0xD125), Instruction::Draw { x: 1, y: 2, n: 5 });
    assert_eq!(decode(0xE39E), Instruction::SkipKeyDown { x: 3 });
    assert_eq!(decode(0xE3A1), Instruction::SkipKeyUp { x: 3 });
    assert_eq!(decode(0xF407), Instruction::ReadDelay { x: 4 });
    assert_eq!(decode(0xF415), Instruction::SetDelay { x: 4 });
    assert_eq!(decode(0xF418), Instruction::SetSound { x: 4 });
    assert_eq!(decode(0xF41E), Instruction::AddIndex { x: 4 });
    assert_eq!(decode(0xF40A), Instruction::WaitKey { x: 4 });
    assert_eq!(decode(0xF429), Instruction::FontAddr { x: 4 });
    assert_eq!(decode(0xF433), Instruction::StoreBcd { x: 4 });
    assert_eq!(decode(0xF455), Instruction::StoreRegs { x: 4 });
    assert_eq!(decode(0xF465), Instruction::LoadRegs { x: 4 });
}

#[test]
fn decode_rejects_near_miss_shapes() {
    // Shapes that almost match a known instruction decode as unknown.
    assert_eq!(decode(0x5121), Instruction::Unknown { word: 0x5121 });
    assert_eq!(decode(0x8128), Instruction::Unknown { word: 0x8128 });
    assert_eq!(decode(0x9125), Instruction::Unknown { word: 0x9125 });
    assert_eq!(decode(0xE29F), Instruction::Unknown { word: 0xE29F });
    assert_eq!(decode(0xF400), Instruction::Unknown { word: 0xF400 });
    assert_eq!(decode(0x0000), Instruction::Unknown { word: 0x0000 });
    assert_eq!(decode(0x00EF), Instruction::Unknown { word: 0x00EF });
}
