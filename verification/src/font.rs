//! The built-in font: sixteen hexadecimal glyphs of five sprite bytes each,
//! preloaded at a fixed base address before any program runs.
use vstd::prelude::*;
use vstd::pervasive::VecAdditionalExecFns;

verus! {

/// The eighty font bytes, glyph 0x0 first, five bytes per glyph.
pub open spec fn font_seq() -> Seq<u8> {
    seq![
        0xF0u8, 0x90, 0x90, 0x90, 0xF0,
        0x20, 0x60, 0x20, 0x20, 0x70,
        0xF0, 0x10, 0xF0, 0x80, 0xF0,
        0xF0, 0x10, 0xF0, 0x10, 0xF0,
        0x90, 0x90, 0xF0, 0x10, 0x10,
        0xF0, 0x80, 0xF0, 0x10, 0xF0,
        0xF0, 0x80, 0xF0, 0x90, 0xF0,
        0xF0, 0x10, 0x20, 0x40, 0x40,
        0xF0, 0x90, 0xF0, 0x90, 0xF0,
        0xF0, 0x90, 0xF0, 0x10, 0xF0,
        0xF0, 0x90, 0xF0, 0x90, 0x90,
        0xE0, 0x90, 0xE0, 0x90, 0xE0,
        0xF0, 0x80, 0x80, 0x80, 0xF0,
        0xE0, 0x90, 0x90, 0x90, 0xE0,
        0xF0, 0x80, 0xF0, 0x80, 0xF0,
        0xF0, 0x80, 0xF0, 0x80, 0x80,
    ]
}

/// Memory after the font table is written at `0x50..0xA0`: those eighty
/// bytes hold the font, every other byte is untouched.
pub open spec fn spec_load_fonts(mem: Seq<u8>) -> Seq<u8> {
    Seq::new(mem.len(), |i: int|
        if 0x50 <= i < 0xA0 {
            font_seq()[i - 0x50]
        } else {
            mem[i]
        })
}

/// The eighty font bytes as an executable table.
fn font_table() -> (r: Vec<u8>)
    ensures
        r@ == font_seq(),
{
    let mut v: Vec<u8> = Vec::new();
    v.push(0xF0); v.push(0x90); v.push(0x90); v.push(0x90); v.push(0xF0);
    v.push(0x20); v.push(0x60); v.push(0x20); v.push(0x20); v.push(0x70);
    v.push(0xF0); v.push(0x10); v.push(0xF0); v.push(0x80); v.push(0xF0);
    v.push(0xF0); v.push(0x10); v.push(0xF0); v.push(0x10); v.push(0xF0);
    v.push(0x90); v.push(0x90); v.push(0xF0); v.push(0x10); v.push(0x10);
    v.push(0xF0); v.push(0x80); v.push(0xF0); v.push(0x10); v.push(0xF0);
    v.push(0xF0); v.push(0x80); v.push(0xF0); v.push(0x90); v.push(0xF0);
    v.push(0xF0); v.push(0x10); v.push(0x20); v.push(0x40); v.push(0x40);
    v.push(0xF0); v.push(0x90); v.push(0xF0); v.push(0x90); v.push(0xF0);
    v.push(0xF0); v.push(0x90); v.push(0xF0); v.push(0x10); v.push(0xF0);
    v.push(0xF0); v.push(0x90); v.push(0xF0); v.push(0x90); v.push(0x90);
    v.push(0xE0); v.push(0x90); v.push(0xE0); v.push(0x90); v.push(0xE0);
    v.push(0xF0); v.push(0x80); v.push(0x80); v.push(0x80); v.push(0xF0);
    v.push(0xE0); v.push(0x90); v.push(0x90); v.push(0x90); v.push(0xE0);
    v.push(0xF0); v.push(0x80); v.push(0xF0); v.push(0x80); v.push(0xF0);
    v.push(0xF0); v.push(0x80); v.push(0xF0); v.push(0x80); v.push(0x80);
    proof {
        assert(v@ =~= font_seq());
    }
    v
}

/// Write the font table into memory at its fixed base address.
pub fn load_fonts(memory: &mut Vec<u8>)
    requires
        old(memory)@.len() == 4096,
    ensures
        final(memory)@ == spec_load_fonts(old(memory)@),
{
    let table = font_table();
    let mut k: usize = 0;
    while k < 80
        invariant
            memory@.len() == 4096,
            table@ == font_seq(),
            k <= 80,
            forall|i: int|
                0 <= i < 4096 ==> memory@[i] == if 0x50 <= i < 0x50 + k {
                    font_seq()[i - 0x50]
                } else {
                    old(memory)@[i]
                },
        decreases 80 - k,
    {
        memory.set(0x50 + k, table[k]);
        k += 1;
    }
    proof {
        assert(memory@ =~= spec_load_fonts(old(memory)@));
    }
}

/// The memory address of the five-byte glyph for hexadecimal digit
/// `digit`.
pub fn font_digit_address(digit: u8) -> (r: u8)
    requires
        digit < 16,
    ensures
        r == 0x50 + digit * 5,
{
    0x50 + digit * 5
}

} // verus!
