//! Laws of the interpreter that span several operations, stated over the
//! transition semantics in `machine` and proved once and for all.
use vstd::prelude::*;

use crate::decode::Instruction;
use crate::decode::spec_decode;
use crate::machine::Core;
use crate::machine::after_fetch;
use crate::machine::any_pressed;
use crate::machine::cycle_spec;
use crate::machine::draw_covers;
use crate::machine::draw_sprite_on;
use crate::machine::exec_fault;
use crate::machine::exec_spec;
use crate::machine::fetch_ok;
use crate::machine::fetched_word;
use crate::machine::is_skip;
use crate::machine::lemma_lowest_props;
use crate::machine::lemma_pix_decomp;
use crate::machine::lowest_pressed;
use crate::machine::pix;
use crate::machine::skip_cond;
use crate::machine::store_load_index;

verus! {

/// A conditional-skip cycle advances the program counter by four bytes
/// in all when its condition holds, and by the normal two otherwise —
/// whichever of the six skip instructions it is.
#[verifier::rlimit(100)]
pub proof fn lemma_skip_advance(s: Core, rand: u8)
    requires
        fetch_ok(s),
        is_skip(spec_decode(fetched_word(s))),
    ensures
        cycle_spec(s, rand).pc == if skip_cond(s, spec_decode(fetched_word(s))) {
            s.pc + 4
        } else {
            s.pc + 2
        },
{
    let ins = spec_decode(fetched_word(s));
    let f = after_fetch(s);
    assert(f.pc == s.pc + 2);
    assert(skip_cond(f, ins) == skip_cond(s, ins));
    match ins {
        Instruction::SkipEqImm { x, nn } => {
            assert(cycle_spec(s, rand) == if skip_cond(f, ins) {
                Core { pc: crate::machine::add16(f.pc, 2), ..f }
            } else {
                f
            });
        },
        Instruction::SkipNeImm { x, nn } => {
            assert(cycle_spec(s, rand) == if skip_cond(f, ins) {
                Core { pc: crate::machine::add16(f.pc, 2), ..f }
            } else {
                f
            });
        },
        Instruction::SkipEqReg { x, y } => {
            assert(cycle_spec(s, rand) == if skip_cond(f, ins) {
                Core { pc: crate::machine::add16(f.pc, 2), ..f }
            } else {
                f
            });
        },
        Instruction::SkipNeReg { x, y } => {
            assert(cycle_spec(s, rand) == if skip_cond(f, ins) {
                Core { pc: crate::machine::add16(f.pc, 2), ..f }
            } else {
                f
            });
        },
        Instruction::SkipKeyDown { x } => {
            assert(cycle_spec(s, rand) == if skip_cond(f, ins) {
                Core { pc: crate::machine::add16(f.pc, 2), ..f }
            } else {
                f
            });
        },
        Instruction::SkipKeyUp { x } => {
            assert(cycle_spec(s, rand) == if skip_cond(f, ins) {
                Core { pc: crate::machine::add16(f.pc, 2), ..f }
            } else {
                f
            });
        },
        _ => {},
    }
}

/// With no key pressed, a block-for-key cycle is a perfect stall: the
/// state after the cycle, program counter included, is exactly the
/// state before it, so the same instruction re-executes next cycle —
/// and so on for any number of cycles.
pub proof fn lemma_wait_key_stalls(s: Core, rand: u8)
    requires
        fetch_ok(s),
        spec_decode(fetched_word(s)) matches Instruction::WaitKey { .. },
        !any_pressed(s.keys),
    ensures
        cycle_spec(s, rand) == s,
{
    let ins = spec_decode(fetched_word(s));
    let f = after_fetch(s);
    match ins {
        Instruction::WaitKey { x } => {
            assert(!any_pressed(f.keys));
            assert(cycle_spec(s, rand) == (Core { pc: crate::machine::sub16(f.pc, 2), ..f }));
            assert(crate::machine::sub16(f.pc, 2) == s.pc);
        },
        _ => {},
    }
}

/// With a key pressed, a block-for-key cycle lets the program counter
/// advance normally and stores the lowest pressed key code — the
/// deterministic tie-break — in the destination register.
pub proof fn lemma_wait_key_reports(s: Core, rand: u8, x: u8)
    requires
        fetch_ok(s),
        spec_decode(fetched_word(s)) == (Instruction::WaitKey { x }),
        any_pressed(s.keys),
    ensures
        cycle_spec(s, rand).pc == s.pc + 2,
        cycle_spec(s, rand).regs == s.regs.update(x as int, lowest_pressed(s.keys) as u8),
        0 <= lowest_pressed(s.keys) < 16,
        s.keys[lowest_pressed(s.keys)],
        forall|k: int| 0 <= k < lowest_pressed(s.keys) ==> !s.keys[k],
{
    lemma_lowest_props(s.keys);
}

/// A bulk register store followed by a bulk load with the same range
/// and the same index reproduces the register file exactly, and each
/// transfer leaves the index advanced past the range when the
/// store/load quirk is on and untouched when it is off.
pub proof fn lemma_store_load_roundtrip(s: Core, x: u8)
    requires
        s.wf(),
        x < 16,
        s.index + x < 4096,
    ensures
        ({
            let stored = exec_spec(s, Instruction::StoreRegs { x }, 0);
            let reloaded = exec_spec(
                Core { index: s.index, ..stored },
                Instruction::LoadRegs { x },
                0,
            );
            &&& exec_fault(s, Instruction::StoreRegs { x }) is None
            &&& exec_fault(Core { index: s.index, ..stored }, Instruction::LoadRegs { x }) is None
            &&& reloaded.regs == s.regs
            &&& stored.index == store_load_index(s, x as int)
            &&& reloaded.index == store_load_index(s, x as int)
        }),
{
    let stored = exec_spec(s, Instruction::StoreRegs { x }, 0);
    let reloaded = exec_spec(Core { index: s.index, ..stored }, Instruction::LoadRegs { x }, 0);
    assert(reloaded.regs =~= s.regs);
}

/// Executing an instruction never decrements a timer: a cycle leaves
/// the delay timer untouched unless the instruction writes it, and
/// likewise for the sound timer. Timers decrement only in the 60 Hz
/// frame tick (`frame_finish`), once per frame, however many cycles the
/// frame ran.
pub proof fn lemma_cycle_timers(s: Core, rand: u8)
    requires
        fetch_ok(s),
    ensures
        !(spec_decode(fetched_word(s)) matches Instruction::SetDelay { .. }) ==> cycle_spec(
            s,
            rand,
        ).delay == s.delay,
        !(spec_decode(fetched_word(s)) matches Instruction::SetSound { .. }) ==> cycle_spec(
            s,
            rand,
        ).sound == s.sound,
{
}

/// A draw changes no pixel outside its clipped target rectangle: rows
/// past the bottom edge and columns past the right edge are discarded,
/// never wrapped to the opposite side.
pub proof fn lemma_draw_clips(s: Core, x: u8, y: u8, n: u8, px: int, py: int)
    requires
        s.wf(),
        0 <= px < 64,
        0 <= py < 32,
        !draw_covers(s, x as int, y as int, n as int, px, py),
    ensures
        exec_spec(s, Instruction::Draw { x, y, n }, 0).fb[pix(px, py)] == s.fb[pix(px, py)],
{
    lemma_pix_decomp(px, py);
}

/// On a dark screen a draw never collides; drawing the identical sprite
/// again at the same spot erases it, returning the screen to dark, and
/// that second draw collides exactly when the sprite put any pixel on
/// the screen at all.
pub proof fn lemma_draw_twice_on_clear(s: Core, x: u8, y: u8, n: u8)
    requires
        s.wf(),
        x < 15,
        y < 15,
        n < 16,
        forall|p: int| 0 <= p < 2048 ==> !s.fb[p],
    ensures
        ({
            let once = exec_spec(s, Instruction::Draw { x, y, n }, 0);
            let twice = exec_spec(once, Instruction::Draw { x, y, n }, 0);
            &&& once.regs[15] == 0
            &&& twice.fb == s.fb
            &&& (twice.regs[15] == 1 <==> exists|px: int, py: int|
                0 <= px < 64 && 0 <= py < 32 && #[trigger] draw_covers(
                    s,
                    x as int,
                    y as int,
                    n as int,
                    px,
                    py,
                ) && draw_sprite_on(s, x as int, y as int, px, py))
        }),
{
    let gx = x as int;
    let gy = y as int;
    let gn = n as int;
    let once = exec_spec(s, Instruction::Draw { x, y, n }, 0);
    let twice = exec_spec(once, Instruction::Draw { x, y, n }, 0);
    assert forall|px: int, py: int|
        0 <= px < 64 && 0 <= py < 32 implies !(#[trigger] draw_covers(s, gx, gy, gn, px, py)
        && draw_sprite_on(s, gx, gy, px, py) && s.fb[pix(px, py)]) by {
        lemma_pix_decomp(px, py);
    }
    assert(once.regs[15] == 0);
    assert(once.regs[gx] == s.regs[gx] && once.regs[gy] == s.regs[gy]);
    assert forall|p: int| 0 <= p < 2048 implies #[trigger] twice.fb[p] == s.fb[p] by {
        lemma_pix_decomp(p % 64, p / 64);
    }
    assert(twice.fb =~= s.fb);
    if exists|px: int, py: int|
        0 <= px < 64 && 0 <= py < 32 && #[trigger] draw_covers(s, gx, gy, gn, px, py)
            && draw_sprite_on(s, gx, gy, px, py) {
        let (px, py) = choose|px: int, py: int|
            0 <= px < 64 && 0 <= py < 32 && #[trigger] draw_covers(s, gx, gy, gn, px, py)
                && draw_sprite_on(s, gx, gy, px, py);
        lemma_pix_decomp(px, py);
        assert(once.fb[pix(px, py)]);
        assert(twice.regs[15] == 1);
    }
    if twice.regs[15] == 1 {
        let (px, py) = choose|px: int, py: int|
            0 <= px < 64 && 0 <= py < 32 && #[trigger] draw_covers(once, gx, gy, gn, px, py)
                && draw_sprite_on(once, gx, gy, px, py) && once.fb[pix(px, py)];
        lemma_pix_decomp(px, py);
        assert(draw_covers(s, gx, gy, gn, px, py) && draw_sprite_on(s, gx, gy, px, py));
    }
}

} // verus!
