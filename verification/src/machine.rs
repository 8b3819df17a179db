//! The mathematical model of the interpreter: a ghost state record and the
//! spec-level transition semantics that every executable method is proved
//! against.
use vstd::prelude::*;

use crate::decode::Instruction;
use crate::decode::spec_decode;

verus! {

/// Memory size in bytes.
pub const MEM_SIZE: u16 = 4096;

/// Address at which a loaded program begins and where the program counter
/// starts.
pub const PC_START: u16 = 512;

/// Base address of the preloaded font table.
pub const FONT_BASE: u16 = 0x50;

/// Display width in pixels.
pub const DISPLAY_WIDTH: u8 = 64;

/// Display height in pixels.
pub const DISPLAY_HEIGHT: u8 = 32;

/// Default instruction rate, in fetch/decode/execute cycles per second.
pub const DEFAULT_CYCLE_RATE: u16 = 700;

/// A condition on which the interpreter halts instead of corrupting state:
/// a return with no saved address, or an effective address outside memory.
/// Unknown instructions are *not* faults; they are reported and skipped.
#[derive(Clone, Copy, Debug, PartialEq, Eq, Structural)]
pub enum Fault {
    /// A return instruction found the call stack empty. The policy here is
    /// a deterministic halt: the program is malformed.
    StackUnderflow,
    /// The program counter does not point at two readable bytes.
    PcOutOfBounds,
    /// An index-relative access (sprite read, decimal store, bulk
    /// store/load) would touch an address at or beyond memory size.
    IndexOutOfBounds,
}

/// The complete interpreter state, as mathematical values.
pub ghost struct Core {
    /// 4096 bytes of memory.
    pub mem: Seq<u8>,
    /// The sixteen 8-bit variable registers; index 15 doubles as the flag.
    pub regs: Seq<u8>,
    /// Program counter: address of the next instruction to fetch.
    pub pc: u16,
    /// Index register.
    pub index: u16,
    /// Call stack of return addresses, most recent last.
    pub stack: Seq<u16>,
    /// Delay timer, decremented once per frame tick.
    pub delay: u8,
    /// Sound timer, decremented once per frame tick; the beep is on while
    /// it is nonzero.
    pub sound: u8,
    /// Which of the sixteen logical keys are currently held down.
    pub keys: Seq<bool>,
    /// The 64x32 framebuffer, row-major, true = lit.
    pub fb: Seq<bool>,
    /// Whether an executed instruction has requested a redraw since the
    /// last present.
    pub redraw: bool,
    /// Shift-source quirk: shifts read the `y` register instead of `x`.
    pub shift_quirk: bool,
    /// Jump-with-offset quirk: the offset register is register 0 instead
    /// of the one named by the instruction's `x` nibble.
    pub jump_quirk: bool,
    /// Store/load quirk: bulk transfers advance the index register.
    pub index_quirk: bool,
}

impl Core {
    /// The fixed dimensions of the state.
    pub open spec fn wf(self) -> bool {
        &&& self.mem.len() == 4096
        &&& self.regs.len() == 16
        &&& self.keys.len() == 16
        &&& self.fb.len() == 2048
    }
}

/// 16-bit wraparound addition.
pub open spec fn add16(a: u16, b: u16) -> u16 {
    ((a + b) % 0x10000) as u16
}

/// 16-bit wraparound subtraction.
pub open spec fn sub16(a: u16, b: u16) -> u16 {
    (((a - b) % 0x10000 + 0x10000) % 0x10000) as u16
}

/// An integer reduced to one byte, wrapping.
pub open spec fn wrap8(v: int) -> u8 {
    (((v % 256) + 256) % 256) as u8
}

/// How byte wraparound evaluates on the ranges arithmetic produces.
pub proof fn lemma_wrap8(v: int)
    ensures
        0 <= v ==> wrap8(v) == v % 256,
        -256 <= v < 0 ==> wrap8(v) == v + 256,
{
}

/// Whether any logical key is currently held down.
pub open spec fn any_pressed(keys: Seq<bool>) -> bool {
    exists|k: int| 0 <= k < 16 && keys[k]
}

/// The lowest pressed key code at or above `k`; 16 when none is.
pub open spec fn lowest_pressed_from(keys: Seq<bool>, k: int) -> int
    decreases 16 - k,
{
    if k < 0 || k >= 16 {
        16
    } else if keys[k] {
        k
    } else {
        lowest_pressed_from(keys, k + 1)
    }
}

/// The lowest pressed key code; 16 when no key is down. This is the
/// deterministic tie-break used by the block-for-key instruction.
pub open spec fn lowest_pressed(keys: Seq<bool>) -> int {
    lowest_pressed_from(keys, 0)
}

/// When a key at or above `k` is down, the scan from `k` finds the
/// lowest such key.
proof fn lemma_lowest_props_from(keys: Seq<bool>, k: int)
    requires
        0 <= k <= 16,
        exists|j: int| k <= j < 16 && keys[j],
    ensures
        k <= lowest_pressed_from(keys, k) < 16,
        keys[lowest_pressed_from(keys, k)],
        forall|j: int| k <= j < lowest_pressed_from(keys, k) ==> !keys[j],
    decreases 16 - k,
{
    if !keys[k] {
        let w = choose|j: int| k <= j < 16 && keys[j];
        assert(k + 1 <= w < 16 && keys[w]);
        lemma_lowest_props_from(keys, k + 1);
    }
}

/// When any key is down, the block-for-key tie-break picks a pressed
/// key, and no lower key is pressed.
pub proof fn lemma_lowest_props(keys: Seq<bool>)
    requires
        any_pressed(keys),
    ensures
        0 <= lowest_pressed(keys) < 16,
        keys[lowest_pressed(keys)],
        forall|j: int| 0 <= j < lowest_pressed(keys) ==> !keys[j],
{
    lemma_lowest_props_from(keys, 0);
}

/// Scanning past unpressed keys does not change the lowest pressed key.
pub proof fn lemma_lowest_skip(keys: Seq<bool>, k: int)
    requires
        0 <= k <= 16,
        forall|j: int| 0 <= j < k ==> !keys[j],
    ensures
        lowest_pressed(keys) == lowest_pressed_from(keys, k),
    decreases k,
{
    if k > 0 {
        lemma_lowest_skip(keys, k - 1);
    }
}

/// Framebuffer position of pixel column `px`, row `py`.
pub open spec fn pix(px: int, py: int) -> int {
    py * 64 + px
}

/// A pixel coordinate pair and its framebuffer position determine each
/// other.
pub proof fn lemma_pix_decomp(px: int, py: int)
    requires
        0 <= px < 64,
        0 <= py < 32,
    ensures
        pix(px, py) % 64 == px,
        pix(px, py) / 64 == py,
        0 <= pix(px, py) < 2048,
{
    vstd::arithmetic::div_mod::lemma_fundamental_div_mod_converse(pix(px, py), 64, py, px);
}

/// A framebuffer position splits into its column and row.
pub proof fn lemma_p_decomp(p: int)
    requires
        0 <= p < 2048,
    ensures
        p == pix(p % 64, p / 64),
        0 <= p % 64 < 64,
        0 <= p / 64 < 32,
{
    vstd::arithmetic::div_mod::lemma_fundamental_div_mod(p, 64);
}

/// Bit `c` of a sprite byte, counting the most significant bit as column 0.
pub open spec fn sprite_row_bit(b: u8, c: int) -> bool {
    (b >> ((7 - c) as u8)) & 1 == 1
}

/// Start column of a draw: the `x` register wrapped once at entry.
pub open spec fn draw_vx(s: Core, x: int) -> int {
    s.regs[x] as int % 64
}

/// Start row of a draw: the `y` register wrapped once at entry.
pub open spec fn draw_vy(s: Core, y: int) -> int {
    s.regs[y] as int % 32
}

/// How many sprite rows are actually drawn: clipped at the bottom edge,
/// never wrapped.
pub open spec fn draw_rows(s: Core, y: int, n: int) -> int {
    if n <= 32 - draw_vy(s, y) {
        n
    } else {
        32 - draw_vy(s, y)
    }
}

/// How many sprite columns are actually drawn: clipped at the right edge,
/// never wrapped.
pub open spec fn draw_cols(s: Core, x: int) -> int {
    if 8 <= 64 - draw_vx(s, x) {
        8
    } else {
        64 - draw_vx(s, x)
    }
}

/// Whether pixel (`px`, `py`) lies in the clipped target rectangle of a
/// draw instruction.
pub open spec fn draw_covers(s: Core, x: int, y: int, n: int, px: int, py: int) -> bool {
    &&& draw_vx(s, x) <= px < draw_vx(s, x) + draw_cols(s, x)
    &&& draw_vy(s, y) <= py < draw_vy(s, y) + draw_rows(s, y, n)
}

/// Whether the sprite bit aimed at pixel (`px`, `py`) is set.
pub open spec fn draw_sprite_on(s: Core, x: int, y: int, px: int, py: int) -> bool {
    sprite_row_bit(s.mem[s.index + (py - draw_vy(s, y))], px - draw_vx(s, x))
}

/// The framebuffer after a draw: covered pixels aimed at by a set sprite
/// bit are toggled (XOR compositing); every other pixel is untouched.
pub open spec fn draw_fb(s: Core, x: int, y: int, n: int) -> Seq<bool> {
    Seq::new(2048, |p: int| {
        let px = p % 64;
        let py = p / 64;
        if draw_covers(s, x, y, n, px, py) && draw_sprite_on(s, x, y, px, py) {
            !s.fb[p]
        } else {
            s.fb[p]
        }
    })
}

/// Whether a draw turns any lit pixel off: a set sprite bit lands on a
/// lit pixel inside the clipped rectangle.
pub open spec fn draw_collision(s: Core, x: int, y: int, n: int) -> bool {
    exists|px: int, py: int|
        0 <= px < 64 && 0 <= py < 32 && draw_covers(s, x, y, n, px, py) && draw_sprite_on(
            s,
            x,
            y,
            px,
            py,
        ) && s.fb[pix(px, py)]
}

/// Memory after a bulk register store: bytes `index ..= index + x` hold
/// registers `0 ..= x`, everything else is untouched.
pub open spec fn store_mem(s: Core, x: int) -> Seq<u8> {
    Seq::new(4096, |a: int| {
        if s.index <= a <= s.index + x {
            s.regs[a - s.index]
        } else {
            s.mem[a]
        }
    })
}

/// Registers after a bulk load: registers `0 ..= x` hold bytes
/// `index ..= index + x`, the higher registers are untouched.
pub open spec fn load_regs(s: Core, x: int) -> Seq<u8> {
    Seq::new(16, |i: int| {
        if i <= x {
            s.mem[s.index + i]
        } else {
            s.regs[i]
        }
    })
}

/// The index register after a bulk store/load: advanced past the
/// transferred range when the store/load quirk is on, untouched otherwise.
pub open spec fn store_load_index(s: Core, x: int) -> u16 {
    if s.index_quirk {
        add16(s.index, (x + 1) as u16)
    } else {
        s.index
    }
}

/// Whether a conditional-skip instruction's condition holds in state `s`.
/// Key skips test the key named by the instruction's own `x` nibble.
pub open spec fn skip_cond(s: Core, ins: Instruction) -> bool {
    match ins {
        Instruction::SkipEqImm { x, nn } => s.regs[x as int] == nn,
        Instruction::SkipNeImm { x, nn } => s.regs[x as int] != nn,
        Instruction::SkipEqReg { x, y } => s.regs[x as int] == s.regs[y as int],
        Instruction::SkipNeReg { x, y } => s.regs[x as int] != s.regs[y as int],
        Instruction::SkipKeyDown { x } => s.keys[x as int],
        Instruction::SkipKeyUp { x } => !s.keys[x as int],
        _ => false,
    }
}

/// Whether `ins` is one of the six conditional-skip instructions.
pub open spec fn is_skip(ins: Instruction) -> bool {
    ins matches Instruction::SkipEqImm { .. } || ins matches Instruction::SkipNeImm { .. }
        || ins matches Instruction::SkipEqReg { .. } || ins matches Instruction::SkipNeReg { .. }
        || ins matches Instruction::SkipKeyDown { .. } || ins matches Instruction::SkipKeyUp { .. }
}

/// The fault, if any, that executing `ins` in state `s` would raise.
/// Faults depend only on the pre-state, never on the random byte, and a
/// faulting instruction leaves the state unchanged.
pub open spec fn exec_fault(s: Core, ins: Instruction) -> Option<Fault> {
    match ins {
        Instruction::Return => {
            if s.stack.len() == 0 {
                Some(Fault::StackUnderflow)
            } else {
                None
            }
        },
        Instruction::Draw { x, y, n } => {
            if draw_rows(s, y as int, n as int) > 0 && s.index + draw_rows(s, y as int, n as int)
                > 4096 {
                Some(Fault::IndexOutOfBounds)
            } else {
                None
            }
        },
        Instruction::StoreBcd { x } => {
            if s.index + 2 >= 4096 {
                Some(Fault::IndexOutOfBounds)
            } else {
                None
            }
        },
        Instruction::StoreRegs { x } => {
            if s.index + x >= 4096 {
                Some(Fault::IndexOutOfBounds)
            } else {
                None
            }
        },
        Instruction::LoadRegs { x } => {
            if s.index + x >= 4096 {
                Some(Fault::IndexOutOfBounds)
            } else {
                None
            }
        },
        _ => None,
    }
}

/// The state after executing one already-decoded, non-faulting instruction.
/// `rand` is the byte the random-AND instruction combines with its mask;
/// no other instruction reads it. The program counter has already been
/// advanced past the instruction by the fetch.
pub open spec fn exec_spec(s: Core, ins: Instruction, rand: u8) -> Core {
    match ins {
        Instruction::ClearScreen => Core {
            fb: Seq::new(2048, |p: int| false),
            redraw: true,
            ..s
        },
        Instruction::Return => {
            if s.stack.len() > 0 {
                Core { pc: s.stack.last(), stack: s.stack.drop_last(), ..s }
            } else {
                s
            }
        },
        Instruction::Jump { nnn } => Core { pc: nnn, ..s },
        Instruction::Call { nnn } => Core { pc: nnn, stack: s.stack.push(s.pc), ..s },
        Instruction::SkipEqImm { .. } | Instruction::SkipNeImm { .. } | Instruction::SkipEqReg {
            ..
        } | Instruction::SkipNeReg { .. } | Instruction::SkipKeyDown { .. }
            | Instruction::SkipKeyUp { .. } => {
            if skip_cond(s, ins) {
                Core { pc: add16(s.pc, 2), ..s }
            } else {
                s
            }
        },
        Instruction::SetImm { x, nn } => Core { regs: s.regs.update(x as int, nn), ..s },
        Instruction::AddImm { x, nn } => Core {
            regs: s.regs.update(x as int, wrap8(s.regs[x as int] + nn)),
            ..s
        },
        Instruction::CopyReg { x, y } => Core {
            regs: s.regs.update(x as int, s.regs[y as int]),
            ..s
        },
        Instruction::OrReg { x, y } => Core {
            regs: s.regs.update(x as int, s.regs[x as int] | s.regs[y as int]),
            ..s
        },
        Instruction::AndReg { x, y } => Core {
            regs: s.regs.update(x as int, s.regs[x as int] & s.regs[y as int]),
            ..s
        },
        Instruction::XorReg { x, y } => Core {
            regs: s.regs.update(x as int, s.regs[x as int] ^ s.regs[y as int]),
            ..s
        },
        Instruction::AddReg { x, y } => {
            let sum = s.regs[x as int] + s.regs[y as int];
            let flag: u8 = if sum > 255 {
                1
            } else {
                0
            };
            Core { regs: s.regs.update(x as int, wrap8(sum)).update(15, flag), ..s }
        },
        Instruction::SubReg { x, y } => {
            let flag: u8 = if s.regs[x as int] >= s.regs[y as int] {
                1
            } else {
                0
            };
            Core {
                regs: s.regs.update(x as int, wrap8(s.regs[x as int] - s.regs[y as int])).update(
                    15,
                    flag,
                ),
                ..s
            }
        },
        Instruction::ShrReg { x, y } => {
            let val = if s.shift_quirk {
                s.regs[y as int]
            } else {
                s.regs[x as int]
            };
            Core { regs: s.regs.update(x as int, val >> 1).update(15, val & 1), ..s }
        },
        Instruction::SubnReg { x, y } => {
            let flag: u8 = if s.regs[y as int] >= s.regs[x as int] {
                1
            } else {
                0
            };
            Core {
                regs: s.regs.update(x as int, wrap8(s.regs[y as int] - s.regs[x as int])).update(
                    15,
                    flag,
                ),
                ..s
            }
        },
        Instruction::ShlReg { x, y } => {
            let val = if s.shift_quirk {
                s.regs[y as int]
            } else {
                s.regs[x as int]
            };
            Core {
                regs: s.regs.update(x as int, val << 1).update(15, val >> 7),
                ..s
            }
        },
        Instruction::SetIndex { nnn } => Core { index: nnn, ..s },
        Instruction::JumpOffset { x, nnn } => {
            let r = if s.jump_quirk {
                s.regs[0]
            } else {
                s.regs[x as int]
            };
            Core { pc: add16(nnn, r as u16), ..s }
        },
        Instruction::RandomAnd { x, nn } => Core {
            regs: s.regs.update(x as int, rand & nn),
            ..s
        },
        Instruction::Draw { x, y, n } => Core {
            fb: draw_fb(s, x as int, y as int, n as int),
            regs: s.regs.update(15, if draw_collision(s, x as int, y as int, n as int) {
                1u8
            } else {
                0u8
            }),
            redraw: true,
            ..s
        },
        Instruction::ReadDelay { x } => Core { regs: s.regs.update(x as int, s.delay), ..s },
        Instruction::SetDelay { x } => Core { delay: s.regs[x as int], ..s },
        Instruction::SetSound { x } => Core { sound: s.regs[x as int], ..s },
        Instruction::AddIndex { x } => Core {
            index: add16(s.index, s.regs[x as int] as u16),
            ..s
        },
        Instruction::WaitKey { x } => {
            if any_pressed(s.keys) {
                Core { regs: s.regs.update(x as int, lowest_pressed(s.keys) as u8), ..s }
            } else {
                Core { pc: sub16(s.pc, 2), ..s }
            }
        },
        Instruction::FontAddr { x } => Core {
            index: (FONT_BASE + s.regs[x as int] * 5) as u16,
            ..s
        },
        Instruction::StoreBcd { x } => {
            let v = s.regs[x as int];
            Core {
                mem: s.mem.update(s.index as int, (v / 100) as u8).update(
                    s.index + 1,
                    ((v / 10) % 10) as u8,
                ).update(s.index + 2, (v % 10) as u8),
                ..s
            }
        },
        Instruction::StoreRegs { x } => Core {
            mem: store_mem(s, x as int),
            index: store_load_index(s, x as int),
            ..s
        },
        Instruction::LoadRegs { x } => Core {
            regs: load_regs(s, x as int),
            index: store_load_index(s, x as int),
            ..s
        },
        Instruction::Unknown { word } => s,
    }
}

/// Whether the program counter points at two readable bytes.
pub open spec fn fetch_ok(s: Core) -> bool {
    s.pc + 1 < 4096
}

/// The big-endian instruction word at the program counter.
pub open spec fn fetched_word(s: Core) -> u16 {
    (s.mem[s.pc as int] as u16) << 8 | s.mem[s.pc + 1] as u16
}

/// The state right after a fetch: the program counter has moved past the
/// two instruction bytes, nothing else has changed.
pub open spec fn after_fetch(s: Core) -> Core {
    Core { pc: (s.pc + 2) as u16, ..s }
}

/// The fault, if any, that one whole fetch/decode/execute cycle from `s`
/// raises. Independent of the random byte.
pub open spec fn cycle_fault_of(s: Core) -> Option<Fault> {
    if !fetch_ok(s) {
        Some(Fault::PcOutOfBounds)
    } else {
        exec_fault(after_fetch(s), spec_decode(fetched_word(s)))
    }
}

/// The state a faulting cycle halts in: untouched when the fetch itself
/// failed, otherwise exactly the fetched state (the program counter has
/// already advanced).
pub open spec fn cycle_fault_state(s: Core) -> Core {
    if !fetch_ok(s) {
        s
    } else {
        after_fetch(s)
    }
}

/// Whether a cycle from `s` runs to completion.
pub open spec fn cycle_ok(s: Core) -> bool {
    cycle_fault_of(s) is None
}

/// One complete non-faulting fetch/decode/execute cycle.
pub open spec fn cycle_spec(s: Core, rand: u8) -> Core {
    exec_spec(after_fetch(s), spec_decode(fetched_word(s)), rand)
}

/// One non-faulting cycle leads from `a` to `b`, for some random byte.
pub open spec fn cycle_to(a: Core, b: Core) -> bool {
    cycle_ok(a) && exists|rand: u8| b == #[trigger] cycle_spec(a, rand)
}

/// Every adjacent pair of states in the trace is one non-faulting cycle.
pub open spec fn chain_ok(tr: Seq<Core>) -> bool {
    forall|i: int| 0 <= i < tr.len() - 1 ==> cycle_to(tr[i], #[trigger] tr[i + 1])
}

/// `post` is reachable from `pre` by exactly `n` non-faulting cycles, for
/// some choice of random bytes: a trace of `n + 1` states links them.
pub open spec fn burst_rel(pre: Core, post: Core, n: nat) -> bool {
    exists|tr: Seq<Core>|
        #[trigger] chain_ok(tr) && tr.len() == n + 1 && tr.first() == pre && tr.last() == post
}

/// The empty burst: zero cycles reach exactly the start state.
pub proof fn lemma_burst_zero(pre: Core)
    ensures
        burst_rel(pre, pre, 0),
{
    let tr = seq![pre];
    assert(chain_ok(tr));
    assert(tr.first() == pre && tr.last() == pre);
}

/// Extending a burst by one more cycle at its end.
pub proof fn lemma_burst_snoc(pre: Core, mid: Core, n: nat, rand: u8)
    requires
        burst_rel(pre, mid, n),
        cycle_ok(mid),
    ensures
        burst_rel(pre, cycle_spec(mid, rand), n + 1),
{
    let tr = choose|tr: Seq<Core>|
        #[trigger] chain_ok(tr) && tr.len() == n + 1 && tr.first() == pre && tr.last() == mid;
    let post = cycle_spec(mid, rand);
    let tr2 = tr.push(post);
    assert(cycle_to(mid, post));
    assert forall|i: int| 0 <= i < tr2.len() - 1 implies cycle_to(tr2[i], #[trigger] tr2[i + 1]) by {
        if i < tr.len() - 1 {
            assert(cycle_to(tr[i], tr[i + 1]));
            assert(tr2[i] == tr[i] && tr2[i + 1] == tr[i + 1]);
        } else {
            assert(tr2[i] == tr.last() && tr2[i + 1] == post);
        }
    }
    assert(chain_ok(tr2));
    assert(tr2.len() == n + 2 && tr2.first() == pre && tr2.last() == post);
}

/// The end of one 60 Hz frame: each timer decrements exactly once (and
/// saturates at zero), and the coalesced redraw request is cleared. This
/// is the only place a timer ever decrements.
pub open spec fn frame_finish(s: Core) -> Core {
    Core {
        delay: if s.delay > 0 {
            (s.delay - 1) as u8
        } else {
            0
        },
        sound: if s.sound > 0 {
            (s.sound - 1) as u8
        } else {
            0
        },
        redraw: false,
        ..s
    }
}

} // verus!
