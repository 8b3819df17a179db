//! The interpreter itself: owned state, construction, ROM loading, key
//! notifications, timers, the fetch step, the thirty-five instruction
//! behaviors, and the cycle and frame drivers — every method proved
//! against the transition semantics in `machine`.
use vstd::prelude::*;
use vstd::pervasive::VecAdditionalExecFns;

use crate::font::load_fonts;
use crate::font::spec_load_fonts;
use crate::keymap::map_key;
use crate::keymap::spec_map_key;
use crate::decode::Instruction;
use crate::decode::decode;
use crate::decode::ins_wf;
use crate::decode::spec_decode;
use crate::machine::Core;
use crate::machine::burst_rel;
use crate::machine::cycle_fault_of;
use crate::machine::cycle_fault_state;
use crate::machine::cycle_ok;
use crate::machine::cycle_spec;
use crate::machine::frame_finish;
use crate::machine::lemma_burst_snoc;
use crate::machine::lemma_burst_zero;
use crate::rng::random_byte;
use crate::machine::Fault;
use crate::machine::add16;
use crate::machine::any_pressed;
use crate::machine::exec_fault;
use crate::machine::exec_spec;
use crate::machine::fetch_ok;
use crate::machine::fetched_word;
use crate::machine::after_fetch;
use crate::machine::lemma_lowest_skip;
use crate::machine::lowest_pressed;
use crate::machine::load_regs;
use crate::machine::store_mem;
use crate::machine::sub16;
use crate::machine::lemma_wrap8;
use crate::machine::wrap8;
use crate::machine::draw_vx;
use crate::machine::draw_vy;
use crate::machine::draw_rows;
use crate::machine::draw_cols;
use crate::machine::draw_covers;
use crate::machine::draw_sprite_on;
use crate::machine::draw_fb;
use crate::machine::draw_collision;
use crate::machine::pix;
use crate::machine::lemma_pix_decomp;
use crate::machine::lemma_p_decomp;

verus! {

/// Memory after a program image is copied in at the program origin:
/// the image occupies `512 ..` and every other byte is untouched.
pub open spec fn spec_load_rom(mem: Seq<u8>, rom: Seq<u8>) -> Seq<u8> {
    Seq::new(mem.len(), |i: int|
        if 512 <= i < 512 + rom.len() {
            rom[i - 512]
        } else {
            mem[i]
        })
}

/// A CHIP-8 interpreter: memory with the font preloaded, sixteen
/// registers, program counter, index register, call stack, two 60 Hz
/// timers, the pressed-key set, the 64x32 framebuffer, and the three
/// quirk toggles fixed at construction.
pub struct Emulator {
    memory: Vec<u8>,
    pc: u16,
    stack: Vec<u16>,
    index_register: u16,
    var_registers: Vec<u8>,
    delay_timer: u8,
    sound_timer: u8,
    op_shift_original: bool,
    op_jump_with_offset_original: bool,
    op_store_and_load_original: bool,
    pressed_keys: Vec<bool>,
    framebuffer: Vec<bool>,
    should_draw: bool,
    cycle_rate: u16,
}

impl View for Emulator {
    type V = Core;

    closed spec fn view(&self) -> Core {
        Core {
            mem: self.memory@,
            regs: self.var_registers@,
            pc: self.pc,
            index: self.index_register,
            stack: self.stack@,
            delay: self.delay_timer,
            sound: self.sound_timer,
            keys: self.pressed_keys@,
            fb: self.framebuffer@,
            redraw: self.should_draw,
            shift_quirk: self.op_shift_original,
            jump_quirk: self.op_jump_with_offset_original,
            index_quirk: self.op_store_and_load_original,
        }
    }
}

/// Whether pixel position `p` has already been processed by a draw that
/// has finished the sprite rows before `i` and, in row `i`, the columns
/// before `j`.
spec fn drawn_upto(s: Core, x: int, y: int, n: int, p: int, i: int, j: int) -> bool {
    let px = p % 64;
    let py = p / 64;
    draw_covers(s, x, y, n, px, py) && (py - draw_vy(s, y) < i || (py - draw_vy(s, y) == i && px
        - draw_vx(s, x) < j))
}

/// The framebuffer part-way through a draw: processed pixels aimed at by
/// a set sprite bit are toggled, everything else still holds its old
/// value.
spec fn fb_upto(s: Core, x: int, y: int, n: int, i: int, j: int) -> Seq<bool> {
    Seq::new(2048, |p: int|
        if drawn_upto(s, x, y, n, p, i, j) && draw_sprite_on(s, x, y, p % 64, p / 64) {
            !s.fb[p]
        } else {
            s.fb[p]
        })
}

/// Whether any processed pixel has collided part-way through a draw.
spec fn coll_upto(s: Core, x: int, y: int, n: int, i: int, j: int) -> bool {
    exists|px: int, py: int|
        0 <= px < 64 && 0 <= py < 32 && #[trigger] drawn_upto(s, x, y, n, pix(px, py), i, j)
            && draw_sprite_on(s, x, y, px, py) && s.fb[pix(px, py)]
}

/// A vector of `n` copies of `v`.
fn filled<T: Copy>(n: usize, v: T) -> (r: Vec<T>)
    ensures
        r@ == Seq::new(n as nat, |i: int| v),
{
    let mut r: Vec<T> = Vec::new();
    while r.len() < n
        invariant
            r@.len() <= n,
            forall|i: int| 0 <= i < r@.len() ==> r@[i] == v,
        decreases n - r@.len(),
    {
        r.push(v);
    }
    proof {
        assert(r@ =~= Seq::new(n as nat, |i: int| v));
    }
    r
}

/// 16-bit wraparound addition, matching [`add16`].
fn wrap_add16(a: u16, b: u16) -> (r: u16)
    ensures
        r == add16(a, b),
{
    if a <= 0xFFFF - b {
        a + b
    } else {
        (((a as u32) + (b as u32)) - 0x10000) as u16
    }
}

/// The program counter stepped back one instruction, matching
/// [`sub16`] by 2.
fn pc_back2(pc: u16) -> (r: u16)
    ensures
        r == sub16(pc, 2),
{
    if pc >= 2 {
        pc - 2
    } else {
        pc + 0xFFFE
    }
}

impl Emulator {
    /// The fixed dimensions of the interpreter state.
    pub open spec fn wf(self) -> bool {
        self@.wf()
    }

    /// The configured instruction rate, in cycles per second.
    pub closed spec fn spec_cycle_rate(self) -> u16 {
        self.cycle_rate
    }

    /// Build an interpreter: memory zeroed with the font preloaded, the
    /// program counter at the program origin, both timers at 60, no keys
    /// pressed, a dark screen, and the given rate and quirk toggles.
    pub fn new(
        cycle_rate: u16,
        op_shift_original: bool,
        op_jump_with_offset_original: bool,
        op_store_and_load_original: bool,
    ) -> (r: Emulator)
        ensures
            r.wf(),
            r@.mem == spec_load_fonts(Seq::new(4096, |i: int| 0u8)),
            r@.regs == Seq::new(16, |i: int| 0u8),
            r@.pc == 512,
            r@.index == 0,
            r@.stack == Seq::<u16>::empty(),
            r@.delay == 60,
            r@.sound == 60,
            r@.keys == Seq::new(16, |i: int| false),
            r@.fb == Seq::new(2048, |i: int| false),
            r@.redraw == false,
            r@.shift_quirk == op_shift_original,
            r@.jump_quirk == op_jump_with_offset_original,
            r@.index_quirk == op_store_and_load_original,
            r.spec_cycle_rate() == cycle_rate,
    {
        let mut memory: Vec<u8> = filled(4096, 0u8);
        load_fonts(&mut memory);
        Emulator {
            memory,
            pc: 512,
            stack: Vec::new(),
            index_register: 0,
            var_registers: filled(16, 0u8),
            delay_timer: 60,
            sound_timer: 60,
            op_shift_original,
            op_jump_with_offset_original,
            op_store_and_load_original,
            pressed_keys: filled(16, false),
            framebuffer: filled(2048, false),
            should_draw: false,
            cycle_rate,
        }
    }

    /// Copy a program image into memory at the program origin. The image
    /// must fit below the end of memory; checking that is the loader's
    /// responsibility.
    pub fn load_rom(&mut self, rom: Vec<u8>)
        requires
            old(self).wf(),
            512 + rom@.len() <= 4096,
        ensures
            final(self).wf(),
            final(self)@ == (Core { mem: spec_load_rom(old(self)@.mem, rom@), ..old(self)@ }),
    {
        let mut idx: usize = 0;
        while idx < rom.len()
            invariant
                self.wf(),
                idx <= rom@.len(),
                512 + rom@.len() <= 4096,
                self@ == (Core { mem: self@.mem, ..old(self)@ }),
                forall|i: int|
                    0 <= i < 4096 ==> self@.mem[i] == if 512 <= i < 512 + idx {
                        rom@[i - 512]
                    } else {
                        old(self)@.mem[i]
                    },
            decreases rom@.len() - idx,
        {
            let b = rom[idx];
            self.memory.set(512 + idx, b);
            idx += 1;
        }
        proof {
            assert(self@.mem =~= spec_load_rom(old(self)@.mem, rom@));
        }
    }

    /// The value of register `i`.
    pub fn reg(&self, i: u8) -> (r: u8)
        requires
            self.wf(),
            i < 16,
        ensures
            r == self@.regs[i as int],
    {
        self.var_registers[i as usize]
    }

    /// Overwrite register `i`.
    pub fn set_reg(&mut self, i: u8, v: u8)
        requires
            old(self).wf(),
            i < 16,
        ensures
            final(self).wf(),
            final(self)@ == (Core { regs: old(self)@.regs.update(i as int, v), ..old(self)@ }),
    {
        self.var_registers.set(i as usize, v);
    }

    /// The program counter.
    pub fn program_counter(&self) -> (r: u16)
        ensures
            r == self@.pc,
    {
        self.pc
    }

    /// Overwrite the program counter.
    pub fn set_program_counter(&mut self, pc: u16)
        requires
            old(self).wf(),
        ensures
            final(self).wf(),
            final(self)@ == (Core { pc: pc, ..old(self)@ }),
    {
        self.pc = pc;
    }

    /// The index register.
    pub fn index(&self) -> (r: u16)
        ensures
            r == self@.index,
    {
        self.index_register
    }

    /// Overwrite the index register.
    pub fn set_index(&mut self, v: u16)
        requires
            old(self).wf(),
        ensures
            final(self).wf(),
            final(self)@ == (Core { index: v, ..old(self)@ }),
    {
        self.index_register = v;
    }

    /// The byte at memory address `addr`.
    pub fn mem_at(&self, addr: u16) -> (r: u8)
        requires
            self.wf(),
            addr < 4096,
        ensures
            r == self@.mem[addr as int],
    {
        self.memory[addr as usize]
    }

    /// Overwrite the byte at memory address `addr`.
    pub fn set_mem(&mut self, addr: u16, v: u8)
        requires
            old(self).wf(),
            addr < 4096,
        ensures
            final(self).wf(),
            final(self)@ == (Core { mem: old(self)@.mem.update(addr as int, v), ..old(self)@ }),
    {
        self.memory.set(addr as usize, v);
    }

    /// The delay timer.
    pub fn delay(&self) -> (r: u8)
        ensures
            r == self@.delay,
    {
        self.delay_timer
    }

    /// The sound timer.
    pub fn sound(&self) -> (r: u8)
        ensures
            r == self@.sound,
    {
        self.sound_timer
    }

    /// How many return addresses the call stack holds.
    pub fn stack_depth(&self) -> (r: usize)
        ensures
            r == self@.stack.len(),
    {
        self.stack.len()
    }

    /// Whether the pixel at column `col`, row `row` is lit.
    pub fn pixel(&self, col: u8, row: u8) -> (r: bool)
        requires
            self.wf(),
            col < 64,
            row < 32,
        ensures
            r == self@.fb[row as int * 64 + col as int],
    {
        self.framebuffer[(row as usize) * 64 + (col as usize)]
    }

    /// Whether a redraw has been requested since the last present.
    pub fn needs_redraw(&self) -> (r: bool)
        ensures
            r == self@.redraw,
    {
        self.should_draw
    }

    /// The configured instruction rate, in cycles per second.
    pub fn rate(&self) -> (r: u16)
        ensures
            r == self.spec_cycle_rate(),
    {
        self.cycle_rate
    }

    /// Record that logical key `key` is now held down.
    pub fn press_key(&mut self, key: u8)
        requires
            old(self).wf(),
            key < 16,
        ensures
            final(self).wf(),
            final(self)@ == (Core {
                keys: old(self)@.keys.update(key as int, true),
                ..old(self)@
            }),
    {
        self.pressed_keys.set(key as usize, true);
    }

    /// Record that logical key `key` has been released.
    pub fn release_key(&mut self, key: u8)
        requires
            old(self).wf(),
            key < 16,
        ensures
            final(self).wf(),
            final(self)@ == (Core {
                keys: old(self)@.keys.update(key as int, false),
                ..old(self)@
            }),
    {
        self.pressed_keys.set(key as usize, false);
    }

    /// Apply one press/release notification from the physical keyboard,
    /// identified by the ASCII code of the key's lower-case label. Keys
    /// outside the fixed sixteen-entry mapping are ignored.
    pub fn handle_key_event(&mut self, label: u8, pressed: bool)
        requires
            old(self).wf(),
        ensures
            final(self).wf(),
            final(self)@ == (match spec_map_key(label) {
                Some(k) => Core {
                    keys: old(self)@.keys.update(k as int, pressed),
                    ..old(self)@
                },
                None => old(self)@,
            }),
    {
        match map_key(label) {
            Some(k) => {
                if pressed {
                    self.press_key(k);
                } else {
                    self.release_key(k);
                }
            },
            None => {},
        }
    }

    /// Decrement the delay timer by one, stopping at zero. Called exactly
    /// once per 60 Hz frame tick, never per instruction.
    pub fn update_delay_timer(&mut self)
        requires
            old(self).wf(),
        ensures
            final(self).wf(),
            final(self)@ == (Core {
                delay: if old(self)@.delay > 0 {
                    (old(self)@.delay - 1) as u8
                } else {
                    0
                },
                ..old(self)@
            }),
    {
        if self.delay_timer > 0 {
            self.delay_timer = self.delay_timer - 1;
        }
    }

    /// Decrement the sound timer by one, stopping at zero, and report
    /// whether the beep should be audible this frame (it is while the
    /// timer is nonzero). Called exactly once per 60 Hz frame tick.
    pub fn update_sound_timer(&mut self) -> (beep: bool)
        requires
            old(self).wf(),
        ensures
            final(self).wf(),
            beep == (old(self)@.sound > 0),
            final(self)@ == (Core {
                sound: if old(self)@.sound > 0 {
                    (old(self)@.sound - 1) as u8
                } else {
                    0
                },
                ..old(self)@
            }),
    {
        if self.sound_timer > 0 {
            self.sound_timer = self.sound_timer - 1;
            true
        } else {
            false
        }
    }

    /// Read the two instruction bytes at the program counter, big-endian,
    /// and advance the counter past them. Fails when the counter does not
    /// point at two readable bytes.
    fn fetch(&mut self) -> (r: Result<u16, Fault>)
        requires
            old(self).wf(),
        ensures
            final(self).wf(),
            fetch_ok(old(self)@) ==> r == Ok::<u16, Fault>(fetched_word(old(self)@))
                && final(self)@ == after_fetch(old(self)@),
            !fetch_ok(old(self)@) ==> r == Err::<u16, Fault>(Fault::PcOutOfBounds)
                && final(self)@ == old(self)@,
    {
        let p = self.pc as usize;
        if p + 1 < 4096 {
            let hi = self.memory[p];
            let lo = self.memory[p + 1];
            let w: u16 = ((hi as u16) << 8) | (lo as u16);
            self.pc = self.pc + 2;
            Ok(w)
        } else {
            Err(Fault::PcOutOfBounds)
        }
    }
}

/// The lowest pressed key code in a sixteen-entry key table; 16 when no
/// key is down.
fn lowest_pressed_key(keys: &Vec<bool>) -> (r: usize)
    requires
        keys@.len() == 16,
    ensures
        r == lowest_pressed(keys@),
        r <= 16,
        r < 16 ==> keys@[r as int] && any_pressed(keys@),
        r == 16 ==> !any_pressed(keys@),
{
    let mut k: usize = 0;
    while k < 16
        invariant
            k <= 16,
            keys@.len() == 16,
            forall|j: int| 0 <= j < k ==> !keys@[j],
        decreases 16 - k,
    {
        if keys[k] {
            proof {
                lemma_lowest_skip(keys@, k as int);
            }
            return k;
        }
        k += 1;
    }
    proof {
        lemma_lowest_skip(keys@, 16);
    }
    16
}

impl Emulator {
    /// 00E0: clear the screen and request a redraw.
    fn exec_00e0(&mut self)
        requires
            old(self).wf(),
        ensures
            final(self).wf(),
            final(self)@ == exec_spec(old(self)@, Instruction::ClearScreen, 0),
    {
        let mut p: usize = 0;
        while p < 2048
            invariant
                old(self).wf(),
                self.wf(),
                p <= 2048,
                self@ == (Core { fb: self@.fb, ..old(self)@ }),
                forall|i: int| 0 <= i < p ==> !self@.fb[i],
                forall|i: int| p <= i < 2048 ==> self@.fb[i] == old(self)@.fb[i],
            decreases 2048 - p,
        {
            self.framebuffer.set(p, false);
            p += 1;
        }
        self.should_draw = true;
        proof {
            assert(self@.fb =~= Seq::new(2048, |q: int| false));
        }
    }

    /// 00EE: return from a subroutine, popping the saved address into the
    /// program counter. An empty stack is a deterministic halt.
    fn exec_00ee(&mut self) -> (r: Result<(), Fault>)
        requires
            old(self).wf(),
        ensures
            final(self).wf(),
            (match exec_fault(old(self)@, Instruction::Return) {
                Some(f) => r == Err::<(), Fault>(f) && final(self)@ == old(self)@,
                None => r == Ok::<(), Fault>(()) && final(self)@ == exec_spec(
                    old(self)@,
                    Instruction::Return,
                    0,
                ),
            }),
    {
        match self.stack.pop() {
            Some(addr) => {
                self.pc = addr;
                Ok(())
            },
            None => Err(Fault::StackUnderflow),
        }
    }

    /// 1NNN: jump.
    fn exec_1nnn(&mut self, nnn: u16)
        requires
            old(self).wf(),
        ensures
            final(self).wf(),
            final(self)@ == exec_spec(old(self)@, Instruction::Jump { nnn }, 0),
    {
        self.pc = nnn;
    }

    /// 2NNN: call the subroutine at `nnn`, saving the current program
    /// counter on the stack.
    fn exec_2nnn(&mut self, nnn: u16)
        requires
            old(self).wf(),
        ensures
            final(self).wf(),
            final(self)@ == exec_spec(old(self)@, Instruction::Call { nnn }, 0),
    {
        self.stack.push(self.pc);
        self.pc = nnn;
    }

    /// 3XNN: skip the next instruction when register `x` equals `nn`.
    fn exec_3xnn(&mut self, x: u8, nn: u8)
        requires
            old(self).wf(),
            x < 16,
        ensures
            final(self).wf(),
            final(self)@ == exec_spec(old(self)@, Instruction::SkipEqImm { x, nn }, 0),
    {
        if self.var_registers[x as usize] == nn {
            self.pc = wrap_add16(self.pc, 2);
        }
    }

    /// 4XNN: skip the next instruction when register `x` differs from `nn`.
    fn exec_4xnn(&mut self, x: u8, nn: u8)
        requires
            old(self).wf(),
            x < 16,
        ensures
            final(self).wf(),
            final(self)@ == exec_spec(old(self)@, Instruction::SkipNeImm { x, nn }, 0),
    {
        if self.var_registers[x as usize] != nn {
            self.pc = wrap_add16(self.pc, 2);
        }
    }

    /// 5XY0: skip the next instruction when registers `x` and `y` are equal.
    fn exec_5xy0(&mut self, x: u8, y: u8)
        requires
            old(self).wf(),
            x < 16,
            y < 16,
        ensures
            final(self).wf(),
            final(self)@ == exec_spec(old(self)@, Instruction::SkipEqReg { x, y }, 0),
    {
        if self.var_registers[x as usize] == self.var_registers[y as usize] {
            self.pc = wrap_add16(self.pc, 2);
        }
    }

    /// 6XNN: load the immediate into register `x`.
    fn exec_6xnn(&mut self, x: u8, nn: u8)
        requires
            old(self).wf(),
            x < 16,
        ensures
            final(self).wf(),
            final(self)@ == exec_spec(old(self)@, Instruction::SetImm { x, nn }, 0),
    {
        self.var_registers.set(x as usize, nn);
    }

    /// 7XNN: add the immediate to register `x`, wrapping, with no flag
    /// effect.
    fn exec_7xnn(&mut self, x: u8, nn: u8)
        requires
            old(self).wf(),
            x < 16,
        ensures
            final(self).wf(),
            final(self)@ == exec_spec(old(self)@, Instruction::AddImm { x, nn }, 0),
    {
        let sum: u16 = (self.var_registers[x as usize] as u16) + (nn as u16);
        proof {
            lemma_wrap8(sum as int);
        }
        self.var_registers.set(x as usize, (sum % 256) as u8);
    }

    /// 8XY0: copy register `y` into register `x`.
    fn exec_8xy0(&mut self, x: u8, y: u8)
        requires
            old(self).wf(),
            x < 16,
            y < 16,
        ensures
            final(self).wf(),
            final(self)@ == exec_spec(old(self)@, Instruction::CopyReg { x, y }, 0),
    {
        let vy = self.var_registers[y as usize];
        self.var_registers.set(x as usize, vy);
    }

    /// 8XY1: bitwise OR of registers `x` and `y` into `x`.
    fn exec_8xy1(&mut self, x: u8, y: u8)
        requires
            old(self).wf(),
            x < 16,
            y < 16,
        ensures
            final(self).wf(),
            final(self)@ == exec_spec(old(self)@, Instruction::OrReg { x, y }, 0),
    {
        let v = self.var_registers[x as usize] | self.var_registers[y as usize];
        self.var_registers.set(x as usize, v);
    }

    /// 8XY2: bitwise AND of registers `x` and `y` into `x`.
    fn exec_8xy2(&mut self, x: u8, y: u8)
        requires
            old(self).wf(),
            x < 16,
            y < 16,
        ensures
            final(self).wf(),
            final(self)@ == exec_spec(old(self)@, Instruction::AndReg { x, y }, 0),
    {
        let v = self.var_registers[x as usize] & self.var_registers[y as usize];
        self.var_registers.set(x as usize, v);
    }

    /// 8XY3: bitwise XOR of registers `x` and `y` into `x`.
    fn exec_8xy3(&mut self, x: u8, y: u8)
        requires
            old(self).wf(),
            x < 16,
            y < 16,
        ensures
            final(self).wf(),
            final(self)@ == exec_spec(old(self)@, Instruction::XorReg { x, y }, 0),
    {
        let v = self.var_registers[x as usize] ^ self.var_registers[y as usize];
        self.var_registers.set(x as usize, v);
    }

    /// 8XY4: add register `y` into `x`, wrapping; the flag register is
    /// then set to 1 exactly when the sum overflowed eight bits.
    fn exec_8xy4(&mut self, x: u8, y: u8)
        requires
            old(self).wf(),
            x < 16,
            y < 16,
        ensures
            final(self).wf(),
            final(self)@ == exec_spec(old(self)@, Instruction::AddReg { x, y }, 0),
    {
        let vx = self.var_registers[x as usize];
        let vy = self.var_registers[y as usize];
        let sum: u16 = (vx as u16) + (vy as u16);
        proof {
            lemma_wrap8(sum as int);
        }
        self.var_registers.set(x as usize, (sum % 256) as u8);
        let flag: u8 = if sum > 255 {
            1
        } else {
            0
        };
        self.var_registers.set(15, flag);
    }

    /// 8XY5: subtract register `y` from `x` into `x`, wrapping; the flag
    /// register is then 1 exactly when no borrow occurred (`x >= y`).
    fn exec_8xy5(&mut self, x: u8, y: u8)
        requires
            old(self).wf(),
            x < 16,
            y < 16,
        ensures
            final(self).wf(),
            final(self)@ == exec_spec(old(self)@, Instruction::SubReg { x, y }, 0),
    {
        let vx = self.var_registers[x as usize];
        let vy = self.var_registers[y as usize];
        let res: u8 = if vx >= vy {
            vx - vy
        } else {
            ((vx as u16) + 256 - (vy as u16)) as u8
        };
        proof {
            lemma_wrap8(vx as int - vy as int);
            assert(res == wrap8(vx as int - vy as int));
        }
        self.var_registers.set(x as usize, res);
        let flag: u8 = if vx >= vy {
            1
        } else {
            0
        };
        self.var_registers.set(15, flag);
    }

    /// 8XY6: shift right by one. With the shift quirk the shifted value
    /// comes from register `y`, otherwise from `x` itself; the result
    /// lands in `x` and the flag register takes the bit shifted out.
    fn exec_8xy6(&mut self, x: u8, y: u8)
        requires
            old(self).wf(),
            x < 16,
            y < 16,
        ensures
            final(self).wf(),
            final(self)@ == exec_spec(old(self)@, Instruction::ShrReg { x, y }, 0),
    {
        let val = if self.op_shift_original {
            self.var_registers[y as usize]
        } else {
            self.var_registers[x as usize]
        };
        self.var_registers.set(x as usize, val >> 1);
        self.var_registers.set(15, val & 1);
    }

    /// 8XY7: subtract register `x` from `y` into `x`, wrapping; the flag
    /// register is then 1 exactly when no borrow occurred (`y >= x`).
    fn exec_8xy7(&mut self, x: u8, y: u8)
        requires
            old(self).wf(),
            x < 16,
            y < 16,
        ensures
            final(self).wf(),
            final(self)@ == exec_spec(old(self)@, Instruction::SubnReg { x, y }, 0),
    {
        let vx = self.var_registers[x as usize];
        let vy = self.var_registers[y as usize];
        let res: u8 = if vy >= vx {
            vy - vx
        } else {
            ((vy as u16) + 256 - (vx as u16)) as u8
        };
        proof {
            lemma_wrap8(vy as int - vx as int);
            assert(res == wrap8(vy as int - vx as int));
        }
        self.var_registers.set(x as usize, res);
        let flag: u8 = if vy >= vx {
            1
        } else {
            0
        };
        self.var_registers.set(15, flag);
    }

    /// 8XYE: shift left by one. With the shift quirk the shifted value
    /// comes from register `y`, otherwise from `x` itself; the result
    /// lands in `x` and the flag register takes the bit shifted out.
    fn exec_8xye(&mut self, x: u8, y: u8)
        requires
            old(self).wf(),
            x < 16,
            y < 16,
        ensures
            final(self).wf(),
            final(self)@ == exec_spec(old(self)@, Instruction::ShlReg { x, y }, 0),
    {
        let val = if self.op_shift_original {
            self.var_registers[y as usize]
        } else {
            self.var_registers[x as usize]
        };
        self.var_registers.set(x as usize, val << 1);
        self.var_registers.set(15, val >> 7);
    }

    /// 9XY0: skip the next instruction when registers `x` and `y` differ.
    fn exec_9xy0(&mut self, x: u8, y: u8)
        requires
            old(self).wf(),
            x < 16,
            y < 16,
        ensures
            final(self).wf(),
            final(self)@ == exec_spec(old(self)@, Instruction::SkipNeReg { x, y }, 0),
    {
        if self.var_registers[x as usize] != self.var_registers[y as usize] {
            self.pc = wrap_add16(self.pc, 2);
        }
    }

    /// ANNN: load `nnn` into the index register.
    fn exec_annn(&mut self, nnn: u16)
        requires
            old(self).wf(),
        ensures
            final(self).wf(),
            final(self)@ == exec_spec(old(self)@, Instruction::SetIndex { nnn }, 0),
    {
        self.index_register = nnn;
    }

    /// BNNN: jump to `nnn` plus an offset register — register 0 with the
    /// jump quirk, otherwise the register named by the `x` nibble.
    fn exec_bnnn(&mut self, x: u8, nnn: u16)
        requires
            old(self).wf(),
            x < 16,
            nnn < 4096,
        ensures
            final(self).wf(),
            final(self)@ == exec_spec(old(self)@, Instruction::JumpOffset { x, nnn }, 0),
    {
        let val: u16 = if self.op_jump_with_offset_original {
            self.var_registers[0] as u16
        } else {
            self.var_registers[x as usize] as u16
        };
        self.pc = nnn + val;
    }

    /// CXNN: bitwise AND of a random byte with `nn` into register `x`.
    /// The byte is an argument, so the method is verified for all 256
    /// values; `step` draws it from the thread-local generator.
    fn exec_cxnn(&mut self, x: u8, nn: u8, rand: u8)
        requires
            old(self).wf(),
            x < 16,
        ensures
            final(self).wf(),
            final(self)@ == exec_spec(old(self)@, Instruction::RandomAnd { x, nn }, rand),
    {
        self.var_registers.set(x as usize, rand & nn);
    }

    /// EX9E: skip the next instruction when the key named by the
    /// instruction's `x` nibble is held down.
    fn exec_ex9e(&mut self, x: u8)
        requires
            old(self).wf(),
            x < 16,
        ensures
            final(self).wf(),
            final(self)@ == exec_spec(old(self)@, Instruction::SkipKeyDown { x }, 0),
    {
        if self.pressed_keys[x as usize] {
            self.pc = wrap_add16(self.pc, 2);
        }
    }

    /// EXA1: skip the next instruction when the key named by the
    /// instruction's `x` nibble is up.
    fn exec_exa1(&mut self, x: u8)
        requires
            old(self).wf(),
            x < 16,
        ensures
            final(self).wf(),
            final(self)@ == exec_spec(old(self)@, Instruction::SkipKeyUp { x }, 0),
    {
        if !self.pressed_keys[x as usize] {
            self.pc = wrap_add16(self.pc, 2);
        }
    }

    /// FX07: read the delay timer into register `x`.
    fn exec_fx07(&mut self, x: u8)
        requires
            old(self).wf(),
            x < 16,
        ensures
            final(self).wf(),
            final(self)@ == exec_spec(old(self)@, Instruction::ReadDelay { x }, 0),
    {
        let d = self.delay_timer;
        self.var_registers.set(x as usize, d);
    }

    /// FX15: load register `x` into the delay timer.
    fn exec_fx15(&mut self, x: u8)
        requires
            old(self).wf(),
            x < 16,
        ensures
            final(self).wf(),
            final(self)@ == exec_spec(old(self)@, Instruction::SetDelay { x }, 0),
    {
        self.delay_timer = self.var_registers[x as usize];
    }

    /// FX18: load register `x` into the sound timer.
    fn exec_fx18(&mut self, x: u8)
        requires
            old(self).wf(),
            x < 16,
        ensures
            final(self).wf(),
            final(self)@ == exec_spec(old(self)@, Instruction::SetSound { x }, 0),
    {
        self.sound_timer = self.var_registers[x as usize];
    }

    /// FX1E: add register `x` into the index register, wrapping at
    /// sixteen bits, with no flag effect.
    fn exec_fx1e(&mut self, x: u8)
        requires
            old(self).wf(),
            x < 16,
        ensures
            final(self).wf(),
            final(self)@ == exec_spec(old(self)@, Instruction::AddIndex { x }, 0),
    {
        let v = self.var_registers[x as usize] as u16;
        self.index_register = wrap_add16(self.index_register, v);
    }

    /// FX0A: block for a key. With no key down, step the program counter
    /// back so the same instruction re-executes next cycle; otherwise
    /// store the lowest pressed key code into register `x`.
    fn exec_fx0a(&mut self, x: u8)
        requires
            old(self).wf(),
            x < 16,
        ensures
            final(self).wf(),
            final(self)@ == exec_spec(old(self)@, Instruction::WaitKey { x }, 0),
    {
        let k = lowest_pressed_key(&self.pressed_keys);
        if k < 16 {
            self.var_registers.set(x as usize, k as u8);
        } else {
            self.pc = pc_back2(self.pc);
        }
    }

    /// FX29: point the index register at the font glyph for the value of
    /// register `x`.
    fn exec_fx29(&mut self, x: u8)
        requires
            old(self).wf(),
            x < 16,
        ensures
            final(self).wf(),
            final(self)@ == exec_spec(old(self)@, Instruction::FontAddr { x }, 0),
    {
        let vx = self.var_registers[x as usize];
        self.index_register = 0x50 + (vx as u16) * 5;
    }

    /// FX33: store the decimal digits of register `x`, most significant
    /// first, at the index register and the two bytes after it.
    fn exec_fx33(&mut self, x: u8) -> (r: Result<(), Fault>)
        requires
            old(self).wf(),
            x < 16,
        ensures
            final(self).wf(),
            (match exec_fault(old(self)@, Instruction::StoreBcd { x }) {
                Some(f) => r == Err::<(), Fault>(f) && final(self)@ == old(self)@,
                None => r == Ok::<(), Fault>(()) && final(self)@ == exec_spec(
                    old(self)@,
                    Instruction::StoreBcd { x },
                    0,
                ),
            }),
    {
        let base = self.index_register as usize;
        if base + 2 >= 4096 {
            return Err(Fault::IndexOutOfBounds);
        }
        let vx = self.var_registers[x as usize];
        self.memory.set(base, vx / 100);
        self.memory.set(base + 1, (vx / 10) % 10);
        self.memory.set(base + 2, vx % 10);
        Ok(())
    }

    /// FX55: copy registers `0 ..= x` to memory starting at the index
    /// register, then advance the index past the range exactly when the
    /// store/load quirk is on.
    fn exec_fx55(&mut self, x: u8) -> (r: Result<(), Fault>)
        requires
            old(self).wf(),
            x < 16,
        ensures
            final(self).wf(),
            (match exec_fault(old(self)@, Instruction::StoreRegs { x }) {
                Some(f) => r == Err::<(), Fault>(f) && final(self)@ == old(self)@,
                None => r == Ok::<(), Fault>(()) && final(self)@ == exec_spec(
                    old(self)@,
                    Instruction::StoreRegs { x },
                    0,
                ),
            }),
    {
        let base = self.index_register as usize;
        if base + (x as usize) >= 4096 {
            return Err(Fault::IndexOutOfBounds);
        }
        let mut i: usize = 0;
        while i <= x as usize
            invariant
                old(self).wf(),
                self.wf(),
                i <= x as usize + 1,
                x < 16,
                base == old(self)@.index as int,
                base + x < 4096,
                self@ == (Core { mem: self@.mem, ..old(self)@ }),
                forall|a: int|
                    0 <= a < 4096 ==> self@.mem[a] == if base <= a < base + i {
                        old(self)@.regs[a - base]
                    } else {
                        old(self)@.mem[a]
                    },
            decreases x as int + 1 - i,
        {
            let v = self.var_registers[i];
            self.memory.set(base + i, v);
            i += 1;
        }
        if self.op_store_and_load_original {
            self.index_register = self.index_register + (x as u16) + 1;
        }
        proof {
            assert(self@.mem =~= store_mem(old(self)@, x as int));
        }
        Ok(())
    }

    /// FX65: copy memory starting at the index register into registers
    /// `0 ..= x`, then advance the index past the range exactly when the
    /// store/load quirk is on.
    fn exec_fx65(&mut self, x: u8) -> (r: Result<(), Fault>)
        requires
            old(self).wf(),
            x < 16,
        ensures
            final(self).wf(),
            (match exec_fault(old(self)@, Instruction::LoadRegs { x }) {
                Some(f) => r == Err::<(), Fault>(f) && final(self)@ == old(self)@,
                None => r == Ok::<(), Fault>(()) && final(self)@ == exec_spec(
                    old(self)@,
                    Instruction::LoadRegs { x },
                    0,
                ),
            }),
    {
        let base = self.index_register as usize;
        if base + (x as usize) >= 4096 {
            return Err(Fault::IndexOutOfBounds);
        }
        let mut i: usize = 0;
        while i <= x as usize
            invariant
                old(self).wf(),
                self.wf(),
                i <= x as usize + 1,
                x < 16,
                base == old(self)@.index as int,
                base + x < 4096,
                self@ == (Core { regs: self@.regs, ..old(self)@ }),
                forall|j: int|
                    0 <= j < 16 ==> self@.regs[j] == if j < i {
                        old(self)@.mem[base + j]
                    } else {
                        old(self)@.regs[j]
                    },
            decreases x as int + 1 - i,
        {
            let v = self.memory[base + i];
            self.var_registers.set(i, v);
            i += 1;
        }
        if self.op_store_and_load_original {
            self.index_register = self.index_register + (x as u16) + 1;
        }
        proof {
            assert(self@.regs =~= load_regs(old(self)@, x as int));
        }
        Ok(())
    }

    /// DXYN: draw the `n`-row sprite at the index register, at the
    /// coordinates in registers `x` and `y` (wrapped once at entry), by
    /// XOR compositing, clipped at the right and bottom edges; the flag
    /// register is then 1 exactly when a lit pixel was turned off.
    #[verifier::rlimit(100)]
    fn exec_dxyn(&mut self, x: u8, y: u8, n: u8) -> (r: Result<(), Fault>)
        requires
            old(self).wf(),
            x < 16,
            y < 16,
            n < 16,
        ensures
            final(self).wf(),
            (match exec_fault(old(self)@, Instruction::Draw { x, y, n }) {
                Some(f) => r == Err::<(), Fault>(f) && final(self)@ == old(self)@,
                None => r == Ok::<(), Fault>(()) && final(self)@ == exec_spec(
                    old(self)@,
                    Instruction::Draw { x, y, n },
                    0,
                ),
            }),
    {
        let ghost s0 = self@;
        let ghost gx = x as int;
        let ghost gy = y as int;
        let ghost gn = n as int;
        let vx = (self.var_registers[x as usize] % 64) as usize;
        let vy = (self.var_registers[y as usize] % 32) as usize;
        let rows: usize = if (n as usize) <= 32 - vy {
            n as usize
        } else {
            32 - vy
        };
        let base = self.index_register as usize;
        proof {
            assert(vx == draw_vx(s0, gx));
            assert(vy == draw_vy(s0, gy));
            assert(rows == draw_rows(s0, gy, gn));
        }
        if rows > 0 && base + rows > 4096 {
            return Err(Fault::IndexOutOfBounds);
        }
        let cols: usize = if 8 <= 64 - vx {
            8
        } else {
            64 - vx
        };
        proof {
            assert(cols == draw_cols(s0, gx));
            assert(fb_upto(s0, gx, gy, gn, 0, 0) =~= s0.fb);
            assert(!coll_upto(s0, gx, gy, gn, 0, 0));
        }
        self.should_draw = true;
        let mut collided: bool = false;
        let mut i: usize = 0;
        while i < rows
            invariant
                self.wf(),
                s0.wf(),
                i <= rows,
                x < 16,
                y < 16,
                n < 16,
                gx == x as int,
                gy == y as int,
                gn == n as int,
                vx == draw_vx(s0, gx),
                vy == draw_vy(s0, gy),
                rows == draw_rows(s0, gy, gn),
                cols == draw_cols(s0, gx),
                base == s0.index as int,
                rows > 0 ==> base + rows <= 4096,
                self@ == (Core { fb: self@.fb, redraw: true, ..s0 }),
                self@.fb == fb_upto(s0, gx, gy, gn, i as int, 0),
                collided == coll_upto(s0, gx, gy, gn, i as int, 0),
            decreases rows - i,
        {
            let sprite = self.memory[base + i];
            let mut j: usize = 0;
            while j < cols
                invariant
                    self.wf(),
                    s0.wf(),
                    i < rows,
                    j <= cols,
                    x < 16,
                    y < 16,
                    n < 16,
                    gx == x as int,
                    gy == y as int,
                    gn == n as int,
                    vx == draw_vx(s0, gx),
                    vy == draw_vy(s0, gy),
                    rows == draw_rows(s0, gy, gn),
                    cols == draw_cols(s0, gx),
                    base == s0.index as int,
                    base + rows <= 4096,
                    sprite == s0.mem[s0.index + i],
                    self@ == (Core { fb: self@.fb, redraw: true, ..s0 }),
                    self@.fb == fb_upto(s0, gx, gy, gn, i as int, j as int),
                    collided == coll_upto(s0, gx, gy, gn, i as int, j as int),
                decreases cols - j,
            {
                let ghost gi = i as int;
                let ghost gj = j as int;
                let on = ((sprite >> ((7 - j) as u8)) & 1) == 1;
                let p = (vy + i) * 64 + (vx + j);
                proof {
                    lemma_pix_decomp(vx as int + gj, vy as int + gi);
                    assert(p % 64 == vx + gj && p / 64 == vy + gi && p < 2048);
                    assert(on == draw_sprite_on(s0, gx, gy, vx as int + gj, vy as int + gi));
                    assert(!drawn_upto(s0, gx, gy, gn, p as int, gi, gj));
                }
                let cur = self.framebuffer[p];
                let ghost coll0 = collided;
                let ghost fb0 = self@.fb;
                proof {
                    assert(cur == s0.fb[p as int]);
                }
                if on {
                    self.framebuffer.set(p, !cur);
                    if cur {
                        collided = true;
                    }
                }
                proof {
                    // The framebuffer now matches the picture with one more
                    // processed column.
                    assert forall|q: int| 0 <= q < 2048 implies self@.fb[q] == fb_upto(
                        s0,
                        gx,
                        gy,
                        gn,
                        gi,
                        gj + 1,
                    )[q] by {
                        lemma_p_decomp(q);
                        if q != p {
                            if drawn_upto(s0, gx, gy, gn, q, gi, gj + 1) != drawn_upto(
                                s0,
                                gx,
                                gy,
                                gn,
                                q,
                                gi,
                                gj,
                            ) {
                                assert(q % 64 == vx + gj && q / 64 == vy + gi);
                                assert(q == pix(q % 64, q / 64));
                                assert(q == p);
                            }
                            assert(self@.fb[q] == fb0[q]);
                        }
                    }
                    assert(self@.fb =~= fb_upto(s0, gx, gy, gn, gi, gj + 1));
                    // The collision flag now matches the picture with one
                    // more processed column.
                    if coll_upto(s0, gx, gy, gn, gi, gj + 1) {
                        let (px, py) = choose|px: int, py: int|
                            0 <= px < 64 && 0 <= py < 32 && #[trigger] drawn_upto(
                                s0,
                                gx,
                                gy,
                                gn,
                                pix(px, py),
                                gi,
                                gj + 1,
                            ) && draw_sprite_on(s0, gx, gy, px, py) && s0.fb[pix(px, py)];
                        lemma_pix_decomp(px, py);
                        if py - vy as int == gi && px - vx as int == gj {
                            assert(pix(px, py) == p);
                            assert(on && cur);
                            assert(collided);
                        } else {
                            assert(drawn_upto(s0, gx, gy, gn, pix(px, py), gi, gj));
                            assert(coll_upto(s0, gx, gy, gn, gi, gj));
                            assert(collided);
                        }
                    }
                    if coll0 {
                        let (px, py) = choose|px: int, py: int|
                            0 <= px < 64 && 0 <= py < 32 && #[trigger] drawn_upto(
                                s0,
                                gx,
                                gy,
                                gn,
                                pix(px, py),
                                gi,
                                gj,
                            ) && draw_sprite_on(s0, gx, gy, px, py) && s0.fb[pix(px, py)];
                        assert(drawn_upto(s0, gx, gy, gn, pix(px, py), gi, gj + 1));
                        assert(coll_upto(s0, gx, gy, gn, gi, gj + 1));
                    }
                    if on && cur {
                        assert(drawn_upto(s0, gx, gy, gn, pix(vx as int + gj, vy as int + gi), gi, gj + 1));
                        assert(coll_upto(s0, gx, gy, gn, gi, gj + 1));
                    }
                    assert(collided == coll_upto(s0, gx, gy, gn, gi, gj + 1));
                }
                j += 1;
            }
            proof {
                let gi = i as int;
                // A finished row is the same picture as the next row with no
                // columns processed yet.
                assert forall|q: int| 0 <= q < 2048 implies drawn_upto(
                    s0,
                    gx,
                    gy,
                    gn,
                    q,
                    gi,
                    cols as int,
                ) == drawn_upto(s0, gx, gy, gn, q, gi + 1, 0) by {
                    lemma_p_decomp(q);
                }
                assert(fb_upto(s0, gx, gy, gn, gi, cols as int) =~= fb_upto(
                    s0,
                    gx,
                    gy,
                    gn,
                    gi + 1,
                    0,
                ));
                if coll_upto(s0, gx, gy, gn, gi, cols as int) {
                    let (px, py) = choose|px: int, py: int|
                        0 <= px < 64 && 0 <= py < 32 && #[trigger] drawn_upto(
                            s0,
                            gx,
                            gy,
                            gn,
                            pix(px, py),
                            gi,
                            cols as int,
                        ) && draw_sprite_on(s0, gx, gy, px, py) && s0.fb[pix(px, py)];
                    lemma_pix_decomp(px, py);
                    assert(drawn_upto(s0, gx, gy, gn, pix(px, py), gi + 1, 0));
                    assert(coll_upto(s0, gx, gy, gn, gi + 1, 0));
                }
                if coll_upto(s0, gx, gy, gn, gi + 1, 0) {
                    let (px, py) = choose|px: int, py: int|
                        0 <= px < 64 && 0 <= py < 32 && #[trigger] drawn_upto(
                            s0,
                            gx,
                            gy,
                            gn,
                            pix(px, py),
                            gi + 1,
                            0,
                        ) && draw_sprite_on(s0, gx, gy, px, py) && s0.fb[pix(px, py)];
                    lemma_pix_decomp(px, py);
                    assert(drawn_upto(s0, gx, gy, gn, pix(px, py), gi, cols as int));
                    assert(coll_upto(s0, gx, gy, gn, gi, cols as int));
                }
            }
            i += 1;
        }
        let flag: u8 = if collided {
            1
        } else {
            0
        };
        self.var_registers.set(15, flag);
        proof {
            // A finished draw is the full picture.
            assert forall|q: int| 0 <= q < 2048 implies drawn_upto(
                s0,
                gx,
                gy,
                gn,
                q,
                rows as int,
                0,
            ) == draw_covers(s0, gx, gy, gn, q % 64, q / 64) by {
                lemma_p_decomp(q);
            }
            assert(self@.fb =~= draw_fb(s0, gx, gy, gn));
            if coll_upto(s0, gx, gy, gn, rows as int, 0) {
                let (px, py) = choose|px: int, py: int|
                    0 <= px < 64 && 0 <= py < 32 && #[trigger] drawn_upto(
                        s0,
                        gx,
                        gy,
                        gn,
                        pix(px, py),
                        rows as int,
                        0,
                    ) && draw_sprite_on(s0, gx, gy, px, py) && s0.fb[pix(px, py)];
                lemma_pix_decomp(px, py);
                assert(draw_collision(s0, gx, gy, gn));
            }
            if draw_collision(s0, gx, gy, gn) {
                let (px, py) = choose|px: int, py: int|
                    0 <= px < 64 && 0 <= py < 32 && #[trigger] draw_covers(s0, gx, gy, gn, px, py)
                        && draw_sprite_on(s0, gx, gy, px, py) && s0.fb[pix(px, py)];
                lemma_pix_decomp(px, py);
                assert(drawn_upto(s0, gx, gy, gn, pix(px, py), rows as int, 0));
                assert(coll_upto(s0, gx, gy, gn, rows as int, 0));
            }
            assert(collided == draw_collision(s0, gx, gy, gn));
        }
        Ok(())
    }
}

/// What one 60 Hz frame asks of the surrounding program: whether to
/// present the framebuffer, and whether the beep should be audible.
#[derive(Clone, Copy, Debug, PartialEq, Eq, Structural)]
pub struct FrameOutput {
    /// Some instruction in the frame's burst requested a redraw.
    pub present: bool,
    /// The sound timer was nonzero when the frame ended.
    pub beep: bool,
}

impl Emulator {
    /// Execute one already-decoded instruction. `rand` is the byte the
    /// random-AND instruction masks; no other instruction reads it. On a
    /// fault the state is left exactly as it was.
    pub fn execute(&mut self, ins: Instruction, rand: u8) -> (r: Result<(), Fault>)
        requires
            old(self).wf(),
            ins_wf(ins),
        ensures
            final(self).wf(),
            (match exec_fault(old(self)@, ins) {
                Some(f) => r == Err::<(), Fault>(f) && final(self)@ == old(self)@,
                None => r == Ok::<(), Fault>(()) && final(self)@ == exec_spec(
                    old(self)@,
                    ins,
                    rand,
                ),
            }),
    {
        match ins {
            Instruction::ClearScreen => {
                self.exec_00e0();
                Ok(())
            },
            Instruction::Return => self.exec_00ee(),
            Instruction::Jump { nnn } => {
                self.exec_1nnn(nnn);
                Ok(())
            },
            Instruction::Call { nnn } => {
                self.exec_2nnn(nnn);
                Ok(())
            },
            Instruction::SkipEqImm { x, nn } => {
                self.exec_3xnn(x, nn);
                Ok(())
            },
            Instruction::SkipNeImm { x, nn } => {
                self.exec_4xnn(x, nn);
                Ok(())
            },
            Instruction::SkipEqReg { x, y } => {
                self.exec_5xy0(x, y);
                Ok(())
            },
            Instruction::SetImm { x, nn } => {
                self.exec_6xnn(x, nn);
                Ok(())
            },
            Instruction::AddImm { x, nn } => {
                self.exec_7xnn(x, nn);
                Ok(())
            },
            Instruction::CopyReg { x, y } => {
                self.exec_8xy0(x, y);
                Ok(())
            },
            Instruction::OrReg { x, y } => {
                self.exec_8xy1(x, y);
                Ok(())
            },
            Instruction::AndReg { x, y } => {
                self.exec_8xy2(x, y);
                Ok(())
            },
            Instruction::XorReg { x, y } => {
                self.exec_8xy3(x, y);
                Ok(())
            },
            Instruction::AddReg { x, y } => {
                self.exec_8xy4(x, y);
                Ok(())
            },
            Instruction::SubReg { x, y } => {
                self.exec_8xy5(x, y);
                Ok(())
            },
            Instruction::ShrReg { x, y } => {
                self.exec_8xy6(x, y);
                Ok(())
            },
            Instruction::SubnReg { x, y } => {
                self.exec_8xy7(x, y);
                Ok(())
            },
            Instruction::ShlReg { x, y } => {
                self.exec_8xye(x, y);
                Ok(())
            },
            Instruction::SkipNeReg { x, y } => {
                self.exec_9xy0(x, y);
                Ok(())
            },
            Instruction::SetIndex { nnn } => {
                self.exec_annn(nnn);
                Ok(())
            },
            Instruction::JumpOffset { x, nnn } => {
                self.exec_bnnn(x, nnn);
                Ok(())
            },
            Instruction::RandomAnd { x, nn } => {
                self.exec_cxnn(x, nn, rand);
                Ok(())
            },
            Instruction::Draw { x, y, n } => self.exec_dxyn(x, y, n),
            Instruction::SkipKeyDown { x } => {
                self.exec_ex9e(x);
                Ok(())
            },
            Instruction::SkipKeyUp { x } => {
                self.exec_exa1(x);
                Ok(())
            },
            Instruction::ReadDelay { x } => {
                self.exec_fx07(x);
                Ok(())
            },
            Instruction::SetDelay { x } => {
                self.exec_fx15(x);
                Ok(())
            },
            Instruction::SetSound { x } => {
                self.exec_fx18(x);
                Ok(())
            },
            Instruction::AddIndex { x } => {
                self.exec_fx1e(x);
                Ok(())
            },
            Instruction::WaitKey { x } => {
                self.exec_fx0a(x);
                Ok(())
            },
            Instruction::FontAddr { x } => {
                self.exec_fx29(x);
                Ok(())
            },
            Instruction::StoreBcd { x } => self.exec_fx33(x),
            Instruction::StoreRegs { x } => self.exec_fx55(x),
            Instruction::LoadRegs { x } => self.exec_fx65(x),
            Instruction::Unknown { word } => Ok(()),
        }
    }

    /// Decode one instruction word and execute it. An unknown word is
    /// reported in the result and executes as a no-op; decoding itself
    /// never fails.
    pub fn decode_and_execute(&mut self, instruction: u16, rand: u8) -> (r: Result<
        Instruction,
        Fault,
    >)
        requires
            old(self).wf(),
        ensures
            final(self).wf(),
            (match exec_fault(old(self)@, spec_decode(instruction)) {
                Some(f) => r == Err::<Instruction, Fault>(f) && final(self)@ == old(self)@,
                None => r == Ok::<Instruction, Fault>(spec_decode(instruction)) && final(self)@
                    == exec_spec(old(self)@, spec_decode(instruction), rand),
            }),
    {
        let ins = decode(instruction);
        match self.execute(ins, rand) {
            Ok(_) => Ok(ins),
            Err(f) => Err(f),
        }
    }

    /// One full fetch/decode/execute cycle with an injected random byte:
    /// deterministic, so tests can drive the interpreter exactly.
    pub fn step_cycle(&mut self, rand: u8) -> (r: Result<Instruction, Fault>)
        requires
            old(self).wf(),
        ensures
            final(self).wf(),
            (match cycle_fault_of(old(self)@) {
                Some(f) => r == Err::<Instruction, Fault>(f) && final(self)@ == cycle_fault_state(
                    old(self)@,
                ),
                None => r == Ok::<Instruction, Fault>(spec_decode(fetched_word(old(self)@)))
                    && final(self)@ == cycle_spec(old(self)@, rand),
            }),
    {
        let w = match self.fetch() {
            Ok(w) => w,
            Err(f) => {
                return Err(f);
            },
        };
        self.decode_and_execute(w, rand)
    }

    /// One full fetch/decode/execute cycle, drawing the random byte from
    /// the thread-local generator. The contract holds for every byte the
    /// generator may return.
    pub fn step(&mut self) -> (r: Result<Instruction, Fault>)
        requires
            old(self).wf(),
        ensures
            final(self).wf(),
            (match cycle_fault_of(old(self)@) {
                Some(f) => r == Err::<Instruction, Fault>(f) && final(self)@ == cycle_fault_state(
                    old(self)@,
                ),
                None => r == Ok::<Instruction, Fault>(spec_decode(fetched_word(old(self)@)))
                    && exists|rand: u8| final(self)@ == #[trigger] cycle_spec(old(self)@, rand),
            }),
    {
        let rand = random_byte();
        self.step_cycle(rand)
    }

    /// Run exactly `cycles` fetch/decode/execute cycles, stopping at the
    /// first fault. On success the final state is reachable from the
    /// start by that many non-faulting cycles.
    pub fn execute_cycles(&mut self, cycles: u64) -> (r: Result<(), Fault>)
        requires
            old(self).wf(),
        ensures
            final(self).wf(),
            (r matches Ok(()) ==> burst_rel(old(self)@, final(self)@, cycles as nat)),
            (r matches Err(f) ==> exists|k: nat, mid: Core|
                {
                    &&& #[trigger] burst_rel(old(self)@, mid, k)
                    &&& k < cycles
                    &&& cycle_fault_of(mid) == Some(f)
                    &&& final(self)@ == cycle_fault_state(mid)
                }),
    {
        let ghost s0 = self@;
        proof {
            lemma_burst_zero(s0);
        }
        let mut i: u64 = 0;
        while i < cycles
            invariant
                self.wf(),
                i <= cycles,
                s0 == old(self)@,
                burst_rel(s0, self@, i as nat),
            decreases cycles - i,
        {
            let ghost pre = self@;
            let res = self.step();
            match res {
                Ok(_) => {
                    proof {
                        assert(cycle_ok(pre));
                        let rand = choose|rand: u8| self@ == #[trigger] cycle_spec(pre, rand);
                        lemma_burst_snoc(s0, pre, i as nat, rand);
                    }
                },
                Err(f) => {
                    proof {
                        assert(burst_rel(s0, pre, i as nat));
                        assert(cycle_fault_of(pre) == Some(f));
                        assert(self@ == cycle_fault_state(pre));
                    }
                    return Err(f);
                },
            }
            i += 1;
        }
        Ok(())
    }

    /// One 60 Hz frame: run the burst of cycles owed to the wall clock,
    /// then decrement both timers exactly once — however many
    /// instructions ran — and report whether to present the coalesced
    /// redraw and whether the beep should be audible.
    pub fn run_frame(&mut self, cycles: u64) -> (r: Result<FrameOutput, Fault>)
        requires
            old(self).wf(),
        ensures
            final(self).wf(),
            (r matches Ok(out) ==> exists|mid: Core|
                {
                    &&& #[trigger] burst_rel(old(self)@, mid, cycles as nat)
                    &&& final(self)@ == frame_finish(mid)
                    &&& out.present == mid.redraw
                    &&& out.beep == (mid.sound > 0)
                }),
            (r matches Err(f) ==> exists|k: nat, mid: Core|
                {
                    &&& #[trigger] burst_rel(old(self)@, mid, k)
                    &&& k < cycles
                    &&& cycle_fault_of(mid) == Some(f)
                    &&& final(self)@ == cycle_fault_state(mid)
                }),
    {
        match self.execute_cycles(cycles) {
            Ok(_) => {},
            Err(f) => {
                return Err(f);
            },
        }
        let ghost mid = self@;
        let beep = self.update_sound_timer();
        self.update_delay_timer();
        let present = self.should_draw;
        self.should_draw = false;
        proof {
            assert(self@ == frame_finish(mid));
        }
        Ok(FrameOutput { present, beep })
    }
}

} // verus!
