use chip8::emu::Emulator;
use chip8::machine::Fault;

fn fresh() -> Emulator {
    Emulator::new(700, false, false, false)
}

fn with_shift_quirk() -> Emulator {
    Emulator::new(700, true, false, false)
}

/// Write one instruction word at the program origin, big-endian.
fn poke_op(e: &mut Emulator, addr: u16, word: u16) {
    e.set_mem(addr, (word >> 8) as u8);
    e.set_mem(addr + 1, (word & 0xFF) as u8);
}

#[test]
fn skip_equal_taken_advances_pc_by_4() {
    let mut e = fresh();
    e.set_reg(3, 0x42);
    poke_op(&mut e, 512, 0x3342); // skip if register 3 == 0x42
    e.step_cycle(0).unwrap();
    assert_eq!(e.program_counter(), 516);
}

#[test]
fn skip_equal_not_taken_advances_pc_by_2() {
    let mut e = fresh();
    e.set_reg(3, 0x41);
    poke_op(&mut e, 512, 0x3342);
    e.step_cycle(0).unwrap();
    assert_eq!(e.program_counter(), 514);
}

#[test]
fn skip_not_equal_and_register_skips() {
    let mut e = fresh();
    e.set_reg(1, 7);
    e.set_reg(2, 7);
    poke_op(&mut e, 512, 0x4107); // skip if register 1 != 7: not taken
    e.step_cycle(0).unwrap();
    assert_eq!(e.program_counter(), 514);
    poke_op(&mut e, 514, 0x5120); // skip if register 1 == register 2: taken
    e.step_cycle(0).unwrap();
    assert_eq!(e.program_counter(), 518);
    poke_op(&mut e, 518, 0x9120); // skip if register 1 != register 2: not taken
    e.step_cycle(0).unwrap();
    assert_eq!(e.program_counter(), 520);
}

#[test]
fn key_skips_follow_pressed_set() {
    let mut e = fresh();
    e.press_key(0x3);
    poke_op(&mut e, 512, 0xE39E); // key 3 down: taken
    e.step_cycle(0).unwrap();
    assert_eq!(e.program_counter(), 516);
    poke_op(&mut e, 516, 0xE3A1); // key 3 up: not taken
    e.step_cycle(0).unwrap();
    assert_eq!(e.program_counter(), 518);
    e.release_key(0x3);
    poke_op(&mut e, 518, 0xE3A1); // key 3 up: taken
    e.step_cycle(0).unwrap();
    assert_eq!(e.program_counter(), 522);
}

#[test]
fn add_overflow_sets_flag() {
    let mut e = fresh();
    e.set_reg(0, 0xFF);
    e.set_reg(1, 0x01);
    poke_op(&mut e, 512, 0x8014);
    e.step_cycle(0).unwrap();
    assert_eq!(e.reg(0), 0x00);
    assert_eq!(e.reg(0xF), 1);
}

#[test]
fn add_without_overflow_clears_flag() {
    let mut e = fresh();
    e.set_reg(0, 0x10);
    e.set_reg(1, 0x01);
    e.set_reg(0xF, 1);
    poke_op(&mut e, 512, 0x8014);
    e.step_cycle(0).unwrap();
    assert_eq!(e.reg(0), 0x11);
    assert_eq!(e.reg(0xF), 0);
}

#[test]
fn sub_with_borrow_wraps_and_clears_flag() {
    let mut e = fresh();
    e.set_reg(2, 0x05);
    e.set_reg(3, 0x0A);
    poke_op(&mut e, 512, 0x8235); // register 2 -= register 3
    e.step_cycle(0).unwrap();
    assert_eq!(e.reg(2), 0xFB);
    assert_eq!(e.reg(0xF), 0);
}

#[test]
fn sub_without_borrow_sets_flag() {
    let mut e = fresh();
    e.set_reg(2, 0x0A);
    e.set_reg(3, 0x05);
    poke_op(&mut e, 512, 0x8235);
    e.step_cycle(0).unwrap();
    assert_eq!(e.reg(2), 0x05);
    assert_eq!(e.reg(0xF), 1);
}

#[test]
fn subn_mirrors_sub() {
    let mut e = fresh();
    e.set_reg(2, 0x05);
    e.set_reg(3, 0x0A);
    poke_op(&mut e, 512, 0x8237); // register 2 = register 3 - register 2
    e.step_cycle(0).unwrap();
    assert_eq!(e.reg(2), 0x05);
    assert_eq!(e.reg(0xF), 1);
}

#[test]
fn shr_with_quirk_shifts_y_into_x() {
    let mut e = with_shift_quirk();
    e.set_reg(0, 0x00);
    e.set_reg(3, 0x03);
    poke_op(&mut e, 512, 0x8036); // shift right, x = 0, y = 3
    e.step_cycle(0).unwrap();
    assert_eq!(e.reg(0), 0x01);
    assert_eq!(e.reg(3), 0x03); // the source register itself is unchanged
    assert_eq!(e.reg(0xF), 1);
}

#[test]
fn shr_without_quirk_shifts_x_in_place() {
    let mut e = fresh();
    e.set_reg(0, 0x00);
    e.set_reg(3, 0x03);
    poke_op(&mut e, 512, 0x8036);
    e.step_cycle(0).unwrap();
    assert_eq!(e.reg(0), 0x00); // y is ignored entirely
    assert_eq!(e.reg(0xF), 0);
}

#[test]
fn shl_sets_flag_from_top_bit() {
    let mut e = fresh();
    e.set_reg(1, 0x81);
    poke_op(&mut e, 512, 0x812E);
    e.step_cycle(0).unwrap();
    assert_eq!(e.reg(1), 0x02);
    assert_eq!(e.reg(0xF), 1);
}

#[test]
fn add_immediate_wraps_without_flag() {
    let mut e = fresh();
    e.set_reg(4, 0xFF);
    e.set_reg(0xF, 0);
    poke_op(&mut e, 512, 0x7402); // register 4 += 2
    e.step_cycle(0).unwrap();
    assert_eq!(e.reg(4), 0x01);
    assert_eq!(e.reg(0xF), 0); // no flag effect
}

#[test]
fn jump_call_and_return() {
    let mut e = fresh();
    poke_op(&mut e, 512, 0x2300); // call 0x300
    e.step_cycle(0).unwrap();
    assert_eq!(e.program_counter(), 0x300);
    assert_eq!(e.stack_depth(), 1);
    poke_op(&mut e, 0x300, 0x00EE); // return
    e.step_cycle(0).unwrap();
    assert_eq!(e.program_counter(), 514); // back past the call
    assert_eq!(e.stack_depth(), 0);
    poke_op(&mut e, 514, 0x1234); // jump
    e.step_cycle(0).unwrap();
    assert_eq!(e.program_counter(), 0x234);
}

#[test]
fn return_on_empty_stack_is_a_fault() {
    let mut e = fresh();
    poke_op(&mut e, 512, 0x00EE);
    assert_eq!(e.step_cycle(0), Err(Fault::StackUnderflow));
    // The program counter has already advanced past the faulting word.
    assert_eq!(e.program_counter(), 514);
}

#[test]
fn pc_outside_memory_is_a_fault() {
    let mut e = fresh();
    e.set_program_counter(4095);
    assert_eq!(e.step_cycle(0), Err(Fault::PcOutOfBounds));
    assert_eq!(e.program_counter(), 4095); // untouched
}

#[test]
fn index_out_of_bounds_is_a_fault() {
    let mut e = fresh();
    e.set_index(4094);
    poke_op(&mut e, 512, 0xF433); // decimal decompose needs three bytes
    assert_eq!(e.step_cycle(0), Err(Fault::IndexOutOfBounds));
    assert_eq!(e.mem_at(4094), 0); // nothing was written
}

#[test]
fn jump_with_offset_quirk_uses_register_zero() {
    let mut e = Emulator::new(700, false, true, false);
    e.set_reg(0, 0x10);
    e.set_reg(2, 0x20);
    poke_op(&mut e, 512, 0xB200);
    e.step_cycle(0).unwrap();
    assert_eq!(e.program_counter(), 0x210);
}

#[test]
fn jump_with_offset_without_quirk_uses_x_register() {
    let mut e = fresh();
    e.set_reg(0, 0x10);
    e.set_reg(2, 0x20);
    poke_op(&mut e, 512, 0xB200);
    e.step_cycle(0).unwrap();
    assert_eq!(e.program_counter(), 0x220);
}

#[test]
fn random_and_masks_the_injected_byte() {
    let mut e = fresh();
    poke_op(&mut e, 512, 0xC5F0); // register 5 = random & 0xF0
    e.step_cycle(0xAB).unwrap();
    assert_eq!(e.reg(5), 0xA0);
}

#[test]
fn timer_reads_and_writes() {
    let mut e = fresh();
    e.set_reg(6, 42);
    poke_op(&mut e, 512, 0xF615); // delay = register 6
    e.step_cycle(0).unwrap();
    assert_eq!(e.delay(), 42);
    poke_op(&mut e, 514, 0xF618); // sound = register 6
    e.step_cycle(0).unwrap();
    assert_eq!(e.sound(), 42);
    poke_op(&mut e, 516, 0xF707); // register 7 = delay
    e.step_cycle(0).unwrap();
    assert_eq!(e.reg(7), 42);
}

#[test]
fn add_index_accumulates() {
    let mut e = fresh();
    e.set_index(0x0FF);
    e.set_reg(1, 0x10);
    poke_op(&mut e, 512, 0xF11E);
    e.step_cycle(0).unwrap();
    assert_eq!(e.index(), 0x10F);
}

#[test]
fn decimal_decompose_205() {
    let mut e = fresh();
    e.set_reg(4, 205);
    e.set_index(0x300);
    poke_op(&mut e, 512, 0xF433);
    e.step_cycle(0).unwrap();
    assert_eq!(e.mem_at(0x300), 2);
    assert_eq!(e.mem_at(0x301), 0);
    assert_eq!(e.mem_at(0x302), 5);
}

#[test]
fn decimal_decompose_edges() {
    let mut e = fresh();
    e.set_index(0x300);
    e.set_reg(0, 0);
    poke_op(&mut e, 512, 0xF033);
    e.step_cycle(0).unwrap();
    assert_eq!(
        (e.mem_at(0x300), e.mem_at(0x301), e.mem_at(0x302)),
        (0, 0, 0)
    );
    e.set_program_counter(512);
    e.set_reg(0, 255);
    e.step_cycle(0).unwrap();
    assert_eq!(
        (e.mem_at(0x300), e.mem_at(0x301), e.mem_at(0x302)),
        (2, 5, 5)
    );
}

#[test]
fn store_load_roundtrip_without_quirk() {
    let mut e = fresh();
    for i in 0..8u8 {
        e.set_reg(i, 0x30 + i * 3);
    }
    e.set_index(0x400);
    poke_op(&mut e, 512, 0xF755); // store registers 0..=7
    e.step_cycle(0).unwrap();
    assert_eq!(e.index(), 0x400); // quirk off: index unchanged
    for i in 0..8u8 {
        assert_eq!(e.mem_at(0x400 + i as u16), 0x30 + i * 3);
        e.set_reg(i, 0); // scramble
    }
    poke_op(&mut e, 514, 0xF765); // load registers 0..=7
    e.step_cycle(0).unwrap();
    assert_eq!(e.index(), 0x400);
    for i in 0..8u8 {
        assert_eq!(e.reg(i), 0x30 + i * 3);
    }
    assert_eq!(e.reg(8), 0); // past the range: untouched
}

#[test]
fn store_load_quirk_advances_index() {
    let mut e = Emulator::new(700, false, false, true);
    e.set_reg(0, 0xAA);
    e.set_reg(1, 0xBB);
    e.set_index(0x400);
    poke_op(&mut e, 512, 0xF155); // store registers 0..=1
    e.step_cycle(0).unwrap();
    assert_eq!(e.index(), 0x402); // advanced by range + 1
    e.set_index(0x400);
    poke_op(&mut e, 514, 0xF165);
    e.step_cycle(0).unwrap();
    assert_eq!(e.index(), 0x402);
    assert_eq!((e.reg(0), e.reg(1)), (0xAA, 0xBB));
}

#[test]
fn font_address_points_at_glyph() {
    let mut e = fresh();
    e.set_reg(2, 0xA);
    poke_op(&mut e, 512, 0xF229);
    e.step_cycle(0).unwrap();
    assert_eq!(e.index(), 0x50 + 0xA * 5);
}
