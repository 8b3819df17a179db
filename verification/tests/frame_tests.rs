use chip8::emu::Emulator;
use chip8::font::{font_digit_address, load_fonts};
use chip8::keymap::map_key;
use chip8::timing::due_cycles;

fn fresh() -> Emulator {
    Emulator::new(700, false, false, false)
}

fn poke_op(e: &mut Emulator, addr: u16, word: u16) {
    e.set_mem(addr, (word >> 8) as u8);
    e.set_mem(addr + 1, (word & 0xFF) as u8);
}

#[test]
fn draw_lights_pixels_and_requests_redraw() {
    let mut e = fresh();
    e.set_reg(0, 10);
    e.set_reg(1, 5);
    e.set_index(0x300);
    e.set_mem(0x300, 0b1010_0001);
    poke_op(&mut e, 512, 0xD011); // one row at (10, 5)
    assert!(!e.needs_redraw());
    e.step_cycle(0).unwrap();
    assert!(e.needs_redraw());
    assert!(e.pixel(10, 5));
    assert!(!e.pixel(11, 5));
    assert!(e.pixel(12, 5));
    assert!(e.pixel(17, 5));
    assert_eq!(e.reg(0xF), 0);
}

#[test]
fn draw_clips_at_right_edge() {
    let mut e = fresh();
    e.set_reg(0, 60);
    e.set_reg(1, 0);
    e.set_index(0x300);
    e.set_mem(0x300, 0xFF); // eight columns wide
    poke_op(&mut e, 512, 0xD011);
    e.step_cycle(0).unwrap();
    for col in 60..64u8 {
        assert!(e.pixel(col, 0)); // drawn
    }
    for col in 0..4u8 {
        assert!(!e.pixel(col, 0)); // discarded, not wrapped
    }
    assert_eq!(e.reg(0xF), 0);
}

#[test]
fn draw_wraps_start_coordinates_once() {
    let mut e = fresh();
    e.set_reg(0, 64 + 3); // wraps to column 3
    e.set_reg(1, 32 + 2); // wraps to row 2
    e.set_index(0x300);
    e.set_mem(0x300, 0x80);
    poke_op(&mut e, 512, 0xD011);
    e.step_cycle(0).unwrap();
    assert!(e.pixel(3, 2));
}

#[test]
fn draw_clips_at_bottom_edge() {
    let mut e = fresh();
    e.set_reg(0, 0);
    e.set_reg(1, 30);
    e.set_index(0x300);
    e.set_mem(0x300, 0x80);
    e.set_mem(0x301, 0x80);
    e.set_mem(0x302, 0x80);
    e.set_mem(0x303, 0x80);
    poke_op(&mut e, 512, 0xD014); // four rows from row 30: only two fit
    e.step_cycle(0).unwrap();
    assert!(e.pixel(0, 30));
    assert!(e.pixel(0, 31));
    assert!(!e.pixel(0, 0)); // no wrap to the top
    assert!(!e.pixel(0, 1));
}

#[test]
fn draw_twice_collides_and_erases() {
    let mut e = fresh();
    e.set_reg(0, 10);
    e.set_reg(1, 5);
    e.set_index(0x300);
    e.set_mem(0x300, 0xA5);
    e.set_mem(0x301, 0x5A);
    poke_op(&mut e, 512, 0xD012);
    poke_op(&mut e, 514, 0xD012);
    e.step_cycle(0).unwrap();
    assert_eq!(e.reg(0xF), 0); // first draw on a cleared screen
    e.step_cycle(0).unwrap();
    assert_eq!(e.reg(0xF), 1); // identical second draw collides
    for col in 0..64u8 {
        for row in 0..32u8 {
            assert!(!e.pixel(col, row)); // every pixel toggled back off
        }
    }
}

#[test]
fn clear_screen_darkens_everything() {
    let mut e = fresh();
    e.set_reg(0, 0);
    e.set_reg(1, 0);
    e.set_index(0x300);
    e.set_mem(0x300, 0xFF);
    poke_op(&mut e, 512, 0xD011);
    e.step_cycle(0).unwrap();
    assert!(e.pixel(0, 0));
    poke_op(&mut e, 514, 0x00E0);
    e.step_cycle(0).unwrap();
    for col in 0..64u8 {
        assert!(!e.pixel(col, 0));
    }
    assert!(e.needs_redraw());
}

#[test]
fn block_for_key_stalls_until_a_key_arrives() {
    let mut e = fresh();
    poke_op(&mut e, 512, 0xF50A); // block for a key into register 5
    for _ in 0..10 {
        e.step_cycle(0).unwrap();
        assert_eq!(e.program_counter(), 512); // same instruction re-fetches
    }
    e.press_key(0x7);
    e.press_key(0x3);
    e.step_cycle(0).unwrap();
    assert_eq!(e.program_counter(), 514); // now it advances
    assert_eq!(e.reg(5), 0x3); // lowest pressed code wins the tie-break
}

#[test]
fn timers_decrement_once_per_frame_regardless_of_cycles() {
    let mut e = fresh();
    poke_op(&mut e, 512, 0x1200); // jump-to-self: an idle loop
    assert_eq!(e.delay(), 60);
    assert_eq!(e.sound(), 60);
    let out = e.run_frame(50).unwrap(); // 50 instructions, one frame
    assert_eq!(e.delay(), 59); // exactly one decrement
    assert_eq!(e.sound(), 59);
    assert!(out.beep); // sound timer was nonzero
    let out2 = e.run_frame(0).unwrap(); // a frame with no cycles still ticks
    assert_eq!(e.delay(), 58);
    assert_eq!(e.sound(), 58);
    assert!(out2.beep);
}

#[test]
fn timers_saturate_at_zero_and_silence_the_beep() {
    let mut e = fresh();
    poke_op(&mut e, 512, 0x1200);
    for _ in 0..60 {
        e.run_frame(1).unwrap();
    }
    assert_eq!(e.delay(), 0);
    assert_eq!(e.sound(), 0);
    let out = e.run_frame(1).unwrap();
    assert_eq!(e.delay(), 0); // stays at zero
    assert_eq!(e.sound(), 0);
    assert!(!out.beep); // gate closes the instant the timer is spent
}

#[test]
fn run_frame_reports_and_clears_the_redraw_request() {
    let mut e = fresh();
    poke_op(&mut e, 512, 0x00E0);
    poke_op(&mut e, 514, 0x1202); // then loop in place
    let out = e.run_frame(3).unwrap();
    assert!(out.present); // the clear asked for a redraw
    assert!(!e.needs_redraw()); // coalesced request consumed
    let out2 = e.run_frame(3).unwrap();
    assert!(!out2.present); // nothing drew this frame
}

#[test]
fn run_frame_stops_at_a_fault() {
    let mut e = fresh();
    poke_op(&mut e, 512, 0x00EE); // return with an empty stack
    assert_eq!(e.run_frame(5), Err(chip8::machine::Fault::StackUnderflow));
    assert_eq!(e.delay(), 60); // the frame never reached its timer tick
}

#[test]
fn rom_loads_at_program_origin() {
    let mut e = fresh();
    e.load_rom(vec![0x60, 0x2A, 0x61, 0x07]);
    assert_eq!(e.mem_at(512), 0x60);
    assert_eq!(e.mem_at(515), 0x07);
    e.step_cycle(0).unwrap();
    e.step_cycle(0).unwrap();
    assert_eq!(e.reg(0), 0x2A);
    assert_eq!(e.reg(1), 0x07);
}

#[test]
fn construction_loads_the_font() {
    let e = fresh();
    assert_eq!(e.mem_at(0x50), 0xF0); // glyph 0 starts with 0xF0
    assert_eq!(e.mem_at(0x9F), 0x80); // last byte of glyph F
    assert_eq!(e.mem_at(0x4F), 0); // outside the table: untouched
    assert_eq!(e.mem_at(0xA0), 0);
    assert_eq!(e.program_counter(), 512);
    assert_eq!(e.rate(), 700);
}

#[test]
fn load_fonts_writes_the_eighty_byte_table() {
    let mut memory = vec![0u8; 4096];
    load_fonts(&mut memory);
    assert_eq!(&memory[0x50..0x55], &[0xF0, 0x90, 0x90, 0x90, 0xF0]);
    assert_eq!(&memory[0x9B..0xA0], &[0xF0, 0x80, 0xF0, 0x80, 0x80]);
    assert_eq!(memory[0x4F], 0);
    assert_eq!(memory[0xA0], 0);
}

#[test]
fn font_digit_address_is_five_bytes_per_glyph() {
    assert_eq!(font_digit_address(0), 0x50);
    assert_eq!(font_digit_address(1), 0x55);
    assert_eq!(font_digit_address(0xF), 0x50 + 75);
}

#[test]
fn keymap_covers_the_sixteen_keys_and_ignores_others() {
    assert_eq!(map_key(b'1'), Some(0x1));
    assert_eq!(map_key(b'2'), Some(0x2));
    assert_eq!(map_key(b'3'), Some(0x3));
    assert_eq!(map_key(b'4'), Some(0xC));
    assert_eq!(map_key(b'q'), Some(0x4));
    assert_eq!(map_key(b'w'), Some(0x5));
    assert_eq!(map_key(b'e'), Some(0x6));
    assert_eq!(map_key(b'r'), Some(0xD));
    assert_eq!(map_key(b'a'), Some(0x7));
    assert_eq!(map_key(b's'), Some(0x8));
    assert_eq!(map_key(b'd'), Some(0x9));
    assert_eq!(map_key(b'f'), Some(0xE));
    assert_eq!(map_key(b'z'), Some(0xA));
    assert_eq!(map_key(b'x'), Some(0x0));
    assert_eq!(map_key(b'c'), Some(0xB));
    assert_eq!(map_key(b'v'), Some(0xF));
    assert_eq!(map_key(b'5'), None);
    assert_eq!(map_key(b'g'), None);
    assert_eq!(map_key(0x00), None);
}

#[test]
fn key_events_update_the_pressed_set() {
    let mut e = fresh();
    poke_op(&mut e, 512, 0xE89E); // skip if key 8 down
    e.handle_key_event(b's', true); // 's' maps to key 8
    e.step_cycle(0).unwrap();
    assert_eq!(e.program_counter(), 516);
    e.handle_key_event(b's', false);
    e.set_program_counter(512);
    e.step_cycle(0).unwrap();
    assert_eq!(e.program_counter(), 514);
    e.handle_key_event(b'g', true); // unmapped: ignored
    e.set_program_counter(512);
    e.step_cycle(0).unwrap();
    assert_eq!(e.program_counter(), 514);
}

#[test]
fn due_cycles_tracks_elapsed_times_rate() {
    assert_eq!(due_cycles(0, 700, 0), 0);
    assert_eq!(due_cycles(3, 700, 0), 2100);
    assert_eq!(due_cycles(3, 700, 2000), 100);
    assert_eq!(due_cycles(3, 700, 2100), 0);
    assert_eq!(due_cycles(3, 700, 9999), 0); // never underflows
    assert_eq!(due_cycles(u64::MAX, 700, 0), u64::MAX); // never overflows
}

#[test]
fn random_step_masks_whatever_byte_arrives() {
    let mut e = fresh();
    poke_op(&mut e, 512, 0xC500); // register 5 = random & 0x00
    e.step().unwrap();
    assert_eq!(e.reg(5), 0); // holds for every generator byte
    assert_eq!(e.program_counter(), 514);
}
