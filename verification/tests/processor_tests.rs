use chip8::display::{Display, SCREEN_WIDTH};
use chip8::errors::Error;
use chip8::instruction::LogicOp;
use chip8::key_input::KeyInput;
use chip8::memory::{FONTSET_ADDR, RAM_SIZE, START_ADDR};
use chip8::processor::{Processor, CARRY_REGISTER};

fn proc_with(rom: &[u8]) -> Processor {
    Processor::new(&rom.to_vec()).unwrap()
}

fn fixtures() -> (Display, KeyInput) {
    (Display::new(), KeyInput::new())
}

#[test]
fn proc_new_loads_rom_and_zeroes_state() {
    let p = proc_with(&[0x12, 0x34]);
    assert_eq!(p.pc, START_ADDR);
    assert_eq!(p.i_reg, 0);
    assert_eq!(p.memory.read(START_ADDR), 0x12);
    assert!(p.v_reg.iter().all(|v| *v == 0));
    assert!(!p.check_beep());
}

#[test]
fn proc_new_oversized_rom_fails() {
    let rom = vec![0u8; RAM_SIZE - START_ADDR as usize + 1];
    match Processor::new(&rom) {
        Err(Error::InvalidRomSizeError) => {},
        _ => panic!("an oversized ROM must be rejected"),
    }
}

#[test]
fn proc_cycle_clear_screen_leaves_registers() {
    // Opcode bytes 0x00 0xE0 at the ROM origin clear the display and leave
    // every register unchanged.
    let mut p = proc_with(&[0x00, 0xE0]);
    p.v_reg[3] = 7;
    p.v_reg[15] = 9;
    let (mut d, mut k) = fixtures();
    d.pixels[77] = true;
    assert!(p.cycle(&mut d, &mut k).is_ok());
    assert!(d.pixels.iter().all(|px| !px));
    assert_eq!(p.v_reg[3], 7);
    assert_eq!(p.v_reg[15], 9);
    assert_eq!(p.pc, 0x202);
    assert_eq!(p.i_reg, 0);
}

#[test]
fn proc_cycle_jump_sets_pc() {
    let mut p = proc_with(&[0x12, 0x34]);
    let (mut d, mut k) = fixtures();
    assert!(p.cycle(&mut d, &mut k).is_ok());
    assert_eq!(p.pc, 0x234);
}

#[test]
fn proc_cycle_without_rom_fails() {
    let mut p = proc_with(&[0x12, 0x34]);
    p.reset();
    let (mut d, mut k) = fixtures();
    assert_eq!(p.cycle(&mut d, &mut k), Err(Error::MissingRomError));
}

#[test]
fn proc_cycle_pc_off_the_end_fails() {
    let mut p = proc_with(&[0x12, 0x34]);
    p.pc = RAM_SIZE as u16;
    let (mut d, mut k) = fixtures();
    assert_eq!(p.cycle(&mut d, &mut k), Err(Error::InvalidRamAddressError));
    // A fetch at the very last byte would need one byte beyond the end.
    p.pc = RAM_SIZE as u16 - 1;
    assert_eq!(p.cycle(&mut d, &mut k), Err(Error::InvalidRamAddressError));
}

#[test]
fn proc_cycle_unknown_opcode_fails() {
    let mut p = proc_with(&[0x80, 0x08]);
    let (mut d, mut k) = fixtures();
    assert_eq!(p.cycle(&mut d, &mut k), Err(Error::UnknownOpcodeError(0x8008)));
    // The default advance of the program counter stays in place.
    assert_eq!(p.pc, 0x202);
}

#[test]
fn proc_cycle_native_call_is_invalid_opcode() {
    let mut p = proc_with(&[0x01, 0x23]);
    let (mut d, mut k) = fixtures();
    match p.cycle(&mut d, &mut k) {
        Err(Error::InvalidOpcodeError(_)) => {},
        r => panic!("a 0NNN opcode must be rejected, got {:?}", r),
    }
}

#[test]
fn proc_call_and_return_roundtrip() {
    let mut p = proc_with(&[0x22, 0x04, 0x00, 0x00, 0x00, 0xEE]);
    let (mut d, mut k) = fixtures();
    assert!(p.cycle(&mut d, &mut k).is_ok());
    assert_eq!(p.pc, 0x204);
    assert!(p.cycle(&mut d, &mut k).is_ok());
    // The return address was the already-advanced counter.
    assert_eq!(p.pc, 0x202);
}

#[test]
fn proc_sixteen_calls_then_stack_overflow() {
    let mut p = proc_with(&[0x00, 0xE0]);
    for _ in 0..16 {
        assert!(p.call_subroutine(0x300).is_ok());
    }
    assert_eq!(p.call_subroutine(0x300), Err(Error::StackOverflowError));
}

#[test]
fn proc_return_on_empty_stack_underflows() {
    let mut p = proc_with(&[0x00, 0xE0]);
    assert_eq!(p.return_subroutine(), Err(Error::StackUnderflowError));
}

#[test]
fn proc_skip_opcodes() {
    let mut p = proc_with(&[0x00, 0xE0]);
    p.v_reg[2] = 0x44;
    p.v_reg[3] = 0x44;
    p.v_reg[4] = 0x55;

    p.pc = 0x300;
    p.skip_equal(2, 0x44);
    assert_eq!(p.pc, 0x302);
    p.skip_equal(2, 0x45);
    assert_eq!(p.pc, 0x302);

    p.skip_not_equal(2, 0x45);
    assert_eq!(p.pc, 0x304);
    p.skip_not_equal(2, 0x44);
    assert_eq!(p.pc, 0x304);

    p.skip_register_equal(2, 3);
    assert_eq!(p.pc, 0x306);
    p.skip_register_equal(2, 4);
    assert_eq!(p.pc, 0x306);

    p.skip_register_not_equal(2, 4);
    assert_eq!(p.pc, 0x308);
    p.skip_register_not_equal(2, 3);
    assert_eq!(p.pc, 0x308);
}

#[test]
fn proc_load_and_add_number() {
    let mut p = proc_with(&[0x00, 0xE0]);
    p.load_number(5, 0xAB);
    assert_eq!(p.v_reg[5], 0xAB);
    p.v_reg[CARRY_REGISTER] = 9;
    p.load_number(0, 250);
    p.add_number(0, 10);
    // 250 + 10 wraps to 4 and the flag register is not touched.
    assert_eq!(p.v_reg[0], 4);
    assert_eq!(p.v_reg[CARRY_REGISTER], 9);
    p.add_number(0, 1);
    assert_eq!(p.v_reg[0], 5);
}

#[test]
fn proc_logic_ops() {
    let mut p = proc_with(&[0x00, 0xE0]);
    p.v_reg[0] = 0b1100;
    p.v_reg[1] = 0b1010;
    p.load_register_op(0, 1, LogicOp::Or);
    assert_eq!(p.v_reg[0], 0b1110);
    p.v_reg[0] = 0b1100;
    p.load_register_op(0, 1, LogicOp::And);
    assert_eq!(p.v_reg[0], 0b1000);
    p.v_reg[0] = 0b1100;
    p.load_register_op(0, 1, LogicOp::Xor);
    assert_eq!(p.v_reg[0], 0b0110);
    p.load_register_op(0, 1, LogicOp::Assign);
    assert_eq!(p.v_reg[0], 0b1010);
}

#[test]
fn proc_add_register_carry_flag_convention() {
    let mut p = proc_with(&[0x00, 0xE0]);
    // No carry.
    p.v_reg[0] = 10;
    p.v_reg[1] = 20;
    p.add_register_carry(0, 1);
    assert_eq!(p.v_reg[0], 30);
    assert_eq!(p.v_reg[CARRY_REGISTER], 0);
    // Carry out of 8 bits.
    p.v_reg[0] = 200;
    p.v_reg[1] = 100;
    p.add_register_carry(0, 1);
    assert_eq!(p.v_reg[0], 44);
    assert_eq!(p.v_reg[CARRY_REGISTER], 1);
    // Exactly 255 does not carry.
    p.v_reg[0] = 255;
    p.v_reg[1] = 0;
    p.add_register_carry(0, 1);
    assert_eq!(p.v_reg[0], 255);
    assert_eq!(p.v_reg[CARRY_REGISTER], 0);
}

#[test]
fn proc_add_register_carry_into_flag_register() {
    let mut p = proc_with(&[0x00, 0xE0]);
    // When X is the flag register itself, the flag overwrites the sum.
    p.v_reg[CARRY_REGISTER] = 200;
    p.v_reg[1] = 100;
    p.add_register_carry(CARRY_REGISTER as u8, 1);
    assert_eq!(p.v_reg[CARRY_REGISTER], 1);
}

#[test]
fn proc_sub_register_borrow_convention() {
    let mut p = proc_with(&[0x00, 0xE0]);
    // No borrow: flag 1.
    p.v_reg[0] = 10;
    p.v_reg[1] = 5;
    p.sub_register(0, 1);
    assert_eq!(p.v_reg[0], 5);
    assert_eq!(p.v_reg[CARRY_REGISTER], 1);
    // Borrow: flag 0, result wraps.
    p.v_reg[0] = 5;
    p.v_reg[1] = 10;
    p.sub_register(0, 1);
    assert_eq!(p.v_reg[0], 251);
    assert_eq!(p.v_reg[CARRY_REGISTER], 0);
    // Equal values: no borrow.
    p.v_reg[0] = 7;
    p.v_reg[1] = 7;
    p.sub_register(0, 1);
    assert_eq!(p.v_reg[0], 0);
    assert_eq!(p.v_reg[CARRY_REGISTER], 1);
}

#[test]
fn proc_sub_register_reversed_borrow_convention() {
    let mut p = proc_with(&[0x00, 0xE0]);
    // VX = VY - VX; no borrow when VY >= VX.
    p.v_reg[0] = 5;
    p.v_reg[1] = 10;
    p.sub_register_reversed(0, 1);
    assert_eq!(p.v_reg[0], 5);
    assert_eq!(p.v_reg[CARRY_REGISTER], 1);
    // Borrow when VY < VX.
    p.v_reg[0] = 10;
    p.v_reg[1] = 5;
    p.sub_register_reversed(0, 1);
    assert_eq!(p.v_reg[0], 251);
    assert_eq!(p.v_reg[CARRY_REGISTER], 0);
}

#[test]
fn proc_shift_right_copies_vy_then_shifts() {
    let mut p = proc_with(&[0x00, 0xE0]);
    p.v_reg[1] = 0b1011;
    p.shift_right(0, 1);
    assert_eq!(p.v_reg[0], 0b101);
    assert_eq!(p.v_reg[CARRY_REGISTER], 1);
    assert_eq!(p.v_reg[1], 0b1011);
    p.v_reg[1] = 0b0100;
    p.shift_right(0, 1);
    assert_eq!(p.v_reg[0], 0b10);
    assert_eq!(p.v_reg[CARRY_REGISTER], 0);
}

#[test]
fn proc_shift_left_copies_vy_then_shifts() {
    let mut p = proc_with(&[0x00, 0xE0]);
    p.v_reg[1] = 0x81;
    p.shift_left(0, 1);
    assert_eq!(p.v_reg[0], 0x02);
    assert_eq!(p.v_reg[CARRY_REGISTER], 1);
    p.v_reg[1] = 0x41;
    p.shift_left(0, 1);
    assert_eq!(p.v_reg[0], 0x82);
    assert_eq!(p.v_reg[CARRY_REGISTER], 0);
}

#[test]
fn proc_load_i_and_jump_plus() {
    let mut p = proc_with(&[0x00, 0xE0]);
    p.load_i(0x5A5);
    assert_eq!(p.i_reg, 0x5A5);
    p.v_reg[0] = 0x10;
    p.jump_plus(0x200);
    assert_eq!(p.pc, 0x210);
}

#[test]
fn proc_random_and_masks_result() {
    let mut p = proc_with(&[0x00, 0xE0]);
    for _ in 0..32 {
        p.random_and(0, 0x0F);
        assert_eq!(p.v_reg[0] & 0xF0, 0);
    }
    p.random_and(0, 0x00);
    assert_eq!(p.v_reg[0], 0);
}

#[test]
fn proc_draw_sprite_draws_and_flags_collision() {
    let mut p = proc_with(&[0x00, 0xE0]);
    let (mut d, _) = fixtures();
    // Draw the font glyph for 0 (5 rows starting 0xF0) at (0, 0).
    p.i_reg = FONTSET_ADDR;
    p.v_reg[0] = 0;
    p.v_reg[1] = 0;
    assert!(p.draw_sprite(0, 1, 5, &mut d).is_ok());
    assert_eq!(p.v_reg[CARRY_REGISTER], 0);
    assert!(d.redraw_needed());
    // Top row of the glyph: 0xF0 lights columns 0-3.
    for x in 0..4 {
        assert!(d.pixels[x]);
    }
    assert!(!d.pixels[4]);
    // Drawing it again erases everything and reports the collision.
    assert!(p.draw_sprite(0, 1, 5, &mut d).is_ok());
    assert_eq!(p.v_reg[CARRY_REGISTER], 1);
    assert!(d.pixels.iter().all(|px| !px));
}

#[test]
fn proc_draw_sprite_anchor_wraps() {
    let mut p = proc_with(&[0x00, 0xE0]);
    let (mut d, _) = fixtures();
    p.i_reg = FONTSET_ADDR;
    p.v_reg[0] = SCREEN_WIDTH as u8;  // wraps to column 0
    p.v_reg[1] = 32;  // wraps to row 0
    assert!(p.draw_sprite(0, 1, 1, &mut d).is_ok());
    assert!(d.pixels[0]);
}

#[test]
fn proc_draw_sprite_range_off_the_end_fails() {
    let mut p = proc_with(&[0x00, 0xE0]);
    let (mut d, _) = fixtures();
    p.i_reg = RAM_SIZE as u16 - 10;
    let r = p.draw_sprite(0, 1, 15, &mut d);
    assert_eq!(r, Err(Error::InvalidRamAddressError));
    assert!(!d.redraw_needed());
}

#[test]
fn proc_keypress_skips() {
    let mut p = proc_with(&[0x00, 0xE0]);
    let mut keys = KeyInput::new();
    keys.key_press(5);
    p.pc = 0x300;
    p.v_reg[0] = 5;
    assert!(p.skip_if_keypress(0, &keys).is_ok());
    assert_eq!(p.pc, 0x302);
    assert!(p.skip_if_not_keypress(0, &keys).is_ok());
    assert_eq!(p.pc, 0x302);
    p.v_reg[0] = 6;
    assert!(p.skip_if_keypress(0, &keys).is_ok());
    assert_eq!(p.pc, 0x302);
    assert!(p.skip_if_not_keypress(0, &keys).is_ok());
    assert_eq!(p.pc, 0x304);
}

#[test]
fn proc_keypress_with_key_out_of_range_fails() {
    let mut p = proc_with(&[0x00, 0xE0]);
    let keys = KeyInput::new();
    p.v_reg[0] = 16;
    match p.skip_if_keypress(0, &keys) {
        Err(Error::InvalidOpcodeError(_)) => {},
        r => panic!("key 16 must be rejected, got {:?}", r),
    }
    match p.skip_if_not_keypress(0, &keys) {
        Err(Error::InvalidOpcodeError(_)) => {},
        r => panic!("key 16 must be rejected, got {:?}", r),
    }
}

#[test]
fn proc_wait_for_keypress_spins_until_a_key() {
    // 0xF30A: wait for a key press into V3.
    let mut p = proc_with(&[0xF3, 0x0A]);
    let (mut d, mut keys) = fixtures();
    // No key down: the program counter steps back so the opcode re-runs.
    assert!(p.cycle(&mut d, &mut keys).is_ok());
    assert_eq!(p.pc, 0x200);
    // A key down: its number lands in V3 and the table is reset.
    keys.key_press(0xC);
    assert!(p.cycle(&mut d, &mut keys).is_ok());
    assert_eq!(p.pc, 0x202);
    assert_eq!(p.v_reg[3], 0xC);
    assert!(!keys.check_key(0xC));
}

#[test]
fn proc_wait_for_keypress_picks_lowest() {
    let mut p = proc_with(&[0x00, 0xE0]);
    let mut keys = KeyInput::new();
    keys.key_press(9);
    keys.key_press(4);
    p.wait_for_keypress(0, &mut keys);
    assert_eq!(p.v_reg[0], 4);
}

#[test]
fn proc_timers() {
    let mut p = proc_with(&[0x00, 0xE0]);
    // A delay timer at zero stays at zero: no underflow.
    assert_eq!(p.dt, 0);
    p.tick_timers();
    assert_eq!(p.dt, 0);
    assert_eq!(p.st, 0);

    p.v_reg[0] = 2;
    p.set_delay_timer(0);
    p.set_sound_timer(0);
    assert_eq!(p.dt, 2);
    assert!(p.check_beep());
    p.tick_timers();
    assert_eq!(p.dt, 1);
    assert!(p.check_beep());
    p.tick_timers();
    assert_eq!(p.dt, 0);
    assert!(!p.check_beep());
    p.tick_timers();
    assert_eq!(p.dt, 0);
    assert_eq!(p.st, 0);
}

#[test]
fn proc_load_delay_timer() {
    let mut p = proc_with(&[0x00, 0xE0]);
    p.dt = 77;
    p.load_delay_timer(4);
    assert_eq!(p.v_reg[4], 77);
}

#[test]
fn proc_load_add_i_wraps() {
    let mut p = proc_with(&[0x00, 0xE0]);
    p.i_reg = 0x0FFE;
    p.v_reg[0] = 4;
    p.load_add_i(0);
    assert_eq!(p.i_reg, 0x1002);
    p.i_reg = 0xFFFF;
    p.v_reg[0] = 2;
    p.load_add_i(0);
    assert_eq!(p.i_reg, 1);
}

#[test]
fn proc_find_character_addresses_glyphs() {
    let mut p = proc_with(&[0x00, 0xE0]);
    p.v_reg[6] = 0x0;
    p.find_character(6);
    assert_eq!(p.i_reg, FONTSET_ADDR);
    p.v_reg[6] = 0xA;
    p.find_character(6);
    assert_eq!(p.i_reg, FONTSET_ADDR + 5 * 0xA);
}

#[test]
fn proc_store_bcd_writes_decimal_digits() {
    let mut p = proc_with(&[0x00, 0xE0]);
    p.v_reg[2] = 234;
    p.i_reg = 0x300;
    assert!(p.store_bcd(2).is_ok());
    assert_eq!(p.memory.read(0x300), 2);
    assert_eq!(p.memory.read(0x301), 3);
    assert_eq!(p.memory.read(0x302), 4);
    p.v_reg[2] = 7;
    assert!(p.store_bcd(2).is_ok());
    assert_eq!(p.memory.read(0x300), 0);
    assert_eq!(p.memory.read(0x301), 0);
    assert_eq!(p.memory.read(0x302), 7);
}

#[test]
fn proc_store_bcd_off_the_end_fails() {
    let mut p = proc_with(&[0x00, 0xE0]);
    p.i_reg = RAM_SIZE as u16 - 2;
    assert_eq!(p.store_bcd(0), Err(Error::InvalidRamAddressError));
}

#[test]
fn proc_dump_and_load_registers() {
    let mut p = proc_with(&[0x00, 0xE0]);
    p.v_reg[0] = 1;
    p.v_reg[1] = 2;
    p.v_reg[2] = 3;
    p.v_reg[3] = 4;
    p.i_reg = 0x400;
    assert!(p.dump_registers_to_ram(3).is_ok());
    assert_eq!(p.memory.read(0x400), 1);
    assert_eq!(p.memory.read(0x403), 4);
    assert_eq!(p.memory.read(0x404), 0);

    for k in 0..16 {
        p.v_reg[k] = 0xEE;
    }
    assert!(p.load_registers_from_ram(3).is_ok());
    assert_eq!(p.v_reg[0], 1);
    assert_eq!(p.v_reg[3], 4);
    // Registers beyond VX are untouched.
    assert_eq!(p.v_reg[4], 0xEE);
}

#[test]
fn proc_register_block_transfers_off_the_end_fail() {
    let mut p = proc_with(&[0x00, 0xE0]);
    p.i_reg = RAM_SIZE as u16 - 3;
    assert_eq!(p.dump_registers_to_ram(3), Err(Error::InvalidRamAddressError));
    assert_eq!(p.load_registers_from_ram(3), Err(Error::InvalidRamAddressError));
    assert!(p.dump_registers_to_ram(2).is_ok());
    assert!(p.load_registers_from_ram(2).is_ok());
}

#[test]
fn proc_reset_returns_to_initial_state() {
    let mut p = proc_with(&[0x12, 0x34]);
    let (mut d, mut k) = fixtures();
    p.cycle(&mut d, &mut k).unwrap();
    p.v_reg[5] = 42;
    p.i_reg = 0x500;
    p.reset();
    assert_eq!(p.pc, START_ADDR);
    assert_eq!(p.i_reg, 0);
    assert!(p.v_reg.iter().all(|v| *v == 0));
    assert_eq!(p.memory.read(START_ADDR), 0);
    assert_eq!(p.memory.read(FONTSET_ADDR), 0xF0);
    assert!(!p.memory.rom_loaded());
}

#[test]
fn proc_cycle_runs_arithmetic_program() {
    // LOAD V0, 0x22; LOAD V1, 0x11; ADDR V0, V1.
    let mut p = proc_with(&[0x60, 0x22, 0x61, 0x11, 0x80, 0x14]);
    let (mut d, mut k) = fixtures();
    assert!(p.cycle(&mut d, &mut k).is_ok());
    assert!(p.cycle(&mut d, &mut k).is_ok());
    assert!(p.cycle(&mut d, &mut k).is_ok());
    assert_eq!(p.v_reg[0], 0x33);
    assert_eq!(p.v_reg[1], 0x11);
    assert_eq!(p.v_reg[CARRY_REGISTER], 0);
    assert_eq!(p.pc, 0x206);
}

#[test]
fn proc_cycle_skip_family_through_rom() {
    // SKE V0, 0x00 skips (V0 == 0), landing on SKNE V1, 0x00 which does not.
    let mut p = proc_with(&[0x30, 0x00, 0x00, 0x00, 0x41, 0x00]);
    let (mut d, mut k) = fixtures();
    assert!(p.cycle(&mut d, &mut k).is_ok());
    assert_eq!(p.pc, 0x204);
    assert!(p.cycle(&mut d, &mut k).is_ok());
    assert_eq!(p.pc, 0x206);
}

#[test]
fn proc_cycle_draw_through_rom() {
    // LOADI 0x202; DRAW V0, V1, 1 with the sprite byte 0xFF read from the
    // second opcode's own high byte (0xD0).
    let mut p = proc_with(&[0xA2, 0x02, 0xD0, 0x11]);
    let (mut d, mut k) = fixtures();
    assert!(p.cycle(&mut d, &mut k).is_ok());
    assert_eq!(p.i_reg, 0x202);
    assert!(p.cycle(&mut d, &mut k).is_ok());
    // 0xD0 = 11010000: columns 0, 1 and 3 of row 0.
    assert!(d.pixels[0] && d.pixels[1] && !d.pixels[2] && d.pixels[3]);
    assert!(d.redraw_needed());
    assert_eq!(p.v_reg[CARRY_REGISTER], 0);
}

#[test]
fn proc_cycle_key_skip_through_rom() {
    // SKEYD V0: V0 = 0, key 0 down, so the next instruction is skipped.
    let mut p = proc_with(&[0xE0, 0x9E]);
    let (mut d, mut k) = fixtures();
    k.key_press(0);
    assert!(p.cycle(&mut d, &mut k).is_ok());
    assert_eq!(p.pc, 0x204);
    // The non-consuming query left the key down.
    assert!(k.check_key(0));
}

#[test]
fn proc_cycle_register_block_through_rom() {
    // LOAD V0, 9; LOADI 0x400; STORE V0; LOAD V0, 0; READ V0.
    let mut p = proc_with(&[0x60, 0x09, 0xA4, 0x00, 0xF0, 0x55, 0x60, 0x00, 0xF0, 0x65]);
    let (mut d, mut k) = fixtures();
    for _ in 0..5 {
        assert!(p.cycle(&mut d, &mut k).is_ok());
    }
    assert_eq!(p.memory.read(0x400), 9);
    assert_eq!(p.v_reg[0], 9);
}

#[test]
fn proc_cycle_random_through_rom() {
    // RAND V0, 0x00 always stores zero: the random byte is masked away.
    let mut p = proc_with(&[0xC0, 0x00]);
    let (mut d, mut k) = fixtures();
    p.v_reg[0] = 0xAA;
    assert!(p.cycle(&mut d, &mut k).is_ok());
    assert_eq!(p.v_reg[0], 0);
}
