use chip8::errors::Error;
use chip8::memory::{Memory, FONTSET_ADDR, FONTSET_SIZE, MAX_ROM_SIZE, RAM_SIZE, START_ADDR};

#[test]
fn mem_new_preloads_font_and_zeroes_rest() {
    let m = Memory::new();
    assert!(!m.rom_loaded());
    // First glyph (digit 0) starts with 0xF0, last glyph (digit F) ends 0x80.
    assert_eq!(m.read(FONTSET_ADDR), 0xF0);
    assert_eq!(m.read(FONTSET_ADDR + FONTSET_SIZE as u16 - 1), 0x80);
    // Outside the font region everything is zero.
    assert_eq!(m.read(0), 0);
    assert_eq!(m.read(FONTSET_ADDR - 1), 0);
    assert_eq!(m.read(FONTSET_ADDR + FONTSET_SIZE as u16), 0);
    assert_eq!(m.read(START_ADDR), 0);
    assert_eq!(m.read(RAM_SIZE as u16 - 1), 0);
}

#[test]
fn mem_load_rom_copies_bytes_to_origin() {
    let mut m = Memory::new();
    let rom = vec![0xAB, 0xCD, 0xEF];
    assert!(m.load_rom(&rom).is_ok());
    assert!(m.rom_loaded());
    assert_eq!(m.read(START_ADDR), 0xAB);
    assert_eq!(m.read(START_ADDR + 1), 0xCD);
    assert_eq!(m.read(START_ADDR + 2), 0xEF);
    assert_eq!(m.read(START_ADDR + 3), 0x00);
}

#[test]
fn mem_load_rom_exact_maximum_succeeds() {
    let mut m = Memory::new();
    let rom = vec![0x77u8; MAX_ROM_SIZE];
    assert!(m.load_rom(&rom).is_ok());
    assert!(m.rom_loaded());
    assert_eq!(m.read(RAM_SIZE as u16 - 1), 0x77);
}

#[test]
fn mem_load_rom_one_byte_over_fails() {
    let mut m = Memory::new();
    let rom = vec![0x77u8; MAX_ROM_SIZE + 1];
    assert_eq!(m.load_rom(&rom), Err(Error::InvalidRomSizeError));
    assert!(!m.rom_loaded());
    // Nothing was copied.
    assert_eq!(m.read(START_ADDR), 0x00);
}

#[test]
fn mem_read_write_roundtrip() {
    let mut m = Memory::new();
    m.write(0x123, 0x42);
    assert_eq!(m.read(0x123), 0x42);
    m.write(0x123, 0x43);
    assert_eq!(m.read(0x123), 0x43);
}

#[test]
fn mem_read_slice_returns_range() {
    let mut m = Memory::new();
    m.write(0x300, 1);
    m.write(0x301, 2);
    m.write(0x302, 3);
    assert_eq!(m.read_slice(0x300, 3), vec![1, 2, 3]);
    assert_eq!(m.read_slice(0x300, 0), Vec::<u8>::new());
}

#[test]
fn mem_write_slice_in_bounds() {
    let mut m = Memory::new();
    assert!(m.write_slice(&vec![9, 8, 7], 0x400).is_ok());
    assert_eq!(m.read_slice(0x400, 3), vec![9, 8, 7]);
}

#[test]
fn mem_write_slice_off_the_end_fails() {
    let mut m = Memory::new();
    let r = m.write_slice(&vec![1, 2, 3], RAM_SIZE as u16 - 2);
    assert_eq!(r, Err(Error::InvalidRamAddressError));
    // Nothing was copied.
    assert_eq!(m.read(RAM_SIZE as u16 - 2), 0);
    assert!(m.write_slice(&vec![1, 2], RAM_SIZE as u16 - 2).is_ok());
    assert_eq!(m.read(RAM_SIZE as u16 - 1), 2);
}

#[test]
fn mem_reset_zeroes_and_reloads_font() {
    let mut m = Memory::new();
    m.load_rom(&vec![0xAA, 0xBB]).unwrap();
    m.write(FONTSET_ADDR, 0x00);
    m.reset();
    assert!(!m.rom_loaded());
    assert_eq!(m.read(START_ADDR), 0);
    assert_eq!(m.read(FONTSET_ADDR), 0xF0);
}
