use chip8::display::{Display, SCREEN_HEIGHT, SCREEN_WIDTH};
use chip8::helpers::{bit_to_bool, decode_middle_registers};

fn pixel(d: &Display, x: usize, y: usize) -> bool {
    d.pixels[y * SCREEN_WIDTH + x]
}

#[test]
fn disp_new_is_blank() {
    let d = Display::new();
    assert!(!d.redraw_needed());
    assert!(d.pixels.iter().all(|p| !p));
    assert_eq!(d.pixels.len(), SCREEN_WIDTH * SCREEN_HEIGHT);
}

#[test]
fn disp_draw_sets_pixels_and_redraw_flag() {
    let mut d = Display::new();
    // 0xA5 = 10100101: bits 0, 2, 5, 7 (most significant first).
    let carry = d.draw(&vec![0xA5], 8, 3);
    assert_eq!(carry, 0);
    assert!(d.redraw_needed());
    let lit: Vec<usize> = (0..8).filter(|j| pixel(&d, 8 + j, 3)).collect();
    assert_eq!(lit, vec![0, 2, 5, 7]);
}

#[test]
fn disp_right_edge_clips_without_wraparound() {
    // An 8x1 all-set sprite anchored at (60, 0) on a 64-wide screen lights
    // columns 60-63 only: 4 of its 8 bits clip off the right edge.
    let mut d = Display::new();
    let carry = d.draw(&vec![0xFF], 60, 0);
    assert_eq!(carry, 0);
    for x in 60..64 {
        assert!(pixel(&d, x, 0));
    }
    for x in 0..60 {
        assert!(!pixel(&d, x, 0), "column {} must stay dark", x);
    }
    for x in 0..64 {
        assert!(!pixel(&d, x, 1));
    }
}

#[test]
fn disp_bottom_edge_clips_rows() {
    let mut d = Display::new();
    let carry = d.draw(&vec![0x80, 0x80, 0x80], 0, 30);
    assert_eq!(carry, 0);
    assert!(pixel(&d, 0, 30));
    assert!(pixel(&d, 0, 31));
    // The third row fell off the bottom; nothing wrapped to row 0.
    assert!(!pixel(&d, 0, 0));
}

#[test]
fn disp_draw_twice_clears_and_collides() {
    let mut d = Display::new();
    let sprite = vec![0x3C, 0x42];
    assert_eq!(d.draw(&sprite, 10, 5), 0);
    assert!(d.pixels.iter().any(|p| *p));
    // Second identical draw erases every pixel the first lit and reports a
    // collision.
    assert_eq!(d.draw(&sprite, 10, 5), 1);
    assert!(d.pixels.iter().all(|p| !p));
}

#[test]
fn disp_collision_is_cumulative() {
    let mut d = Display::new();
    d.draw(&vec![0x80], 0, 0);
    // Second sprite overlaps at column 0 (erases), then lights column 1:
    // the flag stays set once a pixel was erased.
    let carry = d.draw(&vec![0xC0], 0, 0);
    assert_eq!(carry, 1);
    assert!(!pixel(&d, 0, 0));
    assert!(pixel(&d, 1, 0));
}

#[test]
fn disp_clear_zeroes_pixels_and_keeps_flag() {
    let mut d = Display::new();
    d.draw(&vec![0xFF], 0, 0);
    assert!(d.redraw_needed());
    d.clear();
    assert!(d.pixels.iter().all(|p| !p));
    // Clearing is not itself a draw: the flag is left as it was.
    assert!(d.redraw_needed());
}

#[test]
fn helper_bit_to_bool_msb_first() {
    assert!(bit_to_bool(0x80, 0));
    assert!(!bit_to_bool(0x80, 7));
    assert!(bit_to_bool(0x01, 7));
    assert!(!bit_to_bool(0x01, 0));
    assert!(bit_to_bool(0b0010_0000, 2));
}

#[test]
fn helper_decode_middle_registers() {
    assert_eq!(decode_middle_registers(0x8AB4), (0xA, 0xB));
    assert_eq!(decode_middle_registers(0x0000), (0, 0));
    assert_eq!(decode_middle_registers(0xFFFF), (0xF, 0xF));
}
