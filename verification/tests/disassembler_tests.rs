use chip8::disassembler::{
    disassemble, format_no_arg, format_one_arg, format_one_reg, format_reg_arg, format_reg_reg,
    format_reg_reg_arg, get_hex_digit, Error,
};

#[test]
fn disasm_format_helpers_render_exact_text() {
    assert_eq!(format_no_arg(0x200, "CLS"), "200: CLS   ");
    assert_eq!(format_one_arg(0x201, "JUMP", 0x234), "201: JUMP   0x234");
    assert_eq!(format_one_reg(0x202, "MOVEDT", 0x3), "202: MOVEDT V3");
    assert_eq!(format_reg_arg(0x203, "SKE", 0xA, 0x12), "203: SKE    VA, 0x12");
    assert_eq!(format_reg_reg(0x204, "MOVE", 0x1, 0x2), "204: MOVE   V1, V2");
    assert_eq!(format_reg_reg_arg(0x205, "DRAW", 0x1, 0x2, 0x5), "205: DRAW   V1, V2, 0x5");
    // Zero-valued immediates still carry the 0x prefix.
    assert_eq!(format_one_arg(0x000, "SYS", 0), "000: SYS    0x0");
}

#[test]
fn disasm_get_hex_digit() {
    assert_eq!(get_hex_digit(0x8AB4, 0), 0x4);
    assert_eq!(get_hex_digit(0x8AB4, 1), 0xB);
    assert_eq!(get_hex_digit(0x8AB4, 2), 0xA);
    assert_eq!(get_hex_digit(0x8AB4, 3), 0x8);
}

#[test]
fn disasm_whole_rom() {
    let rom = vec![
        0x00, 0xE0, // CLS
        0x00, 0xEE, // RTS
        0x01, 0x23, // SYS
        0x12, 0x34, // JUMP
        0x23, 0x45, // CALL
        0x3A, 0x12, // SKE
        0x4B, 0x34, // SKNE
        0x51, 0x20, // SKRE
        0x6C, 0x0D, // LOAD
        0x7D, 0xFF, // ADD
        0x81, 0x20, // MOVE
        0x81, 0x21, // OR
        0x81, 0x22, // AND
        0x81, 0x23, // XOR
        0x81, 0x24, // ADDR
        0x81, 0x25, // SUB
        0x81, 0x26, // SHR
        0x81, 0x27, // SUBR
        0x81, 0x2E, // SHL
        0x91, 0x20, // SKRNE
        0xA1, 0x23, // LOADI
        0xB1, 0x23, // JUMPI
        0xC4, 0x7F, // RAND
        0xD1, 0x25, // DRAW
        0xE3, 0x9E, // SKEYD
        0xE3, 0xA1, // SKEYU
        0xF3, 0x07, // MOVEDT
        0xF3, 0x0A, // KEYW
        0xF3, 0x15, // LOADD
        0xF3, 0x18, // LOADS
        0xF3, 0x1E, // ADDI
        0xF3, 0x29, // LDCHR
        0xF3, 0x33, // BCDI
        0xF3, 0x55, // STORE
        0xF3, 0x65, // READ
    ];
    let lines = disassemble(&rom).unwrap();
    let expected = vec![
        "200: CLS   ",
        "201: RTS   ",
        "202: SYS    0x123",
        "203: JUMP   0x234",
        "204: CALL   0x345",
        "205: SKE    VA, 0x12",
        "206: SKNE   VB, 0x34",
        "207: SKRE   V1, 0x2",
        "208: LOAD   VC, 0xD",
        "209: ADD    VD, 0xFF",
        "20A: MOVE   V1, V2",
        "20B: OR     V1, V2",
        "20C: AND    V1, V2",
        "20D: XOR    V1, V2",
        "20E: ADDR   V1, V2",
        "20F: SUB    V1, V2",
        "210: SHR    V1, V2",
        "211: SUBR   V1, V2",
        "212: SHL    V1, V2",
        "213: SKRNE  V1, V2",
        "214: LOADI  0x123",
        "123: JUMPI  0x215",
        "216: RAND   V4, 0x7F",
        "217: DRAW   V1, V2, 0x5",
        "218: SKEYD  V3",
        "219: SKEYU  V3",
        "21A: MOVEDT V3",
        "21B: KEYW   V3",
        "21C: LOADD  V3",
        "21D: LOADS  V3",
        "21E: ADDI   V3",
        "21F: LDCHR  V3",
        "220: BCDI   V3",
        "221: STORE  V3",
        "222: READ   V3",
    ];
    assert_eq!(lines.len(), expected.len());
    for (line, want) in lines.iter().zip(expected.iter()) {
        assert_eq!(line, want);
    }
}

#[test]
fn disasm_unknown_opcode_fails_with_its_value() {
    let rom = vec![0x00, 0xE0, 0x80, 0x08];
    assert_eq!(disassemble(&rom), Err(Error::UnknownOpcodeError(0x8008)));
    let rom = vec![0xE1, 0x00];
    assert_eq!(disassemble(&rom), Err(Error::UnknownOpcodeError(0xE100)));
    let rom = vec![0xF1, 0x00];
    assert_eq!(disassemble(&rom), Err(Error::UnknownOpcodeError(0xF100)));
}

#[test]
fn disasm_empty_and_odd_tail() {
    assert_eq!(disassemble(&vec![]).unwrap().len(), 0);
    // A trailing odd byte is ignored.
    let lines = disassemble(&vec![0x00, 0xE0, 0x77]).unwrap();
    assert_eq!(lines.len(), 1);
    assert_eq!(lines[0], "200: CLS   ");
}
