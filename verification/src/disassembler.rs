use vstd::prelude::*;

use crate::hexfmt::{
    hex_addr3, hex_addr3_string, hex_arg, hex_arg_string, hex_char, hex_digit_str, pad_mnemonic,
    padded6,
};
use crate::instruction::{
    decode, decode_spec, lemma_decoded_field_bounds, Instruction, LogicOp,
};

verus! {

use vstd::string::StringExecFns;

/// Everything that can go wrong while disassembling a ROM. The file-handling
/// variants are raised by drivers around this crate; the decoder itself only
/// ever reports an unknown opcode.
#[derive(Debug, PartialEq, Eq)]
pub enum Error {
    /// An opcode of no recognized shape, as a 32-bit value.
    UnknownOpcodeError(u32),
    /// The ROM file could not be read.
    FileReadError(String),
    /// The assembly output could not be written.
    FileWriteError(String),
}

/// A line holding only an address and a mnemonic:
/// `AAA: MMMMMM` with the mnemonic space-padded to six characters.
pub open spec fn line_no_arg(address: int, mnemonic: Seq<char>) -> Seq<char> {
    hex_addr3(address) + seq![':', ' '] + padded6(mnemonic)
}

/// A line with one immediate operand: `AAA: MMMMMM 0xNNN`.
pub open spec fn line_one_arg(address: int, mnemonic: Seq<char>, arg: int) -> Seq<char> {
    line_no_arg(address, mnemonic) + seq![' '] + hex_arg(arg)
}

/// A line with one register operand: `AAA: MMMMMM VX`.
pub open spec fn line_one_reg(address: int, mnemonic: Seq<char>, reg: int) -> Seq<char> {
    line_no_arg(address, mnemonic) + seq![' ', 'V', hex_char(reg)]
}

/// A line with a register and an immediate: `AAA: MMMMMM VX, 0xNN`.
pub open spec fn line_reg_arg(address: int, mnemonic: Seq<char>, reg: int, arg: int) -> Seq<
    char,
> {
    line_no_arg(address, mnemonic) + seq![' ', 'V', hex_char(reg), ',', ' '] + hex_arg(arg)
}

/// A line with two registers: `AAA: MMMMMM VX, VY`.
pub open spec fn line_reg_reg(address: int, mnemonic: Seq<char>, reg1: int, reg2: int) -> Seq<
    char,
> {
    line_no_arg(address, mnemonic) + seq![' ', 'V', hex_char(reg1), ',', ' ', 'V', hex_char(reg2)]
}

/// A line with two registers and an immediate: `AAA: MMMMMM VX, VY, 0xN`.
pub open spec fn line_reg_reg_arg(
    address: int,
    mnemonic: Seq<char>,
    reg1: int,
    reg2: int,
    arg: int,
) -> Seq<char> {
    line_reg_reg(address, mnemonic, reg1, reg2) + seq![',', ' '] + hex_arg(arg)
}

/// Format an address and a bare mnemonic.
pub fn format_no_arg(address: u32, mnemonic: &str) -> (r: String)
    ensures
        r@ == line_no_arg(address as int, mnemonic@),
{
    let mut r = hex_addr3_string(address);
    r.append(": ");
    r.append(pad_mnemonic(mnemonic).as_str());
    proof {
        reveal_strlit(": ");
        assert(r@ =~= line_no_arg(address as int, mnemonic@));
    }
    r
}

/// Format a mnemonic with one immediate operand.
pub fn format_one_arg(address: u32, mnemonic: &str, arg: u32) -> (r: String)
    ensures
        r@ == line_one_arg(address as int, mnemonic@, arg as int),
{
    let mut r = format_no_arg(address, mnemonic);
    r.append(" ");
    r.append(hex_arg_string(arg).as_str());
    proof {
        reveal_strlit(" ");
        assert(r@ =~= line_one_arg(address as int, mnemonic@, arg as int));
    }
    r
}

/// Format a mnemonic with one register operand.
pub fn format_one_reg(address: u32, mnemonic: &str, reg: u8) -> (r: String)
    requires
        reg < 16,
    ensures
        r@ == line_one_reg(address as int, mnemonic@, reg as int),
{
    let mut r = format_no_arg(address, mnemonic);
    r.append(" V");
    r.append(hex_digit_str(reg));
    proof {
        reveal_strlit(" V");
        assert(r@ =~= line_one_reg(address as int, mnemonic@, reg as int));
    }
    r
}

/// Format a mnemonic with a register and an immediate operand.
pub fn format_reg_arg(address: u32, mnemonic: &str, reg: u8, arg: u32) -> (r: String)
    requires
        reg < 16,
    ensures
        r@ == line_reg_arg(address as int, mnemonic@, reg as int, arg as int),
{
    let mut r = format_no_arg(address, mnemonic);
    r.append(" V");
    r.append(hex_digit_str(reg));
    r.append(", ");
    r.append(hex_arg_string(arg).as_str());
    proof {
        reveal_strlit(" V");
        reveal_strlit(", ");
        assert(r@ =~= line_reg_arg(address as int, mnemonic@, reg as int, arg as int));
    }
    r
}

/// Format a mnemonic with two register operands.
pub fn format_reg_reg(address: u32, mnemonic: &str, reg1: u8, reg2: u8) -> (r: String)
    requires
        reg1 < 16,
        reg2 < 16,
    ensures
        r@ == line_reg_reg(address as int, mnemonic@, reg1 as int, reg2 as int),
{
    let mut r = format_no_arg(address, mnemonic);
    r.append(" V");
    r.append(hex_digit_str(reg1));
    r.append(", V");
    r.append(hex_digit_str(reg2));
    proof {
        reveal_strlit(" V");
        reveal_strlit(", V");
        assert(r@ =~= line_reg_reg(address as int, mnemonic@, reg1 as int, reg2 as int));
    }
    r
}

/// Format a mnemonic with two registers and an immediate operand.
pub fn format_reg_reg_arg(address: u32, mnemonic: &str, reg1: u8, reg2: u8, arg: u32) -> (r:
    String)
    requires
        reg1 < 16,
        reg2 < 16,
    ensures
        r@ == line_reg_reg_arg(address as int, mnemonic@, reg1 as int, reg2 as int, arg as int),
{
    let mut r = format_reg_reg(address, mnemonic, reg1, reg2);
    r.append(", ");
    r.append(hex_arg_string(arg).as_str());
    proof {
        reveal_strlit(", ");
        assert(r@ =~= line_reg_reg_arg(
            address as int,
            mnemonic@,
            reg1 as int,
            reg2 as int,
            arg as int,
        ));
    }
    r
}

/// Get the `i`-th hexadecimal digit of `hex`, counting from the least
/// significant.
pub fn get_hex_digit(hex: u32, i: u32) -> (r: u32)
    requires
        i < 8,
    ensures
        r == (hex >> (i * 4) as u32) & 0xF,
        r < 16,
{
    let r = (hex >> i * 4) & 0xF;
    proof {
        let j = (i * 4) as u32;
        assert((hex >> j) & 0xF < 16) by (bit_vector);
    }
    r
}

/// The mnemonic line for the instruction `opcode` decodes to, at `address`;
/// an undecodable opcode has no line.
pub open spec fn instr_line(address: int, opcode: u16) -> Seq<char> {
    match decode_spec(opcode) {
        Some(instr) => match instr {
            Instruction::ClearScreen => line_no_arg(address, "CLS"@),
            Instruction::ReturnSubroutine => line_no_arg(address, "RTS"@),
            Instruction::SysCall(nnn) => line_one_arg(address, "SYS"@, nnn as int),
            Instruction::Jump(nnn) => line_one_arg(address, "JUMP"@, nnn as int),
            Instruction::CallSubroutine(nnn) => line_one_arg(address, "CALL"@, nnn as int),
            Instruction::SkipEqual(x, nn) => line_reg_arg(address, "SKE"@, x as int, nn as int),
            Instruction::SkipNotEqual(x, nn) => line_reg_arg(
                address,
                "SKNE"@,
                x as int,
                nn as int,
            ),
            Instruction::SkipRegisterEqual(x, y) => line_reg_arg(
                address,
                "SKRE"@,
                x as int,
                y as int,
            ),
            Instruction::LoadNumber(x, nn) => line_reg_arg(address, "LOAD"@, x as int, nn as int),
            Instruction::AddNumber(x, nn) => line_reg_arg(address, "ADD"@, x as int, nn as int),
            Instruction::LoadRegisterOp(x, y, op) => match op {
                LogicOp::Assign => line_reg_reg(address, "MOVE"@, x as int, y as int),
                LogicOp::Or => line_reg_reg(address, "OR"@, x as int, y as int),
                LogicOp::And => line_reg_reg(address, "AND"@, x as int, y as int),
                LogicOp::Xor => line_reg_reg(address, "XOR"@, x as int, y as int),
            },
            Instruction::AddRegisterCarry(x, y) => line_reg_reg(
                address,
                "ADDR"@,
                x as int,
                y as int,
            ),
            Instruction::SubRegister(x, y) => line_reg_reg(address, "SUB"@, x as int, y as int),
            Instruction::ShiftRight(x, y) => line_reg_reg(address, "SHR"@, x as int, y as int),
            Instruction::SubRegisterReversed(x, y) => line_reg_reg(
                address,
                "SUBR"@,
                x as int,
                y as int,
            ),
            Instruction::ShiftLeft(x, y) => line_reg_reg(address, "SHL"@, x as int, y as int),
            Instruction::SkipRegisterNotEqual(x, y) => line_reg_reg(
                address,
                "SKRNE"@,
                x as int,
                y as int,
            ),
            Instruction::LoadI(nnn) => line_one_arg(address, "LOADI"@, nnn as int),
            Instruction::JumpPlus(nnn) => line_one_arg(nnn as int, "JUMPI"@, address),
            Instruction::RandomAnd(x, nn) => line_reg_arg(address, "RAND"@, x as int, nn as int),
            Instruction::DrawSprite(x, y, n) => line_reg_reg_arg(
                address,
                "DRAW"@,
                x as int,
                y as int,
                n as int,
            ),
            Instruction::SkipIfKeypress(x) => line_one_reg(address, "SKEYD"@, x as int),
            Instruction::SkipIfNotKeypress(x) => line_one_reg(address, "SKEYU"@, x as int),
            Instruction::LoadDelayTimer(x) => line_one_reg(address, "MOVEDT"@, x as int),
            Instruction::WaitForKeypress(x) => line_one_reg(address, "KEYW"@, x as int),
            Instruction::SetDelayTimer(x) => line_one_reg(address, "LOADD"@, x as int),
            Instruction::SetSoundTimer(x) => line_one_reg(address, "LOADS"@, x as int),
            Instruction::LoadAddI(x) => line_one_reg(address, "ADDI"@, x as int),
            Instruction::FindCharacter(x) => line_one_reg(address, "LDCHR"@, x as int),
            Instruction::StoreBcd(x) => line_one_reg(address, "BCDI"@, x as int),
            Instruction::DumpRegistersToRam(x) => line_one_reg(address, "STORE"@, x as int),
            Instruction::LoadRegistersFromRam(x) => line_one_reg(address, "READ"@, x as int),
        },
        None => Seq::empty(),
    }
}

/// The 16-bit opcode of the `i`-th two-byte chunk of `rom`, first byte high.
pub open spec fn chunk_opcode(rom: Seq<u8>, i: int) -> u16 {
    (rom[2 * i] * 256 + rom[2 * i + 1]) as u16
}

/// Whether every two-byte chunk of `rom` decodes to an instruction (a
/// trailing odd byte is ignored).
pub open spec fn all_decodable(rom: Seq<u8>) -> bool {
    forall|i: int| 0 <= i < rom.len() / 2 ==> decode_spec(#[trigger] chunk_opcode(rom, i)) is Some
}

/// The index of the first chunk of `rom` that does not decode.
pub open spec fn first_unknown(rom: Seq<u8>) -> int {
    choose|i: int|
        0 <= i < rom.len() / 2 && decode_spec(chunk_opcode(rom, i)) is None && (forall|j: int|
            0 <= j < i ==> decode_spec(#[trigger] chunk_opcode(rom, j)) is Some)
}

/// Format one mnemonic line for the instruction at chunk `i` of the ROM.
fn format_instruction(address: u32, opcode: u16, instr: Instruction) -> (r: String)
    requires
        decode_spec(opcode) == Some(instr),
    ensures
        r@ == instr_line(address as int, opcode),
{
    proof {
        lemma_decoded_field_bounds(opcode);
    }
    match instr {
        Instruction::ClearScreen => format_no_arg(address, "CLS"),
        Instruction::ReturnSubroutine => format_no_arg(address, "RTS"),
        Instruction::SysCall(nnn) => format_one_arg(address, "SYS", nnn as u32),
        Instruction::Jump(nnn) => format_one_arg(address, "JUMP", nnn as u32),
        Instruction::CallSubroutine(nnn) => format_one_arg(address, "CALL", nnn as u32),
        Instruction::SkipEqual(x, nn) => format_reg_arg(address, "SKE", x, nn as u32),
        Instruction::SkipNotEqual(x, nn) => format_reg_arg(address, "SKNE", x, nn as u32),
        Instruction::SkipRegisterEqual(x, y) => format_reg_arg(address, "SKRE", x, y as u32),
        Instruction::LoadNumber(x, nn) => format_reg_arg(address, "LOAD", x, nn as u32),
        Instruction::AddNumber(x, nn) => format_reg_arg(address, "ADD", x, nn as u32),
        Instruction::LoadRegisterOp(x, y, op) => match op {
            LogicOp::Assign => format_reg_reg(address, "MOVE", x, y),
            LogicOp::Or => format_reg_reg(address, "OR", x, y),
            LogicOp::And => format_reg_reg(address, "AND", x, y),
            LogicOp::Xor => format_reg_reg(address, "XOR", x, y),
        },
        Instruction::AddRegisterCarry(x, y) => format_reg_reg(address, "ADDR", x, y),
        Instruction::SubRegister(x, y) => format_reg_reg(address, "SUB", x, y),
        Instruction::ShiftRight(x, y) => format_reg_reg(address, "SHR", x, y),
        Instruction::SubRegisterReversed(x, y) => format_reg_reg(address, "SUBR", x, y),
        Instruction::ShiftLeft(x, y) => format_reg_reg(address, "SHL", x, y),
        Instruction::SkipRegisterNotEqual(x, y) => format_reg_reg(address, "SKRNE", x, y),
        Instruction::LoadI(nnn) => format_one_arg(address, "LOADI", nnn as u32),
        Instruction::JumpPlus(nnn) => format_one_arg(nnn as u32, "JUMPI", address),
        Instruction::RandomAnd(x, nn) => format_reg_arg(address, "RAND", x, nn as u32),
        Instruction::DrawSprite(x, y, n) => format_reg_reg_arg(address, "DRAW", x, y, n as u32),
        Instruction::SkipIfKeypress(x) => format_one_reg(address, "SKEYD", x),
        Instruction::SkipIfNotKeypress(x) => format_one_reg(address, "SKEYU", x),
        Instruction::LoadDelayTimer(x) => format_one_reg(address, "MOVEDT", x),
        Instruction::WaitForKeypress(x) => format_one_reg(address, "KEYW", x),
        Instruction::SetDelayTimer(x) => format_one_reg(address, "LOADD", x),
        Instruction::SetSoundTimer(x) => format_one_reg(address, "LOADS", x),
        Instruction::LoadAddI(x) => format_one_reg(address, "ADDI", x),
        Instruction::FindCharacter(x) => format_one_reg(address, "LDCHR", x),
        Instruction::StoreBcd(x) => format_one_reg(address, "BCDI", x),
        Instruction::DumpRegistersToRam(x) => format_one_reg(address, "STORE", x),
        Instruction::LoadRegistersFromRam(x) => format_one_reg(address, "READ", x),
    }
}

/// Disassemble a ROM image: one mnemonic line per two-byte opcode, addressed
/// from the ROM origin upward, sharing the engine's decode table. A trailing
/// odd byte is ignored; the first chunk that decodes to no instruction fails
/// the whole pass with `UnknownOpcodeError`.
pub fn disassemble(rom: &Vec<u8>) -> (r: Result<Vec<String>, Error>)
    requires
        rom@.len() / 2 + 0x200 < 0x1_0000_0000,
    ensures
        r is Ok <==> all_decodable(rom@),
        r matches Ok(lines) ==> {
            &&& lines@.len() == rom@.len() / 2
            &&& forall|i: int|
                0 <= i < lines@.len() ==> lines@[i]@ == instr_line(
                    0x200 + i,
                    chunk_opcode(rom@, i),
                )
        },
        !all_decodable(rom@) ==> r == Err::<Vec<String>, Error>(
            Error::UnknownOpcodeError(chunk_opcode(rom@, first_unknown(rom@)) as u32),
        ),
{
    let mut assembly: Vec<String> = Vec::new();
    let n = rom.len() / 2;
    let mut i: usize = 0;
    while i < n
        invariant
            n == rom@.len() / 2,
            rom@.len() <= usize::MAX,
            rom@.len() / 2 + 0x200 < 0x1_0000_0000,
            i <= n,
            assembly@.len() == i,
            forall|j: int|
                0 <= j < i ==> decode_spec(#[trigger] chunk_opcode(rom@, j)) is Some,
            forall|j: int|
                0 <= j < i ==> assembly@[j]@ == instr_line(0x200 + j, chunk_opcode(rom@, j)),
        decreases n - i,
    {
        let high_byte = rom[2 * i] as u16;
        let low_byte = rom[2 * i + 1] as u16;
        let opcode = (high_byte << 8u16) | low_byte;
        proof {
            crate::processor::lemma_opcode_compose(high_byte, low_byte);
            assert(opcode == chunk_opcode(rom@, i as int));
        }
        let address = 0x200 + i as u32;

        match decode(opcode) {
            Some(instr) => {
                let line = format_instruction(address, opcode, instr);
                assembly.push(line);
            },
            None => {
                proof {
                    let w = first_unknown(rom@);
                    assert(0 <= i < rom@.len() / 2 && decode_spec(
                        chunk_opcode(rom@, i as int),
                    ) is None && (forall|j: int|
                        0 <= j < i ==> decode_spec(#[trigger] chunk_opcode(rom@, j)) is Some));
                    assert(0 <= w < rom@.len() / 2 && decode_spec(
                        chunk_opcode(rom@, w),
                    ) is None && (forall|j: int|
                        0 <= j < w ==> decode_spec(#[trigger] chunk_opcode(rom@, j)) is Some));
                    assert(w == i as int);
                }
                return Err(Error::UnknownOpcodeError(opcode as u32));
            },
        }
        i = i + 1;
    }
    Ok(assembly)
}

} // verus!
