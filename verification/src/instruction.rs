use vstd::prelude::*;

verus! {

/// The register-to-register operations of the `8XY0`-`8XY3` opcodes.
#[derive(Clone, Copy, Debug, PartialEq, Eq, Structural)]
pub enum LogicOp {
    /// `8XY0`: assign VY into VX.
    Assign,
    /// `8XY1`: bitwise OR of VX and VY into VX.
    Or,
    /// `8XY2`: bitwise AND of VX and VY into VX.
    And,
    /// `8XY3`: bitwise XOR of VX and VY into VX.
    Xor,
}

/// What `op` computes from the two selected registers.
pub open spec fn apply_logic_op(op: LogicOp, vx: u8, vy: u8) -> u8 {
    match op {
        LogicOp::Assign => vy,
        LogicOp::Or => vx | vy,
        LogicOp::And => vx & vy,
        LogicOp::Xor => vx ^ vy,
    }
}

/// One decoded instruction shape: the closed enumeration that both the
/// engine and the disassembler dispatch on. X and Y name general registers,
/// NN is an 8-bit immediate, NNN a 12-bit address, N a nibble count.
#[derive(Clone, Copy, Debug, PartialEq, Eq, Structural)]
pub enum Instruction {
    /// `00E0`: clear the display.
    ClearScreen,
    /// `00EE`: return from a subroutine.
    ReturnSubroutine,
    /// `0NNN`: call a machine code routine; recognized but not executable.
    SysCall(u16),
    /// `1NNN`: jump to NNN.
    Jump(u16),
    /// `2NNN`: call the subroutine at NNN.
    CallSubroutine(u16),
    /// `3XNN`: skip the next instruction if VX == NN.
    SkipEqual(u8, u8),
    /// `4XNN`: skip the next instruction if VX != NN.
    SkipNotEqual(u8, u8),
    /// `5XY_`: skip the next instruction if VX == VY.
    SkipRegisterEqual(u8, u8),
    /// `6XNN`: load NN into VX.
    LoadNumber(u8, u8),
    /// `7XNN`: add NN to VX with 8-bit wraparound, no flag effect.
    AddNumber(u8, u8),
    /// `8XY0`-`8XY3`: load a register-to-register operation into VX.
    LoadRegisterOp(u8, u8, LogicOp),
    /// `8XY4`: VX += VY with wraparound, flag set on carry.
    AddRegisterCarry(u8, u8),
    /// `8XY5`: VX -= VY with wraparound, flag set when no borrow.
    SubRegister(u8, u8),
    /// `8XY6`: copy VY into VX, then shift right; flag takes the shifted-out bit.
    ShiftRight(u8, u8),
    /// `8XY7`: VX = VY - VX with wraparound, flag set when no borrow.
    SubRegisterReversed(u8, u8),
    /// `8XYE`: copy VY into VX, then shift left; flag takes the shifted-out bit.
    ShiftLeft(u8, u8),
    /// `9XY_`: skip the next instruction if VX != VY.
    SkipRegisterNotEqual(u8, u8),
    /// `ANNN`: load NNN into the index register.
    LoadI(u16),
    /// `BNNN`: jump to V0 + NNN.
    JumpPlus(u16),
    /// `CXNN`: store a random byte ANDed with NN into VX.
    RandomAnd(u8, u8),
    /// `DXYN`: draw the N-row sprite at the index register anchored at (VX, VY).
    DrawSprite(u8, u8, u8),
    /// `EX9E`: skip the next instruction if key VX is down.
    SkipIfKeypress(u8),
    /// `EXA1`: skip the next instruction if key VX is up.
    SkipIfNotKeypress(u8),
    /// `FX07`: load the delay timer into VX.
    LoadDelayTimer(u8),
    /// `FX0A`: wait for a key press by re-running this opcode until one is down.
    WaitForKeypress(u8),
    /// `FX15`: set the delay timer from VX.
    SetDelayTimer(u8),
    /// `FX18`: set the sound timer from VX.
    SetSoundTimer(u8),
    /// `FX1E`: add VX into the index register.
    LoadAddI(u8),
    /// `FX29`: point the index register at the font glyph for digit VX.
    FindCharacter(u8),
    /// `FX33`: store the decimal digits of VX at the index register.
    StoreBcd(u8),
    /// `FX55`: bulk-store V0..=VX into memory at the index register.
    DumpRegistersToRam(u8),
    /// `FX65`: bulk-load V0..=VX from memory at the index register.
    LoadRegistersFromRam(u8),
}

/// The X register selector of an opcode shaped `_X__`.
pub open spec fn op_x(opcode: u16) -> u8 {
    ((opcode & 0x0F00) >> 8) as u8
}

/// The Y register selector of an opcode shaped `__Y_`.
pub open spec fn op_y(opcode: u16) -> u8 {
    ((opcode & 0x00F0) >> 4) as u8
}

/// The 8-bit immediate of an opcode shaped `__NN`.
pub open spec fn op_nn(opcode: u16) -> u8 {
    (opcode & 0x00FF) as u8
}

/// The 12-bit immediate of an opcode shaped `_NNN`.
pub open spec fn op_nnn(opcode: u16) -> u16 {
    opcode & 0x0FFF
}

/// The low nibble of an opcode shaped `___N`.
pub open spec fn op_low_n(opcode: u16) -> u8 {
    (opcode & 0x000F) as u8
}

/// Bounds of the decoded register selectors and immediates, and
/// exhaustiveness of the top-nibble dispatch.
pub proof fn lemma_decoded_field_bounds(opcode: u16)
    ensures
        op_x(opcode) < 16,
        op_y(opcode) < 16,
        op_nnn(opcode) < 0x1000,
        op_low_n(opcode) < 16,
        (opcode & 0x0F00) >> 8 < 16,
        (opcode & 0x00F0) >> 4 < 16,
        opcode & 0x00FF < 0x100,
        opcode & 0x000F < 16,
        opcode & 0xF000 == 0x0000 || opcode & 0xF000 == 0x1000 || opcode & 0xF000 == 0x2000
            || opcode & 0xF000 == 0x3000 || opcode & 0xF000 == 0x4000 || opcode & 0xF000 == 0x5000
            || opcode & 0xF000 == 0x6000 || opcode & 0xF000 == 0x7000 || opcode & 0xF000 == 0x8000
            || opcode & 0xF000 == 0x9000 || opcode & 0xF000 == 0xA000 || opcode & 0xF000 == 0xB000
            || opcode & 0xF000 == 0xC000 || opcode & 0xF000 == 0xD000 || opcode & 0xF000 == 0xE000
            || opcode & 0xF000 == 0xF000,
        (opcode == 0x00E0 || opcode == 0x00EE) ==> opcode & 0xF000 == 0x0000,
{
    assert((opcode == 0x00E0 || opcode == 0x00EE) ==> opcode & 0xF000 == 0x0000) by (bit_vector);
    assert((opcode & 0x0F00) >> 8 < 16 && (opcode & 0x00F0) >> 4 < 16 && opcode & 0x0FFF < 0x1000
        && opcode & 0x00FF < 0x100 && opcode & 0x000F < 16) by (bit_vector);
    assert(opcode & 0xF000 == 0x0000 || opcode & 0xF000 == 0x1000 || opcode & 0xF000 == 0x2000
        || opcode & 0xF000 == 0x3000 || opcode & 0xF000 == 0x4000 || opcode & 0xF000 == 0x5000
        || opcode & 0xF000 == 0x6000 || opcode & 0xF000 == 0x7000 || opcode & 0xF000 == 0x8000
        || opcode & 0xF000 == 0x9000 || opcode & 0xF000 == 0xA000 || opcode & 0xF000 == 0xB000
        || opcode & 0xF000 == 0xC000 || opcode & 0xF000 == 0xD000 || opcode & 0xF000 == 0xE000
        || opcode & 0xF000 == 0xF000) by (bit_vector);
}

/// The instruction shape of `opcode`, or `None` when no opcode family or
/// family member matches. The whole `0___` family decodes to `SysCall` apart
/// from its two known no-argument forms.
pub open spec fn decode_spec(opcode: u16) -> Option<Instruction> {
    let x = op_x(opcode);
    let y = op_y(opcode);
    let nn = op_nn(opcode);
    let nnn = op_nnn(opcode);
    let n = op_low_n(opcode);
    if opcode == 0x00E0 {
        Some(Instruction::ClearScreen)
    } else if opcode == 0x00EE {
        Some(Instruction::ReturnSubroutine)
    } else if opcode & 0xF000 == 0x0000 {
        Some(Instruction::SysCall(nnn))
    } else if opcode & 0xF000 == 0x1000 {
        Some(Instruction::Jump(nnn))
    } else if opcode & 0xF000 == 0x2000 {
        Some(Instruction::CallSubroutine(nnn))
    } else if opcode & 0xF000 == 0x3000 {
        Some(Instruction::SkipEqual(x, nn))
    } else if opcode & 0xF000 == 0x4000 {
        Some(Instruction::SkipNotEqual(x, nn))
    } else if opcode & 0xF000 == 0x5000 {
        Some(Instruction::SkipRegisterEqual(x, y))
    } else if opcode & 0xF000 == 0x6000 {
        Some(Instruction::LoadNumber(x, nn))
    } else if opcode & 0xF000 == 0x7000 {
        Some(Instruction::AddNumber(x, nn))
    } else if opcode & 0xF000 == 0x8000 {
        if n == 0x0 {
            Some(Instruction::LoadRegisterOp(x, y, LogicOp::Assign))
        } else if n == 0x1 {
            Some(Instruction::LoadRegisterOp(x, y, LogicOp::Or))
        } else if n == 0x2 {
            Some(Instruction::LoadRegisterOp(x, y, LogicOp::And))
        } else if n == 0x3 {
            Some(Instruction::LoadRegisterOp(x, y, LogicOp::Xor))
        } else if n == 0x4 {
            Some(Instruction::AddRegisterCarry(x, y))
        } else if n == 0x5 {
            Some(Instruction::SubRegister(x, y))
        } else if n == 0x6 {
            Some(Instruction::ShiftRight(x, y))
        } else if n == 0x7 {
            Some(Instruction::SubRegisterReversed(x, y))
        } else if n == 0xE {
            Some(Instruction::ShiftLeft(x, y))
        } else {
            None
        }
    } else if opcode & 0xF000 == 0x9000 {
        Some(Instruction::SkipRegisterNotEqual(x, y))
    } else if opcode & 0xF000 == 0xA000 {
        Some(Instruction::LoadI(nnn))
    } else if opcode & 0xF000 == 0xB000 {
        Some(Instruction::JumpPlus(nnn))
    } else if opcode & 0xF000 == 0xC000 {
        Some(Instruction::RandomAnd(x, nn))
    } else if opcode & 0xF000 == 0xD000 {
        Some(Instruction::DrawSprite(x, y, n))
    } else if opcode & 0xF000 == 0xE000 {
        if nn == 0x9E {
            Some(Instruction::SkipIfKeypress(x))
        } else if nn == 0xA1 {
            Some(Instruction::SkipIfNotKeypress(x))
        } else {
            None
        }
    } else if opcode & 0xF000 == 0xF000 {
        if nn == 0x07 {
            Some(Instruction::LoadDelayTimer(x))
        } else if nn == 0x0A {
            Some(Instruction::WaitForKeypress(x))
        } else if nn == 0x15 {
            Some(Instruction::SetDelayTimer(x))
        } else if nn == 0x18 {
            Some(Instruction::SetSoundTimer(x))
        } else if nn == 0x1E {
            Some(Instruction::LoadAddI(x))
        } else if nn == 0x29 {
            Some(Instruction::FindCharacter(x))
        } else if nn == 0x33 {
            Some(Instruction::StoreBcd(x))
        } else if nn == 0x55 {
            Some(Instruction::DumpRegistersToRam(x))
        } else if nn == 0x65 {
            Some(Instruction::LoadRegistersFromRam(x))
        } else {
            None
        }
    } else {
        None
    }
}

/// Decode `opcode` into its instruction shape; `None` when it belongs to no
/// recognized family or to no recognized member of its family.
pub fn decode(opcode: u16) -> (r: Option<Instruction>)
    ensures
        r == decode_spec(opcode),
{
    proof {
        lemma_decoded_field_bounds(opcode);
    }
    let x = ((opcode & 0x0F00) >> 8) as u8;
    let y = ((opcode & 0x00F0) >> 4) as u8;
    let nn = (opcode & 0x00FF) as u8;
    let nnn = opcode & 0x0FFF;
    let n = (opcode & 0x000F) as u8;

    match opcode & 0xF000 {
        0x0000 => match opcode {
            0x00E0 => Some(Instruction::ClearScreen),
            0x00EE => Some(Instruction::ReturnSubroutine),
            _ => Some(Instruction::SysCall(nnn)),
        },
        0x1000 => Some(Instruction::Jump(nnn)),
        0x2000 => Some(Instruction::CallSubroutine(nnn)),
        0x3000 => Some(Instruction::SkipEqual(x, nn)),
        0x4000 => Some(Instruction::SkipNotEqual(x, nn)),
        0x5000 => Some(Instruction::SkipRegisterEqual(x, y)),
        0x6000 => Some(Instruction::LoadNumber(x, nn)),
        0x7000 => Some(Instruction::AddNumber(x, nn)),
        0x8000 => match opcode & 0x000F {
            0x0 => Some(Instruction::LoadRegisterOp(x, y, LogicOp::Assign)),
            0x1 => Some(Instruction::LoadRegisterOp(x, y, LogicOp::Or)),
            0x2 => Some(Instruction::LoadRegisterOp(x, y, LogicOp::And)),
            0x3 => Some(Instruction::LoadRegisterOp(x, y, LogicOp::Xor)),
            0x4 => Some(Instruction::AddRegisterCarry(x, y)),
            0x5 => Some(Instruction::SubRegister(x, y)),
            0x6 => Some(Instruction::ShiftRight(x, y)),
            0x7 => Some(Instruction::SubRegisterReversed(x, y)),
            0xE => Some(Instruction::ShiftLeft(x, y)),
            _ => None,
        },
        0x9000 => Some(Instruction::SkipRegisterNotEqual(x, y)),
        0xA000 => Some(Instruction::LoadI(nnn)),
        0xB000 => Some(Instruction::JumpPlus(nnn)),
        0xC000 => Some(Instruction::RandomAnd(x, nn)),
        0xD000 => Some(Instruction::DrawSprite(x, y, n)),
        0xE000 => match opcode & 0x00FF {
            0x9E => Some(Instruction::SkipIfKeypress(x)),
            0xA1 => Some(Instruction::SkipIfNotKeypress(x)),
            _ => None,
        },
        0xF000 => match opcode & 0x00FF {
            0x07 => Some(Instruction::LoadDelayTimer(x)),
            0x0A => Some(Instruction::WaitForKeypress(x)),
            0x15 => Some(Instruction::SetDelayTimer(x)),
            0x18 => Some(Instruction::SetSoundTimer(x)),
            0x1E => Some(Instruction::LoadAddI(x)),
            0x29 => Some(Instruction::FindCharacter(x)),
            0x33 => Some(Instruction::StoreBcd(x)),
            0x55 => Some(Instruction::DumpRegistersToRam(x)),
            0x65 => Some(Instruction::LoadRegistersFromRam(x)),
            _ => None,
        },
        _ => None,
    }
}

} // verus!
