use vstd::prelude::*;

verus! {

/// The X register selector of an opcode shaped `_X__`.
pub open spec fn op_reg_x(opcode: u16) -> u16 {
    (opcode & 0x0F00) >> 8
}

/// The Y register selector of an opcode shaped `__Y_`.
pub open spec fn op_reg_y(opcode: u16) -> u16 {
    (opcode & 0x00F0) >> 4
}

/// Bounds of the two register selectors.
pub proof fn lemma_op_reg_bounds(opcode: u16)
    ensures
        op_reg_x(opcode) < 16,
        op_reg_y(opcode) < 16,
{
    assert((opcode & 0x0F00) >> 8 < 16 && (opcode & 0x00F0) >> 4 < 16) by (bit_vector);
}

/// Whether bit `n` of `byte` is set, counting from the most significant bit
/// with zero-based indexing.
pub open spec fn bit_set(byte: u8, n: u8) -> bool {
    (byte >> (7 - n) as u8) & 0x1 != 0
}

/// Get the register numbers X and Y in an opcode shaped `_XY_`.
pub fn decode_middle_registers(opcode: u16) -> (r: (u16, u16))
    ensures
        r.0 == op_reg_x(opcode),
        r.1 == op_reg_y(opcode),
        r.0 < 16,
        r.1 < 16,
{
    proof {
        lemma_op_reg_bounds(opcode);
    }
    let reg_x = (opcode & 0x0F00) >> 8;
    let reg_y = (opcode & 0x00F0) >> 4;
    (reg_x, reg_y)
}

/// Get the nth bit in a byte as a boolean, starting with the most significant
/// bit and zero-based indexing.
pub fn bit_to_bool(byte: u8, n: u8) -> (r: bool)
    requires
        n < 8,
    ensures
        r == bit_set(byte, n),
{
    ((byte >> (7 - n)) & 0x1) != 0
}

} // verus!
