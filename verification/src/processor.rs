use vstd::prelude::*;

use crate::display::{
    draw_collision, grid_after_draw, Display, SCREEN_HEIGHT, SCREEN_WIDTH,
};
use crate::errors::Error;
use crate::instruction::{decode_spec, Instruction};
use crate::key_input::{KeyInput, NUM_KEYS};
use crate::memory::{
    initial_ram, ram_with_range, ram_with_rom, Memory, FONTSET_ADDR, MAX_ROM_SIZE, RAM_SIZE,
    START_ADDR,
};
use crate::stack::{Stack, STACK_SIZE};

verus! {

/// Number of general-purpose registers.
pub const NUM_REGS: usize = 16;

/// The general register overloaded as the carry/borrow/collision flag.
pub const CARRY_REGISTER: usize = NUM_REGS - 1;

/// The processor state as mathematics: every register, the memory image and
/// the live stack frames as plain sequences.
#[verifier::ext_equal]
pub ghost struct ProcView {
    /// Program counter.
    pub pc: u16,
    /// The 4096 memory bytes.
    pub ram: Seq<u8>,
    /// Whether a ROM has been loaded.
    pub rom_loaded: bool,
    /// The 16 general registers V0-VF.
    pub regs: Seq<u8>,
    /// Index register.
    pub i_reg: u16,
    /// Live return-address stack frames, oldest first.
    pub stack: Seq<u16>,
    /// Sound timer.
    pub st: u8,
    /// Delay timer.
    pub dt: u8,
}

impl ProcView {
    /// The value of general register `x`.
    pub open spec fn reg(self, x: u8) -> u8 {
        self.regs[x as int]
    }

    /// This state with another program counter.
    pub open spec fn with_pc(self, pc: u16) -> ProcView {
        ProcView { pc, ..self }
    }

    /// This state with other register contents.
    pub open spec fn with_regs(self, regs: Seq<u8>) -> ProcView {
        ProcView { regs, ..self }
    }

    /// This state with register `x` set to `value`.
    pub open spec fn with_reg(self, x: u8, value: u8) -> ProcView {
        self.with_regs(self.regs.update(x as int, value))
    }

    /// This state with another index register.
    pub open spec fn with_i(self, i_reg: u16) -> ProcView {
        ProcView { i_reg, ..self }
    }

    /// This state with other stack frames.
    pub open spec fn with_stack(self, stack: Seq<u16>) -> ProcView {
        ProcView { stack, ..self }
    }

    /// This state with another memory image.
    pub open spec fn with_ram(self, ram: Seq<u8>) -> ProcView {
        ProcView { ram, ..self }
    }

    /// This state with another delay timer.
    pub open spec fn with_dt(self, dt: u8) -> ProcView {
        ProcView { dt, ..self }
    }

    /// This state with another sound timer.
    pub open spec fn with_st(self, st: u8) -> ProcView {
        ProcView { st, ..self }
    }
}

/// 8-bit addition with wraparound.
pub open spec fn wrap_add(a: u8, b: u8) -> u8 {
    if a + b > 255 {
        (a + b - 256) as u8
    } else {
        (a + b) as u8
    }
}

/// 8-bit subtraction with wraparound.
pub open spec fn wrap_sub(a: u8, b: u8) -> u8 {
    if a - b < 0 {
        (a - b + 256) as u8
    } else {
        (a - b) as u8
    }
}

/// 16-bit addition with wraparound.
pub open spec fn wrap_add_u16(a: u16, b: u16) -> u16 {
    if a + b > 0xFFFF {
        (a + b - 0x10000) as u16
    } else {
        (a + b) as u16
    }
}

/// Whether any of the 16 keys is down.
pub open spec fn any_key_down(keys: Seq<bool>) -> bool {
    exists|i: int| 0 <= i < NUM_KEYS && keys[i]
}

/// The lowest-numbered key that is down.
pub open spec fn lowest_key_down(keys: Seq<bool>) -> int {
    choose|i: int| 0 <= i < NUM_KEYS && keys[i] && (forall|j: int| 0 <= j < i ==> !keys[j])
}

/// The `n`-row sprite in memory at the index register.
pub open spec fn sprite_at_index(p: ProcView, n: u8) -> Seq<u8> {
    p.ram.subrange(p.i_reg as int, p.i_reg + n)
}

/// The processor that executes the decode-execute engine: it owns memory,
/// registers, the call stack and the timers, and manipulates a display
/// surface and a key table passed in per cycle.
pub struct Processor {
    /// Program counter.
    pub pc: u16,
    /// Byte-addressable memory with the loaded ROM.
    pub memory: Memory,
    /// General purpose registers V0-VF.
    pub v_reg: Vec<u8>,
    /// Index register.
    pub i_reg: u16,
    /// Return-address stack for subroutine calls.
    pub stack: Stack,
    /// Sound timer: the beep signal is on while it is nonzero.
    pub st: u8,
    /// Delay timer.
    pub dt: u8,
}

impl View for Processor {
    type V = ProcView;

    open spec fn view(&self) -> ProcView {
        ProcView {
            pc: self.pc,
            ram: self.memory.ram@,
            rom_loaded: self.memory.rom_loaded,
            regs: self.v_reg@,
            i_reg: self.i_reg,
            stack: self.stack@,
            st: self.st,
            dt: self.dt,
        }
    }
}

/// The state a fresh processor holds after loading `rom`.
pub open spec fn initial_proc(rom: Seq<u8>) -> ProcView {
    ProcView {
        pc: START_ADDR,
        ram: ram_with_rom(initial_ram(), rom),
        rom_loaded: true,
        regs: Seq::new(NUM_REGS as nat, |i: int| 0u8),
        i_reg: 0,
        stack: Seq::empty(),
        st: 0,
        dt: 0,
    }
}

/// The state a processor holds after a reset: everything zeroed, the font
/// table reloaded, no ROM.
pub open spec fn reset_proc() -> ProcView {
    ProcView {
        pc: START_ADDR,
        ram: initial_ram(),
        rom_loaded: false,
        regs: Seq::new(NUM_REGS as nat, |i: int| 0u8),
        i_reg: 0,
        stack: Seq::empty(),
        st: 0,
        dt: 0,
    }
}

/// Both timers decremented by one, floored at zero.
pub open spec fn ticked(p: ProcView) -> ProcView {
    p.with_dt(if p.dt > 0 {
        (p.dt - 1) as u8
    } else {
        0u8
    }).with_st(
        if p.st > 0 {
            (p.st - 1) as u8
        } else {
            0u8
        },
    )
}

/// Relies on rand::random: a byte from the thread-local generator; nothing
/// is assumed of the result.
#[verifier::external_body]
fn random_byte() -> u8 {
    rand::random()
}

impl Processor {
    /// Structural invariant: full memory, 16 registers, a well-formed stack.
    pub open spec fn wf(self) -> bool {
        self.memory.wf() && self.v_reg.len() == NUM_REGS && self.stack.wf()
    }

    /// A processor with `rom` loaded, the program counter at `START_ADDR`
    /// and everything else zeroed; fails with `InvalidRomSizeError` when the
    /// ROM does not fit.
    pub fn new(rom: &Vec<u8>) -> (r: Result<Processor, Error>)
        ensures
            rom@.len() <= MAX_ROM_SIZE ==> match r {
                Ok(p) => p.wf() && p@ == initial_proc(rom@),
                Err(_) => false,
            },
            rom@.len() > MAX_ROM_SIZE ==> r == Err::<Processor, Error>(Error::InvalidRomSizeError),
    {
        let mut memory = Memory::new();
        match memory.load_rom(rom) {
            Ok(_) => {},
            Err(e) => {
                return Err(e);
            },
        }

        let p = Processor {
            pc: START_ADDR,
            memory,
            v_reg: vec![0u8; NUM_REGS],
            i_reg: 0,
            stack: Stack::new(),
            st: 0,
            dt: 0,
        };
        proof {
            assert(p@.regs =~= initial_proc(rom@).regs);
            assert(p@.stack =~= initial_proc(rom@).stack);
            assert(p@ =~= initial_proc(rom@));
        }
        Ok(p)
    }

    /// Return to the reset state: program counter at `START_ADDR`, memory
    /// zeroed with the font reloaded, registers, stack and timers cleared.
    pub fn reset(&mut self)
        requires
            old(self).wf(),
        ensures
            final(self).wf(),
            final(self)@ == reset_proc(),
    {
        self.pc = START_ADDR;
        self.memory.reset();
        self.v_reg = vec![0u8; NUM_REGS];
        self.i_reg = 0;
        self.stack.reset();
        self.st = 0;
        self.dt = 0;
        proof {
            assert(self@.regs =~= reset_proc().regs);
            assert(self@.stack =~= reset_proc().stack);
            assert(self@ =~= reset_proc());
        }
    }

    /// Decrement both timers by one, floored at zero; invoked once per
    /// rendered frame, independent of how many cycles ran in it.
    pub fn tick_timers(&mut self)
        requires
            old(self).wf(),
        ensures
            final(self).wf(),
            final(self)@ == ticked(old(self)@),
    {
        if self.dt > 0 {
            self.dt = self.dt - 1;
        }
        if self.st > 0 {
            self.st = self.st - 1;
        }
        proof {
            assert(self@ =~= ticked(old(self)@));
        }
    }

    /// Whether the beep should sound: true while the sound timer is nonzero.
    pub fn check_beep(&self) -> (r: bool)
        ensures
            r == (self@.st > 0),
    {
        self.st > 0
    }

    /// Set the carry/borrow/collision flag register VF.
    fn set_carry(&mut self, value: u8)
        requires
            old(self).wf(),
        ensures
            final(self).wf(),
            final(self)@ == old(self)@.with_reg(CARRY_REGISTER as u8, value),
    {
        self.v_reg.set(CARRY_REGISTER, value);
        proof {
            assert(self@ =~= old(self)@.with_reg(CARRY_REGISTER as u8, value));
        }
    }

    /// Set general register `register` to `value`.
    fn set_reg(&mut self, register: u8, value: u8)
        requires
            old(self).wf(),
            register < NUM_REGS,
        ensures
            final(self).wf(),
            final(self)@ == old(self)@.with_reg(register, value),
    {
        self.v_reg.set(register as usize, value);
        proof {
            assert(self@ =~= old(self)@.with_reg(register, value));
        }
    }

    /// Read general register `register`.
    fn get_reg(&self, register: u8) -> (r: u8)
        requires
            self.wf(),
            register < NUM_REGS,
        ensures
            r == self@.reg(register),
    {
        self.v_reg[register as usize]
    }

    /// Opcode `00EE`: pop the return address into the program counter;
    /// fails with `StackUnderflowError` when the stack is empty.
    pub fn return_subroutine(&mut self) -> (r: Result<(), Error>)
        requires
            old(self).wf(),
        ensures
            final(self).wf(),
            old(self)@.stack.len() > 0 ==> {
                &&& r is Ok
                &&& final(self)@ == old(self)@.with_pc(old(self)@.stack.last()).with_stack(
                    old(self)@.stack.drop_last(),
                )
            },
            old(self)@.stack.len() == 0 ==> {
                &&& r == Err::<(), Error>(Error::StackUnderflowError)
                &&& *final(self) == *old(self)
            },
    {
        let return_address = match self.stack.pop() {
            Ok(a) => a,
            Err(e) => {
                return Err(e);
            },
        };
        self.pc = return_address;
        proof {
            assert(self@ =~= old(self)@.with_pc(old(self)@.stack.last()).with_stack(
                old(self)@.stack.drop_last(),
            ));
        }
        Ok(())
    }

    /// Opcode `1NNN`: jump to `address`.
    pub fn jump(&mut self, address: u16)
        requires
            old(self).wf(),
        ensures
            final(self).wf(),
            final(self)@ == old(self)@.with_pc(address),
    {
        self.pc = address;
        proof {
            assert(self@ =~= old(self)@.with_pc(address));
        }
    }

    /// Opcode `2NNN`: push the program counter and jump to `address`; fails
    /// with `StackOverflowError`, changing nothing, when the stack is full.
    pub fn call_subroutine(&mut self, address: u16) -> (r: Result<(), Error>)
        requires
            old(self).wf(),
        ensures
            final(self).wf(),
            old(self)@.stack.len() < STACK_SIZE ==> {
                &&& r is Ok
                &&& final(self)@ == old(self)@.with_stack(
                    old(self)@.stack.push(old(self)@.pc),
                ).with_pc(address)
            },
            old(self)@.stack.len() == STACK_SIZE ==> {
                &&& r == Err::<(), Error>(Error::StackOverflowError)
                &&& *final(self) == *old(self)
            },
    {
        match self.stack.push(self.pc) {
            Ok(_) => {},
            Err(e) => {
                return Err(e);
            },
        }
        self.pc = address;
        proof {
            assert(self@ =~= old(self)@.with_stack(old(self)@.stack.push(old(self)@.pc)).with_pc(
                address,
            ));
        }
        Ok(())
    }

    /// Opcode `3XNN`: skip the next instruction when VX equals `number`.
    pub fn skip_equal(&mut self, x: u8, number: u8)
        requires
            old(self).wf(),
            x < NUM_REGS,
            old(self).pc + 2 <= u16::MAX,
        ensures
            final(self).wf(),
            final(self)@ == (if old(self)@.reg(x) == number {
                old(self)@.with_pc((old(self)@.pc + 2) as u16)
            } else {
                old(self)@
            }),
    {
        if number == self.get_reg(x) {
            self.pc = self.pc + 2;
        }
    }

    /// Opcode `4XNN`: skip the next instruction when VX differs from `number`.
    pub fn skip_not_equal(&mut self, x: u8, number: u8)
        requires
            old(self).wf(),
            x < NUM_REGS,
            old(self).pc + 2 <= u16::MAX,
        ensures
            final(self).wf(),
            final(self)@ == (if old(self)@.reg(x) != number {
                old(self)@.with_pc((old(self)@.pc + 2) as u16)
            } else {
                old(self)@
            }),
    {
        if number != self.get_reg(x) {
            self.pc = self.pc + 2;
        }
    }

    /// Opcode `5XY_`: skip the next instruction when VX equals VY.
    pub fn skip_register_equal(&mut self, x: u8, y: u8)
        requires
            old(self).wf(),
            x < NUM_REGS,
            y < NUM_REGS,
            old(self).pc + 2 <= u16::MAX,
        ensures
            final(self).wf(),
            final(self)@ == (if old(self)@.reg(x) == old(self)@.reg(y) {
                old(self)@.with_pc((old(self)@.pc + 2) as u16)
            } else {
                old(self)@
            }),
    {
        if self.get_reg(x) == self.get_reg(y) {
            self.pc = self.pc + 2;
        }
    }

    /// Opcode `9XY_`: skip the next instruction when VX differs from VY.
    pub fn skip_register_not_equal(&mut self, x: u8, y: u8)
        requires
            old(self).wf(),
            x < NUM_REGS,
            y < NUM_REGS,
            old(self).pc + 2 <= u16::MAX,
        ensures
            final(self).wf(),
            final(self)@ == (if old(self)@.reg(x) != old(self)@.reg(y) {
                old(self)@.with_pc((old(self)@.pc + 2) as u16)
            } else {
                old(self)@
            }),
    {
        if self.get_reg(x) != self.get_reg(y) {
            self.pc = self.pc + 2;
        }
    }

    /// Opcode `6XNN`: load `number` into VX.
    pub fn load_number(&mut self, x: u8, number: u8)
        requires
            old(self).wf(),
            x < NUM_REGS,
        ensures
            final(self).wf(),
            final(self)@ == old(self)@.with_reg(x, number),
    {
        self.set_reg(x, number);
    }

    /// Opcode `7XNN`: add `number` to VX with 8-bit wraparound; the flag
    /// register is not touched.
    pub fn add_number(&mut self, x: u8, number: u8)
        requires
            old(self).wf(),
            x < NUM_REGS,
        ensures
            final(self).wf(),
            final(self)@ == old(self)@.with_reg(x, wrap_add(old(self)@.reg(x), number)),
    {
        let result = self.get_reg(x).wrapping_add(number);
        self.set_reg(x, result);
    }

    /// Opcodes `8XY0`-`8XY3`: load `op` of VX and VY into VX.
    pub fn load_register_op(&mut self, x: u8, y: u8, op: crate::instruction::LogicOp)
        requires
            old(self).wf(),
            x < NUM_REGS,
            y < NUM_REGS,
        ensures
            final(self).wf(),
            final(self)@ == old(self)@.with_reg(
                x,
                crate::instruction::apply_logic_op(op, old(self)@.reg(x), old(self)@.reg(y)),
            ),
    {
        let vx = self.get_reg(x);
        let vy = self.get_reg(y);
        let result = match op {
            crate::instruction::LogicOp::Assign => vy,
            crate::instruction::LogicOp::Or => vx | vy,
            crate::instruction::LogicOp::And => vx & vy,
            crate::instruction::LogicOp::Xor => vx ^ vy,
        };
        self.set_reg(x, result);
    }

    /// Opcode `8XY4`: VX += VY with 8-bit wraparound; the flag register is
    /// set to 1 exactly when the addition carried out of 8 bits.
    pub fn add_register_carry(&mut self, x: u8, y: u8)
        requires
            old(self).wf(),
            x < NUM_REGS,
            y < NUM_REGS,
        ensures
            final(self).wf(),
            final(self)@ == old(self)@.with_reg(
                x,
                wrap_add(old(self)@.reg(x), old(self)@.reg(y)),
            ).with_reg(
                CARRY_REGISTER as u8,
                if old(self)@.reg(x) + old(self)@.reg(y) > 255 {
                    1u8
                } else {
                    0u8
                },
            ),
    {
        let vx = self.get_reg(x);
        let vy = self.get_reg(y);
        let result = vx.wrapping_add(vy);
        let carry: u8 = if result < vx {
            1
        } else {
            0
        };
        self.set_reg(x, result);
        self.set_carry(carry);
    }

    /// Opcode `8XY5`: VX -= VY with 8-bit wraparound; the flag register is
    /// set to 1 exactly when no borrow occurred, that is when VX >= VY
    /// before the subtraction.
    pub fn sub_register(&mut self, x: u8, y: u8)
        requires
            old(self).wf(),
            x < NUM_REGS,
            y < NUM_REGS,
        ensures
            final(self).wf(),
            final(self)@ == old(self)@.with_reg(
                x,
                wrap_sub(old(self)@.reg(x), old(self)@.reg(y)),
            ).with_reg(
                CARRY_REGISTER as u8,
                if old(self)@.reg(x) >= old(self)@.reg(y) {
                    1u8
                } else {
                    0u8
                },
            ),
    {
        let vx = self.get_reg(x);
        let vy = self.get_reg(y);
        let not_borrow: u8 = if vx >= vy {
            1
        } else {
            0
        };
        let result = vx.wrapping_sub(vy);
        self.set_reg(x, result);
        self.set_carry(not_borrow);
    }

    /// Opcode `8XY7`: VX = VY - VX with 8-bit wraparound; the flag register
    /// is set to 1 exactly when no borrow occurred, that is when VY >= VX.
    pub fn sub_register_reversed(&mut self, x: u8, y: u8)
        requires
            old(self).wf(),
            x < NUM_REGS,
            y < NUM_REGS,
        ensures
            final(self).wf(),
            final(self)@ == old(self)@.with_reg(
                x,
                wrap_sub(old(self)@.reg(y), old(self)@.reg(x)),
            ).with_reg(
                CARRY_REGISTER as u8,
                if old(self)@.reg(y) >= old(self)@.reg(x) {
                    1u8
                } else {
                    0u8
                },
            ),
    {
        let vx = self.get_reg(x);
        let vy = self.get_reg(y);
        let not_borrow: u8 = if vy >= vx {
            1
        } else {
            0
        };
        let result = vy.wrapping_sub(vx);
        self.set_reg(x, result);
        self.set_carry(not_borrow);
    }

    /// Opcode `8XY6`: copy VY into VX, then shift VX right by one; the flag
    /// register takes the bit shifted out. The copy is the documented
    /// platform quirk this implementation follows.
    pub fn shift_right(&mut self, x: u8, y: u8)
        requires
            old(self).wf(),
            x < NUM_REGS,
            y < NUM_REGS,
        ensures
            final(self).wf(),
            final(self)@ == old(self)@.with_reg(x, old(self)@.reg(y) >> 1u8).with_reg(
                CARRY_REGISTER as u8,
                old(self)@.reg(y) & 0x1,
            ),
    {
        self.set_reg(x, self.get_reg(y));
        let carry = self.get_reg(x) & 0x1;
        self.set_reg(x, self.get_reg(x) >> 1u8);
        self.set_carry(carry);
        proof {
            assert(self@ =~= old(self)@.with_reg(x, old(self)@.reg(y) >> 1u8).with_reg(
                CARRY_REGISTER as u8,
                old(self)@.reg(y) & 0x1,
            ));
        }
    }

    /// Opcode `8XYE`: copy VY into VX, then shift VX left by one; the flag
    /// register takes the bit shifted out. The copy is the documented
    /// platform quirk this implementation follows.
    pub fn shift_left(&mut self, x: u8, y: u8)
        requires
            old(self).wf(),
            x < NUM_REGS,
            y < NUM_REGS,
        ensures
            final(self).wf(),
            final(self)@ == old(self)@.with_reg(x, old(self)@.reg(y) << 1u8).with_reg(
                CARRY_REGISTER as u8,
                (old(self)@.reg(y) & 0x80) >> 7u8,
            ),
    {
        self.set_reg(x, self.get_reg(y));
        let carry = (self.get_reg(x) & 0x80) >> 7u8;
        self.set_reg(x, self.get_reg(x) << 1u8);
        self.set_carry(carry);
        proof {
            assert(self@ =~= old(self)@.with_reg(x, old(self)@.reg(y) << 1u8).with_reg(
                CARRY_REGISTER as u8,
                (old(self)@.reg(y) & 0x80) >> 7u8,
            ));
        }
    }

    /// Opcode `ANNN`: load `address` into the index register.
    pub fn load_i(&mut self, address: u16)
        requires
            old(self).wf(),
        ensures
            final(self).wf(),
            final(self)@ == old(self)@.with_i(address),
    {
        self.i_reg = address;
        proof {
            assert(self@ =~= old(self)@.with_i(address));
        }
    }

    /// Opcode `BNNN`: jump to V0 + `address`.
    pub fn jump_plus(&mut self, address: u16)
        requires
            old(self).wf(),
            address < 0x1000,
        ensures
            final(self).wf(),
            final(self)@ == old(self)@.with_pc((old(self)@.reg(0) + address) as u16),
    {
        self.pc = self.get_reg(0) as u16 + address;
        proof {
            assert(self@ =~= old(self)@.with_pc((old(self)@.reg(0) + address) as u16));
        }
    }

    /// Opcode `CXNN`: store a random byte ANDed with `number` in VX.
    pub fn random_and(&mut self, x: u8, number: u8)
        requires
            old(self).wf(),
            x < NUM_REGS,
        ensures
            final(self).wf(),
            exists|rnd: u8| final(self)@ == old(self)@.with_reg(x, rnd & number),
    {
        let random: u8 = random_byte();
        self.set_reg(x, random & number);
        proof {
            assert(final(self)@ == old(self)@.with_reg(x, random & number));
        }
    }

    /// Opcode `DXYN`: draw the `n`-row sprite at the index register anchored
    /// at (VX mod width, VY mod height), XOR-composed with edge clipping; the
    /// flag register takes 1 exactly when a lit pixel was erased. Fails with
    /// `InvalidRamAddressError`, changing nothing, when the sprite range runs
    /// off the end of memory.
    pub fn draw_sprite(&mut self, x: u8, y: u8, n: u8, display: &mut Display) -> (r: Result<
        (),
        Error,
    >)
        requires
            old(self).wf(),
            old(display).wf(),
            x < NUM_REGS,
            y < NUM_REGS,
        ensures
            final(self).wf(),
            final(display).wf(),
            old(self)@.i_reg + n > RAM_SIZE ==> {
                &&& r == Err::<(), Error>(Error::InvalidRamAddressError)
                &&& *final(self) == *old(self)
                &&& *final(display) == *old(display)
            },
            old(self)@.i_reg + n <= RAM_SIZE ==> {
                let sprite = sprite_at_index(old(self)@, n);
                let ax = (old(self)@.reg(x) % (SCREEN_WIDTH as u8)) as int;
                let ay = (old(self)@.reg(y) % (SCREEN_HEIGHT as u8)) as int;
                &&& r is Ok
                &&& final(display)@ == grid_after_draw(old(display)@, sprite, ax, ay)
                &&& final(display).redraw_flag
                &&& final(self)@ == old(self)@.with_reg(
                    CARRY_REGISTER as u8,
                    if draw_collision(old(display)@, sprite, ax, ay) {
                        1u8
                    } else {
                        0u8
                    },
                )
            },
    {
        if self.i_reg as usize + n as usize > RAM_SIZE {
            return Err(Error::InvalidRamAddressError);
        }

        let x_coord = self.get_reg(x) % SCREEN_WIDTH as u8;
        let y_coord = self.get_reg(y) % SCREEN_HEIGHT as u8;

        let sprite = self.memory.read_slice(self.i_reg, n as u16);
        let carry = display.draw(&sprite, x_coord, y_coord);
        self.set_carry(carry);
        Ok(())
    }

    /// Opcode `EX9E`: skip the next instruction when the key numbered by VX
    /// is down; a VX outside the 16-key table is reported as an invalid form
    /// of the opcode.
    pub fn skip_if_keypress(&mut self, x: u8, input: &KeyInput) -> (r: Result<(), Error>)
        requires
            old(self).wf(),
            input.wf(),
            x < NUM_REGS,
            old(self).pc + 2 <= u16::MAX,
        ensures
            final(self).wf(),
            old(self)@.reg(x) < NUM_KEYS ==> {
                &&& r is Ok
                &&& final(self)@ == (if input@[old(self)@.reg(x) as int] {
                    old(self)@.with_pc((old(self)@.pc + 2) as u16)
                } else {
                    old(self)@
                })
            },
            old(self)@.reg(x) >= NUM_KEYS ==> {
                &&& r matches Err(Error::InvalidOpcodeError(_))
                &&& *final(self) == *old(self)
            },
    {
        let key = self.get_reg(x);
        if key >= NUM_KEYS as u8 {
            return Err(
                Error::InvalidOpcodeError("EX9E - Key value beyond the 16-key table".to_owned()),
            );
        }
        if input.check_key(key) {
            self.pc = self.pc + 2;
        }
        Ok(())
    }

    /// Opcode `EXA1`: skip the next instruction when the key numbered by VX
    /// is up; a VX outside the 16-key table is reported as an invalid form
    /// of the opcode.
    pub fn skip_if_not_keypress(&mut self, x: u8, input: &KeyInput) -> (r: Result<(), Error>)
        requires
            old(self).wf(),
            input.wf(),
            x < NUM_REGS,
            old(self).pc + 2 <= u16::MAX,
        ensures
            final(self).wf(),
            old(self)@.reg(x) < NUM_KEYS ==> {
                &&& r is Ok
                &&& final(self)@ == (if !input@[old(self)@.reg(x) as int] {
                    old(self)@.with_pc((old(self)@.pc + 2) as u16)
                } else {
                    old(self)@
                })
            },
            old(self)@.reg(x) >= NUM_KEYS ==> {
                &&& r matches Err(Error::InvalidOpcodeError(_))
                &&& *final(self) == *old(self)
            },
    {
        let key = self.get_reg(x);
        if key >= NUM_KEYS as u8 {
            return Err(
                Error::InvalidOpcodeError("EXA1 - Key value beyond the 16-key table".to_owned()),
            );
        }
        if !input.check_key(key) {
            self.pc = self.pc + 2;
        }
        Ok(())
    }

    /// Opcode `FX07`: load the delay timer into VX.
    pub fn load_delay_timer(&mut self, x: u8)
        requires
            old(self).wf(),
            x < NUM_REGS,
        ensures
            final(self).wf(),
            final(self)@ == old(self)@.with_reg(x, old(self)@.dt),
    {
        let value = self.dt;
        self.set_reg(x, value);
    }

    /// Opcode `FX0A`: when some key is down, store the lowest one in VX and
    /// reset the key table; otherwise step the program counter back by two
    /// so the same opcode re-runs next cycle. A spin-wait through repeated
    /// re-fetch, never a blocking call.
    pub fn wait_for_keypress(&mut self, x: u8, input: &mut KeyInput)
        requires
            old(self).wf(),
            old(input).wf(),
            x < NUM_REGS,
            old(self).pc >= 2,
        ensures
            final(self).wf(),
            final(input).wf(),
            any_key_down(old(input)@) ==> {
                &&& final(self)@ == old(self)@.with_reg(x, lowest_key_down(old(input)@) as u8)
                &&& forall|i: int| 0 <= i < NUM_KEYS ==> !final(input)@[i]
            },
            !any_key_down(old(input)@) ==> {
                &&& final(self)@ == old(self)@.with_pc((old(self)@.pc - 2) as u16)
                &&& *final(input) == *old(input)
            },
    {
        let key = match input.check_all_keys() {
            Some(key) => key,
            None => {
                self.pc = self.pc - 2;
                proof {
                    assert(self@ =~= old(self)@.with_pc((old(self)@.pc - 2) as u16));
                }
                return ;
            },
        };
        proof {
            let k = lowest_key_down(old(input)@);
            assert(0 <= key < NUM_KEYS && old(input)@[key as int] && (forall|j: int|
                0 <= j < key ==> !old(input)@[j]));
            assert(0 <= k < NUM_KEYS && old(input)@[k] && (forall|j: int|
                0 <= j < k ==> !old(input)@[j]));
            assert(k == key as int);
        }
        self.set_reg(x, key);
    }

    /// Opcode `FX15`: set the delay timer from VX.
    pub fn set_delay_timer(&mut self, x: u8)
        requires
            old(self).wf(),
            x < NUM_REGS,
        ensures
            final(self).wf(),
            final(self)@ == old(self)@.with_dt(old(self)@.reg(x)),
    {
        self.dt = self.get_reg(x);
        proof {
            assert(self@ =~= old(self)@.with_dt(old(self)@.reg(x)));
        }
    }

    /// Opcode `FX18`: set the sound timer from VX.
    pub fn set_sound_timer(&mut self, x: u8)
        requires
            old(self).wf(),
            x < NUM_REGS,
        ensures
            final(self).wf(),
            final(self)@ == old(self)@.with_st(old(self)@.reg(x)),
    {
        self.st = self.get_reg(x);
        proof {
            assert(self@ =~= old(self)@.with_st(old(self)@.reg(x)));
        }
    }

    /// Opcode `FX1E`: add VX into the index register, with 16-bit wraparound.
    pub fn load_add_i(&mut self, x: u8)
        requires
            old(self).wf(),
            x < NUM_REGS,
        ensures
            final(self).wf(),
            final(self)@ == old(self)@.with_i(
                wrap_add_u16(old(self)@.i_reg, old(self)@.reg(x) as u16),
            ),
    {
        self.i_reg = self.i_reg.wrapping_add(self.get_reg(x) as u16);
        proof {
            assert(self@ =~= old(self)@.with_i(
                wrap_add_u16(old(self)@.i_reg, old(self)@.reg(x) as u16),
            ));
        }
    }

    /// Opcode `FX29`: point the index register at the font glyph for the
    /// digit in VX: glyphs are 5 bytes apart starting at `FONTSET_ADDR`.
    pub fn find_character(&mut self, x: u8)
        requires
            old(self).wf(),
            x < NUM_REGS,
        ensures
            final(self).wf(),
            final(self)@ == old(self)@.with_i((FONTSET_ADDR + 5 * old(self)@.reg(x)) as u16),
    {
        let key_value = self.get_reg(x);
        self.i_reg = FONTSET_ADDR + 5 * key_value as u16;
        proof {
            assert(self@ =~= old(self)@.with_i((FONTSET_ADDR + 5 * old(self)@.reg(x)) as u16));
        }
    }

    /// Opcode `FX33`: store the decimal digits of VX (hundreds, tens, ones)
    /// at the index register and the two bytes after it; fails with
    /// `InvalidRamAddressError`, changing nothing, when that range runs off
    /// the end of memory.
    pub fn store_bcd(&mut self, x: u8) -> (r: Result<(), Error>)
        requires
            old(self).wf(),
            x < NUM_REGS,
        ensures
            final(self).wf(),
            old(self)@.i_reg + 3 <= RAM_SIZE ==> {
                let v = old(self)@.reg(x);
                &&& r is Ok
                &&& final(self)@ == old(self)@.with_ram(
                    old(self)@.ram.update(old(self)@.i_reg as int, v / 100).update(
                        old(self)@.i_reg + 1,
                        (v / 10) % 10,
                    ).update(old(self)@.i_reg + 2, v % 10),
                )
            },
            old(self)@.i_reg + 3 > RAM_SIZE ==> {
                &&& r == Err::<(), Error>(Error::InvalidRamAddressError)
                &&& *final(self) == *old(self)
            },
    {
        if self.i_reg as usize + 3 > RAM_SIZE {
            return Err(Error::InvalidRamAddressError);
        }
        let number = self.get_reg(x);
        let hundreds = number / 100;
        let tens = (number / 10) % 10;
        let ones = number % 10;
        self.memory.write(self.i_reg, hundreds);
        self.memory.write(self.i_reg + 1, tens);
        self.memory.write(self.i_reg + 2, ones);
        proof {
            let v = old(self)@.reg(x);
            assert(self@ =~= old(self)@.with_ram(
                old(self)@.ram.update(old(self)@.i_reg as int, v / 100).update(
                    old(self)@.i_reg + 1,
                    (v / 10) % 10,
                ).update(old(self)@.i_reg + 2, v % 10),
            ));
        }
        Ok(())
    }

    /// Opcode `FX55`: bulk-store registers V0 through VX into memory
    /// starting at the index register; fails with `InvalidRamAddressError`,
    /// changing nothing, when that range runs off the end of memory.
    pub fn dump_registers_to_ram(&mut self, x: u8) -> (r: Result<(), Error>)
        requires
            old(self).wf(),
            x < NUM_REGS,
        ensures
            final(self).wf(),
            old(self)@.i_reg + x + 1 <= RAM_SIZE ==> {
                &&& r is Ok
                &&& final(self)@ == old(self)@.with_ram(
                    ram_with_range(
                        old(self)@.ram,
                        old(self)@.i_reg as int,
                        old(self)@.regs.subrange(0, x + 1),
                    ),
                )
            },
            old(self)@.i_reg + x + 1 > RAM_SIZE ==> {
                &&& r == Err::<(), Error>(Error::InvalidRamAddressError)
                &&& *final(self) == *old(self)
            },
    {
        let mut reg_slice: Vec<u8> = Vec::new();
        let mut k: usize = 0;
        while k <= x as usize
            invariant
                self.wf(),
                *self == *old(self),
                x < NUM_REGS,
                k <= x + 1,
                reg_slice@ == self@.regs.subrange(0, k as int),
            decreases x + 1 - k,
        {
            reg_slice.push(self.v_reg[k]);
            proof {
                assert(reg_slice@ =~= self@.regs.subrange(0, k + 1));
            }
            k = k + 1;
        }

        match self.memory.write_slice(&reg_slice, self.i_reg) {
            Ok(_) => {
                proof {
                    assert(self@ =~= old(self)@.with_ram(
                        ram_with_range(
                            old(self)@.ram,
                            old(self)@.i_reg as int,
                            old(self)@.regs.subrange(0, x + 1),
                        ),
                    ));
                }
                Ok(())
            },
            Err(e) => Err(e),
        }
    }

    /// Opcode `FX65`: bulk-load registers V0 through VX from memory starting
    /// at the index register; fails with `InvalidRamAddressError`, changing
    /// nothing, when that range runs off the end of memory.
    pub fn load_registers_from_ram(&mut self, x: u8) -> (r: Result<(), Error>)
        requires
            old(self).wf(),
            x < NUM_REGS,
        ensures
            final(self).wf(),
            old(self)@.i_reg + x + 1 <= RAM_SIZE ==> {
                &&& r is Ok
                &&& final(self)@ == old(self)@.with_regs(
                    Seq::new(
                        NUM_REGS as nat,
                        |i: int|
                            if i <= x {
                                old(self)@.ram[old(self)@.i_reg + i]
                            } else {
                                old(self)@.regs[i]
                            },
                    ),
                )
            },
            old(self)@.i_reg + x + 1 > RAM_SIZE ==> {
                &&& r == Err::<(), Error>(Error::InvalidRamAddressError)
                &&& *final(self) == *old(self)
            },
    {
        if self.i_reg as usize + x as usize + 1 > RAM_SIZE {
            return Err(Error::InvalidRamAddressError);
        }

        let address = self.i_reg;
        let mut k: usize = 0;
        while k <= x as usize
            invariant
                self.wf(),
                x < NUM_REGS,
                k <= x + 1,
                address == old(self)@.i_reg,
                address + x + 1 <= RAM_SIZE,
                self@ == old(self)@.with_regs(self@.regs),
                forall|i: int| k <= i < NUM_REGS ==> self@.regs[i] == old(self)@.regs[i],
                forall|i: int| 0 <= i < k ==> self@.regs[i] == old(self)@.ram[address + i],
            decreases x + 1 - k,
        {
            let value = self.memory.read(address + k as u16);
            self.v_reg.set(k, value);
            proof {
                assert(self@ =~= old(self)@.with_regs(self@.regs));
            }
            k = k + 1;
        }
        proof {
            assert(self@ =~= old(self)@.with_regs(
                Seq::new(
                    NUM_REGS as nat,
                    |i: int|
                        if i <= x {
                            old(self)@.ram[old(self)@.i_reg + i]
                        } else {
                            old(self)@.regs[i]
                        },
                ),
            ));
        }
        Ok(())
    }
}

/// How one fetch-decode-execute step ended.
pub ghost enum StepRes {
    /// The instruction executed.
    Executed,
    /// No ROM has been loaded.
    MissingRom,
    /// The program counter or a data address range ran off the end of memory.
    InvalidRamAddress,
    /// A recognized opcode category whose concrete form is not executable.
    InvalidOpcode,
    /// An opcode of no recognized shape.
    UnknownOpcode(u16),
    /// A subroutine call with the stack already full.
    StackOverflow,
    /// A subroutine return with the stack empty.
    StackUnderflow,
}

/// The complete outcome of one step: processor, display grid and redraw
/// flag, key table, and how the step ended.
#[verifier::ext_equal]
pub ghost struct StepOut {
    /// The processor state after the step.
    pub proc: ProcView,
    /// The display grid after the step.
    pub grid: Seq<bool>,
    /// The redraw flag after the step.
    pub redraw: bool,
    /// The key table after the step.
    pub keys: Seq<bool>,
    /// How the step ended.
    pub res: StepRes,
}

/// An outcome that executed, with the given state.
pub open spec fn step_ok(p: ProcView, grid: Seq<bool>, redraw: bool, keys: Seq<bool>) -> StepOut {
    StepOut { proc: p, grid, redraw, keys, res: StepRes::Executed }
}

/// An outcome that failed with `res`, with the given state.
pub open spec fn step_err(
    p: ProcView,
    grid: Seq<bool>,
    redraw: bool,
    keys: Seq<bool>,
    res: StepRes,
) -> StepOut {
    StepOut { proc: p, grid, redraw, keys, res }
}

/// Whether the executable result `r` reports the outcome `res`: the error
/// variant is pinned exactly; the message text of an invalid-opcode report
/// is not part of the specification.
pub open spec fn res_matches(r: Result<(), Error>, res: StepRes) -> bool {
    match res {
        StepRes::Executed => r is Ok,
        StepRes::MissingRom => r == Err::<(), Error>(Error::MissingRomError),
        StepRes::InvalidRamAddress => r == Err::<(), Error>(Error::InvalidRamAddressError),
        StepRes::StackOverflow => r == Err::<(), Error>(Error::StackOverflowError),
        StepRes::StackUnderflow => r == Err::<(), Error>(Error::StackUnderflowError),
        StepRes::UnknownOpcode(opcode) => r == Err::<(), Error>(Error::UnknownOpcodeError(opcode)),
        StepRes::InvalidOpcode => match r {
            Err(Error::InvalidOpcodeError(_)) => true,
            _ => false,
        },
    }
}

/// Bounds on the decoded fields of an instruction: what `decode` guarantees
/// and `execute` relies on.
pub open spec fn instr_wf(instr: Instruction) -> bool {
    match instr {
        Instruction::Jump(nnn) => nnn < 0x1000,
        Instruction::CallSubroutine(nnn) => nnn < 0x1000,
        Instruction::LoadI(nnn) => nnn < 0x1000,
        Instruction::JumpPlus(nnn) => nnn < 0x1000,
        Instruction::SkipEqual(x, _) => x < NUM_REGS,
        Instruction::SkipNotEqual(x, _) => x < NUM_REGS,
        Instruction::SkipRegisterEqual(x, y) => x < NUM_REGS && y < NUM_REGS,
        Instruction::SkipRegisterNotEqual(x, y) => x < NUM_REGS && y < NUM_REGS,
        Instruction::LoadNumber(x, _) => x < NUM_REGS,
        Instruction::AddNumber(x, _) => x < NUM_REGS,
        Instruction::LoadRegisterOp(x, y, _) => x < NUM_REGS && y < NUM_REGS,
        Instruction::AddRegisterCarry(x, y) => x < NUM_REGS && y < NUM_REGS,
        Instruction::SubRegister(x, y) => x < NUM_REGS && y < NUM_REGS,
        Instruction::ShiftRight(x, y) => x < NUM_REGS && y < NUM_REGS,
        Instruction::SubRegisterReversed(x, y) => x < NUM_REGS && y < NUM_REGS,
        Instruction::ShiftLeft(x, y) => x < NUM_REGS && y < NUM_REGS,
        Instruction::RandomAnd(x, _) => x < NUM_REGS,
        Instruction::DrawSprite(x, y, _) => x < NUM_REGS && y < NUM_REGS,
        Instruction::SkipIfKeypress(x) => x < NUM_REGS,
        Instruction::SkipIfNotKeypress(x) => x < NUM_REGS,
        Instruction::LoadDelayTimer(x) => x < NUM_REGS,
        Instruction::WaitForKeypress(x) => x < NUM_REGS,
        Instruction::SetDelayTimer(x) => x < NUM_REGS,
        Instruction::SetSoundTimer(x) => x < NUM_REGS,
        Instruction::LoadAddI(x) => x < NUM_REGS,
        Instruction::FindCharacter(x) => x < NUM_REGS,
        Instruction::StoreBcd(x) => x < NUM_REGS,
        Instruction::DumpRegistersToRam(x) => x < NUM_REGS,
        Instruction::LoadRegistersFromRam(x) => x < NUM_REGS,
        _ => true,
    }
}

/// Every instruction `decode` hands out has well-formed fields.
pub proof fn lemma_decode_wf(opcode: u16)
    ensures
        match decode_spec(opcode) {
            Some(instr) => instr_wf(instr),
            None => true,
        },
{
    crate::instruction::lemma_decoded_field_bounds(opcode);
}

/// The exact effect of one decoded instruction on the machine: `p` is the
/// processor state with the program counter already advanced past the
/// instruction, `grid`, `redraw` and `keys` are the display and key-table
/// state, and `rnd` is the byte the random opcode draws.
pub open spec fn instr_step(
    p: ProcView,
    grid: Seq<bool>,
    redraw: bool,
    keys: Seq<bool>,
    rnd: u8,
    instr: Instruction,
) -> StepOut {
    match instr {
        Instruction::ClearScreen => step_ok(
            p,
            Seq::new(grid.len(), |i: int| false),
            redraw,
            keys,
        ),
        Instruction::ReturnSubroutine => if p.stack.len() > 0 {
            step_ok(p.with_pc(p.stack.last()).with_stack(p.stack.drop_last()), grid, redraw, keys)
        } else {
            step_err(p, grid, redraw, keys, StepRes::StackUnderflow)
        },
        Instruction::SysCall(_) => step_err(p, grid, redraw, keys, StepRes::InvalidOpcode),
        Instruction::Jump(nnn) => step_ok(p.with_pc(nnn), grid, redraw, keys),
        Instruction::CallSubroutine(nnn) => if p.stack.len() < STACK_SIZE {
            step_ok(p.with_stack(p.stack.push(p.pc)).with_pc(nnn), grid, redraw, keys)
        } else {
            step_err(p, grid, redraw, keys, StepRes::StackOverflow)
        },
        Instruction::SkipEqual(x, nn) => step_ok(
            if p.reg(x) == nn {
                p.with_pc((p.pc + 2) as u16)
            } else {
                p
            },
            grid,
            redraw,
            keys,
        ),
        Instruction::SkipNotEqual(x, nn) => step_ok(
            if p.reg(x) != nn {
                p.with_pc((p.pc + 2) as u16)
            } else {
                p
            },
            grid,
            redraw,
            keys,
        ),
        Instruction::SkipRegisterEqual(x, y) => step_ok(
            if p.reg(x) == p.reg(y) {
                p.with_pc((p.pc + 2) as u16)
            } else {
                p
            },
            grid,
            redraw,
            keys,
        ),
        Instruction::SkipRegisterNotEqual(x, y) => step_ok(
            if p.reg(x) != p.reg(y) {
                p.with_pc((p.pc + 2) as u16)
            } else {
                p
            },
            grid,
            redraw,
            keys,
        ),
        Instruction::LoadNumber(x, nn) => step_ok(p.with_reg(x, nn), grid, redraw, keys),
        Instruction::AddNumber(x, nn) => step_ok(
            p.with_reg(x, wrap_add(p.reg(x), nn)),
            grid,
            redraw,
            keys,
        ),
        Instruction::LoadRegisterOp(x, y, op) => step_ok(
            p.with_reg(x, crate::instruction::apply_logic_op(op, p.reg(x), p.reg(y))),
            grid,
            redraw,
            keys,
        ),
        Instruction::AddRegisterCarry(x, y) => step_ok(
            p.with_reg(x, wrap_add(p.reg(x), p.reg(y))).with_reg(
                CARRY_REGISTER as u8,
                if p.reg(x) + p.reg(y) > 255 {
                    1u8
                } else {
                    0u8
                },
            ),
            grid,
            redraw,
            keys,
        ),
        Instruction::SubRegister(x, y) => step_ok(
            p.with_reg(x, wrap_sub(p.reg(x), p.reg(y))).with_reg(
                CARRY_REGISTER as u8,
                if p.reg(x) >= p.reg(y) {
                    1u8
                } else {
                    0u8
                },
            ),
            grid,
            redraw,
            keys,
        ),
        Instruction::SubRegisterReversed(x, y) => step_ok(
            p.with_reg(x, wrap_sub(p.reg(y), p.reg(x))).with_reg(
                CARRY_REGISTER as u8,
                if p.reg(y) >= p.reg(x) {
                    1u8
                } else {
                    0u8
                },
            ),
            grid,
            redraw,
            keys,
        ),
        Instruction::ShiftRight(x, y) => step_ok(
            p.with_reg(x, p.reg(y) >> 1u8).with_reg(CARRY_REGISTER as u8, p.reg(y) & 0x1),
            grid,
            redraw,
            keys,
        ),
        Instruction::ShiftLeft(x, y) => step_ok(
            p.with_reg(x, p.reg(y) << 1u8).with_reg(
                CARRY_REGISTER as u8,
                (p.reg(y) & 0x80) >> 7u8,
            ),
            grid,
            redraw,
            keys,
        ),
        Instruction::LoadI(nnn) => step_ok(p.with_i(nnn), grid, redraw, keys),
        Instruction::JumpPlus(nnn) => step_ok(
            p.with_pc((p.reg(0) + nnn) as u16),
            grid,
            redraw,
            keys,
        ),
        Instruction::RandomAnd(x, nn) => step_ok(p.with_reg(x, rnd & nn), grid, redraw, keys),
        Instruction::DrawSprite(x, y, n) => if p.i_reg + n > RAM_SIZE {
            step_err(p, grid, redraw, keys, StepRes::InvalidRamAddress)
        } else {
            let sprite = sprite_at_index(p, n);
            let ax = (p.reg(x) % (SCREEN_WIDTH as u8)) as int;
            let ay = (p.reg(y) % (SCREEN_HEIGHT as u8)) as int;
            StepOut {
                proc: p.with_reg(
                    CARRY_REGISTER as u8,
                    if draw_collision(grid, sprite, ax, ay) {
                        1u8
                    } else {
                        0u8
                    },
                ),
                grid: grid_after_draw(grid, sprite, ax, ay),
                redraw: true,
                keys,
                res: StepRes::Executed,
            }
        },
        Instruction::SkipIfKeypress(x) => if p.reg(x) < NUM_KEYS {
            step_ok(
                if keys[p.reg(x) as int] {
                    p.with_pc((p.pc + 2) as u16)
                } else {
                    p
                },
                grid,
                redraw,
                keys,
            )
        } else {
            step_err(p, grid, redraw, keys, StepRes::InvalidOpcode)
        },
        Instruction::SkipIfNotKeypress(x) => if p.reg(x) < NUM_KEYS {
            step_ok(
                if !keys[p.reg(x) as int] {
                    p.with_pc((p.pc + 2) as u16)
                } else {
                    p
                },
                grid,
                redraw,
                keys,
            )
        } else {
            step_err(p, grid, redraw, keys, StepRes::InvalidOpcode)
        },
        Instruction::LoadDelayTimer(x) => step_ok(p.with_reg(x, p.dt), grid, redraw, keys),
        Instruction::WaitForKeypress(x) => if any_key_down(keys) {
            step_ok(
                p.with_reg(x, lowest_key_down(keys) as u8),
                grid,
                redraw,
                Seq::new(keys.len(), |i: int| false),
            )
        } else {
            step_ok(p.with_pc((p.pc - 2) as u16), grid, redraw, keys)
        },
        Instruction::SetDelayTimer(x) => step_ok(p.with_dt(p.reg(x)), grid, redraw, keys),
        Instruction::SetSoundTimer(x) => step_ok(p.with_st(p.reg(x)), grid, redraw, keys),
        Instruction::LoadAddI(x) => step_ok(
            p.with_i(wrap_add_u16(p.i_reg, p.reg(x) as u16)),
            grid,
            redraw,
            keys,
        ),
        Instruction::FindCharacter(x) => step_ok(
            p.with_i((FONTSET_ADDR + 5 * p.reg(x)) as u16),
            grid,
            redraw,
            keys,
        ),
        Instruction::StoreBcd(x) => if p.i_reg + 3 <= RAM_SIZE {
            step_ok(
                p.with_ram(
                    p.ram.update(p.i_reg as int, p.reg(x) / 100).update(
                        p.i_reg + 1,
                        (p.reg(x) / 10) % 10,
                    ).update(p.i_reg + 2, p.reg(x) % 10),
                ),
                grid,
                redraw,
                keys,
            )
        } else {
            step_err(p, grid, redraw, keys, StepRes::InvalidRamAddress)
        },
        Instruction::DumpRegistersToRam(x) => if p.i_reg + x + 1 <= RAM_SIZE {
            step_ok(
                p.with_ram(ram_with_range(p.ram, p.i_reg as int, p.regs.subrange(0, x + 1))),
                grid,
                redraw,
                keys,
            )
        } else {
            step_err(p, grid, redraw, keys, StepRes::InvalidRamAddress)
        },
        Instruction::LoadRegistersFromRam(x) => if p.i_reg + x + 1 <= RAM_SIZE {
            step_ok(
                p.with_regs(
                    Seq::new(
                        NUM_REGS as nat,
                        |i: int|
                            if i <= x {
                                p.ram[p.i_reg + i]
                            } else {
                                p.regs[i]
                            },
                    ),
                ),
                grid,
                redraw,
                keys,
            )
        } else {
            step_err(p, grid, redraw, keys, StepRes::InvalidRamAddress)
        },
    }
}

/// The exact effect of one whole `cycle` call on the machine, starting from
/// the pre-fetch state: the ROM gate and the fetch-range check, then the
/// two-byte fetch, the advance of the program counter, and the decoded
/// instruction's own effect.
pub open spec fn cycle_step(
    p: ProcView,
    grid: Seq<bool>,
    redraw: bool,
    keys: Seq<bool>,
    rnd: u8,
) -> StepOut {
    if !p.rom_loaded {
        step_err(p, grid, redraw, keys, StepRes::MissingRom)
    } else if p.pc + 1 >= RAM_SIZE {
        step_err(p, grid, redraw, keys, StepRes::InvalidRamAddress)
    } else {
        let opcode = (p.ram[p.pc as int] * 256 + p.ram[p.pc + 1]) as u16;
        let p1 = p.with_pc((p.pc + 2) as u16);
        match crate::instruction::decode_spec(opcode) {
            None => step_err(p1, grid, redraw, keys, StepRes::UnknownOpcode(opcode)),
            Some(instr) => instr_step(p1, grid, redraw, keys, rnd, instr),
        }
    }
}

/// Whether `execute` turned the pre-state into the post-state as
/// `instr_step` with random byte `rnd` prescribes.
pub open spec fn execute_matches(
    pre: ProcView,
    grid0: Seq<bool>,
    redraw0: bool,
    keys0: Seq<bool>,
    post: ProcView,
    grid1: Seq<bool>,
    redraw1: bool,
    keys1: Seq<bool>,
    r: Result<(), Error>,
    rnd: u8,
    instr: Instruction,
) -> bool {
    let out = instr_step(pre, grid0, redraw0, keys0, rnd, instr);
    post == out.proc && grid1 == out.grid && redraw1 == out.redraw && keys1 == out.keys
        && res_matches(r, out.res)
}

/// Whether `cycle` turned the pre-state into the post-state as `cycle_step`
/// with random byte `rnd` prescribes.
pub open spec fn cycle_matches(
    pre: ProcView,
    grid0: Seq<bool>,
    redraw0: bool,
    keys0: Seq<bool>,
    post: ProcView,
    grid1: Seq<bool>,
    redraw1: bool,
    keys1: Seq<bool>,
    r: Result<(), Error>,
    rnd: u8,
) -> bool {
    let out = cycle_step(pre, grid0, redraw0, keys0, rnd);
    post == out.proc && grid1 == out.grid && redraw1 == out.redraw && keys1 == out.keys
        && res_matches(r, out.res)
}

/// The two fetched bytes compose into an opcode with the first as high byte.
pub proof fn lemma_opcode_compose(high: u16, low: u16)
    requires
        high < 0x100,
        low < 0x100,
    ensures
        (high << 8u16) | low == high * 256 + low,
{
    assert(high < 0x100 && low < 0x100 ==> ((high << 8u16) | low) == high * 256 + low)
        by (bit_vector);
}

impl Processor {
    /// Run one decoded instruction against this processor, the display and
    /// the key table. The program counter has already been advanced past the
    /// instruction; every outcome is exactly the one `instr_step` gives for
    /// some value of the random byte.
    pub fn execute(
        &mut self,
        instr: Instruction,
        display: &mut Display,
        input: &mut KeyInput,
    ) -> (r: Result<(), Error>)
        requires
            old(self).wf(),
            old(display).wf(),
            old(input).wf(),
            instr_wf(instr),
            2 <= old(self).pc,
            old(self).pc + 2 <= u16::MAX,
        ensures
            final(self).wf(),
            final(display).wf(),
            final(input).wf(),
            exists|rnd: u8|
                execute_matches(
                    old(self)@,
                    old(display)@,
                    old(display).redraw_flag,
                    old(input)@,
                    final(self)@,
                    final(display)@,
                    final(display).redraw_flag,
                    final(input)@,
                    r,
                    rnd,
                    instr,
                ),
    {
        let ghost pre = self@;
        let ghost grid0 = display@;
        let ghost redraw0 = display.redraw_flag;
        let ghost keys0 = input@;

        let result: Result<(), Error> = match instr {
            Instruction::ClearScreen => {
                display.clear();
                proof {
                    assert(display@ =~= Seq::new(grid0.len(), |i: int| false));
                }
                Ok(())
            },
            Instruction::ReturnSubroutine => self.return_subroutine(),
            Instruction::SysCall(_) => Err(
                Error::InvalidOpcodeError("0NNN - Call machine code routine".to_owned()),
            ),
            Instruction::Jump(nnn) => {
                self.jump(nnn);
                Ok(())
            },
            Instruction::CallSubroutine(nnn) => self.call_subroutine(nnn),
            Instruction::SkipEqual(x, nn) => {
                self.skip_equal(x, nn);
                Ok(())
            },
            Instruction::SkipNotEqual(x, nn) => {
                self.skip_not_equal(x, nn);
                Ok(())
            },
            Instruction::SkipRegisterEqual(x, y) => {
                self.skip_register_equal(x, y);
                Ok(())
            },
            Instruction::SkipRegisterNotEqual(x, y) => {
                self.skip_register_not_equal(x, y);
                Ok(())
            },
            Instruction::LoadNumber(x, nn) => {
                self.load_number(x, nn);
                Ok(())
            },
            Instruction::AddNumber(x, nn) => {
                self.add_number(x, nn);
                Ok(())
            },
            Instruction::LoadRegisterOp(x, y, op) => {
                self.load_register_op(x, y, op);
                Ok(())
            },
            Instruction::AddRegisterCarry(x, y) => {
                self.add_register_carry(x, y);
                Ok(())
            },
            Instruction::SubRegister(x, y) => {
                self.sub_register(x, y);
                Ok(())
            },
            Instruction::ShiftRight(x, y) => {
                self.shift_right(x, y);
                Ok(())
            },
            Instruction::SubRegisterReversed(x, y) => {
                self.sub_register_reversed(x, y);
                Ok(())
            },
            Instruction::ShiftLeft(x, y) => {
                self.shift_left(x, y);
                Ok(())
            },
            Instruction::LoadI(nnn) => {
                self.load_i(nnn);
                Ok(())
            },
            Instruction::JumpPlus(nnn) => {
                self.jump_plus(nnn);
                Ok(())
            },
            Instruction::RandomAnd(x, nn) => {
                self.random_and(x, nn);
                Ok(())
            },
            Instruction::DrawSprite(x, y, n) => self.draw_sprite(x, y, n, display),
            Instruction::SkipIfKeypress(x) => self.skip_if_keypress(x, input),
            Instruction::SkipIfNotKeypress(x) => self.skip_if_not_keypress(x, input),
            Instruction::LoadDelayTimer(x) => {
                self.load_delay_timer(x);
                Ok(())
            },
            Instruction::WaitForKeypress(x) => {
                self.wait_for_keypress(x, input);
                proof {
                    if any_key_down(keys0) {
                        assert(input@ =~= Seq::new(keys0.len(), |i: int| false));
                    }
                }
                Ok(())
            },
            Instruction::SetDelayTimer(x) => {
                self.set_delay_timer(x);
                Ok(())
            },
            Instruction::SetSoundTimer(x) => {
                self.set_sound_timer(x);
                Ok(())
            },
            Instruction::LoadAddI(x) => {
                self.load_add_i(x);
                Ok(())
            },
            Instruction::FindCharacter(x) => {
                self.find_character(x);
                Ok(())
            },
            Instruction::StoreBcd(x) => self.store_bcd(x),
            Instruction::DumpRegistersToRam(x) => self.dump_registers_to_ram(x),
            Instruction::LoadRegistersFromRam(x) => self.load_registers_from_ram(x),
        };

        proof {
            match instr {
                Instruction::RandomAnd(x, nn) => {
                    let rnd = choose|rnd: u8| self@ == pre.with_reg(x, rnd & nn);
                    assert(execute_matches(
                        pre,
                        grid0,
                        redraw0,
                        keys0,
                        self@,
                        display@,
                        display.redraw_flag,
                        input@,
                        result,
                        rnd,
                        instr,
                    ));
                },
                _ => {
                    assert(execute_matches(
                        pre,
                        grid0,
                        redraw0,
                        keys0,
                        self@,
                        display@,
                        display.redraw_flag,
                        input@,
                        result,
                        0u8,
                        instr,
                    ));
                },
            }
        }
        result
    }

    /// One complete fetch-decode-execute step: fail with `MissingRomError`
    /// before any ROM is loaded and with `InvalidRamAddressError` when the
    /// two-byte fetch would run off the end of memory; otherwise fetch the
    /// opcode at the program counter, advance it by two (so jumps overwrite
    /// the advance), and execute the decoded instruction. Every outcome is
    /// exactly the one `cycle_step` gives for some value of the random byte;
    /// an error from the dispatched instruction leaves the advanced program
    /// counter in place.
    pub fn cycle(&mut self, display: &mut Display, input: &mut KeyInput) -> (r: Result<(), Error>)
        requires
            old(self).wf(),
            old(display).wf(),
            old(input).wf(),
        ensures
            final(self).wf(),
            final(display).wf(),
            final(input).wf(),
            exists|rnd: u8|
                cycle_matches(
                    old(self)@,
                    old(display)@,
                    old(display).redraw_flag,
                    old(input)@,
                    final(self)@,
                    final(display)@,
                    final(display).redraw_flag,
                    final(input)@,
                    r,
                    rnd,
                ),
    {
        let ghost pre = self@;
        let ghost grid0 = display@;
        let ghost redraw0 = display.redraw_flag;
        let ghost keys0 = input@;

        if !self.memory.rom_loaded() {
            let r = Err(Error::MissingRomError);
            proof {
                assert(cycle_matches(
                    pre,
                    grid0,
                    redraw0,
                    keys0,
                    self@,
                    display@,
                    display.redraw_flag,
                    input@,
                    r,
                    0u8,
                ));
            }
            return r;
        }

        if self.pc >= (RAM_SIZE - 1) as u16 {
            let r = Err(Error::InvalidRamAddressError);
            proof {
                assert(cycle_matches(
                    pre,
                    grid0,
                    redraw0,
                    keys0,
                    self@,
                    display@,
                    display.redraw_flag,
                    input@,
                    r,
                    0u8,
                ));
            }
            return r;
        }

        let high_byte = self.memory.read(self.pc) as u16;
        let low_byte = self.memory.read(self.pc + 1) as u16;
        let opcode = (high_byte << 8u16) | low_byte;
        proof {
            lemma_opcode_compose(high_byte, low_byte);
            assert(opcode == (pre.ram[pre.pc as int] * 256 + pre.ram[pre.pc + 1]) as u16);
        }
        self.pc = self.pc + 2;
        let ghost mid = self@;
        proof {
            assert(mid =~= pre.with_pc((pre.pc + 2) as u16));
            lemma_decode_wf(opcode);
        }

        let instr = match crate::instruction::decode(opcode) {
            Some(instr) => instr,
            None => {
                let r = Err(Error::UnknownOpcodeError(opcode));
                proof {
                    assert(cycle_matches(
                        pre,
                        grid0,
                        redraw0,
                        keys0,
                        self@,
                        display@,
                        display.redraw_flag,
                        input@,
                        r,
                        0u8,
                    ));
                }
                return r;
            },
        };

        let result = self.execute(instr, display, input);
        proof {
            let rnd = choose|rnd: u8|
                execute_matches(
                    mid,
                    grid0,
                    redraw0,
                    keys0,
                    self@,
                    display@,
                    display.redraw_flag,
                    input@,
                    result,
                    rnd,
                    instr,
                );
            assert(cycle_matches(
                pre,
                grid0,
                redraw0,
                keys0,
                self@,
                display@,
                display.redraw_flag,
                input@,
                result,
                rnd,
            ));
        }
        result
    }
}

} // verus!
