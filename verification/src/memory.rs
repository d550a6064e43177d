use vstd::prelude::*;

use crate::errors::Error;

verus! {

/// Total bytes of addressable memory.
pub const RAM_SIZE: usize = 4096;

/// Address at which a loaded ROM begins and the program counter starts.
pub const START_ADDR: u16 = 0x200;

/// Largest ROM that fits between `START_ADDR` and the end of memory.
pub const MAX_ROM_SIZE: usize = 4096 - 0x200;

/// Number of bytes in the font glyph table: 16 glyphs of 5 bytes each.
pub const FONTSET_SIZE: usize = 16 * 5;

/// Address at which the font glyph table is stored.
pub const FONTSET_ADDR: u16 = 0x050;

/// The font glyph table: one 5-byte glyph per hexadecimal digit 0-F.
pub open spec fn fontset() -> Seq<u8> {
    seq![
        0xF0u8, 0x90, 0x90, 0x90, 0xF0, // 0
        0x20, 0x60, 0x20, 0x20, 0x70, // 1
        0xF0, 0x10, 0xF0, 0x80, 0xF0, // 2
        0xF0, 0x10, 0xF0, 0x10, 0xF0, // 3
        0x90, 0x90, 0xF0, 0x10, 0x10, // 4
        0xF0, 0x80, 0xF0, 0x10, 0xF0, // 5
        0xF0, 0x80, 0xF0, 0x90, 0xF0, // 6
        0xF0, 0x10, 0x20, 0x40, 0x40, // 7
        0xF0, 0x90, 0xF0, 0x90, 0xF0, // 8
        0xF0, 0x90, 0xF0, 0x10, 0xF0, // 9
        0xF0, 0x90, 0xF0, 0x90, 0x90, // A
        0xE0, 0x90, 0xE0, 0x90, 0xE0, // B
        0xF0, 0x80, 0x80, 0x80, 0xF0, // C
        0xE0, 0x90, 0x90, 0x90, 0xE0, // D
        0xF0, 0x80, 0xF0, 0x80, 0xF0, // E
        0xF0, 0x80, 0xF0, 0x80, 0x80, // F
    ]
}

/// Memory contents at construction and after a reset: zero everywhere except
/// the font glyph table.
pub open spec fn initial_ram() -> Seq<u8> {
    Seq::new(
        RAM_SIZE as nat,
        |i: int|
            if FONTSET_ADDR <= i < FONTSET_ADDR + FONTSET_SIZE {
                fontset()[i - FONTSET_ADDR]
            } else {
                0u8
            },
    )
}

/// `ram` with `rom` copied in starting at `START_ADDR`; everything else kept.
pub open spec fn ram_with_rom(ram: Seq<u8>, rom: Seq<u8>) -> Seq<u8> {
    Seq::new(
        ram.len(),
        |i: int|
            if START_ADDR <= i < START_ADDR + rom.len() {
                rom[i - START_ADDR]
            } else {
                ram[i]
            },
    )
}

/// `ram` with `data` copied in starting at `addr`; everything else kept.
pub open spec fn ram_with_range(ram: Seq<u8>, addr: int, data: Seq<u8>) -> Seq<u8> {
    Seq::new(
        ram.len(),
        |i: int|
            if addr <= i < addr + data.len() {
                data[i - addr]
            } else {
                ram[i]
            },
    )
}

/// Flat byte-addressable storage with the font table preloaded and a flag
/// that gates execution until a ROM has been copied in.
pub struct Memory {
    /// The raw bytes, always exactly `RAM_SIZE` of them.
    pub ram: Vec<u8>,
    /// Whether a ROM has been loaded since construction or the last reset.
    pub rom_loaded: bool,
}

impl Memory {
    /// Structural invariant: full backing storage.
    pub open spec fn wf(self) -> bool {
        self.ram.len() == RAM_SIZE
    }

    /// Fresh memory: all zero except the font table, no ROM loaded.
    pub fn new() -> (m: Memory)
        ensures
            m.wf(),
            m.ram@ == initial_ram(),
            !m.rom_loaded,
    {
        let mut memory = Memory { ram: vec![0u8; RAM_SIZE], rom_loaded: false };
        memory.write_fontset();
        proof {
            assert(memory.ram@ =~= initial_ram());
        }
        memory
    }

    /// Copy the font glyph table to its fixed region, leaving the rest.
    fn write_fontset(&mut self)
        requires
            old(self).wf(),
        ensures
            final(self).wf(),
            final(self).rom_loaded == old(self).rom_loaded,
            final(self).ram@.len() == old(self).ram@.len(),
            forall|i: int|
                0 <= i < RAM_SIZE && !(FONTSET_ADDR <= i < FONTSET_ADDR + FONTSET_SIZE)
                    ==> final(self).ram@[i] == old(self).ram@[i],
            forall|i: int|
                FONTSET_ADDR <= i < FONTSET_ADDR + FONTSET_SIZE
                    ==> final(self).ram@[i] == fontset()[i - FONTSET_ADDR],
    {
        let font = font_data();
        let mut k: usize = 0;
        while k < FONTSET_SIZE
            invariant
                self.wf(),
                font@ == fontset(),
                k <= FONTSET_SIZE,
                self.rom_loaded == old(self).rom_loaded,
                self.ram@.len() == old(self).ram@.len(),
                forall|i: int|
                    0 <= i < RAM_SIZE && !(FONTSET_ADDR <= i < FONTSET_ADDR + FONTSET_SIZE)
                        ==> self.ram@[i] == old(self).ram@[i],
                forall|i: int|
                    FONTSET_ADDR <= i < FONTSET_ADDR + k ==> self.ram@[i] == fontset()[i
                        - FONTSET_ADDR],
            decreases FONTSET_SIZE - k,
        {
            self.ram.set(FONTSET_ADDR as usize + k, font[k]);
            k = k + 1;
        }
    }

    /// Copy `rom` into memory starting at `START_ADDR` and mark it loaded;
    /// fails with `InvalidRomSizeError`, copying nothing, when it does not
    /// fit.
    pub fn load_rom(&mut self, rom: &Vec<u8>) -> (r: Result<(), Error>)
        requires
            old(self).wf(),
        ensures
            final(self).wf(),
            rom@.len() <= MAX_ROM_SIZE ==> {
                &&& r is Ok
                &&& final(self).ram@ == ram_with_rom(old(self).ram@, rom@)
                &&& final(self).rom_loaded
            },
            rom@.len() > MAX_ROM_SIZE ==> {
                &&& r == Err::<(), Error>(Error::InvalidRomSizeError)
                &&& *final(self) == *old(self)
            },
    {
        if rom.len() > MAX_ROM_SIZE {
            return Err(Error::InvalidRomSizeError);
        }

        let mut k: usize = 0;
        while k < rom.len()
            invariant
                self.wf(),
                rom@.len() <= MAX_ROM_SIZE,
                k <= rom@.len(),
                self.rom_loaded == old(self).rom_loaded,
                self.ram@.len() == old(self).ram@.len(),
                forall|i: int|
                    0 <= i < RAM_SIZE && !(START_ADDR <= i < START_ADDR + k) ==> self.ram@[i]
                        == old(self).ram@[i],
                forall|i: int|
                    START_ADDR <= i < START_ADDR + k ==> self.ram@[i] == rom@[i - START_ADDR],
            decreases rom@.len() - k,
        {
            self.ram.set(START_ADDR as usize + k, rom[k]);
            k = k + 1;
        }
        self.rom_loaded = true;
        proof {
            assert(self.ram@ =~= ram_with_rom(old(self).ram@, rom@));
        }
        Ok(())
    }

    /// Whether a ROM has been loaded since construction or the last reset.
    pub fn rom_loaded(&self) -> (r: bool)
        ensures
            r == self.rom_loaded,
    {
        self.rom_loaded
    }

    /// Direct indexed read; the caller keeps the address in range.
    pub fn read(&self, address: u16) -> (r: u8)
        requires
            self.wf(),
            address < RAM_SIZE,
        ensures
            r == self.ram@[address as int],
    {
        self.ram[address as usize]
    }

    /// Direct indexed write; the caller keeps the address in range.
    pub fn write(&mut self, address: u16, value: u8)
        requires
            old(self).wf(),
            address < RAM_SIZE,
        ensures
            final(self).wf(),
            final(self).ram@ == old(self).ram@.update(address as int, value),
            final(self).rom_loaded == old(self).rom_loaded,
    {
        self.ram.set(address as usize, value);
    }

    /// Copy of the `length` bytes starting at `address`; the caller keeps the
    /// range in bounds.
    pub fn read_slice(&self, address: u16, length: u16) -> (r: Vec<u8>)
        requires
            self.wf(),
            address + length <= RAM_SIZE,
        ensures
            r@ == self.ram@.subrange(address as int, address + length),
    {
        let mut out: Vec<u8> = Vec::new();
        let mut k: usize = 0;
        while k < length as usize
            invariant
                self.wf(),
                address + length <= RAM_SIZE,
                k <= length,
                out@ == self.ram@.subrange(address as int, address + k),
            decreases length - k,
        {
            out.push(self.ram[address as usize + k]);
            proof {
                assert(out@ =~= self.ram@.subrange(address as int, address + k + 1));
            }
            k = k + 1;
        }
        out
    }

    /// Copy `slice` into memory starting at `address`; fails with
    /// `InvalidRamAddressError`, copying nothing, when the range runs off the
    /// end of memory.
    pub fn write_slice(&mut self, slice: &Vec<u8>, address: u16) -> (r: Result<(), Error>)
        requires
            old(self).wf(),
        ensures
            final(self).wf(),
            address + slice@.len() <= RAM_SIZE ==> {
                &&& r is Ok
                &&& final(self).ram@ == ram_with_range(old(self).ram@, address as int, slice@)
                &&& final(self).rom_loaded == old(self).rom_loaded
            },
            address + slice@.len() > RAM_SIZE ==> {
                &&& r == Err::<(), Error>(Error::InvalidRamAddressError)
                &&& *final(self) == *old(self)
            },
    {
        if slice.len() > RAM_SIZE || address as usize > RAM_SIZE - slice.len() {
            return Err(Error::InvalidRamAddressError);
        }

        let mut k: usize = 0;
        while k < slice.len()
            invariant
                self.wf(),
                address + slice@.len() <= RAM_SIZE,
                k <= slice@.len(),
                self.rom_loaded == old(self).rom_loaded,
                self.ram@.len() == old(self).ram@.len(),
                forall|i: int|
                    0 <= i < RAM_SIZE && !(address <= i < address + k) ==> self.ram@[i]
                        == old(self).ram@[i],
                forall|i: int| address <= i < address + k ==> self.ram@[i] == slice@[i - address],
            decreases slice@.len() - k,
        {
            self.ram.set(address as usize + k, slice[k]);
            k = k + 1;
        }
        proof {
            assert(self.ram@ =~= ram_with_range(old(self).ram@, address as int, slice@));
        }
        Ok(())
    }

    /// Zero all memory, reload the font glyph table, clear the loaded flag.
    pub fn reset(&mut self)
        requires
            old(self).wf(),
        ensures
            final(self).wf(),
            final(self).ram@ == initial_ram(),
            !final(self).rom_loaded,
    {
        self.ram = vec![0u8; RAM_SIZE];
        self.rom_loaded = false;
        self.write_fontset();
        proof {
            assert(self.ram@ =~= initial_ram());
        }
    }
}

/// The font glyph table as bytes, equal to the `fontset` specification.
pub fn font_data() -> (r: Vec<u8>)
    ensures
        r@ == fontset(),
{
    let font: Vec<u8> = vec![
        0xF0u8, 0x90, 0x90, 0x90, 0xF0, // 0
        0x20, 0x60, 0x20, 0x20, 0x70, // 1
        0xF0, 0x10, 0xF0, 0x80, 0xF0, // 2
        0xF0, 0x10, 0xF0, 0x10, 0xF0, // 3
        0x90, 0x90, 0xF0, 0x10, 0x10, // 4
        0xF0, 0x80, 0xF0, 0x10, 0xF0, // 5
        0xF0, 0x80, 0xF0, 0x90, 0xF0, // 6
        0xF0, 0x10, 0x20, 0x40, 0x40, // 7
        0xF0, 0x90, 0xF0, 0x90, 0xF0, // 8
        0xF0, 0x90, 0xF0, 0x10, 0xF0, // 9
        0xF0, 0x90, 0xF0, 0x90, 0x90, // A
        0xE0, 0x90, 0xE0, 0x90, 0xE0, // B
        0xF0, 0x80, 0x80, 0x80, 0xF0, // C
        0xE0, 0x90, 0x90, 0x90, 0xE0, // D
        0xF0, 0x80, 0xF0, 0x80, 0xF0, // E
        0xF0, 0x80, 0xF0, 0x80, 0x80, // F
    ];
    proof {
        assert(font@ =~= fontset());
    }
    font
}

} // verus!
