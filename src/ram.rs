use crate::error::Chip8Error;
use vstd::prelude::*;

verus! {

/// Number of addressable bytes.
pub const RAM_SIZE: usize = 4096;

/// Address where a program image starts.
pub const START_ADDRESS: u16 = 0x200;

/// Number of bytes in the font table at address 0.
pub const FONTSET_SIZE: usize = 80;

/// Sixteen 5-byte sprites of the hexadecimal digits; digit `d` starts at `5 * d`.
pub const FONTSET: [u8; FONTSET_SIZE] = [
    0xF0, 0x90, 0x90, 0x90, 0xF0,  // 0
    0x20, 0x60, 0x20, 0x20, 0x70,  // 1
    0xF0, 0x10, 0xF0, 0x80, 0xF0,  // 2
    0xF0, 0x10, 0xF0, 0x10, 0xF0,  // 3
    0x90, 0x90, 0xF0, 0x10, 0x10,  // 4
    0xF0, 0x80, 0xF0, 0x10, 0xF0,  // 5
    0xF0, 0x80, 0xF0, 0x90, 0xF0,  // 6
    0xF0, 0x10, 0x20, 0x40, 0x40,  // 7
    0xF0, 0x90, 0xF0, 0x90, 0xF0,  // 8
    0xF0, 0x90, 0xF0, 0x10, 0xF0,  // 9
    0xF0, 0x90, 0xF0, 0x90, 0x90,  // A
    0xE0, 0x90, 0xE0, 0x90, 0xE0,  // B
    0xF0, 0x80, 0x80, 0x80, 0xF0,  // C
    0xE0, 0x90, 0x90, 0x90, 0xE0,  // D
    0xF0, 0x80, 0xF0, 0x80, 0xF0,  // E
    0xF0, 0x80, 0xF0, 0x80, 0x80,  // F
];

/// Flat memory of `RAM_SIZE` bytes.
pub struct Ram {
    memory: [u8; RAM_SIZE],
}

impl View for Ram {
    type V = Seq<u8>;

    closed spec fn view(&self) -> Seq<u8> {
        self.memory@
    }
}

/// Memory always holds exactly `RAM_SIZE` bytes.
pub broadcast proof fn lemma_ram_len(r: &Ram)
    ensures
        #[trigger] r@.len() == RAM_SIZE,
{
}

/// Memory as constructed: the font table at address 0, zero elsewhere.
pub open spec fn initial_memory() -> Seq<u8> {
    Seq::new(RAM_SIZE as nat, |a: int| if a < FONTSET_SIZE { FONTSET@[a] } else { 0u8 })
}

/// The big-endian word made of the bytes at `a` and `a + 1`.
pub open spec fn word_at(m: Seq<u8>, a: int) -> u16 {
    (m[a] * 256 + m[a + 1]) as u16
}

/// Memory `m` with `rom` copied to the addresses from `START_ADDRESS` on.
pub open spec fn with_program(m: Seq<u8>, rom: Seq<u8>) -> Seq<u8> {
    Seq::new(
        m.len(),
        |a: int|
            if START_ADDRESS <= a < START_ADDRESS + rom.len() {
                rom[a - START_ADDRESS]
            } else {
                m[a]
            },
    )
}

/// Whether a program image of `len` bytes fits from `START_ADDRESS` to the end of memory.
pub open spec fn program_fits(len: int) -> bool {
    START_ADDRESS + len <= RAM_SIZE
}

impl Ram {
    pub fn new() -> (r: Ram)
        ensures
            r@ == initial_memory(),
    {
        let mut r = Ram { memory: [0u8; RAM_SIZE] };
        r.write_fontset();
        r
    }

    /// Copies the font table to addresses `0 .. FONTSET_SIZE`.
    fn write_fontset(&mut self)
        requires
            forall|a: int| FONTSET_SIZE <= a < RAM_SIZE ==> old(self)@[a] == 0,
        ensures
            final(self)@ == initial_memory(),
    {
        let mut k: usize = 0;
        while k < FONTSET_SIZE
            invariant
                k <= FONTSET_SIZE,
                self@.len() == RAM_SIZE,
                forall|a: int| 0 <= a < k ==> self@[a] == FONTSET@[a],
                forall|a: int| FONTSET_SIZE <= a < RAM_SIZE ==> self@[a] == 0,
            decreases FONTSET_SIZE - k,
        {
            self.memory[k] = FONTSET[k];
            k = k + 1;
        }
        assert(self@ =~= initial_memory());
    }

    /// The instruction word at `index`: the byte there is the high half, the next the low half.
    pub fn fetch_opcode(&self, index: usize) -> (r: Result<u16, Chip8Error>)
        ensures
            index + 1 < RAM_SIZE ==> r == Ok::<u16, Chip8Error>(word_at(self@, index as int)),
            index + 1 >= RAM_SIZE ==> r == Err::<u16, Chip8Error>(Chip8Error::AddressOutOfRange),
    {
        if index < RAM_SIZE - 1 {
            let high = self.memory[index] as u16;
            let low = self.memory[index + 1] as u16;
            assert((high << 8u16) | low == high * 256 + low) by (bit_vector)
                requires
                    high < 256,
                    low < 256,
            ;
            Ok((high << 8u16) | low)
        } else {
            Err(Chip8Error::AddressOutOfRange)
        }
    }

    pub fn read_byte(&self, index: usize) -> (r: Result<u8, Chip8Error>)
        ensures
            index < RAM_SIZE ==> r == Ok::<u8, Chip8Error>(self@[index as int]),
            index >= RAM_SIZE ==> r == Err::<u8, Chip8Error>(Chip8Error::AddressOutOfRange),
    {
        if index < RAM_SIZE {
            Ok(self.memory[index])
        } else {
            Err(Chip8Error::AddressOutOfRange)
        }
    }

    pub fn write_byte(&mut self, index: usize, value: u8) -> (r: Result<(), Chip8Error>)
        ensures
            index < RAM_SIZE ==> {
                &&& r == Ok::<(), Chip8Error>(())
                &&& final(self)@ == old(self)@.update(index as int, value)
            },
            index >= RAM_SIZE ==> {
                &&& r == Err::<(), Chip8Error>(Chip8Error::AddressOutOfRange)
                &&& final(self)@ == old(self)@
            },
    {
        if index < RAM_SIZE {
            self.memory[index] = value;
            Ok(())
        } else {
            Err(Chip8Error::AddressOutOfRange)
        }
    }

    /// Copies a program image to the addresses from `START_ADDRESS` on; the
    /// rest of memory keeps its bytes.
    pub fn load_rom(&mut self, rom: &[u8]) -> (r: Result<(), Chip8Error>)
        ensures
            program_fits(rom@.len() as int) ==> {
                &&& r == Ok::<(), Chip8Error>(())
                &&& final(self)@ == with_program(old(self)@, rom@)
            },
            !program_fits(rom@.len() as int) ==> {
                &&& r == Err::<(), Chip8Error>(Chip8Error::ProgramTooLarge)
                &&& final(self)@ == old(self)@
            },
    {
        let start = START_ADDRESS as usize;
        if rom.len() > RAM_SIZE - start {
            return Err(Chip8Error::ProgramTooLarge);
        }
        let mut k: usize = 0;
        while k < rom.len()
            invariant
                start == START_ADDRESS,
                start + rom@.len() <= RAM_SIZE,
                k <= rom@.len(),
                self@.len() == RAM_SIZE,
                forall|a: int|
                    #![trigger self@[a]]
                    0 <= a < RAM_SIZE ==> self@[a] == (if start <= a < start + k {
                        rom@[a - start]
                    } else {
                        old(self)@[a]
                    }),
            decreases rom@.len() - k,
        {
            self.memory[start + k] = rom[k];
            k = k + 1;
        }
        assert(self@ =~= with_program(old(self)@, rom@));
        Ok(())
    }
}

} // verus!
