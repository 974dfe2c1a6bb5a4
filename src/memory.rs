use vstd::prelude::*;

verus! {

/// Number of addressable bytes.
pub const MEMORY_SIZE: usize = 4096;

/// Address at which a program image is loaded.
pub const MEMORY_START_OFFSET: usize = 0x200;

/// Number of bytes taken by the built-in glyph font (16 glyphs of 5 rows).
pub const FONT_SIZE: usize = 80;

/// The built-in glyph font: five rows per hexadecimal digit, 0 to F.
pub open spec fn font_seq() -> Seq<u8> {
    seq![
        0xF0u8, 0x90, 0x90, 0x90, 0xF0, // 0
        0x20, 0x60, 0x20, 0x20, 0x70, // 1
        0xF0, 0x10, 0xF0, 0x80, 0xF0, // 2
        0xF0, 0x10, 0xF0, 0x10, 0xF0, // 3
        0x90, 0x90, 0xF0, 0x10, 0x10, // 4
        0xF0, 0x80, 0xF0, 0x10, 0xF0, // 5
        0xF0, 0x80, 0xF0, 0x90, 0xF0, // 6
        0xF0, 0x10, 0x20, 0x40, 0x40, // 7
        0xF0, 0x90, 0xF0, 0x90, 0xF0, // 8
        0xF0, 0x90, 0xF0, 0x10, 0xF0, // 9
        0xF0, 0x90, 0xF0, 0x90, 0x90, // A
        0xE0, 0x90, 0xE0, 0x90, 0xE0, // B
        0xF0, 0x80, 0x80, 0x80, 0xF0, // C
        0xE0, 0x90, 0x90, 0x90, 0xE0, // D
        0xF0, 0x80, 0xF0, 0x80, 0xF0, // E
        0xF0, 0x80, 0xF0, 0x80, 0x80, // F
    ]
}

/// The memory image built from a program: the font at the bottom, the program
/// at `MEMORY_START_OFFSET`, zero everywhere else.
pub open spec fn rom_image(rom: Seq<u8>) -> Seq<u8> {
    Seq::new(
        MEMORY_SIZE as nat,
        |a: int|
            if a < FONT_SIZE {
                font_seq()[a]
            } else if MEMORY_START_OFFSET <= a < MEMORY_START_OFFSET + rom.len() {
                rom[a - MEMORY_START_OFFSET]
            } else {
                0u8
            },
    )
}

fn font() -> (r: [u8; FONT_SIZE])
    ensures
        r@ == font_seq(),
{
    let r: [u8; FONT_SIZE] = [
        0xF0, 0x90, 0x90, 0x90, 0xF0, 0x20, 0x60, 0x20, 0x20, 0x70,
        0xF0, 0x10, 0xF0, 0x80, 0xF0, 0xF0, 0x10, 0xF0, 0x10, 0xF0,
        0x90, 0x90, 0xF0, 0x10, 0x10, 0xF0, 0x80, 0xF0, 0x10, 0xF0,
        0xF0, 0x80, 0xF0, 0x90, 0xF0, 0xF0, 0x10, 0x20, 0x40, 0x40,
        0xF0, 0x90, 0xF0, 0x90, 0xF0, 0xF0, 0x90, 0xF0, 0x10, 0xF0,
        0xF0, 0x90, 0xF0, 0x90, 0x90, 0xE0, 0x90, 0xE0, 0x90, 0xE0,
        0xF0, 0x80, 0x80, 0x80, 0xF0, 0xE0, 0x90, 0x90, 0x90, 0xE0,
        0xF0, 0x80, 0xF0, 0x80, 0xF0, 0xF0, 0x80, 0xF0, 0x80, 0x80,
    ];
    assert(r@ =~= font_seq());
    r
}

/// The machine's byte-addressed memory.
pub struct Memory {
    memory: [u8; MEMORY_SIZE],
}

impl View for Memory {
    type V = Seq<u8>;

    closed spec fn view(&self) -> Seq<u8> {
        self.memory@
    }
}

impl Memory {
    /// The length of the view is always `MEMORY_SIZE`.
    pub proof fn lemma_len(&self)
        ensures
            self@.len() == MEMORY_SIZE,
    {
    }

    /// Memory with every cell zero.
    pub fn new() -> (r: Self)
        ensures
            r@ == Seq::new(MEMORY_SIZE as nat, |a: int| 0u8),
    {
        let r = Memory { memory: [0u8; MEMORY_SIZE] };
        assert(r@ =~= Seq::new(MEMORY_SIZE as nat, |a: int| 0u8));
        r
    }

    /// Memory holding the glyph font at address 0 and `rom` at
    /// `MEMORY_START_OFFSET`; a program larger than the space above that
    /// address cannot be loaded.
    pub fn from_rom(rom: &[u8]) -> (r: Self)
        requires
            rom@.len() <= MEMORY_SIZE - MEMORY_START_OFFSET,
        ensures
            r@ == rom_image(rom@),
    {
        let mut mem = Memory::new();
        let glyphs = font();
        let mut k: usize = 0;
        while k < FONT_SIZE
            invariant
                k <= FONT_SIZE,
                glyphs@ == font_seq(),
                mem@.len() == MEMORY_SIZE,
                forall|a: int| 0 <= a < k ==> mem@[a] == font_seq()[a],
                forall|a: int| k <= a < MEMORY_SIZE ==> mem@[a] == 0,
            decreases FONT_SIZE - k,
        {
            mem.memory[k] = glyphs[k];
            k = k + 1;
        }
        let mut j: usize = 0;
        while j < rom.len()
            invariant
                j <= rom@.len(),
                rom@.len() <= MEMORY_SIZE - MEMORY_START_OFFSET,
                mem@.len() == MEMORY_SIZE,
                forall|a: int| 0 <= a < FONT_SIZE ==> mem@[a] == font_seq()[a],
                forall|a: int|
                    MEMORY_START_OFFSET <= a < MEMORY_START_OFFSET + j ==> mem@[a] == rom@[a
                        - MEMORY_START_OFFSET],
                forall|a: int|
                    FONT_SIZE <= a < MEMORY_SIZE && !(MEMORY_START_OFFSET <= a
                        < MEMORY_START_OFFSET + j) ==> mem@[a] == 0,
            decreases rom@.len() - j,
        {
            mem.memory[MEMORY_START_OFFSET + j] = rom[j];
            j = j + 1;
        }
        assert(mem@ =~= rom_image(rom@));
        mem
    }

    /// The byte at `addr`.
    pub fn read(&self, addr: u16) -> (r: u8)
        requires
            (addr as int) < MEMORY_SIZE,
        ensures
            r == self@[addr as int],
    {
        self.memory[addr as usize]
    }

    /// Stores `value` at `addr`.
    pub fn write(&mut self, addr: u16, value: u8)
        requires
            (addr as int) < MEMORY_SIZE,
        ensures
            final(self)@ == old(self)@.update(addr as int, value),
    {
        self.memory[addr as usize] = value;
    }
}

} // verus!
