use vstd::prelude::*;

verus! {

/// A decoded instruction. Register operands are indices into V0..VF.
#[derive(Debug, Clone, Copy, PartialEq, Eq, Structural)]
pub enum Instruction {
    /// Clear the display.
    CLS,
    /// Return from a subroutine.
    RET,
    /// Jump to an address.
    JP(u16),
    /// Vx := kk.
    LD(u8, u8),
    /// Vx := Vx + kk, wrapping.
    ADD(u8, u8),
    /// Call the subroutine at an address.
    CALL(u16),
    /// Skip the next instruction if Vx == kk.
    SE(u8, u8),
    /// Skip the next instruction if Vx != kk.
    SNE(u8, u8),
    /// Vx := Vy.
    LDR(u8, u8),
    /// Vx := Vx ^ Vy.
    XOR(u8, u8),
    /// Vx := Vx & Vy.
    AND(u8, u8),
    /// I := address.
    LDI(u16),
    /// Draw an n-row sprite from memory at I at (Vx, Vy).
    DRW(u8, u8, u8),
    /// Store the decimal digits of Vx at I, I+1 and I+2.
    LDB(u8),
    /// Load the registers below Vx from memory starting at I.
    LDV(u8),
    /// I := address of the glyph for the digit in Vx.
    LDF(u8),
    /// Store the registers below Vx in memory starting at I.
    LDRM(u8),
    /// Delay timer := Vx.
    LDDT(u8),
    /// Sound timer := Vx.
    LDST(u8),
    /// Vx := a random byte & kk.
    RND(u8, u8),
    /// Vx := delay timer.
    DTLD(u8),
    /// I := I + Vx.
    ADDI(u8),
    /// Vx := Vx + Vy unless that overflows, in which case VF := 1.
    ADDC(u8, u8),
    /// If Vx > Vy then VF := 1 and Vx := Vx - Vy.
    SUB(u8, u8),
    /// A word that is not in the instruction set, as fetched.
    Unknown(u8, u8),
}

impl Instruction {
    /// Every register operand names one of the 16 registers, and a sprite
    /// has at most 15 rows: true of everything `decode` returns.
    pub open spec fn wf(self) -> bool {
        match self {
            Instruction::LD(x, _) | Instruction::ADD(x, _) | Instruction::SE(x, _)
            | Instruction::SNE(x, _) | Instruction::RND(x, _) => x < 16,
            Instruction::LDR(x, y) | Instruction::XOR(x, y) | Instruction::AND(x, y)
            | Instruction::ADDC(x, y) | Instruction::SUB(x, y) => x < 16 && y < 16,
            Instruction::DRW(x, y, n) => x < 16 && y < 16 && n < 16,
            Instruction::LDB(x) | Instruction::LDV(x) | Instruction::LDF(x)
            | Instruction::LDRM(x) | Instruction::LDDT(x) | Instruction::LDST(x)
            | Instruction::DTLD(x) | Instruction::ADDI(x) => x < 16,
            _ => true,
        }
    }
}

/// The instruction that the word `high, low` encodes. The opcode is the high
/// nibble of `high`; `x` is its low nibble, `y` the high nibble of `low`, `n`
/// the low nibble of `low`, and the address the low twelve bits of the word.
pub open spec fn decode_spec(high: u8, low: u8) -> Instruction {
    let op = high / 16;
    let x = high % 16;
    let y = low / 16;
    let n = low % 16;
    let addr = ((high % 16) as int * 256 + low as int) as u16;
    if op == 0x0 && low == 0xE0 {
        Instruction::CLS
    } else if op == 0x0 && low == 0xEE {
        Instruction::RET
    } else if op == 0x1 {
        Instruction::JP(addr)
    } else if op == 0x2 {
        Instruction::CALL(addr)
    } else if op == 0x3 {
        Instruction::SE(x, low)
    } else if op == 0x4 {
        Instruction::SNE(x, low)
    } else if op == 0x6 {
        Instruction::LD(x, low)
    } else if op == 0x7 {
        Instruction::ADD(x, low)
    } else if op == 0x8 && n == 0x0 {
        Instruction::LDR(x, y)
    } else if op == 0x8 && n == 0x2 {
        Instruction::AND(x, y)
    } else if op == 0x8 && n == 0x3 {
        Instruction::XOR(x, y)
    } else if op == 0x8 && n == 0x4 {
        Instruction::ADDC(x, y)
    } else if op == 0x8 && n == 0x5 {
        Instruction::SUB(x, y)
    } else if op == 0xA {
        Instruction::LDI(addr)
    } else if op == 0xC {
        Instruction::RND(x, low)
    } else if op == 0xD {
        Instruction::DRW(x, y, n)
    } else if op == 0xF && low == 0x07 {
        Instruction::DTLD(x)
    } else if op == 0xF && low == 0x15 {
        Instruction::LDDT(x)
    } else if op == 0xF && low == 0x18 {
        Instruction::LDST(x)
    } else if op == 0xF && low == 0x1E {
        Instruction::ADDI(x)
    } else if op == 0xF && low == 0x29 {
        Instruction::LDF(x)
    } else if op == 0xF && low == 0x33 {
        Instruction::LDB(x)
    } else if op == 0xF && low == 0x55 {
        Instruction::LDRM(x)
    } else if op == 0xF && low == 0x65 {
        Instruction::LDV(x)
    } else {
        Instruction::Unknown(high, low)
    }
}

/// Decodes the word `high, low`; words outside the instruction set become
/// `Unknown`.
pub fn decode_word(high: u8, low: u8) -> (r: Instruction)
    ensures
        r == decode_spec(high, low),
        r.wf(),
{
    let code = high >> 4;
    let reg = high & 0xf;
    let addr: u16 = ((high as u16 & 0xf) << 8u16) | low as u16;
    assert(high >> 4 == high / 16 && high & 0xf == high % 16) by (bit_vector);
    assert(addr == (high % 16) as u16 * 256 + low as u16) by (bit_vector)
        requires
            addr == ((high as u16 & 0xf) << 8u16) | low as u16,
    ;
    match code {
        0x0 => match low {
            0xe0 => Instruction::CLS,
            0xee => Instruction::RET,
            _ => Instruction::Unknown(high, low),
        },
        0x1 => Instruction::JP(addr),
        0x2 => Instruction::CALL(addr),
        0x3 => Instruction::SE(reg, low),
        0x4 => Instruction::SNE(reg, low),
        0x6 => Instruction::LD(reg, low),
        0x7 => Instruction::ADD(reg, low),
        0x8 => {
            let variant = low & 0xf;
            let y = low >> 4;
            assert(low & 0xf == low % 16 && low >> 4 == low / 16) by (bit_vector);
            match variant {
                0x0 => Instruction::LDR(reg, y),
                0x2 => Instruction::AND(reg, y),
                0x3 => Instruction::XOR(reg, y),
                0x4 => Instruction::ADDC(reg, y),
                0x5 => Instruction::SUB(reg, y),
                _ => Instruction::Unknown(high, low),
            }
        },
        0xa => Instruction::LDI(addr),
        0xc => Instruction::RND(reg, low),
        0xd => {
            let y = low >> 4;
            let n = low & 0xf;
            assert(low & 0xf == low % 16 && low >> 4 == low / 16) by (bit_vector);
            Instruction::DRW(reg, y, n)
        },
        0xf => match low {
            0x07 => Instruction::DTLD(reg),
            0x15 => Instruction::LDDT(reg),
            0x18 => Instruction::LDST(reg),
            0x33 => Instruction::LDB(reg),
            0x1e => Instruction::ADDI(reg),
            0x29 => Instruction::LDF(reg),
            0x55 => Instruction::LDRM(reg),
            0x65 => Instruction::LDV(reg),
            _ => Instruction::Unknown(high, low),
        },
        _ => Instruction::Unknown(high, low),
    }
}

} // verus!
