//! Splitting a 16-bit instruction word into its fields, and decoding it into
//! an [`Instruction`].
use vstd::prelude::*;

use crate::error::Chip8Error;

verus! {

/// The top nibble of `w`: the instruction's family.
pub open spec fn family(w: u16) -> int {
    w as int / 0x1000
}

/// The second nibble of `w`: the register `x`.
pub open spec fn nib_x(w: u16) -> int {
    (w as int / 0x100) % 0x10
}

/// The third nibble of `w`: the register `y`.
pub open spec fn nib_y(w: u16) -> int {
    (w as int / 0x10) % 0x10
}

/// The lowest nibble of `w`: `n`.
pub open spec fn nib_n(w: u16) -> int {
    w as int % 0x10
}

/// The low byte of `w`: `kk`.
pub open spec fn low_byte(w: u16) -> int {
    w as int % 0x100
}

/// The low twelve bits of `w`: the address `nnn`.
pub open spec fn address(w: u16) -> int {
    w as int % 0x1000
}

/// Selects a field of an instruction word.
#[derive(Debug, Clone, Copy, PartialEq, Eq, Structural)]
pub enum Nibble {
    /// The second nibble (`x`).
    Second,
    /// The third nibble (`y`).
    Third,
    /// The last nibble (`n`).
    Last,
    /// The low byte (`kk`).
    Byte,
    /// The low twelve bits (`nnn`).
    Address,
}

/// The field `nib` of the instruction word `addr`.
pub fn g_nib(nib: Nibble, addr: u16) -> (r: u16)
    ensures
        r == match nib {
            Nibble::Second => nib_x(addr),
            Nibble::Third => nib_y(addr),
            Nibble::Last => nib_n(addr),
            Nibble::Byte => low_byte(addr),
            Nibble::Address => address(addr),
        },
{
    assert((addr >> 8) & 0xF == (addr / 0x100) % 0x10) by (bit_vector);
    assert((addr >> 4) & 0xF == (addr / 0x10) % 0x10) by (bit_vector);
    assert(addr & 0xF == addr % 0x10) by (bit_vector);
    assert(addr & 0xFF == addr % 0x100) by (bit_vector);
    assert(addr & 0xFFF == addr % 0x1000) by (bit_vector);
    match nib {
        Nibble::Second => (addr >> 8) & 0xF,
        Nibble::Third => (addr >> 4) & 0xF,
        Nibble::Last => addr & 0xF,
        Nibble::Byte => addr & 0xFF,
        Nibble::Address => addr & 0xFFF,
    }
}

/// Nibble number `n` of `addr`, counted from the most significant one;
/// any `n` above 2 selects the last nibble.
pub fn get_nibble(n: u8, addr: u16) -> (r: u16)
    ensures
        r == if n == 0 {
            family(addr)
        } else if n == 1 {
            nib_x(addr)
        } else if n == 2 {
            nib_y(addr)
        } else {
            nib_n(addr)
        },
{
    assert((addr & 0xF000) >> 12 == addr / 0x1000) by (bit_vector);
    assert((addr & 0x0F00) >> 8 == (addr / 0x100) % 0x10) by (bit_vector);
    assert((addr & 0x00F0) >> 4 == (addr / 0x10) % 0x10) by (bit_vector);
    assert(addr & 0x000F == addr % 0x10) by (bit_vector);
    match n {
        0 => (addr & 0xF000) >> 12,
        1 => (addr & 0x0F00) >> 8,
        2 => (addr & 0x00F0) >> 4,
        _ => addr & 0x000F,
    }
}

/// All fields of an instruction word at once:
/// (family, last nibble, x, y, n, kk, nnn).
pub fn get_bits(addr: u16) -> (r: (u8, u8, u8, u8, u8, u8, u16))
    ensures
        r.0 == family(addr),
        r.1 == nib_n(addr),
        r.2 == nib_x(addr),
        r.3 == nib_y(addr),
        r.4 == nib_n(addr),
        r.5 == low_byte(addr),
        r.6 == address(addr),
{
    assert((addr & 0xF000) >> 12 == addr / 0x1000 && addr / 0x1000 < 0x10) by (bit_vector);
    assert((addr >> 8) & 0xf == (addr / 0x100) % 0x10) by (bit_vector);
    assert((addr >> 4) & 0xf == (addr / 0x10) % 0x10) by (bit_vector);
    assert(addr & 0xf == addr % 0x10) by (bit_vector);
    assert(addr & 0xff == addr % 0x100) by (bit_vector);
    assert(addr & 0xFFF == addr % 0x1000) by (bit_vector);
    (
        ((addr & 0xF000) >> 12) as u8,
        (addr & 0xF) as u8,
        ((addr >> 8) & 0xf) as u8,
        ((addr >> 4) & 0xf) as u8,
        (addr & 0xf) as u8,
        (addr & 0xff) as u8,
        addr & 0xFFF,
    )
}

/// One decoded instruction. Register operands are register indices, `u16`
/// operands are addresses, and the names follow the usual mnemonics.
#[derive(Debug, Clone, Copy, PartialEq, Eq, Structural)]
pub enum Instruction {
    /// `0nnn`: call a native routine; ignored.
    Sys(u16),
    /// `00E0`: clear the screen.
    Cls,
    /// `00EE`: return from a subroutine.
    Ret,
    /// `1nnn`: jump to `nnn`.
    Jp(u16),
    /// `2nnn`: call the subroutine at `nnn`.
    Call(u16),
    /// `3xkk`: skip if `Vx == kk`.
    Se(u8, u8),
    /// `4xkk`: skip if `Vx != kk`.
    Sne(u8, u8),
    /// `5xy0`: skip if `Vx == Vy`.
    Ser(u8, u8),
    /// `6xkk`: `Vx = kk`.
    Ld(u8, u8),
    /// `7xkk`: `Vx = Vx + kk`, wrapping, no flag.
    Add(u8, u8),
    /// `8xy0`: `Vx = Vy`.
    Ldr(u8, u8),
    /// `8xy1`: `Vx = Vx | Vy`.
    Or(u8, u8),
    /// `8xy2`: `Vx = Vx & Vy`.
    And(u8, u8),
    /// `8xy3`: `Vx = Vx ^ Vy`.
    Xor(u8, u8),
    /// `8xy4`: `Vx = Vx + Vy`, `VF` = carry.
    Addr(u8, u8),
    /// `8xy5`: `Vx = Vx - Vy`, `VF` = no borrow.
    Sub(u8, u8),
    /// `8xy6`: `Vx = Vx >> 1`, `VF` = the bit shifted out.
    Shr(u8, u8),
    /// `8xy7`: `Vx = Vy - Vx`, `VF` = no borrow.
    Subn(u8, u8),
    /// `8xyE`: `Vx = Vx << 1`, `VF` = the bit shifted out.
    Shl(u8, u8),
    /// `9xy0`: skip if `Vx != Vy`.
    Sner(u8, u8),
    /// `Annn`: `I = nnn`.
    Ldi(u16),
    /// `Bnnn`: jump to `nnn + V0`.
    Jpo(u16),
    /// `Cxkk`: `Vx` = random byte `& kk`.
    Rnd(u8, u8),
    /// `Dxyn`: draw an `n`-row sprite from `I` at `(Vx, Vy)`.
    Drw(u8, u8, u8),
    /// `Ex9E`: skip if key `Vx` is down.
    Skpk(u8),
    /// `ExA1`: skip if key `Vx` is up.
    Sknpk(u8),
    /// `Fx07`: `Vx` = delay timer.
    Ldt(u8),
    /// `Fx0A`: wait for a key and store it in `Vx`.
    Ldk(u8),
    /// `Fx15`: delay timer = `Vx`.
    Ldd(u8),
    /// `Fx18`: sound timer = `Vx`.
    Lds(u8),
    /// `Fx1E`: `I = I + Vx`.
    Addi(u8),
    /// `Fx29`: `I` = address of the font glyph for `Vx`.
    Ldf(u8),
    /// `Fx33`: store the decimal digits of `Vx` at `I`, `I+1`, `I+2`.
    Ldb(u8),
    /// `Fx55`: store `V0..=Vx` at `I`.
    Ldix(u8),
    /// `Fx65`: load `V0..=Vx` from `I`.
    Ldrx(u8),
}

impl Instruction {
    /// Every operand is in the range its field allows: registers and `n`
    /// below 16, addresses below 4096.
    pub open spec fn wf(self) -> bool {
        match self {
            Instruction::Sys(a) | Instruction::Jp(a) | Instruction::Call(a) | Instruction::Ldi(a)
            | Instruction::Jpo(a) => a < 0x1000,
            Instruction::Cls | Instruction::Ret => true,
            Instruction::Se(x, _) | Instruction::Sne(x, _) | Instruction::Ld(x, _)
            | Instruction::Add(x, _) | Instruction::Rnd(x, _) => x < 16,
            Instruction::Ser(x, y) | Instruction::Ldr(x, y) | Instruction::Or(x, y)
            | Instruction::And(x, y) | Instruction::Xor(x, y) | Instruction::Addr(x, y)
            | Instruction::Sub(x, y) | Instruction::Shr(x, y) | Instruction::Subn(x, y)
            | Instruction::Shl(x, y) | Instruction::Sner(x, y) => x < 16 && y < 16,
            Instruction::Drw(x, y, n) => x < 16 && y < 16 && n < 16,
            Instruction::Skpk(x) | Instruction::Sknpk(x) | Instruction::Ldt(x)
            | Instruction::Ldk(x) | Instruction::Ldd(x) | Instruction::Lds(x)
            | Instruction::Addi(x) | Instruction::Ldf(x) | Instruction::Ldb(x)
            | Instruction::Ldix(x) | Instruction::Ldrx(x) => x < 16,
        }
    }
}

/// What the word `w` decodes to: its family picks the instruction, and in
/// families 8, E and F the last nibble or the low byte picks further; a
/// combination that names nothing is an error.
pub open spec fn decode_spec(w: u16) -> Result<Instruction, Chip8Error> {
    let f = family(w);
    let x = nib_x(w) as u8;
    let y = nib_y(w) as u8;
    let n = nib_n(w) as u8;
    let kk = low_byte(w) as u8;
    let nnn = address(w) as u16;
    if f == 0x0 {
        if w == 0x00E0 {
            Ok(Instruction::Cls)
        } else if w == 0x00EE {
            Ok(Instruction::Ret)
        } else {
            Ok(Instruction::Sys(nnn))
        }
    } else if f == 0x1 {
        Ok(Instruction::Jp(nnn))
    } else if f == 0x2 {
        Ok(Instruction::Call(nnn))
    } else if f == 0x3 {
        Ok(Instruction::Se(x, kk))
    } else if f == 0x4 {
        Ok(Instruction::Sne(x, kk))
    } else if f == 0x5 {
        Ok(Instruction::Ser(x, y))
    } else if f == 0x6 {
        Ok(Instruction::Ld(x, kk))
    } else if f == 0x7 {
        Ok(Instruction::Add(x, kk))
    } else if f == 0x8 {
        if n == 0x0 {
            Ok(Instruction::Ldr(x, y))
        } else if n == 0x1 {
            Ok(Instruction::Or(x, y))
        } else if n == 0x2 {
            Ok(Instruction::And(x, y))
        } else if n == 0x3 {
            Ok(Instruction::Xor(x, y))
        } else if n == 0x4 {
            Ok(Instruction::Addr(x, y))
        } else if n == 0x5 {
            Ok(Instruction::Sub(x, y))
        } else if n == 0x6 {
            Ok(Instruction::Shr(x, y))
        } else if n == 0x7 {
            Ok(Instruction::Subn(x, y))
        } else if n == 0xE {
            Ok(Instruction::Shl(x, y))
        } else {
            Err(Chip8Error::UnknownInstruction(w))
        }
    } else if f == 0x9 {
        Ok(Instruction::Sner(x, y))
    } else if f == 0xA {
        Ok(Instruction::Ldi(nnn))
    } else if f == 0xB {
        Ok(Instruction::Jpo(nnn))
    } else if f == 0xC {
        Ok(Instruction::Rnd(x, kk))
    } else if f == 0xD {
        Ok(Instruction::Drw(x, y, n))
    } else if f == 0xE {
        if kk == 0x9E {
            Ok(Instruction::Skpk(x))
        } else if kk == 0xA1 {
            Ok(Instruction::Sknpk(x))
        } else {
            Err(Chip8Error::UnknownInstruction(w))
        }
    } else {
        if kk == 0x07 {
            Ok(Instruction::Ldt(x))
        } else if kk == 0x0A {
            Ok(Instruction::Ldk(x))
        } else if kk == 0x15 {
            Ok(Instruction::Ldd(x))
        } else if kk == 0x18 {
            Ok(Instruction::Lds(x))
        } else if kk == 0x1E {
            Ok(Instruction::Addi(x))
        } else if kk == 0x29 {
            Ok(Instruction::Ldf(x))
        } else if kk == 0x33 {
            Ok(Instruction::Ldb(x))
        } else if kk == 0x55 {
            Ok(Instruction::Ldix(x))
        } else if kk == 0x65 {
            Ok(Instruction::Ldrx(x))
        } else {
            Err(Chip8Error::UnknownInstruction(w))
        }
    }
}

/// Whatever a word decodes to is well formed: its fields are in range.
pub proof fn lemma_decode_wf(w: u16)
    ensures
        decode_spec(w) is Ok ==> decode_spec(w)->Ok_0.wf(),
{
}

/// Decodes the instruction word `w`.
pub fn decode(w: u16) -> (r: Result<Instruction, Chip8Error>)
    ensures
        r == decode_spec(w),
        r is Ok ==> r->Ok_0.wf(),
{
    let (first, last, x, y, n, kk, nnn) = get_bits(w);
    match first {
        0x0 => match w {
            0x00E0 => Ok(Instruction::Cls),
            0x00EE => Ok(Instruction::Ret),
            _ => Ok(Instruction::Sys(nnn)),
        },
        0x1 => Ok(Instruction::Jp(nnn)),
        0x2 => Ok(Instruction::Call(nnn)),
        0x3 => Ok(Instruction::Se(x, kk)),
        0x4 => Ok(Instruction::Sne(x, kk)),
        0x5 => Ok(Instruction::Ser(x, y)),
        0x6 => Ok(Instruction::Ld(x, kk)),
        0x7 => Ok(Instruction::Add(x, kk)),
        0x8 => match last {
            0x0 => Ok(Instruction::Ldr(x, y)),
            0x1 => Ok(Instruction::Or(x, y)),
            0x2 => Ok(Instruction::And(x, y)),
            0x3 => Ok(Instruction::Xor(x, y)),
            0x4 => Ok(Instruction::Addr(x, y)),
            0x5 => Ok(Instruction::Sub(x, y)),
            0x6 => Ok(Instruction::Shr(x, y)),
            0x7 => Ok(Instruction::Subn(x, y)),
            0xE => Ok(Instruction::Shl(x, y)),
            _ => Err(Chip8Error::UnknownInstruction(w)),
        },
        0x9 => Ok(Instruction::Sner(x, y)),
        0xA => Ok(Instruction::Ldi(nnn)),
        0xB => Ok(Instruction::Jpo(nnn)),
        0xC => Ok(Instruction::Rnd(x, kk)),
        0xD => Ok(Instruction::Drw(x, y, n)),
        0xE => match kk {
            0x9E => Ok(Instruction::Skpk(x)),
            0xA1 => Ok(Instruction::Sknpk(x)),
            _ => Err(Chip8Error::UnknownInstruction(w)),
        },
        _ => match kk {
            0x07 => Ok(Instruction::Ldt(x)),
            0x0A => Ok(Instruction::Ldk(x)),
            0x15 => Ok(Instruction::Ldd(x)),
            0x18 => Ok(Instruction::Lds(x)),
            0x1E => Ok(Instruction::Addi(x)),
            0x29 => Ok(Instruction::Ldf(x)),
            0x33 => Ok(Instruction::Ldb(x)),
            0x55 => Ok(Instruction::Ldix(x)),
            0x65 => Ok(Instruction::Ldrx(x)),
            _ => Err(Chip8Error::UnknownInstruction(w)),
        },
    }
}

} // verus!
