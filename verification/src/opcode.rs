//! The instruction set and its decoder.

use vstd::prelude::*;

verus! {

/// One decoded instruction.
///
/// In the comments `x` and `y` are register numbers, `kk` is a byte, `nnn` a
/// 12-bit address and `n` a nibble. Such operands are held in wider integers
/// than they need; [`OpCode::well_formed`] says which values they take.
#[derive(Debug, PartialEq, Eq, Copy, Clone, Structural)]
pub enum OpCode {
    /// `00E0`: clear the screen.
    Cls,
    /// `00EE`: return from a subroutine.
    Ret,
    /// `1nnn`: jump to `nnn`.
    Jp(u16),
    /// `2nnn`: call the subroutine at `nnn`.
    Call(u16),
    /// `3xkk`: skip the next instruction if `Vx == kk`.
    SeVx(u8, u16),
    /// `4xkk`: skip the next instruction if `Vx != kk`.
    SNeVx(u8, u16),
    /// `5xy0`: skip the next instruction if `Vx == Vy`.
    SeVxVy(u8, u8),
    /// `6xkk`: set `Vx` to `kk`.
    LdVx(u8, u16),
    /// `7xkk`: add `kk` to `Vx`, wrapping, without touching the flag.
    AddVx(u8, u16),
    /// `8xy0`: set `Vx` to `Vy`.
    LdVxVy(u8, u8),
    /// `8xy1`: set `Vx` to `Vx | Vy`.
    Or(u8, u8),
    /// `8xy2`: set `Vx` to `Vx & Vy`.
    And(u8, u8),
    /// `8xy3`: set `Vx` to `Vx ^ Vy`.
    Xor(u8, u8),
    /// `8xy4`: add `Vy` to `Vx`; `VF` tells whether the sum overflowed.
    Add(u8, u8),
    /// `8xy5`: subtract `Vy` from `Vx`; `VF` tells whether it borrowed.
    Sub(u8, u8),
    /// `8xy6`: shift `Vx` right by one; `VF` gets the bit shifted out.
    Shr(u8),
    /// `8xy7`: set `Vx` to `Vy - Vx`; `VF` tells whether it borrowed.
    SubN(u8, u8),
    /// `8xyE`: shift `Vx` left by one; `VF` gets the bit shifted out.
    Shl(u8),
    /// `9xy0`: skip the next instruction if `Vx != Vy`.
    SeNeVxVy(u8, u8),
    /// `Annn`: set the index register to `nnn`.
    LdI(u16),
    /// `Bnnn`: jump to `nnn + V0`.
    JpV0(u16),
    /// `Cxkk`: set `Vx` to a random byte masked with `kk`.
    Rnd(u8, u8),
    /// `Dxyn`: draw the `n`-row sprite at the index register at `(Vx, Vy)`.
    Drw(u8, u8, u8),
    /// `Ex9E`: skip the next instruction if the key `Vx` is down.
    Skp(u8),
    /// `ExA1`: skip the next instruction if the key `Vx` is up.
    SkNp(u8),
    /// `Fx07`: set `Vx` to the delay timer.
    LdVxDt(u8),
    /// `Fx0A`: wait for a key and put its number in `Vx`.
    LdVxK(u8),
    /// `Fx15`: set the delay timer to `Vx`.
    LdDtVx(u8),
    /// `Fx18`: set the sound timer to `Vx`.
    LdStVx(u8),
    /// `Fx1E`: add `Vx` to the index register.
    AddIVx(u8),
    /// `Fx29`: point the index register at the glyph of the digit `Vx`.
    LdFVx(u8),
    /// `Fx33`: store the three decimal digits of `Vx` at the index register.
    LdBVx(u8),
    /// `Fx55`: store `V0..=Vx` at the index register.
    LdIVx(u8),
    /// `Fx65`: load `V0..=Vx` from the index register.
    LdVxI(u8),
    /// Two bytes that encode no instruction, kept as the 16-bit word they form.
    Invalid(u16),
}

/// The 16-bit word that two instruction bytes form, high byte first.
pub open spec fn word_of(hi: u8, lo: u8) -> u16 {
    (hi as int * 256 + lo as int) as u16
}

/// The register-to-register instruction `8xy?` selected by the nibble `tail`.
pub open spec fn decode_alu(x: u8, y: u8, tail: u8, raw: u16) -> OpCode {
    if tail == 0x0 {
        OpCode::LdVxVy(x, y)
    } else if tail == 0x1 {
        OpCode::Or(x, y)
    } else if tail == 0x2 {
        OpCode::And(x, y)
    } else if tail == 0x3 {
        OpCode::Xor(x, y)
    } else if tail == 0x4 {
        OpCode::Add(x, y)
    } else if tail == 0x5 {
        OpCode::Sub(x, y)
    } else if tail == 0x6 {
        OpCode::Shr(x)
    } else if tail == 0x7 {
        OpCode::SubN(x, y)
    } else if tail == 0xE {
        OpCode::Shl(x)
    } else {
        OpCode::Invalid(raw)
    }
}

/// The instruction `Fx??` selected by the low byte.
pub open spec fn decode_misc(x: u8, lo: u8, raw: u16) -> OpCode {
    if lo == 0x07 {
        OpCode::LdVxDt(x)
    } else if lo == 0x0A {
        OpCode::LdVxK(x)
    } else if lo == 0x15 {
        OpCode::LdDtVx(x)
    } else if lo == 0x18 {
        OpCode::LdStVx(x)
    } else if lo == 0x1E {
        OpCode::AddIVx(x)
    } else if lo == 0x29 {
        OpCode::LdFVx(x)
    } else if lo == 0x33 {
        OpCode::LdBVx(x)
    } else if lo == 0x55 {
        OpCode::LdIVx(x)
    } else if lo == 0x65 {
        OpCode::LdVxI(x)
    } else {
        OpCode::Invalid(raw)
    }
}

/// The instruction that the bytes `hi`, `lo` encode.
///
/// The high nibble of `hi` selects the family, its low nibble is `x`, the
/// nibbles of `lo` are `y` and `n`, `lo` itself is `kk`, and the low twelve
/// bits of the word are `nnn`. Families `0` and `8` are told apart by the last
/// nibble, families `E` and `F` by the low byte; whatever matches nothing is
/// [`OpCode::Invalid`].
pub open spec fn decode_spec(hi: u8, lo: u8) -> OpCode {
    let family = hi / 16;
    let x = (hi % 16) as u8;
    let y = (lo / 16) as u8;
    let n = (lo % 16) as u8;
    let nnn = (x as int * 256 + lo as int) as u16;
    let kk = lo as u16;
    let raw = word_of(hi, lo);
    if family == 0x0 {
        if n == 0x0 {
            OpCode::Cls
        } else if n == 0xE {
            OpCode::Ret
        } else {
            OpCode::Invalid(raw)
        }
    } else if family == 0x1 {
        OpCode::Jp(nnn)
    } else if family == 0x2 {
        OpCode::Call(nnn)
    } else if family == 0x3 {
        OpCode::SeVx(x, kk)
    } else if family == 0x4 {
        OpCode::SNeVx(x, kk)
    } else if family == 0x5 {
        OpCode::SeVxVy(x, y)
    } else if family == 0x6 {
        OpCode::LdVx(x, kk)
    } else if family == 0x7 {
        OpCode::AddVx(x, kk)
    } else if family == 0x8 {
        decode_alu(x, y, n, raw)
    } else if family == 0x9 {
        OpCode::SeNeVxVy(x, y)
    } else if family == 0xA {
        OpCode::LdI(nnn)
    } else if family == 0xB {
        OpCode::JpV0(nnn)
    } else if family == 0xC {
        OpCode::Rnd(x, lo)
    } else if family == 0xD {
        OpCode::Drw(x, y, n)
    } else if family == 0xE {
        if lo == 0x9E {
            OpCode::Skp(x)
        } else if lo == 0xA1 {
            OpCode::SkNp(x)
        } else {
            OpCode::Invalid(raw)
        }
    } else {
        decode_misc(x, lo, raw)
    }
}

/// The two bytes with `family` and `x` as the nibbles of the first and `lo` as
/// the second.
pub open spec fn pack(family: int, x: int, lo: int) -> (u8, u8) {
    ((family * 16 + x) as u8, lo as u8)
}

/// The two bytes with `family` as the first nibble and `nnn` as the other
/// three.
pub open spec fn pack_address(family: int, nnn: int) -> (u8, u8) {
    pack(family, nnn / 256, nnn % 256)
}

/// Two bytes that encode `op`, the first one first.
///
/// Where the instruction leaves a nibble of its encoding unused, that nibble
/// is 0, but for clearing the screen and returning, which are written `00E0`
/// and `00EE`.
pub open spec fn encoding(op: OpCode) -> (u8, u8) {
    match op {
        OpCode::Cls => pack(0x0, 0, 0xE0),
        OpCode::Ret => pack(0x0, 0, 0xEE),
        OpCode::Jp(nnn) => pack_address(0x1, nnn as int),
        OpCode::Call(nnn) => pack_address(0x2, nnn as int),
        OpCode::SeVx(x, kk) => pack(0x3, x as int, kk as int),
        OpCode::SNeVx(x, kk) => pack(0x4, x as int, kk as int),
        OpCode::SeVxVy(x, y) => pack(0x5, x as int, y * 16),
        OpCode::LdVx(x, kk) => pack(0x6, x as int, kk as int),
        OpCode::AddVx(x, kk) => pack(0x7, x as int, kk as int),
        OpCode::LdVxVy(x, y) => pack(0x8, x as int, y * 16 + 0x0),
        OpCode::Or(x, y) => pack(0x8, x as int, y * 16 + 0x1),
        OpCode::And(x, y) => pack(0x8, x as int, y * 16 + 0x2),
        OpCode::Xor(x, y) => pack(0x8, x as int, y * 16 + 0x3),
        OpCode::Add(x, y) => pack(0x8, x as int, y * 16 + 0x4),
        OpCode::Sub(x, y) => pack(0x8, x as int, y * 16 + 0x5),
        OpCode::Shr(x) => pack(0x8, x as int, 0x06),
        OpCode::SubN(x, y) => pack(0x8, x as int, y * 16 + 0x7),
        OpCode::Shl(x) => pack(0x8, x as int, 0x0E),
        OpCode::SeNeVxVy(x, y) => pack(0x9, x as int, y * 16),
        OpCode::LdI(nnn) => pack_address(0xA, nnn as int),
        OpCode::JpV0(nnn) => pack_address(0xB, nnn as int),
        OpCode::Rnd(x, kk) => pack(0xC, x as int, kk as int),
        OpCode::Drw(x, y, n) => pack(0xD, x as int, y * 16 + n),
        OpCode::Skp(x) => pack(0xE, x as int, 0x9E),
        OpCode::SkNp(x) => pack(0xE, x as int, 0xA1),
        OpCode::LdVxDt(x) => pack(0xF, x as int, 0x07),
        OpCode::LdVxK(x) => pack(0xF, x as int, 0x0A),
        OpCode::LdDtVx(x) => pack(0xF, x as int, 0x15),
        OpCode::LdStVx(x) => pack(0xF, x as int, 0x18),
        OpCode::AddIVx(x) => pack(0xF, x as int, 0x1E),
        OpCode::LdFVx(x) => pack(0xF, x as int, 0x29),
        OpCode::LdBVx(x) => pack(0xF, x as int, 0x33),
        OpCode::LdIVx(x) => pack(0xF, x as int, 0x55),
        OpCode::LdVxI(x) => pack(0xF, x as int, 0x65),
        OpCode::Invalid(raw) => ((raw / 256) as u8, (raw % 256) as u8),
    }
}

/// Whatever two bytes are decoded, the operands of the instruction lie in
/// their ranges.
pub proof fn lemma_decode_well_formed(hi: u8, lo: u8)
    ensures
        decode_spec(hi, lo).well_formed(),
{
}

/// Two bytes are decoded as invalid only where they encode no instruction,
/// and the invalid instruction then holds the word that they form.
pub proof fn lemma_decode_invalid(hi: u8, lo: u8)
    ensures
        decode_spec(hi, lo) is Invalid ==> decode_spec(hi, lo) == OpCode::Invalid(word_of(hi, lo)),
        decode_spec(hi, lo) is Invalid <==> {
            ||| hi / 16 == 0x0 && lo % 16 != 0x0 && lo % 16 != 0xE
            ||| hi / 16 == 0x8 && lo % 16 >= 0x8 && lo % 16 != 0xE
            ||| hi / 16 == 0xE && lo != 0x9E && lo != 0xA1
            ||| hi / 16 == 0xF && lo != 0x07 && lo != 0x0A && lo != 0x15 && lo != 0x18 && lo
                != 0x1E && lo != 0x29 && lo != 0x33 && lo != 0x55 && lo != 0x65
        },
{
}

/// Decoding the encoding of an instruction gives the instruction back, with
/// every operand as it was.
pub proof fn lemma_decode_encoding(op: OpCode)
    requires
        op.well_formed(),
        !(op is Invalid),
    ensures
        decode_spec(encoding(op).0, encoding(op).1) == op,
{
}

impl OpCode {
    /// Every operand lies in the range of its kind: a register number and a
    /// nibble below 16, a byte below 256, an address below 4096.
    pub open spec fn well_formed(self) -> bool {
        match self {
            OpCode::Cls | OpCode::Ret | OpCode::Invalid(_) => true,
            OpCode::Jp(nnn) | OpCode::Call(nnn) | OpCode::LdI(nnn) | OpCode::JpV0(nnn) => nnn
                <= 0xFFF,
            OpCode::SeVx(x, kk) | OpCode::SNeVx(x, kk) | OpCode::LdVx(x, kk) | OpCode::AddVx(
                x,
                kk,
            ) => x < 16 && kk <= 0xFF,
            OpCode::SeVxVy(x, y)
            | OpCode::LdVxVy(x, y)
            | OpCode::Or(x, y)
            | OpCode::And(x, y)
            | OpCode::Xor(x, y)
            | OpCode::Add(x, y)
            | OpCode::Sub(x, y)
            | OpCode::SubN(x, y)
            | OpCode::SeNeVxVy(x, y) => x < 16 && y < 16,
            OpCode::Rnd(x, _) => x < 16,
            OpCode::Drw(x, y, n) => x < 16 && y < 16 && n < 16,
            OpCode::Shr(x)
            | OpCode::Shl(x)
            | OpCode::Skp(x)
            | OpCode::SkNp(x)
            | OpCode::LdVxDt(x)
            | OpCode::LdVxK(x)
            | OpCode::LdDtVx(x)
            | OpCode::LdStVx(x)
            | OpCode::AddIVx(x)
            | OpCode::LdFVx(x)
            | OpCode::LdBVx(x)
            | OpCode::LdIVx(x)
            | OpCode::LdVxI(x) => x < 16,
        }
    }

    /// Decodes the instruction held in two consecutive bytes of a program,
    /// `raw_a` first.
    pub fn decode(raw_a: u8, raw_b: u8) -> (op: Self)
        ensures
            op == decode_spec(raw_a, raw_b),
            op.well_formed(),
    {
        let opcode: u16 = (raw_a as u16) << 8 | (raw_b as u16);
        let vx: u8 = ((opcode & 0x0F00) >> 8) as u8;
        let vy: u8 = ((opcode & 0x00F0) >> 4) as u8;
        let nibble: u8 = (opcode & 0x000F) as u8;
        let byte: u8 = (opcode & 0x00FF) as u8;
        let addr: u16 = opcode & 0x0FFF;
        let value: u16 = opcode & 0x00FF;
        let family: u16 = opcode & 0xF000;
        proof {
            assert(opcode == raw_a as u16 * 256 + raw_b as u16 && family == (raw_a as u16 / 16)
                * 0x1000 && vx == raw_a % 16 && vy == raw_b / 16 && nibble == raw_b % 16 && byte
                == raw_b && value == raw_b as u16 && addr == (raw_a as u16 % 16) * 256
                + raw_b as u16) by (bit_vector)
                requires
                    opcode == (raw_a as u16) << 8 | (raw_b as u16),
                    vx == ((opcode & 0x0F00) >> 8) as u8,
                    vy == ((opcode & 0x00F0) >> 4) as u8,
                    nibble == (opcode & 0x000F) as u8,
                    byte == (opcode & 0x00FF) as u8,
                    addr == opcode & 0x0FFF,
                    value == opcode & 0x00FF,
                    family == opcode & 0xF000,
            ;
        }
        match family {
            0x0000 => match nibble {
                0x0 => OpCode::Cls,
                0xE => OpCode::Ret,
                _ => OpCode::Invalid(opcode),
            },
            0x1000 => OpCode::Jp(addr),
            0x2000 => OpCode::Call(addr),
            0x3000 => OpCode::SeVx(vx, value),
            0x4000 => OpCode::SNeVx(vx, value),
            0x5000 => OpCode::SeVxVy(vx, vy),
            0x6000 => OpCode::LdVx(vx, value),
            0x7000 => OpCode::AddVx(vx, value),
            0x8000 => match nibble {
                0x0 => OpCode::LdVxVy(vx, vy),
                0x1 => OpCode::Or(vx, vy),
                0x2 => OpCode::And(vx, vy),
                0x3 => OpCode::Xor(vx, vy),
                0x4 => OpCode::Add(vx, vy),
                0x5 => OpCode::Sub(vx, vy),
                0x6 => OpCode::Shr(vx),
                0x7 => OpCode::SubN(vx, vy),
                0xE => OpCode::Shl(vx),
                _ => OpCode::Invalid(opcode),
            },
            0x9000 => OpCode::SeNeVxVy(vx, vy),
            0xA000 => OpCode::LdI(addr),
            0xB000 => OpCode::JpV0(addr),
            0xC000 => OpCode::Rnd(vx, byte),
            0xD000 => OpCode::Drw(vx, vy, nibble),
            0xE000 => match byte {
                0x9E => OpCode::Skp(vx),
                0xA1 => OpCode::SkNp(vx),
                _ => OpCode::Invalid(opcode),
            },
            0xF000 => match byte {
                0x07 => OpCode::LdVxDt(vx),
                0x0A => OpCode::LdVxK(vx),
                0x15 => OpCode::LdDtVx(vx),
                0x18 => OpCode::LdStVx(vx),
                0x1E => OpCode::AddIVx(vx),
                0x29 => OpCode::LdFVx(vx),
                0x33 => OpCode::LdBVx(vx),
                0x55 => OpCode::LdIVx(vx),
                0x65 => OpCode::LdVxI(vx),
                _ => OpCode::Invalid(opcode),
            },
            _ => OpCode::Invalid(opcode),
        }
    }
}

} // verus!
