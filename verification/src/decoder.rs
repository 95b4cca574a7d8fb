//! From a 16-bit instruction word to an [`Instruction`].
//!
//! The word is read as four hexadecimal digits. The leading digit names the
//! family; the families `0`, `8`, `E` and `F` are told apart further by their
//! low digit or low byte.

use vstd::prelude::*;
use vstd::arithmetic::div_mod::lemma_fundamental_div_mod_converse;
use crate::error::Chip8Error;
use crate::instruction::Instruction;

verus! {

/// The leading hexadecimal digit of the word.
pub open spec fn family(word: u16) -> int {
    word as int / 0x1000
}

/// The second digit: the register index `x`.
pub open spec fn operand_x(word: u16) -> u8 {
    ((word as int / 0x100) % 0x10) as u8
}

/// The third digit: the register index `y`.
pub open spec fn operand_y(word: u16) -> u8 {
    ((word as int / 0x10) % 0x10) as u8
}

/// The last digit: a sprite height, or the selector of family `8`.
pub open spec fn operand_n(word: u16) -> u8 {
    (word as int % 0x10) as u8
}

/// The low byte: an immediate, or the selector of families `0`, `E`, `F`.
pub open spec fn operand_nn(word: u16) -> u8 {
    (word as int % 0x100) as u8
}

/// The low three digits: an address or a routine number.
pub open spec fn operand_nnn(word: u16) -> u16 {
    (word as int % 0x1000) as u16
}

/// The instruction that `word` encodes, if it encodes one.
pub open spec fn decode_instruction(word: u16) -> Option<Instruction> {
    let x = operand_x(word);
    let y = operand_y(word);
    let n = operand_n(word);
    let nn = operand_nn(word);
    let nnn = operand_nnn(word);
    let f = family(word);
    if f == 0x0 {
        if nn == 0xE0 {
            Some(Instruction::ClearDisplay)
        } else if nn == 0xEE {
            Some(Instruction::Return)
        } else {
            Some(Instruction::MachineRoutine { routine: nnn })
        }
    } else if f == 0x1 {
        Some(Instruction::Jump { addr: nnn })
    } else if f == 0x2 {
        Some(Instruction::Call { addr: nnn })
    } else if f == 0x3 {
        Some(Instruction::SkipIfEqual { x, value: nn })
    } else if f == 0x4 {
        Some(Instruction::SkipIfNotEqual { x, value: nn })
    } else if f == 0x5 {
        Some(Instruction::SkipIfRegistersEqual { x, y })
    } else if f == 0x6 {
        Some(Instruction::SetImmediate { x, value: nn })
    } else if f == 0x7 {
        Some(Instruction::AddImmediate { x, value: nn })
    } else if f == 0x8 {
        if n == 0x0 {
            Some(Instruction::CopyRegister { x, y })
        } else if n == 0x1 {
            Some(Instruction::OrRegister { x, y })
        } else if n == 0x2 {
            Some(Instruction::AndRegister { x, y })
        } else if n == 0x3 {
            Some(Instruction::XorRegister { x, y })
        } else if n == 0x4 {
            Some(Instruction::AddRegister { x, y })
        } else if n == 0x5 {
            Some(Instruction::SubtractRegister { x, y })
        } else if n == 0x6 {
            Some(Instruction::ShiftRight { x })
        } else if n == 0x7 {
            Some(Instruction::SubtractReversed { x, y })
        } else if n == 0xE {
            Some(Instruction::ShiftLeft { x })
        } else {
            None
        }
    } else if f == 0x9 {
        Some(Instruction::SkipIfRegistersNotEqual { x, y })
    } else if f == 0xA {
        Some(Instruction::SetAddress { addr: nnn })
    } else if f == 0xB {
        Some(Instruction::JumpOffset { addr: nnn })
    } else if f == 0xC {
        Some(Instruction::Random { x, mask: nn })
    } else if f == 0xD {
        Some(Instruction::Draw { x, y, height: n })
    } else if f == 0xE {
        if nn == 0x9E {
            Some(Instruction::SkipIfKeyPressed { x })
        } else if nn == 0xA1 {
            Some(Instruction::SkipIfKeyNotPressed { x })
        } else {
            None
        }
    } else {
        if nn == 0x07 {
            Some(Instruction::ReadDelayTimer { x })
        } else if nn == 0x0A {
            Some(Instruction::WaitForKey { x })
        } else if nn == 0x15 {
            Some(Instruction::SetDelayTimer { x })
        } else if nn == 0x18 {
            Some(Instruction::SetSoundTimer { x })
        } else if nn == 0x1E {
            Some(Instruction::AddToAddress { x })
        } else if nn == 0x29 {
            Some(Instruction::SetAddressToGlyph { x })
        } else if nn == 0x33 {
            Some(Instruction::StoreBcd { x })
        } else if nn == 0x55 {
            Some(Instruction::StoreRegisters { x })
        } else if nn == 0x65 {
            Some(Instruction::LoadRegisters { x })
        } else {
            None
        }
    }
}

/// The outcome of decoding `word` fetched at `pc`: its instruction, or the
/// illegal-instruction condition carrying the word and that `pc`.
pub open spec fn decode_word(word: u16, pc: usize) -> Result<Instruction, Chip8Error> {
    match decode_instruction(word) {
        Some(instruction) => Ok(instruction),
        None => Err(Chip8Error::IllegalInstruction { opcode: word, pc }),
    }
}

/// Shifting and masking a word yields its hexadecimal digits.
pub proof fn lemma_word_fields(word: u16)
    ensures
        (word >> 12) as int == family(word),
        ((word >> 8) & 0xF) as u8 == operand_x(word),
        ((word >> 4) & 0xF) as u8 == operand_y(word),
        (word & 0xF) as u8 == operand_n(word),
        (word & 0xFF) as u8 == operand_nn(word),
        word & 0xFFF == operand_nnn(word),
{
    assert((word >> 12) == word / 0x1000) by (bit_vector);
    assert(((word >> 8) & 0xF) == (word / 0x100) % 0x10) by (bit_vector);
    assert(((word >> 4) & 0xF) == (word / 0x10) % 0x10) by (bit_vector);
    assert((word & 0xF) == word % 0x10) by (bit_vector);
    assert((word & 0xFF) == word % 0x100) by (bit_vector);
    assert((word & 0xFFF) == word % 0x1000) by (bit_vector);
}

/// The word written with the hexadecimal digits `f`, `x`, `y`, `n` has these
/// as its fields.
pub proof fn lemma_digits(f: int, x: int, y: int, n: int)
    requires
        0 <= f < 16,
        0 <= x < 16,
        0 <= y < 16,
        0 <= n < 16,
    ensures
        ({
            let word = (f * 0x1000 + x * 0x100 + y * 0x10 + n) as u16;
            &&& word == f * 0x1000 + x * 0x100 + y * 0x10 + n
            &&& family(word) == f
            &&& operand_x(word) == x
            &&& operand_y(word) == y
            &&& operand_n(word) == n
            &&& operand_nn(word) == y * 0x10 + n
            &&& operand_nnn(word) == x * 0x100 + y * 0x10 + n
        }),
{
    let w = f * 0x1000 + x * 0x100 + y * 0x10 + n;
    lemma_fundamental_div_mod_converse(w, 0x1000, f, x * 0x100 + y * 0x10 + n);
    lemma_fundamental_div_mod_converse(w, 0x100, f * 0x10 + x, y * 0x10 + n);
    lemma_fundamental_div_mod_converse(f * 0x10 + x, 0x10, f, x);
    lemma_fundamental_div_mod_converse(w, 0x10, f * 0x100 + x * 0x10 + y, n);
    lemma_fundamental_div_mod_converse(f * 0x100 + x * 0x10 + y, 0x10, f * 0x10 + x, y);
}

/// Every instruction that a word encodes has operands within range.
pub proof fn lemma_decoded_valid(word: u16)
    ensures
        decode_instruction(word) matches Some(instruction) ==> instruction.valid(),
{
}

/// Decodes `word`, fetched at `pc`. Decoding is total: every word yields
/// either one instruction or `IllegalInstruction` with that word and `pc`.
pub fn decode(word: u16, pc: usize) -> (r: Result<Instruction, Chip8Error>)
    ensures
        r == decode_word(word, pc),
        r matches Ok(instruction) ==> instruction.valid(),
        r matches Err(e) ==> e == (Chip8Error::IllegalInstruction { opcode: word, pc }),
{
    proof {
        lemma_word_fields(word);
        lemma_decoded_valid(word);
    }
    let x: u8 = ((word >> 8) & 0xF) as u8;
    let y: u8 = ((word >> 4) & 0xF) as u8;
    let n: u8 = (word & 0xF) as u8;
    let nn: u8 = (word & 0xFF) as u8;
    let nnn: u16 = word & 0xFFF;
    let illegal = Err(Chip8Error::IllegalInstruction { opcode: word, pc });
    match word >> 12 {
        0x0 => match nn {
            0xE0 => Ok(Instruction::ClearDisplay),
            0xEE => Ok(Instruction::Return),
            _ => Ok(Instruction::MachineRoutine { routine: nnn }),
        },
        0x1 => Ok(Instruction::Jump { addr: nnn }),
        0x2 => Ok(Instruction::Call { addr: nnn }),
        0x3 => Ok(Instruction::SkipIfEqual { x, value: nn }),
        0x4 => Ok(Instruction::SkipIfNotEqual { x, value: nn }),
        0x5 => Ok(Instruction::SkipIfRegistersEqual { x, y }),
        0x6 => Ok(Instruction::SetImmediate { x, value: nn }),
        0x7 => Ok(Instruction::AddImmediate { x, value: nn }),
        0x8 => match n {
            0x0 => Ok(Instruction::CopyRegister { x, y }),
            0x1 => Ok(Instruction::OrRegister { x, y }),
            0x2 => Ok(Instruction::AndRegister { x, y }),
            0x3 => Ok(Instruction::XorRegister { x, y }),
            0x4 => Ok(Instruction::AddRegister { x, y }),
            0x5 => Ok(Instruction::SubtractRegister { x, y }),
            0x6 => Ok(Instruction::ShiftRight { x }),
            0x7 => Ok(Instruction::SubtractReversed { x, y }),
            0xE => Ok(Instruction::ShiftLeft { x }),
            _ => illegal,
        },
        0x9 => Ok(Instruction::SkipIfRegistersNotEqual { x, y }),
        0xA => Ok(Instruction::SetAddress { addr: nnn }),
        0xB => Ok(Instruction::JumpOffset { addr: nnn }),
        0xC => Ok(Instruction::Random { x, mask: nn }),
        0xD => Ok(Instruction::Draw { x, y, height: n }),
        0xE => match nn {
            0x9E => Ok(Instruction::SkipIfKeyPressed { x }),
            0xA1 => Ok(Instruction::SkipIfKeyNotPressed { x }),
            _ => illegal,
        },
        _ => match nn {
            0x07 => Ok(Instruction::ReadDelayTimer { x }),
            0x0A => Ok(Instruction::WaitForKey { x }),
            0x15 => Ok(Instruction::SetDelayTimer { x }),
            0x18 => Ok(Instruction::SetSoundTimer { x }),
            0x1E => Ok(Instruction::AddToAddress { x }),
            0x29 => Ok(Instruction::SetAddressToGlyph { x }),
            0x33 => Ok(Instruction::StoreBcd { x }),
            0x55 => Ok(Instruction::StoreRegisters { x }),
            0x65 => Ok(Instruction::LoadRegisters { x }),
            _ => illegal,
        },
    }
}

} // verus!
