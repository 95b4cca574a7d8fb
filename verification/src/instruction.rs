//! The instruction set as a sum type, one variant per operation.

use vstd::prelude::*;

verus! {

/// A decoded instruction with its operands. `x` and `y` are register
/// indices, `value` and `mask` immediate bytes, `addr` a 12-bit address and
/// `height` a sprite height in rows.
#[derive(Debug, Clone, Copy, PartialEq, Eq, Structural)]
pub enum Instruction {
    /// `0NNN`: call the machine routine `NNN`.
    MachineRoutine { routine: u16 },
    /// `00E0`: clear the display.
    ClearDisplay,
    /// `00EE`: return from a subroutine.
    Return,
    /// `1NNN`: jump to `NNN`.
    Jump { addr: u16 },
    /// `2NNN`: call the subroutine at `NNN`.
    Call { addr: u16 },
    /// `3XNN`: skip the next instruction if `Vx == NN`.
    SkipIfEqual { x: u8, value: u8 },
    /// `4XNN`: skip the next instruction if `Vx != NN`.
    SkipIfNotEqual { x: u8, value: u8 },
    /// `5XY_`: skip the next instruction if `Vx == Vy`.
    SkipIfRegistersEqual { x: u8, y: u8 },
    /// `6XNN`: `Vx = NN`.
    SetImmediate { x: u8, value: u8 },
    /// `7XNN`: `Vx += NN`, wrapping, without a carry flag.
    AddImmediate { x: u8, value: u8 },
    /// `8XY0`: `Vx = Vy`.
    CopyRegister { x: u8, y: u8 },
    /// `8XY1`: `Vx |= Vy`.
    OrRegister { x: u8, y: u8 },
    /// `8XY2`: `Vx &= Vy`.
    AndRegister { x: u8, y: u8 },
    /// `8XY3`: `Vx ^= Vy`.
    XorRegister { x: u8, y: u8 },
    /// `8XY4`: `Vx += Vy`, `VF` = carry.
    AddRegister { x: u8, y: u8 },
    /// `8XY5`: `Vx -= Vy`, `VF` = no borrow.
    SubtractRegister { x: u8, y: u8 },
    /// `8X_6`: `Vx >>= 1`, `VF` = the bit shifted out.
    ShiftRight { x: u8 },
    /// `8XY7`: `Vx = Vy - Vx`, `VF` = no borrow.
    SubtractReversed { x: u8, y: u8 },
    /// `8X_E`: `Vx <<= 1`, `VF` = the bit shifted out.
    ShiftLeft { x: u8 },
    /// `9XY_`: skip the next instruction if `Vx != Vy`.
    SkipIfRegistersNotEqual { x: u8, y: u8 },
    /// `ANNN`: `I = NNN`.
    SetAddress { addr: u16 },
    /// `BNNN`: jump to `NNN + V0`.
    JumpOffset { addr: u16 },
    /// `CXNN`: `Vx = random byte & NN`.
    Random { x: u8, mask: u8 },
    /// `DXYN`: draw the `N`-row sprite at `I` at `(Vx, Vy)`.
    Draw { x: u8, y: u8, height: u8 },
    /// `EX9E`: skip the next instruction if the key `Vx` is down.
    SkipIfKeyPressed { x: u8 },
    /// `EXA1`: skip the next instruction if the key `Vx` is not down.
    SkipIfKeyNotPressed { x: u8 },
    /// `FX07`: `Vx = delay timer`.
    ReadDelayTimer { x: u8 },
    /// `FX0A`: wait for a key and store it in `Vx`.
    WaitForKey { x: u8 },
    /// `FX15`: `delay timer = Vx`.
    SetDelayTimer { x: u8 },
    /// `FX18`: `sound timer = Vx`.
    SetSoundTimer { x: u8 },
    /// `FX1E`: `I += Vx`.
    AddToAddress { x: u8 },
    /// `FX29`: `I` = address of the glyph for the low nibble of `Vx`.
    SetAddressToGlyph { x: u8 },
    /// `FX33`: store the three decimal digits of `Vx` at `I`, `I+1`, `I+2`.
    StoreBcd { x: u8 },
    /// `FX55`: store `V0..=Vx` at `I..`.
    StoreRegisters { x: u8 },
    /// `FX65`: load `V0..=Vx` from `I..`.
    LoadRegisters { x: u8 },
}

impl Instruction {
    /// Every operand lies within the range its field of the instruction word
    /// can hold: register indices and the sprite height below 16, addresses
    /// and routine numbers below 4096.
    pub open spec fn valid(self) -> bool {
        match self {
            Instruction::MachineRoutine { routine } => routine < 0x1000,
            Instruction::ClearDisplay => true,
            Instruction::Return => true,
            Instruction::Jump { addr } => addr < 0x1000,
            Instruction::Call { addr } => addr < 0x1000,
            Instruction::SkipIfEqual { x, value } => x < 16,
            Instruction::SkipIfNotEqual { x, value } => x < 16,
            Instruction::SkipIfRegistersEqual { x, y } => x < 16 && y < 16,
            Instruction::SetImmediate { x, value } => x < 16,
            Instruction::AddImmediate { x, value } => x < 16,
            Instruction::CopyRegister { x, y } => x < 16 && y < 16,
            Instruction::OrRegister { x, y } => x < 16 && y < 16,
            Instruction::AndRegister { x, y } => x < 16 && y < 16,
            Instruction::XorRegister { x, y } => x < 16 && y < 16,
            Instruction::AddRegister { x, y } => x < 16 && y < 16,
            Instruction::SubtractRegister { x, y } => x < 16 && y < 16,
            Instruction::ShiftRight { x } => x < 16,
            Instruction::SubtractReversed { x, y } => x < 16 && y < 16,
            Instruction::ShiftLeft { x } => x < 16,
            Instruction::SkipIfRegistersNotEqual { x, y } => x < 16 && y < 16,
            Instruction::SetAddress { addr } => addr < 0x1000,
            Instruction::JumpOffset { addr } => addr < 0x1000,
            Instruction::Random { x, mask } => x < 16,
            Instruction::Draw { x, y, height } => x < 16 && y < 16 && height < 16,
            Instruction::SkipIfKeyPressed { x } => x < 16,
            Instruction::SkipIfKeyNotPressed { x } => x < 16,
            Instruction::ReadDelayTimer { x } => x < 16,
            Instruction::WaitForKey { x } => x < 16,
            Instruction::SetDelayTimer { x } => x < 16,
            Instruction::SetSoundTimer { x } => x < 16,
            Instruction::AddToAddress { x } => x < 16,
            Instruction::SetAddressToGlyph { x } => x < 16,
            Instruction::StoreBcd { x } => x < 16,
            Instruction::StoreRegisters { x } => x < 16,
            Instruction::LoadRegisters { x } => x < 16,
        }
    }

    /// The word for this instruction. A digit that the instruction does not
    /// read is written as 0.
    pub open spec fn encoding(self) -> int {
        match self {
            Instruction::MachineRoutine { routine } => routine as int,
            Instruction::ClearDisplay => 0x00E0,
            Instruction::Return => 0x00EE,
            Instruction::Jump { addr } => 0x1000 + addr,
            Instruction::Call { addr } => 0x2000 + addr,
            Instruction::SkipIfEqual { x, value } => 0x3000 + x * 0x100 + value,
            Instruction::SkipIfNotEqual { x, value } => 0x4000 + x * 0x100 + value,
            Instruction::SkipIfRegistersEqual { x, y } => 0x5000 + x * 0x100 + y * 0x10,
            Instruction::SetImmediate { x, value } => 0x6000 + x * 0x100 + value,
            Instruction::AddImmediate { x, value } => 0x7000 + x * 0x100 + value,
            Instruction::CopyRegister { x, y } => 0x8000 + x * 0x100 + y * 0x10,
            Instruction::OrRegister { x, y } => 0x8001 + x * 0x100 + y * 0x10,
            Instruction::AndRegister { x, y } => 0x8002 + x * 0x100 + y * 0x10,
            Instruction::XorRegister { x, y } => 0x8003 + x * 0x100 + y * 0x10,
            Instruction::AddRegister { x, y } => 0x8004 + x * 0x100 + y * 0x10,
            Instruction::SubtractRegister { x, y } => 0x8005 + x * 0x100 + y * 0x10,
            Instruction::ShiftRight { x } => 0x8006 + x * 0x100,
            Instruction::SubtractReversed { x, y } => 0x8007 + x * 0x100 + y * 0x10,
            Instruction::ShiftLeft { x } => 0x800E + x * 0x100,
            Instruction::SkipIfRegistersNotEqual { x, y } => 0x9000 + x * 0x100 + y * 0x10,
            Instruction::SetAddress { addr } => 0xA000 + addr,
            Instruction::JumpOffset { addr } => 0xB000 + addr,
            Instruction::Random { x, mask } => 0xC000 + x * 0x100 + mask,
            Instruction::Draw { x, y, height } => 0xD000 + x * 0x100 + y * 0x10 + height,
            Instruction::SkipIfKeyPressed { x } => 0xE09E + x * 0x100,
            Instruction::SkipIfKeyNotPressed { x } => 0xE0A1 + x * 0x100,
            Instruction::ReadDelayTimer { x } => 0xF007 + x * 0x100,
            Instruction::WaitForKey { x } => 0xF00A + x * 0x100,
            Instruction::SetDelayTimer { x } => 0xF015 + x * 0x100,
            Instruction::SetSoundTimer { x } => 0xF018 + x * 0x100,
            Instruction::AddToAddress { x } => 0xF01E + x * 0x100,
            Instruction::SetAddressToGlyph { x } => 0xF029 + x * 0x100,
            Instruction::StoreBcd { x } => 0xF033 + x * 0x100,
            Instruction::StoreRegisters { x } => 0xF055 + x * 0x100,
            Instruction::LoadRegisters { x } => 0xF065 + x * 0x100,
        }
    }

    /// The instruction writes the framebuffer, and so marks the frame dirty.
    pub open spec fn marks_display(self) -> bool {
        self is ClearDisplay || self is Draw
    }

    /// Whether executing the instruction marks the frame dirty.
    pub fn writes_display(&self) -> (b: bool)
        ensures
            b == self.marks_display(),
    {
        match self {
            Instruction::ClearDisplay => true,
            Instruction::Draw { .. } => true,
            _ => false,
        }
    }
}

} // verus!
