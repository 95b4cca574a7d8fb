//! The machine as a mathematical value, and each operation as a function from
//! one such value to the next.
//!
//! An operation is the whole effect of one instruction that lies at the
//! program counter: what it changes, and where the program counter stands
//! afterwards. The operations that can fail yield the state or the fatal
//! condition.

use vstd::prelude::*;
use crate::decoder::decode_word;
use crate::display::{bit_of, blank, pixel_index, row_collides, row_covers, xor_row};
use crate::error::Chip8Error;
use crate::font::{glyph_address, FONT};
use crate::instruction::Instruction;
use crate::random::{next_seed, random_byte};
use crate::ring::{
    lemma_ring_offset_of_place, lemma_ring_origin_reduced, lemma_ring_place_of_offset, ring_offset,
    ring_place,
};

verus! {

/// The number of bytes of memory.
pub const MEMORY_SIZE: usize = 4096;

/// Where a program is loaded and where execution starts.
pub const PROGRAM_START: usize = 0x200;

/// The number of return addresses that the call stack holds.
pub const STACK_CAPACITY: usize = 12;

/// The seed of the pseudo-random source of a new machine.
pub const DEFAULT_SEED: u32 = 0x2545_F491;

/// The state of the machine.
pub struct MachineState {
    /// The 4096 bytes of memory.
    pub memory: Seq<u8>,
    /// The registers `V0` to `VF`.
    pub registers: Seq<u8>,
    /// The address register `I`.
    pub address: u16,
    /// The program counter.
    pub pc: int,
    /// The return addresses of the calls outstanding, the oldest first.
    pub stack: Seq<int>,
    /// The 2048 pixels, row by row.
    pub pixels: Seq<bool>,
    /// The key that is down, if any.
    pub key: Option<u8>,
    /// The delay timer.
    pub delay_timer: u8,
    /// The sound timer.
    pub sound_timer: u8,
    /// Whether the framebuffer was written since the flag was last taken.
    pub refresh_display: bool,
    /// The state of the pseudo-random source.
    pub seed: u32,
}

/// The 16-bit word whose high byte is `high` and whose low byte is `low`.
pub open spec fn big_endian(high: u8, low: u8) -> u16 {
    (high * 256 + low) as u16
}

/// The value of a timer one tick after it held `timer`.
pub open spec fn tick(timer: u8) -> u8 {
    if timer > 0 {
        (timer - 1) as u8
    } else {
        0
    }
}

impl MachineState {
    /// The sizes are those of the machine, the stack is within its capacity
    /// and the key, if one is down, is one of the sixteen.
    pub open spec fn valid(self) -> bool {
        &&& self.memory.len() == 4096
        &&& self.registers.len() == 16
        &&& self.pixels.len() == 2048
        &&& self.stack.len() <= 12
        &&& (self.key matches Some(k) ==> k < 16)
    }

    /// The machine as it stands when `program` has been loaded: the glyphs at
    /// 0x50, the program at 0x200, everything else zero, the program counter
    /// at the program's first byte and the frame marked for a first
    /// rendering.
    pub open spec fn initial(program: Seq<u8>) -> MachineState {
        MachineState {
            memory: Seq::new(
                4096,
                |a: int|
                    if 0x50 <= a < 0xA0 {
                        FONT[a - 0x50]
                    } else if 0x200 <= a < 0x200 + program.len() {
                        program[a - 0x200]
                    } else {
                        0u8
                    },
            ),
            registers: Seq::new(16, |i: int| 0u8),
            address: 0,
            pc: 0x200,
            stack: Seq::empty(),
            pixels: blank(),
            key: None,
            delay_timer: 0,
            sound_timer: 0,
            refresh_display: true,
            seed: DEFAULT_SEED,
        }
    }

    /// Whether the pixel `(x, y)` is on.
    pub open spec fn pixel(self, x: int, y: int) -> bool {
        self.pixels[pixel_index(x, y)]
    }

    /// Whether the two bytes of an instruction at the program counter lie
    /// within memory.
    pub open spec fn instruction_in_memory(self) -> bool {
        0 <= self.pc && self.pc + 2 <= 4096
    }

    /// This state with the program counter on the next instruction.
    pub open spec fn advance(self) -> MachineState {
        MachineState { pc: self.pc + 2, ..self }
    }

    /// This state with the program counter past the next instruction if
    /// `condition` holds, on it otherwise.
    pub open spec fn skip_if(self, condition: bool) -> MachineState {
        MachineState { pc: if condition { self.pc + 4 } else { self.pc + 2 }, ..self }
    }

    /// This state with `value` in register `x`.
    pub open spec fn with_register(self, x: int, value: u8) -> MachineState {
        MachineState { registers: self.registers.update(x, value), ..self }
    }

    /// The word at the program counter, high byte first.
    pub open spec fn fetch(self) -> Result<u16, Chip8Error> {
        if self.instruction_in_memory() {
            Ok(big_endian(self.memory[self.pc], self.memory[self.pc + 1]))
        } else {
            Err(Chip8Error::OutOfBoundsMemoryAccess(self.pc as usize))
        }
    }

    /// `0NNN`: no machine routine is implemented.
    pub open spec fn call_machine_routine(self, routine: u16) -> Result<MachineState, Chip8Error> {
        Err(Chip8Error::UnknownMachineRoutine(routine))
    }

    /// `00E0`: every pixel off, the frame marked.
    pub open spec fn clear_display(self) -> MachineState {
        MachineState { pixels: blank(), refresh_display: true, ..self }.advance()
    }

    /// `00EE`: the program counter is the newest return address, which leaves
    /// the stack.
    pub open spec fn subroutine_return(self) -> Result<MachineState, Chip8Error> {
        if self.stack.len() == 0 {
            Err(Chip8Error::StackUnderflow)
        } else {
            Ok(MachineState { pc: self.stack.last(), stack: self.stack.drop_last(), ..self })
        }
    }

    /// `1NNN`.
    pub open spec fn jump(self, addr: u16) -> MachineState {
        MachineState { pc: addr as int, ..self }
    }

    /// `2NNN`: the address of the next instruction goes onto the stack.
    pub open spec fn call_subroutine(self, addr: u16) -> Result<MachineState, Chip8Error> {
        if self.stack.len() >= 12 {
            Err(Chip8Error::StackOverflow)
        } else {
            Ok(MachineState { pc: addr as int, stack: self.stack.push(self.pc + 2), ..self })
        }
    }

    /// `3XNN`.
    pub open spec fn skip_if_vx_eq_nn(self, x: int, value: u8) -> MachineState {
        self.skip_if(self.registers[x] == value)
    }

    /// `4XNN`.
    pub open spec fn skip_if_vx_ne_nn(self, x: int, value: u8) -> MachineState {
        self.skip_if(self.registers[x] != value)
    }

    /// `5XY_`.
    pub open spec fn skip_if_vx_eq_vy(self, x: int, y: int) -> MachineState {
        self.skip_if(self.registers[x] == self.registers[y])
    }

    /// `9XY_`.
    pub open spec fn skip_if_vx_ne_vy(self, x: int, y: int) -> MachineState {
        self.skip_if(self.registers[x] != self.registers[y])
    }

    /// `6XNN`.
    pub open spec fn set_vx_to_n(self, x: int, value: u8) -> MachineState {
        self.with_register(x, value).advance()
    }

    /// `7XNN`: the sum modulo 256; no flag.
    pub open spec fn add_n_to_vx(self, x: int, value: u8) -> MachineState {
        self.with_register(x, ((self.registers[x] + value) % 256) as u8).advance()
    }

    /// `8XY0`.
    pub open spec fn set_vx_to_vy(self, x: int, y: int) -> MachineState {
        self.with_register(x, self.registers[y]).advance()
    }

    /// `8XY1`.
    pub open spec fn set_vx_to_vx_bitor_vy(self, x: int, y: int) -> MachineState {
        self.with_register(x, self.registers[x] | self.registers[y]).advance()
    }

    /// `8XY2`.
    pub open spec fn set_vx_to_vx_bitand_vy(self, x: int, y: int) -> MachineState {
        self.with_register(x, self.registers[x] & self.registers[y]).advance()
    }

    /// `8XY3`.
    pub open spec fn set_vx_to_vx_xor_vy(self, x: int, y: int) -> MachineState {
        self.with_register(x, self.registers[x] ^ self.registers[y]).advance()
    }

    /// `8XY4`: the sum modulo 256 in `Vx`, then the carry in `VF`.
    pub open spec fn add_vy_to_vx(self, x: int, y: int) -> MachineState {
        let sum = self.registers[x] + self.registers[y];
        self.with_register(x, (sum % 256) as u8).with_register(
            0xF,
            if sum > 255 {
                1u8
            } else {
                0u8
            },
        ).advance()
    }

    /// `8XY5`: the difference modulo 256 in `Vx`, then 1 in `VF` if nothing
    /// was borrowed, else 0.
    pub open spec fn subtract_vy_from_vx(self, x: int, y: int) -> MachineState {
        let a = self.registers[x];
        let b = self.registers[y];
        self.with_register(x, ((a - b) % 256) as u8).with_register(
            0xF,
            if a >= b {
                1u8
            } else {
                0u8
            },
        ).advance()
    }

    /// `8XY7`: as [`Self::subtract_vy_from_vx`] with the operands exchanged.
    pub open spec fn set_vx_to_vy_minus_vx(self, x: int, y: int) -> MachineState {
        let a = self.registers[x];
        let b = self.registers[y];
        self.with_register(x, ((b - a) % 256) as u8).with_register(
            0xF,
            if b >= a {
                1u8
            } else {
                0u8
            },
        ).advance()
    }

    /// `8X_6`: half of `Vx` in `Vx`, then its lowest bit in `VF`.
    pub open spec fn right_shift_vx(self, x: int) -> MachineState {
        let a = self.registers[x];
        self.with_register(x, a / 2).with_register(0xF, a % 2).advance()
    }

    /// `8X_E`: twice `Vx` modulo 256 in `Vx`, then its highest bit in `VF`.
    pub open spec fn left_shift_vx(self, x: int) -> MachineState {
        let a = self.registers[x];
        self.with_register(x, ((a * 2) % 256) as u8).with_register(0xF, a / 128).advance()
    }

    /// `ANNN`.
    pub open spec fn set_i_addr_to_n(self, addr: u16) -> MachineState {
        MachineState { address: addr, ..self }.advance()
    }

    /// `BNNN`.
    pub open spec fn jump_to_n_plus_v0(self, addr: u16) -> MachineState {
        MachineState { pc: addr + self.registers[0], ..self }
    }

    /// `CXNN`: the source moves on, and its byte, masked, goes to `Vx`.
    pub open spec fn set_to_vx_rand_bitand_n(self, x: int, mask: u8) -> MachineState {
        let seed = next_seed(self.seed);
        MachineState { seed, ..self }.with_register(x, random_byte(seed) & mask).advance()
    }

    /// `EX9E`.
    pub open spec fn skip_if_key_in_vk_pressed(self, x: int) -> MachineState {
        self.skip_if(self.key == Some(self.registers[x]))
    }

    /// `EXA1`.
    pub open spec fn skip_if_key_in_vk_not_pressed(self, x: int) -> MachineState {
        self.skip_if(self.key != Some(self.registers[x]))
    }

    /// `FX07`.
    pub open spec fn set_vx_to_delay_timer(self, x: int) -> MachineState {
        self.with_register(x, self.delay_timer).advance()
    }

    /// `FX0A`: with a key down, the key goes to `Vx`; with none, nothing
    /// changes, and the instruction is met again.
    pub open spec fn set_vx_to_get_key_blocking(self, x: int) -> MachineState {
        match self.key {
            Some(k) => self.with_register(x, k).advance(),
            None => self,
        }
    }

    /// `FX15`.
    pub open spec fn set_delay_timer_to_vx(self, x: int) -> MachineState {
        MachineState { delay_timer: self.registers[x], ..self }.advance()
    }

    /// `FX18`.
    pub open spec fn set_sound_timer_to_vx(self, x: int) -> MachineState {
        MachineState { sound_timer: self.registers[x], ..self }.advance()
    }

    /// `FX1E`: the sum modulo 65536; no flag.
    pub open spec fn add_vx_to_i(self, x: int) -> MachineState {
        MachineState { address: ((self.address + self.registers[x]) % 0x1_0000) as u16, ..self }.advance()
    }

    /// `FX29`.
    pub open spec fn set_i_to_sprite_addr(self, x: int) -> MachineState {
        MachineState { address: glyph_address(self.registers[x]), ..self }.advance()
    }

    /// Whether the bit for column `col` of row `row` of the sprite at `I` is
    /// set. Column 0 is the most significant bit of the row's byte.
    pub open spec fn sprite_bit(self, row: int, col: int) -> bool {
        bit_of(self.memory[self.address + row], col as u8)
    }

    /// The position of the pixel onto which column `col` of row `row` of a
    /// sprite falls whose top left pixel is at `(Vx, Vy)`: each pixel wraps
    /// by itself, modulo the width and the height of the grid.
    pub open spec fn sprite_target(self, x: int, y: int, row: int, col: int) -> int {
        pixel_index(
            ring_place(self.registers[x] as int, col, 64),
            ring_place(self.registers[y] as int, row, 32),
        )
    }

    /// Whether the pixel at position `i` lies under a set bit of the sprite
    /// of `height` rows at `I`, laid with its top left pixel at column
    /// `Vx mod 64` of row `Vy mod 32`, each pixel running on from column 63 to
    /// column 0 and from row 31 to row 0.
    pub open spec fn sprite_covers(self, x: int, y: int, height: int, i: int) -> bool {
        let col = ring_offset(i % 64, self.registers[x] as int, 64);
        let row = ring_offset(i / 64, self.registers[y] as int, 32);
        row < height && col < 8 && self.sprite_bit(row, col)
    }

    /// Whether a pixel that is on lies under a set bit of that sprite.
    pub open spec fn sprite_collides(self, x: int, y: int, height: int) -> bool {
        exists|i: int|
            0 <= i < 2048 && #[trigger] self.pixels[i] && self.sprite_covers(x, y, height, i)
    }

    /// The pixels when the first `rows` rows of that sprite have been drawn.
    pub open spec fn pixels_after_rows(self, x: int, y: int, rows: int) -> Seq<bool> {
        Seq::new(2048, |i: int| self.pixels[i] != self.sprite_covers(x, y, rows, i))
    }

    /// What a sprite covers goes by its bytes and by its coordinates modulo
    /// the width and the height of the grid alone.
    pub proof fn lemma_same_sprite_same_cover(
        self,
        other: MachineState,
        x: int,
        y: int,
        height: int,
        i: int,
    )
        requires
            self.memory == other.memory,
            self.address == other.address,
            self.registers[x] % 64 == other.registers[x] % 64,
            self.registers[y] % 32 == other.registers[y] % 32,
        ensures
            self.sprite_covers(x, y, height, i) == other.sprite_covers(x, y, height, i),
    {
        lemma_ring_origin_reduced(i % 64, self.registers[x] as int, 0, 64);
        lemma_ring_origin_reduced(i % 64, other.registers[x] as int, 0, 64);
        lemma_ring_origin_reduced(i / 64, self.registers[y] as int, 0, 32);
        lemma_ring_origin_reduced(i / 64, other.registers[y] as int, 0, 32);
    }

    /// The first `row + 1` rows of a sprite cover what the first `row` rows
    /// cover and what row `row` covers, and these two have no pixel in
    /// common.
    pub proof fn lemma_sprite_row(self, x: int, y: int, row: int, i: int)
        requires
            0 <= row < 32,
            0 <= i < 2048,
        ensures
            ({
                let below = row_covers(
                    self.registers[x] as int % 64,
                    (self.registers[y] as int % 32 + row) % 32,
                    self.memory[self.address + row],
                    i,
                );
                &&& self.sprite_covers(x, y, row + 1, i) == (self.sprite_covers(x, y, row, i)
                    || below)
                &&& !(self.sprite_covers(x, y, row, i) && below)
            }),
    {
        let vx = self.registers[x] as int;
        let vy = self.registers[y] as int;
        let yy = (vy % 32 + row) % 32;
        lemma_ring_origin_reduced(i % 64, vx, 0, 64);
        lemma_ring_origin_reduced(i / 64, vy, row, 32);
        lemma_ring_offset_of_place(vy, row, 32);
        lemma_ring_place_of_offset(i / 64, vy, 32);
        assert(yy == ring_place(vy, row, 32));
        assert((i / 64 == yy) == (ring_offset(i / 64, vy, 32) == row));
    }

    /// Drawing row `row` onto the pixels left by the rows before it leaves
    /// the pixels of the first `row + 1` rows, and a pixel goes off in the
    /// first `row + 1` rows if one went off before or goes off now.
    pub proof fn lemma_draw_row(self, x: int, y: int, row: int)
        requires
            0 <= row < 32,
            self.pixels.len() == 2048,
        ensures
            ({
                let x0 = self.registers[x] as int % 64;
                let yy = (self.registers[y] as int % 32 + row) % 32;
                let bits = self.memory[self.address + row];
                let current = self.pixels_after_rows(x, y, row);
                &&& xor_row(current, x0, yy, bits) == self.pixels_after_rows(x, y, row + 1)
                &&& self.sprite_collides(x, y, row + 1) == (self.sprite_collides(x, y, row)
                    || row_collides(current, x0, yy, bits))
            }),
    {
        let x0 = self.registers[x] as int % 64;
        let yy = (self.registers[y] as int % 32 + row) % 32;
        let bits = self.memory[self.address + row];
        let current = self.pixels_after_rows(x, y, row);
        assert forall|i: int| 0 <= i < 2048 implies xor_row(current, x0, yy, bits)[i]
            == self.pixels_after_rows(x, y, row + 1)[i] by {
            self.lemma_sprite_row(x, y, row, i);
        }
        assert(xor_row(current, x0, yy, bits) =~= self.pixels_after_rows(x, y, row + 1));
        if self.sprite_collides(x, y, row) {
            let w = choose|i: int|
                0 <= i < 2048 && #[trigger] self.pixels[i] && self.sprite_covers(x, y, row, i);
            self.lemma_sprite_row(x, y, row, w);
            assert(self.pixels[w] && self.sprite_covers(x, y, row + 1, w));
        }
        if row_collides(current, x0, yy, bits) {
            let w = choose|i: int|
                0 <= i < 2048 && #[trigger] current[i] && row_covers(x0, yy, bits, i);
            self.lemma_sprite_row(x, y, row, w);
            assert(self.pixels[w] && self.sprite_covers(x, y, row + 1, w));
        }
        if self.sprite_collides(x, y, row + 1) {
            let w = choose|i: int|
                0 <= i < 2048 && #[trigger] self.pixels[i] && self.sprite_covers(
                    x,
                    y,
                    row + 1,
                    i,
                );
            self.lemma_sprite_row(x, y, row, w);
            if !self.sprite_covers(x, y, row, w) {
                assert(current[w] && row_covers(x0, yy, bits, w));
            }
        }
    }

    /// `DXYN`: each pixel under a set bit of the sprite is flipped; then `VF`
    /// is 1 if a pixel went off, else 0; the frame is marked. Fails if the
    /// sprite's rows do not all lie within memory.
    pub open spec fn draw_sprite_at_coordinates_vx_vy_with_height_n(
        self,
        x: int,
        y: int,
        height: int,
    ) -> Result<MachineState, Chip8Error> {
        if self.address + height > 4096 {
            Err(Chip8Error::OutOfBoundsMemoryAccess(self.address as usize))
        } else {
            Ok(
                MachineState {
                    pixels: self.pixels_after_rows(x, y, height),
                    refresh_display: true,
                    ..self
                }.with_register(
                    0xF,
                    if self.sprite_collides(x, y, height) {
                        1u8
                    } else {
                        0u8
                    },
                ).advance(),
            )
        }
    }

    /// `FX33`: the hundreds, tens and ones of `Vx` at `I`, `I + 1`, `I + 2`.
    /// Fails if those three bytes do not all lie within memory.
    pub open spec fn store_bcd_in_mem(self, x: int) -> Result<MachineState, Chip8Error> {
        let v = self.registers[x];
        let i = self.address as int;
        if i + 3 > 4096 {
            Err(Chip8Error::OutOfBoundsMemoryAccess(self.address as usize))
        } else {
            Ok(
                MachineState {
                    memory: self.memory.update(i, v / 100).update(i + 1, (v / 10) % 10).update(
                        i + 2,
                        v % 10,
                    ),
                    ..self
                }.advance(),
            )
        }
    }

    /// `FX55`: `V0` to `Vx` at `I` to `I + x`. Fails if those bytes do not
    /// all lie within memory.
    pub open spec fn store_v0_to_vx_in_mem(self, x: int) -> Result<MachineState, Chip8Error> {
        let i = self.address as int;
        if i + x + 1 > 4096 {
            Err(Chip8Error::OutOfBoundsMemoryAccess(self.address as usize))
        } else {
            Ok(
                MachineState {
                    memory: Seq::new(
                        4096,
                        |a: int|
                            if i <= a <= i + x {
                                self.registers[a - i]
                            } else {
                                self.memory[a]
                            },
                    ),
                    ..self
                }.advance(),
            )
        }
    }

    /// `FX65`: `V0` to `Vx` from `I` to `I + x`. Fails if those bytes do not
    /// all lie within memory.
    pub open spec fn load_v0_to_vx_from_mem(self, x: int) -> Result<MachineState, Chip8Error> {
        let i = self.address as int;
        if i + x + 1 > 4096 {
            Err(Chip8Error::OutOfBoundsMemoryAccess(self.address as usize))
        } else {
            Ok(
                MachineState {
                    registers: Seq::new(
                        16,
                        |r: int|
                            if r <= x {
                                self.memory[i + r]
                            } else {
                                self.registers[r]
                            },
                    ),
                    ..self
                }.advance(),
            )
        }
    }

    /// The effect of `instruction`, taken as the instruction at the program
    /// counter. Fails as the operation fails, and before that if no
    /// instruction can lie at the program counter.
    pub open spec fn execute(self, instruction: Instruction) -> Result<MachineState, Chip8Error> {
        if !self.instruction_in_memory() {
            Err(Chip8Error::OutOfBoundsMemoryAccess(self.pc as usize))
        } else {
            match instruction {
                Instruction::MachineRoutine { routine } => self.call_machine_routine(routine),
                Instruction::ClearDisplay => Ok(self.clear_display()),
                Instruction::Return => self.subroutine_return(),
                Instruction::Jump { addr } => Ok(self.jump(addr)),
                Instruction::Call { addr } => self.call_subroutine(addr),
                Instruction::SkipIfEqual { x, value } => Ok(self.skip_if_vx_eq_nn(x as int, value)),
                Instruction::SkipIfNotEqual { x, value } => Ok(
                    self.skip_if_vx_ne_nn(x as int, value),
                ),
                Instruction::SkipIfRegistersEqual { x, y } => Ok(
                    self.skip_if_vx_eq_vy(x as int, y as int),
                ),
                Instruction::SetImmediate { x, value } => Ok(self.set_vx_to_n(x as int, value)),
                Instruction::AddImmediate { x, value } => Ok(self.add_n_to_vx(x as int, value)),
                Instruction::CopyRegister { x, y } => Ok(self.set_vx_to_vy(x as int, y as int)),
                Instruction::OrRegister { x, y } => Ok(
                    self.set_vx_to_vx_bitor_vy(x as int, y as int),
                ),
                Instruction::AndRegister { x, y } => Ok(
                    self.set_vx_to_vx_bitand_vy(x as int, y as int),
                ),
                Instruction::XorRegister { x, y } => Ok(
                    self.set_vx_to_vx_xor_vy(x as int, y as int),
                ),
                Instruction::AddRegister { x, y } => Ok(self.add_vy_to_vx(x as int, y as int)),
                Instruction::SubtractRegister { x, y } => Ok(
                    self.subtract_vy_from_vx(x as int, y as int),
                ),
                Instruction::ShiftRight { x } => Ok(self.right_shift_vx(x as int)),
                Instruction::SubtractReversed { x, y } => Ok(
                    self.set_vx_to_vy_minus_vx(x as int, y as int),
                ),
                Instruction::ShiftLeft { x } => Ok(self.left_shift_vx(x as int)),
                Instruction::SkipIfRegistersNotEqual { x, y } => Ok(
                    self.skip_if_vx_ne_vy(x as int, y as int),
                ),
                Instruction::SetAddress { addr } => Ok(self.set_i_addr_to_n(addr)),
                Instruction::JumpOffset { addr } => Ok(self.jump_to_n_plus_v0(addr)),
                Instruction::Random { x, mask } => Ok(self.set_to_vx_rand_bitand_n(x as int, mask)),
                Instruction::Draw { x, y, height } => self.draw_sprite_at_coordinates_vx_vy_with_height_n(
                    x as int,
                    y as int,
                    height as int,
                ),
                Instruction::SkipIfKeyPressed { x } => Ok(self.skip_if_key_in_vk_pressed(x as int)),
                Instruction::SkipIfKeyNotPressed { x } => Ok(
                    self.skip_if_key_in_vk_not_pressed(x as int),
                ),
                Instruction::ReadDelayTimer { x } => Ok(self.set_vx_to_delay_timer(x as int)),
                Instruction::WaitForKey { x } => Ok(self.set_vx_to_get_key_blocking(x as int)),
                Instruction::SetDelayTimer { x } => Ok(self.set_delay_timer_to_vx(x as int)),
                Instruction::SetSoundTimer { x } => Ok(self.set_sound_timer_to_vx(x as int)),
                Instruction::AddToAddress { x } => Ok(self.add_vx_to_i(x as int)),
                Instruction::SetAddressToGlyph { x } => Ok(self.set_i_to_sprite_addr(x as int)),
                Instruction::StoreBcd { x } => self.store_bcd_in_mem(x as int),
                Instruction::StoreRegisters { x } => self.store_v0_to_vx_in_mem(x as int),
                Instruction::LoadRegisters { x } => self.load_v0_to_vx_from_mem(x as int),
            }
        }
    }

    /// Executing an instruction on a valid state leaves a valid state.
    pub proof fn lemma_execute_valid(self, instruction: Instruction)
        requires
            self.valid(),
            instruction.valid(),
        ensures
            self.execute(instruction) matches Ok(next) ==> next.valid(),
    {
    }

    /// The instruction at the program counter: the word fetched, decoded.
    pub open spec fn load_instruction(self) -> Result<Instruction, Chip8Error> {
        match self.fetch() {
            Ok(word) => decode_word(word, self.pc as usize),
            Err(e) => Err(e),
        }
    }

    /// One fetch, decode and execute.
    pub open spec fn exec_instruction(self) -> Result<MachineState, Chip8Error> {
        match self.load_instruction() {
            Ok(instruction) => self.execute(instruction),
            Err(e) => Err(e),
        }
    }

    /// Whether the instruction at the program counter writes the
    /// framebuffer.
    pub open spec fn writes_display(self) -> bool {
        self.load_instruction() matches Ok(instruction) && instruction.marks_display()
    }

    /// Whether the machine, met with `instruction`, stands waiting for a
    /// key.
    pub open spec fn waits_for_key(self, instruction: Instruction) -> bool {
        instruction is WaitForKey && self.key is None
    }

    /// One cycle: fetch, decode, execute, and then one tick of both timers.
    /// A machine that waits for a key stands still, timers included.
    pub open spec fn step(self) -> Result<MachineState, Chip8Error> {
        match self.load_instruction() {
            Ok(instruction) => match self.execute(instruction) {
                Ok(next) => Ok(
                    if self.waits_for_key(instruction) {
                        next
                    } else {
                        next.tick_timers()
                    },
                ),
                Err(e) => Err(e),
            },
            Err(e) => Err(e),
        }
    }

    /// Both timers one tick on.
    pub open spec fn tick_timers(self) -> MachineState {
        MachineState {
            delay_timer: tick(self.delay_timer),
            sound_timer: tick(self.sound_timer),
            ..self
        }
    }
}

} // verus!
