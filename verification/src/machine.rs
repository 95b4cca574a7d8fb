//! The machine itself: the state, the executor's operations and the step
//! driver.

use vstd::prelude::*;
use crate::decoder::decode;
use crate::display::FrameBuffer;
use crate::error::Chip8Error;
use crate::font::{glyph_address_of, FONT};
use crate::instruction::Instruction;
use crate::random::{advance_seed, high_byte};
use crate::state::{MachineState, DEFAULT_SEED, MEMORY_SIZE, PROGRAM_START, STACK_CAPACITY};

verus! {

/// A CHIP-8 machine. `Vx` is the register with index `x`, `VF` the last of
/// the sixteen, `I` the address register.
#[derive(Debug, PartialEq, Eq)]
pub struct Chip8 {
    mem: [u8; 4096],
    registers: [u8; 16],
    address_register: u16,
    pc: usize,
    /// The return addresses; the first `stack_pointer` slots are in use.
    stack: [usize; 12],
    stack_pointer: u8,
    display: FrameBuffer,
    current_key: Option<u8>,
    delay_timer: u8,
    sound_timer: u8,
    refresh_display: bool,
    seed: u32,
}

impl View for Chip8 {
    type V = MachineState;

    /// The state that the fields hold: memory, registers and pixels as
    /// sequences, and of the stack the slots in use.
    closed spec fn view(&self) -> MachineState {
        MachineState {
            memory: self.mem@,
            registers: self.registers@,
            address: self.address_register,
            pc: self.pc as int,
            stack: Seq::new(self.stack_pointer as nat, |i: int| self.stack[i] as int),
            pixels: self.display@,
            key: self.current_key,
            delay_timer: self.delay_timer,
            sound_timer: self.sound_timer,
            refresh_display: self.refresh_display,
            seed: self.seed,
        }
    }
}

impl Chip8 {
    /// The stack pointer is within the stack, and the key is one of the
    /// sixteen.
    #[verifier::type_invariant]
    spec fn well_formed(self) -> bool {
        &&& self.stack_pointer <= 12
        &&& (self.current_key matches Some(k) ==> k < 16)
    }

    /// A machine with `program` loaded at 0x200, ready to run it.
    pub fn new(program: &[u8]) -> (chip8: Self)
        requires
            program@.len() <= MEMORY_SIZE - PROGRAM_START,
        ensures
            chip8@ == MachineState::initial(program@),
            chip8@.valid(),
    {
        let mut mem = [0u8; 4096];
        let mut i: usize = 0;
        while i < 80
            invariant
                i <= 80,
                forall|a: int| 0 <= a < 4096 ==> mem[a] == (if 0x50 <= a < 0x50 + i {
                    FONT[a - 0x50]
                } else {
                    0u8
                }),
            decreases 80 - i,
        {
            mem[0x50 + i] = FONT[i];
            i = i + 1;
        }
        let mut j: usize = 0;
        while j < program.len()
            invariant
                j <= program@.len() <= 4096 - 0x200,
                forall|a: int| 0 <= a < 4096 ==> mem[a] == (if 0x50 <= a < 0xA0 {
                    FONT[a - 0x50]
                } else if 0x200 <= a < 0x200 + j {
                    program@[a - 0x200]
                } else {
                    0u8
                }),
            decreases program@.len() - j,
        {
            mem[PROGRAM_START + j] = program[j];
            j = j + 1;
        }
        let chip8 = Chip8 {
            mem,
            registers: [0u8; 16],
            address_register: 0,
            pc: PROGRAM_START,
            stack: [0usize; 12],
            stack_pointer: 0,
            display: FrameBuffer::new(),
            current_key: None,
            delay_timer: 0,
            sound_timer: 0,
            refresh_display: true,
            seed: DEFAULT_SEED,
        };
        proof {
            let init = MachineState::initial(program@);
            assert(chip8@.memory =~= init.memory);
            assert(chip8@.registers =~= init.registers);
            assert(chip8@.stack =~= init.stack);
        }
        chip8
    }

    /// The program counter.
    pub fn pc(&self) -> (pc: usize)
        ensures
            pc == self@.pc,
    {
        self.pc
    }

    /// The register `Vx`.
    pub fn register(&self, x: u8) -> (value: u8)
        requires
            x < 16,
        ensures
            value == self@.registers[x as int],
    {
        self.registers[x as usize]
    }

    /// The address register `I`.
    pub fn address_register(&self) -> (addr: u16)
        ensures
            addr == self@.address,
    {
        self.address_register
    }

    /// The byte of memory at `addr`. Fails with
    /// `OutOfBoundsMemoryAccess(addr)` if `addr` does not lie within memory.
    pub fn read_memory(&self, addr: usize) -> (r: Result<u8, Chip8Error>)
        ensures
            r == (if addr < 4096 {
                Ok::<u8, Chip8Error>(self@.memory[addr as int])
            } else {
                Err::<u8, Chip8Error>(Chip8Error::OutOfBoundsMemoryAccess(addr))
            }),
    {
        if addr < MEMORY_SIZE {
            Ok(self.mem[addr])
        } else {
            Err(Chip8Error::OutOfBoundsMemoryAccess(addr))
        }
    }

    /// The number of calls outstanding.
    pub fn stack_depth(&self) -> (depth: usize)
        ensures
            depth == self@.stack.len(),
            depth <= STACK_CAPACITY,
    {
        proof {
            use_type_invariant(self);
        }
        self.stack_pointer as usize
    }

    /// The delay timer.
    pub fn delay_timer(&self) -> (timer: u8)
        ensures
            timer == self@.delay_timer,
    {
        self.delay_timer
    }

    /// The sound timer. While it is not zero, sound is due.
    pub fn sound_timer(&self) -> (timer: u8)
        ensures
            timer == self@.sound_timer,
    {
        self.sound_timer
    }

    /// Whether the pixel in column `x` of row `y` is on.
    pub fn pixel(&self, x: usize, y: usize) -> (on: bool)
        requires
            x < 64,
            y < 32,
        ensures
            on == self@.pixel(x as int, y as int),
    {
        self.display.pixel(x, y)
    }

    /// Whether the framebuffer was written since the flag was last taken.
    pub fn refresh_display(&self) -> (dirty: bool)
        ensures
            dirty == self@.refresh_display,
    {
        self.refresh_display
    }

    /// Takes the flag: says whether the framebuffer was written since the
    /// flag was last taken, and lowers it.
    pub fn take_refresh_display(&mut self) -> (dirty: bool)
        ensures
            dirty == old(self)@.refresh_display,
            final(self)@ == (MachineState { refresh_display: false, ..old(self)@ }),
    {
        proof {
            use_type_invariant(&*self);
        }
        let dirty = self.refresh_display;
        self.refresh_display = false;
        dirty
    }

    /// The key that is down, if any.
    pub fn current_key(&self) -> (key: Option<u8>)
        ensures
            key == self@.key,
            key matches Some(k) ==> k < 16,
    {
        proof {
            use_type_invariant(self);
        }
        self.current_key
    }

    /// Tells the machine which key is down, if any.
    pub fn set_current_key(&mut self, key: Option<u8>)
        requires
            key matches Some(k) ==> k < 16,
        ensures
            final(self)@ == (MachineState { key, ..old(self)@ }),
    {
        proof {
            use_type_invariant(&*self);
        }
        self.current_key = key;
    }

    /// Starts the pseudo-random source anew from `seed`.
    pub fn seed_random(&mut self, seed: u32)
        ensures
            final(self)@ == (MachineState { seed, ..old(self)@ }),
    {
        proof {
            use_type_invariant(&*self);
        }
        self.seed = seed;
    }

    /// `1NNN`: jumps to `addr`.
    fn jump(&mut self, addr: u16)
        ensures
            final(self)@ == old(self)@.jump(addr),
    {
        proof {
            use_type_invariant(&*self);
        }
        self.pc = addr as usize;
    }

    /// `0NNN`: calls the machine routine `routine`. None is implemented, so
    /// the call always fails, and changes nothing.
    fn call_machine_routine(&mut self, routine: u16) -> (r: Result<(), Chip8Error>)
        ensures
            r == Err::<(), Chip8Error>(Chip8Error::UnknownMachineRoutine(routine)),
            old(self)@.call_machine_routine(routine) == Err::<MachineState, Chip8Error>(
                Chip8Error::UnknownMachineRoutine(routine),
            ),
            final(self)@ == old(self)@,
    {
        Err(Chip8Error::UnknownMachineRoutine(routine))
    }

    /// `00E0`: turns every pixel off and marks the frame.
    fn clear_display(&mut self)
        requires
            old(self)@.instruction_in_memory(),
        ensures
            final(self)@ == old(self)@.clear_display(),
    {
        proof {
            use_type_invariant(&*self);
        }
        self.display.clear();
        self.refresh_display = true;
        self.pc = self.pc + 2;
    }

    /// `00EE`: returns to the address that the newest outstanding call
    /// saved. Fails with `StackUnderflow`, and changes nothing, if no call is
    /// outstanding.
    fn subroutine_return(&mut self) -> (r: Result<(), Chip8Error>)
        ensures
            match r {
                Ok(()) => old(self)@.subroutine_return() == Ok::<MachineState, Chip8Error>(
                    final(self)@,
                ),
                Err(e) => old(self)@.subroutine_return() == Err::<MachineState, Chip8Error>(e)
                    && final(self)@ == old(self)@,
            },
    {
        proof {
            use_type_invariant(&*self);
        }
        if self.stack_pointer == 0 {
            return Err(Chip8Error::StackUnderflow);
        }
        self.stack_pointer = self.stack_pointer - 1;
        self.pc = self.stack[self.stack_pointer as usize];
        proof {
            assert(self@.stack =~= old(self)@.stack.drop_last());
        }
        Ok(())
    }

    /// `2NNN`: saves the address of the next instruction and jumps to
    /// `addr`. Fails with `StackOverflow`, and changes nothing, if the stack
    /// is full.
    fn call_subroutine(&mut self, addr: u16) -> (r: Result<(), Chip8Error>)
        requires
            old(self)@.instruction_in_memory(),
        ensures
            match r {
                Ok(()) => old(self)@.call_subroutine(addr) == Ok::<MachineState, Chip8Error>(
                    final(self)@,
                ),
                Err(e) => old(self)@.call_subroutine(addr) == Err::<MachineState, Chip8Error>(e)
                    && final(self)@ == old(self)@,
            },
    {
        proof {
            use_type_invariant(&*self);
        }
        if self.stack_pointer as usize >= STACK_CAPACITY {
            return Err(Chip8Error::StackOverflow);
        }
        self.stack[self.stack_pointer as usize] = self.pc + 2;
        self.stack_pointer = self.stack_pointer + 1;
        self.pc = addr as usize;
        proof {
            assert(self@.stack =~= old(self)@.stack.push(old(self)@.pc + 2));
        }
        Ok(())
    }

    /// Moves the program counter past the next instruction if `condition`
    /// holds, and onto it otherwise.
    fn skip_next_if(&mut self, condition: bool)
        requires
            old(self)@.instruction_in_memory(),
        ensures
            final(self)@ == old(self)@.skip_if(condition),
    {
        proof {
            use_type_invariant(&*self);
        }
        if condition {
            self.pc = self.pc + 4;
        } else {
            self.pc = self.pc + 2;
        }
    }

    /// `3XNN`: skips the next instruction if `Vx == value`.
    fn skip_if_vx_eq_nn(&mut self, x: u8, value: u8)
        requires
            x < 16,
            old(self)@.instruction_in_memory(),
        ensures
            final(self)@ == old(self)@.skip_if_vx_eq_nn(x as int, value),
    {
        let equal = self.registers[x as usize] == value;
        self.skip_next_if(equal);
    }

    /// `4XNN`: skips the next instruction if `Vx != value`.
    fn skip_if_vx_ne_nn(&mut self, x: u8, value: u8)
        requires
            x < 16,
            old(self)@.instruction_in_memory(),
        ensures
            final(self)@ == old(self)@.skip_if_vx_ne_nn(x as int, value),
    {
        let differ = self.registers[x as usize] != value;
        self.skip_next_if(differ);
    }

    /// `5XY_`: skips the next instruction if `Vx == Vy`.
    fn skip_if_vx_eq_vy(&mut self, x: u8, y: u8)
        requires
            x < 16,
            y < 16,
            old(self)@.instruction_in_memory(),
        ensures
            final(self)@ == old(self)@.skip_if_vx_eq_vy(x as int, y as int),
    {
        let equal = self.registers[x as usize] == self.registers[y as usize];
        self.skip_next_if(equal);
    }

    /// `9XY_`: skips the next instruction if `Vx != Vy`.
    fn skip_if_vx_ne_vy(&mut self, x: u8, y: u8)
        requires
            x < 16,
            y < 16,
            old(self)@.instruction_in_memory(),
        ensures
            final(self)@ == old(self)@.skip_if_vx_ne_vy(x as int, y as int),
    {
        let differ = self.registers[x as usize] != self.registers[y as usize];
        self.skip_next_if(differ);
    }

    /// `EX9E`: skips the next instruction if the key that is down is `Vx`.
    fn skip_if_key_in_vk_pressed(&mut self, x: u8)
        requires
            x < 16,
            old(self)@.instruction_in_memory(),
        ensures
            final(self)@ == old(self)@.skip_if_key_in_vk_pressed(x as int),
    {
        let pressed = match self.current_key {
            Some(k) => k == self.registers[x as usize],
            None => false,
        };
        self.skip_next_if(pressed);
    }

    /// `EXA1`: skips the next instruction unless the key that is down is
    /// `Vx`.
    fn skip_if_key_in_vk_not_pressed(&mut self, x: u8)
        requires
            x < 16,
            old(self)@.instruction_in_memory(),
        ensures
            final(self)@ == old(self)@.skip_if_key_in_vk_not_pressed(x as int),
    {
        let pressed = match self.current_key {
            Some(k) => k == self.registers[x as usize],
            None => false,
        };
        self.skip_next_if(!pressed);
    }

    /// `BNNN`: jumps to `addr + V0`.
    fn jump_to_n_plus_v0(&mut self, addr: u16)
        ensures
            final(self)@ == old(self)@.jump_to_n_plus_v0(addr),
    {
        proof {
            use_type_invariant(&*self);
        }
        self.pc = addr as usize + self.registers[0] as usize;
    }

    /// Puts `value` into `Vx` and moves on to the next instruction.
    fn store_and_advance(&mut self, x: u8, value: u8)
        requires
            x < 16,
            old(self)@.instruction_in_memory(),
        ensures
            final(self)@ == old(self)@.with_register(x as int, value).advance(),
    {
        proof {
            use_type_invariant(&*self);
        }
        self.registers[x as usize] = value;
        self.pc = self.pc + 2;
    }

    /// Puts `value` into `Vx`, then `flag` into `VF`, and moves on to the
    /// next instruction.
    fn store_with_flag(&mut self, x: u8, value: u8, flag: u8)
        requires
            x < 16,
            old(self)@.instruction_in_memory(),
        ensures
            final(self)@ == old(self)@.with_register(x as int, value).with_register(
                0xF,
                flag,
            ).advance(),
    {
        proof {
            use_type_invariant(&*self);
        }
        self.registers[x as usize] = value;
        self.registers[0xF] = flag;
        self.pc = self.pc + 2;
    }

    /// `6XNN`: puts `value` into `Vx`.
    fn set_vx_to_n(&mut self, x: u8, value: u8)
        requires
            x < 16,
            old(self)@.instruction_in_memory(),
        ensures
            final(self)@ == old(self)@.set_vx_to_n(x as int, value),
    {
        self.store_and_advance(x, value);
    }

    /// `7XNN`: adds `value` to `Vx`, modulo 256. `VF` is left alone.
    fn add_n_to_vx(&mut self, x: u8, value: u8)
        requires
            x < 16,
            old(self)@.instruction_in_memory(),
        ensures
            final(self)@ == old(self)@.add_n_to_vx(x as int, value),
    {
        let sum: u16 = self.registers[x as usize] as u16 + value as u16;
        self.store_and_advance(x, (sum % 256) as u8);
    }

    /// `8XY0`: copies `Vy` into `Vx`.
    fn set_vx_to_vy(&mut self, x: u8, y: u8)
        requires
            x < 16,
            y < 16,
            old(self)@.instruction_in_memory(),
        ensures
            final(self)@ == old(self)@.set_vx_to_vy(x as int, y as int),
    {
        let value = self.registers[y as usize];
        self.store_and_advance(x, value);
    }

    /// `8XY1`: `Vx = Vx | Vy`.
    fn set_vx_to_vx_bitor_vy(&mut self, x: u8, y: u8)
        requires
            x < 16,
            y < 16,
            old(self)@.instruction_in_memory(),
        ensures
            final(self)@ == old(self)@.set_vx_to_vx_bitor_vy(x as int, y as int),
    {
        let value = self.registers[x as usize] | self.registers[y as usize];
        self.store_and_advance(x, value);
    }

    /// `8XY2`: `Vx = Vx & Vy`.
    fn set_vx_to_vx_bitand_vy(&mut self, x: u8, y: u8)
        requires
            x < 16,
            y < 16,
            old(self)@.instruction_in_memory(),
        ensures
            final(self)@ == old(self)@.set_vx_to_vx_bitand_vy(x as int, y as int),
    {
        let value = self.registers[x as usize] & self.registers[y as usize];
        self.store_and_advance(x, value);
    }

    /// `8XY3`: `Vx = Vx ^ Vy`.
    fn set_vx_to_vx_xor_vy(&mut self, x: u8, y: u8)
        requires
            x < 16,
            y < 16,
            old(self)@.instruction_in_memory(),
        ensures
            final(self)@ == old(self)@.set_vx_to_vx_xor_vy(x as int, y as int),
    {
        let value = self.registers[x as usize] ^ self.registers[y as usize];
        self.store_and_advance(x, value);
    }

    /// `8XY4`: adds `Vy` to `Vx`, modulo 256; then `VF` is 1 if the sum
    /// exceeded 255, else 0.
    fn add_vy_to_vx(&mut self, x: u8, y: u8)
        requires
            x < 16,
            y < 16,
            old(self)@.instruction_in_memory(),
        ensures
            final(self)@ == old(self)@.add_vy_to_vx(x as int, y as int),
    {
        let sum: u16 = self.registers[x as usize] as u16 + self.registers[y as usize] as u16;
        let carry: u8 = if sum > 255 {
            1
        } else {
            0
        };
        self.store_with_flag(x, (sum % 256) as u8, carry);
    }

    /// `8XY5`: subtracts `Vy` from `Vx`, modulo 256; then `VF` is 1 if
    /// `Vx >= Vy` held before, else 0.
    fn subtract_vy_from_vx(&mut self, x: u8, y: u8)
        requires
            x < 16,
            y < 16,
            old(self)@.instruction_in_memory(),
        ensures
            final(self)@ == old(self)@.subtract_vy_from_vx(x as int, y as int),
    {
        let a = self.registers[x as usize];
        let b = self.registers[y as usize];
        let no_borrow: u8 = if a >= b {
            1
        } else {
            0
        };
        self.store_with_flag(x, a.wrapping_sub(b), no_borrow);
    }

    /// `8X_6`: halves `Vx`; then `VF` is the bit that left on the right.
    fn right_shift_vx(&mut self, x: u8)
        requires
            x < 16,
            old(self)@.instruction_in_memory(),
        ensures
            final(self)@ == old(self)@.right_shift_vx(x as int),
    {
        let a = self.registers[x as usize];
        proof {
            assert(a >> 1 == a / 2 && a & 1 == a % 2) by (bit_vector);
        }
        self.store_with_flag(x, a >> 1, a & 1);
    }

    /// `8XY7`: `Vx = Vy - Vx`, modulo 256; then `VF` is 1 if `Vy >= Vx` held
    /// before, else 0.
    fn set_vx_to_vy_minus_vx(&mut self, x: u8, y: u8)
        requires
            x < 16,
            y < 16,
            old(self)@.instruction_in_memory(),
        ensures
            final(self)@ == old(self)@.set_vx_to_vy_minus_vx(x as int, y as int),
    {
        let a = self.registers[x as usize];
        let b = self.registers[y as usize];
        let no_borrow: u8 = if b >= a {
            1
        } else {
            0
        };
        self.store_with_flag(x, b.wrapping_sub(a), no_borrow);
    }

    /// `8X_E`: doubles `Vx`, modulo 256; then `VF` is the bit that left on
    /// the left.
    fn left_shift_vx(&mut self, x: u8)
        requires
            x < 16,
            old(self)@.instruction_in_memory(),
        ensures
            final(self)@ == old(self)@.left_shift_vx(x as int),
    {
        let a = self.registers[x as usize];
        proof {
            assert(a << 1 == (a * 2) % 256 && (a & 0x80) >> 7 == a / 128) by (bit_vector);
        }
        self.store_with_flag(x, a << 1, (a & 0x80) >> 7);
    }

    /// `ANNN`: puts `addr` into `I`.
    fn set_i_addr_to_n(&mut self, addr: u16)
        requires
            old(self)@.instruction_in_memory(),
        ensures
            final(self)@ == old(self)@.set_i_addr_to_n(addr),
    {
        proof {
            use_type_invariant(&*self);
        }
        self.address_register = addr;
        self.pc = self.pc + 2;
    }

    /// `CXNN`: moves the pseudo-random source on and puts its byte, masked
    /// by `mask`, into `Vx`.
    fn set_to_vx_rand_bitand_n(&mut self, x: u8, mask: u8)
        requires
            x < 16,
            old(self)@.instruction_in_memory(),
        ensures
            final(self)@ == old(self)@.set_to_vx_rand_bitand_n(x as int, mask),
    {
        proof {
            use_type_invariant(&*self);
        }
        self.seed = advance_seed(self.seed);
        let byte = high_byte(self.seed);
        self.store_and_advance(x, byte & mask);
    }

    /// `FX07`: copies the delay timer into `Vx`.
    fn set_vx_to_delay_timer(&mut self, x: u8)
        requires
            x < 16,
            old(self)@.instruction_in_memory(),
        ensures
            final(self)@ == old(self)@.set_vx_to_delay_timer(x as int),
    {
        let value = self.delay_timer;
        self.store_and_advance(x, value);
    }

    /// `FX0A`: with a key down, puts the key into `Vx` and moves on; with
    /// none, changes nothing, so that the instruction is met again.
    fn set_vx_to_get_key_blocking(&mut self, x: u8)
        requires
            x < 16,
            old(self)@.instruction_in_memory(),
        ensures
            final(self)@ == old(self)@.set_vx_to_get_key_blocking(x as int),
    {
        match self.current_key {
            Some(k) => self.store_and_advance(x, k),
            None => {},
        }
    }

    /// `FX15`: copies `Vx` into the delay timer.
    fn set_delay_timer_to_vx(&mut self, x: u8)
        requires
            x < 16,
            old(self)@.instruction_in_memory(),
        ensures
            final(self)@ == old(self)@.set_delay_timer_to_vx(x as int),
    {
        proof {
            use_type_invariant(&*self);
        }
        self.delay_timer = self.registers[x as usize];
        self.pc = self.pc + 2;
    }

    /// `FX18`: copies `Vx` into the sound timer.
    fn set_sound_timer_to_vx(&mut self, x: u8)
        requires
            x < 16,
            old(self)@.instruction_in_memory(),
        ensures
            final(self)@ == old(self)@.set_sound_timer_to_vx(x as int),
    {
        proof {
            use_type_invariant(&*self);
        }
        self.sound_timer = self.registers[x as usize];
        self.pc = self.pc + 2;
    }

    /// `FX1E`: adds `Vx` to `I`, modulo 65536. `VF` is left alone.
    fn add_vx_to_i(&mut self, x: u8)
        requires
            x < 16,
            old(self)@.instruction_in_memory(),
        ensures
            final(self)@ == old(self)@.add_vx_to_i(x as int),
    {
        proof {
            use_type_invariant(&*self);
        }
        self.address_register = self.address_register.wrapping_add(self.registers[x as usize] as u16);
        self.pc = self.pc + 2;
    }

    /// `FX29`: puts into `I` the address of the glyph for the low nibble of
    /// `Vx`.
    fn set_i_to_sprite_addr(&mut self, x: u8)
        requires
            x < 16,
            old(self)@.instruction_in_memory(),
        ensures
            final(self)@ == old(self)@.set_i_to_sprite_addr(x as int),
    {
        proof {
            use_type_invariant(&*self);
        }
        self.address_register = glyph_address_of(self.registers[x as usize]);
        self.pc = self.pc + 2;
    }

    /// `FX33`: writes the hundreds, the tens and the ones of `Vx` to `I`,
    /// `I + 1` and `I + 2`. Fails with `OutOfBoundsMemoryAccess(I)`, and
    /// changes nothing, if those bytes do not all lie within memory.
    fn store_bcd_in_mem(&mut self, x: u8) -> (r: Result<(), Chip8Error>)
        requires
            x < 16,
            old(self)@.instruction_in_memory(),
        ensures
            match r {
                Ok(()) => old(self)@.store_bcd_in_mem(x as int) == Ok::<MachineState, Chip8Error>(
                    final(self)@,
                ),
                Err(e) => old(self)@.store_bcd_in_mem(x as int) == Err::<MachineState, Chip8Error>(
                    e,
                ) && final(self)@ == old(self)@,
            },
    {
        proof {
            use_type_invariant(&*self);
        }
        let base: usize = self.address_register as usize;
        if base + 3 > MEMORY_SIZE {
            return Err(Chip8Error::OutOfBoundsMemoryAccess(base));
        }
        let value = self.registers[x as usize];
        self.mem[base] = value / 100;
        self.mem[base + 1] = (value / 10) % 10;
        self.mem[base + 2] = value % 10;
        self.pc = self.pc + 2;
        Ok(())
    }

    /// `FX55`: writes `V0` to `Vx` to `I` to `I + x`; `I` is left alone.
    /// Fails with `OutOfBoundsMemoryAccess(I)`, and changes nothing, if those
    /// bytes do not all lie within memory.
    fn store_v0_to_vx_in_mem(&mut self, x: u8) -> (r: Result<(), Chip8Error>)
        requires
            x < 16,
            old(self)@.instruction_in_memory(),
        ensures
            match r {
                Ok(()) => old(self)@.store_v0_to_vx_in_mem(x as int) == Ok::<
                    MachineState,
                    Chip8Error,
                >(final(self)@),
                Err(e) => old(self)@.store_v0_to_vx_in_mem(x as int) == Err::<
                    MachineState,
                    Chip8Error,
                >(e) && final(self)@ == old(self)@,
            },
    {
        proof {
            use_type_invariant(&*self);
        }
        let ghost before = self@;
        let base: usize = self.address_register as usize;
        let last: usize = x as usize;
        if base + last + 1 > MEMORY_SIZE {
            return Err(Chip8Error::OutOfBoundsMemoryAccess(base));
        }
        let mut i: usize = 0;
        while i <= last
            invariant
                last < 16,
                i <= last + 1,
                base == before.address,
                base + last + 1 <= 4096,
                before.memory.len() == 4096,
                before.registers.len() == 16,
                self@ == (MachineState { memory: self@.memory, ..before }),
                self@.memory.len() == 4096,
                forall|a: int|
                    0 <= a < 4096 ==> #[trigger] self@.memory[a] == (if base <= a < base + i {
                        before.registers[a - base]
                    } else {
                        before.memory[a]
                    }),
            decreases last + 1 - i,
        {
            proof {
                use_type_invariant(&*self);
            }
            self.mem[base + i] = self.registers[i];
            i = i + 1;
        }
        proof {
            use_type_invariant(&*self);
        }
        self.pc = self.pc + 2;
        proof {
            let expected = before.store_v0_to_vx_in_mem(x as int)->Ok_0;
            assert(self@.memory =~= expected.memory);
        }
        Ok(())
    }

    /// `FX65`: reads `V0` to `Vx` from `I` to `I + x`; `I` is left alone.
    /// Fails with `OutOfBoundsMemoryAccess(I)`, and changes nothing, if those
    /// bytes do not all lie within memory.
    fn load_v0_to_vx_from_mem(&mut self, x: u8) -> (r: Result<(), Chip8Error>)
        requires
            x < 16,
            old(self)@.instruction_in_memory(),
        ensures
            match r {
                Ok(()) => old(self)@.load_v0_to_vx_from_mem(x as int) == Ok::<
                    MachineState,
                    Chip8Error,
                >(final(self)@),
                Err(e) => old(self)@.load_v0_to_vx_from_mem(x as int) == Err::<
                    MachineState,
                    Chip8Error,
                >(e) && final(self)@ == old(self)@,
            },
    {
        proof {
            use_type_invariant(&*self);
        }
        let ghost before = self@;
        let base: usize = self.address_register as usize;
        let last: usize = x as usize;
        if base + last + 1 > MEMORY_SIZE {
            return Err(Chip8Error::OutOfBoundsMemoryAccess(base));
        }
        let mut i: usize = 0;
        while i <= last
            invariant
                last < 16,
                i <= last + 1,
                base == before.address,
                base + last + 1 <= 4096,
                before.memory.len() == 4096,
                before.registers.len() == 16,
                self@ == (MachineState { registers: self@.registers, ..before }),
                self@.registers.len() == 16,
                forall|r: int|
                    0 <= r < 16 ==> #[trigger] self@.registers[r] == (if r < i {
                        before.memory[base + r]
                    } else {
                        before.registers[r]
                    }),
            decreases last + 1 - i,
        {
            proof {
                use_type_invariant(&*self);
            }
            self.registers[i] = self.mem[base + i];
            i = i + 1;
        }
        proof {
            use_type_invariant(&*self);
        }
        self.pc = self.pc + 2;
        proof {
            let expected = before.load_v0_to_vx_from_mem(x as int)->Ok_0;
            assert(self@.registers =~= expected.registers);
        }
        Ok(())
    }

    /// `DXYN`: draws the sprite of `height` rows that lies at `I`, its top
    /// left pixel at column `Vx mod 64` of row `Vy mod 32`. Each row is one
    /// byte, its most significant bit leftmost. A pixel under a set bit is
    /// flipped; columns run on from 63 to 0 and rows from 31 to 0. `VF`
    /// becomes 1 if a pixel went off, else 0, and the frame is marked.
    ///
    /// Fails with `OutOfBoundsMemoryAccess(I)`, and changes nothing, if the
    /// sprite's rows do not all lie within memory.
    fn draw_sprite_at_coordinates_vx_vy_with_height_n(
        &mut self,
        x: u8,
        y: u8,
        height: u8,
    ) -> (r: Result<(), Chip8Error>)
        requires
            x < 16,
            y < 16,
            height < 16,
            old(self)@.instruction_in_memory(),
        ensures
            match r {
                Ok(()) => old(self)@.draw_sprite_at_coordinates_vx_vy_with_height_n(
                    x as int,
                    y as int,
                    height as int,
                ) == Ok::<MachineState, Chip8Error>(final(self)@),
                Err(e) => old(self)@.draw_sprite_at_coordinates_vx_vy_with_height_n(
                    x as int,
                    y as int,
                    height as int,
                ) == Err::<MachineState, Chip8Error>(e) && final(self)@ == old(self)@,
            },
    {
        proof {
            use_type_invariant(&*self);
        }
        let ghost before = self@;
        let base: usize = self.address_register as usize;
        let rows: usize = height as usize;
        if base + rows > MEMORY_SIZE {
            return Err(Chip8Error::OutOfBoundsMemoryAccess(base));
        }
        let x0: usize = (self.registers[x as usize] % 64) as usize;
        let y0: usize = (self.registers[y as usize] % 32) as usize;
        let mut collision = false;
        let mut row: usize = 0;
        proof {
            self.display.lemma_len();
        }
        while row < rows
            invariant
                x < 16,
                y < 16,
                rows < 16,
                row <= rows,
                base == before.address,
                base + rows <= 4096,
                x0 == before.registers[x as int] % 64,
                y0 == before.registers[y as int] % 32,
                before.pixels.len() == 2048,
                before.memory == self.mem@,
                self@ == (MachineState { pixels: self@.pixels, ..before }),
                self@.pixels == before.pixels_after_rows(x as int, y as int, row as int),
                collision == before.sprite_collides(x as int, y as int, row as int),
            decreases rows - row,
        {
            proof {
                use_type_invariant(&*self);
                before.lemma_draw_row(x as int, y as int, row as int);
            }
            let bits = self.mem[base + row];
            let yy: usize = (y0 + row) % 32;
            let hit = self.display.xor_byte(x0, yy, bits);
            collision = collision || hit;
            row = row + 1;
        }
        proof {
            use_type_invariant(&*self);
        }
        self.registers[0xF] = if collision {
            1
        } else {
            0
        };
        self.refresh_display = true;
        self.pc = self.pc + 2;
        Ok(())
    }

    /// Fetches the word at the program counter, high byte first. Fails with
    /// `OutOfBoundsMemoryAccess(pc)` if its two bytes do not both lie within
    /// memory.
    pub fn load_opcode(&self) -> (r: Result<u16, Chip8Error>)
        ensures
            r == self@.fetch(),
    {
        if self.pc > MEMORY_SIZE - 2 {
            return Err(Chip8Error::OutOfBoundsMemoryAccess(self.pc));
        }
        let upper = self.mem[self.pc];
        let lower = self.mem[self.pc + 1];
        Ok(upper as u16 * 256 + lower as u16)
    }

    /// Executes `instruction` as the instruction at the program counter: the
    /// operation runs, and the program counter moves to the next instruction
    /// unless the operation sets it.
    ///
    /// Fails, and changes nothing, with the operation's own condition, or
    /// with `OutOfBoundsMemoryAccess(pc)` if no instruction can lie at the
    /// program counter.
    pub fn execute(&mut self, instruction: Instruction) -> (r: Result<(), Chip8Error>)
        requires
            instruction.valid(),
        ensures
            match r {
                Ok(()) => old(self)@.execute(instruction) == Ok::<MachineState, Chip8Error>(
                    final(self)@,
                ),
                Err(e) => old(self)@.execute(instruction) == Err::<MachineState, Chip8Error>(e)
                    && final(self)@ == old(self)@,
            },
            final(self)@.valid(),
    {
        proof {
            use_type_invariant(&*self);
            self.display.lemma_len();
            self@.lemma_execute_valid(instruction);
        }
        if self.pc > MEMORY_SIZE - 2 {
            return Err(Chip8Error::OutOfBoundsMemoryAccess(self.pc));
        }
        match instruction {
            Instruction::MachineRoutine { routine } => self.call_machine_routine(routine),
            Instruction::ClearDisplay => {
                self.clear_display();
                Ok(())
            },
            Instruction::Return => self.subroutine_return(),
            Instruction::Jump { addr } => {
                self.jump(addr);
                Ok(())
            },
            Instruction::Call { addr } => self.call_subroutine(addr),
            Instruction::SkipIfEqual { x, value } => {
                self.skip_if_vx_eq_nn(x, value);
                Ok(())
            },
            Instruction::SkipIfNotEqual { x, value } => {
                self.skip_if_vx_ne_nn(x, value);
                Ok(())
            },
            Instruction::SkipIfRegistersEqual { x, y } => {
                self.skip_if_vx_eq_vy(x, y);
                Ok(())
            },
            Instruction::SetImmediate { x, value } => {
                self.set_vx_to_n(x, value);
                Ok(())
            },
            Instruction::AddImmediate { x, value } => {
                self.add_n_to_vx(x, value);
                Ok(())
            },
            Instruction::CopyRegister { x, y } => {
                self.set_vx_to_vy(x, y);
                Ok(())
            },
            Instruction::OrRegister { x, y } => {
                self.set_vx_to_vx_bitor_vy(x, y);
                Ok(())
            },
            Instruction::AndRegister { x, y } => {
                self.set_vx_to_vx_bitand_vy(x, y);
                Ok(())
            },
            Instruction::XorRegister { x, y } => {
                self.set_vx_to_vx_xor_vy(x, y);
                Ok(())
            },
            Instruction::AddRegister { x, y } => {
                self.add_vy_to_vx(x, y);
                Ok(())
            },
            Instruction::SubtractRegister { x, y } => {
                self.subtract_vy_from_vx(x, y);
                Ok(())
            },
            Instruction::ShiftRight { x } => {
                self.right_shift_vx(x);
                Ok(())
            },
            Instruction::SubtractReversed { x, y } => {
                self.set_vx_to_vy_minus_vx(x, y);
                Ok(())
            },
            Instruction::ShiftLeft { x } => {
                self.left_shift_vx(x);
                Ok(())
            },
            Instruction::SkipIfRegistersNotEqual { x, y } => {
                self.skip_if_vx_ne_vy(x, y);
                Ok(())
            },
            Instruction::SetAddress { addr } => {
                self.set_i_addr_to_n(addr);
                Ok(())
            },
            Instruction::JumpOffset { addr } => {
                self.jump_to_n_plus_v0(addr);
                Ok(())
            },
            Instruction::Random { x, mask } => {
                self.set_to_vx_rand_bitand_n(x, mask);
                Ok(())
            },
            Instruction::Draw { x, y, height } => self.draw_sprite_at_coordinates_vx_vy_with_height_n(
                x,
                y,
                height,
            ),
            Instruction::SkipIfKeyPressed { x } => {
                self.skip_if_key_in_vk_pressed(x);
                Ok(())
            },
            Instruction::SkipIfKeyNotPressed { x } => {
                self.skip_if_key_in_vk_not_pressed(x);
                Ok(())
            },
            Instruction::ReadDelayTimer { x } => {
                self.set_vx_to_delay_timer(x);
                Ok(())
            },
            Instruction::WaitForKey { x } => {
                self.set_vx_to_get_key_blocking(x);
                Ok(())
            },
            Instruction::SetDelayTimer { x } => {
                self.set_delay_timer_to_vx(x);
                Ok(())
            },
            Instruction::SetSoundTimer { x } => {
                self.set_sound_timer_to_vx(x);
                Ok(())
            },
            Instruction::AddToAddress { x } => {
                self.add_vx_to_i(x);
                Ok(())
            },
            Instruction::SetAddressToGlyph { x } => {
                self.set_i_to_sprite_addr(x);
                Ok(())
            },
            Instruction::StoreBcd { x } => self.store_bcd_in_mem(x),
            Instruction::StoreRegisters { x } => self.store_v0_to_vx_in_mem(x),
            Instruction::LoadRegisters { x } => self.load_v0_to_vx_from_mem(x),
        }
    }

    /// Whether the machine stands on an instruction that waits for a key
    /// while none is down, so that a step would change nothing.
    pub fn awaits_key(&self) -> (waiting: bool)
        ensures
            waiting == (self@.load_instruction() matches Ok(instruction) && self@.waits_for_key(
                instruction,
            )),
    {
        if self.current_key.is_some() {
            return false;
        }
        match self.load_opcode() {
            Ok(opcode) => match decode(opcode, self.pc) {
                Ok(Instruction::WaitForKey { .. }) => true,
                _ => false,
            },
            Err(_) => false,
        }
    }

    /// One fetch, decode and execute. Returns the instruction that was
    /// executed. Fails, and changes nothing, with the condition of the
    /// fetch, of the decoder or of the operation.
    pub fn exec_instruction(&mut self) -> (r: Result<Instruction, Chip8Error>)
        ensures
            match r {
                Ok(instruction) => old(self)@.load_instruction() == Ok::<Instruction, Chip8Error>(
                    instruction,
                ) && old(self)@.exec_instruction() == Ok::<MachineState, Chip8Error>(
                    final(self)@,
                ),
                Err(e) => old(self)@.exec_instruction() == Err::<MachineState, Chip8Error>(e)
                    && final(self)@ == old(self)@,
            },
            final(self)@.valid(),
    {
        proof {
            use_type_invariant(&*self);
            self.display.lemma_len();
        }
        let opcode = match self.load_opcode() {
            Ok(word) => word,
            Err(e) => {
                return Err(e);
            },
        };
        let instruction = match decode(opcode, self.pc) {
            Ok(instruction) => instruction,
            Err(e) => {
                return Err(e);
            },
        };
        match self.execute(instruction) {
            Ok(()) => Ok(instruction),
            Err(e) => Err(e),
        }
    }

    /// Moves both timers one tick on: each goes down by one unless it is
    /// zero.
    pub fn tick_timers(&mut self)
        ensures
            final(self)@ == old(self)@.tick_timers(),
    {
        proof {
            use_type_invariant(&*self);
        }
        self.delay_timer = self.delay_timer.saturating_sub(1);
        self.sound_timer = self.sound_timer.saturating_sub(1);
    }

    /// One cycle: fetches, decodes and executes the instruction at the
    /// program counter, then moves both timers one tick on. Returns whether
    /// the instruction wrote the framebuffer.
    ///
    /// A machine that waits for a key stands still, timers included, until a
    /// key is down. A failed step changes nothing.
    pub fn step(&mut self) -> (r: Result<bool, Chip8Error>)
        ensures
            match r {
                Ok(dirty) => old(self)@.step() == Ok::<MachineState, Chip8Error>(final(self)@)
                    && dirty == old(self)@.writes_display(),
                Err(e) => old(self)@.step() == Err::<MachineState, Chip8Error>(e) && final(self)@
                    == old(self)@,
            },
            final(self)@.valid(),
    {
        let waiting = self.current_key.is_none();
        match self.exec_instruction() {
            Ok(instruction) => {
                let waited = waiting && match instruction {
                    Instruction::WaitForKey { .. } => true,
                    _ => false,
                };
                if !waited {
                    self.tick_timers();
                }
                proof {
                    use_type_invariant(&*self);
                    self.display.lemma_len();
                }
                Ok(instruction.writes_display())
            },
            Err(e) => Err(e),
        }
    }
}

} // verus!
