//! What holds of the operations, stated over the model and proved.

use vstd::prelude::*;
use crate::decoder::{
    decode_instruction, decode_word, family, lemma_decoded_valid, lemma_digits, operand_nn,
    operand_nnn, operand_x,
};
use crate::error::Chip8Error;
use crate::instruction::Instruction;
use crate::ring::{
    lemma_ring_offset_bounds, lemma_ring_offset_of_place, lemma_ring_place_of_offset, ring_offset,
    ring_place,
};
use crate::state::MachineState;

verus! {

/// A register that is set to an immediate holds that immediate.
pub proof fn law_set_then_read(s: MachineState, x: int, value: u8)
    requires
        s.valid(),
        0 <= x < 16,
    ensures
        s.set_vx_to_n(x, value).registers[x] == value,
{
}

/// Adding `Vy` to `Vx` leaves 1 in `VF` if the sum of the two exceeds 255,
/// and 0 if not; and `Vx`, unless it is `VF` itself, holds the sum modulo 256.
pub proof fn law_add_wraps_with_carry(s: MachineState, x: int, y: int)
    requires
        s.valid(),
        0 <= x < 16,
        0 <= y < 16,
    ensures
        ({
            let a = s.registers[x] as int;
            let b = s.registers[y] as int;
            let next = s.add_vy_to_vx(x, y);
            &&& next.registers[15] == (if a + b > 255 {
                1int
            } else {
                0int
            })
            &&& x != 15 ==> next.registers[x] == (a + b) % 256
        }),
{
}

/// Subtracting `Vy` from `Vx` leaves 1 in `VF` if `Vx >= Vy` held, and 0
/// if not; the reversed subtraction goes by `Vy >= Vx`. Unless `Vx` is `VF`
/// itself, it holds the difference modulo 256.
pub proof fn law_subtract_flags_no_borrow(s: MachineState, x: int, y: int)
    requires
        s.valid(),
        0 <= x < 16,
        0 <= y < 16,
    ensures
        ({
            let a = s.registers[x] as int;
            let b = s.registers[y] as int;
            let minus = s.subtract_vy_from_vx(x, y);
            let reversed = s.set_vx_to_vy_minus_vx(x, y);
            &&& minus.registers[15] == (if a >= b {
                1int
            } else {
                0int
            })
            &&& reversed.registers[15] == (if b >= a {
                1int
            } else {
                0int
            })
            &&& x != 15 ==> minus.registers[x] == (a - b) % 256
            &&& x != 15 ==> reversed.registers[x] == (b - a) % 256
        }),
{
}

/// A shift leaves in `VF` the bit that left `Vx`: the lowest for a right
/// shift, the highest for a left shift. What `VF` held before has no part
/// in it, unless `VF` is the register shifted.
pub proof fn law_shift_flags_bit_shifted_out(s: MachineState, x: int, flag: u8)
    requires
        s.valid(),
        0 <= x < 16,
    ensures
        s.right_shift_vx(x).registers[15] == s.registers[x] % 2,
        s.left_shift_vx(x).registers[15] == s.registers[x] / 128,
        x != 15 ==> s.with_register(15, flag).right_shift_vx(x).registers[15] == s.right_shift_vx(
            x,
        ).registers[15],
        x != 15 ==> s.with_register(15, flag).left_shift_vx(x).registers[15] == s.left_shift_vx(
            x,
        ).registers[15],
{
}

/// A call with room on the stack succeeds, the return that follows
/// succeeds, and the machine then stands on the instruction behind the call,
/// with nothing else changed.
pub proof fn law_call_then_return(s: MachineState, addr: u16)
    requires
        s.valid(),
        s.stack.len() < 12,
    ensures
        s.call_subroutine(addr) matches Ok(called) && called.subroutine_return() == Ok::<
            MachineState,
            Chip8Error,
        >(s.advance()),
{
    let called = s.call_subroutine(addr)->Ok_0;
    assert(called.stack.drop_last() =~= s.stack);
}

/// A call with the stack full fails with `StackOverflow`.
pub proof fn law_call_on_full_stack(s: MachineState, addr: u16)
    requires
        s.valid(),
        s.stack.len() == 12,
    ensures
        s.call_subroutine(addr) == Err::<MachineState, Chip8Error>(Chip8Error::StackOverflow),
{
}

/// A return with the stack empty fails with `StackUnderflow`.
pub proof fn law_return_on_empty_stack(s: MachineState)
    requires
        s.valid(),
        s.stack.len() == 0,
    ensures
        s.subroutine_return() == Err::<MachineState, Chip8Error>(Chip8Error::StackUnderflow),
{
}

/// The state after one call to each of `addrs` in turn, each made where the
/// one before it led.
pub open spec fn after_calls(s: MachineState, addrs: Seq<u16>) -> Result<MachineState, Chip8Error>
    decreases addrs.len(),
{
    if addrs.len() == 0 {
        Ok(s)
    } else {
        match after_calls(s, addrs.drop_last()) {
            Ok(inner) => inner.call_subroutine(addrs.last()),
            Err(e) => Err(e),
        }
    }
}

/// The state after `count` returns.
pub open spec fn after_returns(s: MachineState, count: nat) -> Result<MachineState, Chip8Error>
    decreases count,
{
    if count == 0 {
        Ok(s)
    } else {
        match s.subroutine_return() {
            Ok(outer) => after_returns(outer, (count - 1) as nat),
            Err(e) => Err(e),
        }
    }
}

/// Calls that fit on the stack all succeed and leave one return address
/// each.
pub proof fn lemma_calls_succeed(s: MachineState, addrs: Seq<u16>)
    requires
        s.valid(),
        s.stack.len() + addrs.len() <= 12,
    ensures
        after_calls(s, addrs) matches Ok(called) && called.valid() && called.stack.len()
            == s.stack.len() + addrs.len(),
    decreases addrs.len(),
{
    if addrs.len() > 0 {
        lemma_calls_succeed(s, addrs.drop_last());
    }
}

/// Calls nested to any depth that fits on the stack, followed by as many
/// returns, leave the machine on the instruction behind the first call,
/// with nothing else changed.
pub proof fn law_nested_calls_then_returns(s: MachineState, addrs: Seq<u16>)
    requires
        s.valid(),
        addrs.len() >= 1,
        s.stack.len() + addrs.len() <= 12,
    ensures
        after_calls(s, addrs) matches Ok(called) && after_returns(called, addrs.len()) == Ok::<
            MachineState,
            Chip8Error,
        >(s.advance()),
    decreases addrs.len(),
{
    let inner_addrs = addrs.drop_last();
    lemma_calls_succeed(s, inner_addrs);
    let inner = after_calls(s, inner_addrs)->Ok_0;
    law_call_then_return(inner, addrs.last());
    let called = after_calls(s, addrs)->Ok_0;
    let count = addrs.len();
    assert(after_returns(called, count) == after_returns(inner.advance(), (count - 1) as nat));
    if inner_addrs.len() == 0 {
        assert(inner == s);
    } else {
        law_nested_calls_then_returns(s, inner_addrs);
        assert(inner.advance().subroutine_return() == inner.subroutine_return());
        assert(after_returns(inner.advance(), (count - 1) as nat) == after_returns(
            inner,
            (count - 1) as nat,
        ));
    }
}

/// A sprite covers exactly the pixels onto which its set bits fall, where
/// bit `col` of row `row` falls on column `(Vx + col) mod 64` of row
/// `(Vy + row) mod 32`.
pub proof fn law_sprite_covers_its_targets(s: MachineState, x: int, y: int, height: int, i: int)
    requires
        s.valid(),
        0 <= x < 16,
        0 <= y < 16,
        0 <= height <= 32,
        0 <= i < 2048,
    ensures
        s.sprite_covers(x, y, height, i) <==> exists|row: int, col: int|
            0 <= row < height && 0 <= col < 8 && #[trigger] s.sprite_bit(row, col) && i
                == s.sprite_target(x, y, row, col),
{
    let vx = s.registers[x] as int;
    let vy = s.registers[y] as int;
    if s.sprite_covers(x, y, height, i) {
        let col = ring_offset(i % 64, vx, 64);
        let row = ring_offset(i / 64, vy, 32);
        lemma_ring_offset_bounds(i % 64, vx, 64);
        lemma_ring_offset_bounds(i / 64, vy, 32);
        lemma_ring_place_of_offset(i % 64, vx, 64);
        lemma_ring_place_of_offset(i / 64, vy, 32);
        assert(s.sprite_bit(row, col) && i == s.sprite_target(x, y, row, col));
    }
    if exists|row: int, col: int|
        0 <= row < height && 0 <= col < 8 && #[trigger] s.sprite_bit(row, col) && i
            == s.sprite_target(x, y, row, col) {
        let (row, col) = choose|row: int, col: int|
            0 <= row < height && 0 <= col < 8 && #[trigger] s.sprite_bit(row, col) && i
                == s.sprite_target(x, y, row, col);
        lemma_ring_offset_of_place(vx, col, 64);
        lemma_ring_offset_of_place(vy, row, 32);
        assert(i % 64 == ring_place(vx, col, 64) && i / 64 == ring_place(vy, row, 32));
    }
}

/// A draw changes no register but `VF`: where neither `Vx` nor `Vy` is
/// `VF`, a second draw finds the coordinates of the first.
pub proof fn lemma_draw_keeps_coordinates(s: MachineState, x: int, y: int, height: int)
    requires
        s.valid(),
        0 <= x < 15,
        0 <= y < 15,
        s.draw_sprite_at_coordinates_vx_vy_with_height_n(x, y, height) is Ok,
    ensures
        ({
            let first = s.draw_sprite_at_coordinates_vx_vy_with_height_n(x, y, height)->Ok_0;
            first.registers[x] == s.registers[x] && first.registers[y] == s.registers[y]
        }),
{
}

/// A sprite drawn a second time at the same coordinates puts every pixel
/// back as it was before the first draw, and the second draw leaves 1 in
/// `VF` if the first had turned a pixel on, and 0 if not.
///
/// The coordinates of the second draw are those that the registers hold
/// after the first; [`lemma_draw_keeps_coordinates`] says when they are the
/// same.
pub proof fn law_draw_twice_restores(s: MachineState, x: int, y: int, height: int)
    requires
        s.valid(),
        0 <= x < 16,
        0 <= y < 16,
        0 <= height < 16,
        s.draw_sprite_at_coordinates_vx_vy_with_height_n(x, y, height) matches Ok(first)
            && first.registers[x] % 64 == s.registers[x] % 64 && first.registers[y] % 32
            == s.registers[y] % 32,
    ensures
        ({
            let first = s.draw_sprite_at_coordinates_vx_vy_with_height_n(x, y, height)->Ok_0;
            first.draw_sprite_at_coordinates_vx_vy_with_height_n(x, y, height) matches Ok(second)
                && second.pixels == s.pixels && second.registers[15] == (if exists|i: int|
                0 <= i < 2048 && !#[trigger] s.pixels[i] && s.sprite_covers(x, y, height, i) {
                1int
            } else {
                0int
            })
        }),
{
    let first = s.draw_sprite_at_coordinates_vx_vy_with_height_n(x, y, height)->Ok_0;
    assert forall|i: int| first.sprite_covers(x, y, height, i) == s.sprite_covers(
        x,
        y,
        height,
        i,
    ) by {
        first.lemma_same_sprite_same_cover(s, x, y, height, i);
    }
    assert(first.pixels_after_rows(x, y, height) =~= s.pixels);
    if first.sprite_collides(x, y, height) {
        let w = choose|i: int|
            0 <= i < 2048 && #[trigger] first.pixels[i] && first.sprite_covers(x, y, height, i);
        assert(!s.pixels[w] && s.sprite_covers(x, y, height, w));
    }
    if exists|i: int| 0 <= i < 2048 && !#[trigger] s.pixels[i] && s.sprite_covers(x, y, height, i) {
        let w = choose|i: int|
            0 <= i < 2048 && !#[trigger] s.pixels[i] && s.sprite_covers(x, y, height, i);
        assert(first.pixels[w] && first.sprite_covers(x, y, height, w));
    }
}

/// A step leaves the sizes of the machine as they are, the stack within its
/// capacity and the key one of the sixteen.
pub proof fn law_step_keeps_valid(s: MachineState)
    requires
        s.valid(),
    ensures
        s.step() matches Ok(next) ==> next.valid(),
{
    if s.load_instruction() is Ok {
        let instruction = s.load_instruction()->Ok_0;
        lemma_decoded_valid(s.fetch()->Ok_0);
        s.lemma_execute_valid(instruction);
    }
}

/// A timer never passes zero: a tick takes one from a timer that is not
/// zero and leaves a timer at zero there.
pub proof fn law_timers_stop_at_zero(s: MachineState)
    ensures
        s.tick_timers().delay_timer == (if s.delay_timer == 0 {
            0int
        } else {
            s.delay_timer - 1
        }),
        s.tick_timers().sound_timer == (if s.sound_timer == 0 {
            0int
        } else {
            s.sound_timer - 1
        }),
{
}

/// A step that fails on an illegal instruction reports the word at the
/// program counter and the program counter itself.
pub proof fn law_illegal_instruction_carries_pc(s: MachineState, opcode: u16, pc: usize)
    requires
        s.valid(),
        s.step() == Err::<MachineState, Chip8Error>(Chip8Error::IllegalInstruction { opcode, pc }),
    ensures
        pc == s.pc,
        s.fetch() == Ok::<u16, Chip8Error>(opcode),
{
    if s.fetch() is Ok {
        let word = s.fetch()->Ok_0;
        if decode_word(word, s.pc as usize) is Ok {
            let instruction = decode_word(word, s.pc as usize)->Ok_0;
            assert(!(s.execute(instruction) is Err && s.execute(instruction)->Err_0
                is IllegalInstruction));
        }
    }
}

/// The word `0xFFFF` encodes no instruction.
pub proof fn law_all_ones_is_illegal(pc: usize)
    ensures
        decode_word(0xFFFF, pc) == Err::<Instruction, Chip8Error>(
            Chip8Error::IllegalInstruction { opcode: 0xFFFF, pc },
        ),
{
}

/// Every instruction with operands in range is decoded from its own word.
/// The one exception lies in family 0, where the low bytes `E0` and `EE`
/// belong to the display and to the return: no machine routine has them.
pub proof fn law_decode_inverts_encoding(instruction: Instruction)
    requires
        instruction.valid(),
        instruction matches Instruction::MachineRoutine { routine } ==> routine % 0x100 != 0xE0
            && routine % 0x100 != 0xEE,
    ensures
        0 <= instruction.encoding() < 0x1_0000,
        decode_instruction(instruction.encoding() as u16) == Some(instruction),
{
    match instruction {
        Instruction::MachineRoutine { routine } => {
            lemma_address_digits(0x0, routine);
        },
        Instruction::ClearDisplay => {
            lemma_digits(0x0, 0x0, 0xE, 0x0);
        },
        Instruction::Return => {
            lemma_digits(0x0, 0x0, 0xE, 0xE);
        },
        Instruction::Jump { addr } => {
            lemma_address_digits(0x1, addr);
        },
        Instruction::Call { addr } => {
            lemma_address_digits(0x2, addr);
        },
        Instruction::SkipIfEqual { x, value } => {
            lemma_byte_digits(0x3, x, value);
        },
        Instruction::SkipIfNotEqual { x, value } => {
            lemma_byte_digits(0x4, x, value);
        },
        Instruction::SkipIfRegistersEqual { x, y } => {
            lemma_digits(0x5, x as int, y as int, 0x0);
        },
        Instruction::SetImmediate { x, value } => {
            lemma_byte_digits(0x6, x, value);
        },
        Instruction::AddImmediate { x, value } => {
            lemma_byte_digits(0x7, x, value);
        },
        Instruction::CopyRegister { x, y } => {
            lemma_digits(0x8, x as int, y as int, 0x0);
        },
        Instruction::OrRegister { x, y } => {
            lemma_digits(0x8, x as int, y as int, 0x1);
        },
        Instruction::AndRegister { x, y } => {
            lemma_digits(0x8, x as int, y as int, 0x2);
        },
        Instruction::XorRegister { x, y } => {
            lemma_digits(0x8, x as int, y as int, 0x3);
        },
        Instruction::AddRegister { x, y } => {
            lemma_digits(0x8, x as int, y as int, 0x4);
        },
        Instruction::SubtractRegister { x, y } => {
            lemma_digits(0x8, x as int, y as int, 0x5);
        },
        Instruction::ShiftRight { x } => {
            lemma_digits(0x8, x as int, 0x0, 0x6);
        },
        Instruction::SubtractReversed { x, y } => {
            lemma_digits(0x8, x as int, y as int, 0x7);
        },
        Instruction::ShiftLeft { x } => {
            lemma_digits(0x8, x as int, 0x0, 0xE);
        },
        Instruction::SkipIfRegistersNotEqual { x, y } => {
            lemma_digits(0x9, x as int, y as int, 0x0);
        },
        Instruction::SetAddress { addr } => {
            lemma_address_digits(0xA, addr);
        },
        Instruction::JumpOffset { addr } => {
            lemma_address_digits(0xB, addr);
        },
        Instruction::Random { x, mask } => {
            lemma_byte_digits(0xC, x, mask);
        },
        Instruction::Draw { x, y, height } => {
            lemma_digits(0xD, x as int, y as int, height as int);
        },
        Instruction::SkipIfKeyPressed { x } => {
            lemma_digits(0xE, x as int, 0x9, 0xE);
        },
        Instruction::SkipIfKeyNotPressed { x } => {
            lemma_digits(0xE, x as int, 0xA, 0x1);
        },
        Instruction::ReadDelayTimer { x } => {
            lemma_digits(0xF, x as int, 0x0, 0x7);
        },
        Instruction::WaitForKey { x } => {
            lemma_digits(0xF, x as int, 0x0, 0xA);
        },
        Instruction::SetDelayTimer { x } => {
            lemma_digits(0xF, x as int, 0x1, 0x5);
        },
        Instruction::SetSoundTimer { x } => {
            lemma_digits(0xF, x as int, 0x1, 0x8);
        },
        Instruction::AddToAddress { x } => {
            lemma_digits(0xF, x as int, 0x1, 0xE);
        },
        Instruction::SetAddressToGlyph { x } => {
            lemma_digits(0xF, x as int, 0x2, 0x9);
        },
        Instruction::StoreBcd { x } => {
            lemma_digits(0xF, x as int, 0x3, 0x3);
        },
        Instruction::StoreRegisters { x } => {
            lemma_digits(0xF, x as int, 0x5, 0x5);
        },
        Instruction::LoadRegisters { x } => {
            lemma_digits(0xF, x as int, 0x6, 0x5);
        },
    }
}

/// [`lemma_digits`] for a word that holds a register index and a byte.
proof fn lemma_byte_digits(f: int, x: u8, value: u8)
    requires
        0 <= f < 16,
        x < 16,
    ensures
        ({
            let word = (f * 0x1000 + x * 0x100 + value) as u16;
            &&& word == f * 0x1000 + x * 0x100 + value
            &&& family(word) == f
            &&& operand_x(word) == x
            &&& operand_nn(word) == value
        }),
{
    lemma_digits(f, x as int, value as int / 0x10, value as int % 0x10);
}

/// [`lemma_digits`] for a word that holds a 12-bit address.
proof fn lemma_address_digits(f: int, addr: u16)
    requires
        0 <= f < 16,
        addr < 0x1000,
    ensures
        ({
            let word = (f * 0x1000 + addr) as u16;
            &&& word == f * 0x1000 + addr
            &&& family(word) == f
            &&& operand_nn(word) == addr % 0x100
            &&& operand_nnn(word) == addr
        }),
{
    lemma_digits(f, addr as int / 0x100, (addr as int / 0x10) % 0x10, addr as int % 0x10);
}

} // verus!
