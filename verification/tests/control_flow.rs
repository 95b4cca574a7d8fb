use chip8::{Chip8, Chip8Error, Instruction};

#[test]
fn jump_sets_the_program_counter() {
    let mut chip8 = Chip8::new(&[]);
    chip8.execute(Instruction::Jump { addr: 0x345 }).unwrap();
    assert_eq!(chip8.pc(), 0x345);
}

#[test]
fn jump_offset_adds_register_zero() {
    let mut chip8 = Chip8::new(&[]);
    chip8.execute(Instruction::SetImmediate { x: 0, value: 0x10 }).unwrap();
    chip8.execute(Instruction::JumpOffset { addr: 0x300 }).unwrap();
    assert_eq!(chip8.pc(), 0x310);
}

#[test]
fn call_saves_the_next_instruction_and_return_restores_it() {
    let mut chip8 = Chip8::new(&[]);
    chip8.execute(Instruction::Call { addr: 0x400 }).unwrap();
    assert_eq!(chip8.pc(), 0x400);
    assert_eq!(chip8.stack_depth(), 1);
    chip8.execute(Instruction::Return).unwrap();
    assert_eq!(chip8.pc(), 0x202);
    assert_eq!(chip8.stack_depth(), 0);
}

#[test]
fn nested_calls_return_in_reverse_order_up_to_capacity() {
    for depth in 1..=12usize {
        let mut chip8 = Chip8::new(&[]);
        for level in 0..depth {
            let addr = 0x300 + 0x10 * level as u16;
            chip8.execute(Instruction::Call { addr }).unwrap();
            assert_eq!(chip8.pc(), addr as usize);
        }
        assert_eq!(chip8.stack_depth(), depth);
        for level in (0..depth).rev() {
            chip8.execute(Instruction::Return).unwrap();
            let expected = if level == 0 { 0x202 } else { 0x300 + 0x10 * (level - 1) + 2 };
            assert_eq!(chip8.pc(), expected);
        }
        assert_eq!(chip8.stack_depth(), 0);
    }
}

#[test]
fn call_on_a_full_stack_overflows_and_changes_nothing() {
    let mut chip8 = Chip8::new(&[]);
    for _ in 0..12 {
        chip8.execute(Instruction::Call { addr: 0x300 }).unwrap();
    }
    let pc = chip8.pc();
    assert_eq!(chip8.execute(Instruction::Call { addr: 0x500 }), Err(Chip8Error::StackOverflow));
    assert_eq!(chip8.pc(), pc);
    assert_eq!(chip8.stack_depth(), 12);
}

#[test]
fn return_on_an_empty_stack_underflows_and_changes_nothing() {
    let mut chip8 = Chip8::new(&[]);
    assert_eq!(chip8.execute(Instruction::Return), Err(Chip8Error::StackUnderflow));
    assert_eq!(chip8, Chip8::new(&[]));
}

#[test]
fn machine_routine_is_refused_with_its_number() {
    let mut chip8 = Chip8::new(&[0x01, 0x23]);
    assert_eq!(chip8.step(), Err(Chip8Error::UnknownMachineRoutine(0x123)));
    assert_eq!(chip8, Chip8::new(&[0x01, 0x23]));
    assert_eq!(
        chip8.execute(Instruction::MachineRoutine { routine: 0 }),
        Err(Chip8Error::UnknownMachineRoutine(0))
    );
}

#[test]
fn skips_advance_four_bytes_when_the_condition_holds() {
    let cases: Vec<(Instruction, usize)> = vec![
        (Instruction::SkipIfEqual { x: 0, value: 7 }, 4),
        (Instruction::SkipIfEqual { x: 0, value: 8 }, 2),
        (Instruction::SkipIfNotEqual { x: 0, value: 7 }, 2),
        (Instruction::SkipIfNotEqual { x: 0, value: 8 }, 4),
        (Instruction::SkipIfRegistersEqual { x: 0, y: 1 }, 4),
        (Instruction::SkipIfRegistersEqual { x: 0, y: 2 }, 2),
        (Instruction::SkipIfRegistersNotEqual { x: 0, y: 1 }, 2),
        (Instruction::SkipIfRegistersNotEqual { x: 0, y: 2 }, 4),
    ];
    for (instruction, advance) in cases {
        let mut chip8 = Chip8::new(&[]);
        chip8.execute(Instruction::SetImmediate { x: 0, value: 7 }).unwrap();
        chip8.execute(Instruction::SetImmediate { x: 1, value: 7 }).unwrap();
        chip8.execute(Instruction::SetImmediate { x: 2, value: 9 }).unwrap();
        let pc = chip8.pc();
        chip8.execute(instruction).unwrap();
        assert_eq!(chip8.pc(), pc + advance, "{:?}", instruction);
    }
}

#[test]
fn key_skips_go_by_the_key_that_is_down() {
    let mut chip8 = Chip8::new(&[]);
    chip8.execute(Instruction::SetImmediate { x: 3, value: 0xA }).unwrap();
    assert_eq!(chip8.current_key(), None);

    let pc = chip8.pc();
    chip8.execute(Instruction::SkipIfKeyPressed { x: 3 }).unwrap();
    assert_eq!(chip8.pc(), pc + 2);
    chip8.execute(Instruction::SkipIfKeyNotPressed { x: 3 }).unwrap();
    assert_eq!(chip8.pc(), pc + 6);

    chip8.set_current_key(Some(0xA));
    assert_eq!(chip8.current_key(), Some(0xA));
    let pc = chip8.pc();
    chip8.execute(Instruction::SkipIfKeyPressed { x: 3 }).unwrap();
    assert_eq!(chip8.pc(), pc + 4);
    chip8.execute(Instruction::SkipIfKeyNotPressed { x: 3 }).unwrap();
    assert_eq!(chip8.pc(), pc + 6);

    chip8.set_current_key(Some(0xB));
    let pc = chip8.pc();
    chip8.execute(Instruction::SkipIfKeyPressed { x: 3 }).unwrap();
    assert_eq!(chip8.pc(), pc + 2);
    chip8.execute(Instruction::SkipIfKeyNotPressed { x: 3 }).unwrap();
    assert_eq!(chip8.pc(), pc + 6);
}

#[test]
fn fetch_beyond_memory_is_out_of_bounds() {
    let mut chip8 = Chip8::new(&[]);
    chip8.execute(Instruction::Jump { addr: 0xFFF }).unwrap();
    assert_eq!(chip8.load_opcode(), Err(Chip8Error::OutOfBoundsMemoryAccess(0xFFF)));
    assert_eq!(chip8.step(), Err(Chip8Error::OutOfBoundsMemoryAccess(0xFFF)));
    assert_eq!(
        chip8.execute(Instruction::SetImmediate { x: 0, value: 1 }),
        Err(Chip8Error::OutOfBoundsMemoryAccess(0xFFF))
    );
    assert_eq!(chip8.pc(), 0xFFF);
    assert_eq!(chip8.register(0), 0);
}

#[test]
fn fetch_reads_the_last_word_of_memory() {
    let mut chip8 = Chip8::new(&[]);
    chip8.execute(Instruction::Jump { addr: 0xFFE }).unwrap();
    assert_eq!(chip8.load_opcode(), Ok(0x0000));
}

#[test]
fn fetch_is_big_endian() {
    let chip8 = Chip8::new(&[0x12, 0x34]);
    assert_eq!(chip8.load_opcode(), Ok(0x1234));
}

#[test]
fn running_off_the_end_of_memory_fails_at_the_fetch() {
    let mut chip8 = Chip8::new(&[]);
    chip8.execute(Instruction::Jump { addr: 0xFFE }).unwrap();
    chip8.execute(Instruction::SetImmediate { x: 0, value: 1 }).unwrap();
    assert_eq!(chip8.pc(), 0x1000);
    assert_eq!(chip8.step(), Err(Chip8Error::OutOfBoundsMemoryAccess(0x1000)));
}
