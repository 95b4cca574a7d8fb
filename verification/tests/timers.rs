use chip8::{Chip8, Instruction};

#[test]
fn timers_are_set_from_and_read_into_registers() {
    let mut chip8 = Chip8::new(&[]);
    chip8.execute(Instruction::SetImmediate { x: 1, value: 30 }).unwrap();
    chip8.execute(Instruction::SetDelayTimer { x: 1 }).unwrap();
    chip8.execute(Instruction::SetImmediate { x: 2, value: 9 }).unwrap();
    chip8.execute(Instruction::SetSoundTimer { x: 2 }).unwrap();
    assert_eq!(chip8.delay_timer(), 30);
    assert_eq!(chip8.sound_timer(), 9);
    chip8.execute(Instruction::ReadDelayTimer { x: 5 }).unwrap();
    assert_eq!(chip8.register(5), 30);
    assert_eq!(chip8.pc(), 0x20A);
}

#[test]
fn execute_does_not_tick() {
    let mut chip8 = Chip8::new(&[]);
    chip8.execute(Instruction::SetImmediate { x: 1, value: 3 }).unwrap();
    chip8.execute(Instruction::SetDelayTimer { x: 1 }).unwrap();
    chip8.execute(Instruction::SetImmediate { x: 0, value: 0 }).unwrap();
    assert_eq!(chip8.delay_timer(), 3);
}

#[test]
fn each_step_ticks_both_timers_once_and_holds_them_at_zero() {
    // V0 = 2; DT = V0; ST = V0; then three loads.
    let mut chip8 = Chip8::new(&[
        0x60, 0x02, 0xF0, 0x15, 0xF0, 0x18, 0x61, 0x00, 0x61, 0x00, 0x61, 0x00,
    ]);
    chip8.step().unwrap();
    assert_eq!((chip8.delay_timer(), chip8.sound_timer()), (0, 0));
    chip8.step().unwrap();
    assert_eq!((chip8.delay_timer(), chip8.sound_timer()), (1, 0));
    chip8.step().unwrap();
    assert_eq!((chip8.delay_timer(), chip8.sound_timer()), (0, 1));
    chip8.step().unwrap();
    assert_eq!((chip8.delay_timer(), chip8.sound_timer()), (0, 0));
    chip8.step().unwrap();
    assert_eq!((chip8.delay_timer(), chip8.sound_timer()), (0, 0));
}

#[test]
fn tick_counts_down_by_one() {
    let mut chip8 = Chip8::new(&[]);
    chip8.execute(Instruction::SetImmediate { x: 0, value: 255 }).unwrap();
    chip8.execute(Instruction::SetDelayTimer { x: 0 }).unwrap();
    chip8.execute(Instruction::SetImmediate { x: 0, value: 1 }).unwrap();
    chip8.execute(Instruction::SetSoundTimer { x: 0 }).unwrap();
    chip8.tick_timers();
    assert_eq!((chip8.delay_timer(), chip8.sound_timer()), (254, 0));
    chip8.tick_timers();
    assert_eq!((chip8.delay_timer(), chip8.sound_timer()), (253, 0));
}

#[test]
fn a_failed_step_does_not_tick() {
    // V0 = 5; DT = V0; return with an empty stack.
    let mut chip8 = Chip8::new(&[0x60, 0x05, 0xF0, 0x15, 0x00, 0xEE]);
    chip8.step().unwrap();
    chip8.step().unwrap();
    assert_eq!(chip8.delay_timer(), 4);
    assert!(chip8.step().is_err());
    assert_eq!(chip8.delay_timer(), 4);
    assert_eq!(chip8.pc(), 0x204);
}

#[test]
fn waiting_for_a_key_stands_still_until_a_key_is_down() {
    // V0 = 9; DT = V0; V3 = key.
    let mut chip8 = Chip8::new(&[0x60, 0x09, 0xF0, 0x15, 0xF3, 0x0A, 0x61, 0x01]);
    chip8.step().unwrap();
    chip8.step().unwrap();
    assert_eq!(chip8.delay_timer(), 8);
    assert!(chip8.awaits_key());
    chip8.take_refresh_display();

    let mut waiting = Chip8::new(&[0x60, 0x09, 0xF0, 0x15, 0xF3, 0x0A, 0x61, 0x01]);
    waiting.step().unwrap();
    waiting.step().unwrap();
    waiting.take_refresh_display();
    for _ in 0..5 {
        assert_eq!(chip8.step(), Ok(false));
        assert_eq!(chip8, waiting);
    }
    assert_eq!(chip8.pc(), 0x204);
    assert_eq!(chip8.delay_timer(), 8);

    chip8.set_current_key(Some(0xC));
    assert!(!chip8.awaits_key());
    assert_eq!(chip8.step(), Ok(false));
    assert_eq!(chip8.register(3), 0xC);
    assert_eq!(chip8.pc(), 0x206);
    assert_eq!(chip8.delay_timer(), 7);
    assert!(!chip8.awaits_key());
}

#[test]
fn a_key_that_is_down_is_taken_at_once() {
    let mut chip8 = Chip8::new(&[0xF7, 0x0A]);
    chip8.set_current_key(Some(0));
    assert!(!chip8.awaits_key());
    chip8.step().unwrap();
    assert_eq!(chip8.register(7), 0);
    assert_eq!(chip8.pc(), 0x202);
}

#[test]
fn awaits_key_is_false_off_a_wait_instruction() {
    let chip8 = Chip8::new(&[0x60, 0x09]);
    assert!(!chip8.awaits_key());
    let chip8 = Chip8::new(&[0xFF, 0xFF]);
    assert!(!chip8.awaits_key());
}
