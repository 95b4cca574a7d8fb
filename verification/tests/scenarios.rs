use chip8::{Chip8, Chip8Error};

#[test]
fn add_program_runs_three_steps() {
    let mut chip8 = Chip8::new(&[0x60, 0x05, 0x61, 0x03, 0x80, 0x14]);
    for _ in 0..3 {
        assert_eq!(chip8.step(), Ok(false));
    }
    assert_eq!(chip8.register(0), 8);
    assert_eq!(chip8.register(15), 0);
    assert_eq!(chip8.pc(), 0x206);
}

#[test]
fn call_then_return_comes_back_behind_the_call() {
    let mut chip8 = Chip8::new(&[0x22, 0x08, 0, 0, 0, 0, 0, 0, 0x00, 0xEE]);
    assert_eq!(chip8.step(), Ok(false));
    assert_eq!(chip8.pc(), 0x208);
    assert_eq!(chip8.stack_depth(), 1);
    assert_eq!(chip8.step(), Ok(false));
    assert_eq!(chip8.pc(), 0x202);
    assert_eq!(chip8.stack_depth(), 0);
}

#[test]
fn illegal_word_reports_word_and_program_counter() {
    let mut chip8 = Chip8::new(&[0xFF, 0xFF]);
    assert_eq!(
        chip8.step(),
        Err(Chip8Error::IllegalInstruction { opcode: 0xFFFF, pc: 0x200 })
    );
    assert_eq!(chip8.pc(), 0x200);
}
