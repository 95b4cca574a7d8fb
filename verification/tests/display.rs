use chip8::display::{HEIGHT, PIXELS, WIDTH};
use chip8::{Chip8, Chip8Error, Instruction};

fn lit(chip8: &Chip8) -> Vec<(usize, usize)> {
    let mut pixels = Vec::new();
    for y in 0..HEIGHT {
        for x in 0..WIDTH {
            if chip8.pixel(x, y) {
                pixels.push((x, y));
            }
        }
    }
    pixels
}

/// A machine whose program bytes are sprite data, with `I` on them and the
/// coordinates in `V0` and `V1`.
fn machine_with_sprite(sprite: &[u8], x: u8, y: u8) -> Chip8 {
    let mut chip8 = Chip8::new(sprite);
    chip8.execute(Instruction::SetAddress { addr: 0x200 }).unwrap();
    chip8.execute(Instruction::SetImmediate { x: 0, value: x }).unwrap();
    chip8.execute(Instruction::SetImmediate { x: 1, value: y }).unwrap();
    chip8.take_refresh_display();
    chip8
}

#[test]
fn grid_is_sixty_four_by_thirty_two() {
    assert_eq!(WIDTH, 64);
    assert_eq!(HEIGHT, 32);
    assert_eq!(PIXELS, WIDTH * HEIGHT);
}

#[test]
fn draws_the_most_significant_bit_leftmost() {
    let mut chip8 = machine_with_sprite(&[0b1010_0001, 0b1000_0000], 4, 2);
    chip8.execute(Instruction::Draw { x: 0, y: 1, height: 2 }).unwrap();
    assert_eq!(lit(&chip8), vec![(4, 2), (6, 2), (11, 2), (4, 3)]);
    assert_eq!(chip8.register(15), 0);
    assert!(chip8.refresh_display());
    assert_eq!(chip8.pc(), 0x208);
}

#[test]
fn draws_a_glyph() {
    let mut chip8 = Chip8::new(&[]);
    chip8.execute(Instruction::SetImmediate { x: 5, value: 0 }).unwrap();
    chip8.execute(Instruction::SetAddressToGlyph { x: 5 }).unwrap();
    chip8.execute(Instruction::Draw { x: 5, y: 5, height: 5 }).unwrap();
    let mut expected = Vec::new();
    for (y, row) in [0xF0u8, 0x90, 0x90, 0x90, 0xF0].iter().enumerate() {
        for x in 0..8 {
            if row & (0x80 >> x) != 0 {
                expected.push((x, y));
            }
        }
    }
    assert_eq!(lit(&chip8), expected);
    assert_eq!(chip8.register(15), 0);
}

#[test]
fn drawing_twice_clears_what_was_drawn_and_flags_the_collision() {
    let mut chip8 = machine_with_sprite(&[0xFF, 0x81, 0xFF], 10, 20);
    chip8.execute(Instruction::Draw { x: 0, y: 1, height: 3 }).unwrap();
    assert_eq!(lit(&chip8).len(), 18);
    assert_eq!(chip8.register(15), 0);
    chip8.execute(Instruction::Draw { x: 0, y: 1, height: 3 }).unwrap();
    assert_eq!(lit(&chip8), vec![]);
    assert_eq!(chip8.register(15), 1);
}

#[test]
fn drawing_an_empty_sprite_twice_flags_nothing() {
    let mut chip8 = machine_with_sprite(&[0x00, 0x00], 10, 20);
    chip8.execute(Instruction::Draw { x: 0, y: 1, height: 2 }).unwrap();
    chip8.execute(Instruction::Draw { x: 0, y: 1, height: 2 }).unwrap();
    assert_eq!(lit(&chip8), vec![]);
    assert_eq!(chip8.register(15), 0);
}

#[test]
fn collision_is_flagged_only_where_a_lit_pixel_goes_off() {
    // 0xF0 at (0, 0), then 0x0F at (0, 0): no pixel in common.
    let mut chip8 = machine_with_sprite(&[0xF0, 0x0F, 0x18], 0, 0);
    chip8.execute(Instruction::Draw { x: 0, y: 1, height: 1 }).unwrap();
    chip8.execute(Instruction::SetAddress { addr: 0x201 }).unwrap();
    chip8.execute(Instruction::Draw { x: 0, y: 1, height: 1 }).unwrap();
    assert_eq!(chip8.register(15), 0);
    assert_eq!(lit(&chip8).len(), 8);
    // 0x18 overlaps both halves: columns 3 and 4 go off.
    chip8.execute(Instruction::SetAddress { addr: 0x202 }).unwrap();
    chip8.execute(Instruction::Draw { x: 0, y: 1, height: 1 }).unwrap();
    assert_eq!(chip8.register(15), 1);
    assert_eq!(lit(&chip8), vec![(0, 0), (1, 0), (2, 0), (5, 0), (6, 0), (7, 0)]);
}

#[test]
fn flag_is_cleared_by_a_draw_without_collision() {
    let mut chip8 = machine_with_sprite(&[0x80], 0, 0);
    chip8.execute(Instruction::SetImmediate { x: 15, value: 1 }).unwrap();
    chip8.execute(Instruction::Draw { x: 0, y: 1, height: 1 }).unwrap();
    assert_eq!(chip8.register(15), 0);
}

#[test]
fn sprite_at_the_last_column_and_row_wraps_to_column_zero() {
    let mut chip8 = machine_with_sprite(&[0xFF], 63, 31);
    chip8.execute(Instruction::Draw { x: 0, y: 1, height: 1 }).unwrap();
    assert_eq!(
        lit(&chip8),
        vec![(0, 31), (1, 31), (2, 31), (3, 31), (4, 31), (5, 31), (6, 31), (63, 31)]
    );
    assert_eq!(chip8.register(15), 0);
}

#[test]
fn sprite_at_the_last_row_wraps_to_row_zero() {
    let mut chip8 = machine_with_sprite(&[0xC0, 0xC0], 63, 31);
    chip8.execute(Instruction::Draw { x: 0, y: 1, height: 2 }).unwrap();
    assert_eq!(lit(&chip8), vec![(0, 0), (63, 0), (0, 31), (63, 31)]);
}

#[test]
fn coordinates_are_taken_modulo_the_grid() {
    let mut wrapped = machine_with_sprite(&[0xA5, 0x3C], 64 + 7, 32 + 5);
    wrapped.execute(Instruction::Draw { x: 0, y: 1, height: 2 }).unwrap();
    let mut plain = machine_with_sprite(&[0xA5, 0x3C], 7, 5);
    plain.execute(Instruction::Draw { x: 0, y: 1, height: 2 }).unwrap();
    assert_eq!(lit(&wrapped), lit(&plain));

    let mut far = machine_with_sprite(&[0xA5, 0x3C], 255, 255);
    far.execute(Instruction::Draw { x: 0, y: 1, height: 2 }).unwrap();
    let mut near = machine_with_sprite(&[0xA5, 0x3C], 63, 31);
    near.execute(Instruction::Draw { x: 0, y: 1, height: 2 }).unwrap();
    assert_eq!(lit(&far), lit(&near));
}

#[test]
fn draws_fifteen_rows() {
    let sprite = [0x80u8; 15];
    let mut chip8 = machine_with_sprite(&sprite, 0, 20);
    chip8.execute(Instruction::Draw { x: 0, y: 1, height: 15 }).unwrap();
    let mut expected: Vec<(usize, usize)> = (0..3).map(|y| (0, y)).collect();
    expected.extend((20..32).map(|y| (0, y)));
    assert_eq!(lit(&chip8), expected);
}

#[test]
fn draw_with_height_zero_draws_nothing_but_marks_the_frame() {
    let mut chip8 = machine_with_sprite(&[0xFF], 0, 0);
    chip8.execute(Instruction::SetImmediate { x: 15, value: 1 }).unwrap();
    chip8.execute(Instruction::Draw { x: 0, y: 1, height: 0 }).unwrap();
    assert_eq!(lit(&chip8), vec![]);
    assert_eq!(chip8.register(15), 0);
    assert!(chip8.refresh_display());
}

#[test]
fn draw_reads_coordinates_before_it_clears_the_flag() {
    let mut chip8 = machine_with_sprite(&[0x80], 0, 0);
    chip8.execute(Instruction::SetImmediate { x: 15, value: 9 }).unwrap();
    chip8.execute(Instruction::Draw { x: 15, y: 15, height: 1 }).unwrap();
    assert_eq!(lit(&chip8), vec![(9, 9)]);
    assert_eq!(chip8.register(15), 0);
}

#[test]
fn draw_rejects_a_sprite_that_leaves_memory() {
    let mut chip8 = Chip8::new(&[]);
    chip8.execute(Instruction::SetAddress { addr: 0xFFE }).unwrap();
    chip8.execute(Instruction::Draw { x: 0, y: 0, height: 2 }).unwrap();
    chip8.take_refresh_display();
    let pc = chip8.pc();
    assert_eq!(
        chip8.execute(Instruction::Draw { x: 0, y: 0, height: 3 }),
        Err(Chip8Error::OutOfBoundsMemoryAccess(0xFFE))
    );
    assert_eq!(chip8.pc(), pc);
    assert!(!chip8.refresh_display());
}

#[test]
fn clear_turns_every_pixel_off_and_marks_the_frame() {
    let mut chip8 = machine_with_sprite(&[0xFF, 0xFF], 60, 30);
    chip8.execute(Instruction::Draw { x: 0, y: 1, height: 2 }).unwrap();
    assert_eq!(lit(&chip8).len(), 16);
    chip8.take_refresh_display();
    chip8.execute(Instruction::ClearDisplay).unwrap();
    assert_eq!(lit(&chip8), vec![]);
    assert!(chip8.refresh_display());
    assert_eq!(chip8.pc(), 0x20A);
}

#[test]
fn step_reports_whether_the_frame_was_written() {
    // V0 = 1; clear; I = 0x200; draw; V0 = 2.
    let mut chip8 = Chip8::new(&[0x60, 0x01, 0x00, 0xE0, 0xA2, 0x00, 0xD0, 0x01, 0x60, 0x02]);
    assert!(chip8.take_refresh_display());
    assert_eq!(chip8.step(), Ok(false));
    assert!(!chip8.refresh_display());
    assert_eq!(chip8.step(), Ok(true));
    assert!(chip8.refresh_display());
    assert_eq!(chip8.step(), Ok(false));
    assert!(chip8.refresh_display());
    assert!(chip8.take_refresh_display());
    assert!(!chip8.take_refresh_display());
    assert_eq!(chip8.step(), Ok(true));
    assert!(chip8.take_refresh_display());
    assert_eq!(chip8.step(), Ok(false));
    assert!(!chip8.refresh_display());
}
