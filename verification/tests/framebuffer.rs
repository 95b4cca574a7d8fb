use chip8::display::FrameBuffer;

fn lit(fb: &FrameBuffer) -> Vec<(usize, usize)> {
    let mut pixels = Vec::new();
    for y in 0..32 {
        for x in 0..64 {
            if fb.pixel(x, y) {
                pixels.push((x, y));
            }
        }
    }
    pixels
}

#[test]
fn new_framebuffer_is_blank() {
    assert_eq!(lit(&FrameBuffer::new()), vec![]);
}

#[test]
fn toggle_flips_one_pixel_and_says_what_it_was() {
    let mut fb = FrameBuffer::new();
    for (x, y) in [(0, 0), (7, 0), (8, 0), (63, 0), (0, 31), (63, 31), (33, 17)] {
        assert!(!fb.toggle(x, y));
        assert!(fb.pixel(x, y));
    }
    assert_eq!(lit(&fb), vec![(0, 0), (7, 0), (8, 0), (63, 0), (33, 17), (0, 31), (63, 31)]);
    assert!(fb.toggle(8, 0));
    assert!(!fb.pixel(8, 0));
    assert_eq!(lit(&fb), vec![(0, 0), (7, 0), (63, 0), (33, 17), (0, 31), (63, 31)]);
}

#[test]
fn xor_byte_lays_the_most_significant_bit_leftmost() {
    let mut fb = FrameBuffer::new();
    assert!(!fb.xor_byte(3, 4, 0b1100_0001));
    assert_eq!(lit(&fb), vec![(3, 4), (4, 4), (10, 4)]);
}

#[test]
fn xor_byte_crosses_byte_boundaries_and_wraps() {
    let mut fb = FrameBuffer::new();
    assert!(!fb.xor_byte(60, 0, 0xFF));
    assert_eq!(lit(&fb), vec![(0, 0), (1, 0), (2, 0), (3, 0), (60, 0), (61, 0), (62, 0), (63, 0)]);
}

#[test]
fn xor_byte_reports_a_pixel_that_went_off() {
    let mut fb = FrameBuffer::new();
    assert!(!fb.xor_byte(0, 0, 0xF0));
    assert!(!fb.xor_byte(4, 0, 0xF0));
    assert!(fb.xor_byte(3, 0, 0x80));
    assert_eq!(lit(&fb).len(), 7);
    assert!(!fb.xor_byte(3, 0, 0x80));
    assert!(!fb.xor_byte(0, 1, 0xFF));
    assert!(fb.xor_byte(0, 1, 0xFF));
    assert_eq!(lit(&fb).len(), 8);
}

#[test]
fn clear_turns_all_pixels_off() {
    let mut fb = FrameBuffer::new();
    for y in 0..32 {
        fb.xor_byte(y, y, 0xFF);
    }
    assert_eq!(lit(&fb).len(), 256);
    fb.clear();
    assert_eq!(lit(&fb), vec![]);
    assert_eq!(fb, FrameBuffer::new());
}
