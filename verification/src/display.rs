//! The monochrome framebuffer: 64 columns by 32 rows, eight pixels to a byte.

use vstd::prelude::*;
use crate::ring::{
    lemma_ring_offset_bounds, lemma_ring_offset_of_place, lemma_ring_place_of_offset, ring_offset,
    ring_place,
};

verus! {

/// The number of pixel columns.
pub const WIDTH: usize = 64;

/// The number of pixel rows.
pub const HEIGHT: usize = 32;

/// The number of pixels.
pub const PIXELS: usize = 2048;

/// Whether the pixel `k` of `byte` is on, counted from the left: pixel 0 is
/// the most significant bit.
pub open spec fn bit_of(byte: u8, k: u8) -> bool {
    (byte >> ((7 - k) as u8)) & 1 == 1
}

/// The position of the pixel `(x, y)` in the row-major sequence of pixels.
pub open spec fn pixel_index(x: int, y: int) -> int {
    y * 64 + x
}

/// The sequence of pixels with every pixel off.
pub open spec fn blank() -> Seq<bool> {
    Seq::new(2048, |i: int| false)
}

/// Whether the pixel at position `i` lies under a set bit of `bits`, where
/// `bits` is laid on row `y` with its leftmost pixel in column `x0` and runs
/// on from column 63 to column 0.
pub open spec fn row_covers(x0: int, y: int, bits: u8, i: int) -> bool {
    let col = ring_offset(i % 64, x0, 64);
    i / 64 == y && col < 8 && bit_of(bits, col as u8)
}

/// The pixels after `bits` is combined by exclusive or into row `y` from
/// column `x0` on.
pub open spec fn xor_row(pixels: Seq<bool>, x0: int, y: int, bits: u8) -> Seq<bool> {
    Seq::new(2048, |i: int| pixels[i] != row_covers(x0, y, bits, i))
}

/// Whether combining `bits` into row `y` from column `x0` on turns a pixel
/// off that was on.
pub open spec fn row_collides(pixels: Seq<bool>, x0: int, y: int, bits: u8) -> bool {
    exists|i: int| 0 <= i < 2048 && #[trigger] pixels[i] && row_covers(x0, y, bits, i)
}

/// [`row_covers`], of the first `cols` pixels of `bits` alone.
pub open spec fn row_covers_upto(x0: int, y: int, bits: u8, cols: int, i: int) -> bool {
    row_covers(x0, y, bits, i) && ring_offset(i % 64, x0, 64) < cols
}

/// The first `col + 1` pixels of a byte cover what the first `col` cover,
/// and the pixel at column `col` places ahead of `x0` if bit `col` is set.
pub proof fn lemma_row_covers_next(x0: int, y: int, bits: u8, col: int, i: int)
    requires
        0 <= x0 < 64,
        0 <= y < 32,
        0 <= col < 8,
        0 <= i < 2048,
    ensures
        row_covers_upto(x0, y, bits, col + 1, i) == (row_covers_upto(x0, y, bits, col, i) || (
        bit_of(bits, col as u8) && i == pixel_index(ring_place(x0, col, 64), y))),
        !row_covers_upto(x0, y, bits, col, pixel_index(ring_place(x0, col, 64), y)),
{
    let target = pixel_index(ring_place(x0, col, 64), y);
    lemma_ring_offset_bounds(i % 64, x0, 64);
    lemma_ring_offset_of_place(x0, col, 64);
    lemma_ring_place_of_offset(i % 64, x0, 64);
    assert(target % 64 == ring_place(x0, col, 64) && target / 64 == y);
    assert(ring_offset(target % 64, x0, 64) == col);
    if i / 64 == y && ring_offset(i % 64, x0, 64) == col {
        assert(i % 64 == ring_place(x0, col, 64));
        assert(i == target);
    }
}

/// Flipping bit `k` of a byte flips pixel `k` and leaves the others.
pub proof fn lemma_flip_bit(byte: u8, k: u8, j: u8)
    requires
        k < 8,
        j < 8,
    ensures
        bit_of(byte ^ (0x80u8 >> k), j) == (bit_of(byte, j) != (j == k)),
        (byte & (0x80u8 >> k) != 0) == bit_of(byte, k),
{
    assert((((byte ^ (0x80u8 >> k)) >> ((7 - j) as u8)) & 1 == 1) == (((byte >> ((7 - j) as u8)) & 1
        == 1) != (j == k))) by (bit_vector)
        requires
            k < 8,
            j < 8,
    ;
    assert((byte & (0x80u8 >> k) != 0) == ((byte >> ((7 - k) as u8)) & 1 == 1)) by (bit_vector)
        requires
            k < 8,
    ;
}

/// The pixel grid, packed: `rows[y][x / 8]` holds the pixels `x - x % 8` to
/// `x - x % 8 + 7` of row `y`, the leftmost in its most significant bit.
#[derive(Debug, PartialEq, Eq)]
pub struct FrameBuffer {
    rows: [[u8; 8]; 32],
}

impl View for FrameBuffer {
    type V = Seq<bool>;

    /// The pixels in row-major order: pixel `(x, y)` at `pixel_index(x, y)`.
    closed spec fn view(&self) -> Seq<bool> {
        Seq::new(
            2048,
            |i: int| bit_of(self.rows[i / 64][(i % 64) / 8], ((i % 64) % 8) as u8),
        )
    }
}

impl FrameBuffer {
    /// A framebuffer with every pixel off.
    pub fn new() -> (fb: Self)
        ensures
            fb@ == blank(),
    {
        let fb = FrameBuffer { rows: [[0u8; 8]; 32] };
        proof {
            assert forall|i: int| 0 <= i < 2048 implies fb@[i] == false by {
                let k = ((i % 64) % 8) as u8;
                assert(fb.rows[i / 64][(i % 64) / 8] == 0u8);
                assert(!bit_of(0u8, k)) by (bit_vector)
                    requires
                        k < 8,
                ;
            }
        }
        fb
    }

    /// Proves that the view holds one entry for each pixel.
    pub proof fn lemma_len(&self)
        ensures
            self@.len() == 2048,
    {
    }

    /// Turns every pixel off.
    pub fn clear(&mut self)
        ensures
            final(self)@ == blank(),
        no_unwind
    {
        let mut y: usize = 0;
        while y < 32
            invariant
                y <= 32,
                forall|r: int, c: int| 0 <= r < y && 0 <= c < 8 ==> self.rows[r][c] == 0u8,
            decreases 32 - y,
        {
            let mut b: usize = 0;
            while b < 8
                invariant
                    y < 32,
                    b <= 8,
                    forall|r: int, c: int| 0 <= r < y && 0 <= c < 8 ==> self.rows[r][c] == 0u8,
                    forall|c: int| 0 <= c < b ==> self.rows[y as int][c] == 0u8,
                decreases 8 - b,
            {
                self.rows[y][b] = 0;
                b = b + 1;
            }
            y = y + 1;
        }
        proof {
            assert forall|i: int| 0 <= i < 2048 implies self@[i] == false by {
                let k = ((i % 64) % 8) as u8;
                assert(self.rows[i / 64][(i % 64) / 8] == 0u8);
                assert(!bit_of(0u8, k)) by (bit_vector)
                    requires
                        k < 8,
                ;
            }
        }
    }

    /// Whether the pixel `(x, y)` is on.
    pub fn pixel(&self, x: usize, y: usize) -> (on: bool)
        requires
            x < 64,
            y < 32,
        ensures
            on == self@[pixel_index(x as int, y as int)],
    {
        let k: u8 = (x % 8) as u8;
        let byte = self.rows[y][x / 8];
        proof {
            lemma_flip_bit(byte, k, k);
        }
        byte & (0x80u8 >> k) != 0
    }

    /// Flips the pixel `(x, y)` and says whether it was on.
    pub fn toggle(&mut self, x: usize, y: usize) -> (was_on: bool)
        requires
            x < 64,
            y < 32,
        ensures
            was_on == old(self)@[pixel_index(x as int, y as int)],
            final(self)@ == old(self)@.update(pixel_index(x as int, y as int), !was_on),
        no_unwind
    {
        let k: u8 = (x % 8) as u8;
        let byte = self.rows[y][x / 8];
        let was_on = byte & (0x80u8 >> k) != 0;
        self.rows[y][x / 8] = byte ^ (0x80u8 >> k);
        proof {
            let target = pixel_index(x as int, y as int);
            lemma_flip_bit(byte, k, k);
            assert forall|i: int| 0 <= i < 2048 implies self@[i] == old(self)@.update(
                target,
                !was_on,
            )[i] by {
                let j = ((i % 64) % 8) as u8;
                if i / 64 == y && (i % 64) / 8 == x / 8 {
                    lemma_flip_bit(byte, k, j);
                }
            }
        }
        was_on
    }

    /// Combines `bits` by exclusive or into row `y`, its leftmost pixel in
    /// column `x0`, running on from column 63 to column 0. Says whether a
    /// pixel that was on went off.
    pub fn xor_byte(&mut self, x0: usize, y: usize, bits: u8) -> (collision: bool)
        requires
            x0 < 64,
            y < 32,
        ensures
            final(self)@ == xor_row(old(self)@, x0 as int, y as int, bits),
            collision == row_collides(old(self)@, x0 as int, y as int, bits),
        no_unwind
    {
        let ghost before = self@;
        let mut collision = false;
        let mut col: u8 = 0;
        while col < 8
            invariant
                x0 < 64,
                y < 32,
                col <= 8,
                before.len() == 2048,
                self@.len() == 2048,
                forall|i: int|
                    0 <= i < 2048 ==> #[trigger] self@[i] == (before[i] != row_covers_upto(
                        x0 as int,
                        y as int,
                        bits,
                        col as int,
                        i,
                    )),
                collision == (exists|i: int|
                    0 <= i < 2048 && #[trigger] before[i] && row_covers_upto(
                        x0 as int,
                        y as int,
                        bits,
                        col as int,
                        i,
                    )),
            decreases 8 - col,
        {
            let ghost current = self@;
            let ghost found = collision;
            let x: usize = (x0 + col as usize) % 64;
            let ghost target = pixel_index(x as int, y as int);
            proof {
                lemma_flip_bit(bits, col, col);
            }
            let set = bits & (0x80u8 >> col) != 0;
            if set {
                let was_on = self.toggle(x, y);
                collision = collision || was_on;
            }
            proof {
                assert(target == pixel_index(ring_place(x0 as int, col as int, 64), y as int));
                assert forall|i: int| 0 <= i < 2048 implies (row_covers_upto(
                    x0 as int,
                    y as int,
                    bits,
                    col + 1,
                    i,
                ) == (row_covers_upto(x0 as int, y as int, bits, col as int, i) || (set && i
                    == target))) by {
                    lemma_row_covers_next(x0 as int, y as int, bits, col as int, i);
                }
                lemma_row_covers_next(x0 as int, y as int, bits, col as int, target);
                assert(current[target] == before[target]);
                assert forall|i: int| 0 <= i < 2048 implies #[trigger] self@[i] == (before[i]
                    != row_covers_upto(x0 as int, y as int, bits, col + 1, i)) by {
                    assert(current[i] == (before[i] != row_covers_upto(
                        x0 as int,
                        y as int,
                        bits,
                        col as int,
                        i,
                    )));
                }
                if found {
                    let w = choose|i: int|
                        0 <= i < 2048 && #[trigger] before[i] && row_covers_upto(
                            x0 as int,
                            y as int,
                            bits,
                            col as int,
                            i,
                        );
                    assert(before[w] && row_covers_upto(x0 as int, y as int, bits, col + 1, w));
                }
                if set && before[target] {
                    assert(before[target] && row_covers_upto(
                        x0 as int,
                        y as int,
                        bits,
                        col + 1,
                        target,
                    ));
                }
            }
            col = col + 1;
        }
        proof {
            assert forall|i: int| 0 <= i < 2048 implies row_covers_upto(
                x0 as int,
                y as int,
                bits,
                8,
                i,
            ) == row_covers(x0 as int, y as int, bits, i) by {}
            assert(self@ =~= xor_row(before, x0 as int, y as int, bits));
            if collision {
                let w = choose|i: int|
                    0 <= i < 2048 && #[trigger] before[i] && row_covers_upto(
                        x0 as int,
                        y as int,
                        bits,
                        8,
                        i,
                    );
                assert(before[w] && row_covers(x0 as int, y as int, bits, w));
            }
            if row_collides(before, x0 as int, y as int, bits) {
                let w = choose|i: int|
                    0 <= i < 2048 && #[trigger] before[i] && row_covers(
                        x0 as int,
                        y as int,
                        bits,
                        i,
                    );
                assert(before[w] && row_covers_upto(x0 as int, y as int, bits, 8, w));
            }
        }
        collision
    }
}

} // verus!
