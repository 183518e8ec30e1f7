use vstd::prelude::*;

verus! {

/// Where a sprite is drawn, on a display of the given size.
pub struct DrawOptions<'a> {
    pub pos: [usize; 2],
    pub display_size: [usize; 2],
    pub source: &'a [u8],
}

/// The position of pixel (`i`, `j`) in a display `width` pixels wide, one
/// byte per pixel, row after row.
pub open spec fn grid_index(width: int, i: int, j: int) -> int {
    i + j * width
}

/// Whether bit `col` of a sprite row is set, counting from the most
/// significant bit (the leftmost pixel).
pub open spec fn sprite_bit(byte: u8, col: int) -> bool {
    ((byte >> ((7 - col) as u8)) & 1u8) == 1u8
}

pub open spec fn min(a: int, b: int) -> int {
    if a <= b { a } else { b }
}

/// Whether pixel (`i`, `j`) lies under a sprite of `rows` rows placed at
/// (`x`, `y`) on a `width` by `height` display; the sprite is eight pixels
/// wide and is clipped at the right and bottom edges.
pub open spec fn under_sprite(x: int, y: int, width: int, height: int, rows: int, i: int, j: int) -> bool {
    &&& x <= i < min(x + 8, width)
    &&& y <= j < min(y + rows, height)
}

/// A pixel after a sprite pixel is drawn over it: a set sprite bit flips
/// every bit of the display byte.
pub open spec fn flip(old: u8, on: bool) -> u8 {
    if on { old ^ 0xFFu8 } else { old }
}

/// The display byte at (`i`, `j`) once the sprite `source` is drawn at
/// (`x`, `y`).
pub open spec fn drawn_pixel(
    before: Seq<u8>, source: Seq<u8>, x: int, y: int, width: int, height: int, i: int, j: int,
) -> u8 {
    let old = before[grid_index(width, i, j)];
    if under_sprite(x, y, width, height, source.len() as int, i, j) {
        flip(old, sprite_bit(source[j - y], i - x))
    } else {
        old
    }
}

/// Distinct pixels of the grid have distinct positions.
pub proof fn lemma_grid_index_injective(width: int, i: int, j: int, i2: int, j2: int)
    requires
        0 <= i < width,
        0 <= i2 < width,
        0 <= j,
        0 <= j2,
        grid_index(width, i, j) == grid_index(width, i2, j2),
    ensures
        i == i2,
        j == j2,
{
    if j < j2 {
        assert(j * width + width <= j2 * width) by (nonlinear_arith)
            requires j < j2, 0 < width;
    } else if j2 < j {
        assert(j2 * width + width <= j * width) by (nonlinear_arith)
            requires j2 < j, 0 < width;
    }
}

/// Every pixel of a `width` by `height` grid has a position below
/// `width * height`.
pub proof fn lemma_grid_index_bound(width: int, height: int, i: int, j: int)
    requires
        0 <= i < width,
        0 <= j < height,
    ensures
        0 <= grid_index(width, i, j) < width * height,
{
    assert(j * width + width <= height * width) by (nonlinear_arith)
        requires j < height, 0 < width;
    assert(0 <= j * width) by (nonlinear_arith)
        requires 0 <= j, 0 < width;
    assert(height * width == width * height) by (nonlinear_arith);
}

/// Drawing a sprite XORs 0xFF into every display byte under a set bit of
/// the sprite and leaves the others: row `j - y` of the sprite covers
/// display row `j`, its most significant bit column `x`, and the sprite is
/// cut off at the right and bottom edges.
pub proof fn lemma_drawn_pixel(before: Seq<u8>, source: Seq<u8>, x: int, y: int, width: int, height: int, i: int, j: int)
    requires
        0 <= x,
        0 <= y,
    ensures
        drawn_pixel(before, source, x, y, width, height, i, j) == if x <= i < x + 8 && i < width
            && y <= j < y + source.len() && j < height {
            let row = source[j - y];
            let shifted: u8 = ((row as int * pow2_table(i - x)) % 256) as u8;
            if shifted >= 0x80 { before[i + j * width] ^ 0xFFu8 } else { before[i + j * width] }
        } else {
            before[i + j * width]
        },
{
    if x <= i < x + 8 && i < width && y <= j < y + source.len() && j < height {
        let row = source[j - y];
        let c = i - x;
        let shifted: u8 = ((row as int * pow2_table(c)) % 256) as u8;
        lemma_bit_is_top_after_shift(row, c);
    }
}

/// 2 to the power `c`, for the eight columns of a sprite row.
pub open spec fn pow2_table(c: int) -> int {
    if c == 0 { 1 } else if c == 1 { 2 } else if c == 2 { 4 } else if c == 3 { 8 }
    else if c == 4 { 16 } else if c == 5 { 32 } else if c == 6 { 64 } else { 128 }
}

/// Bit `7 - c` of a byte is its top bit once the byte is shifted `c`
/// places left.
proof fn lemma_bit_is_top_after_shift(row: u8, c: int)
    requires
        0 <= c < 8,
    ensures
        sprite_bit(row, c) == (((row as int * pow2_table(c)) % 256) as u8 >= 0x80),
{
    if c == 0 {
        assert(((row >> 7u8) & 1u8 == 1u8) == (row >= 0x80)) by (bit_vector);
    } else if c == 1 {
        assert(((row >> 6u8) & 1u8 == 1u8) == (((row as u32 * 2) % 256) >= 0x80)) by (bit_vector);
    } else if c == 2 {
        assert(((row >> 5u8) & 1u8 == 1u8) == (((row as u32 * 4) % 256) >= 0x80)) by (bit_vector);
    } else if c == 3 {
        assert(((row >> 4u8) & 1u8 == 1u8) == (((row as u32 * 8) % 256) >= 0x80)) by (bit_vector);
    } else if c == 4 {
        assert(((row >> 3u8) & 1u8 == 1u8) == (((row as u32 * 16) % 256) >= 0x80)) by (bit_vector);
    } else if c == 5 {
        assert(((row >> 2u8) & 1u8 == 1u8) == (((row as u32 * 32) % 256) >= 0x80)) by (bit_vector);
    } else if c == 6 {
        assert(((row >> 1u8) & 1u8 == 1u8) == (((row as u32 * 64) % 256) >= 0x80)) by (bit_vector);
    } else {
        assert(((row >> 0u8) & 1u8 == 1u8) == (((row as u32 * 128) % 256) >= 0x80)) by (bit_vector);
    }
}

/// The same drawing, placed at `pos`.
pub open spec fn placed<'a>(o: DrawOptions<'a>, pos: [usize; 2]) -> DrawOptions<'a> {
    DrawOptions { pos, ..o }
}

/// Placing a drawing twice keeps only the last position: what is drawn, and
/// on what display, stay those of the drawing, and `draw` depends on
/// nothing else.
pub proof fn lemma_last_placement_wins<'a>(o: DrawOptions<'a>, p: [usize; 2], q: [usize; 2])
    ensures
        placed(placed(o, p), q) == placed(o, q),
{
}

impl<'a> DrawOptions<'a> {
    /// Drawing `source` at the top-left corner of a display of the given size.
    pub fn new(source: &'a [u8], display_size: [usize; 2]) -> (o: Self)
        ensures
            o.pos == [0usize, 0usize],
            o.display_size == display_size,
            o.source@ == source@,
    {
        Self { pos: [0, 0], display_size, source }
    }

    /// The same drawing, placed at `pos`.
    pub fn at(self, pos: [usize; 2]) -> (o: Self)
        ensures
            o == placed(self, pos),
            o.pos == pos,
            o.display_size == self.display_size,
            o.source@ == self.source@,
    {
        DrawOptions { pos, display_size: self.display_size, source: self.source }
    }

    /// XORs the sprite onto `target` and reports whether any pixel that was
    /// on is now off.
    pub fn draw(&self, target: &mut Vec<u8>) -> (pixel_off: bool)
        requires
            self.display_size[0] * self.display_size[1] <= old(target)@.len(),
            self.pos[0] + 8 <= usize::MAX,
            self.pos[1] + self.source@.len() <= usize::MAX,
        ensures
            ({
                let w = self.display_size[0] as int;
                let h = self.display_size[1] as int;
                let x = self.pos[0] as int;
                let y = self.pos[1] as int;
                &&& final(target)@.len() == old(target)@.len()
                &&& forall|i: int, j: int| 0 <= i < w && 0 <= j < h ==>
                    (#[trigger] final(target)@[grid_index(w, i, j)])
                        == drawn_pixel(old(target)@, self.source@, x, y, w, h, i, j)
                &&& forall|k: int| w * h <= k < old(target)@.len() ==>
                    (#[trigger] final(target)@[k]) == old(target)@[k]
                &&& pixel_off == exists|i: int, j: int|
                    0 <= i < w && 0 <= j < h
                    && under_sprite(x, y, w, h, self.source@.len() as int, i, j)
                    && old(target)@[grid_index(w, i, j)] != 0
                    && #[trigger] final(target)@[grid_index(w, i, j)] == 0
            }),
    {
        let bytes = self.source;
        let x = self.pos[0];
        let y = self.pos[1];
        let display_width = self.display_size[0];
        let display_height = self.display_size[1];
        let height = bytes.len();
        let ghost w = display_width as int;
        let ghost h = display_height as int;
        let ghost before = target@;
        let row_end = if y + height < display_height { y + height } else { display_height };
        let col_end = if x + 8 < display_width { x + 8 } else { display_width };
        let mut pixel_off_flag = false;
        let mut j = y;
        while j < row_end
            invariant
                target@.len() == before.len(),
                w * h <= before.len(),
                y <= j,
                j <= row_end || row_end <= y,
                row_end == min(y + height, h),
                col_end == min(x + 8, w),
                w == display_width,
                h == display_height,
                height == bytes@.len(),
                bytes@ == self.source@,
                x == self.pos[0],
                y == self.pos[1],
                forall|i: int, jj: int| 0 <= i < w && 0 <= jj < h ==>
                    (#[trigger] target@[grid_index(w, i, jj)]) == if jj < j {
                        drawn_pixel(before, bytes@, x as int, y as int, w, h, i, jj)
                    } else {
                        before[grid_index(w, i, jj)]
                    },
                forall|k: int| w * h <= k < before.len() ==> (#[trigger] target@[k]) == before[k],
                pixel_off_flag == exists|i: int, jj: int|
                    0 <= i < w && 0 <= jj < h && jj < j
                    && under_sprite(x as int, y as int, w, h, height as int, i, jj)
                    && before[grid_index(w, i, jj)] != 0
                    && #[trigger] target@[grid_index(w, i, jj)] == 0,
            decreases row_end - j,
        {
            let byte = bytes[j - y];
            let mut i = x;
            let ghost row_start = target@;
            let ghost flag_start = pixel_off_flag;
            let ghost jj0 = j as int;
            while i < col_end
                invariant
                    target@.len() == before.len(),
                    w * h <= before.len(),
                    x <= i,
                    i <= col_end || col_end <= x,
                    y <= j < row_end,
                    row_end == min(y + height, h),
                    col_end == min(x + 8, w),
                    w == display_width,
                    h == display_height,
                    height == bytes@.len(),
                    byte == bytes@[j - y],
                    forall|ii: int, jj: int| 0 <= ii < w && 0 <= jj < h ==>
                        (#[trigger] target@[grid_index(w, ii, jj)]) == if jj == j && ii < i {
                            drawn_pixel(before, bytes@, x as int, y as int, w, h, ii, jj)
                        } else {
                            row_start[grid_index(w, ii, jj)]
                        },
                    forall|k: int| w * h <= k < before.len() ==> (#[trigger] target@[k]) == row_start[k],
                    flag_start == exists|a: int, b: int|
                        0 <= a < w && 0 <= b < h && b < jj0
                        && under_sprite(x as int, y as int, w, h, height as int, a, b)
                        && before[grid_index(w, a, b)] != 0
                        && #[trigger] row_start[grid_index(w, a, b)] == 0,
                    jj0 == j,
                    forall|a: int, b: int| 0 <= a < w && 0 <= b < h ==>
                        (#[trigger] row_start[grid_index(w, a, b)]) == if b < jj0 {
                            drawn_pixel(before, bytes@, x as int, y as int, w, h, a, b)
                        } else {
                            before[grid_index(w, a, b)]
                        },
                    pixel_off_flag == (flag_start || exists|ii: int|
                        0 <= ii < w && x <= ii < i
                        && before[grid_index(w, ii, j as int)] != 0
                        && #[trigger] target@[grid_index(w, ii, j as int)] == 0),
                decreases col_end - i,
            {
                let target_len = target.len();
                proof {
                    lemma_grid_index_bound(w, h, i as int, j as int);
                    assert(grid_index(w, i as int, j as int) < target_len);
                    assert(0 <= j * display_width <= grid_index(w, i as int, j as int)) by (nonlinear_arith)
                        requires 0 <= i, 0 <= j, 0 <= display_width, w == display_width;
                }
                let index = i + j * display_width;
                let ghost before_write = target@;
                let last = target[index];
                let on = ((byte >> ((7 - (i - x)) as u8)) & 1u8) == 1u8;
                let next = if on { last ^ 0xFFu8 } else { last };
                target.set(index, next);
                if last != 0 && next == 0 {
                    pixel_off_flag = true;
                }
                proof {
                    assert forall|ii: int, jj: int| 0 <= ii < w && 0 <= jj < h
                        && grid_index(w, ii, jj) != index implies
                        target@[grid_index(w, ii, jj)] == before_write[grid_index(w, ii, jj)] by {
                        lemma_grid_index_bound(w, h, ii, jj);
                    }
                    assert forall|ii: int, jj: int| 0 <= ii < w && 0 <= jj < h
                        && grid_index(w, ii, jj) == index implies ii == i && jj == j by {
                        lemma_grid_index_injective(w, ii, jj, i as int, j as int);
                    }
                    let g = grid_index(w, i as int, j as int);
                    assert(target@[g] == next);
                    assert(before_write[g] == row_start[g]);
                    assert(row_start[g] == before[g]);
                    let ghost new_row = exists|ii: int|
                        0 <= ii < w && x <= ii < i + 1
                        && before[grid_index(w, ii, j as int)] != 0
                        && #[trigger] target@[grid_index(w, ii, j as int)] == 0;
                    if pixel_off_flag && !flag_start {
                        if last != 0 && next == 0 {
                            assert(target@[grid_index(w, i as int, j as int)] == 0);
                        } else {
                            let a = choose|a: int|
                                0 <= a < w && x <= a < i
                                && before[grid_index(w, a, j as int)] != 0
                                && #[trigger] before_write[grid_index(w, a, j as int)] == 0;
                            assert(target@[grid_index(w, a, j as int)] == before_write[grid_index(w, a, j as int)]);
                        }
                        assert(new_row);
                    }
                    if !pixel_off_flag {
                        assert forall|a: int|
                            0 <= a < w && x <= a < i + 1
                            && before[grid_index(w, a, j as int)] != 0
                            implies #[trigger] target@[grid_index(w, a, j as int)] != 0 by {
                            if a < i {
                                assert(target@[grid_index(w, a, j as int)] == before_write[grid_index(w, a, j as int)]);
                            }
                        }
                    }
                }
                i = i + 1;
            }
            proof {
                if pixel_off_flag {
                    if flag_start {
                        let (a, b) = choose|a: int, b: int|
                            0 <= a < w && 0 <= b < h && b < jj0
                            && under_sprite(x as int, y as int, w, h, height as int, a, b)
                            && before[grid_index(w, a, b)] != 0
                            && #[trigger] row_start[grid_index(w, a, b)] == 0;
                        assert(target@[grid_index(w, a, b)] == row_start[grid_index(w, a, b)]);
                    } else {
                        let a = choose|a: int|
                            0 <= a < w && x <= a < i
                            && before[grid_index(w, a, j as int)] != 0
                            && #[trigger] target@[grid_index(w, a, j as int)] == 0;
                        assert(under_sprite(x as int, y as int, w, h, height as int, a, j as int));
                    }
                } else {
                    assert forall|a: int, b: int|
                        0 <= a < w && 0 <= b < h && b < j + 1
                        && under_sprite(x as int, y as int, w, h, height as int, a, b)
                        && before[grid_index(w, a, b)] != 0
                        implies #[trigger] target@[grid_index(w, a, b)] != 0 by {
                        if b < j {
                            assert(target@[grid_index(w, a, b)] == row_start[grid_index(w, a, b)]);
                        }
                    }
                }
            }
            j = j + 1;
        }
        pixel_off_flag
    }
}

/// Flipping a pixel twice restores it.
pub proof fn lemma_flip_twice(b: u8, on: bool)
    ensures
        flip(flip(b, on), on) == b,
{
    assert((b ^ 0xFFu8) ^ 0xFFu8 == b) by (bit_vector);
}

/// Drawing the same sprite twice at the same place leaves every pixel of the
/// display as it was: the second drawing erases the first.
pub proof fn lemma_draw_twice_restores(
    before: Seq<u8>, mid: Seq<u8>, after: Seq<u8>, source: Seq<u8>, x: int, y: int, w: int, h: int,
)
    requires
        forall|i: int, j: int| 0 <= i < w && 0 <= j < h ==>
            (#[trigger] mid[grid_index(w, i, j)]) == drawn_pixel(before, source, x, y, w, h, i, j),
        forall|i: int, j: int| 0 <= i < w && 0 <= j < h ==>
            (#[trigger] after[grid_index(w, i, j)]) == drawn_pixel(mid, source, x, y, w, h, i, j),
    ensures
        forall|i: int, j: int| 0 <= i < w && 0 <= j < h ==>
            (#[trigger] after[grid_index(w, i, j)]) == before[grid_index(w, i, j)],
{
    assert forall|i: int, j: int| 0 <= i < w && 0 <= j < h implies
        (#[trigger] after[grid_index(w, i, j)]) == before[grid_index(w, i, j)] by {
        let g = grid_index(w, i, j);
        assert(mid[g] == drawn_pixel(before, source, x, y, w, h, i, j));
        if under_sprite(x, y, w, h, source.len() as int, i, j) {
            lemma_flip_twice(before[g], sprite_bit(source[j - y], i - x));
        }
    }
}

} // verus!
