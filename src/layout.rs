use vstd::prelude::*;
use vstd::arithmetic::div_mod::lemma_fundamental_div_mod_converse;

verus! {

/// Where the cursor stands, taken apart by block, row and byte.
#[derive(PartialEq, Eq, Debug, Clone, Copy, Structural)]
pub struct CursorPosition {
    pub local_x: usize,
    pub local_byte_index: usize,
    pub block_index: usize,
    pub local_block_index: usize,
    pub line_index: usize,
    pub line_byte_index: usize,
    pub global_byte_index: usize,
    pub high_byte: bool,
}

impl CursorPosition {
    /// Column offset of the edited digit within its byte: 0 for the high
    /// digit, 1 for the low one.
    pub fn get_high_byte_offset(&self) -> (r: usize)
        ensures
            r == (if self.high_byte {
                0usize
            } else {
                1usize
            }),
    {
        match &self.high_byte {
            true => 0,
            false => 1,
        }
    }
}

/// Screen columns of one block: three per byte and one more after the block.
pub open spec fn block_width(block_size: int) -> int {
    block_size * 3 + 1
}

/// The byte that screen column `x` of screen row `y` shows, when the view is
/// scrolled down by `scroll` rows.
pub open spec fn to_global(block_size: int, blocks_per_row: int, x: int, y: int, scroll: int) -> int {
    let local_x = x % block_width(block_size);
    let block_index = x / block_width(block_size) + (scroll + y) * blocks_per_row;
    local_x / 3 + block_size * block_index
}

/// The row that holds byte `g`.
pub open spec fn row_of(block_size: int, blocks_per_row: int, g: int) -> int {
    g / (block_size * blocks_per_row)
}

/// The screen column of the high (or low) digit of byte `g` within its row.
pub open spec fn column_of(block_size: int, blocks_per_row: int, g: int, high: bool) -> int {
    let in_row = g % (block_size * blocks_per_row);
    (in_row / block_size) * block_width(block_size) + (in_row % block_size) * 3 + if high {
        0int
    } else {
        1int
    }
}

/// Whether the layout is usable: blocks of at least one byte, rows of at
/// least one block, and every screen column of a row fits a `u16`.
pub open spec fn layout_ok(block_size: int, blocks_per_row: int) -> bool {
    &&& 1 <= block_size
    &&& 1 <= blocks_per_row
    &&& block_width(block_size) * blocks_per_row <= 0xFFFF
}

/// The bounds that a usable layout puts on its sizes.
pub proof fn lemma_layout_bounds(block_size: int, blocks_per_row: int)
    requires
        layout_ok(block_size, blocks_per_row),
    ensures
        block_size <= 0x5555,
        blocks_per_row <= 0x3FFF,
        1 <= block_size * blocks_per_row <= 0x5555,
{
    let b = block_size;
    let r = blocks_per_row;
    assert(1 <= b * r && 3 * (b * r) + r <= 0xFFFF) by (nonlinear_arith)
        requires
            1 <= b,
            1 <= r,
            (b * 3 + 1) * r <= 0xFFFF,
    ;
    assert(b <= b * r && r <= b * r) by (nonlinear_arith)
        requires
            1 <= b,
            1 <= r,
    ;
    assert(4 * r <= 0xFFFF) by (nonlinear_arith)
        requires
            1 <= b,
            1 <= r,
            (b * 3 + 1) * r <= 0xFFFF,
    ;
}

/// Takes screen column `cursor_x` of screen row `cursor_y` apart, with the
/// view scrolled down by `scroll` rows.
pub fn get_cursor_position(
    block_size: usize,
    blocks_per_row: usize,
    cursor_x: u16,
    cursor_y: u16,
    scroll: usize,
) -> (r: CursorPosition)
    requires
        layout_ok(block_size as int, blocks_per_row as int),
        (scroll + cursor_y) * blocks_per_row * block_size + 0x10000 * block_size <= usize::MAX,
    ensures
        r.global_byte_index == to_global(
            block_size as int,
            blocks_per_row as int,
            cursor_x as int,
            cursor_y as int,
            scroll as int,
        ),
        r.high_byte == (cursor_x as int % block_width(block_size as int) % 3 == 0),
        r.local_x == cursor_x as int % block_width(block_size as int),
        r.local_byte_index == r.local_x as int / 3,
        r.block_index == cursor_x as int / block_width(block_size as int) + (scroll + cursor_y)
            * blocks_per_row,
        r.local_block_index == r.block_index as int % blocks_per_row as int,
        r.line_index == r.block_index as int / blocks_per_row as int,
        r.line_byte_index == r.local_byte_index + block_size * r.local_block_index,
{
    let bw = block_size * 3 + 1;
    let x = cursor_x as usize;
    let local_x = x % bw;
    let high_byte = local_x % 3 == 0;
    let local_byte_index = local_x / 3;
    let ghost sy = scroll + cursor_y;
    proof {
        lemma_layout_bounds(block_size as int, blocks_per_row as int);
        assert(x / bw <= 0xFFFF) by (nonlinear_arith)
            requires
                x <= 0xFFFF,
                bw >= 1,
        ;
        assert(sy <= sy * blocks_per_row * block_size) by (nonlinear_arith)
            requires
                sy >= 0,
                blocks_per_row >= 1,
                block_size >= 1,
        ;
        assert(sy * blocks_per_row <= sy * blocks_per_row * block_size) by (nonlinear_arith)
            requires
                sy >= 0,
                blocks_per_row >= 1,
                block_size >= 1,
        ;
        assert(block_size * (x / bw + sy * blocks_per_row) <= 0xFFFF * block_size + sy
            * blocks_per_row * block_size) by (nonlinear_arith)
            requires
                x / bw <= 0xFFFF,
                sy >= 0,
                block_size >= 1,
        ;
        assert(local_byte_index <= block_size) by (nonlinear_arith)
            requires
                local_byte_index == local_x / 3,
                local_x < bw,
                bw == block_size * 3 + 1,
        ;
    }
    let block_index = x / bw + (scroll + cursor_y as usize) * blocks_per_row;
    let local_block_index = block_index % blocks_per_row;
    let line_index = block_index / blocks_per_row;
    proof {
        assert(block_size * local_block_index <= block_size * blocks_per_row) by (nonlinear_arith)
            requires
                local_block_index < blocks_per_row,
                block_size >= 1,
        ;
        assert(line_index * block_size <= line_index * block_size * blocks_per_row) by (nonlinear_arith)
            requires
                blocks_per_row >= 1,
                block_size >= 1,
        ;
        assert(line_index * block_size * blocks_per_row <= block_size * block_index) by (nonlinear_arith)
            requires
                line_index == block_index / blocks_per_row,
                blocks_per_row >= 1,
                block_size >= 1,
        ;
    }
    let line_byte_index = local_byte_index + block_size * local_block_index;
    proof {
        lemma_decompose(block_size as int, blocks_per_row as int, local_byte_index as int, block_index as int);
    }
    let global_byte_index = line_byte_index + line_index * block_size * blocks_per_row;
    CursorPosition {
        local_x,
        local_byte_index,
        block_index,
        local_block_index,
        line_index,
        line_byte_index,
        global_byte_index,
        high_byte,
    }
}

proof fn lemma_decompose(b: int, r: int, byte: int, block: int)
    requires
        b >= 1,
        r >= 1,
        byte >= 0,
        block >= 0,
    ensures
        byte + b * (block % r) + (block / r) * b * r == byte + b * block,
{
    assert(block == (block / r) * r + block % r) by (nonlinear_arith)
        requires
            r >= 1,
    ;
    assert(b * block == b * ((block / r) * r) + b * (block % r)) by (nonlinear_arith)
        requires
            block == (block / r) * r + block % r,
    ;
    assert((block / r) * b * r == b * ((block / r) * r)) by (nonlinear_arith);
}

/// Where byte `global_byte_index` stands on screen: the column of its high
/// (or low) digit, and its row.
pub fn get_expected_cursor_position(
    block_size: usize,
    blocks_per_row: usize,
    global_byte_index: usize,
    high_byte: bool,
) -> (r: (usize, usize))
    requires
        layout_ok(block_size as int, blocks_per_row as int),
    ensures
        r.0 == column_of(block_size as int, blocks_per_row as int, global_byte_index as int, high_byte),
        r.1 == row_of(block_size as int, blocks_per_row as int, global_byte_index as int),
{
    proof {
        lemma_layout_bounds(block_size as int, blocks_per_row as int);
    }
    let row_bytes = block_size * blocks_per_row;
    let in_row = global_byte_index % row_bytes;
    let block = in_row / block_size;
    let byte = in_row % block_size;
    proof {
        assert(block < blocks_per_row) by (nonlinear_arith)
            requires
                block == in_row / block_size,
                in_row < row_bytes,
                row_bytes == block_size * blocks_per_row,
                block_size >= 1,
        ;
        assert(block * (block_size * 3 + 1) + byte * 3 + 1 <= (block_size * 3 + 1) * blocks_per_row) by (nonlinear_arith)
            requires
                block + 1 <= blocks_per_row,
                byte < block_size,
        ;
    }
    let digit: usize = if high_byte {
        0
    } else {
        1
    };
    let column = block * (block_size * 3 + 1) + byte * 3 + digit;
    (column, global_byte_index / row_bytes)
}

/// The parts of a byte's column: the block it falls in and the place within
/// the block, which is a digit and never a separator.
pub proof fn lemma_column_parts(block_size: int, blocks_per_row: int, g: int, high: bool)
    requires
        layout_ok(block_size, blocks_per_row),
        0 <= g,
    ensures
        ({
            let x = column_of(block_size, blocks_per_row, g, high);
            let bw = block_width(block_size);
            let in_row = g % (block_size * blocks_per_row);
            &&& x % bw == (in_row % block_size) * 3 + (if high {
                0int
            } else {
                1int
            })
            &&& x / bw == in_row / block_size
            &&& x / bw < blocks_per_row
            &&& 0 <= x < blocks_per_row * bw
            &&& x % bw < 3 * block_size
            &&& (x % bw) % 3 == (if high {
                0int
            } else {
                1int
            })
        }),
{
    let b = block_size;
    let r = blocks_per_row;
    let br = b * r;
    assert(br >= 1) by (nonlinear_arith)
        requires
            b >= 1,
            r >= 1,
            br == b * r,
    ;
    let in_row = g % br;
    let blk = in_row / b;
    let byte = in_row % b;
    let h: int = if high {
        0
    } else {
        1
    };
    let x = column_of(b, r, g, high);
    let bw = block_width(b);
    assert(0 <= byte * 3 + h < bw) by (nonlinear_arith)
        requires
            0 <= byte < b,
            0 <= h <= 1,
            bw == b * 3 + 1,
    ;
    assert(byte * 3 + h < 3 * b) by (nonlinear_arith)
        requires
            0 <= byte < b,
            0 <= h <= 1,
    ;
    lemma_fundamental_div_mod_converse(x, bw, blk, byte * 3 + h);
    lemma_fundamental_div_mod_converse(byte * 3 + h, 3, byte, h);
    assert(0 <= blk < r) by (nonlinear_arith)
        requires
            blk == in_row / b,
            0 <= in_row < br,
            br == b * r,
            b >= 1,
    ;
    assert(0 <= x < r * bw) by (nonlinear_arith)
        requires
            x == blk * bw + (byte * 3 + h),
            0 <= blk < r,
            0 <= byte * 3 + h < bw,
    ;
}

/// A byte's column and row map back to that byte, whatever part of the row
/// is scrolled away.
pub proof fn lemma_column_row_inverse(
    block_size: int,
    blocks_per_row: int,
    g: int,
    high: bool,
    scroll: int,
)
    requires
        layout_ok(block_size, blocks_per_row),
        0 <= g,
        0 <= scroll <= row_of(block_size, blocks_per_row, g),
    ensures
        to_global(
            block_size,
            blocks_per_row,
            column_of(block_size, blocks_per_row, g, high),
            row_of(block_size, blocks_per_row, g) - scroll,
            scroll,
        ) == g,
{
    let b = block_size;
    let r = blocks_per_row;
    let br = b * r;
    assert(br >= 1) by (nonlinear_arith)
        requires
            b >= 1,
            r >= 1,
            br == b * r,
    ;
    let row = g / br;
    let in_row = g % br;
    let blk = in_row / b;
    let byte = in_row % b;
    let h: int = if high {
        0
    } else {
        1
    };
    let x = column_of(b, r, g, high);
    let bw = block_width(b);
    assert(x == blk * bw + (byte * 3 + h));
    assert(0 <= byte * 3 + h < bw) by (nonlinear_arith)
        requires
            0 <= byte < b,
            0 <= h <= 1,
            bw == b * 3 + 1,
    ;
    lemma_fundamental_div_mod_converse(x, bw, blk, byte * 3 + h);
    lemma_fundamental_div_mod_converse(byte * 3 + h, 3, byte, h);
    assert(in_row == blk * b + byte) by (nonlinear_arith)
        requires
            b >= 1,
            blk == in_row / b,
            byte == in_row % b,
    ;
    assert(g == row * br + in_row) by (nonlinear_arith)
        requires
            br >= 1,
            row == g / br,
            in_row == g % br,
    ;
    assert(byte + b * (blk + row * r) == g) by (nonlinear_arith)
        requires
            in_row == blk * b + byte,
            g == row * br + in_row,
            br == b * r,
    ;
}

/// The byte that any screen place shows comes back when its column and row
/// are computed and read again.
pub proof fn lemma_round_trip(
    block_size: int,
    blocks_per_row: int,
    x: int,
    y: int,
    scroll: int,
    high: bool,
)
    requires
        layout_ok(block_size, blocks_per_row),
        0 <= x,
        0 <= y,
        0 <= scroll,
    ensures
        ({
            let g = to_global(block_size, blocks_per_row, x, y, scroll);
            let row = row_of(block_size, blocks_per_row, g);
            &&& 0 <= g
            &&& 0 <= scroll <= row ==> to_global(
                block_size,
                blocks_per_row,
                column_of(block_size, blocks_per_row, g, high),
                row - scroll,
                scroll,
            ) == g
            &&& to_global(
                block_size,
                blocks_per_row,
                column_of(block_size, blocks_per_row, g, high),
                0,
                row,
            ) == g
        }),
{
    let b = block_size;
    let r = blocks_per_row;
    let bw = block_width(b);
    let g = to_global(b, r, x, y, scroll);
    assert(0 <= x % bw && 0 <= x / bw) by (nonlinear_arith)
        requires
            bw >= 1,
            x >= 0,
    ;
    assert(0 <= (scroll + y) * r) by (nonlinear_arith)
        requires
            scroll + y >= 0,
            r >= 1,
    ;
    assert(0 <= (x % bw) / 3);
    assert(0 <= b * (x / bw + (scroll + y) * r)) by (nonlinear_arith)
        requires
            b >= 1,
            x / bw + (scroll + y) * r >= 0,
    ;
    assert(0 <= g);
    assert(0 <= g / (b * r)) by (nonlinear_arith)
        requires
            b >= 1,
            r >= 1,
            g >= 0,
    ;
    let row = row_of(b, r, g);
    if 0 <= scroll <= row {
        lemma_column_row_inverse(b, r, g, high, scroll);
    }
    lemma_column_row_inverse(b, r, g, high, row);
}

} // verus!
