use vstd::prelude::*;
use crate::disasm::Instruction;
use crate::elf::elf_valid;
use crate::header::Header;
use crate::pe::pe_valid;
use crate::document::{Document, hex_value, with_digit};
use crate::layout::{
    CursorPosition,
    get_cursor_position,
    get_expected_cursor_position,
    to_global,
    row_of,
    block_width,
    layout_ok,
    lemma_layout_bounds,
    lemma_column_parts,
    lemma_column_row_inverse,
};

verus! {

/// Bytes per block when a file is opened.
pub const DEFAULT_BLOCK_SIZE: usize = 8;

/// Screen rows that the hex view leaves to its borders and the status line.
pub const VIEW_CHROME: u16 = 3;

/// Screen columns taken by the address column and the borders.
pub const FIXED_GUTTER_WIDTH: u16 = 22;

/// Blocks per row when the terminal is too narrow for even one.
pub const DEFAULT_BLOCKS_PER_ROW: usize = 3;

/// Rows needed for `len` bytes at `row_bytes` bytes per row.
pub open spec fn rows_for(len: int, row_bytes: int) -> int {
    (len + row_bytes - 1) / row_bytes
}

/// `v` held between `lo` and `hi` (`lo` wins when `hi < lo`).
pub open spec fn clamp(v: int, lo: int, hi: int) -> int {
    if v > hi {
        if hi < lo {
            lo
        } else {
            hi
        }
    } else if v < lo {
        lo
    } else {
        v
    }
}

/// The first visible row once row `row` is brought into a view of `height`
/// rows that starts at `scroll`: unchanged when the row is already visible,
/// otherwise just far enough to show it at the top or the bottom.
pub open spec fn scroll_to_show(scroll: int, row: int, height: int) -> int {
    if row < scroll {
        row
    } else if row >= scroll + height {
        row + 1 - height
    } else {
        scroll
    }
}

/// First visible line of a list of `total` lines, `visible` at a time, that
/// puts line `current` in the middle where the ends allow.
pub open spec fn centered_scroll(current: int, visible: int, total: int) -> int {
    clamp(current - visible / 2, 0, if total > visible {
        total - visible
    } else {
        0
    })
}

/// Blocks per row that fit a terminal `width` columns wide: each block takes
/// `3b+1` columns in the hex view and `2b+1` in the text view, and the
/// gutter takes `FIXED_GUTTER_WIDTH`. A terminal narrower than the gutter
/// has no room left, as one exactly that wide.
pub open spec fn blocks_per_row_for(block_size: int, width: int) -> int {
    let available = if width > FIXED_GUTTER_WIDTH {
        width - FIXED_GUTTER_WIDTH
    } else {
        0
    };
    (available + 2) / (block_width(block_size) + block_size * 2 + 1)
}

/// Blocks per row for a terminal `width` columns wide; 0 when not even one
/// block fits.
pub fn calc_blocks_per_row(block_size: usize, width: u16) -> (r: usize)
    requires
        1 <= block_size,
        block_size * 5 + 2 <= usize::MAX,
    ensures
        r == blocks_per_row_for(block_size as int, width as int),
        r >= 1 ==> layout_ok(block_size as int, r as int),
{
    let available: usize = if width > FIXED_GUTTER_WIDTH {
        (width - FIXED_GUTTER_WIDTH) as usize
    } else {
        0
    };
    let per_block = (block_size * 3 + 1) + (block_size * 2 + 1);
    let r = (available + 2) / per_block;
    proof {
        assert((block_size * 3 + 1) * r <= per_block * r && per_block * r <= available + 2)
            by (nonlinear_arith)
            requires
                r as int == (available + 2) as int / per_block as int,
                per_block == (block_size * 3 + 1) + (block_size * 2 + 1),
                block_size >= 1,
        ;
    }
    r
}

/// The byte shown at a screen place lies in the row of that place.
proof fn lemma_global_in_row(b: int, r: int, x: int, y: int, s: int)
    requires
        layout_ok(b, r),
        0 <= x < r * block_width(b),
        x % block_width(b) < 3 * b,
        0 <= y,
        0 <= s,
    ensures
        (s + y) * (b * r) <= to_global(b, r, x, y, s) < (s + y + 1) * (b * r),
        row_of(b, r, to_global(b, r, x, y, s)) == s + y,
{
    let bw = block_width(b);
    let g = to_global(b, r, x, y, s);
    let lx = x % bw;
    let blk = x / bw;
    assert(0 <= blk < r) by (nonlinear_arith)
        requires
            0 <= x < r * bw,
            bw >= 1,
            blk == x / bw,
    ;
    assert(0 <= lx / 3 < b) by (nonlinear_arith)
        requires
            0 <= lx < 3 * b,
    ;
    assert(g == lx / 3 + b * blk + (s + y) * (b * r)) by (nonlinear_arith)
        requires
            g == lx / 3 + b * (blk + (s + y) * r),
    ;
    assert(lx / 3 + b * blk < b * r) by (nonlinear_arith)
        requires
            0 <= lx / 3 < b,
            0 <= blk < r,
    ;
    assert(0 <= lx / 3 + b * blk) by (nonlinear_arith)
        requires
            0 <= lx / 3,
            0 <= blk,
            b >= 1,
    ;
    assert(b * r >= 1) by (nonlinear_arith)
        requires
            b >= 1,
            r >= 1,
    ;
    assert((s + y + 1) * (b * r) == (s + y) * (b * r) + b * r) by (nonlinear_arith);
    vstd::arithmetic::div_mod::lemma_fundamental_div_mod_converse(
        g,
        b * r,
        s + y,
        lx / 3 + b * blk,
    );
}

/// The first place on screen shows the first byte and its high digit.
proof fn lemma_origin(b: int, r: int)
    requires
        layout_ok(b, r),
    ensures
        to_global(b, r, 0, 0, 0) == 0,
        0int % block_width(b) == 0,
        0 < r * block_width(b),
        rows_for(0, b * r) == 0,
{
    let bw = block_width(b);
    assert(0int % bw == 0 && 0int / bw == 0) by (nonlinear_arith)
        requires
            bw >= 1,
    ;
    assert(b * (0int + (0int + 0int) * r) == 0) by (nonlinear_arith);
    assert(0 < r * bw) by (nonlinear_arith)
        requires
            bw >= 1,
            r >= 1,
    ;
    assert(b * r >= 1) by (nonlinear_arith)
        requires
            b >= 1,
            r >= 1,
    ;
    assert((b * r - 1) / (b * r) == 0) by (nonlinear_arith)
        requires
            b * r >= 1,
    ;
}

/// The rows of a non-empty buffer: every byte lies in one, and only the
/// last may be partial.
proof fn lemma_rows(len: int, rb: int, g: int)
    requires
        rb >= 1,
        0 <= g < len,
    ensures
        g / rb < rows_for(len, rb),
        (rows_for(len, rb) - 1) * rb < len,
        (len - 1) / rb == rows_for(len, rb) - 1,
        rows_for(len, rb) >= 1,
{
    let rows = rows_for(len, rb);
    let q = (len - 1) / rb;
    assert(len - 1 == q * rb + (len - 1) % rb) by (nonlinear_arith)
        requires
            rb >= 1,
            q == (len - 1) / rb,
    ;
    assert(0 <= (len - 1) % rb < rb) by (nonlinear_arith)
        requires
            rb >= 1,
    ;
    assert((q + 1) * rb == q * rb + rb) by (nonlinear_arith);
    vstd::arithmetic::div_mod::lemma_fundamental_div_mod_converse(
        len + rb - 1,
        rb,
        q + 1,
        (len - 1) % rb,
    );
    assert(g / rb <= q) by (nonlinear_arith)
        requires
            g <= len - 1,
            rb >= 1,
            q == (len - 1) / rb,
    ;
    assert(q * rb <= len - 1) by (nonlinear_arith)
        requires
            len - 1 == q * rb + (len - 1) % rb,
            0 <= (len - 1) % rb,
    ;
    assert(0 <= q) by (nonlinear_arith)
        requires
            len - 1 >= 0,
            rb >= 1,
            q == (len - 1) / rb,
    ;
}

/// An open file with its view: the rows of blocks on screen, how far they
/// are scrolled, and where the cursor stands.
pub struct Editor {
    pub document: Document,
    pub block_size: usize,
    pub blocks_per_row: usize,
    pub scroll: usize,
    pub cursor: (u16, u16),
    pub screen_size: (u16, u16),
}

impl Editor {
    pub open spec fn len(&self) -> int {
        self.document.data@.len() as int
    }

    pub open spec fn row_bytes(&self) -> int {
        self.block_size * self.blocks_per_row
    }

    pub open spec fn total_rows(&self) -> int {
        rows_for(self.len(), self.row_bytes())
    }

    pub open spec fn view_height(&self) -> int {
        self.screen_size.1 - VIEW_CHROME
    }

    /// The farthest the view scrolls: the last row at the bottom.
    pub open spec fn max_scroll(&self) -> int {
        if self.total_rows() > self.view_height() {
            self.total_rows() - self.view_height()
        } else {
            0
        }
    }

    /// The byte under the cursor.
    pub open spec fn global(&self) -> int {
        to_global(
            self.block_size as int,
            self.blocks_per_row as int,
            self.cursor.0 as int,
            self.cursor.1 as int,
            self.scroll as int,
        )
    }

    /// Whether the cursor stands on the high digit of its byte.
    pub open spec fn high(&self) -> bool {
        self.cursor.0 as int % block_width(self.block_size as int) % 3 == 0
    }

    /// The digit under the cursor, counting two per byte from the start.
    pub open spec fn digit(&self) -> int {
        2 * self.global() + if self.high() {
            0int
        } else {
            1int
        }
    }

    /// The layout and the screen are usable.
    pub open spec fn frame_ok(&self) -> bool {
        &&& self.document.wf()
        &&& layout_ok(self.block_size as int, self.blocks_per_row as int)
        &&& self.len() + 0x10000 * self.block_size <= usize::MAX
        &&& self.screen_size.1 > VIEW_CHROME
    }

    /// The cursor stands on a digit of a byte of the file, in the viewport,
    /// and the view is scrolled no further than its last row allows.
    pub open spec fn wf(&self) -> bool {
        let bw = block_width(self.block_size as int);
        &&& self.frame_ok()
        &&& self.scroll <= self.max_scroll()
        &&& (self.cursor.1 as int) < self.view_height()
        &&& self.cursor.0 as int % bw < 3 * self.block_size
        &&& self.cursor.0 as int % bw % 3 != 2
        &&& (self.cursor.0 as int) < self.blocks_per_row * bw
        &&& self.len() == 0 ==> self.cursor == (0u16, 0u16) && self.scroll == 0
        &&& self.len() > 0 ==> self.global() < self.len()
    }

    /// Opens `data` in a terminal of `width` by `height` cells, with the
    /// cursor on the first byte. The rows hold as many blocks as the width
    /// fits, or `DEFAULT_BLOCKS_PER_ROW` when it fits none.
    pub fn new(data: Vec<u8>, width: u16, height: u16) -> (r: Editor)
        requires
            height > VIEW_CHROME,
            data@.len() + 0x10000 * DEFAULT_BLOCK_SIZE <= usize::MAX,
        ensures
            r.wf(),
            r.document.data@ == data@,
            !r.document.dirty,
            elf_valid(data@) ==> (r.document.header matches Header::Elf(h) && h.describes(
                data@,
            )),
            !elf_valid(data@) && pe_valid(data@) ==> (r.document.header matches Header::PE(h)
                && h.describes(data@)),
            !elf_valid(data@) && !pe_valid(data@) ==> r.document.header is Raw,
            r.block_size == DEFAULT_BLOCK_SIZE,
            r.blocks_per_row == (if blocks_per_row_for(DEFAULT_BLOCK_SIZE as int, width as int)
                >= 1 {
                blocks_per_row_for(DEFAULT_BLOCK_SIZE as int, width as int)
            } else {
                DEFAULT_BLOCKS_PER_ROW as int
            }),
            r.screen_size == (width, height),
            r.scroll == 0,
            r.cursor == (0u16, 0u16),
    {
        let document = Document::new(data);
        let fit = calc_blocks_per_row(DEFAULT_BLOCK_SIZE, width);
        let blocks_per_row = if fit >= 1 {
            fit
        } else {
            DEFAULT_BLOCKS_PER_ROW
        };
        let r = Editor {
            document,
            block_size: DEFAULT_BLOCK_SIZE,
            blocks_per_row,
            scroll: 0,
            cursor: (0, 0),
            screen_size: (width, height),
        };
        proof {
            lemma_global_in_row(DEFAULT_BLOCK_SIZE as int, blocks_per_row as int, 0, 0, 0);
            if r.len() > 0 {
                lemma_rows(r.len(), r.row_bytes(), 0);
            }
        }
        r
    }

    proof fn lemma_frame(&self)
        requires
            self.frame_ok(),
        ensures
            1 <= self.row_bytes() <= 0x5555,
    {
        lemma_layout_bounds(self.block_size as int, self.blocks_per_row as int);
    }

    /// Rows of the hex view, as the exec code computes them.
    fn rows(&self) -> (r: usize)
        requires
            self.frame_ok(),
        ensures
            r == self.total_rows(),
    {
        proof {
            self.lemma_frame();
        }
        let row_bytes = self.block_size * self.blocks_per_row;
        (self.document.data.len() + row_bytes - 1) / row_bytes
    }

    /// Takes the cursor apart into block, row and byte.
    pub fn get_cursor_position(&self) -> (r: CursorPosition)
        requires
            self.wf(),
        ensures
            r.global_byte_index == self.global(),
            r.high_byte == self.high(),
            r.line_index == self.scroll + self.cursor.1,
    {
        proof {
            let b = self.block_size as int;
            let rr = self.blocks_per_row as int;
            lemma_global_in_row(b, rr, self.cursor.0 as int, self.cursor.1 as int, self.scroll as int);
            let sy = self.scroll + self.cursor.1;
            assert(sy * rr * b == sy * (b * rr)) by (nonlinear_arith);
            if self.len() == 0 {
                assert(sy == 0);
                assert(sy * rr * b == 0);
            } else {
                assert(sy * (b * rr) <= self.global());
            }
            assert(sy * rr * b <= self.len());
            assert((self.scroll + self.cursor.1) * self.blocks_per_row * self.block_size + 0x10000
                * self.block_size <= usize::MAX);
        }
        let r = get_cursor_position(
            self.block_size,
            self.blocks_per_row,
            self.cursor.0,
            self.cursor.1,
            self.scroll,
        );
        proof {
            let b = self.block_size as int;
            let rr = self.blocks_per_row as int;
            assert(r.line_index == self.scroll + self.cursor.1) by {
                let x = self.cursor.0 as int;
                let bw = block_width(b);
                assert(0 <= x / bw < rr) by (nonlinear_arith)
                    requires
                        0 <= x < rr * bw,
                        bw >= 1,
                ;
                vstd::arithmetic::div_mod::lemma_fundamental_div_mod_converse(
                    r.block_index as int,
                    rr,
                    self.scroll + self.cursor.1,
                    x / bw,
                );
            }
        }
        r
    }

    /// Puts the cursor on the high (or low) digit of byte `g`, scrolling as
    /// little as shows its row.
    fn place(&mut self, g: usize, high: bool)
        requires
            old(self).frame_ok(),
            g < old(self).len(),
        ensures
            final(self).wf(),
            final(self).global() == g,
            final(self).high() == high,
            final(self).document == old(self).document,
            final(self).block_size == old(self).block_size,
            final(self).blocks_per_row == old(self).blocks_per_row,
            final(self).screen_size == old(self).screen_size,
            old(self).scroll <= old(self).max_scroll() ==> final(self).scroll == scroll_to_show(
                old(self).scroll as int,
                row_of(old(self).block_size as int, old(self).blocks_per_row as int, g as int),
                old(self).view_height(),
            ),
    {
        let b = self.block_size;
        let rr = self.blocks_per_row;
        let (x, row) = get_expected_cursor_position(b, rr, g, high);
        let rows = self.rows();
        let vh = (self.screen_size.1 - VIEW_CHROME) as usize;
        let max_scroll = if rows > vh {
            rows - vh
        } else {
            0
        };
        proof {
            self.lemma_frame();
            lemma_rows(self.len(), self.row_bytes(), g as int);
            lemma_column_parts(b as int, rr as int, g as int, high);
        }
        let mut scroll = if self.scroll > max_scroll {
            max_scroll
        } else {
            self.scroll
        };
        if row < scroll {
            scroll = row;
        } else if row >= scroll + vh {
            scroll = row + 1 - vh;
        }
        proof {
            let bw = block_width(b as int);
            assert(rr * bw == bw * rr) by (nonlinear_arith);
        }
        assert(x < 0x10000);
        self.scroll = scroll;
        self.cursor = (x as u16, (row - scroll) as u16);
        proof {
            lemma_column_row_inverse(b as int, rr as int, g as int, high, scroll as int);
        }
    }

    /// Moves the cursor `dx` digits along the rows and `dy` rows up or down,
    /// wrapping from one row to the next, scrolling to keep it in view, and
    /// stopping at the first and last digit of the file.
    pub fn move_cursor(&mut self, dx: isize, dy: isize)
        requires
            old(self).wf(),
        ensures
            final(self).wf(),
            final(self).document == old(self).document,
            final(self).block_size == old(self).block_size,
            final(self).blocks_per_row == old(self).blocks_per_row,
            final(self).screen_size == old(self).screen_size,
            old(self).len() > 0 ==> final(self).digit() == clamp(
                old(self).digit() + dx + dy * 2 * old(self).row_bytes(),
                0,
                2 * old(self).len() - 1,
            ),
            old(self).len() > 0 ==> final(self).scroll == scroll_to_show(
                old(self).scroll as int,
                row_of(
                    old(self).block_size as int,
                    old(self).blocks_per_row as int,
                    final(self).global(),
                ),
                old(self).view_height(),
            ),
            old(self).len() == 0 ==> final(self).cursor == old(self).cursor,
            old(self).len() == 0 ==> final(self).scroll == old(self).scroll,
    {
        let len = self.document.data.len();
        if len == 0 {
            return;
        }
        proof {
            self.lemma_frame();
        }
        let pos = self.get_cursor_position();
        let row_bytes = (self.block_size * self.blocks_per_row) as i128;
        let digit: i128 = 2 * (pos.global_byte_index as i128) + if pos.high_byte {
            0
        } else {
            1
        };
        let last: i128 = 2 * (len as i128) - 1;
        proof {
            let d = dy as int;
            let rb = row_bytes as int;
            assert(-0x1_0000_0000_0000_0000_0000_0000 <= d * 2 * rb <= 0x1_0000_0000_0000_0000_0000_0000)
                by (nonlinear_arith)
                requires
                    -0x8000_0000_0000_0000 <= d <= 0x8000_0000_0000_0000,
                    1 <= rb <= 0x5555,
            ;
        }
        let mut target: i128 = digit + dx as i128 + dy as i128 * 2 * row_bytes;
        if target > last {
            target = last;
        }
        if target < 0 {
            target = 0;
        }
        let g = (target / 2) as usize;
        self.place(g, target % 2 == 0);
    }

    /// Scrolls up by one screen; at the top, moves the cursor to the first
    /// row.
    pub fn move_cursor_page_up(&mut self)
        requires
            old(self).wf(),
        ensures
            final(self).wf(),
            final(self).document == old(self).document,
            final(self).block_size == old(self).block_size,
            final(self).blocks_per_row == old(self).blocks_per_row,
            final(self).screen_size == old(self).screen_size,
            final(self).scroll == (if old(self).scroll >= old(self).view_height() {
                old(self).scroll - old(self).view_height()
            } else {
                0
            }),
            final(self).cursor == (old(self).cursor.0, if old(self).scroll == 0 {
                0u16
            } else {
                old(self).cursor.1
            }),
    {
        let vh = (self.screen_size.1 - VIEW_CHROME) as usize;
        if self.scroll == 0 {
            self.cursor.1 = 0;
        }
        self.scroll = if self.scroll >= vh {
            self.scroll - vh
        } else {
            0
        };
        proof {
            let b = self.block_size as int;
            let r = self.blocks_per_row as int;
            if self.len() > 0 {
                self.lemma_frame();
                lemma_global_in_row(b, r, old(self).cursor.0 as int, old(self).cursor.1 as int, old(self).scroll as int);
                lemma_global_in_row(b, r, self.cursor.0 as int, self.cursor.1 as int, self.scroll as int);
                let s0 = old(self).scroll + old(self).cursor.1;
                let s1 = self.scroll + self.cursor.1;
                assert(s1 <= s0);
                assert((s1 + 1) * (b * r) <= (s0 + 1) * (b * r)) by (nonlinear_arith)
                    requires
                        s1 <= s0,
                        b * r >= 1,
                ;
                if s1 < s0 {
                    assert((s1 + 1) * (b * r) <= s0 * (b * r)) by (nonlinear_arith)
                        requires
                            s1 + 1 <= s0,
                            b * r >= 1,
                    ;
                }
            }
        }
    }

    /// Scrolls down by one screen, no further than the last row; at the
    /// bottom, moves the cursor to the last visible row. A cursor that would
    /// fall past the end of the file stops on its last digit.
    pub fn move_cursor_page_down(&mut self)
        requires
            old(self).wf(),
        ensures
            final(self).wf(),
            final(self).document == old(self).document,
            final(self).block_size == old(self).block_size,
            final(self).blocks_per_row == old(self).blocks_per_row,
            final(self).screen_size == old(self).screen_size,
            old(self).len() > 0 ==> final(self).scroll == (if old(self).scroll
                + old(self).view_height() < old(self).max_scroll() {
                old(self).scroll + old(self).view_height()
            } else {
                old(self).max_scroll()
            }),
            old(self).len() > 0 ==> ({
                let y = if old(self).scroll == old(self).max_scroll() {
                    (if old(self).total_rows() < old(self).view_height() {
                        old(self).total_rows()
                    } else {
                        old(self).view_height()
                    }) - 1
                } else {
                    old(self).cursor.1 as int
                };
                let g = to_global(
                    old(self).block_size as int,
                    old(self).blocks_per_row as int,
                    old(self).cursor.0 as int,
                    y,
                    final(self).scroll as int,
                );
                &&& g < old(self).len() ==> final(self).cursor.0 == old(self).cursor.0
                    && final(self).cursor.1 == y
                &&& g >= old(self).len() ==> final(self).global() == old(self).len() - 1
                    && !final(self).high()
            }),
            old(self).len() == 0 ==> final(self).cursor == old(self).cursor,
            old(self).len() == 0 ==> final(self).scroll == old(self).scroll,
    {
        let len = self.document.data.len();
        if len == 0 {
            return;
        }
        proof {
            self.lemma_frame();
            lemma_global_in_row(
                self.block_size as int,
                self.blocks_per_row as int,
                self.cursor.0 as int,
                self.cursor.1 as int,
                self.scroll as int,
            );
            lemma_rows(self.len(), self.row_bytes(), self.global());
        }
        let rows = self.rows();
        let vh = (self.screen_size.1 - VIEW_CHROME) as usize;
        let max_scroll = if rows > vh {
            rows - vh
        } else {
            0
        };
        if self.scroll == max_scroll {
            let shown = if rows < vh {
                rows
            } else {
                vh
            };
            self.cursor.1 = (shown - 1) as u16;
        }
        self.scroll = if self.scroll + vh < max_scroll {
            self.scroll + vh
        } else {
            max_scroll
        };
        let ghost moved = *self;
        proof {
            let b = self.block_size as int;
            let r = self.blocks_per_row as int;
            let sy = self.scroll + self.cursor.1;
            assert(sy <= rows - 1);
            lemma_global_in_row(b, r, self.cursor.0 as int, self.cursor.1 as int, self.scroll as int);
            assert(sy * (b * r) <= (rows - 1) * (b * r)) by (nonlinear_arith)
                requires
                    sy <= rows - 1,
                    b * r >= 1,
            ;
            assert(sy * r * b == sy * (b * r)) by (nonlinear_arith);
        }
        let pos = get_cursor_position(
            self.block_size,
            self.blocks_per_row,
            self.cursor.0,
            self.cursor.1,
            self.scroll,
        );
        if pos.global_byte_index >= len {
            proof {
                let b = self.block_size as int;
                let r = self.blocks_per_row as int;
                let sy = self.scroll + self.cursor.1;
                if sy < rows - 1 {
                    assert((sy + 1) * (b * r) <= (rows - 1) * (b * r)) by (nonlinear_arith)
                        requires
                            sy + 1 <= rows - 1,
                            b * r >= 1,
                    ;
                }
                assert(sy == rows - 1);
            }
            self.place(len - 1, false);
        }
    }

    /// Scrolls to the last row, with the cursor on the last digit of the
    /// file.
    pub fn move_cursor_to_end(&mut self)
        requires
            old(self).wf(),
        ensures
            final(self).wf(),
            final(self).document == old(self).document,
            final(self).block_size == old(self).block_size,
            final(self).blocks_per_row == old(self).blocks_per_row,
            final(self).screen_size == old(self).screen_size,
            final(self).scroll == old(self).max_scroll(),
            old(self).len() > 0 ==> final(self).global() == old(self).len() - 1,
            old(self).len() > 0 ==> !final(self).high(),
    {
        let len = self.document.data.len();
        if len == 0 {
            proof {
                lemma_origin(self.block_size as int, self.blocks_per_row as int);
            }
            return;
        }
        proof {
            self.lemma_frame();
            lemma_rows(self.len(), self.row_bytes(), self.len() - 1);
        }
        let rows = self.rows();
        let vh = (self.screen_size.1 - VIEW_CHROME) as usize;
        self.scroll = if rows > vh {
            rows - vh
        } else {
            0
        };
        self.place(len - 1, false);
    }

    /// Moves the cursor to the first digit of the file.
    pub fn move_cursor_to_start(&mut self)
        requires
            old(self).wf(),
        ensures
            final(self).wf(),
            final(self).document == old(self).document,
            final(self).block_size == old(self).block_size,
            final(self).blocks_per_row == old(self).blocks_per_row,
            final(self).screen_size == old(self).screen_size,
            final(self).scroll == 0,
            final(self).cursor == (0u16, 0u16),
            final(self).global() == 0,
    {
        self.cursor = (0, 0);
        self.scroll = 0;
        proof {
            lemma_origin(self.block_size as int, self.blocks_per_row as int);
            if self.len() > 0 {
                self.lemma_frame();
                lemma_rows(self.len(), self.row_bytes(), 0);
            }
        }
    }

    /// Fits the rows to a terminal of `width` by `height` cells: as many
    /// blocks per row as the width fits, or the current number when it fits
    /// none. The cursor stays on the same digit of the same byte.
    pub fn resize(&mut self, width: u16, height: u16)
        requires
            old(self).wf(),
            height > VIEW_CHROME,
        ensures
            final(self).wf(),
            final(self).document == old(self).document,
            final(self).block_size == old(self).block_size,
            final(self).blocks_per_row == (if blocks_per_row_for(
                old(self).block_size as int,
                width as int,
            ) >= 1 {
                blocks_per_row_for(old(self).block_size as int, width as int)
            } else {
                old(self).blocks_per_row as int
            }),
            final(self).screen_size == (width, height),
            old(self).len() > 0 ==> final(self).global() == old(self).global(),
            old(self).len() > 0 ==> final(self).high() == old(self).high(),
    {
        proof {
            lemma_layout_bounds(self.block_size as int, self.blocks_per_row as int);
        }
        let pos = self.get_cursor_position();
        let fit = calc_blocks_per_row(self.block_size, width);
        if fit >= 1 {
            self.blocks_per_row = fit;
        }
        self.screen_size = (width, height);
        if self.document.data.len() > 0 {
            self.place(pos.global_byte_index, pos.high_byte);
        } else {
            self.cursor = (0, 0);
            self.scroll = 0;
            proof {
                lemma_origin(self.block_size as int, self.blocks_per_row as int);
            }
        }
    }

    /// Number of rows of the hex view.
    pub fn row_count(&self) -> (r: usize)
        requires
            self.frame_ok(),
        ensures
            r == self.total_rows(),
    {
        self.rows()
    }

    /// Writes hex digit `value` into the digit under the cursor; any other
    /// character changes nothing. Returns whether `value` was a hex digit.
    pub fn edit_data(&mut self, value: char) -> (r: bool)
        requires
            old(self).wf(),
        ensures
            final(self).wf(),
            final(self).cursor == old(self).cursor,
            final(self).scroll == old(self).scroll,
            final(self).block_size == old(self).block_size,
            final(self).blocks_per_row == old(self).blocks_per_row,
            final(self).screen_size == old(self).screen_size,
            final(self).document.header == old(self).document.header,
            r == (old(self).len() > 0 && hex_value(value) is Some),
            old(self).len() > 0 ==> match hex_value(value) {
                Some(d) => {
                    let g = old(self).global();
                    let b = with_digit(old(self).document.data@[g], d, old(self).high());
                    &&& final(self).document.data@ == old(self).document.data@.update(g, b)
                    &&& final(self).document.dirty == (old(self).document.dirty
                        || old(self).document.data@[g] != b)
                },
                None => final(self).document.data@ == old(self).document.data@
                    && final(self).document.dirty == old(self).document.dirty,
            },
            old(self).len() == 0 ==> final(self).document == old(self).document,
            hex_value(value) is None ==> final(self).document == old(self).document,
    {
        if self.document.data.len() == 0 {
            return false;
        }
        let pos = self.get_cursor_position();
        self.document.edit_nibble(pos.global_byte_index, pos.high_byte, value)
    }

    /// Records that the file was written out.
    pub fn save_done(&mut self)
        requires
            old(self).wf(),
        ensures
            final(self).wf(),
            !final(self).document.dirty,
            final(self).document.data@ == old(self).document.data@,
            final(self).cursor == old(self).cursor,
            final(self).scroll == old(self).scroll,
    {
        self.document.mark_saved();
    }

    /// Ordinal of the instruction under the cursor; 0 for an empty file.
    pub fn current_instruction_ordinal(&self) -> (r: usize)
        requires
            self.wf(),
        ensures
            self.len() > 0 ==> r == self.document.index.offsets@[self.global()],
            self.len() == 0 ==> r == 0,
    {
        if self.document.data.len() == 0 {
            return 0;
        }
        let pos = self.get_cursor_position();
        self.document.index.offsets[pos.global_byte_index]
    }

    /// The instruction under the cursor; `None` for an empty file.
    pub fn get_current_instruction(&self) -> (r: Option<&Instruction>)
        requires
            self.wf(),
        ensures
            self.len() == 0 ==> r is None,
            self.len() > 0 ==> (r matches Some(i) && *i == self.document.index.instructions@[
                self.document.index.offsets@[self.global()] as int
            ] && i.address <= self.global() < i.address + i.length),
    {
        if self.document.data.len() == 0 {
            return None;
        }
        let pos = self.get_cursor_position();
        Some(self.document.get_instruction_at(pos.global_byte_index))
    }

    /// First line of the assembly view: the one that centres the current
    /// instruction, as far as the ends of the listing allow.
    pub fn get_assembly_view_scroll(&self) -> (r: usize)
        requires
            self.wf(),
        ensures
            r == centered_scroll(
                if self.len() > 0 {
                    self.document.index.offsets@[self.global()] as int
                } else {
                    0
                },
                self.view_height(),
                self.document.index.instructions@.len() as int,
            ),
    {
        let current = self.current_instruction_ordinal();
        let visible = (self.screen_size.1 - VIEW_CHROME) as usize;
        let total = self.document.index.instructions.len();
        let most = if total > visible {
            total - visible
        } else {
            0
        };
        let half = visible / 2;
        if current < half {
            0
        } else if current - half > most {
            most
        } else {
            current - half
        }
    }
}

/// The view never scrolls past the point where the last row sits at the
/// bottom, and scrolled that far the last row is fully in view.
pub proof fn lemma_scroll_clamp(e: &Editor)
    requires
        e.wf(),
    ensures
        e.scroll <= (if e.total_rows() > e.view_height() {
            e.total_rows() - e.view_height()
        } else {
            0
        }),
        e.scroll == e.max_scroll() && e.total_rows() >= e.view_height() ==> e.scroll
            + e.view_height() == e.total_rows(),
{
}

} // verus!
