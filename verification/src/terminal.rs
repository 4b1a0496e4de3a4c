//! The text terminal on a frame buffer: where the cursor stands, where the
//! next character is drawn, when the picture scrolls, and which pixels a
//! glyph sets.

use crate::ps2::bit_is_set;
use vstd::prelude::*;

verus! {

/// Width of a character cell in pixels.
pub const CELL_WIDTH: usize = 8;

/// Height of a character cell in pixels.
pub const CELL_HEIGHT: usize = 16;

/// The first character that the font has a glyph for.
pub const FIRST_GLYPH: u32 = 0x21;

/// Size of a huge page in bytes.
pub const HUGE_PAGE: usize = 0x20_0000;

/// The measures of a frame buffer.
#[derive(Clone, Copy, Debug, PartialEq, Eq, Structural)]
pub struct FrameBufferInfo {
    /// Pixels in a row.
    pub width: usize,
    /// Rows.
    pub height: usize,
    /// Distance between the starts of two rows.
    pub stride: usize,
}

/// What to move and what to blank in the frame buffer so that the picture
/// goes up by one row of cells.
#[derive(Clone, Copy, Debug, PartialEq, Eq, Structural)]
pub struct ScrollPlan {
    /// First position to move to the start of the buffer.
    pub copy_from: usize,
    /// End of what is moved.
    pub copy_to: usize,
    /// First position to blank; the rest of the buffer follows.
    pub clear_from: usize,
}

/// A character cell.
#[derive(Clone, Copy, Debug, PartialEq, Eq, Structural)]
pub struct Cell {
    pub column: usize,
    pub row: usize,
}

/// What the terminal asks for after it has taken in a character.
#[derive(Clone, Copy, Debug, PartialEq, Eq, Structural)]
pub struct TerminalStep {
    /// The cell in which to draw the character.
    pub draw: Option<Cell>,
    /// The scrolling to do after that.
    pub scroll: Option<ScrollPlan>,
}

/// The text terminal.
#[derive(Clone, Copy, Debug, PartialEq, Eq, Structural)]
pub struct Terminal {
    /// Column of the cursor.
    pub x: usize,
    /// Row of the cursor.
    pub y: usize,
    /// The frame buffer drawn on.
    pub fb: FrameBufferInfo,
    /// Cells in a row.
    pub width: usize,
    /// Rows of cells.
    pub height: usize,
}

impl Terminal {
    /// The frame buffer holds at least one row of cells and its size is a
    /// number, the terminal measures it in cells, and the cursor is inside.
    pub open spec fn wf(self) -> bool {
        &&& self.fb.height >= CELL_HEIGHT
        &&& self.fb.stride * self.fb.height <= usize::MAX
        &&& self.width == self.fb.width / CELL_WIDTH
        &&& self.height == self.fb.height / CELL_HEIGHT
        &&& self.y < self.height
        &&& (self.x < self.width || self.x == 0)
    }

    /// The plan by which the picture goes up by one row of cells.
    pub open spec fn scroll_plan(self) -> ScrollPlan {
        ScrollPlan {
            copy_from: (self.fb.stride * CELL_HEIGHT) as usize,
            copy_to: (self.fb.stride * self.fb.height) as usize,
            clear_from: (self.fb.stride * (self.fb.height - CELL_HEIGHT)) as usize,
        }
    }

    /// The terminal after the cursor, if it stands below the last row, is
    /// taken back to the start of the row above.
    pub open spec fn after_scrollback(self) -> Terminal {
        if self.y >= self.height {
            Terminal { x: 0, y: (self.y - 1) as usize, ..self }
        } else {
            self
        }
    }

    /// The terminal after a line break.
    pub open spec fn after_line_break(self) -> Terminal {
        (Terminal { x: 0, y: (self.y + 1) as usize, ..self }).after_scrollback()
    }

    /// The terminal after it has taken in `c`.
    pub open spec fn after_put(self, c: char) -> Terminal {
        if c == '\n' || self.x + 1 >= self.width {
            self.after_line_break()
        } else {
            Terminal { x: (self.x + 1) as usize, ..self }
        }
    }

    /// What the terminal asks for when it takes in `c`.
    pub open spec fn step_for(self, c: char) -> TerminalStep {
        TerminalStep {
            draw: if c == '\n' {
                None
            } else {
                Some(Cell { column: self.x, row: self.y })
            },
            scroll: if (c == '\n' || self.x + 1 >= self.width) && self.y + 1 >= self.height {
                Some(self.scroll_plan())
            } else {
                None
            },
        }
    }

    /// A terminal on `fb` with the cursor in the first cell.
    #[inline]
    pub fn new(fb: FrameBufferInfo) -> (terminal: Terminal)
        ensures
            terminal == (Terminal {
                x: 0,
                y: 0,
                fb: fb,
                width: fb.width / CELL_WIDTH,
                height: fb.height / CELL_HEIGHT,
            }),
            fb.height >= CELL_HEIGHT && fb.stride * fb.height <= usize::MAX ==> terminal.wf(),
    {
        let width = fb.width / 8;
        let height = fb.height / 16;
        Self { x: 0, y: 0, fb, width, height }
    }

    /// The number of huge pages that the frame buffer, of four-byte pixels
    /// counted by `stride`, takes when it is mapped.
    pub fn map_fb(&self) -> (pages: usize)
        requires
            self.fb.height * self.fb.stride + (HUGE_PAGE - 1) <= usize::MAX,
        ensures
            pages == (self.fb.height * self.fb.stride + (HUGE_PAGE - 1)) / (HUGE_PAGE as int),
    {
        (self.fb.height * self.fb.stride + 0x1F_FFFF) / 0x20_0000
    }

    /// Puts the cursor in the first cell; the picture is to be blanked.
    pub fn clear(&mut self)
        ensures
            *final(self) == (Terminal { x: 0, y: 0, ..*old(self) }),
    {
        self.x = 0;
        self.y = 0;
    }

    /// Takes the cursor back into the picture if it stands below the last
    /// row, and says how to scroll the picture then.
    pub fn handle_scrollback(&mut self) -> (plan: Option<ScrollPlan>)
        requires
            old(self).fb.height >= CELL_HEIGHT,
            old(self).fb.stride * old(self).fb.height <= usize::MAX,
            old(self).height == old(self).fb.height / CELL_HEIGHT,
        ensures
            *final(self) == old(self).after_scrollback(),
            plan == if old(self).y >= old(self).height {
                Some(old(self).scroll_plan())
            } else {
                None
            },
    {
        if self.y >= self.height {
            proof {
                let stride = self.fb.stride as int;
                let height = self.fb.height as int;
                assert(stride * 16 <= stride * height) by (nonlinear_arith)
                    requires
                        16 <= height,
                        0 <= stride,
                ;
                assert(0 <= stride * (height - 16) <= stride * height) by (nonlinear_arith)
                    requires
                        16 <= height,
                        0 <= stride,
                ;
            }
            let plan = ScrollPlan {
                copy_from: self.fb.stride * 16,
                copy_to: self.fb.stride * self.fb.height,
                clear_from: self.fb.stride * (self.fb.height - 16),
            };
            self.y -= 1;
            self.x = 0;
            Some(plan)
        } else {
            None
        }
    }

    /// Takes in one character: a line break moves the cursor to the start of
    /// the next row; any other character is to be drawn where the cursor
    /// stands, and the cursor moves on, to the next row at the end of the row.
    /// Below the last row the picture scrolls.
    pub fn put(&mut self, c: char) -> (step: TerminalStep)
        requires
            old(self).wf(),
        ensures
            *final(self) == old(self).after_put(c),
            step == old(self).step_for(c),
            final(self).wf(),
    {
        if c == '\n' {
            self.y += 1;
            self.x = 0;
            let scroll = self.handle_scrollback();
            TerminalStep { draw: None, scroll }
        } else {
            let draw = Some(Cell { column: self.x, row: self.y });
            self.x += 1;
            if self.x >= self.width {
                self.y += 1;
                self.x = 0;
                let scroll = self.handle_scrollback();
                TerminalStep { draw, scroll }
            } else {
                TerminalStep { draw, scroll: None }
            }
        }
    }
}

/// The place of the glyph of `c` in the font, which starts at
/// `FIRST_GLYPH`; `None` for the characters before it.
pub fn glyph_index(c: char) -> (index: Option<usize>)
    ensures
        index == if c as u32 >= FIRST_GLYPH {
            Some((c as u32 - FIRST_GLYPH) as usize)
        } else {
            None
        },
{
    let code = c as u32;
    if code >= FIRST_GLYPH {
        Some((code - FIRST_GLYPH) as usize)
    } else {
        None
    }
}

/// The pixels that the bits below `upto` of one glyph row set: bit `b`
/// stands for the pixel `8 - b` to the right of `left`.
pub open spec fn row_pixels(bits: u8, left: usize, top: usize, upto: int) -> Seq<(usize, usize)>
    decreases upto,
{
    if upto <= 0 {
        Seq::empty()
    } else {
        let before = row_pixels(bits, left, top, upto - 1);
        if bit_is_set(bits, (upto - 1) as u8) {
            before.push(((left + 8 - (upto - 1)) as usize, top))
        } else {
            before
        }
    }
}

/// The pixels that the rows of a glyph set when its first row is drawn at
/// `top`, row by row.
pub open spec fn glyph_pixels_of(rows: Seq<u8>, left: usize, top: usize) -> Seq<(usize, usize)>
    decreases rows.len(),
{
    if rows.len() == 0 {
        Seq::empty()
    } else {
        glyph_pixels_of(rows.drop_last(), left, top) + row_pixels(
            rows.last(),
            left,
            (top + rows.len() - 1) as usize,
            8,
        )
    }
}

impl Terminal {
    /// The pixels to set, in order, so that the glyph with the rows `glyph`
    /// appears in the cell where the cursor stands.
    pub fn draw_char(&self, glyph: &[u8]) -> (pixels: Vec<(usize, usize)>)
        requires
            self.x * CELL_WIDTH + CELL_WIDTH <= usize::MAX,
            self.y * CELL_HEIGHT + glyph@.len() <= usize::MAX,
        ensures
            pixels@ == glyph_pixels_of(
                glyph@,
                (self.x * CELL_WIDTH) as usize,
                (self.y * CELL_HEIGHT) as usize,
            ),
    {
        let x = self.x * 8;
        let top = self.y * 16;
        let mut y = top;
        let mut pixels: Vec<(usize, usize)> = Vec::new();
        let mut i: usize = 0;
        while i < glyph.len()
            invariant
                i <= glyph@.len(),
                y == top + i,
                x + 8 <= usize::MAX,
                top + glyph@.len() <= usize::MAX,
                pixels@ == glyph_pixels_of(glyph@.take(i as int), x, top),
            decreases glyph.len() - i,
        {
            let x_bit = glyph[i];
            let ghost done = pixels@;
            let mut bit: u8 = 0;
            while bit < 8
                invariant
                    bit <= 8,
                    x + 8 <= usize::MAX,
                    pixels@ == done + row_pixels(x_bit, x, y, bit as int),
                decreases 8 - bit,
            {
                if x_bit & (1u8 << bit) != 0 {
                    pixels.push((x + 8 - bit as usize, y));
                }
                proof {
                    let next = row_pixels(x_bit, x, y, bit + 1);
                    let before = row_pixels(x_bit, x, y, bit as int);
                    if bit_is_set(x_bit, bit) {
                        assert(done + next =~= (done + before).push(
                            ((x + 8 - bit) as usize, y),
                        ));
                    }
                }
                bit += 1;
            }
            proof {
                let upto = glyph@.take(i + 1);
                assert(upto.drop_last() =~= glyph@.take(i as int));
                assert(upto.last() == x_bit);
            }
            y += 1;
            i += 1;
        }
        proof {
            assert(glyph@.take(glyph@.len() as int) =~= glyph@);
        }
        pixels
    }
}

} // verus!
