//! The grid writer: the owner of the character grid, its mathematical
//! model, and the byte-writing, line-wrap and scroll operations.

use vstd::prelude::*;

use crate::color::Color;
use crate::color::ColorCode;
use crate::color::color_code;
use crate::color::packed_attribute;

verus! {

/// Number of rows in the character grid.
pub const BUFFER_HEIGHT: usize = 25;

/// Number of columns in the character grid.
pub const BUFFER_WIDTH: usize = 80;

/// Total number of cells in the grid.
pub const BUFFER_CELLS: usize = BUFFER_HEIGHT * BUFFER_WIDTH;

/// The byte that starts a new line.
pub const NEWLINE_BYTE: u8 = 0x0a;

/// The replacement glyph written for any byte that is neither printable
/// nor a newline.
pub const SENTINEL_GLYPH: u8 = 0xfe;

/// The character of a blank cell: an ASCII space.
pub const BLANK_CHAR: u8 = 0x20;

/// One cell of the display grid: a displayable byte and the color
/// attribute it is shown with.
#[derive(Copy, Clone, PartialEq, Eq, Structural, Debug)]
pub struct ScreenChar {
    pub ascii_character: u8,
    pub color_code: ColorCode,
}

/// The mathematical state of a writer: the grid contents as one flat
/// row-major sequence of cells, the cursor column on the bottom row,
/// and the active color attribute.
pub ghost struct WriterView {
    pub cells: Seq<ScreenChar>,
    pub col: int,
    pub attr: ColorCode,
}

/// The flat index of the cell at (row, col) in the row-major grid.
pub open spec fn cell_index(row: int, col: int) -> int {
    row * (BUFFER_WIDTH as int) + col
}

/// A blank cell: a space shown with the given attribute.
pub open spec fn blank_cell(attr: ColorCode) -> ScreenChar {
    ScreenChar { ascii_character: BLANK_CHAR, color_code: attr }
}

/// The cell written for byte `b` under the given attribute.
pub open spec fn glyph_cell(b: u8, attr: ColorCode) -> ScreenChar {
    ScreenChar { ascii_character: b, color_code: attr }
}

/// One full row of blank cells.
pub open spec fn blank_row(attr: ColorCode) -> Seq<ScreenChar> {
    Seq::new(BUFFER_WIDTH as nat, |i: int| blank_cell(attr))
}

/// A whole grid of blank cells.
pub open spec fn blank_grid(attr: ColorCode) -> Seq<ScreenChar> {
    Seq::new(BUFFER_CELLS as nat, |i: int| blank_cell(attr))
}

/// The grid after one scroll: every row moves up one place, and the
/// bottom row becomes blank cells carrying the active attribute.
pub open spec fn scrolled(cells: Seq<ScreenChar>, attr: ColorCode) -> Seq<ScreenChar> {
    cells.subrange(BUFFER_WIDTH as int, cells.len() as int) + blank_row(attr)
}

/// Whether `b` is printable ASCII.
pub open spec fn is_printable(b: u8) -> bool {
    0x20 <= b <= 0x7e
}

/// The byte actually written for input byte `b`: newlines and printable
/// bytes pass through, everything else becomes the sentinel glyph.
pub open spec fn sanitize_byte(b: u8) -> u8 {
    if b == NEWLINE_BYTE || is_printable(b) {
        b
    } else {
        SENTINEL_GLYPH
    }
}

impl WriterView {
    /// A well-formed writer state: a full grid and a cursor column
    /// inside the row.
    pub open spec fn wf(self) -> bool {
        &&& self.cells.len() == BUFFER_CELLS
        &&& 0 <= self.col < BUFFER_WIDTH
    }
}

/// The effect of writing one pre-sanitized byte: a newline scrolls and
/// resets the column; any other byte is stamped at (bottom row, current
/// column) and the cursor advances, scrolling back to column 0 when it
/// passes the right edge.
pub open spec fn step(v: WriterView, b: u8) -> WriterView {
    if b == NEWLINE_BYTE {
        WriterView { cells: scrolled(v.cells, v.attr), col: 0, attr: v.attr }
    } else {
        let written = v.cells.update(
            cell_index(BUFFER_HEIGHT - 1, v.col),
            glyph_cell(b, v.attr),
        );
        if v.col + 1 >= BUFFER_WIDTH {
            WriterView { cells: scrolled(written, v.attr), col: 0, attr: v.attr }
        } else {
            WriterView { cells: written, col: v.col + 1, attr: v.attr }
        }
    }
}

/// The effect of writing a whole byte sequence, strictly left to right,
/// sanitizing each byte before it is written.
pub open spec fn run(v: WriterView, s: Seq<u8>) -> WriterView
    decreases s.len(),
{
    if s.len() == 0 {
        v
    } else {
        step(run(v, s.drop_last()), sanitize_byte(s.last()))
    }
}

/// How many scrolls writing one pre-sanitized byte causes: one for a
/// newline, one for a write that fills the row, none otherwise.
pub open spec fn step_scrolls(v: WriterView, b: u8) -> nat {
    if b == NEWLINE_BYTE {
        1
    } else if v.col + 1 >= BUFFER_WIDTH {
        1
    } else {
        0
    }
}

/// How many scrolls writing a whole byte sequence causes.
pub open spec fn run_scrolls(v: WriterView, s: Seq<u8>) -> nat
    decreases s.len(),
{
    if s.len() == 0 {
        0
    } else {
        run_scrolls(v, s.drop_last()) + step_scrolls(run(v, s.drop_last()), sanitize_byte(s.last()))
    }
}

/// Writing any byte keeps the writer state well formed and never
/// changes the active attribute.
pub proof fn lemma_step_preserves_wf(v: WriterView, b: u8)
    requires
        v.wf(),
    ensures
        step(v, b).wf(),
        step(v, b).attr == v.attr,
{
}

/// Writing any byte sequence keeps the writer state well formed and
/// never changes the active attribute.
pub proof fn lemma_run_preserves_wf(v: WriterView, s: Seq<u8>)
    requires
        v.wf(),
    ensures
        run(v, s).wf(),
        run(v, s).attr == v.attr,
    decreases s.len(),
{
    if s.len() > 0 {
        lemma_run_preserves_wf(v, s.drop_last());
        lemma_step_preserves_wf(run(v, s.drop_last()), sanitize_byte(s.last()));
    }
}

/// The grid during a scroll, after the first `k` cells have been copied
/// from one row below.
spec fn scroll_mid(orig: Seq<ScreenChar>, k: int) -> Seq<ScreenChar> {
    Seq::new(orig.len(), |i: int| if i < k { orig[i + BUFFER_WIDTH] } else { orig[i] })
}

/// The grid during a scroll, after every row has moved up and the first
/// `k` cells of the bottom row have been blanked.
spec fn blank_mid(orig: Seq<ScreenChar>, attr: ColorCode, k: int) -> Seq<ScreenChar> {
    Seq::new(
        orig.len(),
        |i: int| if i < cell_index(BUFFER_HEIGHT - 1, 0) {
            orig[i + BUFFER_WIDTH]
        } else if i < cell_index(BUFFER_HEIGHT - 1, k) {
            blank_cell(attr)
        } else {
            orig[i]
        },
    )
}

/// The owner of the character grid. It holds the grid cells, the cursor
/// column on the bottom row, and the attribute stamped onto every cell
/// it writes. All writing happens on the bottom row; content moves up
/// by scrolling.
pub struct Writer {
    cells: Vec<ScreenChar>,
    column_position: usize,
    color_code: ColorCode,
}

impl View for Writer {
    type V = WriterView;

    closed spec fn view(&self) -> WriterView {
        WriterView {
            cells: self.cells@,
            col: self.column_position as int,
            attr: self.color_code,
        }
    }
}

impl Writer {
    /// Creates a writer over a fresh all-blank grid, with the cursor at
    /// column 0 and the attribute packed from the two given colors.
    pub fn new(foreground: Color, background: Color) -> (w: Writer)
        ensures
            w@.wf(),
            w@.col == 0,
            w@.attr.0 == packed_attribute(foreground, background),
            w@.attr.0 & 0x0f == color_code(foreground),
            w@.attr.0 >> 4 == color_code(background),
            w@.cells == blank_grid(w@.attr),
    {
        let color_code = ColorCode::new(foreground, background);
        let blank = ScreenChar { ascii_character: BLANK_CHAR, color_code };
        let cells = vec![blank; BUFFER_CELLS];
        proof {
            assert(cells@ =~= blank_grid(color_code));
        }
        Writer { cells, column_position: 0, color_code }
    }

    /// Writes one byte. A newline scrolls the grid and resets the
    /// column, writing no cell; any other byte is stamped at (bottom
    /// row, current column) with the active attribute, and the cursor
    /// advances, scrolling back to column 0 when it passes the right
    /// edge.
    ///
    /// Callers must pre-sanitize their input: only a newline, printable
    /// ASCII or the sentinel glyph may be passed here.
    pub fn write_byte(&mut self, byte: u8)
        requires
            old(self)@.wf(),
            byte == NEWLINE_BYTE || is_printable(byte) || byte == SENTINEL_GLYPH,
        ensures
            final(self)@ == step(old(self)@, byte),
            final(self)@.wf(),
    {
        proof {
            lemma_step_preserves_wf(old(self)@, byte);
        }
        if byte == NEWLINE_BYTE {
            self.new_line();
        } else {
            let row = BUFFER_HEIGHT - 1;
            let col = self.column_position;
            let color_code = self.color_code;
            self.cells.set(row * BUFFER_WIDTH + col, ScreenChar { ascii_character: byte, color_code });
            self.column_position = self.column_position + 1;
            if self.column_position >= BUFFER_WIDTH {
                self.new_line();
            }
        }
    }

    /// Writes a byte sequence, strictly in order: printable bytes and
    /// newlines pass through to `write_byte` unchanged, and every other
    /// byte is replaced with the sentinel glyph first.
    pub fn write_string(&mut self, s: &[u8])
        requires
            old(self)@.wf(),
        ensures
            final(self)@ == run(old(self)@, s@),
            final(self)@.wf(),
    {
        let ghost v0 = self@;
        proof {
            assert(s@.take(0) =~= Seq::<u8>::empty());
        }
        let mut i: usize = 0;
        while i < s.len()
            invariant
                i <= s.len(),
                v0 == old(self)@,
                v0.wf(),
                self@ == run(v0, s@.take(i as int)),
                self@.wf(),
            decreases s.len() - i,
        {
            let byte = s[i];
            proof {
                assert(s@.take(i + 1).drop_last() =~= s@.take(i as int));
                assert(s@.take(i + 1).last() == s@[i as int]);
            }
            if (0x20 <= byte && byte <= 0x7e) || byte == NEWLINE_BYTE {
                self.write_byte(byte);
            } else {
                self.write_byte(SENTINEL_GLYPH);
            }
            i = i + 1;
        }
        proof {
            assert(s@.take(s@.len() as int) =~= s@);
        }
    }

    /// Scrolls the grid: copies every row into the row above it, blanks
    /// the bottom row with the active attribute, and resets the column.
    fn new_line(&mut self)
        requires
            old(self)@.cells.len() == BUFFER_CELLS,
        ensures
            final(self)@.cells == scrolled(old(self)@.cells, old(self)@.attr),
            final(self)@.col == 0,
            final(self)@.attr == old(self)@.attr,
            final(self)@.wf(),
    {
        let ghost orig = self.cells@;
        let ghost attr = self.color_code;
        let blank = ScreenChar { ascii_character: BLANK_CHAR, color_code: self.color_code };
        proof {
            assert(self.cells@ =~= scroll_mid(orig, 0));
        }
        let mut row: usize = 1;
        while row < BUFFER_HEIGHT
            invariant
                1 <= row <= BUFFER_HEIGHT,
                self.cells@.len() == BUFFER_CELLS,
                orig.len() == BUFFER_CELLS,
                self.color_code == attr,
                self.column_position == old(self).column_position,
                self.cells@ == scroll_mid(orig, (row - 1) * (BUFFER_WIDTH as int)),
            decreases BUFFER_HEIGHT - row,
        {
            let mut col: usize = 0;
            while col < BUFFER_WIDTH
                invariant
                    1 <= row < BUFFER_HEIGHT,
                    col <= BUFFER_WIDTH,
                    self.cells@.len() == BUFFER_CELLS,
                    orig.len() == BUFFER_CELLS,
                    self.color_code == attr,
                    self.column_position == old(self).column_position,
                    self.cells@ == scroll_mid(orig, (row - 1) * (BUFFER_WIDTH as int) + col),
                decreases BUFFER_WIDTH - col,
            {
                let c = self.cells[row * BUFFER_WIDTH + col];
                self.cells.set((row - 1) * BUFFER_WIDTH + col, c);
                proof {
                    assert(self.cells@ =~= scroll_mid(
                        orig,
                        (row - 1) * (BUFFER_WIDTH as int) + col + 1,
                    ));
                }
                col = col + 1;
            }
            row = row + 1;
        }
        proof {
            assert(self.cells@ =~= blank_mid(orig, attr, 0));
        }
        let mut col: usize = 0;
        while col < BUFFER_WIDTH
            invariant
                col <= BUFFER_WIDTH,
                self.cells@.len() == BUFFER_CELLS,
                orig.len() == BUFFER_CELLS,
                self.color_code == attr,
                blank == blank_cell(attr),
                self.cells@ == blank_mid(orig, attr, col as int),
            decreases BUFFER_WIDTH - col,
        {
            self.cells.set((BUFFER_HEIGHT - 1) * BUFFER_WIDTH + col, blank);
            proof {
                assert(self.cells@ =~= blank_mid(orig, attr, col + 1));
            }
            col = col + 1;
        }
        self.column_position = 0;
        proof {
            assert(self.cells@ =~= scrolled(orig, attr));
        }
    }

    /// The cell currently shown at (row, col).
    pub fn cell_at(&self, row: usize, col: usize) -> (c: ScreenChar)
        requires
            self@.wf(),
            row < BUFFER_HEIGHT,
            col < BUFFER_WIDTH,
        ensures
            c == self@.cells[cell_index(row as int, col as int)],
    {
        self.cells[row * BUFFER_WIDTH + col]
    }

    /// The current cursor column on the bottom row.
    pub fn column(&self) -> (c: usize)
        ensures
            c == self@.col,
    {
        self.column_position
    }

    /// The active color attribute.
    pub fn attribute(&self) -> (r: ColorCode)
        ensures
            r == self@.attr,
    {
        self.color_code
    }
}

} // verus!
