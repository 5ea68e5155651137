//! The screen model: a cursor on a fixed grid of character cells, and the
//! actions that move it.

use crate::glyph::{complete, glyph_of, supported, Glyph, GlyphCache, GlyphView};
use crate::render::{clear, cleared, draw_glyph, drawn, Drawing};
use vstd::prelude::*;

verus! {

/// Width of the panel in pixels.
pub const RES_WIDTH: u32 = 1404;

/// Height of the panel in pixels.
pub const RES_HEIGHT: u32 = 1872;

/// Number of character cells in a row of the grid.
pub const N_COLS: u32 = 60;

/// Number of rows of the grid.
pub const N_ROWS: u32 = 50;

/// The character whose advance gives the width of a cell.
pub const WIDTH_CHAR: char = 'a';

/// Code of the delete character, which erases like a backspace.
pub const DELETE: u8 = 127;

/// Control byte that erases the character before the cursor.
pub const BACKSPACE: u8 = 8;

/// First of the control bytes that start a new line (line feed).
pub const FIRST_LINE_BREAK: u8 = 10;

/// Last of the control bytes that start a new line (carriage return).
pub const LAST_LINE_BREAK: u8 = 13;

/// Half of what is left of `extent` once `used` is taken from it, and
/// nothing where `used` exceeds it.
pub open spec fn padding(extent: int, used: int) -> int {
    if used >= extent {
        0
    } else {
        (extent - used) / 2
    }
}

/// Size and place of the grid on the panel, in pixels and cells.
#[derive(Clone, Copy, Debug, PartialEq, Eq)]
pub struct Layout {
    pub char_width: u32,
    pub line_height: u32,
    pub left_padding: u32,
    pub top_padding: u32,
    pub n_rows: u32,
    pub n_cols: u32,
}

impl Layout {
    /// The grid of `n_rows` by `n_cols` cells of the given size, centred on
    /// the panel; it starts at the panel's edge where it is larger than the
    /// panel.
    pub open spec fn centered_spec(n_rows: u32, n_cols: u32, char_width: u32, line_height: u32) -> Layout {
        Layout {
            char_width,
            line_height,
            left_padding: padding(RES_WIDTH as int, n_cols * char_width) as u32,
            top_padding: padding(RES_HEIGHT as int, n_rows * line_height) as u32,
            n_rows,
            n_cols,
        }
    }

    /// The grid of `n_rows` by `n_cols` cells of the given size, centred on
    /// the panel.
    pub fn centered(n_rows: u32, n_cols: u32, char_width: u32, line_height: u32) -> (r: Layout)
        ensures
            r == Layout::centered_spec(n_rows, n_cols, char_width, line_height),
            r.left_padding == padding(RES_WIDTH as int, n_cols * char_width),
            r.top_padding == padding(RES_HEIGHT as int, n_rows * line_height),
    {
        let grid_width: u64 = span(n_cols, char_width);
        let grid_height: u64 = span(n_rows, line_height);
        let left_padding: u32 = if grid_width >= RES_WIDTH as u64 {
            0
        } else {
            ((RES_WIDTH as u64 - grid_width) / 2) as u32
        };
        let top_padding: u32 = if grid_height >= RES_HEIGHT as u64 {
            0
        } else {
            ((RES_HEIGHT as u64 - grid_height) / 2) as u32
        };
        Layout { char_width, line_height, left_padding, top_padding, n_rows, n_cols }
    }
}

/// Pixels that `count` cells of `size` pixels each take up.
fn span(count: u32, size: u32) -> (r: u64)
    ensures
        r == count * size,
{
    assert(count * size <= 0xffff_ffff * 0xffff_ffff) by (nonlinear_arith)
        requires
            count <= 0xffff_ffff,
            size <= 0xffff_ffff,
    ;
    (count as u64) * (size as u64)
}

/// A bound on the pixels that fewer than 64 cells take up.
proof fn lemma_span_bound(count: int, size: int)
    requires
        0 <= count < 64,
        0 <= size <= u32::MAX,
    ensures
        0 <= count * size <= 63 * 0xffff_ffff,
{
    assert(0 <= count * size <= 63 * 0xffff_ffff) by (nonlinear_arith)
        requires
            0 <= count < 64,
            0 <= size <= 0xffff_ffff,
    ;
}

/// What the terminal asks of the renderer after an action.
#[derive(Clone, Copy, Debug, PartialEq, Eq)]
pub enum Action {
    /// Draw the glyph of `c` into the cell whose top-left corner is at
    /// (`x`, `y`).
    Draw { c: char, x: i64, y: i64 },
    /// Clear the cell whose top-left corner is at (`x`, `y`).
    Clear { x: i64, y: i64, width: u32, height: u32 },
    /// Nothing to render.
    Nothing,
    /// The character has no glyph: it is passed over, and the cursor stays.
    Unprintable { c: char },
    /// The control byte is not handled: it is passed over.
    Unsupported { byte: u8 },
}

/// What a terminal is: the cursor's cell, the layout of the grid, the
/// descent of the font and the glyphs.
pub struct TerminalView {
    pub row: nat,
    pub col: nat,
    pub layout: Layout,
    pub descent: i32,
    pub glyphs: Seq<GlyphView>,
}

impl TerminalView {
    /// The grid has [`N_ROWS`] rows of [`N_COLS`] cells, the cursor lies on
    /// it, and every supported character has a glyph.
    pub open spec fn wf(self) -> bool {
        &&& self.layout.n_rows == N_ROWS
        &&& self.layout.n_cols == N_COLS
        &&& self.row < self.layout.n_rows
        &&& self.col < self.layout.n_cols
        &&& complete(self.glyphs)
    }

    /// Left edge of the cursor's cell, in pixels.
    pub open spec fn cursor_x(self) -> int {
        self.col * self.layout.char_width + self.layout.left_padding
    }

    /// Top edge of the cursor's cell, in pixels.
    pub open spec fn cursor_y(self) -> int {
        self.row * self.layout.line_height + self.layout.top_padding
    }

    /// The corners of every cell of a grid lie far inside the coordinates
    /// that a `Pixel` can hold.
    pub proof fn lemma_cursor_bounds(self)
        requires
            self.wf(),
        ensures
            0 <= self.cursor_x() <= 64 * 0xffff_ffff,
            0 <= self.cursor_y() <= 64 * 0xffff_ffff,
    {
        lemma_span_bound(self.col as int, self.layout.char_width as int);
        lemma_span_bound(self.row as int, self.layout.line_height as int);
    }

    /// The terminal with its cursor at (`row`, `col`).
    pub open spec fn at(self, row: nat, col: nat) -> TerminalView {
        TerminalView { row, col, ..self }
    }

    /// The cursor at the start of the next row, or of the first row after
    /// the last.
    pub open spec fn new_line(self) -> TerminalView {
        if self.row + 1 >= self.layout.n_rows {
            self.at(0, 0)
        } else {
            self.at(self.row + 1, 0)
        }
    }

    /// The request to clear the cursor's cell.
    pub open spec fn clear_cell(self) -> Action {
        Action::Clear {
            x: self.cursor_x() as i64,
            y: self.cursor_y() as i64,
            width: self.layout.char_width,
            height: self.layout.line_height,
        }
    }

    /// The request to draw the glyph of `c` into the cursor's cell, shifted
    /// by the font's descent.
    pub open spec fn draw_cell(self, c: char) -> Action {
        Action::Draw { c, x: self.cursor_x() as i64, y: (self.cursor_y() + self.descent) as i64 }
    }

    /// One cell back, with the request to clear that cell; nothing at the
    /// start of a row.
    pub open spec fn backspace(self) -> (TerminalView, Action) {
        if self.col > 0 {
            let back = self.at(self.row, (self.col - 1) as nat);
            (back, back.clear_cell())
        } else {
            (self, Action::Nothing)
        }
    }

    /// One cell on, and onto a new line past the last cell of a row.
    pub open spec fn advance(self) -> TerminalView {
        if self.col + 1 >= self.layout.n_cols {
            self.new_line()
        } else {
            self.at(self.row, self.col + 1)
        }
    }

    /// The terminal after printing `c`, and what to render.
    pub open spec fn print(self, c: char) -> (TerminalView, Action) {
        if c as int == DELETE as int {
            self.backspace()
        } else if supported(c) {
            (self.advance(), self.draw_cell(c))
        } else {
            (self, Action::Unprintable { c })
        }
    }

    /// The terminal after the control byte `byte`, and what to render.
    pub open spec fn execute(self, byte: u8) -> (TerminalView, Action) {
        if byte == BACKSPACE {
            self.backspace()
        } else if FIRST_LINE_BREAK <= byte <= LAST_LINE_BREAK {
            (self.new_line(), Action::Nothing)
        } else {
            (self, Action::Unsupported { byte })
        }
    }
}

/// Whether printing `c` draws a glyph: `c` is a supported character other
/// than delete.
pub open spec fn printable(c: char) -> bool {
    supported(c) && c as int != DELETE as int
}

impl TerminalView {
    /// The terminal after printing the characters of `text` one by one.
    pub open spec fn print_all(self, text: Seq<char>) -> TerminalView
        decreases text.len(),
    {
        if text.len() == 0 {
            self
        } else {
            self.print_all(text.drop_last()).print(text.last()).0
        }
    }

    /// No action takes the cursor off the grid, and none changes the layout,
    /// the descent or the glyphs.
    pub proof fn lemma_actions_keep_wf(self, c: char, byte: u8)
        requires
            self.wf(),
        ensures
            self.new_line().wf(),
            self.backspace().0.wf(),
            self.print(c).0.wf(),
            self.execute(byte).0.wf(),
            self.new_line() == self.at(self.new_line().row, self.new_line().col),
            self.backspace().0 == self.at(self.backspace().0.row, self.backspace().0.col),
            self.print(c).0 == self.at(self.print(c).0.row, self.print(c).0.col),
            self.execute(byte).0 == self.at(self.execute(byte).0.row, self.execute(byte).0.col),
    {
    }

    /// Printing characters that all draw a glyph, as long as they do not
    /// fill the row, moves the cursor one column per character and leaves it
    /// on its row.
    pub proof fn lemma_prints_within_row(self, text: Seq<char>)
        requires
            self.wf(),
            forall|i: int| 0 <= i < text.len() ==> printable(#[trigger] text[i]),
            self.col + text.len() < self.layout.n_cols,
        ensures
            self.print_all(text) == self.at(self.row, self.col + text.len()),
            self.print_all(text).col == self.col + text.len(),
            self.print_all(text).row == self.row,
        decreases text.len(),
    {
        if text.len() > 0 {
            self.lemma_prints_within_row(text.drop_last());
        }
    }

    /// Printing exactly as many characters as are left in the row wraps
    /// once: the cursor is at the start of the next row, or of the first row
    /// where it was on the last.
    pub proof fn lemma_prints_to_row_end_wrap(self, text: Seq<char>)
        requires
            self.wf(),
            forall|i: int| 0 <= i < text.len() ==> printable(#[trigger] text[i]),
            self.col + text.len() == self.layout.n_cols,
        ensures
            self.print_all(text) == self.new_line(),
            self.print_all(text).col == 0,
            self.print_all(text).row == (self.row + 1) % (self.layout.n_rows as nat),
    {
        self.lemma_prints_within_row(text.drop_last());
        self.lemma_new_line();
    }

    /// A new line puts the cursor in column 0 of the row below, and of the
    /// first row below the last.
    pub proof fn lemma_new_line(self)
        requires
            self.wf(),
        ensures
            self.new_line().col == 0,
            self.new_line().row == (self.row + 1) % (self.layout.n_rows as nat),
    {
    }

    /// A backspace in column 0 changes nothing and asks for no clearing.
    pub proof fn lemma_backspace_at_row_start(self)
        requires
            self.wf(),
            self.col == 0,
        ensures
            self.backspace() == (self, Action::Nothing),
    {
    }

    /// A backspace past column 0 moves the cursor one column back and asks
    /// to clear exactly the cell it then stands on.
    pub proof fn lemma_backspace_clears_cell(self)
        requires
            self.wf(),
            self.col > 0,
        ensures
            self.backspace().0 == self.at(self.row, (self.col - 1) as nat),
            self.backspace().1 == (Action::Clear {
                x: ((self.col - 1) * self.layout.char_width + self.layout.left_padding) as i64,
                y: (self.row * self.layout.line_height + self.layout.top_padding) as i64,
                width: self.layout.char_width,
                height: self.layout.line_height,
            }),
    {
    }

    /// A backspace after a print that did not wrap undoes the move of the
    /// cursor and asks to clear the cell that was printed to.
    pub proof fn lemma_backspace_after_print(self, c: char)
        requires
            self.wf(),
            printable(c),
            self.col + 1 < self.layout.n_cols,
        ensures
            self.print(c).0.col == self.col + 1,
            self.print(c).0.backspace() == (self, self.clear_cell()),
    {
    }

    /// Each of the control bytes from line feed to carriage return does what
    /// a new line does, and asks for nothing to be rendered.
    pub proof fn lemma_line_breaks(self, byte: u8)
        requires
            self.wf(),
            10 <= byte <= 13,
        ensures
            self.execute(byte) == (self.new_line(), Action::Nothing),
            self.execute(byte).0.col == 0,
            self.execute(byte).0.row == (self.row + 1) % (self.layout.n_rows as nat),
    {
    }

    /// What a print or a backspace asks for can always be rendered: a cell
    /// is cleared whatever the noise, and a glyph is drawn whenever the
    /// noise has one value per position of its bitmap.
    pub proof fn lemma_requests_render(self, c: char, noise: Seq<i32>, r: Option<Drawing>)
        requires
            self.wf(),
        ensures
            rendered(self, self.backspace().1, noise, r) && self.col > 0 ==> r is Some,
            rendered(self, self.print(c).1, noise, r) && printable(c) ==> (r is Some
                <==> noise.len() == glyph_of(self.glyphs, c).area()),
    {
        self.lemma_cursor_bounds();
        if self.col > 0 {
            self.at(self.row, (self.col - 1) as nat).lemma_cursor_bounds();
        }
    }
}

/// A terminal session: a cursor on the grid, and the glyphs to draw with.
pub struct Terminal {
    row: u32,
    col: u32,
    layout: Layout,
    descent: i32,
    glyphs: GlyphCache,
}

impl View for Terminal {
    type V = TerminalView;

    closed spec fn view(&self) -> TerminalView {
        TerminalView {
            row: self.row as nat,
            col: self.col as nat,
            layout: self.layout,
            descent: self.descent,
            glyphs: self.glyphs@,
        }
    }
}

impl Terminal {
    #[verifier::type_invariant]
    spec fn inv(self) -> bool {
        self@.wf()
    }

    /// A terminal with its cursor in the top-left cell of a grid of
    /// [`N_ROWS`] by [`N_COLS`] cells, centred on the panel. A cell is as
    /// wide as the advance of [`WIDTH_CHAR`] and `line_height` pixels high;
    /// `descent` is the font's descent in pixels.
    pub fn new(glyphs: GlyphCache, line_height: u32, descent: i32) -> (r: Terminal)
        ensures
            r@.wf(),
            r@.row == 0,
            r@.col == 0,
            r@.glyphs == glyphs@,
            r@.descent == descent,
            r@.layout == Layout::centered_spec(
                N_ROWS,
                N_COLS,
                glyph_of(glyphs@, WIDTH_CHAR).metrics.advance,
                line_height,
            ),
    {
        let char_width: u32 = match glyphs.lookup(WIDTH_CHAR) {
            Some(glyph) => glyph.metrics().advance,
            None => 0,
        };
        let layout = Layout::centered(N_ROWS, N_COLS, char_width, line_height);
        Terminal { row: 0, col: 0, layout, descent, glyphs }
    }

    /// The cursor's cell: row and column, counted from 0.
    pub fn position(&self) -> (r: (u32, u32))
        ensures
            self@.wf(),
            r.0 == self@.row,
            r.1 == self@.col,
    {
        proof {
            use_type_invariant(self);
        }
        (self.row, self.col)
    }

    /// The layout of the grid.
    pub fn layout(&self) -> (r: Layout)
        ensures
            self@.wf(),
            r == self@.layout,
    {
        proof {
            use_type_invariant(self);
        }
        self.layout
    }

    /// The font's descent, in pixels.
    pub fn descent(&self) -> (r: i32)
        ensures
            r == self@.descent,
    {
        self.descent
    }

    /// The glyph of `c`, or `None` where `c` is not a supported character.
    pub fn glyph(&self, c: char) -> (r: Option<&Glyph>)
        ensures
            r is Some <==> supported(c),
            r matches Some(g) ==> g@ == glyph_of(self@.glyphs, c) && g@.wf(),
    {
        self.glyphs.lookup(c)
    }

    /// The top-left corner of the cursor's cell, in pixels.
    pub fn cursor(&self) -> (r: (i64, i64))
        ensures
            self@.wf(),
            r.0 == self@.cursor_x(),
            r.1 == self@.cursor_y(),
    {
        proof {
            use_type_invariant(self);
            lemma_span_bound(self.col as int, self.layout.char_width as int);
            lemma_span_bound(self.row as int, self.layout.line_height as int);
        }
        let x: u64 = span(self.col, self.layout.char_width) + self.layout.left_padding as u64;
        let y: u64 = span(self.row, self.layout.line_height) + self.layout.top_padding as u64;
        (x as i64, y as i64)
    }

    /// Moves the cursor to the start of the next row; after the last row it
    /// goes back to the first. Nothing is cleared.
    pub fn new_line(&mut self)
        ensures
            old(self)@.wf(),
            final(self)@ == old(self)@.new_line(),
    {
        proof {
            use_type_invariant(&*self);
        }
        let next: u32 = if self.row + 1 >= self.layout.n_rows {
            0
        } else {
            self.row + 1
        };
        self.col = 0;
        self.row = next;
    }

    /// Erases the character before the cursor: the cursor goes one cell
    /// back, and the result asks to clear that cell. At the start of a row
    /// nothing happens.
    pub fn backspace(&mut self) -> (r: Action)
        ensures
            old(self)@.wf(),
            (final(self)@, r) == old(self)@.backspace(),
    {
        proof {
            use_type_invariant(&*self);
        }
        if self.col > 0 {
            self.col = self.col - 1;
            let (x, y) = self.cursor();
            Action::Clear { x, y, width: self.layout.char_width, height: self.layout.line_height }
        } else {
            Action::Nothing
        }
    }

    /// Prints `c` at the cursor. The delete character erases like a
    /// backspace. A supported character is to be drawn in the cursor's cell,
    /// and the cursor goes one cell on, onto a new line past the end of the
    /// row. Any other character is passed over: the cursor stays.
    pub fn print(&mut self, c: char) -> (r: Action)
        ensures
            old(self)@.wf(),
            (final(self)@, r) == old(self)@.print(c),
    {
        proof {
            use_type_invariant(&*self);
            self@.lemma_cursor_bounds();
        }
        if c as u32 == DELETE as u32 {
            return self.backspace();
        }
        if self.glyphs.lookup(c).is_none() {
            return Action::Unprintable { c };
        }
        let (x, top) = self.cursor();
        let y: i64 = top + self.descent as i64;
        if self.col + 1 >= self.layout.n_cols {
            self.new_line();
        } else {
            self.col = self.col + 1;
        }
        Action::Draw { c, x, y }
    }

    /// Handles a control byte: backspace erases, the four bytes from line
    /// feed to carriage return each start a new line, and any other byte is
    /// passed over.
    pub fn execute(&mut self, byte: u8) -> (r: Action)
        ensures
            old(self)@.wf(),
            (final(self)@, r) == old(self)@.execute(byte),
    {
        proof {
            use_type_invariant(&*self);
        }
        if byte == BACKSPACE {
            self.backspace()
        } else if FIRST_LINE_BREAK <= byte && byte <= LAST_LINE_BREAK {
            self.new_line();
            Action::Nothing
        } else {
            Action::Unsupported { byte }
        }
    }

    /// Renders what `action` asks for: the glyph of a `Draw`, with `noise`
    /// holding one value per position of its bitmap, or the cell of a
    /// `Clear`. The other actions give nothing to render.
    pub fn render(&self, action: Action, noise: &[i32]) -> (r: Option<Drawing>)
        ensures
            self@.wf(),
            rendered(self@, action, noise@, r),
    {
        proof {
            use_type_invariant(self);
        }
        match action {
            Action::Draw { c, x, y } => {
                match self.glyphs.lookup(c) {
                    Some(glyph) => draw_glyph(x, y, self.layout.line_height, glyph, noise),
                    None => None,
                }
            },
            Action::Clear { x, y, width, height } => clear(x, y, width, height),
            _ => None,
        }
    }
}

/// `r` is what rendering `action` gives on the terminal `t` with the given
/// noise.
pub open spec fn rendered(t: TerminalView, action: Action, noise: Seq<i32>, r: Option<Drawing>) -> bool {
    match action {
        Action::Draw { c, x, y } => if supported(c) {
            drawn(x as int, y as int, t.layout.line_height as int, glyph_of(t.glyphs, c), noise, r)
        } else {
            r is None
        },
        Action::Clear { x, y, width, height } => cleared(x as int, y as int, width, height, r),
        _ => r is None,
    }
}

} // verus!
