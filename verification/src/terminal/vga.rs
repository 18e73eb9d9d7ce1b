use vstd::prelude::*;
use volatile::Volatile;
use crate::module::{Module, zeros, echo, fill_zero, copy_prefix};

verus! {

/// Height of the text buffer, in rows.
pub const BUF_H: usize = 25;
/// Width of the text buffer, in columns.
pub const BUF_W: usize = 80;
/// Number of cells of the text buffer.
pub const BUF_CELLS: usize = 2000;
/// Index of the first cell of the last row.
pub const LAST_ROW: usize = 1920;
/// Distance between two tab stops.
pub const TAB_WIDTH: usize = 8;

/// The messages the frame buffer understands.
#[derive(Debug, Clone, Copy, PartialEq, Eq)]
pub enum Op {
    PutS,
    PutC,
    SetColor,
    Clear,
}

/// Message code: write the payload.
pub const PUTS: u32 = 0;
/// Message code: write the single byte of the payload.
pub const PUTC: u32 = 1;
/// Message code: the single byte of the payload becomes the attribute.
pub const SETCOLOR: u32 = 2;
/// Message code: blank the whole screen.
pub const CLEAR: u32 = 3;

impl Op {
    /// The message code of the operation.
    pub fn code(self) -> (c: u32)
        ensures
            c == match self {
                Op::PutS => PUTS,
                Op::PutC => PUTC,
                Op::SetColor => SETCOLOR,
                Op::Clear => CLEAR,
            },
    {
        match self {
            Op::PutS => PUTS,
            Op::PutC => PUTC,
            Op::SetColor => SETCOLOR,
            Op::Clear => CLEAR,
        }
    }
}

/// The sixteen colours of VGA text mode.
#[derive(Debug, Clone, Copy, PartialEq, Eq)]
pub enum Color {
    Black,
    Blue,
    Green,
    Cyan,
    Red,
    Magenta,
    Brown,
    LightGray,
    DarkGray,
    LightBlue,
    LightGreen,
    LightCyan,
    LightRed,
    Pink,
    Yellow,
    White,
}

impl Color {
    /// The 4-bit value of the colour in a VGA attribute byte.
    pub open spec fn spec_value(self) -> u8 {
        match self {
            Color::Black => 0,
            Color::Blue => 1,
            Color::Green => 2,
            Color::Cyan => 3,
            Color::Red => 4,
            Color::Magenta => 5,
            Color::Brown => 6,
            Color::LightGray => 7,
            Color::DarkGray => 8,
            Color::LightBlue => 9,
            Color::LightGreen => 10,
            Color::LightCyan => 11,
            Color::LightRed => 12,
            Color::Pink => 13,
            Color::Yellow => 14,
            Color::White => 15,
        }
    }

    /// The 4-bit value of the colour in a VGA attribute byte.
    #[verifier::when_used_as_spec(spec_value)]
    pub fn value(self) -> (v: u8)
        ensures
            v == self.spec_value(),
            v < 16,
    {
        match self {
            Color::Black => 0,
            Color::Blue => 1,
            Color::Green => 2,
            Color::Cyan => 3,
            Color::Red => 4,
            Color::Magenta => 5,
            Color::Brown => 6,
            Color::LightGray => 7,
            Color::DarkGray => 8,
            Color::LightBlue => 9,
            Color::LightGreen => 10,
            Color::LightCyan => 11,
            Color::LightRed => 12,
            Color::Pink => 13,
            Color::Yellow => 14,
            Color::White => 15,
        }
    }
}

/// A VGA attribute byte: background colour in the high nibble, foreground
/// colour in the low nibble.
#[derive(Debug, Clone, Copy)]
pub struct ColorCode(u8);

/// The attribute byte that `ColorCode::new(fg, bg)` builds.
pub open spec fn color_code_value(fg: Color, bg: Color) -> u8 {
    (bg.spec_value() * 16 + fg.spec_value()) as u8
}

impl ColorCode {
    /// The attribute byte.
    pub closed spec fn spec_byte(&self) -> u8 {
        self.0
    }

    /// Packs a foreground and a background colour into an attribute byte.
    pub fn new(fg: Color, bg: Color) -> (c: ColorCode)
        ensures
            c.spec_byte() == color_code_value(fg, bg),
    {
        let f = fg.value();
        let b = bg.value();
        assert(((b << 4u8) | f) == b * 16 + f) by (bit_vector)
            requires
                b < 16,
                f < 16,
        ;
        ColorCode((b << 4u8) | f)
    }

    /// The attribute byte.
    #[verifier::when_used_as_spec(spec_byte)]
    pub fn byte(&self) -> (b: u8)
        ensures
            b == self.spec_byte(),
    {
        self.0
    }
}

/// The foreground colour of an attribute byte is its low nibble, the
/// background colour its high nibble.
pub proof fn lemma_color_code_fields(fg: Color, bg: Color)
    ensures
        color_code_value(fg, bg) & 0xf == fg.spec_value(),
        color_code_value(fg, bg) >> 4u8 == bg.spec_value(),
{
    let f = fg.spec_value();
    let b = bg.spec_value();
    assert(f < 16 && b < 16);
    assert(((b * 16 + f) as u8) & 0xf == f && ((b * 16 + f) as u8) >> 4u8 == b) by (bit_vector)
        requires
            b < 16,
            f < 16,
    ;
}

/// One character cell of the text buffer: a character byte and its
/// attribute byte.
#[derive(Debug, Clone, Copy)]
pub struct Cell(u8, ColorCode);

impl Cell {
    /// The character byte and the attribute byte of the cell.
    pub closed spec fn spec_bytes(self) -> (u8, u8) {
        (self.0, self.1.0)
    }

    /// The character byte.
    pub fn ch(&self) -> (b: u8)
        ensures
            b == self.spec_bytes().0,
    {
        self.0
    }

    /// The attribute byte.
    pub fn attribute(&self) -> (b: u8)
        ensures
            b == self.spec_bytes().1,
    {
        self.1.0
    }
}

/// `volatile::Volatile`, a slot read and written with volatile accesses;
/// what a slot holds is known only through `volatile_cell`.
#[verifier::external_type_specification]
#[verifier::external_body]
#[verifier::reject_recursive_types(T)]
pub struct ExVolatile<T: Copy>(Volatile<T>);

/// The character and attribute bytes held by a volatile cell slot.
pub uninterp spec fn volatile_cell(v: Volatile<Cell>) -> (u8, u8);

/// Calls `Volatile::new`; trusted, not proved: the new slot holds the given
/// cell.
#[verifier::external_body]
fn new_slot(cell: Cell) -> (v: Volatile<Cell>)
    ensures
        volatile_cell(v) == cell.spec_bytes(),
{
    Volatile::new(cell)
}

/// Calls `Volatile::read`; trusted, not proved: it returns the cell that the
/// slot holds.
#[verifier::external_body]
fn read_slot(v: &Volatile<Cell>) -> (cell: Cell)
    ensures
        cell.spec_bytes() == volatile_cell(*v),
{
    v.read()
}

/// Calls `Volatile::write`; trusted, not proved: afterwards the slot holds
/// the given cell.
#[verifier::external_body]
fn write_slot(v: &mut Volatile<Cell>, cell: Cell)
    ensures
        volatile_cell(*final(v)) == cell.spec_bytes(),
{
    v.write(cell)
}

/// What the text buffer shows: the cells row by row, each as its character
/// and attribute bytes, the column where the next character goes, and the
/// attribute byte of new characters.
#[verifier::ext_equal]
pub struct Screen {
    pub cells: Seq<(u8, u8)>,
    pub column: int,
    pub color: u8,
}

/// A space in the given attribute.
pub open spec fn blank(color: u8) -> (u8, u8) {
    (0x20u8, color)
}

/// A row of spaces in the given attribute.
pub open spec fn blank_row(color: u8) -> Seq<(u8, u8)> {
    Seq::new(BUF_W as nat, |i: int| blank(color))
}

/// The first tab stop strictly after `column`.
pub open spec fn next_tab_stop(column: int) -> int {
    (column + TAB_WIDTH) - (column + TAB_WIDTH) % (TAB_WIDTH as int)
}

/// Line feed: every row moves up one, the top row is lost, the bottom row
/// becomes blank and the column returns to the start.
pub open spec fn newline_screen(s: Screen) -> Screen {
    Screen {
        cells: s.cells.subrange(BUF_W as int, BUF_CELLS as int) + blank_row(s.color),
        column: 0,
        color: s.color,
    }
}

/// Tab: the column moves to the next tab stop.
pub open spec fn tab_screen(s: Screen) -> Screen {
    Screen { cells: s.cells, column: next_tab_stop(s.column), color: s.color }
}

/// A printed character: past the right edge it starts a new line first,
/// then it lands in the bottom row at the column, which moves on by one.
pub open spec fn raw_screen(s: Screen, ch: u8) -> Screen {
    let t = if s.column >= BUF_W { newline_screen(s) } else { s };
    Screen {
        cells: t.cells.update(LAST_ROW + t.column, (ch, t.color)),
        column: t.column + 1,
        color: t.color,
    }
}

/// One byte written to the terminal: `\n` starts a new line, `\t` moves to
/// the next tab stop, every other byte is printed.
pub open spec fn putc_screen(s: Screen, ch: u8) -> Screen {
    if ch == 10 {
        newline_screen(s)
    } else if ch == 9 {
        tab_screen(s)
    } else {
        raw_screen(s, ch)
    }
}

/// The bytes of `text` written one after the other.
pub open spec fn puts_screen(s: Screen, text: Seq<u8>) -> Screen
    decreases text.len(),
{
    if text.len() == 0 {
        s
    } else {
        putc_screen(puts_screen(s, text.drop_last()), text.last())
    }
}

/// Every cell blank in the current attribute; column and attribute kept.
pub open spec fn clear_screen(s: Screen) -> Screen {
    Screen {
        cells: Seq::new(BUF_CELLS as nat, |i: int| blank(s.color)),
        column: s.column,
        color: s.color,
    }
}

/// Writing `ch` keeps the column within a machine word: a tab adds up to
/// eight to it.
pub open spec fn putc_fits(s: Screen, ch: u8) -> bool {
    ch == 9 ==> s.column + TAB_WIDTH <= usize::MAX
}

/// Writing `text` keeps the column within a machine word at every byte.
pub open spec fn puts_fits(s: Screen, text: Seq<u8>) -> bool
    decreases text.len(),
{
    text.len() == 0 || (puts_fits(s, text.drop_last()) && putc_fits(
        puts_screen(s, text.drop_last()),
        text.last(),
    ))
}

/// A prefix of a text that fits fits too, and the byte after it fits on the
/// screen the prefix leaves.
pub proof fn lemma_puts_fits_prefix(s: Screen, text: Seq<u8>, k: int)
    requires
        puts_fits(s, text),
        0 <= k < text.len(),
    ensures
        puts_fits(s, text.take(k)),
        putc_fits(puts_screen(s, text.take(k)), text[k]),
    decreases text.len(),
{
    if k == text.len() - 1 {
        assert(text.take(k) =~= text.drop_last());
    } else {
        assert(text.drop_last().take(k) =~= text.take(k));
        lemma_puts_fits_prefix(s, text.drop_last(), k);
    }
}

/// A text without tab bytes fits on every screen.
pub proof fn lemma_puts_fits_no_tab(s: Screen, text: Seq<u8>)
    requires
        forall|i: int| 0 <= i < text.len() ==> text[i] != 9,
    ensures
        puts_fits(s, text),
    decreases text.len(),
{
    if text.len() > 0 {
        lemma_puts_fits_no_tab(s, text.drop_last());
    }
}

/// Writing a text in two pieces shows the same as writing it at once, and
/// writing nothing changes nothing.
pub proof fn lemma_puts_append(s: Screen, a: Seq<u8>, b: Seq<u8>)
    ensures
        puts_screen(s, a + b) == puts_screen(puts_screen(s, a), b),
        puts_screen(s, Seq::empty()) == s,
    decreases b.len(),
{
    if b.len() == 0 {
        assert(a + b =~= a);
    } else {
        assert((a + b).drop_last() =~= a + b.drop_last());
        lemma_puts_append(s, a, b.drop_last());
    }
}

/// Every write keeps the screen at 25 rows of 80 cells.
pub proof fn lemma_puts_keeps_size(s: Screen, text: Seq<u8>)
    requires
        s.cells.len() == BUF_CELLS,
        0 <= s.column,
    ensures
        puts_screen(s, text).cells.len() == BUF_CELLS,
        0 <= puts_screen(s, text).column,
    decreases text.len(),
{
    if text.len() > 0 {
        lemma_puts_keeps_size(s, text.drop_last());
        let t = puts_screen(s, text.drop_last());
        if text.last() != 10 && text.last() != 9 && t.column < BUF_W {
            assert(LAST_ROW + t.column < BUF_CELLS);
        }
    }
}

/// A line feed moves every row up by one: each cell of the first 24 rows
/// shows what the cell one row below showed, the bottom row is blank, and
/// the column returns to the start.
pub proof fn lemma_newline_scrolls(s: Screen)
    requires
        s.cells.len() == BUF_CELLS,
    ensures
        putc_screen(s, 10).cells.len() == BUF_CELLS,
        forall|i: int| 0 <= i < LAST_ROW ==> #[trigger] putc_screen(s, 10).cells[i] == s.cells[i + BUF_W],
        forall|i: int| LAST_ROW <= i < BUF_CELLS ==> #[trigger] putc_screen(s, 10).cells[i] == (0x20u8, s.color),
        putc_screen(s, 10).column == 0,
        putc_screen(s, 10).color == s.color,
{
}

/// A tab moves the column forward by one to eight places, onto a multiple
/// of eight, and changes no cell.
pub proof fn lemma_tab_stop(s: Screen)
    requires
        0 <= s.column,
    ensures
        putc_screen(s, 9).column % 8 == 0,
        s.column < putc_screen(s, 9).column <= s.column + 8,
        putc_screen(s, 9).cells == s.cells,
        putc_screen(s, 9).color == s.color,
{
}

/// A printed byte shows in the bottom row: at the column when it is on the
/// screen, otherwise at the start of a fresh line; the column then moves on
/// by one.
pub proof fn lemma_printed_byte_shows(s: Screen, ch: u8)
    requires
        s.cells.len() == BUF_CELLS,
        0 <= s.column,
        ch != 10,
        ch != 9,
    ensures
        s.column < BUF_W ==> putc_screen(s, ch).cells == s.cells.update(LAST_ROW + s.column, (ch, s.color)),
        s.column < BUF_W ==> putc_screen(s, ch).column == s.column + 1,
        s.column >= BUF_W ==> putc_screen(s, ch).cells[LAST_ROW as int] == (ch, s.color),
        s.column >= BUF_W ==> putc_screen(s, ch).column == 1,
        putc_screen(s, ch).color == s.color,
{
}

/// The screen of a frame buffer with the given cells, column and attribute.
pub open spec fn screen_of(slots: Seq<Volatile<Cell>>, column: usize, color: u8) -> Screen {
    Screen { cells: slots.map_values(|v: Volatile<Cell>| volatile_cell(v)), column: column as int, color }
}

/// A VGA text-mode frame buffer: 25 rows of 80 cells; characters are
/// written into the bottom row, which scrolls up on a new line.
pub struct FrameBuffer {
    fb: Vec<Volatile<Cell>>,
    column: usize,
    color: ColorCode,
}

impl View for FrameBuffer {
    type V = Screen;

    closed spec fn view(&self) -> Screen {
        screen_of(self.fb@, self.column, self.color.0)
    }
}

impl FrameBuffer {
    /// The buffer holds exactly its 25 rows of 80 cells.
    pub closed spec fn wf(&self) -> bool {
        self.fb@.len() == BUF_CELLS
    }

    /// A frame buffer writing light grey on black, with the column at the
    /// start of the bottom row. What its 25 rows of 80 cells show at first
    /// is what the memory behind the buffer holds, and is not promised.
    pub fn new() -> (f: FrameBuffer)
        ensures
            f.wf(),
            f@.cells.len() == BUF_CELLS,
            f@.column == 0,
            f@.color == color_code_value(Color::LightGray, Color::Black),
    {
        let color = ColorCode::new(Color::LightGray, Color::Black);
        let mut fb: Vec<Volatile<Cell>> = Vec::new();
        let mut i: usize = 0;
        while i < BUF_CELLS
            invariant
                i <= BUF_CELLS,
                fb@.len() == i,
                forall|j: int| 0 <= j < i ==> volatile_cell(#[trigger] fb@[j]) == blank(color.0),
            decreases BUF_CELLS - i,
        {
            fb.push(new_slot(Cell(0x20u8, color)));
            i = i + 1;
        }
        FrameBuffer { fb, column: 0, color }
    }

    /// The cell at `row` and `col`.
    pub fn cell(&self, row: usize, col: usize) -> (c: Cell)
        requires
            self.wf(),
            row < BUF_H,
            col < BUF_W,
        ensures
            c.spec_bytes() == self@.cells[row * BUF_W + col],
    {
        read_slot(&self.fb[row * BUF_W + col])
    }

    /// The column where the next character goes.
    pub fn column(&self) -> (c: usize)
        ensures
            c == self@.column,
    {
        self.column
    }

    /// The attribute of new characters.
    pub fn color(&self) -> (c: ColorCode)
        ensures
            c.spec_byte() == self@.color,
    {
        self.color
    }

    /// A space in the current attribute.
    fn empty(&self) -> (c: Cell)
        ensures
            c.spec_bytes() == blank(self@.color),
    {
        Cell(0x20u8, self.color)
    }

    /// The character `ch` in the current attribute.
    fn make_cell(&self, ch: u8) -> (c: Cell)
        ensures
            c.spec_bytes() == (ch, self@.color),
    {
        Cell(ch, self.color)
    }

    /// Writes `cell` into slot `i`, leaving every other slot as it was.
    fn put_cell(&mut self, i: usize, cell: Cell)
        requires
            old(self).wf(),
            i < BUF_CELLS,
        ensures
            final(self).wf(),
            final(self)@ == (Screen {
                cells: old(self)@.cells.update(i as int, cell.spec_bytes()),
                column: old(self)@.column,
                color: old(self)@.color,
            }),
    {
        write_slot(&mut self.fb[i], cell);
        assert(self@.cells =~= old(self)@.cells.update(i as int, cell.spec_bytes()));
    }

    /// Makes the bottom row blank in the current attribute.
    fn clear_row(&mut self)
        requires
            old(self).wf(),
        ensures
            final(self).wf(),
            final(self)@ == (Screen {
                cells: old(self)@.cells.subrange(0, LAST_ROW as int) + blank_row(old(self)@.color),
                column: old(self)@.column,
                color: old(self)@.color,
            }),
    {
        let empty = self.empty();
        let mut col: usize = 0;
        while col < BUF_W
            invariant
                self.wf(),
                col <= BUF_W,
                self@.column == old(self)@.column,
                self@.color == old(self)@.color,
                empty.spec_bytes() == blank(old(self)@.color),
                forall|j: int| 0 <= j < LAST_ROW ==> self@.cells[j] == old(self)@.cells[j],
                forall|j: int| LAST_ROW <= j < LAST_ROW + col ==> self@.cells[j] == blank(old(self)@.color),
            decreases BUF_W - col,
        {
            self.put_cell(LAST_ROW + col, empty);
            col = col + 1;
        }
        assert(self@.cells =~= old(self)@.cells.subrange(0, LAST_ROW as int) + blank_row(old(self)@.color));
    }

    /// Starts a new line: rows move up by one, the bottom row is cleared and
    /// the column returns to the start.
    fn newline(&mut self)
        requires
            old(self).wf(),
        ensures
            final(self).wf(),
            final(self)@ == newline_screen(old(self)@),
    {
        let mut i: usize = BUF_W;
        while i < BUF_CELLS
            invariant
                self.wf(),
                BUF_W <= i <= BUF_CELLS,
                self@.column == old(self)@.column,
                self@.color == old(self)@.color,
                forall|j: int| 0 <= j < i - BUF_W ==> self@.cells[j] == old(self)@.cells[j + BUF_W],
                forall|j: int| i - BUF_W <= j < BUF_CELLS ==> self@.cells[j] == old(self)@.cells[j],
            decreases BUF_CELLS - i,
        {
            let cell = read_slot(&self.fb[i]);
            self.put_cell(i - BUF_W, cell);
            i = i + 1;
        }
        self.clear_row();
        self.column = 0;
        assert(self@.cells =~= newline_screen(old(self)@).cells);
    }

    /// Moves the column to the next tab stop.
    fn tab(&mut self)
        requires
            old(self).wf(),
            old(self)@.column + TAB_WIDTH <= usize::MAX,
        ensures
            final(self).wf(),
            final(self)@ == tab_screen(old(self)@),
    {
        let p = self.column + TAB_WIDTH;
        self.column = p - (p % TAB_WIDTH);
    }

    /// Prints `ch` at the column of the bottom row, starting a new line
    /// first when the column is past the right edge.
    fn putc_raw(&mut self, ch: u8)
        requires
            old(self).wf(),
        ensures
            final(self).wf(),
            final(self)@ == raw_screen(old(self)@, ch),
    {
        if self.column >= BUF_W {
            self.newline();
        }
        let cell = self.make_cell(ch);
        let column = self.column;
        self.put_cell(LAST_ROW + column, cell);
        self.column = self.column + 1;
    }

    /// Writes one byte: new line, tab or printed character.
    fn putc(&mut self, ch: u8)
        requires
            old(self).wf(),
            putc_fits(old(self)@, ch),
        ensures
            final(self).wf(),
            final(self)@ == putc_screen(old(self)@, ch),
    {
        if ch == 10u8 {
            self.newline()
        } else if ch == 9u8 {
            self.tab()
        } else {
            self.putc_raw(ch)
        }
    }

    /// Writes the bytes of `s` one after the other.
    pub fn puts(&mut self, s: &[u8])
        requires
            old(self).wf(),
            puts_fits(old(self)@, s@),
        ensures
            final(self).wf(),
            final(self)@ == puts_screen(old(self)@, s@),
    {
        let mut i: usize = 0;
        while i < s.len()
            invariant
                self.wf(),
                i <= s@.len(),
                puts_fits(old(self)@, s@),
                self@ == puts_screen(old(self)@, s@.take(i as int)),
            decreases s@.len() - i,
        {
            proof {
                lemma_puts_fits_prefix(old(self)@, s@, i as int);
                assert(s@.take(i + 1).drop_last() =~= s@.take(i as int));
            }
            self.putc(s[i]);
            i = i + 1;
        }
        assert(s@.take(i as int) =~= s@);
    }

    /// Makes every cell blank in the current attribute.
    fn clear(&mut self)
        requires
            old(self).wf(),
        ensures
            final(self).wf(),
            final(self)@ == clear_screen(old(self)@),
    {
        let empty = self.empty();
        let mut i: usize = 0;
        while i < BUF_CELLS
            invariant
                self.wf(),
                i <= BUF_CELLS,
                self@.column == old(self)@.column,
                self@.color == old(self)@.color,
                empty.spec_bytes() == blank(old(self)@.color),
                forall|j: int| 0 <= j < i ==> self@.cells[j] == blank(old(self)@.color),
            decreases BUF_CELLS - i,
        {
            self.put_cell(i, empty);
            i = i + 1;
        }
        assert(self@.cells =~= clear_screen(old(self)@).cells);
    }
}

/// What the frame buffer does with message `op`: the screen afterwards,
/// the reply in the buffer `out`, and the status code (0 done, 1 payload of
/// the wrong length, 3 unknown message).
pub open spec fn vga_message(s: Screen, op: u32, data: Seq<u8>, out: Seq<u8>) -> (Screen, Seq<u8>, u32) {
    if op == PUTS {
        (puts_screen(s, data), echo(out, data), 0)
    } else if op == SETCOLOR {
        if data.len() != 1 {
            (s, zeros(out.len()), 1)
        } else {
            (Screen { cells: s.cells, column: s.column, color: data[0] }, zeros(out.len()), 0)
        }
    } else if op == PUTC {
        if data.len() != 1 {
            (s, zeros(out.len()), 1)
        } else {
            (putc_screen(s, data[0]), zeros(out.len()).update(0, data[0]), 0)
        }
    } else if op == CLEAR {
        (clear_screen(s), zeros(out.len()), 0)
    } else {
        (s, out, 3)
    }
}

/// The messages on which the frame buffer does not fail: a character
/// echoed by `PUTC` needs a reply buffer of at least one byte, and the
/// column must stay within a machine word.
pub open spec fn vga_accepts(s: Screen, op: u32, data: Seq<u8>, out_len: nat) -> bool {
    &&& (op == PUTS ==> puts_fits(s, data))
    &&& (op == PUTC && data.len() == 1 ==> out_len >= 1 && putc_fits(s, data[0]))
}

/// Past the right edge a printed byte starts a fresh line: it shows the
/// same as a line feed followed by the byte. Every row moves up by one, the
/// byte lands at the start of the bottom row, the rest of that row is
/// spaces in the current attribute, and the column is 1.
pub proof fn lemma_wrap_starts_fresh_line(s: Screen, ch: u8)
    requires
        s.cells.len() == BUF_CELLS,
        s.column >= BUF_W,
        ch != 9,
        ch != 10,
    ensures
        putc_screen(s, ch) == putc_screen(putc_screen(s, 10), ch),
        putc_screen(s, ch).cells.len() == BUF_CELLS,
        forall|i: int| 0 <= i < LAST_ROW ==> #[trigger] putc_screen(s, ch).cells[i] == s.cells[i + BUF_W],
        putc_screen(s, ch).cells[LAST_ROW as int] == (ch, s.color),
        forall|i: int| LAST_ROW + 1 <= i < BUF_CELLS ==> #[trigger] putc_screen(s, ch).cells[i] == (0x20u8, s.color),
        putc_screen(s, ch).column == 1,
        putc_screen(s, ch).color == s.color,
{
    assert(putc_screen(s, ch).cells =~= putc_screen(putc_screen(s, 10), ch).cells);
}

/// Writing a single byte shows what writing that byte shows.
pub proof fn lemma_puts_one_byte(s: Screen, c: u8)
    ensures
        puts_screen(s, seq![c]) == putc_screen(s, c),
{
    assert(seq![c].drop_last() =~= Seq::<u8>::empty());
    assert(puts_screen(s, Seq::<u8>::empty()) == s);
}

/// `PUTS`: the payload is written byte by byte, the reply buffer gets the
/// payload over its first bytes and keeps the rest, and the status is 0.
pub proof fn lemma_vga_puts(s: Screen, data: Seq<u8>, out: Seq<u8>)
    ensures
        vga_message(s, PUTS, data, out).0 == puts_screen(s, data),
        vga_message(s, PUTS, data, out).1.len() == out.len(),
        forall|i: int| 0 <= i < out.len() && i < data.len() ==> #[trigger] vga_message(s, PUTS, data, out).1[i] == data[i],
        forall|i: int| data.len() <= i < out.len() ==> #[trigger] vga_message(s, PUTS, data, out).1[i] == out[i],
        vga_message(s, PUTS, data, out).2 == 0,
{
}

/// `PUTC` with one byte shows what `PUTS` of that byte shows, which is what
/// writing the byte shows: a line feed scrolls, a tab moves to the next
/// stop, any other byte is printed. The reply is the byte followed by
/// zeros, and the status is 0. A payload of another length changes nothing
/// on the screen, zeroes the reply and gives status 1.
pub proof fn lemma_vga_putc(s: Screen, c: u8, out: Seq<u8>)
    requires
        s.cells.len() == BUF_CELLS,
        0 <= s.column,
        out.len() >= 1,
    ensures
        vga_message(s, PUTC, seq![c], out).0 == vga_message(s, PUTS, seq![c], out).0,
        vga_message(s, PUTC, seq![c], out).0 == putc_screen(s, c),
        vga_message(s, PUTC, seq![c], out).1 == seq![c] + Seq::new((out.len() - 1) as nat, |i: int| 0u8),
        vga_message(s, PUTC, seq![c], out).2 == 0,
        c == 10 ==> {
            let t = vga_message(s, PUTC, seq![c], out).0;
            &&& forall|i: int| 0 <= i < LAST_ROW ==> #[trigger] t.cells[i] == s.cells[i + BUF_W]
            &&& forall|i: int| LAST_ROW <= i < BUF_CELLS ==> #[trigger] t.cells[i] == (0x20u8, s.color)
            &&& t.column == 0
        },
        c == 9 ==> {
            let t = vga_message(s, PUTC, seq![c], out).0;
            &&& t.cells == s.cells
            &&& t.column % 8 == 0
            &&& s.column < t.column <= s.column + 8
        },
        forall|d: Seq<u8>| d.len() != 1 ==> #[trigger] vga_message(s, PUTC, d, out) == (s, Seq::new(out.len(), |i: int| 0u8), 1u32),
{
    lemma_puts_one_byte(s, c);
    assert(vga_message(s, PUTC, seq![c], out).1 =~= seq![c] + Seq::new((out.len() - 1) as nat, |i: int| 0u8));
    assert forall|d: Seq<u8>| d.len() != 1 implies #[trigger] vga_message(s, PUTC, d, out) == (s, Seq::new(out.len(), |i: int| 0u8), 1u32) by {
        assert(zeros(out.len()) =~= Seq::new(out.len(), |i: int| 0u8));
    }
}

/// `SETCOLOR` with one byte makes it the attribute of new characters and
/// changes no cell and not the column; the reply is zeros and the status
/// 0. A payload of another length changes nothing and gives status 1.
pub proof fn lemma_vga_setcolor(s: Screen, b: u8, out: Seq<u8>)
    ensures
        vga_message(s, SETCOLOR, seq![b], out).0 == (Screen { cells: s.cells, column: s.column, color: b }),
        vga_message(s, SETCOLOR, seq![b], out).1 == Seq::new(out.len(), |i: int| 0u8),
        vga_message(s, SETCOLOR, seq![b], out).2 == 0,
        forall|d: Seq<u8>| d.len() != 1 ==> (#[trigger] vga_message(s, SETCOLOR, d, out)).0 == s,
        forall|d: Seq<u8>| d.len() != 1 ==> (#[trigger] vga_message(s, SETCOLOR, d, out)).2 == 1,
{
    assert(zeros(out.len()) =~= Seq::new(out.len(), |i: int| 0u8));
}

/// `CLEAR` makes every cell a space in the current attribute, keeps the
/// column and the attribute, zeroes the reply and gives status 0.
pub proof fn lemma_vga_clear(s: Screen, data: Seq<u8>, out: Seq<u8>)
    ensures
        vga_message(s, CLEAR, data, out).0.cells.len() == BUF_CELLS,
        forall|i: int| 0 <= i < BUF_CELLS ==> #[trigger] vga_message(s, CLEAR, data, out).0.cells[i] == (0x20u8, s.color),
        vga_message(s, CLEAR, data, out).0.column == s.column,
        vga_message(s, CLEAR, data, out).0.color == s.color,
        vga_message(s, CLEAR, data, out).1 == Seq::new(out.len(), |i: int| 0u8),
        vga_message(s, CLEAR, data, out).2 == 0,
{
    assert(zeros(out.len()) =~= Seq::new(out.len(), |i: int| 0u8));
}

/// Any other message changes nothing, leaves the reply buffer alone and
/// gives status 3.
pub proof fn lemma_vga_unknown(s: Screen, op: u32, data: Seq<u8>, out: Seq<u8>)
    requires
        op > CLEAR,
    ensures
        vga_message(s, op, data, out) == (s, out, 3u32),
{
}

impl Module for FrameBuffer {
    open spec fn accepts(&self, op: u32, data: Seq<u8>, out_len: nat) -> bool {
        self.wf() && vga_accepts(self@, op, data, out_len)
    }

    fn receive_message(&mut self, op: u32, data: &[u8], output: &mut [u8]) -> (status: u32)
        ensures
            final(self).wf(),
            (final(self)@, final(output)@, status) == vga_message(old(self)@, op, data@, old(output)@),
    {
        if op == PUTS {
            self.puts(data);
            copy_prefix(output, data);
            0
        } else if op == SETCOLOR {
            fill_zero(output);
            if data.len() != 1 {
                return 1;
            }
            self.color = ColorCode(data[0]);
            0
        } else if op == PUTC {
            fill_zero(output);
            if data.len() != 1 {
                return 1;
            }
            output[0] = data[0];
            self.putc(data[0]);
            0
        } else if op == CLEAR {
            fill_zero(output);
            self.clear();
            0
        } else {
            3
        }
    }
}

} // verus!
