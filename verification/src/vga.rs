//! The display core: device-format cells, the oversized scroll buffer, and
//! the display engine that owns one buffer, one cursor position and one
//! simulated device window.

use vstd::prelude::*;

verus! {

use vstd::pervasive::VecAdditionalExecFns;

/// Number of columns of the physical character grid.
pub const VGA_WIDTH: u8 = 80;

/// Number of rows of the physical character grid.
pub const VGA_HEIGHT: u8 = 25;

/// Number of cells of the physical grid: `VGA_WIDTH * VGA_HEIGHT`.
pub const VGA_BUFFER_SIZE: u16 = 2000;

/// Number of logical rows the scroll buffer keeps; at least `VGA_HEIGHT`.
pub const MAX_BUFFERED_LINES: u8 = 100;

/// Number of cells of the scroll buffer: `VGA_WIDTH * MAX_BUFFERED_LINES`.
pub const BUFFER_CAPACITY: usize = 8000;

/// Largest window offset: `MAX_BUFFERED_LINES - VGA_HEIGHT`.
pub const MAX_LINE_OFFSET: u8 = 75;

/// Character code reserved as the explicit line terminator, distinct from
/// the empty cell (code 0) and from every printable code.
pub const NEWLINE: u8 = 255;

/// The 16 colors of the text-mode palette.
#[derive(Clone, Copy, Debug)]
pub enum Color {
    Black,
    Blue,
    Green,
    Cyan,
    Red,
    Magenta,
    Brown,
    LightGrey,
    DarkGrey,
    LightBlue,
    LightGreen,
    LightCyan,
    LightRed,
    LightMagenta,
    LightBrown,
    White,
}

impl Color {
    /// The 4-bit palette code of the color.
    pub open spec fn spec_code(self) -> u8 {
        match self {
            Color::Black => 0,
            Color::Blue => 1,
            Color::Green => 2,
            Color::Cyan => 3,
            Color::Red => 4,
            Color::Magenta => 5,
            Color::Brown => 6,
            Color::LightGrey => 7,
            Color::DarkGrey => 8,
            Color::LightBlue => 9,
            Color::LightGreen => 10,
            Color::LightCyan => 11,
            Color::LightRed => 12,
            Color::LightMagenta => 13,
            Color::LightBrown => 14,
            Color::White => 15,
        }
    }

    /// The color as a foreground attribute: the low nibble of the attribute byte.
    pub fn to_foreground(self) -> (code: u8)
        ensures
            code == self.spec_code(),
            code < 16,
    {
        match self {
            Color::Black => 0,
            Color::Blue => 1,
            Color::Green => 2,
            Color::Cyan => 3,
            Color::Red => 4,
            Color::Magenta => 5,
            Color::Brown => 6,
            Color::LightGrey => 7,
            Color::DarkGrey => 8,
            Color::LightBlue => 9,
            Color::LightGreen => 10,
            Color::LightCyan => 11,
            Color::LightRed => 12,
            Color::LightMagenta => 13,
            Color::LightBrown => 14,
            Color::White => 15,
        }
    }

    /// The color as a background attribute: the high nibble of the attribute byte.
    pub fn to_background(self) -> (code: u8)
        ensures
            code == self.spec_code() * 16,
    {
        let fg = self.to_foreground();
        fg * 16
    }
}

/// A cursor movement direction, as delivered by the arrow keys.
#[derive(Clone, Copy, Debug, PartialEq, Eq)]
pub enum Direction {
    Up,
    Down,
    Left,
    Right,
}

/// Error of the lowest-level single-cell write: the targeted cell lies
/// outside the visible grid. Every caller inside the engine discards it;
/// a clipped write is not a fault.
pub struct OutOfBoundsError;

/// The hardware cursor side channel. The CRTC location registers take the
/// linear offset `y * VGA_WIDTH + x`, split into a low and a high byte;
/// this type computes those register values, and a hardware backend writes
/// them out.
#[derive(Clone, Copy)]
pub struct Cursor {}

impl Cursor {
    /// The pair `(low, high)` of location-register values that place the
    /// hardware cursor at `(x, y)`, or `None` for an off-grid position,
    /// which the register channel ignores.
    pub fn location_bytes(&self, x: u16, y: u16) -> (r: Option<(u8, u8)>)
        ensures
            x < 80 && y < 25 ==> r == (Some(
                (((y * 80 + x) % 256) as u8, ((y * 80 + x) / 256) as u8),
            )),
            !(x < 80 && y < 25) ==> r is None,
    {
        if x >= 80 || y >= 25 {
            return None;
        }
        let pos: u16 = y * 80 + x;
        Some(((pos % 256) as u8, (pos / 256) as u8))
    }
}

/// Holds of a cell that the block scan treats as an explicit line
/// terminator: the whole cell equals the bare `NEWLINE` code, with a zero
/// attribute byte.
pub open spec fn is_sentinel(cell: u16) -> bool {
    cell == 255
}

/// Holds of a cell whose character code is 0, whatever its attribute.
pub open spec fn is_empty_cell(cell: u16) -> bool {
    cell % 256 == 0
}

/// Index of the first sentinel cell at or after `i`, if any.
pub open spec fn first_sentinel_from(buf: Seq<u16>, i: int) -> Option<int>
    decreases buf.len() - i,
{
    if i < 0 || i >= buf.len() {
        None
    } else if is_sentinel(buf[i]) {
        Some(i)
    } else {
        first_sentinel_from(buf, i + 1)
    }
}

/// Index of the first empty cell at or after `i`, if any.
pub open spec fn first_empty_from(buf: Seq<u16>, i: int) -> Option<int>
    decreases buf.len() - i,
{
    if i < 0 || i >= buf.len() {
        None
    } else if is_empty_cell(buf[i]) {
        Some(i)
    } else {
        first_empty_from(buf, i + 1)
    }
}

/// Length of the block of content that starts at `start`: the distance to
/// the first sentinel cell, or, when no sentinel follows at all, to the
/// first empty cell; when neither follows, the whole remainder.
pub open spec fn block_len(buf: Seq<u16>, start: int) -> int {
    match first_sentinel_from(buf, start) {
        Some(i) => i - start,
        None => match first_empty_from(buf, start) {
            Some(i) => i - start,
            None => buf.len() - start,
        },
    }
}

proof fn lemma_first_sentinel_found(buf: Seq<u16>, start: int, i: int)
    requires
        0 <= start <= i < buf.len(),
        is_sentinel(buf[i]),
        forall|k: int| start <= k < i ==> !is_sentinel(buf[k]),
    ensures
        first_sentinel_from(buf, start) == Some(i),
    decreases i - start,
{
    if start < i {
        lemma_first_sentinel_found(buf, start + 1, i);
    }
}

proof fn lemma_first_sentinel_none(buf: Seq<u16>, start: int)
    requires
        0 <= start,
        forall|k: int| start <= k < buf.len() ==> !is_sentinel(buf[k]),
    ensures
        first_sentinel_from(buf, start) is None,
    decreases buf.len() - start,
{
    if start < buf.len() {
        lemma_first_sentinel_none(buf, start + 1);
    }
}

proof fn lemma_first_empty_found(buf: Seq<u16>, start: int, i: int)
    requires
        0 <= start <= i < buf.len(),
        is_empty_cell(buf[i]),
        forall|k: int| start <= k < i ==> !is_empty_cell(buf[k]),
    ensures
        first_empty_from(buf, start) == Some(i),
    decreases i - start,
{
    if start < i {
        lemma_first_empty_found(buf, start + 1, i);
    }
}

proof fn lemma_first_empty_none(buf: Seq<u16>, start: int)
    requires
        0 <= start,
        forall|k: int| start <= k < buf.len() ==> !is_empty_cell(buf[k]),
    ensures
        first_empty_from(buf, start) is None,
    decreases buf.len() - start,
{
    if start < buf.len() {
        lemma_first_empty_none(buf, start + 1);
    }
}

/// A vector of `n` zeroed cells.
fn zero_cells(n: usize) -> (v: Vec<u16>)
    ensures
        v@ == Seq::new(n as nat, |i: int| 0u16),
{
    let mut v: Vec<u16> = Vec::new();
    let mut i: usize = 0;
    while i < n
        invariant
            i <= n,
            v@ == Seq::new(i as nat, |k: int| 0u16),
        decreases n - i,
    {
        v.push(0u16);
        i = i + 1;
        proof {
            assert(v@ =~= Seq::new(i as nat, |k: int| 0u16));
        }
    }
    v
}

/// The scroll buffer: `MAX_BUFFERED_LINES` logical rows of `VGA_WIDTH`
/// cells, storing everything the engine has produced; the engine maps a
/// `VGA_HEIGHT`-row window of it onto the device.
pub struct Buffer {
    buf: Vec<u16>,
}

impl View for Buffer {
    type V = Seq<u16>;

    closed spec fn view(&self) -> Seq<u16> {
        self.buf@
    }
}

impl Buffer {
    /// The buffer always holds exactly `BUFFER_CAPACITY` cells.
    pub open spec fn wf(&self) -> bool {
        self@.len() == 8000
    }

    /// A zeroed buffer of `VGA_WIDTH * MAX_BUFFERED_LINES` cells.
    pub fn new() -> (b: Buffer)
        ensures
            b.wf(),
            b@ == Seq::new(8000, |i: int| 0u16),
    {
        Buffer { buf: zero_cells(BUFFER_CAPACITY) }
    }

    /// Stores `entry` at `line_offset * VGA_WIDTH + rel_index`, wrapped
    /// modulo the capacity; by construction no index is ever out of bounds.
    pub fn write(&mut self, line_offset: u8, rel_index: u16, entry: u16)
        requires
            old(self).wf(),
        ensures
            final(self).wf(),
            final(self)@ == old(self)@.update(
                (line_offset as int * 80 + rel_index as int) % 8000,
                entry,
            ),
    {
        let abs_index: usize = (line_offset as usize * 80 + rel_index as usize) % 8000;
        self.buf.set(abs_index, entry);
    }

    /// The cell at flat position `pos`, when `pos` is within capacity.
    pub fn at(&self, pos: u16) -> (r: Option<u16>)
        ensures
            pos < self@.len() ==> r == Some(self@[pos as int]),
            pos >= self@.len() ==> r is None,
    {
        if (pos as usize) < self.buf.len() {
            Some(self.buf[pos as usize])
        } else {
            None
        }
    }

    /// The window of `VGA_BUFFER_SIZE` cells that starts at logical row
    /// `line_offset`: what a flush copies to the device.
    pub fn slice(&self, line_offset: u8) -> (s: &[u16])
        requires
            self.wf(),
            line_offset <= 75,
        ensures
            s@ == self@.subrange(line_offset as int * 80, line_offset as int * 80 + 2000),
    {
        let start: usize = line_offset as usize * 80;
        let end: usize = start + 2000;
        vstd::slice::slice_subrange(self.buf.as_slice(), start, end)
    }

    /// Distance from `(from_x, from_y)` to the first sentinel cell, or,
    /// when no sentinel follows anywhere in the buffer, to the first empty
    /// cell; when neither follows, the remaining capacity.
    pub fn block_length(&self, from_x: u8, from_y: u8) -> (n: u16)
        requires
            self.wf(),
            from_x < 80,
            from_y < 100,
        ensures
            n as int == block_len(self@, from_y as int * 80 + from_x as int),
            from_y as int * 80 + from_x as int + n as int <= 8000,
    {
        let start: usize = from_y as usize * 80 + from_x as usize;
        let ghost gstart = start as int;
        let mut i: usize = start;
        while i < BUFFER_CAPACITY
            invariant
                self.wf(),
                gstart == from_y as int * 80 + from_x as int,
                start == gstart,
                start <= i <= 8000,
                forall|k: int| gstart <= k < i ==> !is_sentinel(self@[k]),
            decreases 8000 - i,
        {
            if self.buf[i] == 255u16 {
                proof {
                    lemma_first_sentinel_found(self@, gstart, i as int);
                }
                return (i - start) as u16;
            }
            i = i + 1;
        }
        proof {
            lemma_first_sentinel_none(self@, gstart);
        }
        let mut j: usize = start;
        while j < BUFFER_CAPACITY
            invariant
                self.wf(),
                gstart == from_y as int * 80 + from_x as int,
                start == gstart,
                start <= j <= 8000,
                first_sentinel_from(self@, gstart) is None,
                forall|k: int| gstart <= k < j ==> !is_empty_cell(self@[k]),
            decreases 8000 - j,
        {
            if self.buf[j] % 256 == 0 {
                proof {
                    lemma_first_empty_found(self@, gstart, j as int);
                }
                return (j - start) as u16;
            }
            j = j + 1;
        }
        proof {
            lemma_first_empty_none(self@, gstart);
        }
        (BUFFER_CAPACITY - start) as u16
    }
}

/// The abstract state of a display engine: the write attribute, the cursor
/// position in visible coordinates, the window offset, the scroll buffer
/// contents and the device contents.
#[verifier::ext_equal]
pub ghost struct VgaState {
    pub color: u8,
    pub x: int,
    pub y: int,
    pub off: int,
    pub buf: Seq<u16>,
    pub dev: Seq<u16>,
}

/// A cell as the device stores it: character code in the low byte, the
/// attribute in the high byte.
pub open spec fn pack(code: u8, color: u8) -> u16 {
    (code as int + color as int * 256) as u16
}

/// The `VGA_BUFFER_SIZE` cells of the buffer that a window offset maps onto
/// the device.
pub open spec fn window(buf: Seq<u16>, off: int) -> Seq<u16> {
    buf.subrange(off * 80, off * 80 + 2000)
}

/// The flat buffer position of visible cell `(y, x)` under window offset
/// `off`, wrapped modulo the capacity.
pub open spec fn cell_index(off: int, y: int, x: int) -> int {
    (off * 80 + y * 80 + x) % 8000
}

/// Well-formedness of everything but the cursor row; the row bound is
/// stated separately because scrolling is exactly the step that repairs it.
pub open spec fn st_base_wf(s: VgaState) -> bool {
    &&& s.buf.len() == 8000
    &&& s.dev.len() == 2000
    &&& 0 <= s.x < 80
    &&& 0 <= s.y
    &&& 0 <= s.off <= 75
}

/// Full well-formedness of an engine state.
pub open spec fn st_wf(s: VgaState) -> bool {
    st_base_wf(s) && s.y < 25
}

/// The state of a freshly created engine: zeroed buffer and device, cursor
/// at the origin, window at the top, white on black.
pub open spec fn init_state() -> VgaState {
    VgaState {
        color: 15,
        x: 0,
        y: 0,
        off: 0,
        buf: Seq::new(8000, |i: int| 0u16),
        dev: Seq::new(2000, |i: int| 0u16),
    }
}

/// Effect of the single-cell write: stores the packed cell at visible
/// position `(y, x)` when that position is on the grid, else changes
/// nothing.
pub open spec fn st_write_at(s: VgaState, y: int, x: int, code: u8) -> VgaState {
    if 0 <= y < 25 && 0 <= x < 80 {
        VgaState { buf: s.buf.update(cell_index(s.off, y, x), pack(code, s.color)), ..s }
    } else {
        s
    }
}

/// Effect of a flush: the device shows the window at the current offset.
pub open spec fn st_flush(s: VgaState) -> VgaState {
    VgaState { dev: window(s.buf, s.off), ..s }
}

/// Effect of scrolling down one row: the offset grows, saturating at
/// `MAX_LINE_OFFSET`, the cursor row is pinned to the last visible row, and
/// the device is flushed.
pub open spec fn st_scroll(s: VgaState) -> VgaState {
    let off2 = if s.off < 75 {
        s.off + 1
    } else {
        s.off
    };
    VgaState { off: off2, y: 24, dev: window(s.buf, off2), ..s }
}

/// Effect of advancing the cursor one cell: wrap to the next row past the
/// last column, and scroll past the last row.
pub open spec fn st_inc(s: VgaState) -> VgaState {
    if s.x + 1 < 80 {
        VgaState { x: s.x + 1, ..s }
    } else if s.y + 1 < 25 {
        VgaState { x: 0, y: s.y + 1, ..s }
    } else {
        st_scroll(VgaState { x: 0, y: s.y + 1, ..s })
    }
}

/// The column where backspacing lands on row `y`: one before the end of
/// the row's block of content, floored at column 0 and clamped to the grid.
pub open spec fn last_col(buf: Seq<u16>, y: int) -> int {
    let bl = block_len(buf, y * 80);
    if bl == 0 {
        0
    } else if bl <= 80 {
        bl - 1
    } else {
        79
    }
}

/// Effect of moving the cursor one position backward: within a row the
/// column drops by one; at a row start the cursor joins the end of the
/// previous row's content, scrolling the window back up when already on
/// the first visible row. All bounds saturate.
pub open spec fn st_dec(s: VgaState) -> VgaState {
    if s.x == 0 && s.y == 0 {
        let off2 = if s.off > 0 {
            s.off - 1
        } else {
            0
        };
        VgaState { off: off2, x: last_col(s.buf, 0), ..s }
    } else if s.x == 0 {
        VgaState { y: s.y - 1, x: last_col(s.buf, s.y - 1), ..s }
    } else {
        VgaState { x: s.x - 1, ..s }
    }
}

/// Effect of one arrow-key movement: a single step, saturating at every
/// edge of the visible grid.
pub open spec fn st_move(s: VgaState, dir: Direction) -> VgaState {
    match dir {
        Direction::Up => VgaState {
            y: if s.y > 0 {
                s.y - 1
            } else {
                0
            },
            ..s
        },
        Direction::Down => VgaState {
            y: if s.y + 1 < 25 {
                s.y + 1
            } else {
                24
            },
            ..s
        },
        Direction::Left => VgaState {
            x: if s.x > 0 {
                s.x - 1
            } else {
                0
            },
            ..s
        },
        Direction::Right => VgaState {
            x: if s.x + 1 < 80 {
                s.x + 1
            } else {
                79
            },
            ..s
        },
    }
}

/// Effect of copying the single block cell at column `x` of the cursor
/// row (taken as a flat position, without the window offset) to its
/// position `by` columns further right, wrapping onto the next row past
/// the right edge; a source position outside the buffer moves nothing.
pub open spec fn shift_step(s: VgaState, x: int, by: int) -> VgaState {
    let xs = (x + by) % 80;
    let ys = if x + by >= 80 {
        s.y + 1
    } else {
        s.y
    };
    let src = s.y * 80 + x;
    if 0 <= src < s.buf.len() {
        st_write_at(s, ys, xs, (s.buf[src] as int % 256) as u8)
    } else {
        s
    }
}

/// The cells at columns `hi - 1` down to `x` of the cursor row, each
/// copied `by` columns right, in that strictly descending order.
pub open spec fn shift_applied(s: VgaState, x: int, hi: int, by: int) -> VgaState
    decreases hi - x,
{
    if x >= hi {
        s
    } else {
        shift_step(shift_applied(s, x + 1, hi, by), x, by)
    }
}

/// Effect of the insertion shift: the whole block of content that starts
/// at `(from_x, y)` moves `by` columns right, far end first.
pub open spec fn st_shift(s: VgaState, from_x: int, by: int) -> VgaState {
    shift_applied(s, from_x, from_x + block_len(s.buf, s.y * 80 + from_x), by)
}

/// Effect of inserting one character at the cursor: shift, write at the
/// freed cell, advance the cursor, flush.
pub open spec fn st_write_char(s: VgaState, c: u8) -> VgaState {
    let s1 = st_shift(s, s.x, 1);
    let s2 = st_write_at(s1, s1.y, s1.x, c);
    st_flush(st_inc(s2))
}

/// Effect of a backspace: step the cursor backward, clear the cell it
/// lands on, flush.
pub open spec fn st_delete_char(s: VgaState) -> VgaState {
    let s1 = st_dec(s);
    st_flush(st_write_at(s1, s1.y, s1.x, 0))
}

/// Effect of a line break: insert the terminator, move to the start of
/// the next row, scroll when that row is off the grid, flush.
pub open spec fn st_new_line(s: VgaState) -> VgaState {
    let s1 = st_write_char(s, 255);
    let s2 = VgaState { x: 0, y: s1.y + 1, ..s1 };
    let s3 = if s2.y >= 25 {
        st_scroll(s2)
    } else {
        s2
    };
    st_flush(s3)
}

/// Effect of clearing the screen: every cell of the visible window is
/// cleared to the empty code under the current attribute, and the window
/// is flushed.
pub open spec fn st_clear(s: VgaState) -> VgaState {
    let buf2 = Seq::new(
        s.buf.len(),
        |i: int|
            if s.off * 80 <= i < s.off * 80 + 2000 {
                (s.color as int * 256) as u16
            } else {
                s.buf[i]
            },
    );
    st_flush(VgaState { buf: buf2, ..s })
}

/// Effect of a bulk write: each byte inserted in turn, stopping at the
/// first null byte, which acts as a terminator and is not printed; a fully
/// consumed sequence ends with one more flush.
pub open spec fn st_write_bytes(s: VgaState, bytes: Seq<u8>) -> VgaState
    decreases bytes.len(),
{
    if bytes.len() == 0 {
        st_flush(s)
    } else if bytes[0] == 0 {
        s
    } else {
        st_write_bytes(st_write_char(s, bytes[0]), bytes.drop_first())
    }
}

/// Effect of setting the foreground: the low nibble of the attribute.
pub open spec fn st_set_foreground(s: VgaState, c: Color) -> VgaState {
    VgaState { color: ((s.color as int / 16) * 16 + c.spec_code() as int) as u8, ..s }
}

/// Effect of setting the background: the high nibble of the attribute.
pub open spec fn st_set_background(s: VgaState, c: Color) -> VgaState {
    VgaState { color: (s.color as int % 16 + c.spec_code() as int * 16) as u8, ..s }
}

/// The display engine: one scroll buffer, one cursor position, one current
/// attribute, one window offset, and the simulated device cells that the
/// flushes target.
pub struct Vga {
    pub color: u8,
    pub x: u8,
    pub y: u8,
    pub cursor: Cursor,
    pub buffer: Buffer,
    pub line_offset: u8,
    pub device: Vec<u16>,
}

impl View for Vga {
    type V = VgaState;

    open spec fn view(&self) -> VgaState {
        VgaState {
            color: self.color,
            x: self.x as int,
            y: self.y as int,
            off: self.line_offset as int,
            buf: self.buffer@,
            dev: self.device@,
        }
    }
}

impl Default for Vga {
    /// A fresh engine, as `Vga::new` builds it.
    fn default() -> (t: Vga)
        ensures
            t.wf(),
            t@ == init_state(),
    {
        Vga::new()
    }
}

impl Vga {
    /// The engine's representation invariant.
    pub open spec fn wf(&self) -> bool {
        st_wf(self@)
    }

    /// A fresh engine: zeroed content, cursor at the origin, white on
    /// black. A hardware backend additionally shapes and places the
    /// hardware cursor through the register side channel.
    pub fn new() -> (t: Vga)
        ensures
            t.wf(),
            t@ == init_state(),
    {
        let mut t = Vga {
            color: 0,
            x: 0,
            y: 0,
            cursor: Cursor {},
            buffer: Buffer::new(),
            line_offset: 0,
            device: zero_cells(2000),
        };
        t.set_foreground_color(Color::White);
        t.set_background_color(Color::Black);
        proof {
            assert(t@ =~= init_state());
        }
        t
    }

    /// Sets the low nibble of the write attribute, leaving the high nibble
    /// untouched.
    pub fn set_foreground_color(&mut self, foreground: Color)
        ensures
            final(self)@ == st_set_foreground(old(self)@, foreground),
    {
        self.color = self.color / 16 * 16 + foreground.to_foreground();
    }

    /// Sets the high nibble of the write attribute, leaving the low nibble
    /// untouched.
    pub fn set_background_color(&mut self, background: Color)
        ensures
            final(self)@ == st_set_background(old(self)@, background),
    {
        self.color = self.color % 16 + background.to_background();
    }

    /// Writes `character` at visible position `(y, x)` into the scroll
    /// buffer, packed with the current attribute; positions off the grid
    /// are reported, and every caller in the engine ignores the report.
    pub fn write_char_at(&mut self, y: u8, x: u8, character: u8) -> (r: Result<
        (),
        OutOfBoundsError,
    >)
        requires
            old(self).wf(),
        ensures
            final(self).wf(),
            final(self)@ == st_write_at(old(self)@, y as int, x as int, character),
            r is Ok <==> (y < 25 && x < 80),
    {
        if y >= VGA_HEIGHT || x >= VGA_WIDTH {
            return Err(OutOfBoundsError);
        }
        let entry: u16 = character as u16 + self.color as u16 * 256;
        let index: u16 = y as u16 * 80 + x as u16;
        self.buffer.write(self.line_offset, index, entry);
        proof {
            assert(final(self)@ =~= st_write_at(old(self)@, y as int, x as int, character));
        }
        Ok(())
    }

    /// Copies the visible window into the device cells, one cell at a
    /// time in row-major order; the engine's only interaction with the
    /// output device.
    pub fn flush(&mut self)
        requires
            old(self).wf(),
        ensures
            final(self).wf(),
            final(self)@ == st_flush(old(self)@),
    {
        let ghost s0 = self@;
        let mut idx: usize = 0;
        while idx < 2000
            invariant
                idx <= 2000,
                st_wf(self@),
                self@.color == s0.color,
                self@.x == s0.x,
                self@.y == s0.y,
                self@.off == s0.off,
                self@.buf == s0.buf,
                forall|k: int| 0 <= k < idx ==> self@.dev[k] == s0.buf[s0.off * 80 + k],
            decreases 2000 - idx,
        {
            let pos: u16 = self.line_offset as u16 * 80 + idx as u16;
            let cell: u16 = match self.buffer.at(pos) {
                Some(c) => c,
                None => 0,
            };
            self.device.set(idx, cell);
            idx = idx + 1;
        }
        proof {
            assert(self@.dev =~= window(s0.buf, s0.off));
            assert(final(self)@ =~= st_flush(old(self)@));
        }
    }

    /// Scrolls the window down one row, saturating at the end of the
    /// buffer, pins the cursor to the last visible row, and flushes.
    pub fn scroll_down(&mut self)
        requires
            st_base_wf(old(self)@),
        ensures
            final(self).wf(),
            final(self)@ == st_scroll(old(self)@),
    {
        if self.line_offset < MAX_LINE_OFFSET {
            self.line_offset = self.line_offset + 1;
        }
        self.y = VGA_HEIGHT - 1;
        self.flush();
        proof {
            assert(final(self)@ =~= st_scroll(old(self)@));
        }
    }

    /// Advances the cursor one cell, wrapping at the right edge and
    /// scrolling past the bottom row. A hardware backend resynchronizes
    /// the hardware cursor after every such change.
    pub fn inc_cursor(&mut self)
        requires
            old(self).wf(),
        ensures
            final(self).wf(),
            final(self)@ == st_inc(old(self)@),
    {
        self.x = self.x + 1;
        if self.x >= VGA_WIDTH {
            self.x = 0;
            self.y = self.y + 1;
        }
        if self.y >= VGA_HEIGHT {
            self.scroll_down();
        }
    }

    /// The column where a backspace lands on row `y`: the end of the
    /// row's written content.
    pub fn get_x_for_y(&self, y: u8) -> (x: u8)
        requires
            self.wf(),
            y < 100,
        ensures
            x as int == last_col(self@.buf, y as int),
            x < 80,
    {
        let bl: u16 = self.buffer.block_length(0, y);
        if bl == 0 {
            0
        } else if bl <= 80 {
            (bl - 1) as u8
        } else {
            79
        }
    }

    /// Moves the cursor one position backward: within a row one column
    /// left; at a row start up to the end of the previous row's content,
    /// scrolling the window back when already at the top. A hardware
    /// backend resynchronizes the hardware cursor afterwards.
    pub fn dec_cursor(&mut self)
        requires
            old(self).wf(),
        ensures
            final(self).wf(),
            final(self)@ == st_dec(old(self)@),
    {
        let on_first_col = self.x == 0;
        let on_first_row = self.y == 0;
        if on_first_col && on_first_row {
            if self.line_offset > 0 {
                self.line_offset = self.line_offset - 1;
            }
            self.x = self.get_x_for_y(self.y);
        } else if on_first_col {
            self.y = self.y - 1;
            self.x = self.get_x_for_y(self.y);
        } else {
            self.x = self.x - 1;
        }
    }

    /// Copies the block of content that starts at `(from_x, y)` by `by`
    /// columns to the right, walking the block from its far end backward
    /// so that no cell is overwritten before it has moved; a copy that
    /// crosses the right edge lands on the next row. Called before every
    /// insertion.
    pub fn shift_text_right(&mut self, from_x: u8, by: u8)
        requires
            old(self).wf(),
            from_x < 80,
        ensures
            final(self).wf(),
            final(self)@ == st_shift(old(self)@, from_x as int, by as int),
    {
        let ghost s0 = self@;
        let bl: u16 = self.buffer.block_length(from_x, self.y);
        let lo: usize = from_x as usize;
        let hi: usize = from_x as usize + bl as usize;
        let mut x: usize = hi;
        while x > lo
            invariant
                st_wf(self@),
                st_wf(s0),
                lo <= x <= hi,
                lo == from_x as usize,
                lo < 80,
                hi == lo + block_len(s0.buf, s0.y * 80 + lo),
                hi <= 8000,
                self@ == shift_applied(s0, x as int, hi as int, by as int),
            decreases x,
        {
            x = x - 1;
            let xpb: usize = x + by as usize;
            let xs: u8 = (xpb % 80) as u8;
            let yt: u8 = if xpb >= 80 {
                self.y + 1
            } else {
                self.y
            };
            let src: usize = self.y as usize * 80 + x;
            if src < BUFFER_CAPACITY {
                let cell: u16 = match self.buffer.at(src as u16) {
                    Some(c) => c,
                    None => 0,
                };
                let _ = self.write_char_at(yt, xs, (cell % 256) as u8);
            }
            proof {
                assert(self@ =~= shift_applied(s0, x as int, hi as int, by as int));
            }
        }
    }

    /// Inserts `c` at the cursor: the content from the cursor to the end
    /// of the current block moves one cell right, `c` lands in the freed
    /// cell, the cursor advances, and the window is flushed.
    pub fn write_char(&mut self, c: u8)
        requires
            old(self).wf(),
        ensures
            final(self).wf(),
            final(self)@ == st_write_char(old(self)@, c),
    {
        let cx = self.x;
        self.shift_text_right(cx, 1);
        let cy = self.y;
        let cx2 = self.x;
        let _ = self.write_char_at(cy, cx2, c);
        self.inc_cursor();
        self.flush();
    }

    /// Backspace: the cursor moves one position backward, the cell it
    /// lands on is cleared to empty, and the window is flushed.
    pub fn delete_char(&mut self)
        requires
            old(self).wf(),
        ensures
            final(self).wf(),
            final(self)@ == st_delete_char(old(self)@),
    {
        self.dec_cursor();
        let cy = self.y;
        let cx = self.x;
        let _ = self.write_char_at(cy, cx, 0);
        self.flush();
    }

    /// Ends the current block: writes the line terminator at the cursor,
    /// moves to the start of the next row, scrolling when the cursor
    /// falls off the grid, and flushes.
    pub fn new_line(&mut self)
        requires
            old(self).wf(),
        ensures
            final(self).wf(),
            final(self)@ == st_new_line(old(self)@),
    {
        self.write_char(NEWLINE);
        self.y = self.y + 1;
        self.x = 0;
        if self.y >= VGA_HEIGHT {
            self.scroll_down();
        }
        self.flush();
    }

    /// Writes the bytes of `s` in turn, stopping at the first null byte,
    /// which terminates the text instead of being printed.
    pub fn write_u8_arr(&mut self, s: &[u8])
        requires
            old(self).wf(),
        ensures
            final(self).wf(),
            final(self)@ == st_write_bytes(old(self)@, s@),
    {
        let ghost s0 = self@;
        let n: usize = s.len();
        proof {
            assert(s@.skip(0) =~= s@);
        }
        let mut i: usize = 0;
        while i < n
            invariant
                i <= n,
                n == s@.len(),
                st_wf(self@),
                s0 == old(self)@,
                st_write_bytes(s0, s@) == st_write_bytes(self@, s@.skip(i as int)),
            decreases n - i,
        {
            let c: u8 = s[i];
            proof {
                assert(s@.skip(i as int)[0] == s@[i as int]);
            }
            if c == 0 {
                proof {
                    assert(st_write_bytes(self@, s@.skip(i as int)) == self@);
                }
                return;
            }
            self.write_char(c);
            proof {
                assert(s@.skip(i as int).drop_first() =~= s@.skip(i as int + 1));
            }
            i = i + 1;
        }
        proof {
            assert(s@.skip(n as int) =~= Seq::<u8>::empty());
        }
        self.flush();
    }

    /// Clears every cell of the visible window to the empty code and
    /// flushes, blanking the screen.
    pub fn clear_screen(&mut self)
        requires
            old(self).wf(),
        ensures
            final(self).wf(),
            final(self)@ == st_clear(old(self)@),
    {
        let ghost s0 = self@;
        let mut row: u8 = 0;
        while row < VGA_HEIGHT
            invariant
                row <= 25,
                st_wf(self@),
                st_wf(s0),
                self@.color == s0.color,
                self@.x == s0.x,
                self@.y == s0.y,
                self@.off == s0.off,
                self@.dev == s0.dev,
                forall|i: int|
                    0 <= i < 8000 ==> self@.buf[i] == (if s0.off * 80 <= i < s0.off * 80 + row * 80 {
                        (s0.color as int * 256) as u16
                    } else {
                        s0.buf[i]
                    }),
            decreases 25 - row,
        {
            let mut col: u8 = 0;
            while col < VGA_WIDTH
                invariant
                    row < 25,
                    col <= 80,
                    st_wf(self@),
                    st_wf(s0),
                    self@.color == s0.color,
                    self@.x == s0.x,
                    self@.y == s0.y,
                    self@.off == s0.off,
                    self@.dev == s0.dev,
                    forall|i: int|
                        0 <= i < 8000 ==> self@.buf[i] == (if s0.off * 80 <= i < s0.off * 80 + row
                            * 80 + col {
                            (s0.color as int * 256) as u16
                        } else {
                            s0.buf[i]
                        }),
                decreases 80 - col,
            {
                let _ = self.write_char_at(row, col, 0);
                col = col + 1;
            }
            row = row + 1;
        }
        proof {
            assert(self@.buf =~= st_clear(s0).buf);
        }
        self.flush();
        proof {
            assert(final(self)@ =~= st_clear(old(self)@));
        }
    }

    /// Moves the cursor one step in `dir`, saturating at every edge of
    /// the visible grid. A hardware backend resynchronizes the hardware
    /// cursor afterwards.
    pub fn move_cursor(&mut self, dir: Direction)
        requires
            old(self).wf(),
        ensures
            final(self).wf(),
            final(self)@ == st_move(old(self)@, dir),
    {
        match dir {
            Direction::Up => {
                if self.y > 0 {
                    self.y = self.y - 1;
                }
            },
            Direction::Down => {
                if self.y < VGA_HEIGHT - 1 {
                    self.y = self.y + 1;
                }
            },
            Direction::Left => {
                if self.x > 0 {
                    self.x = self.x - 1;
                }
            },
            Direction::Right => {
                if self.x < VGA_WIDTH - 1 {
                    self.x = self.x + 1;
                }
            },
        }
    }
}

/// The cursor after `n` single-cell advances.
pub open spec fn st_inc_n(s: VgaState, n: nat) -> VgaState
    decreases n,
{
    if n == 0 {
        s
    } else {
        st_inc_n(st_inc(s), (n - 1) as nat)
    }
}

/// The insertion shift touches only the buffer: cursor, offset, attribute
/// and device stay as they are.
pub proof fn lemma_shift_applied_frame(s: VgaState, x: int, hi: int, by: int)
    requires
        s.buf.len() == 8000,
    ensures
        shift_applied(s, x, hi, by).x == s.x,
        shift_applied(s, x, hi, by).y == s.y,
        shift_applied(s, x, hi, by).off == s.off,
        shift_applied(s, x, hi, by).color == s.color,
        shift_applied(s, x, hi, by).dev == s.dev,
        shift_applied(s, x, hi, by).buf.len() == 8000,
    decreases hi - x,
{
    if x < hi {
        lemma_shift_applied_frame(s, x + 1, hi, by);
    }
}

proof fn lemma_inc_up_to_wrap(s: VgaState, n: nat)
    requires
        st_wf(s),
        s.x + n <= 80,
        s.y + 1 < 25,
    ensures
        st_inc_n(s, n) == (if s.x + n < 80 {
            VgaState { x: s.x + n, ..s }
        } else {
            VgaState { x: 0, y: s.y + 1, ..s }
        }),
    decreases n,
{
    if n > 0 {
        if s.x + 1 < 80 {
            lemma_inc_up_to_wrap(st_inc(s), (n - 1) as nat);
        } else {
            assert(n == 1);
            assert(st_inc_n(st_inc(s), 0) == st_inc(s));
        }
    }
}

/// Cursor wrap: exactly `VGA_WIDTH` single-cell advances from the start of
/// a row that is not the last visible one return the column to 0 and move
/// the cursor down one row, and nothing else changes.
pub proof fn lemma_cursor_wrap(s: VgaState)
    requires
        st_wf(s),
        s.x == 0,
        s.y + 1 < 25,
    ensures
        st_inc_n(s, 80) == (VgaState { x: 0, y: s.y + 1, ..s }),
{
    lemma_inc_up_to_wrap(s, 80);
}

/// Scroll saturation: once the window offset stands at its maximum,
/// neither a scroll nor a further line break moves it any more.
pub proof fn lemma_scroll_saturates(s: VgaState)
    requires
        st_wf(s),
        s.off == 75,
    ensures
        st_scroll(s).off == 75,
        st_new_line(s).off == 75,
{
    lemma_shift_applied_frame(s, s.x, s.x + block_len(s.buf, s.y * 80 + s.x), 1);
}

/// Holds of a byte that stands for a printable character: neither the
/// empty code, nor a control code, nor the line terminator.
pub open spec fn printable(b: u8) -> bool {
    32 <= b < 127
}

/// The scroll buffer after the first `k` bytes of `bytes` have been
/// written on a fresh engine: cells `0 .. k` hold the bytes packed with
/// the default attribute, every other cell is still empty.
spec fn written_buf(bytes: Seq<u8>, k: int) -> Seq<u16> {
    Seq::new(
        8000,
        |i: int|
            if 0 <= i < k {
                pack(bytes[i], 15)
            } else {
                0u16
            },
    )
}

/// The whole engine state after the first `k` of at most 80 bytes.
spec fn written_state(bytes: Seq<u8>, k: int) -> VgaState {
    VgaState {
        color: 15,
        x: if k < 80 {
            k
        } else {
            0
        },
        y: if k < 80 {
            0
        } else {
            1
        },
        off: 0,
        buf: written_buf(bytes, k),
        dev: window(written_buf(bytes, k), 0),
    }
}

proof fn lemma_roundtrip_step(bytes: Seq<u8>, k: int)
    requires
        bytes.len() <= 80,
        0 <= k < bytes.len(),
        forall|i: int| 0 <= i < bytes.len() ==> printable(bytes[i]),
    ensures
        st_write_char(written_state(bytes, k), bytes[k]) == written_state(bytes, k + 1),
{
    let s = written_state(bytes, k);
    assert(s.y * 80 + s.x == k);
    assert(is_empty_cell(s.buf[k]));
    assert(forall|j: int| k <= j < 8000 ==> s.buf[j] == 0u16);
    lemma_first_sentinel_none(s.buf, k);
    lemma_first_empty_found(s.buf, k, k);
    assert(block_len(s.buf, k) == 0);
    assert(st_shift(s, s.x, 1) == s);
    let s2 = st_write_at(s, s.y, s.x, bytes[k]);
    assert(cell_index(0, 0, k) == k);
    assert(s2.buf =~= written_buf(bytes, k + 1));
    assert(st_flush(st_inc(s2)) =~= written_state(bytes, k + 1));
}

proof fn lemma_roundtrip_aux(bytes: Seq<u8>, k: int)
    requires
        bytes.len() <= 80,
        0 <= k <= bytes.len(),
        forall|i: int| 0 <= i < bytes.len() ==> printable(bytes[i]),
    ensures
        st_write_bytes(written_state(bytes, k), bytes.skip(k)) == written_state(
            bytes,
            bytes.len() as int,
        ),
    decreases bytes.len() - k,
{
    if k == bytes.len() {
        assert(bytes.skip(k) =~= Seq::<u8>::empty());
        assert(st_flush(written_state(bytes, k)) =~= written_state(bytes, k));
    } else {
        assert(bytes.skip(k)[0] == bytes[k]);
        lemma_roundtrip_step(bytes, k);
        assert(bytes.skip(k).drop_first() =~= bytes.skip(k + 1));
        lemma_roundtrip_aux(bytes, k + 1);
    }
}

/// Round trip: printable text of at most one row, written on a fresh
/// engine, reappears character for character in the first device cells
/// once the attribute byte is stripped.
pub proof fn lemma_write_roundtrip(bytes: Seq<u8>)
    requires
        bytes.len() <= 80,
        forall|i: int| 0 <= i < bytes.len() ==> printable(bytes[i]),
    ensures
        forall|i: int|
            0 <= i < bytes.len() ==> #[trigger] st_write_bytes(init_state(), bytes).dev[i] % 256
                == bytes[i] as u16,
{
    lemma_roundtrip_aux(bytes, 0);
    assert(written_state(bytes, 0) =~= init_state());
    assert(bytes.skip(0) =~= bytes);
    let fin = st_write_bytes(init_state(), bytes);
    assert(fin == written_state(bytes, bytes.len() as int));
    assert forall|i: int| 0 <= i < bytes.len() implies #[trigger] fin.dev[i] % 256 == bytes[
        i
    ] as u16 by {
        assert(fin.dev[i] == written_buf(bytes, bytes.len() as int)[i]);
        assert(fin.dev[i] == pack(bytes[i], 15));
        assert((bytes[i] as int + 3840) % 256 == bytes[i] as int);
    }
}

} // verus!
