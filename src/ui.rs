use vstd::prelude::*;
use vstd::string::*;

use crate::map::{lemma_cell_index, lemma_cell_index_unique};

verus! {

/// A key press, already normalised by the terminal.
#[derive(Clone, Copy, Debug, PartialEq, Eq, Structural)]
pub enum Key {
    Char(char),
    Ctrl(char),
    Alt(char),
    Esc,
    Left,
    Right,
    Up,
    Down,
    Unknown,
}

/// A display color. `Unknown` stands for "no color emitted yet" while painting.
#[derive(Clone, Copy, Debug, PartialEq, Eq, Structural)]
pub enum Color {
    Black,
    Red,
    Green,
    Yellow,
    Blue,
    White,
    Unknown,
}

pub const SPACE: char = ' ';

/// Escape sequence that selects `c` as foreground color.
pub open spec fn fg_code(c: Color) -> Seq<char> {
    match c {
        Color::Red => seq!['\x1b', '[', '3', '1', 'm'],
        Color::White => seq!['\x1b', '[', '3', '7', 'm'],
        _ => seq!['\x1b', '[', '3', '0', 'm'],
    }
}

/// Escape sequence that selects `c` as background color.
pub open spec fn bg_code(c: Color) -> Seq<char> {
    match c {
        Color::Yellow => seq!['\x1b', '[', '4', '3', 'm'],
        _ => seq!['\x1b', '[', '4', '0', 'm'],
    }
}

/// Escape sequence that restores the terminal's default attributes.
pub open spec fn reset_code() -> Seq<char> {
    seq!['\x1b', '[', '0', 'm']
}

impl Color {
    /// The foreground escape sequence of this color.
    pub fn fg(&self) -> (r: &'static str)
        ensures
            r@ == fg_code(*self),
    {
        match self {
            Color::Red => {
                proof {
                    reveal_strlit("\x1b[31m");
                }
                "\x1b[31m"
            },
            Color::White => {
                proof {
                    reveal_strlit("\x1b[37m");
                }
                "\x1b[37m"
            },
            _ => {
                proof {
                    reveal_strlit("\x1b[30m");
                }
                "\x1b[30m"
            },
        }
    }

    /// The background escape sequence of this color.
    pub fn bg(&self) -> (r: &'static str)
        ensures
            r@ == bg_code(*self),
    {
        match self {
            Color::Yellow => {
                proof {
                    reveal_strlit("\x1b[43m");
                }
                "\x1b[43m"
            },
            _ => {
                proof {
                    reveal_strlit("\x1b[40m");
                }
                "\x1b[40m"
            },
        }
    }
}

/// One display cell: a symbol with its colors.
#[derive(Clone, Copy, Debug, PartialEq, Eq, Structural)]
pub struct Cell {
    pub symbol: char,
    pub fg: Color,
    pub bg: Color,
}

/// The cell every buffer starts with.
pub open spec fn blank_cell() -> Cell {
    Cell { symbol: ' ', fg: Color::Black, bg: Color::Black }
}

/// The characters that paint `cells` in order, given the colors last emitted: a color's
/// escape sequence is written only where it differs from the previous one.
pub open spec fn paint(cells: Seq<Cell>, fg: Color, bg: Color) -> Seq<char>
    decreases cells.len(),
{
    if cells.len() == 0 {
        reset_code()
    } else {
        let c = cells[0];
        let f = if c.fg != fg {
            fg_code(c.fg)
        } else {
            Seq::<char>::empty()
        };
        let b = if c.bg != bg {
            bg_code(c.bg)
        } else {
            Seq::<char>::empty()
        };
        f + b + seq![c.symbol] + paint(cells.drop_first(), c.fg, c.bg)
    }
}

/// Appends the characters of `s` to `out`.
fn push_str_chars(out: &mut Vec<char>, s: &str)
    ensures
        final(out)@ == old(out)@ + s@,
{
    let n: usize = s.unicode_len();
    let ghost start = out@;
    let mut i: usize = 0;
    while i < n
        invariant
            i <= n,
            n == s@.len(),
            out@ == start + s@.subrange(0, i as int),
        decreases n - i,
    {
        let c = s.get_char(i);
        out.push(c);
        i = i + 1;
        assert(out@ == start + s@.subrange(0, i as int));
    }
    assert(s@.subrange(0, n as int) == s@);
}

/// A `width * height` grid of display cells, stored row by row.
pub struct Buffer {
    width: usize,
    height: usize,
    cells: Vec<Cell>,
}

impl Buffer {
    pub closed spec fn spec_width(&self) -> usize {
        self.width
    }

    pub closed spec fn spec_height(&self) -> usize {
        self.height
    }

    /// All cells, row by row.
    pub closed spec fn spec_cells(&self) -> Seq<Cell> {
        self.cells@
    }

    pub open spec fn wf(&self) -> bool {
        self.spec_cells().len() == self.spec_width() * self.spec_height()
    }

    pub open spec fn in_bounds(&self, row: int, col: int) -> bool {
        0 <= row < self.spec_height() && 0 <= col < self.spec_width()
    }

    /// The cell at `(row, col)`.
    pub open spec fn cell_at(&self, row: int, col: int) -> Cell {
        self.spec_cells()[row * self.spec_width() + col]
    }

    pub fn width(&self) -> (r: usize)
        ensures
            r == self.spec_width(),
    {
        self.width
    }

    pub fn height(&self) -> (r: usize)
        ensures
            r == self.spec_height(),
    {
        self.height
    }

    /// The cell at `(row, col)`.
    pub fn cell(&self, row: usize, col: usize) -> (r: Cell)
        requires
            self.wf(),
            self.in_bounds(row as int, col as int),
        ensures
            r == self.cell_at(row as int, col as int),
    {
        proof {
            lemma_cell_index(self.width as int, self.height as int, row as int, col as int);
            assert(self.cells@.len() == self.cells.len());
        }
        self.cells[row * self.width + col]
    }

    /// Puts `c` in colors `fg` on `bg` at `(row, col)` and leaves every other cell as it was.
    pub fn print_symbol(&mut self, row: usize, col: usize, c: char, fg: Color, bg: Color)
        requires
            old(self).wf(),
            old(self).in_bounds(row as int, col as int),
        ensures
            final(self).wf(),
            final(self).spec_width() == old(self).spec_width(),
            final(self).spec_height() == old(self).spec_height(),
            forall|r: int, k: int| #[trigger]
                final(self).in_bounds(r, k) ==> final(self).cell_at(r, k) == if r == row && k
                    == col {
                    Cell { symbol: c, fg, bg }
                } else {
                    old(self).cell_at(r, k)
                },
    {
        proof {
            lemma_cell_index(self.width as int, self.height as int, row as int, col as int);
            assert(self.cells@.len() == self.cells.len());
        }
        let ghost before = *self;
        let idx: usize = row * self.width + col;
        self.cells.set(idx, Cell { symbol: c, fg, bg });
        proof {
            assert forall|r: int, k: int| #[trigger]
                self.in_bounds(r, k) implies self.cell_at(r, k) == if r == row && k == col {
                Cell { symbol: c, fg, bg }
            } else {
                before.cell_at(r, k)
            } by {
                lemma_cell_index(self.width as int, self.height as int, r, k);
                if r * self.width + k == idx as int {
                    lemma_cell_index_unique(self.width as int, r, k, row as int, col as int);
                }
            }
        }
    }

    /// Writes `message` white on black on row `height / 2 + delta_off_horizontal_center`,
    /// starting at column `width / 2 - len / 2`, where `len` is the message's length in
    /// characters.
    pub fn print_centered(&mut self, message: &str, delta_off_horizontal_center: i32)
        requires
            old(self).wf(),
            message@.len() / 2 <= old(self).spec_width() / 2,
            old(self).spec_width() / 2 - message@.len() / 2 + message@.len() <= old(
                self,
            ).spec_width(),
            0 <= old(self).spec_height() / 2 + delta_off_horizontal_center < old(
                self,
            ).spec_height(),
        ensures
            final(self).wf(),
            final(self).spec_width() == old(self).spec_width(),
            final(self).spec_height() == old(self).spec_height(),
            forall|r: int, k: int| #[trigger]
                final(self).in_bounds(r, k) ==> final(self).cell_at(r, k) == if r == old(
                    self,
                ).spec_height() / 2 + delta_off_horizontal_center && old(self).spec_width() / 2
                    - message@.len() / 2 <= k < old(self).spec_width() / 2 - message@.len() / 2
                    + message@.len() {
                    Cell {
                        symbol: message@[k - (old(self).spec_width() / 2 - message@.len() / 2)],
                        fg: Color::White,
                        bg: Color::Black,
                    }
                } else {
                    old(self).cell_at(r, k)
                },
    {
        let ghost b0 = *self;
        let n: usize = message.unicode_len();
        let x0: usize = (self.width / 2) - (n / 2);
        let half: usize = self.height / 2;
        let y: usize = if delta_off_horizontal_center >= 0 {
            half + delta_off_horizontal_center as usize
        } else {
            half - (0 - delta_off_horizontal_center as i64) as usize
        };
        let mut i: usize = 0;
        while i < n
            invariant
                i <= n,
                n == message@.len(),
                x0 == b0.spec_width() / 2 - n / 2,
                x0 + n <= b0.spec_width(),
                y < b0.spec_height(),
                y == b0.spec_height() / 2 + delta_off_horizontal_center,
                self.wf(),
                self.spec_width() == b0.spec_width(),
                self.spec_height() == b0.spec_height(),
                forall|r: int, k: int| #[trigger]
                    self.in_bounds(r, k) ==> self.cell_at(r, k) == if r == y && x0 <= k < x0
                        + i {
                        Cell { symbol: message@[k - x0], fg: Color::White, bg: Color::Black }
                    } else {
                        b0.cell_at(r, k)
                    },
            decreases n - i,
        {
            let c = message.get_char(i);
            let ghost prev = *self;
            self.print_symbol(y, x0 + i, c, Color::White, Color::Black);
            assert forall|r: int, k: int| #[trigger]
                self.in_bounds(r, k) implies self.cell_at(r, k) == if r == y && x0 <= k < x0 + i
                + 1 {
                Cell { symbol: message@[k - x0], fg: Color::White, bg: Color::Black }
            } else {
                b0.cell_at(r, k)
            } by {
                assert(prev.in_bounds(r, k));
            }
            i = i + 1;
        }
    }

    /// Writes `message` black on yellow at the start of the last row, followed by one blank
    /// cell in the same colors.
    pub fn print_lower_left(&mut self, message: &str)
        requires
            old(self).wf(),
            old(self).spec_height() >= 1,
            message@.len() + 1 <= old(self).spec_width(),
        ensures
            final(self).wf(),
            final(self).spec_width() == old(self).spec_width(),
            final(self).spec_height() == old(self).spec_height(),
            forall|r: int, k: int| #[trigger]
                final(self).in_bounds(r, k) ==> final(self).cell_at(r, k) == if r == old(
                    self,
                ).spec_height() - 1 && k < message@.len() {
                    Cell { symbol: message@[k], fg: Color::Black, bg: Color::Yellow }
                } else if r == old(self).spec_height() - 1 && k == message@.len() {
                    Cell { symbol: ' ', fg: Color::Black, bg: Color::Yellow }
                } else {
                    old(self).cell_at(r, k)
                },
    {
        let ghost b0 = *self;
        let n: usize = message.unicode_len();
        let y: usize = self.height - 1;
        let mut i: usize = 0;
        while i < n
            invariant
                i <= n,
                n == message@.len(),
                n + 1 <= b0.spec_width(),
                y == b0.spec_height() - 1,
                self.wf(),
                self.spec_width() == b0.spec_width(),
                self.spec_height() == b0.spec_height(),
                forall|r: int, k: int| #[trigger]
                    self.in_bounds(r, k) ==> self.cell_at(r, k) == if r == y && k < i {
                        Cell { symbol: message@[k], fg: Color::Black, bg: Color::Yellow }
                    } else {
                        b0.cell_at(r, k)
                    },
            decreases n - i,
        {
            let c = message.get_char(i);
            let ghost prev = *self;
            self.print_symbol(y, i, c, Color::Black, Color::Yellow);
            assert forall|r: int, k: int| #[trigger]
                self.in_bounds(r, k) implies self.cell_at(r, k) == if r == y && k < i + 1 {
                Cell { symbol: message@[k], fg: Color::Black, bg: Color::Yellow }
            } else {
                b0.cell_at(r, k)
            } by {
                assert(prev.in_bounds(r, k));
            }
            i = i + 1;
        }
        let ghost prev = *self;
        self.print_symbol(y, n, SPACE, Color::Black, Color::Yellow);
        assert forall|r: int, k: int| #[trigger]
            self.in_bounds(r, k) implies self.cell_at(r, k) == if r == y && k < n {
            Cell { symbol: message@[k], fg: Color::Black, bg: Color::Yellow }
        } else if r == y && k == n {
            Cell { symbol: ' ', fg: Color::Black, bg: Color::Yellow }
        } else {
            b0.cell_at(r, k)
        } by {
            assert(prev.in_bounds(r, k));
        }
    }

    /// The characters that paint the whole buffer, row by row, starting with no colors
    /// emitted and ending with the reset sequence.
    pub fn render_text(&self) -> (out: Vec<char>)
        ensures
            out@ == paint(self.spec_cells(), Color::Unknown, Color::Unknown),
    {
        let mut out: Vec<char> = Vec::new();
        let mut fg = Color::Unknown;
        let mut bg = Color::Unknown;
        let n: usize = self.cells.len();
        let mut i: usize = 0;
        assert(self.cells@.subrange(0, n as int) == self.cells@);
        while i < n
            invariant
                i <= n,
                n == self.cells@.len(),
                out@ + paint(self.cells@.subrange(i as int, n as int), fg, bg) == paint(
                    self.cells@,
                    Color::Unknown,
                    Color::Unknown,
                ),
            decreases n - i,
        {
            let cell = self.cells[i];
            let ghost rest = self.cells@.subrange(i as int, n as int);
            let ghost o0 = out@;
            let ghost fg0 = fg;
            let ghost bg0 = bg;
            assert(rest.drop_first() == self.cells@.subrange(i + 1, n as int));
            assert(rest[0] == cell);
            let ghost f = if cell.fg != fg0 {
                fg_code(cell.fg)
            } else {
                Seq::<char>::empty()
            };
            let ghost b = if cell.bg != bg0 {
                bg_code(cell.bg)
            } else {
                Seq::<char>::empty()
            };
            if cell.fg != fg {
                push_str_chars(&mut out, cell.fg.fg());
                fg = cell.fg;
            }
            assert(out@ == o0 + f);
            let ghost o1 = out@;
            if cell.bg != bg {
                push_str_chars(&mut out, cell.bg.bg());
                bg = cell.bg;
            }
            assert(out@ == o1 + b);
            let ghost o2 = out@;
            out.push(cell.symbol);
            i = i + 1;
            assert(paint(rest, fg0, bg0) == f + b + seq![cell.symbol] + paint(
                self.cells@.subrange(i as int, n as int),
                cell.fg,
                cell.bg,
            ));
            assert(out@ + paint(self.cells@.subrange(i as int, n as int), fg, bg) == o0 + paint(
                rest,
                fg0,
                bg0,
            ));
        }
        assert(self.cells@.subrange(n as int, n as int) == Seq::<Cell>::empty());
        proof {
            reveal_strlit("\x1b[0m");
        }
        push_str_chars(&mut out, "\x1b[0m");
        out
    }
}

/// A `width * height` buffer of blank cells.
pub fn new_buffer(width: usize, height: usize) -> (b: Buffer)
    requires
        width * height <= usize::MAX,
    ensures
        b.wf(),
        b.spec_width() == width,
        b.spec_height() == height,
        forall|r: int, k: int| #[trigger] b.in_bounds(r, k) ==> b.cell_at(r, k) == blank_cell(),
{
    let n: usize = width * height;
    let mut cells: Vec<Cell> = Vec::with_capacity(n);
    let mut i: usize = 0;
    while i < n
        invariant
            i <= n,
            cells@.len() == i,
            forall|k: int| 0 <= k < i ==> cells@[k] == blank_cell(),
        decreases n - i,
    {
        cells.push(Cell { symbol: SPACE, fg: Color::Black, bg: Color::Black });
        i = i + 1;
    }
    let b = Buffer { width, height, cells };
    assert forall|r: int, k: int| #[trigger] b.in_bounds(r, k) implies b.cell_at(r, k)
        == blank_cell() by {
        lemma_cell_index(width as int, height as int, r, k);
    }
    b
}

} // verus!
