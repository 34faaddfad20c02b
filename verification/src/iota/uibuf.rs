//! A grid of cells that holds what is to be shown on the screen, and knows
//! which cells changed since they were last drawn.

use vstd::prelude::*;

use super::frontends::{DrawnChar, Frontend, Screen};

verus! {

/// The style a char is drawn in.
#[derive(Copy, Clone, Debug, PartialEq, Eq, Structural)]
pub enum CharStyle {
    Normal,
}

/// The colour a char or its background is drawn in.
#[derive(Copy, Clone, Debug, PartialEq, Eq, Structural)]
pub enum CharColor {
    Blue,
    Black,
    White,
    Red,
}

/// A cell of the screen: its char, colours, place, and whether it changed
/// since it was last drawn.
#[derive(Copy, Clone, Debug, PartialEq, Eq, Structural)]
pub struct Cell {
    pub bg: CharColor,
    pub fg: CharColor,
    pub ch: char,
    pub x: usize,
    pub y: usize,
    pub dirty: bool,
}

/// A fresh cell at a place, holding `ch`.
pub open spec fn fresh_cell(x: usize, y: usize, ch: char) -> Cell {
    Cell { bg: CharColor::Black, fg: CharColor::White, ch: ch, x: x, y: y, dirty: true }
}

/// A cell after `set_char(ch)`.
pub open spec fn with_char(c: Cell, ch: char) -> Cell {
    if c.ch != ch {
        Cell { ch: ch, dirty: true, ..c }
    } else {
        c
    }
}

/// A cell after `set(ch, fg, bg)`.
pub open spec fn with_char_colors(c: Cell, ch: char, fg: CharColor, bg: CharColor) -> Cell {
    Cell {
        ch: ch,
        fg: fg,
        bg: bg,
        dirty: c.dirty || c.ch != ch || c.fg != fg || c.bg != bg,
        ..c
    }
}

impl Cell {
    /// A blank cell: white on black, at the origin, not yet drawn.
    pub fn new() -> (r: Cell)
        ensures
            r == fresh_cell(0, 0, ' '),
    {
        Cell { bg: CharColor::Black, fg: CharColor::White, ch: ' ', x: 0, y: 0, dirty: true }
    }

    /// Sets the char; the cell is dirty if the char changed.
    pub fn set_char(&mut self, ch: char)
        ensures
            *final(self) == with_char(*old(self), ch),
    {
        if self.ch != ch {
            self.dirty = true;
            self.ch = ch;
        }
    }

    /// Sets the char and colours; the cell is dirty if any of them changed.
    pub fn set(&mut self, ch: char, fg: CharColor, bg: CharColor)
        ensures
            *final(self) == with_char_colors(*old(self), ch, fg, bg),
    {
        if self.ch != ch || self.fg != fg || self.bg != bg {
            self.dirty = true;
        }
        self.ch = ch;
        self.fg = fg;
        self.bg = bg;
    }

    /// A grid of `height` rows of `width` fresh cells holding `ch`, each
    /// knowing its place.
    pub fn create_grid(width: usize, height: usize, ch: char) -> (rows: Vec<Vec<Cell>>)
        ensures
            grid_shape(rows@, width as int, height as int),
            forall|y: int, x: int|
                0 <= y < height && 0 <= x < width ==> #[trigger] rows@[y]@[x] == fresh_cell(
                    x as usize,
                    y as usize,
                    ch,
                ),
    {
        let mut rows: Vec<Vec<Cell>> = Vec::new();
        for voffset in 0..height
            invariant
                rows@.len() == voffset,
                forall|y: int| 0 <= y < voffset ==> (#[trigger] rows@[y])@.len() == width,
                forall|y: int, x: int|
                    0 <= y < voffset && 0 <= x < width ==> #[trigger] rows@[y]@[x] == fresh_cell(
                        x as usize,
                        y as usize,
                        ch,
                    ),
        {
            let mut cells: Vec<Cell> = Vec::new();
            for boffset in 0..width
                invariant
                    cells@.len() == boffset,
                    forall|x: int|
                        0 <= x < boffset ==> #[trigger] cells@[x] == fresh_cell(
                            x as usize,
                            voffset,
                            ch,
                        ),
            {
                let mut cell = Cell::new();
                cell.x = boffset;
                cell.y = voffset;
                cell.ch = ch;
                cells.push(cell);
            }
            rows.push(cells);
        }
        rows
    }
}

/// `rows` has `height` rows of `width` cells each.
pub open spec fn grid_shape(rows: Seq<Vec<Cell>>, width: int, height: int) -> bool {
    &&& rows.len() == height
    &&& forall|y: int| 0 <= y < height ==> (#[trigger] rows[y])@.len() == width
}

/// What drawing a cell sends to the frontend.
pub open spec fn drawn_of(c: Cell) -> DrawnChar {
    DrawnChar { offset: c.x, linenum: c.y, ch: c.ch, fg: c.fg, bg: c.bg, style: CharStyle::Normal }
}

/// What drawing a row sends to the frontend: its dirty cells, in order.
pub open spec fn row_draws(row: Seq<Cell>) -> Seq<DrawnChar>
    decreases row.len(),
{
    if row.len() == 0 {
        seq![]
    } else {
        let rest = row_draws(row.drop_last());
        if row.last().dirty {
            rest.push(drawn_of(row.last()))
        } else {
            rest
        }
    }
}

/// What drawing the rows from `start` up to `stop` sends to the frontend.
pub open spec fn grid_draws(rows: Seq<Vec<Cell>>, start: int, stop: int) -> Seq<DrawnChar>
    decreases stop - start,
{
    if stop <= start {
        seq![]
    } else {
        grid_draws(rows, start, stop - 1) + row_draws(rows[stop - 1]@)
    }
}

/// A row with every cell marked clean.
pub open spec fn cleaned(row: Seq<Cell>) -> Seq<Cell> {
    row.map_values(|c: Cell| Cell { dirty: false, ..c })
}

/// The grid of a screen. Row `y` holds the cells of line `y`, cell `x` of it
/// the cell at column `x`.
pub struct UIBuffer {
    pub width: usize,
    pub height: usize,
    pub rows: Vec<Vec<Cell>>,
}

impl UIBuffer {
    /// The grid has the buffer's width and height.
    pub open spec fn wf(&self) -> bool {
        grid_shape(self.rows@, self.width as int, self.height as int)
    }

    /// The cell at column `x` of line `y`.
    pub open spec fn cell(&self, x: int, y: int) -> Cell {
        self.rows@[y]@[x]
    }

    /// A grid of `width` by `height` blank cells, all still to be drawn.
    pub fn new(width: usize, height: usize) -> (r: UIBuffer)
        ensures
            r.wf(),
            r.width == width,
            r.height == height,
            forall|y: int, x: int|
                0 <= y < height && 0 <= x < width ==> #[trigger] r.cell(x, y) == fresh_cell(
                    x as usize,
                    y as usize,
                    ' ',
                ),
    {
        let rows = Cell::create_grid(width, height, ' ');
        UIBuffer { width: width, height: height, rows: rows }
    }

    /// Draws the dirty cells of the lines from `start` up to `stop`, line by
    /// line and left to right, and marks them clean.
    pub fn draw_range<T: Frontend>(&mut self, screen: &mut Screen<T>, start: usize, stop: usize)
        requires
            old(self).wf(),
            start <= stop <= old(self).height,
        ensures
            final(self).wf(),
            final(self).width == old(self).width,
            final(self).height == old(self).height,
            final(screen).drawn() == old(screen).drawn() + grid_draws(
                old(self).rows@,
                start as int,
                stop as int,
            ),
            forall|y: int|
                0 <= y < old(self).height ==> #[trigger] final(self).rows@[y]@ == (if start <= y
                    < stop {
                    cleaned(old(self).rows@[y]@)
                } else {
                    old(self).rows@[y]@
                }),
    {
        let ghost rows0 = self.rows@;
        let mut y: usize = start;
        while y < stop
            invariant
                start <= y <= stop <= self.height,
                self.width == old(self).width,
                self.height == old(self).height,
                rows0 == old(self).rows@,
                grid_shape(rows0, self.width as int, self.height as int),
                grid_shape(self.rows@, self.width as int, self.height as int),
                screen.drawn() == old(screen).drawn() + grid_draws(rows0, start as int, y as int),
                forall|j: int|
                    0 <= j < self.height ==> #[trigger] self.rows@[j]@ == (if start <= j < y {
                        cleaned(rows0[j]@)
                    } else {
                        rows0[j]@
                    }),
            decreases stop - y,
        {
            let ghost drawn_before = screen.drawn();
            let ghost row0 = rows0[y as int]@;
            let mut x: usize = 0;
            let w = self.rows[y].len();
            while x < w
                invariant
                    start <= y < stop <= self.height,
                    self.width == old(self).width,
                    self.height == old(self).height,
                    w == self.width,
                    x <= w,
                    row0 == rows0[y as int]@,
                    row0.len() == w,
                    grid_shape(rows0, self.width as int, self.height as int),
                    grid_shape(self.rows@, self.width as int, self.height as int),
                    screen.drawn() == drawn_before + row_draws(row0.take(x as int)),
                    self.rows@[y as int]@ == cleaned(row0.take(x as int)) + row0.skip(x as int),
                    forall|j: int|
                        0 <= j < self.height && j != y ==> #[trigger] self.rows@[j]@ == (if start
                            <= j < y {
                            cleaned(rows0[j]@)
                        } else {
                            rows0[j]@
                        }),
                decreases w - x,
            {
                proof {
                    assert(self.rows@[y as int]@[x as int] == row0[x as int]);
                }
                let cell = self.rows[y][x];
                if cell.dirty {
                    screen.draw_char(cell.x, cell.y, cell.ch, cell.fg, cell.bg, CharStyle::Normal);
                    self.rows[y][x].dirty = false;
                }
                proof {
                    assert(row0.take(x + 1).drop_last() =~= row0.take(x as int));
                    assert(row0.take(x + 1).last() == row0[x as int]);
                    assert(self.rows@[y as int]@ =~= cleaned(row0.take(x + 1)) + row0.skip(x + 1));
                }
                x = x + 1;
            }
            proof {
                assert(row0.take(w as int) =~= row0);
                assert(cleaned(row0.take(w as int)) + row0.skip(w as int) =~= cleaned(row0));
                assert(grid_draws(rows0, start as int, y + 1) == grid_draws(rows0, start as int, y as int)
                    + row_draws(row0));
                assert(screen.drawn() =~= old(screen).drawn() + grid_draws(
                    rows0,
                    start as int,
                    y + 1,
                ));
            }
            y = y + 1;
        }
    }

    /// Draws every dirty cell and marks it clean.
    pub fn draw_everything<T: Frontend>(&mut self, screen: &mut Screen<T>)
        requires
            old(self).wf(),
        ensures
            final(self).wf(),
            final(self).width == old(self).width,
            final(self).height == old(self).height,
            final(screen).drawn() == old(screen).drawn() + grid_draws(
                old(self).rows@,
                0,
                old(self).height as int,
            ),
            forall|y: int|
                0 <= y < old(self).height ==> #[trigger] final(self).rows@[y]@ == cleaned(
                    old(self).rows@[y]@,
                ),
    {
        let height = self.height;
        self.draw_range(screen, 0, height);
    }

    pub fn get_width(&self) -> (r: usize)
        ensures
            r == self.width,
    {
        self.width
    }

    pub fn get_height(&self) -> (r: usize)
        ensures
            r == self.height,
    {
        self.height
    }

    /// Set all cells to `ch`.
    pub fn fill(&mut self, ch: char)
        requires
            old(self).wf(),
        ensures
            final(self).wf(),
            final(self).width == old(self).width,
            final(self).height == old(self).height,
            forall|y: int, x: int|
                0 <= y < old(self).height && 0 <= x < old(self).width ==> #[trigger] final(self).cell(
                    x,
                    y,
                ) == with_char(old(self).cell(x, y), ch),
    {
        let height = self.height;
        let width = self.width;
        let mut row: usize = 0;
        while row < height
            invariant
                self.wf(),
                height == self.height,
                width == self.width,
                self.width == old(self).width,
                self.height == old(self).height,
                row <= height,
                forall|y: int, x: int|
                    0 <= y < self.height && 0 <= x < self.width ==> #[trigger] self.cell(x, y) == (if y
                        < row {
                        with_char(old(self).cell(x, y), ch)
                    } else {
                        old(self).cell(x, y)
                    }),
            decreases height - row,
        {
            let mut col: usize = 0;
            while col < width
                invariant
                    row < self.height,
                    height == self.height,
                    width == self.width,
                    col <= width,
                    self.wf(),
                    self.width == old(self).width,
                    self.height == old(self).height,
                    forall|y: int, x: int|
                        0 <= y < self.height && 0 <= x < self.width ==> #[trigger] self.cell(x, y)
                            == (if y < row || (y == row && x < col) {
                            with_char(old(self).cell(x, y), ch)
                        } else {
                            old(self).cell(x, y)
                        }),
                decreases width - col,
            {
                self.update_cell_content(col, row, ch);
                col = col + 1;
            }
            row = row + 1;
        }
    }

    /// Writes a status bar, black on blue, on line `row`: the chars of `text`
    /// from the left edge, then blanks from column `blank_from` up to column
    /// `width`.
    pub fn draw_status_bar(&mut self, text: &[char], blank_from: usize, row: usize, width: usize)
        requires
            old(self).wf(),
            row < old(self).height,
            text@.len() <= old(self).width,
            width <= old(self).width,
            text@.len() <= blank_from,
        ensures
            final(self).wf(),
            final(self).width == old(self).width,
            final(self).height == old(self).height,
            forall|y: int, x: int|
                0 <= y < old(self).height && 0 <= x < old(self).width ==> #[trigger] final(self).cell(
                    x,
                    y,
                ) == (if y == row && x < text@.len() {
                    with_char_colors(old(self).cell(x, y), text@[x], CharColor::Black, CharColor::Blue)
                } else if y == row && blank_from <= x < width {
                    with_char_colors(old(self).cell(x, y), ' ', CharColor::Black, CharColor::Blue)
                } else {
                    old(self).cell(x, y)
                }),
    {
        let mut index: usize = 0;
        while index < text.len()
            invariant
                self.wf(),
                self.width == old(self).width,
                self.height == old(self).height,
                row < self.height,
                text@.len() <= self.width,
                index <= text@.len(),
                forall|y: int, x: int|
                    0 <= y < self.height && 0 <= x < self.width ==> #[trigger] self.cell(x, y) == (if y
                        == row && x < index {
                        with_char_colors(old(self).cell(x, y), text@[x], CharColor::Black, CharColor::Blue)
                    } else {
                        old(self).cell(x, y)
                    }),
            decreases text@.len() - index,
        {
            self.update_cell(index, row, text[index], CharColor::Black, CharColor::Blue);
            index = index + 1;
        }
        let mut index: usize = blank_from;
        while index < width
            invariant
                self.wf(),
                self.width == old(self).width,
                self.height == old(self).height,
                row < self.height,
                width <= self.width,
                text@.len() <= blank_from,
                blank_from <= index,
                index <= width || index == blank_from,
                forall|y: int, x: int|
                    0 <= y < self.height && 0 <= x < self.width ==> #[trigger] self.cell(x, y) == (if y
                        == row && x < text@.len() {
                        with_char_colors(old(self).cell(x, y), text@[x], CharColor::Black, CharColor::Blue)
                    } else if y == row && blank_from <= x < index {
                        with_char_colors(old(self).cell(x, y), ' ', CharColor::Black, CharColor::Blue)
                    } else {
                        old(self).cell(x, y)
                    }),
            decreases width - index,
        {
            self.update_cell(index, row, ' ', CharColor::Black, CharColor::Blue);
            index = index + 1;
        }
    }

    /// Update the `ch` attribute of an individual cell
    pub fn update_cell_content(&mut self, cell_num: usize, row_num: usize, ch: char)
        requires
            old(self).wf(),
            row_num < old(self).height,
            cell_num < old(self).width,
        ensures
            final(self).wf(),
            final(self).width == old(self).width,
            final(self).height == old(self).height,
            forall|y: int, x: int|
                0 <= y < old(self).height && 0 <= x < old(self).width ==> #[trigger] final(self).cell(
                    x,
                    y,
                ) == (if x == cell_num && y == row_num {
                    with_char(old(self).cell(x, y), ch)
                } else {
                    old(self).cell(x, y)
                }),
    {
        self.rows[row_num][cell_num].set_char(ch);
    }

    /// Update the `ch`, `fg`, and `bg` attributes of an indivudual cell
    pub fn update_cell(&mut self, cell_num: usize, row_num: usize, ch: char, fg: CharColor, bg: CharColor)
        requires
            old(self).wf(),
            row_num < old(self).height,
            cell_num < old(self).width,
        ensures
            final(self).wf(),
            final(self).width == old(self).width,
            final(self).height == old(self).height,
            forall|y: int, x: int|
                0 <= y < old(self).height && 0 <= x < old(self).width ==> #[trigger] final(self).cell(
                    x,
                    y,
                ) == (if x == cell_num && y == row_num {
                    with_char_colors(old(self).cell(x, y), ch, fg, bg)
                } else {
                    old(self).cell(x, y)
                }),
    {
        self.get_cell_mut(cell_num, row_num).set(ch, fg, bg);
    }

    /// The cell at column `cell_num` of line `row_num`, to change.
    pub fn get_cell_mut(&mut self, cell_num: usize, row_num: usize) -> (r: &mut Cell)
        requires
            old(self).wf(),
            row_num < old(self).height,
            cell_num < old(self).width,
        ensures
            *r == old(self).cell(cell_num as int, row_num as int),
            final(self).width == old(self).width,
            final(self).height == old(self).height,
            final(self).rows@ == old(self).rows@.update(
                row_num as int,
                final(self).rows@[row_num as int],
            ),
            final(self).rows@[row_num as int]@ == old(self).rows@[row_num as int]@.update(
                cell_num as int,
                *final(r),
            ),
    {
        &mut self.rows[row_num][cell_num]
    }
}

} // verus!
