//! A rectangular grid of cells, used both for the playing field and for the
//! shape of a piece.
use vstd::prelude::*;
use crate::units::Size;

verus! {

/// The tint of an occupied cell; it is cosmetic and plays no part in the rules.
#[derive(Debug, Clone, Copy, PartialEq, Eq, Structural)]
pub enum Color {
    Cyan,
    Blue,
    LightMagenta,
    Yellow,
    Green,
    Magenta,
    Red,
}

/// A cell of a grid: `None` is empty, `Some(c)` is occupied.
pub type Cell = Option<Color>;

/// The width of a grid of rows: the length of its first row, or zero.
pub open spec fn grid_width(g: Seq<Seq<Cell>>) -> int {
    if g.len() == 0 {
        0
    } else {
        g[0].len() as int
    }
}

/// Every row of `g` has the same length.
pub open spec fn is_rect(g: Seq<Seq<Cell>>) -> bool {
    forall|i: int| 0 <= i < g.len() ==> #[trigger] g[i].len() == grid_width(g)
}

/// A rectangular grid whose dimensions fit a `u16`.
pub open spec fn grid_ok(g: Seq<Seq<Cell>>) -> bool {
    &&& is_rect(g)
    &&& g.len() <= u16::MAX
    &&& grid_width(g) <= u16::MAX
}

/// Every cell of the row is occupied.
pub open spec fn row_full(row: Seq<Cell>) -> bool {
    forall|x: int| 0 <= x < row.len() ==> (#[trigger] row[x]) is Some
}

/// A row of `w` empty cells.
pub open spec fn empty_row(w: int) -> Seq<Cell> {
    Seq::new(w as nat, |_x: int| None)
}

/// A grid of `h` rows of `w` empty cells each.
pub open spec fn empty_grid(w: int, h: int) -> Seq<Seq<Cell>> {
    Seq::new(h as nat, |_y: int| empty_row(w))
}

/// The grid turned a quarter clockwise: row `i` of the result, read left to
/// right, is column `i` of `g` read bottom to top.
pub open spec fn rotated(g: Seq<Seq<Cell>>) -> Seq<Seq<Cell>> {
    Seq::new(
        grid_width(g) as nat,
        |i: int| Seq::new(g.len(), |j: int| g[g.len() - 1 - j][i]),
    )
}

/// Row `y` dropped and an empty row of the same width put on top.
pub open spec fn removed_row(g: Seq<Seq<Cell>>, y: int) -> Seq<Seq<Cell>> {
    seq![empty_row(grid_width(g))] + g.remove(y)
}

/// A rectangular grid of cells, indexed by column `x` and row `y`.
#[derive(Debug, Clone)]
pub struct Buffer {
    cells: Vec<Vec<Cell>>,
}

impl View for Buffer {
    type V = Seq<Seq<Cell>>;

    closed spec fn view(&self) -> Seq<Seq<Cell>> {
        self.cells@.map_values(|row: Vec<Cell>| row@)
    }
}

impl Buffer {
    /// The buffer is rectangular and its dimensions fit a `u16`.
    pub open spec fn wf(&self) -> bool {
        grid_ok(self@)
    }

    pub fn size(&self) -> (r: Size)
        requires
            self.wf(),
        ensures
            r.width == grid_width(self@),
            r.height == self@.len(),
    {
        Size::new(self.width(), self.height())
    }

    pub fn height(&self) -> (r: u16)
        requires
            self.wf(),
        ensures
            r == self@.len(),
    {
        self.cells.len() as u16
    }

    pub fn width(&self) -> (r: u16)
        requires
            self.wf(),
        ensures
            r == grid_width(self@),
    {
        if self.cells.len() > 0 {
            self.cells[0].len() as u16
        } else {
            0
        }
    }

    pub fn set(&mut self, x: u16, y: u16, val: Cell)
        requires
            old(self).wf(),
            (y as int) < old(self)@.len(),
            (x as int) < grid_width(old(self)@),
        ensures
            final(self).wf(),
            final(self)@ == old(self)@.update(y as int, old(self)@[y as int].update(x as int, val)),
    {
        proof {
            assert(self.cells@[y as int]@ == self@[y as int]);
            assert(self@[0].len() == grid_width(self@));
        }
        self.cells[y as usize][x as usize] = val;
        proof {
            assert(self@ =~= old(self)@.update(y as int, old(self)@[y as int].update(x as int, val)));
        }
    }

    pub fn get(&self, x: u16, y: u16) -> (r: Cell)
        requires
            self.wf(),
            (y as int) < self@.len(),
            (x as int) < grid_width(self@),
        ensures
            r == self@[y as int][x as int],
    {
        proof {
            assert(self.cells@[y as int]@ == self@[y as int]);
        }
        self.cells[y as usize][x as usize]
    }

    pub fn new(size: Size) -> (r: Buffer)
        ensures
            r.wf(),
            r@ == empty_grid(size.width as int, size.height as int),
    {
        let mut cells: Vec<Vec<Cell>> = Vec::new();
        let mut y: u16 = 0;
        while y < size.height
            invariant
                y <= size.height,
                cells@.len() == y,
                forall|i: int| 0 <= i < y ==> (#[trigger] cells@[i])@ == empty_row(size.width as int),
            decreases size.height - y,
        {
            let row = Buffer::blank_row(size.width);
            cells.push(row);
            y = y + 1;
        }
        let r = Buffer { cells };
        assert(r@ =~= empty_grid(size.width as int, size.height as int));
        r
    }

    fn blank_row(width: u16) -> (r: Vec<Cell>)
        ensures
            r@ == empty_row(width as int),
    {
        let mut row: Vec<Cell> = Vec::new();
        let mut x: u16 = 0;
        while x < width
            invariant
                x <= width,
                row@ =~= empty_row(x as int),
            decreases width - x,
        {
            row.push(None);
            x = x + 1;
        }
        row
    }

    pub fn from_vecs(cells: Vec<Vec<Cell>>) -> (r: Buffer)
        requires
            grid_ok(cells@.map_values(|row: Vec<Cell>| row@)),
        ensures
            r@ == cells@.map_values(|row: Vec<Cell>| row@),
    {
        Buffer { cells }
    }

    /// A new buffer holding this one turned a quarter clockwise; this one is
    /// left as it is.
    pub fn rotate_right(&mut self) -> (r: Buffer)
        requires
            old(self).wf(),
        ensures
            *final(self) == *old(self),
            r.wf(),
            r@ == rotated(old(self)@),
    {
        let h = self.height();
        let w = self.width();
        let mut cells: Vec<Vec<Cell>> = Vec::new();
        let mut x: u16 = 0;
        while x < w
            invariant
                self.wf(),
                *self == *old(self),
                h as int == self@.len(),
                w as int == grid_width(self@),
                x <= w,
                cells@.len() == x,
                forall|i: int| 0 <= i < x ==> (#[trigger] cells@[i])@ == rotated(self@)[i],
            decreases w - x,
        {
            let mut row: Vec<Cell> = Vec::new();
            let mut j: u16 = 0;
            while j < h
                invariant
                    self.wf(),
                    *self == *old(self),
                    h as int == self@.len(),
                    w as int == grid_width(self@),
                    x < w,
                    j <= h,
                    row@.len() == j,
                    forall|k: int| 0 <= k < j ==> #[trigger] row@[k] == self@[h - 1 - k][x as int],
                decreases h - j,
            {
                proof {
                    assert(self@[h - 1 - j].len() == grid_width(self@));
                }
                row.push(self.get(x, h - 1 - j));
                j = j + 1;
            }
            assert(row@ =~= rotated(self@)[x as int]);
            cells.push(row);
            x = x + 1;
        }
        let r = Buffer { cells };
        assert(r@ =~= rotated(self@));
        r
    }

    /// Whether every cell of row `y` is occupied.
    pub fn line_full(&self, y: u16) -> (r: bool)
        requires
            self.wf(),
            (y as int) < self@.len(),
        ensures
            r == row_full(self@[y as int]),
    {
        let w = self.width();
        assert(self@[y as int].len() == grid_width(self@));
        let mut x: u16 = 0;
        while x < w
            invariant
                self.wf(),
                (y as int) < self@.len(),
                w as int == grid_width(self@),
                self@[y as int].len() == w,
                x <= w,
                forall|k: int| 0 <= k < x ==> (#[trigger] self@[y as int][k]) is Some,
            decreases w - x,
        {
            if self.get(x, y).is_none() {
                return false;
            }
            x = x + 1;
        }
        true
    }

    /// Drops row `y` and puts an empty row on top, so that the rows above `y`
    /// move down by one.
    pub fn remove_and_prepend_empty_row(&mut self, y: u16)
        requires
            old(self).wf(),
            (y as int) < old(self)@.len(),
        ensures
            final(self).wf(),
            final(self)@ == removed_row(old(self)@, y as int),
    {
        let w = self.width();
        let _gone = self.cells.remove(y as usize);
        let row = Buffer::blank_row(w);
        self.cells.insert(0, row);
        proof {
            assert(self@ =~= removed_row(old(self)@, y as int));
            lemma_removed_row_shape(old(self)@, y as int);
        }
    }
}

/// Dimensions of a grid turned a quarter.
pub proof fn lemma_rotated_shape(g: Seq<Seq<Cell>>)
    requires
        is_rect(g),
    ensures
        is_rect(rotated(g)),
        rotated(g).len() == grid_width(g),
        grid_width(g) > 0 ==> grid_width(rotated(g)) == g.len(),
{
}

/// A grid turned twice is the grid read backwards along both axes.
proof fn lemma_half_turn(g: Seq<Seq<Cell>>)
    requires
        is_rect(g),
        grid_width(g) > 0,
        g.len() > 0,
    ensures
        rotated(rotated(g)) == Seq::new(
            g.len(),
            |i: int| Seq::new(grid_width(g) as nat, |j: int| g[g.len() - 1 - i][grid_width(g) - 1 - j]),
        ),
{
    lemma_rotated_shape(g);
    let r1 = rotated(g);
    let r2 = rotated(r1);
    let e = Seq::new(
        g.len(),
        |i: int| Seq::new(grid_width(g) as nat, |j: int| g[g.len() - 1 - i][grid_width(g) - 1 - j]),
    );
    assert forall|i: int| 0 <= i < g.len() implies #[trigger] r2[i] =~= e[i] by {
        assert(r1[0].len() == g.len());
    }
    assert(r2 =~= e);
}

/// Turning a buffer a quarter clockwise four times gives back the buffer
/// itself: the same dimensions and the same cells. A buffer of rows with no
/// columns is the exception, since a turn of it has no rows at all.
pub proof fn lemma_rotate_four_times(b: Buffer)
    requires
        b.wf(),
        grid_width(b@) > 0 || b@.len() == 0,
    ensures
        rotated(rotated(rotated(rotated(b@)))) == b@,
{
    let g = b@;
    if g.len() == 0 {
        assert(rotated(g) =~= g);
    } else {
        lemma_half_turn(g);
        lemma_rotated_shape(g);
        lemma_rotated_shape(rotated(g));
        let g2 = rotated(rotated(g));
        assert(g2[0].len() == grid_width(g));
        lemma_half_turn(g2);
        assert forall|i: int| 0 <= i < g.len() implies #[trigger] rotated(rotated(g2))[i] =~= g[i] by {
            assert(g[i].len() == grid_width(g));
        }
        assert(rotated(rotated(g2)) =~= g);
    }
}

/// Removing a row keeps the number of rows and the width; row 0 is then
/// empty, the rows above the removed one sit one lower, and those below it
/// stay where they were.
pub proof fn lemma_removed_row_shape(g: Seq<Seq<Cell>>, y: int)
    requires
        grid_ok(g),
        0 <= y < g.len(),
    ensures
        grid_ok(removed_row(g, y)),
        removed_row(g, y).len() == g.len(),
        grid_width(removed_row(g, y)) == grid_width(g),
        removed_row(g, y)[0] == empty_row(grid_width(g)),
        row_full(removed_row(g, y)[0]) <==> grid_width(g) == 0,
        forall|i: int| 1 <= i <= y ==> #[trigger] removed_row(g, y)[i] == g[i - 1],
        forall|i: int| y < i < g.len() ==> #[trigger] removed_row(g, y)[i] == g[i],
{
    let r = removed_row(g, y);
    assert(r[0] == empty_row(grid_width(g)));
    assert forall|i: int| 0 <= i < r.len() implies #[trigger] r[i].len() == grid_width(r) by {
        if i > 0 {
            assert(r[i] == g.remove(y)[i - 1]);
        }
    }
    if grid_width(g) > 0 {
        assert(!(r[0][0] is Some));
    }
}

/// A row with one empty cell is not full, whatever its other cells hold.
pub proof fn lemma_empty_cell_breaks_row(b: Buffer, x: int, y: int)
    requires
        b.wf(),
        0 <= y < b@.len(),
        0 <= x < grid_width(b@),
    ensures
        !row_full(b@.update(y, b@[y].update(x, None))[y]),
{
    let row = b@[y].update(x, None);
    assert(b@[y].len() == grid_width(b@));
    assert(b@.update(y, row)[y] == row);
    assert(!(row[x] is Some));
}

} // verus!
