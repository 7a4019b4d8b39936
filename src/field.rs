use vstd::prelude::*;

use crate::coord::Coord;
use crate::text::chars_of;

verus! {

/// A grid position: (column, row).
pub type Cell = (Coord, Coord);

/// The cell at column `x` and row `y`.
pub open spec fn cell_at(x: int, y: int) -> Cell {
    (Coord(x as u32), Coord(y as u32))
}

#[derive(Copy, Clone, Debug, PartialEq, Eq, Structural)]
pub enum CellType {
    WALL,
    EMPTY,
}

/// How a level character classifies: only `-` is a wall.
pub open spec fn classify(c: char) -> CellType {
    if c == '-' {
        CellType::WALL
    } else {
        CellType::EMPTY
    }
}

/// The rows of a level text, split at each `'\n'` (a trailing `'\n'` ends
/// with an empty row; the empty text is one empty row).
pub open spec fn lines_of(s: Seq<char>) -> Seq<Seq<char>>
    decreases s.len(),
{
    if s.len() == 0 {
        seq![Seq::empty()]
    } else {
        let p = lines_of(s.drop_last());
        if s.last() == '\n' {
            p.push(Seq::empty())
        } else {
            p.update(p.len() - 1, p.last().push(s.last()))
        }
    }
}

/// Where the character that follows the text `s` stands: (column, row).
pub open spec fn scan_pos(s: Seq<char>) -> (int, int) {
    let l = lines_of(s);
    (l.last().len() as int, l.len() - 1)
}

/// The length of the longest row.
pub open spec fn max_len(rows: Seq<Seq<char>>) -> nat
    decreases rows.len(),
{
    if rows.len() == 0 {
        0
    } else {
        let m = max_len(rows.drop_last());
        if rows.last().len() > m {
            rows.last().len()
        } else {
            m
        }
    }
}

/// The cell types of a level text, row by row.
pub open spec fn grid_of(s: Seq<char>) -> Seq<Seq<CellType>> {
    lines_of(s).map_values(|l: Seq<char>| l.map_values(|c: char| classify(c)))
}

/// The type of cell (`x`, `y`): a stored cell's type, `EMPTY` everywhere else.
pub open spec fn type_at(rows: Seq<Seq<CellType>>, x: int, y: int) -> CellType {
    if 0 <= y < rows.len() && 0 <= x < rows[y].len() {
        rows[y][x]
    } else {
        CellType::EMPTY
    }
}

/// The `EMPTY` cells of row `y` among its first `n` columns, left to right.
pub open spec fn empty_in_row(rows: Seq<Seq<CellType>>, y: int, n: int) -> Seq<Cell>
    decreases n,
{
    if n <= 0 {
        Seq::empty()
    } else {
        let p = empty_in_row(rows, y, n - 1);
        if type_at(rows, n - 1, y) == CellType::EMPTY {
            p.push(cell_at(n - 1, y))
        } else {
            p
        }
    }
}

/// The `EMPTY` cells of a `width` x `h` area, in row-major order.
pub open spec fn empty_cells_of(rows: Seq<Seq<CellType>>, width: int, h: int) -> Seq<Cell>
    decreases h,
{
    if h <= 0 {
        Seq::empty()
    } else {
        empty_cells_of(rows, width, h - 1) + empty_in_row(rows, h - 1, width)
    }
}

pub proof fn lemma_lines_nonempty(s: Seq<char>)
    ensures
        lines_of(s).len() >= 1,
        lines_of(s).len() <= s.len() + 1,
    decreases s.len(),
{
    if s.len() > 0 {
        lemma_lines_nonempty(s.drop_last());
    }
}

/// Once read, a character keeps its place in the rows of every longer prefix.
proof fn lemma_char_stays(s: Seq<char>, i: int, j: int)
    requires
        0 <= i < j <= s.len(),
        s[i] != '\n',
    ensures
        ({
            let (x, y) = scan_pos(s.take(i));
            let l = lines_of(s.take(j));
            0 <= y < l.len() && 0 <= x < l[y].len() && l[y][x] == s[i]
        }),
    decreases j - i,
{
    let t = s.take(j);
    assert(t.drop_last() =~= s.take(j - 1));
    lemma_lines_nonempty(s.take(j - 1));
    lemma_lines_nonempty(s.take(i));
    if j > i + 1 {
        lemma_char_stays(s, i, j - 1);
    }
}

/// Every character of a level (but the row breaks) stands in the grid at the
/// place where the row-major scan meets it, and classifies there as a wall
/// exactly when it is `-`.
pub proof fn lemma_grid_classifies(s: Seq<char>, i: int)
    requires
        0 <= i < s.len(),
        s[i] != '\n',
    ensures
        ({
            let (x, y) = scan_pos(s.take(i));
            &&& 0 <= y < lines_of(s).len()
            &&& 0 <= x < lines_of(s)[y].len()
            &&& type_at(grid_of(s), x, y) == classify(s[i])
        }),
{
    lemma_char_stays(s, i, s.len() as int);
    assert(s.take(s.len() as int) =~= s);
}

/// A level's grid of cell types.
pub struct Field {
    field: Vec<Vec<CellType>>,
    width: u32,
    height: u32,
}

impl Field {
    /// The stored cell types, row by row.
    pub closed spec fn rows(&self) -> Seq<Seq<CellType>> {
        self.field@.map_values(|r: Vec<CellType>| r@)
    }

    pub closed spec fn spec_width(&self) -> nat {
        self.width as nat
    }

    pub closed spec fn spec_height(&self) -> nat {
        self.height as nat
    }

    /// One stored row per unit of height, none longer than the width.
    pub open spec fn wf(&self) -> bool {
        &&& self.rows().len() == self.spec_height()
        &&& forall|y: int| 0 <= y < self.rows().len() ==> #[trigger] self.rows()[y].len() <= self.spec_width()
    }

    /// A field with no rows.
    fn new() -> (r: Field)
        ensures
            r.wf(),
            r.rows().len() == 0,
            r.spec_width() == 0,
    {
        Field { field: Vec::new(), width: 0, height: 0 }
    }

    /// Inserts a cell of type `cell_type` at `cell` = (column, row): into
    /// an existing row at that column, later cells of the row moving one
    /// column on, or as the first cell of the row that follows the last.
    pub fn insert_cell(&mut self, cell: Cell, cell_type: CellType)
        requires
            old(self).wf(),
            cell.1.0 <= old(self).rows().len(),
            cell.1.0 < old(self).rows().len() ==> cell.0.0 <= old(self).rows()[cell.1.0 as int].len(),
            cell.1.0 == old(self).rows().len() ==> cell.0.0 == 0,
            old(self).spec_width() < u32::MAX,
            old(self).spec_height() < u32::MAX,
        ensures
            final(self).wf(),
            final(self).rows() == if cell.1.0 == old(self).rows().len() {
                old(self).rows().push(seq![cell_type])
            } else {
                old(self).rows().update(
                    cell.1.0 as int,
                    old(self).rows()[cell.1.0 as int].insert(cell.0.0 as int, cell_type),
                )
            },
            final(self).spec_width() == if final(self).rows()[cell.1.0 as int].len() > old(self).spec_width() {
                final(self).rows()[cell.1.0 as int].len()
            } else {
                old(self).spec_width()
            },
    {
        let x = cell.0.index();
        let y = cell.1.index();
        let ghost rows0 = self.rows();
        let len: usize;
        if y == self.field.len() {
            let mut row: Vec<CellType> = Vec::new();
            row.push(cell_type);
            self.field.push(row);
            self.height = self.height + 1;
            len = 1;
            proof {
                assert(self.rows() =~= rows0.push(seq![cell_type]));
            }
        } else {
            let mut row = self.field.remove(y);
            row.insert(x, cell_type);
            len = row.len();
            self.field.insert(y, row);
            proof {
                assert(self.rows() =~= rows0.update(y as int, rows0[y as int].insert(x as int, cell_type)));
            }
        }
        if len as u32 > self.width {
            self.width = len as u32;
        }
    }

    /// Parses a level text: one row per line, `-` a wall, any other
    /// character empty floor.
    pub fn load_from_file(level: &str) -> (r: Field)
        requires
            level@.len() < u32::MAX,
        ensures
            r.wf(),
            r.rows() == grid_of(level@),
            r.spec_height() == lines_of(level@).len(),
            r.spec_width() == max_len(lines_of(level@)),
    {
        let cs = chars_of(level);
        let ghost s = level@;
        let mut rows: Vec<Vec<CellType>> = Vec::new();
        let mut row: Vec<CellType> = Vec::new();
        let mut width: u32 = 0;
        let mut i: usize = 0;
        proof {
            let l = lines_of(s.take(0));
            assert(s.take(0) =~= Seq::<char>::empty());
            assert(l == seq![Seq::<char>::empty()]);
            assert(l.drop_last() =~= Seq::<Seq<char>>::empty());
            assert(max_len(l.drop_last()) == 0);
            assert(max_len(l) == 0);
            assert(row@ =~= l.last().map_values(|c: char| classify(c)));
        }
        while i < cs.len()
            invariant
                cs@ == s,
                s.len() < u32::MAX,
                0 <= i <= s.len(),
                ({
                    let l = lines_of(s.take(i as int));
                    &&& rows@.len() + 1 == l.len()
                    &&& forall|y: int| 0 <= y < rows@.len() ==> #[trigger] rows@[y]@ == l[y].map_values(|c: char| classify(c))
                    &&& row@ == l.last().map_values(|c: char| classify(c))
                    &&& width == max_len(l)
                }),
                rows@.len() <= i,
                row@.len() <= i,
                width <= i,
                forall|y: int| 0 <= y < rows@.len() ==> #[trigger] rows@[y]@.len() <= width,
                row@.len() <= width,
            decreases s.len() - i,
        {
            let ghost l0 = lines_of(s.take(i as int));
            proof {
                assert(s.take(i + 1).drop_last() =~= s.take(i as int));
                lemma_lines_nonempty(s.take(i as int));
            }
            let c = cs[i];
            if c == '\n' {
                rows.push(row);
                row = Vec::new();
                proof {
                    let l = lines_of(s.take(i + 1));
                    assert(l == l0.push(Seq::empty()));
                    assert(l.drop_last() =~= l0);
                    assert(row@ =~= l.last().map_values(|c: char| classify(c)));
                    assert forall|y: int| 0 <= y < rows@.len() implies #[trigger] rows@[y]@ == l[y].map_values(|c: char| classify(c)) by {
                        if y == rows@.len() - 1 {
                            assert(l[y] == l0.last());
                        }
                    }
                }
            } else {
                row.push(classify_char(c));
                if row.len() as u32 > width {
                    width = row.len() as u32;
                }
                proof {
                    let l = lines_of(s.take(i + 1));
                    assert(l == l0.update(l0.len() - 1, l0.last().push(c)));
                    assert(l.drop_last() =~= l0.drop_last());
                    assert(row@ =~= l.last().map_values(|c: char| classify(c)));
                    assert forall|y: int| 0 <= y < rows@.len() implies #[trigger] rows@[y]@ == l[y].map_values(|c: char| classify(c)) by {
                        assert(l[y] == l0[y]);
                    }
                }
            }
            i = i + 1;
        }
        let ghost l = lines_of(s);
        proof {
            assert(s.take(s.len() as int) =~= s);
        }
        let height = rows.len() as u32 + 1;
        rows.push(row);
        let r = Field { field: rows, width, height };
        proof {
            assert(r.rows() =~= grid_of(s)) by {
                assert forall|y: int| 0 <= y < l.len() implies #[trigger] r.rows()[y] == grid_of(s)[y] by {}
            }
        }
        r
    }

    /// The type of a cell; cells outside the stored rows are `EMPTY`.
    pub fn get_cell_type(&self, cell: &Cell) -> (r: CellType)
        ensures
            r == type_at(self.rows(), cell.0.0 as int, cell.1.0 as int),
    {
        let y = cell.1.index();
        let x = cell.0.index();
        if y < self.field.len() && x < self.field[y].len() {
            self.field[y][x]
        } else {
            CellType::EMPTY
        }
    }

    pub fn width(&self) -> (r: u32)
        ensures
            r == self.spec_width(),
    {
        self.width
    }

    pub fn height(&self) -> (r: u32)
        ensures
            r == self.spec_height(),
    {
        self.height
    }

    /// Every `EMPTY` cell within width and height, in row-major order.
    pub fn get_empty_cells(&self) -> (r: Vec<Cell>)
        ensures
            r@ == empty_cells_of(self.rows(), self.spec_width() as int, self.spec_height() as int),
    {
        let mut r: Vec<Cell> = Vec::new();
        let mut y: u32 = 0;
        while y < self.height
            invariant
                y <= self.height,
                r@ == empty_cells_of(self.rows(), self.width as int, y as int),
            decreases self.height - y,
        {
            let mut x: u32 = 0;
            while x < self.width
                invariant
                    y < self.height,
                    x <= self.width,
                    r@ == empty_cells_of(self.rows(), self.width as int, y as int) + empty_in_row(self.rows(), y as int, x as int),
                decreases self.width - x,
            {
                let cell: Cell = (Coord::new(x), Coord::new(y));
                if self.get_cell_type(&cell) == CellType::EMPTY {
                    r.push(cell);
                    proof {
                        assert(empty_cells_of(self.rows(), self.width as int, y as int) + empty_in_row(self.rows(), y as int, x + 1)
                            =~= (empty_cells_of(self.rows(), self.width as int, y as int) + empty_in_row(self.rows(), y as int, x as int)).push(cell));
                    }
                }
                x = x + 1;
            }
            y = y + 1;
        }
        r
    }
}

/// The cell type of one level character.
fn classify_char(c: char) -> (r: CellType)
    ensures
        r == classify(c),
{
    if c == '-' {
        CellType::WALL
    } else {
        CellType::EMPTY
    }
}

} // verus!
