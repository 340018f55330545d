//! The grid and its rule.

use vstd::prelude::*;
use vstd::string::StringExecFns;

verus! {

/// A rectangular part of a grid.
#[derive(Debug)]
pub struct Sector {
    pub x: usize,
    pub y: usize,
    pub width: usize,
    pub height: usize,
}

impl Sector {
    pub fn new(x: usize, y: usize, width: usize, height: usize) -> (s: Sector)
        ensures
            s.x == x,
            s.y == y,
            s.width == width,
            s.height == height,
    {
        Sector { x, y, width, height }
    }

    /// The sector lies inside a grid of the given size.
    pub open spec fn fits(&self, width: usize, height: usize) -> bool {
        self.x + self.width <= width && self.y + self.height <= height
    }

    /// The sector covers the cell at (`x`, `y`).
    pub open spec fn covers(&self, x: int, y: int) -> bool {
        self.x <= x < self.x + self.width && self.y <= y < self.y + self.height
    }
}

/// A grid of cells, each dead or alive, stored row by row.
pub struct World {
    pub width: usize,
    pub height: usize,
    pub data: Vec<bool>,
}

/// One for a living cell, zero for a dead one.
pub open spec fn count(alive: bool) -> int {
    if alive {
        1
    } else {
        0
    }
}

/// Row `y` of a grid `width` wide and `height` high lies inside its storage.
proof fn lemma_index_in_bounds(x: int, y: int, width: int, height: int)
    requires
        0 <= x < width,
        0 <= y < height,
    ensures
        0 <= y * width + x < width * height,
{
    assert(y * width + x < (y + 1) * width) by (nonlinear_arith)
        requires
            x < width,
    ;
    assert((y + 1) * width <= height * width) by (nonlinear_arith)
        requires
            y + 1 <= height,
            0 <= width,
    ;
    assert(0 <= y * width) by (nonlinear_arith)
        requires
            0 <= y,
            0 <= width,
    ;
    assert(height * width == width * height) by (nonlinear_arith);
}

impl World {
    /// The storage holds one cell for each place of the grid.
    pub open spec fn wf(&self) -> bool {
        self.data@.len() == self.width * self.height && self.width * self.height <= usize::MAX
    }

    /// The cell at (`x`, `y`). Meaningful inside the grid only.
    pub open spec fn cell(&self, x: int, y: int) -> bool {
        self.data@[y * self.width + x]
    }

    /// The cell at (`x`, `y`) lies inside the grid and is alive.
    pub open spec fn alive(&self, x: int, y: int) -> bool {
        0 <= x < self.width && 0 <= y < self.height && self.cell(x, y)
    }

    /// The number of living cells among the eight around (`x`, `y`). Places
    /// outside the grid count as dead.
    pub open spec fn neighbors(&self, x: int, y: int) -> int {
        count(self.alive(x, y - 1)) + count(self.alive(x + 1, y - 1)) + count(
            self.alive(x + 1, y),
        ) + count(self.alive(x + 1, y + 1)) + count(self.alive(x, y + 1)) + count(
            self.alive(x - 1, y + 1),
        ) + count(self.alive(x - 1, y)) + count(self.alive(x - 1, y - 1))
    }

    /// The cell at (`x`, `y`) one generation on: a living cell stays alive
    /// with two or three living neighbours, a dead one comes alive with
    /// exactly three.
    pub open spec fn next_cell(&self, x: int, y: int) -> bool {
        let n = self.neighbors(x, y);
        if self.cell(x, y) {
            n == 2 || n == 3
        } else {
            n == 3
        }
    }

    /// A grid of dead cells.
    pub fn new(width: usize, height: usize) -> (w: World)
        requires
            width * height <= usize::MAX,
        ensures
            w.wf(),
            w.width == width,
            w.height == height,
            forall|x: int, y: int| 0 <= x < width && 0 <= y < height ==> !#[trigger] w.cell(x, y),
    {
        let data = vec![false; width * height];
        let w = World { width, height, data };
        assert forall|x: int, y: int| 0 <= x < width && 0 <= y < height implies !#[trigger] w.cell(
            x,
            y,
        ) by {
            lemma_index_in_bounds(x, y, width as int, height as int);
        }
        w
    }

    pub fn get(&self, x: usize, y: usize) -> (cell: bool)
        requires
            self.wf(),
            x < self.width,
            y < self.height,
        ensures
            cell == self.cell(x as int, y as int),
    {
        self.assert_in_bounds(x, y);
        proof {
            lemma_index_in_bounds(x as int, y as int, self.width as int, self.height as int);
        }
        self.data[y * self.width + x]
    }

    pub fn set(&mut self, x: usize, y: usize, cell: bool)
        requires
            old(self).wf(),
            x < old(self).width,
            y < old(self).height,
        ensures
            final(self).wf(),
            final(self).width == old(self).width,
            final(self).height == old(self).height,
            final(self).cell(x as int, y as int) == cell,
            forall|i: int, j: int|
                0 <= i < old(self).width && 0 <= j < old(self).height && (i != x || j != y)
                    ==> #[trigger] final(self).cell(i, j) == old(self).cell(i, j),
    {
        self.assert_in_bounds(x, y);
        proof {
            lemma_index_in_bounds(x as int, y as int, self.width as int, self.height as int);
        }
        let index = y * self.width + x;
        self.data[index] = cell;
        assert forall|i: int, j: int|
            0 <= i < old(self).width && 0 <= j < old(self).height && (i != x || j
                != y) implies #[trigger] final(self).cell(i, j) == old(self).cell(i, j) by {
            lemma_index_in_bounds(i, j, self.width as int, self.height as int);
            lemma_index_distinct(i, j, x as int, y as int, self.width as int);
        }
    }

    /// States that (`x`, `y`) is a place of the grid.
    pub fn assert_in_bounds(&self, x: usize, y: usize)
        requires
            x < self.width,
            y < self.height,
    {
        assert(x < self.width);
        assert(y < self.height);
    }

    /// The next generation of the part of the grid that `sector` covers, as
    /// a grid of the sector's size. Cells outside the sector still count as
    /// neighbours.
    pub fn next_generation(&self, sector: &Sector) -> (next: World)
        requires
            self.wf(),
            sector.fits(self.width, self.height),
        ensures
            next.wf(),
            next.width == sector.width,
            next.height == sector.height,
            forall|x: int, y: int|
                0 <= x < sector.width && 0 <= y < sector.height ==> #[trigger] next.cell(x, y)
                    == self.next_cell(sector.x + x, sector.y + y),
    {
        proof {
            assert(sector.width * sector.height <= self.width * self.height) by (nonlinear_arith)
                requires
                    0 <= sector.width <= self.width,
                    0 <= sector.height <= self.height,
            ;
        }
        let mut next_world = World::new(sector.width, sector.height);
        let mut y: usize = 0;
        while y < sector.height
            invariant
                y <= sector.height,
                self.wf(),
                sector.fits(self.width, self.height),
                next_world.wf(),
                next_world.width == sector.width,
                next_world.height == sector.height,
                forall|i: int, j: int|
                    0 <= i < sector.width && 0 <= j < y ==> #[trigger] next_world.cell(i, j)
                        == self.next_cell(sector.x + i, sector.y + j),
            decreases sector.height - y,
        {
            let mut x: usize = 0;
            while x < sector.width
                invariant
                    x <= sector.width,
                    y < sector.height,
                    self.wf(),
                    sector.fits(self.width, self.height),
                    next_world.wf(),
                    next_world.width == sector.width,
                    next_world.height == sector.height,
                    forall|i: int, j: int|
                        0 <= i < sector.width && 0 <= j < y ==> #[trigger] next_world.cell(i, j)
                            == self.next_cell(sector.x + i, sector.y + j),
                    forall|i: int|
                        0 <= i < x ==> #[trigger] next_world.cell(i, y as int) == self.next_cell(
                            sector.x + i,
                            sector.y + y,
                        ),
                decreases sector.width - x,
            {
                let cell = self.get(sector.x + x, sector.y + y);
                let n = self.count_neighbors(sector.x + x, sector.y + y);
                let next_cell = if cell {
                    n >= 2 && n <= 3
                } else {
                    n == 3
                };
                next_world.set(x, y, next_cell);
                x += 1;
            }
            y += 1;
        }
        next_world
    }

    /// Copies `part`, a grid of the sector's size, over the cells that
    /// `sector` covers. Every other cell stays as it is.
    pub fn merge(&mut self, sector: &Sector, part: &World)
        requires
            old(self).wf(),
            part.wf(),
            sector.fits(old(self).width, old(self).height),
            part.width == sector.width,
            part.height == sector.height,
        ensures
            final(self).wf(),
            final(self).width == old(self).width,
            final(self).height == old(self).height,
            forall|x: int, y: int|
                0 <= x < old(self).width && 0 <= y < old(self).height ==> #[trigger] final(self).cell(
                    x,
                    y,
                ) == if sector.covers(x, y) {
                    part.cell(x - sector.x, y - sector.y)
                } else {
                    old(self).cell(x, y)
                },
    {
        let mut y: usize = 0;
        while y < sector.height
            invariant
                y <= sector.height,
                self.wf(),
                part.wf(),
                self.width == old(self).width,
                self.height == old(self).height,
                sector.fits(self.width, self.height),
                part.width == sector.width,
                part.height == sector.height,
                forall|i: int, j: int|
                    0 <= i < self.width && 0 <= j < self.height ==> #[trigger] self.cell(i, j)
                        == if sector.covers(i, j) && j < sector.y + y {
                        part.cell(i - sector.x, j - sector.y)
                    } else {
                        old(self).cell(i, j)
                    },
            decreases sector.height - y,
        {
            let mut x: usize = 0;
            while x < sector.width
                invariant
                    x <= sector.width,
                    y < sector.height,
                    self.wf(),
                    part.wf(),
                    self.width == old(self).width,
                    self.height == old(self).height,
                    sector.fits(self.width, self.height),
                    part.width == sector.width,
                    part.height == sector.height,
                    forall|i: int, j: int|
                        0 <= i < self.width && 0 <= j < self.height ==> #[trigger] self.cell(i, j)
                            == if sector.covers(i, j) && (j < sector.y + y || (j == sector.y + y
                            && i < sector.x + x)) {
                            part.cell(i - sector.x, j - sector.y)
                        } else {
                            old(self).cell(i, j)
                        },
                decreases sector.width - x,
            {
                let cell = part.get(x, y);
                self.set(sector.x + x, sector.y + y, cell);
                x += 1;
            }
            y += 1;
        }
    }

    /// The first `n` cells of row `y` as text: `x` for a living cell, `.` for
    /// a dead one.
    pub open spec fn row_text(&self, y: int, n: int) -> Seq<char> {
        Seq::new(
            n as nat,
            |x: int|
                if self.cell(x, y) {
                    'x'
                } else {
                    '.'
                },
        )
    }

    /// The first `rows` rows as text, each followed by a line feed.
    pub open spec fn text(&self, rows: int) -> Seq<char>
        decreases rows,
    {
        if rows <= 0 {
            Seq::empty()
        } else {
            self.text(rows - 1) + self.row_text(rows - 1, self.width as int) + seq!['\n']
        }
    }

    /// The grid as text, row by row.
    pub fn to_string(&self) -> (s: String)
        requires
            self.wf(),
        ensures
            s@ == self.text(self.height as int),
    {
        let mut out = String::from_str("");
        proof {
            reveal_strlit("");
            reveal_strlit("x");
            reveal_strlit(".");
            reveal_strlit("\n");
            assert(""@ =~= Seq::<char>::empty());
        }
        let mut y: usize = 0;
        while y < self.height
            invariant
                y <= self.height,
                self.wf(),
                out@ == self.text(y as int),
                "x"@.len() == 1 && "x"@[0] == 'x',
                "."@.len() == 1 && "."@[0] == '.',
                "\n"@.len() == 1 && "\n"@[0] == '\n',
            decreases self.height - y,
        {
            let mut x: usize = 0;
            while x < self.width
                invariant
                    x <= self.width,
                    y < self.height,
                    self.wf(),
                    out@ == self.text(y as int) + self.row_text(y as int, x as int),
                    "x"@.len() == 1 && "x"@[0] == 'x',
                    "."@.len() == 1 && "."@[0] == '.',
                decreases self.width - x,
            {
                if self.get(x, y) {
                    out.append("x");
                } else {
                    out.append(".");
                }
                assert(out@ =~= self.text(y as int) + self.row_text(y as int, x + 1));
                x += 1;
            }
            out.append("\n");
            assert(out@ =~= self.text(y + 1));
            y += 1;
        }
        out
    }

    /// Counts the living cells among the eight around (`x`, `y`).
    pub fn count_neighbors(&self, x: usize, y: usize) -> (n: u8)
        requires
            self.wf(),
            x < self.width,
            y < self.height,
        ensures
            n == self.neighbors(x as int, y as int),
            n <= 8,
    {
        let mut result: u8 = 0;
        let w = self.width;
        let h = self.height;
        if y > 0 && self.get(x, y - 1) {
            result += 1;
        }
        if x < w - 1 && y > 0 && self.get(x + 1, y - 1) {
            result += 1;
        }
        if x < w - 1 && self.get(x + 1, y) {
            result += 1;
        }
        if x < w - 1 && y < h - 1 && self.get(x + 1, y + 1) {
            result += 1;
        }
        if y < h - 1 && self.get(x, y + 1) {
            result += 1;
        }
        if x > 0 && y < h - 1 && self.get(x - 1, y + 1) {
            result += 1;
        }
        if x > 0 && self.get(x - 1, y) {
            result += 1;
        }
        if x > 0 && y > 0 && self.get(x - 1, y - 1) {
            result += 1;
        }
        result
    }
}

/// Two different places of a grid have different places in its storage.
proof fn lemma_index_distinct(i: int, j: int, x: int, y: int, width: int)
    requires
        0 <= i < width,
        0 <= x < width,
        0 <= j,
        0 <= y,
        i != x || j != y,
    ensures
        j * width + i != y * width + x,
{
    if j < y {
        assert(j * width + i < y * width + x) by (nonlinear_arith)
            requires
                j + 1 <= y,
                0 <= i < width,
                0 <= x,
        ;
    } else if y < j {
        assert(y * width + x < j * width + i) by (nonlinear_arith)
            requires
                y + 1 <= j,
                0 <= x < width,
                0 <= i,
        ;
    }
}

} // verus!
