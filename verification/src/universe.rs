use vstd::prelude::*;
use vstd::string::StringExecFns;

use crate::cell::{cell_value, flipped, Cell};

verus! {

/// Row-major index of the cell at `row`, `column` on a grid `w` columns wide.
pub open spec fn position(w: nat, row: nat, column: nat) -> nat {
    row * w + column
}

/// A buffer of `n` dead cells.
pub open spec fn dead_cells(n: nat) -> Seq<Cell> {
    Seq::new(n, |i: int| Cell::Dead)
}

/// The buffer obtained from one Bernoulli draw per cell: a `true` draw seeds
/// a live cell, a `false` draw a dead one.
pub open spec fn cells_of_draws(draws: Seq<bool>) -> Seq<Cell> {
    Seq::new(draws.len(), |i: int| if draws[i] { Cell::Alive } else { Cell::Dead })
}

/// Whether some coordinate pair in `coords` names the buffer index `i` on a
/// grid `w` columns wide.
pub open spec fn listed_position(coords: Seq<(u32, u32)>, w: nat, i: int) -> bool {
    exists|k: int|
        0 <= k < coords.len() && position(w, coords[k].0 as nat, coords[k].1 as nat) == i
}

/// The buffer `cells` with the cell at `i` flipped between dead and alive.
pub open spec fn toggled(cells: Seq<Cell>, i: int) -> Seq<Cell> {
    cells.update(i, flipped(cells[i]))
}

/// One summand of a neighbor count: the value of the cell reached from
/// `row`, `column` by the wrap-around offsets `dr` (rows) and `dc` (columns),
/// each taken modulo the grid size. The pair of zero offsets names the cell
/// itself and contributes nothing.
pub open spec fn neighbor_term(
    cells: Seq<Cell>,
    w: nat,
    h: nat,
    row: nat,
    column: nat,
    dr: nat,
    dc: nat,
) -> int {
    if dr == 0 && dc == 0 {
        0
    } else {
        cell_value(cells[position(w, (dr + row) % h, (dc + column) % w) as int])
    }
}

/// The number of live cells among the eight toroidal neighbors of `row`,
/// `column`: the row offsets run over `h - 1`, `0`, `1` and the column
/// offsets over `w - 1`, `0`, `1` (the wrap-around forms of -1, 0, +1), with
/// every pair of zero offsets excluded. On a grid only one or two cells wide
/// or tall, distinct offset pairs can reach the same cell, which then counts
/// once per pair — exactly as the engine's modular walk visits it.
pub open spec fn live_neighbors(cells: Seq<Cell>, w: nat, h: nat, row: nat, column: nat) -> int
    recommends
        w >= 1,
        h >= 1,
{
    let hm = (h - 1) as nat;
    let wm = (w - 1) as nat;
    neighbor_term(cells, w, h, row, column, hm, wm)
        + neighbor_term(cells, w, h, row, column, hm, 0)
        + neighbor_term(cells, w, h, row, column, hm, 1)
        + neighbor_term(cells, w, h, row, column, 0, wm)
        + neighbor_term(cells, w, h, row, column, 0, 0)
        + neighbor_term(cells, w, h, row, column, 0, 1)
        + neighbor_term(cells, w, h, row, column, 1, wm)
        + neighbor_term(cells, w, h, row, column, 1, 0)
        + neighbor_term(cells, w, h, row, column, 1, 1)
}

/// The transition rule for one cell: a live cell survives exactly on two or
/// three live neighbors (dying of underpopulation below two and of
/// overpopulation above three); a dead cell comes alive exactly on three.
pub open spec fn next_cell(c: Cell, live: int) -> Cell {
    match c {
        Cell::Alive => if live < 2 {
            Cell::Dead
        } else if live <= 3 {
            Cell::Alive
        } else {
            Cell::Dead
        },
        Cell::Dead => if live == 3 {
            Cell::Alive
        } else {
            Cell::Dead
        },
    }
}

/// One full generation: every cell steps simultaneously by [`next_cell`],
/// each reading its neighbors from the old buffer.
pub open spec fn next_generation(cells: Seq<Cell>, w: nat, h: nat) -> Seq<Cell>
    recommends
        cells.len() == w * h,
{
    Seq::new(
        cells.len(),
        |i: int|
            next_cell(
                cells[i],
                live_neighbors(cells, w, h, (i / w as int) as nat, (i % w as int) as nat),
            ),
    )
}

/// `k` full generations: [`next_generation`] applied `k` times over.
pub open spec fn generations(cells: Seq<Cell>, w: nat, h: nat, k: nat) -> Seq<Cell>
    decreases k,
{
    if k == 0 {
        cells
    } else {
        next_generation(generations(cells, w, h, (k - 1) as nat), w, h)
    }
}

/// The glyph a cell renders as: a hollow square for a dead cell, a filled
/// one for a live cell.
pub open spec fn glyph(c: Cell) -> char {
    match c {
        Cell::Dead => '◻',
        Cell::Alive => '◼',
    }
}

/// One rendered row: the glyph of each of the row's `w` cells left to right,
/// closed by a newline.
pub open spec fn rendered_row(cells: Seq<Cell>, w: nat, row: nat) -> Seq<char> {
    Seq::new(w, |j: int| glyph(cells[position(w, row, j as nat) as int])).push('\n')
}

/// The first `rows` rendered rows, top to bottom, concatenated.
pub open spec fn rendered_rows(cells: Seq<Cell>, w: nat, rows: nat) -> Seq<char>
    decreases rows,
{
    if rows == 0 {
        Seq::empty()
    } else {
        rendered_rows(cells, w, (rows - 1) as nat) + rendered_row(cells, w, (rows - 1) as nat)
    }
}

/// One generation per tick until a caller changes the speed.
pub const DEFAULT_SPEED: u32 = 1;

/// A toroidal Game of Life grid: a dense row-major cell buffer of exactly
/// `width * height` cells, plus the number of generations one [`Universe::tick`]
/// call advances.
pub struct Universe {
    speed: u32,
    width: u32,
    height: u32,
    cells: Vec<Cell>,
}

impl Universe {
    /// Number of columns.
    pub closed spec fn spec_width(&self) -> nat {
        self.width as nat
    }

    /// Number of rows.
    pub closed spec fn spec_height(&self) -> nat {
        self.height as nat
    }

    /// Generations advanced per `tick` call.
    pub closed spec fn spec_speed(&self) -> nat {
        self.speed as nat
    }

    /// The cell buffer, row-major: the cell at `row`, `column` sits at index
    /// `row * width + column`.
    pub closed spec fn spec_cells(&self) -> Seq<Cell> {
        self.cells@
    }

    /// Well-formedness, kept by every operation: the buffer holds exactly
    /// `width * height` cells, and that product fits in a `u32` (the grid's
    /// own index arithmetic is 32-bit).
    pub open spec fn wf(&self) -> bool {
        &&& self.spec_cells().len() == self.spec_width() * self.spec_height()
        &&& self.spec_width() * self.spec_height() <= u32::MAX
    }

    /// Row-major index of the cell at `row`, `column`.
    fn get_index(&self, row: u32, column: u32) -> (index: usize)
        requires
            self.wf(),
            row < self.spec_height(),
            column < self.spec_width(),
        ensures
            index == position(self.spec_width(), row as nat, column as nat),
            index < self.spec_cells().len(),
    {
        proof {
            lemma_position_in_buffer(
                self.spec_width(),
                self.spec_height(),
                row as nat,
                column as nat,
            );
        }
        (row * self.width + column) as usize
    }

    /// Current number of columns.
    pub fn width(&self) -> (w: u32)
        ensures
            w as nat == self.spec_width(),
    {
        self.width
    }

    /// Current number of rows.
    pub fn height(&self) -> (h: u32)
        ensures
            h as nat == self.spec_height(),
    {
        self.height
    }

    /// Sets how many generations one `tick` call advances. A value of 0 makes
    /// `tick` a no-op; the engine does not reject it.
    pub fn set_speed(&mut self, speed: u32)
        ensures
            final(self).spec_speed() == speed as nat,
            final(self).spec_width() == old(self).spec_width(),
            final(self).spec_height() == old(self).spec_height(),
            final(self).spec_cells() == old(self).spec_cells(),
    {
        self.speed = speed;
    }

    /// The whole buffer, row-major, as a structured read-only view.
    pub fn get_cells(&self) -> (cells: &Vec<Cell>)
        ensures
            cells@ == self.spec_cells(),
    {
        &self.cells
    }

    /// The whole buffer as a contiguous read-only block of `width * height`
    /// cells, row-major — the zero-copy read path for an external renderer.
    /// The view is stale once any mutating call runs.
    pub fn cells(&self) -> (cells: &[Cell])
        ensures
            cells@ == self.spec_cells(),
    {
        self.cells.as_slice()
    }

    /// Fills the buffer entirely with dead cells; dimensions and speed are
    /// unchanged.
    pub fn reset(&mut self)
        requires
            old(self).spec_width() * old(self).spec_height() <= u32::MAX,
        ensures
            final(self).wf(),
            final(self).spec_width() == old(self).spec_width(),
            final(self).spec_height() == old(self).spec_height(),
            final(self).spec_speed() == old(self).spec_speed(),
            final(self).spec_cells() == dead_cells(
                old(self).spec_width() * old(self).spec_height(),
            ),
    {
        self.cells = dead_buffer(self.width * self.height);
    }

    /// Sets the number of columns and clears the whole grid to dead cells;
    /// the height and speed are unchanged. Resizing discards prior content.
    pub fn set_width(&mut self, width: u32)
        requires
            width as nat * old(self).spec_height() <= u32::MAX,
        ensures
            final(self).wf(),
            final(self).spec_width() == width as nat,
            final(self).spec_height() == old(self).spec_height(),
            final(self).spec_speed() == old(self).spec_speed(),
            final(self).spec_cells() == dead_cells(width as nat * old(self).spec_height()),
    {
        self.width = width;
        self.cells = dead_buffer(width * self.height);
    }

    /// Sets the number of rows and clears the whole grid to dead cells;
    /// the width and speed are unchanged. Resizing discards prior content.
    pub fn set_height(&mut self, height: u32)
        requires
            old(self).spec_width() * height as nat <= u32::MAX,
        ensures
            final(self).wf(),
            final(self).spec_width() == old(self).spec_width(),
            final(self).spec_height() == height as nat,
            final(self).spec_speed() == old(self).spec_speed(),
            final(self).spec_cells() == dead_cells(old(self).spec_width() * height as nat),
    {
        self.height = height;
        self.cells = dead_buffer(self.width * height);
    }

    /// Sets both dimensions and clears the whole grid to dead cells; the
    /// speed is unchanged.
    pub fn resize(&mut self, width: u32, height: u32)
        requires
            width as nat * height as nat <= u32::MAX,
        ensures
            final(self).wf(),
            final(self).spec_width() == width as nat,
            final(self).spec_height() == height as nat,
            final(self).spec_speed() == old(self).spec_speed(),
            final(self).spec_cells() == dead_cells(width as nat * height as nat),
    {
        self.width = width;
        self.height = height;
        self.reset();
    }

    /// A fresh grid of the given size with one generation advanced per tick,
    /// its cells seeded from one Bernoulli draw per cell: the caller supplies
    /// `width * height` draws from its randomness source, and a `true` draw
    /// seeds a live cell.
    pub fn new(width: u32, height: u32, draws: &Vec<bool>) -> (u: Universe)
        requires
            width as nat * height as nat <= u32::MAX,
            draws@.len() == width as nat * height as nat,
        ensures
            u.wf(),
            u.spec_width() == width as nat,
            u.spec_height() == height as nat,
            u.spec_speed() == DEFAULT_SPEED as nat,
            u.spec_cells() == cells_of_draws(draws@),
    {
        let cells = Universe::get_random_universe(&width, &height, draws);
        Universe { speed: DEFAULT_SPEED, width, height, cells }
    }

    /// A buffer for a `width` by `height` grid seeded from one Bernoulli
    /// draw per cell, row-major: a `true` draw gives a live cell, a `false`
    /// draw a dead one.
    pub fn get_random_universe(width: &u32, height: &u32, draws: &Vec<bool>) -> (cells: Vec<Cell>)
        requires
            draws@.len() == *width as nat * *height as nat,
        ensures
            cells@ == cells_of_draws(draws@),
    {
        let mut cells: Vec<Cell> = Vec::new();
        let mut i: usize = 0;
        while i < draws.len()
            invariant
                i <= draws@.len(),
                cells@.len() == i as nat,
                forall|j: int| 0 <= j < i ==> cells@[j] == cells_of_draws(draws@)[j],
            decreases draws@.len() - i,
        {
            cells.push(if draws[i] { Cell::Alive } else { Cell::Dead });
            i = i + 1;
        }
        proof {
            assert(cells@ =~= cells_of_draws(draws@));
        }
        cells
    }

    /// Reseeds the whole buffer from fresh Bernoulli draws, one per cell,
    /// exactly as at construction; dimensions and speed are unchanged.
    pub fn random(&mut self, draws: &Vec<bool>)
        requires
            old(self).wf(),
            draws@.len() == old(self).spec_width() * old(self).spec_height(),
        ensures
            final(self).wf(),
            final(self).spec_width() == old(self).spec_width(),
            final(self).spec_height() == old(self).spec_height(),
            final(self).spec_speed() == old(self).spec_speed(),
            final(self).spec_cells() == cells_of_draws(draws@),
    {
        self.cells = Universe::get_random_universe(&self.width, &self.height, draws);
    }

    /// Marks each listed `(row, column)` cell alive, in order, touching no
    /// other cell; listing a coordinate twice is the same as listing it once.
    pub fn set_cells(&mut self, coords: &[(u32, u32)])
        requires
            old(self).wf(),
            forall|k: int|
                0 <= k < coords@.len() ==> coords@[k].0 < old(self).spec_height()
                    && coords@[k].1 < old(self).spec_width(),
        ensures
            final(self).wf(),
            final(self).spec_width() == old(self).spec_width(),
            final(self).spec_height() == old(self).spec_height(),
            final(self).spec_speed() == old(self).spec_speed(),
            final(self).spec_cells().len() == old(self).spec_cells().len(),
            forall|i: int|
                0 <= i < old(self).spec_cells().len() ==> final(self).spec_cells()[i] == (
                if listed_position(coords@, old(self).spec_width(), i) {
                    Cell::Alive
                } else {
                    old(self).spec_cells()[i]
                }),
    {
        let ghost w = self.spec_width();
        let ghost all = coords@;
        let mut k: usize = 0;
        while k < coords.len()
            invariant
                self.wf(),
                w == self.spec_width(),
                self.spec_height() == old(self).spec_height(),
                self.spec_speed() == old(self).spec_speed(),
                self.spec_cells().len() == old(self).spec_cells().len(),
                all == coords@,
                forall|j: int|
                    0 <= j < all.len() ==> all[j].0 < self.spec_height() && all[j].1
                        < self.spec_width(),
                k <= all.len(),
                forall|i: int|
                    0 <= i < old(self).spec_cells().len() ==> self.spec_cells()[i] == (
                    if listed_position(all.take(k as int), w, i) {
                        Cell::Alive
                    } else {
                        old(self).spec_cells()[i]
                    }),
            decreases coords@.len() - k,
        {
            let (row, column) = coords[k];
            let index = self.get_index(row, column);
            self.cells[index] = Cell::Alive;
            proof {
                lemma_listed_position_extend(all, k as int, w);
            }
            k = k + 1;
        }
        proof {
            assert(all.take(all.len() as int) =~= all);
        }
    }

    /// The grid as text, one newline-closed line per row from the top down,
    /// each cell one glyph: `◻` dead, `◼` alive. A grid must have at least
    /// one column to be rendered: with none there is no line to draw a row
    /// into.
    pub fn render(&self) -> (text: String)
        requires
            self.wf(),
            self.spec_width() >= 1,
        ensures
            text@ == rendered_rows(self.spec_cells(), self.spec_width(), self.spec_height()),
    {
        let ghost w = self.spec_width();
        let ghost h = self.spec_height();
        let mut text = String::new();
        let mut row: u32 = 0;
        while row < self.height
            invariant
                self.wf(),
                w == self.spec_width(),
                h == self.spec_height(),
                w >= 1,
                row <= self.height,
                text@ == rendered_rows(self.spec_cells(), w, row as nat),
            decreases self.height - row,
        {
            let mut col: u32 = 0;
            while col < self.width
                invariant
                    self.wf(),
                    w == self.spec_width(),
                    h == self.spec_height(),
                    w >= 1,
                    row < self.height,
                    col <= self.width,
                    text@ == rendered_rows(self.spec_cells(), w, row as nat) + Seq::new(
                        col as nat,
                        |j: int| glyph(self.spec_cells()[position(w, row as nat, j as nat) as int]),
                    ),
                decreases self.width - col,
            {
                let index = self.get_index(row, col);
                match self.cells[index] {
                    Cell::Dead => text.append("◻"),
                    Cell::Alive => text.append("◼"),
                }
                proof {
                    reveal_strlit("◻");
                    reveal_strlit("◼");
                    assert(text@ =~= rendered_rows(self.spec_cells(), w, row as nat) + Seq::new(
                        (col + 1) as nat,
                        |j: int| glyph(self.spec_cells()[position(w, row as nat, j as nat) as int]),
                    ));
                }
                col = col + 1;
            }
            text.append("\n");
            proof {
                reveal_strlit("\n");
                assert(text@ =~= rendered_rows(self.spec_cells(), w, (row + 1) as nat));
            }
            row = row + 1;
        }
        text
    }

    /// The value of the cell reached from `row`, `column` by the wrap-around
    /// offsets `dr`, `dc`; zero for the pair of zero offsets.
    fn neighbor_value(&self, row: u32, column: u32, dr: u32, dc: u32) -> (v: u8)
        requires
            self.wf(),
            row < self.spec_height(),
            column < self.spec_width(),
        ensures
            v as int == neighbor_term(
                self.spec_cells(),
                self.spec_width(),
                self.spec_height(),
                row as nat,
                column as nat,
                dr as nat,
                dc as nat,
            ),
            v <= 1,
    {
        if dr == 0 && dc == 0 {
            0
        } else {
            let neighbor_row = ((dr as u64 + row as u64) % (self.height as u64)) as u32;
            let neighbor_column = ((dc as u64 + column as u64) % (self.width as u64)) as u32;
            let index = self.get_index(neighbor_row, neighbor_column);
            match self.cells[index] {
                Cell::Alive => 1,
                Cell::Dead => 0,
            }
        }
    }

    /// The number of live cells among the eight toroidal neighbors of the
    /// cell at `row`, `column`.
    fn live_neighbor_count(&self, row: u32, column: u32) -> (count: u8)
        requires
            self.wf(),
            row < self.spec_height(),
            column < self.spec_width(),
        ensures
            count as int == live_neighbors(
                self.spec_cells(),
                self.spec_width(),
                self.spec_height(),
                row as nat,
                column as nat,
            ),
            count <= 8,
    {
        let hm = self.height - 1;
        let wm = self.width - 1;
        let mut count: u8 = 0;
        count = count + self.neighbor_value(row, column, hm, wm);
        count = count + self.neighbor_value(row, column, hm, 0);
        count = count + self.neighbor_value(row, column, hm, 1);
        count = count + self.neighbor_value(row, column, 0, wm);
        count = count + self.neighbor_value(row, column, 0, 1);
        count = count + self.neighbor_value(row, column, 1, wm);
        count = count + self.neighbor_value(row, column, 1, 0);
        count = count + self.neighbor_value(row, column, 1, 1);
        count
    }

    /// Advances the grid one full generation: every cell steps by the
    /// transition rule simultaneously, computed into a fresh buffer that
    /// replaces the old one whole.
    fn step_once(&mut self)
        requires
            old(self).wf(),
        ensures
            final(self).wf(),
            final(self).spec_width() == old(self).spec_width(),
            final(self).spec_height() == old(self).spec_height(),
            final(self).spec_speed() == old(self).spec_speed(),
            final(self).spec_cells() == next_generation(
                old(self).spec_cells(),
                old(self).spec_width(),
                old(self).spec_height(),
            ),
    {
        let ghost w = self.spec_width();
        let ghost h = self.spec_height();
        let ghost goal = next_generation(self.spec_cells(), w, h);
        let mut next: Vec<Cell> = Vec::new();
        let mut row: u32 = 0;
        while row < self.height
            invariant
                *self == *old(self),
                self.wf(),
                w == self.spec_width(),
                h == self.spec_height(),
                goal == next_generation(self.spec_cells(), w, h),
                row <= self.height,
                next@.len() == row as nat * w,
                forall|j: int| 0 <= j < next@.len() ==> next@[j] == goal[j],
            decreases self.height - row,
        {
            let mut col: u32 = 0;
            while col < self.width
                invariant
                    *self == *old(self),
                    self.wf(),
                    w == self.spec_width(),
                    h == self.spec_height(),
                    goal == next_generation(self.spec_cells(), w, h),
                    row < self.height,
                    col <= self.width,
                    next@.len() == row as nat * w + col as nat,
                    forall|j: int| 0 <= j < next@.len() ==> next@[j] == goal[j],
                decreases self.width - col,
            {
                let index = self.get_index(row, col);
                let current = self.cells[index];
                let live = self.live_neighbor_count(row, col);
                let stepped = next_cell_state(current, live);
                proof {
                    vstd::arithmetic::div_mod::lemma_fundamental_div_mod_converse(
                        index as int,
                        w as int,
                        row as int,
                        col as int,
                    );
                }
                next.push(stepped);
                col = col + 1;
            }
            proof {
                lemma_next_row_start(row as nat, w);
            }
            row = row + 1;
        }
        proof {
            lemma_mul_flip(h, w);
            assert(next@ =~= goal);
        }
        self.cells = next;
    }

    /// Advances the grid `speed` generations, each fully resolved before the
    /// next begins; with `speed` 0 the call leaves the grid unchanged.
    pub fn tick(&mut self)
        requires
            old(self).wf(),
        ensures
            final(self).wf(),
            final(self).spec_width() == old(self).spec_width(),
            final(self).spec_height() == old(self).spec_height(),
            final(self).spec_speed() == old(self).spec_speed(),
            final(self).spec_cells() == generations(
                old(self).spec_cells(),
                old(self).spec_width(),
                old(self).spec_height(),
                old(self).spec_speed(),
            ),
    {
        let speed = self.speed;
        let mut step: u32 = 0;
        while step < speed
            invariant
                step <= speed,
                self.wf(),
                speed as nat == old(self).spec_speed(),
                self.spec_width() == old(self).spec_width(),
                self.spec_height() == old(self).spec_height(),
                self.spec_speed() == old(self).spec_speed(),
                self.spec_cells() == generations(
                    old(self).spec_cells(),
                    old(self).spec_width(),
                    old(self).spec_height(),
                    step as nat,
                ),
            decreases speed - step,
        {
            self.step_once();
            step = step + 1;
        }
    }

    /// Flips the one cell at `row`, `column` between dead and alive; every
    /// other cell, the dimensions and the speed are unchanged.
    pub fn toggle_cell(&mut self, row: u32, column: u32)
        requires
            old(self).wf(),
            row < old(self).spec_height(),
            column < old(self).spec_width(),
        ensures
            final(self).wf(),
            final(self).spec_width() == old(self).spec_width(),
            final(self).spec_height() == old(self).spec_height(),
            final(self).spec_speed() == old(self).spec_speed(),
            final(self).spec_cells() == toggled(
                old(self).spec_cells(),
                position(old(self).spec_width(), row as nat, column as nat) as int,
            ),
    {
        let index = self.get_index(row, column);
        self.cells[index].toggle();
    }
}

/// On a `w`-by-`h` grid, the row-major position of an in-range coordinate
/// lies within the buffer.
proof fn lemma_position_in_buffer(w: nat, h: nat, row: nat, column: nat) by (nonlinear_arith)
    requires
        row < h,
        column < w,
    ensures
        0 <= row * w + column < w * h,
{
}

/// Taking one more listed coordinate marks exactly that coordinate's
/// position, beyond the positions the first `k` coordinates already mark.
proof fn lemma_listed_position_extend(coords: Seq<(u32, u32)>, k: int, w: nat)
    requires
        0 <= k < coords.len(),
    ensures
        forall|i: int|
            #[trigger] listed_position(coords.take(k + 1), w, i) <==> (listed_position(
                coords.take(k),
                w,
                i,
            ) || position(w, coords[k].0 as nat, coords[k].1 as nat) == i),
{
    let a = coords.take(k);
    let b = coords.take(k + 1);
    assert forall|i: int|
        #[trigger] listed_position(b, w, i) <==> (listed_position(a, w, i) || position(
            w,
            coords[k].0 as nat,
            coords[k].1 as nat,
        ) == i) by {
        if listed_position(b, w, i) {
            let j = choose|j: int|
                0 <= j < b.len() && position(w, b[j].0 as nat, b[j].1 as nat) == i;
            if j < k {
                assert(a[j] == b[j]);
                assert(listed_position(a, w, i));
            } else {
                assert(b[j] == coords[k]);
            }
        }
        if listed_position(a, w, i) {
            let j = choose|j: int|
                0 <= j < a.len() && position(w, a[j].0 as nat, a[j].1 as nat) == i;
            assert(b[j] == a[j]);
            assert(listed_position(b, w, i));
        }
        if position(w, coords[k].0 as nat, coords[k].1 as nat) == i {
            assert(b[k] == coords[k]);
            assert(listed_position(b, w, i));
        }
    }
}

/// The transition rule applied to one cell with its live neighbor count.
fn next_cell_state(c: Cell, live: u8) -> (r: Cell)
    ensures
        r == next_cell(c, live as int),
{
    match c {
        Cell::Alive => if live < 2 {
            Cell::Dead
        } else if live <= 3 {
            Cell::Alive
        } else {
            Cell::Dead
        },
        Cell::Dead => if live == 3 {
            Cell::Alive
        } else {
            Cell::Dead
        },
    }
}

/// Row `row + 1` starts one full row of `w` cells after row `row` starts.
proof fn lemma_next_row_start(row: nat, w: nat) by (nonlinear_arith)
    ensures
        (row + 1) * w == row * w + w,
{
}

/// The buffer of an `h`-row, `w`-column grid holds `w * h` cells whichever
/// way the product is written.
proof fn lemma_mul_flip(h: nat, w: nat) by (nonlinear_arith)
    ensures
        h * w == w * h,
{
}

/// A fresh buffer of `n` dead cells.
fn dead_buffer(n: u32) -> (cells: Vec<Cell>)
    ensures
        cells@ == dead_cells(n as nat),
{
    let mut cells: Vec<Cell> = Vec::new();
    let mut i: u32 = 0;
    while i < n
        invariant
            i <= n,
            cells@.len() == i as nat,
            forall|j: int| 0 <= j < i ==> cells@[j] == Cell::Dead,
        decreases n - i,
    {
        cells.push(Cell::Dead);
        i = i + 1;
    }
    proof {
        assert(cells@ =~= dead_cells(n as nat));
    }
    cells
}

} // verus!
