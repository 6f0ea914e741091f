use vstd::prelude::*;
use crate::cell::{apply_cell_rules, cell_of, next_is_dead, Cell};

verus! {

/// 1 when `(row, col)` lies on the grid and holds an alive cell, 0 otherwise:
/// positions off the grid do not exist and contribute nothing.
pub open spec fn alive_num(g: Seq<Seq<Cell>>, row: int, col: int) -> int {
    if 0 <= row < g.len() && 0 <= col < g[row].len() && g[row][col] is Alive {
        1
    } else {
        0
    }
}

/// The number of alive cells among the eight positions around `(row, col)`,
/// with no wrap-around at the edges; the cell itself is not counted.
pub open spec fn neighbor_count(g: Seq<Seq<Cell>>, row: int, col: int) -> int {
    alive_num(g, row - 1, col - 1) + alive_num(g, row - 1, col) + alive_num(g, row - 1, col + 1)
        + alive_num(g, row, col - 1) + alive_num(g, row, col + 1) + alive_num(g, row + 1, col - 1)
        + alive_num(g, row + 1, col) + alive_num(g, row + 1, col + 1)
}

/// The state of `(row, col)` in the generation after `g`.
pub open spec fn next_cell(g: Seq<Seq<Cell>>, row: int, col: int) -> Cell {
    cell_of(next_is_dead(neighbor_count(g, row, col), g[row][col] is Dead))
}

/// The generation after `g`: every cell is computed from `g` alone.
pub open spec fn next_gen(g: Seq<Seq<Cell>>) -> Seq<Seq<Cell>> {
    Seq::new(g.len(), |row: int| Seq::new(g[row].len(), |col: int| next_cell(g, row, col)))
}

/// The number of alive cells in one row.
pub open spec fn count_row(s: Seq<Cell>) -> nat
    decreases s.len(),
{
    if s.len() == 0 {
        0
    } else {
        count_row(s.drop_last()) + if s.last() is Alive {
            1nat
        } else {
            0nat
        }
    }
}

/// The number of alive cells in the grid.
pub open spec fn count_alive(g: Seq<Seq<Cell>>) -> nat
    decreases g.len(),
{
    if g.len() == 0 {
        0
    } else {
        count_alive(g.drop_last()) + count_row(g.last())
    }
}

/// Every row of `g` has `cols` cells.
pub open spec fn is_rect(g: Seq<Seq<Cell>>, cols: nat) -> bool {
    forall|row: int| 0 <= row < g.len() ==> #[trigger] g[row].len() == cols
}

/// The number of columns of `g`, read from its first row.
pub open spec fn grid_cols(g: Seq<Seq<Cell>>) -> nat {
    if g.len() == 0 {
        0
    } else {
        g[0].len()
    }
}

/// `g` is rectangular, and its dimensions fit the `u32` coordinates that
/// seeders take.
pub open spec fn is_grid(g: Seq<Seq<Cell>>) -> bool {
    &&& g.len() <= u32::MAX
    &&& grid_cols(g) <= u32::MAX
    &&& is_rect(g, grid_cols(g))
}

/// `cell` is a state that `seeder` may give to `(row, col)`; with no seeder
/// every cell starts dead.
pub open spec fn seeded_by<F: Fn(u32, u32) -> bool>(
    seeder: Option<F>,
    row: u32,
    col: u32,
    cell: Cell,
) -> bool {
    match seeder {
        Some(f) => f.ensures((row, col), cell is Dead),
        None => cell is Dead,
    }
}

/// The grid after flipping the cell at `(row, col)`; a position off the grid
/// leaves it as it is.
pub open spec fn toggled(g: Seq<Seq<Cell>>, row: int, col: int) -> Seq<Seq<Cell>> {
    if 0 <= row < g.len() && 0 <= col < g[row].len() {
        g.update(row, g[row].update(col, cell_of(g[row][col] is Alive)))
    } else {
        g
    }
}

/// The grid engine: a rectangular grid of cells with its statistics.
pub struct Game {
    cells: Vec<Vec<Cell>>,
    gen_number: u64,
    alive_cells_number: u64,
}

impl View for Game {
    type V = Seq<Seq<Cell>>;

    closed spec fn view(&self) -> Seq<Seq<Cell>> {
        self.cells@.map_values(|row: Vec<Cell>| row@)
    }
}

impl Game {
    /// The number of completed steps.
    pub closed spec fn generation(&self) -> nat {
        self.gen_number as nat
    }

    /// The alive-cell count recorded by the last step (0 before any step).
    pub closed spec fn alive_count(&self) -> nat {
        self.alive_cells_number as nat
    }

    /// The grid is rectangular and its dimensions fit `u32` coordinates.
    pub open spec fn wf(&self) -> bool {
        is_grid(self@)
    }

    /// 1 when `(row, col)` is on the grid and alive, 0 otherwise.
    fn cell_state_to_number(&self, row: usize, col: usize) -> (r: i32)
        ensures
            r == alive_num(self@, row as int, col as int),
    {
        if row < self.cells.len() && col < self.cells[row].len() {
            if self.cells[row][col].is_alive() {
                1
            } else {
                0
            }
        } else {
            0
        }
    }

    /// The alive cells at `(row, col - 1)` and `(row, col + 1)`, and also at
    /// `(row, col)` when `with_center` holds.
    fn neighbors_in_row(&self, row: usize, col: usize, with_center: bool) -> (r: i32)
        ensures
            r == alive_num(self@, row as int, col - 1) + (if with_center {
                alive_num(self@, row as int, col as int)
            } else {
                0
            }) + alive_num(self@, row as int, col + 1),
    {
        let mut count: i32 = 0;
        if col > 0 {
            count = count + self.cell_state_to_number(row, col - 1);
        }
        if with_center {
            count = count + self.cell_state_to_number(row, col);
        }
        if col < usize::MAX {
            count = count + self.cell_state_to_number(row, col + 1);
        } else {
            assert(row < self@.len() ==> self@[row as int].len() == self.cells[row as int].len());
        }
        count
    }

    /// The number of alive neighbours of `(row, col)`; positions off the grid
    /// count as dead.
    pub fn get_neighbors_count(&self, row: usize, col: usize) -> (r: i32)
        ensures
            r == neighbor_count(self@, row as int, col as int),
    {
        let mut count: i32 = self.neighbors_in_row(row, col, false);
        if row > 0 {
            count = count + self.neighbors_in_row(row - 1, col, true);
        }
        if row < usize::MAX {
            count = count + self.neighbors_in_row(row + 1, col, true);
        } else {
            assert(self@.len() == self.cells.len());
        }
        count
    }
}

proof fn lemma_count_row_push(s: Seq<Cell>, j: int)
    requires
        0 <= j < s.len(),
    ensures
        count_row(s.take(j + 1)) == count_row(s.take(j)) + if s[j] is Alive {
            1nat
        } else {
            0nat
        },
{
    assert(s.take(j + 1).drop_last() =~= s.take(j));
}

proof fn lemma_count_alive_push(g: Seq<Seq<Cell>>, i: int)
    requires
        0 <= i < g.len(),
    ensures
        count_alive(g.take(i + 1)) == count_alive(g.take(i)) + count_row(g[i]),
{
    assert(g.take(i + 1).drop_last() =~= g.take(i));
}

impl Game {
    /// Advances the grid by one generation. Every new state is computed from
    /// the previous generation only, the new grid replaces the old one in one
    /// assignment, the generation number goes up by one and the alive-cell
    /// count is recomputed from the new grid.
    pub fn step(&mut self)
        requires
            old(self).wf(),
            old(self).generation() < u64::MAX,
        ensures
            final(self).wf(),
            final(self)@ == next_gen(old(self)@),
            final(self).generation() == old(self).generation() + 1,
            final(self).alive_count() == count_alive(final(self)@),
    {
        let ghost g = self@;
        let ghost ng = next_gen(g);
        let ghost width = grid_cols(g);
        let rows = self.cells.len();
        let mut new_gen: Vec<Vec<Cell>> = Vec::new();
        let mut alive: u64 = 0;
        let mut i: usize = 0;
        while i < rows
            invariant
                self@ == g,
                is_grid(g),
                ng == next_gen(g),
                width == grid_cols(g),
                rows == g.len(),
                i <= rows,
                new_gen@.len() == i,
                forall|k: int| 0 <= k < i ==> #[trigger] new_gen@[k]@ == ng[k],
                alive == count_alive(ng.take(i as int)),
                alive <= i * width,
            decreases rows - i,
        {
            let cols = self.cells[i].len();
            let mut new_row: Vec<Cell> = Vec::new();
            let mut j: usize = 0;
            while j < cols
                invariant
                    self@ == g,
                    is_grid(g),
                    ng == next_gen(g),
                    width == grid_cols(g),
                    rows == g.len(),
                    i < rows,
                    cols == g[i as int].len(),
                    cols == width,
                    j <= cols,
                    new_row@ == ng[i as int].take(j as int),
                    alive == count_alive(ng.take(i as int)) + count_row(new_row@),
                    alive <= i * width + j,
                decreases cols - j,
            {
                let n = self.get_neighbors_count(i, j);
                let is_dead = apply_cell_rules(n, self.cells[i][j].is_dead());
                let cell = Cell::create(is_dead);
                proof {
                    lemma_count_row_push(ng[i as int], j as int);
                    assert(i * width + j + 1 <= (u32::MAX as int) * (u32::MAX as int)) by (nonlinear_arith)
                        requires
                            i < rows,
                            rows <= u32::MAX,
                            j < width,
                            width <= u32::MAX,
                    ;
                }
                new_row.push(cell);
                if !is_dead {
                    alive = alive + 1;
                }
                assert(new_row@ =~= ng[i as int].take(j + 1));
                j = j + 1;
            }
            proof {
                lemma_count_alive_push(ng, i as int);
                assert(new_row@ =~= ng[i as int]);
                assert(i * width + j == (i + 1) * width) by (nonlinear_arith)
                    requires
                        j == width,
                ;
            }
            new_gen.push(new_row);
            i = i + 1;
        }
        assert(new_gen@.map_values(|row: Vec<Cell>| row@) =~= ng);
        assert(ng.take(rows as int) =~= ng);
        self.cells = new_gen;
        self.gen_number = self.gen_number + 1;
        self.alive_cells_number = alive;
    }
}

impl Game {
    /// Builds a `rows` by `cols` grid whose cell at `(row, col)` starts dead
    /// exactly when `seeder(row, col)` says so, or dead everywhere when no
    /// seeder is given. The statistics start at zero.
    pub fn new<F: Fn(u32, u32) -> bool>(rows: u32, cols: u32, seeder: Option<F>) -> (game: Game)
        requires
            seeder matches Some(f) ==> forall|row: u32, col: u32|
                row < rows && col < cols ==> #[trigger] f.requires((row, col)),
        ensures
            game.wf(),
            game@.len() == rows,
            is_rect(game@, cols as nat),
            forall|row: u32, col: u32|
                row < rows && col < cols ==> seeded_by(seeder, row, col, #[trigger] game@[row as int][col as int]),
            game.generation() == 0,
            game.alive_count() == 0,
    {
        let cells = Self::generate_cells(rows, cols, &seeder);
        Game { cells, gen_number: 0, alive_cells_number: 0 }
    }

    fn generate_cells<F: Fn(u32, u32) -> bool>(rows: u32, cols: u32, seeder: &Option<F>) -> (cells: Vec<Vec<Cell>>)
        requires
            *seeder matches Some(f) ==> forall|row: u32, col: u32|
                row < rows && col < cols ==> #[trigger] f.requires((row, col)),
        ensures
            cells@.len() == rows,
            forall|row: int| 0 <= row < rows ==> #[trigger] cells@[row]@.len() == cols,
            forall|row: u32, col: u32|
                row < rows && col < cols ==> seeded_by(*seeder, row, col, #[trigger] cells@[row as int]@[col as int]),
    {
        let mut matrix: Vec<Vec<Cell>> = Vec::new();
        let mut row: u32 = 0;
        while row < rows
            invariant
                row <= rows,
                *seeder matches Some(f) ==> forall|r: u32, c: u32|
                    r < rows && c < cols ==> #[trigger] f.requires((r, c)),
                matrix@.len() == row,
                forall|r: int| 0 <= r < row ==> #[trigger] matrix@[r]@.len() == cols,
                forall|r: u32, c: u32|
                    r < row && c < cols ==> seeded_by(*seeder, r, c, #[trigger] matrix@[r as int]@[c as int]),
            decreases rows - row,
        {
            let mut cells: Vec<Cell> = Vec::new();
            let mut col: u32 = 0;
            while col < cols
                invariant
                    row < rows,
                    col <= cols,
                    *seeder matches Some(f) ==> forall|r: u32, c: u32|
                        r < rows && c < cols ==> #[trigger] f.requires((r, c)),
                    cells@.len() == col,
                    forall|c: u32| c < col ==> seeded_by(*seeder, row, c, #[trigger] cells@[c as int]),
                decreases cols - col,
            {
                let is_dead = match seeder {
                    Some(f) => f(row, col),
                    None => true,
                };
                cells.push(Cell::create(is_dead));
                col = col + 1;
            }
            matrix.push(cells);
            row = row + 1;
        }
        matrix
    }

    /// Flips the cell at `(row, col)`; a position off the grid is ignored.
    /// The statistics are left as they are.
    pub fn toggle_cell_at(&mut self, row: usize, col: usize)
        requires
            old(self).wf(),
        ensures
            final(self).wf(),
            final(self)@ == toggled(old(self)@, row as int, col as int),
            final(self).generation() == old(self).generation(),
            final(self).alive_count() == old(self).alive_count(),
    {
        if row < self.cells.len() && col < self.cells[row].len() {
            self.cells[row][col].swap_state();
        }
        assert(self@ =~= toggled(old(self)@, row as int, col as int));
    }
}

impl Game {
    pub fn rows(&self) -> (r: usize)
        ensures
            r == self@.len(),
    {
        self.cells.len()
    }

    pub fn cols(&self) -> (r: usize)
        ensures
            r == grid_cols(self@),
    {
        if self.cells.len() == 0 {
            0
        } else {
            self.cells[0].len()
        }
    }

    /// The cell at `(row, col)`, or `None` off the grid.
    pub fn cell_at(&self, row: usize, col: usize) -> (r: Option<Cell>)
        ensures
            r == (if row < self@.len() && col < self@[row as int].len() {
                Some(self@[row as int][col as int])
            } else {
                None
            }),
    {
        if row < self.cells.len() && col < self.cells[row].len() {
            Some(self.cells[row][col])
        } else {
            None
        }
    }

    pub fn gen_number(&self) -> (r: u64)
        ensures
            r == self.generation(),
    {
        self.gen_number
    }

    pub fn alive_cells_number(&self) -> (r: u64)
        ensures
            r == self.alive_count(),
    {
        self.alive_cells_number
    }

    /// Hook run once before the first frame; the engine needs no preparation.
    pub fn setup(&self) {
    }
}

/// A cell in the corner of a grid whose cells are all alive has exactly three
/// alive neighbours: nothing wraps around to the opposite edges.
pub proof fn corner_neighbors_all_alive(g: Seq<Seq<Cell>>)
    requires
        is_grid(g),
        g.len() >= 2,
        grid_cols(g) >= 2,
        forall|row: int, col: int|
            0 <= row < g.len() && 0 <= col < g[row].len() ==> #[trigger] g[row][col] is Alive,
    ensures
        neighbor_count(g, 0, 0) == 3,
{
    assert(g[0].len() == grid_cols(g));
    assert(g[1].len() == grid_cols(g));
}

/// A dead cell is alive in the next generation exactly when it has three
/// alive neighbours.
pub proof fn birth_rule(g: Seq<Seq<Cell>>, row: int, col: int)
    requires
        0 <= row < g.len(),
        0 <= col < g[row].len(),
        g[row][col] is Dead,
    ensures
        next_gen(g)[row][col] is Alive <==> neighbor_count(g, row, col) == 3,
{
}

/// An alive cell stays alive in the next generation exactly when it has two
/// or three alive neighbours.
pub proof fn survival_rule(g: Seq<Seq<Cell>>, row: int, col: int)
    requires
        0 <= row < g.len(),
        0 <= col < g[row].len(),
        g[row][col] is Alive,
    ensures
        next_gen(g)[row][col] is Alive <==> (neighbor_count(g, row, col) == 2 || neighbor_count(
            g,
            row,
            col,
        ) == 3),
{
}

/// Toggling the same position twice gives back the grid, and toggling a
/// position off the grid changes nothing.
pub proof fn toggle_round_trip(g: Seq<Seq<Cell>>, row: int, col: int)
    ensures
        toggled(toggled(g, row, col), row, col) == g,
        !(0 <= row < g.len() && 0 <= col < g[row].len()) ==> toggled(g, row, col) == g,
{
    if 0 <= row < g.len() && 0 <= col < g[row].len() {
        let t = toggled(g, row, col);
        assert(t[row] =~= g[row].update(col, cell_of(g[row][col] is Alive)));
        assert(t[row].update(col, cell_of(t[row][col] is Alive)) =~= g[row]);
        assert(toggled(t, row, col) =~= g);
    }
}

/// `(row, col)` lies in the 2x2 square whose top-left cell is `(r0, c0)`.
pub open spec fn in_block(r0: int, c0: int, row: int, col: int) -> bool {
    r0 <= row <= r0 + 1 && c0 <= col <= c0 + 1
}

/// The alive cells of `g` are exactly the 2x2 square at `(r0, c0)`, which lies
/// on the grid.
pub open spec fn only_block(g: Seq<Seq<Cell>>, r0: int, c0: int) -> bool {
    &&& 0 <= r0 && r0 + 1 < g.len()
    &&& 0 <= c0 && c0 + 1 < grid_cols(g)
    &&& forall|row: int, col: int|
        0 <= row < g.len() && 0 <= col < g[row].len() ==> (#[trigger] g[row][col] is Alive
            <==> in_block(r0, c0, row, col))
}

/// The grid after `k` generations from `g`.
pub open spec fn gens_after(g: Seq<Seq<Cell>>, k: nat) -> Seq<Seq<Cell>>
    decreases k,
{
    if k == 0 {
        g
    } else {
        next_gen(gens_after(g, (k - 1) as nat))
    }
}

proof fn lemma_block_alive_num(g: Seq<Seq<Cell>>, r0: int, c0: int, row: int, col: int)
    requires
        is_grid(g),
        only_block(g, r0, c0),
    ensures
        alive_num(g, row, col) == if in_block(r0, c0, row, col) {
            1int
        } else {
            0int
        },
{
    if 0 <= row < g.len() {
        assert(g[row].len() == grid_cols(g));
    }
}

proof fn lemma_block_cell(g: Seq<Seq<Cell>>, r0: int, c0: int, row: int, col: int)
    requires
        is_grid(g),
        only_block(g, r0, c0),
        0 <= row < g.len(),
        0 <= col < g[row].len(),
    ensures
        next_cell(g, row, col) == g[row][col],
{
    lemma_block_alive_num(g, r0, c0, row - 1, col - 1);
    lemma_block_alive_num(g, r0, c0, row - 1, col);
    lemma_block_alive_num(g, r0, c0, row - 1, col + 1);
    lemma_block_alive_num(g, r0, c0, row, col - 1);
    lemma_block_alive_num(g, r0, c0, row, col + 1);
    lemma_block_alive_num(g, r0, c0, row + 1, col - 1);
    lemma_block_alive_num(g, r0, c0, row + 1, col);
    lemma_block_alive_num(g, r0, c0, row + 1, col + 1);
}

/// A 2x2 block of alive cells with every other cell dead is a still life:
/// in a grid of any size, and wherever the block stands, no number of
/// generations changes it.
pub proof fn block_still_life(g: Seq<Seq<Cell>>, r0: int, c0: int, k: nat)
    requires
        is_grid(g),
        only_block(g, r0, c0),
    ensures
        next_gen(g) == g,
        gens_after(g, k) == g,
    decreases k,
{
    assert forall|row: int| 0 <= row < g.len() implies #[trigger] next_gen(g)[row] == g[row] by {
        assert forall|col: int| 0 <= col < g[row].len() implies next_gen(g)[row][col]
            == g[row][col] by {
            lemma_block_cell(g, r0, c0, row, col);
        }
        assert(next_gen(g)[row] =~= g[row]);
    }
    assert(next_gen(g) =~= g);
    if k > 0 {
        block_still_life(g, r0, c0, (k - 1) as nat);
    }
}

} // verus!
