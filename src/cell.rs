use rand::Rng;
use vstd::prelude::*;

verus! {

/// The state of one position of the grid.
#[derive(Clone, Copy, PartialEq, Eq, Debug, Structural)]
pub enum Cell {
    Alive,
    Dead,
}

/// The cell that `create(is_dead)` builds.
pub open spec fn cell_of(is_dead: bool) -> Cell {
    if is_dead {
        Cell::Dead
    } else {
        Cell::Alive
    }
}

/// The survival rule, as the `is_dead` flag of the next state: a dead cell with
/// exactly three alive neighbours is born, an alive cell with two or three
/// survives, and every other cell is dead in the next generation.
pub open spec fn next_is_dead(neighbors_count: int, is_dead: bool) -> bool {
    !((is_dead && neighbors_count == 3) || (!is_dead && (neighbors_count == 2
        || neighbors_count == 3)))
}

impl Cell {
    pub fn is_alive(&self) -> (r: bool)
        ensures
            r == (*self is Alive),
    {
        matches!(self, Cell::Alive)
    }

    pub fn is_dead(&self) -> (r: bool)
        ensures
            r == (*self is Dead),
    {
        !self.is_alive()
    }

    /// Flips the cell between alive and dead.
    pub fn swap_state(&mut self)
        ensures
            *final(self) == cell_of(*old(self) is Alive),
    {
        if self.is_alive() {
            *self = Cell::Dead;
        } else {
            *self = Cell::Alive;
        }
    }

    pub fn create(is_dead: bool) -> (r: Cell)
        ensures
            r == cell_of(is_dead),
    {
        if is_dead {
            Cell::Dead
        } else {
            Cell::Alive
        }
    }
}

/// Applies the survival rule to a cell with `neighbors_count` alive neighbours;
/// the result is whether the cell is dead in the next generation.
pub fn apply_cell_rules(neighbors_count: i32, is_dead: bool) -> (r: bool)
    ensures
        r == next_is_dead(neighbors_count as int, is_dead),
{
    match (neighbors_count, is_dead) {
        (3, true) => false,
        (2, false) | (3, false) => false,
        _ => true,
    }
}

/// Whether a randomly seeded cell starts dead, given a uniform draw from
/// `0..100`: it starts alive exactly when the draw is below `percentage`, so
/// each cell is alive with probability `percentage / 100`.
pub open spec fn seeded_dead(draw: int, percentage: int) -> bool {
    draw >= percentage
}

/// Decides the initial state of a randomly seeded cell from the draw it got.
pub fn is_dead_for_draw(draw: u32, percentage: u32) -> (r: bool)
    ensures
        r == seeded_dead(draw as int, percentage as int),
{
    draw >= percentage
}

/// Relies on rand's `thread_rng().gen_range(0..bound)`: a draw that lies in
/// `0..bound` (the range is not empty, so the call does not panic).
#[verifier::external_body]
fn draw_below(bound: u32) -> (r: u32)
    requires
        0 < bound,
    ensures
        r < bound,
{
    rand::thread_rng().gen_range(0..bound)
}

/// A seeder that ignores the position and makes each cell alive with
/// probability `percentage / 100`, from a fresh draw per call.
pub fn get_random_seeder(percentage: u32) -> (seeder: impl Fn(u32, u32) -> bool)
    ensures
        forall|row: u32, col: u32| seeder.requires((row, col)),
        forall|row: u32, col: u32, is_dead: bool|
            #[trigger] seeder.ensures((row, col), is_dead) ==> exists|draw: int|
                0 <= draw < 100 && is_dead == seeded_dead(draw, percentage as int),
        forall|row: u32, col: u32, is_dead: bool|
            #[trigger] seeder.ensures((row, col), is_dead) ==> (percentage == 0 ==> is_dead)
                && (percentage >= 100 ==> !is_dead),
{
    move |_row: u32, _col: u32| -> (is_dead: bool)
        ensures
            exists|draw: int| 0 <= draw < 100 && is_dead == seeded_dead(draw, percentage as int),
            percentage == 0 ==> is_dead,
            percentage >= 100 ==> !is_dead,
        {
            let draw = draw_below(100);
            let is_dead = is_dead_for_draw(draw, percentage);
            assert(seeded_dead(draw as int, percentage as int) == is_dead);
            is_dead
        }
}

/// With a percentage of zero every draw leaves the cell dead; with a
/// percentage of one hundred or more every draw makes it alive.
pub proof fn random_seeding_bounds(draw: int, percentage: int)
    requires
        0 <= draw < 100,
        0 <= percentage,
    ensures
        percentage == 0 ==> seeded_dead(draw, percentage),
        percentage >= 100 ==> !seeded_dead(draw, percentage),
{
}

} // verus!
