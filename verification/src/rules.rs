//! The transition rule, stated over grids as mathematical values.
//!
//! Everything here is specification: what a neighbour is, how neighbours are
//! counted under either topology, and what the next generation of a grid is.

use vstd::prelude::*;
use crate::board::Grid;

verus! {

/// A grid that a game can run on: at least one row, at least one column,
/// and every row as long as the first.
pub open spec fn rectangular(g: Grid) -> bool {
    &&& g.len() > 0
    &&& g[0].len() > 0
    &&& forall|y: int| 0 <= y < g.len() ==> #[trigger] g[y].len() == g[0].len()
}

/// The number of rows.
pub open spec fn height(g: Grid) -> int {
    g.len() as int
}

/// The number of columns, read off the first row.
pub open spec fn width(g: Grid) -> int {
    g[0].len() as int
}

/// Whether column `x`, row `y` names a cell of the grid.
pub open spec fn in_range(g: Grid, x: int, y: int) -> bool {
    0 <= x < width(g) && 0 <= y < height(g)
}

/// Whether the coordinate `(x, y)`, which may lie outside the grid, stands
/// for a live cell. Inside the grid it is the cell itself. Outside, a torus
/// wraps both coordinates round, and a bounded grid has nothing there.
pub open spec fn live_at(g: Grid, x: int, y: int, torus: bool) -> bool {
    if in_range(g, x, y) {
        g[y][x]
    } else if torus {
        g[y % height(g)][x % width(g)]
    } else {
        false
    }
}

/// One for a live cell, zero for a dead one.
pub open spec fn tally(live: bool) -> int {
    if live {
        1
    } else {
        0
    }
}

/// The number of live cells among the eight that touch `(x, y)`.
pub open spec fn neighbor_count(g: Grid, x: int, y: int, torus: bool) -> int {
    tally(live_at(g, x - 1, y - 1, torus)) + tally(live_at(g, x - 1, y, torus)) + tally(
        live_at(g, x - 1, y + 1, torus),
    ) + tally(live_at(g, x, y - 1, torus)) + tally(live_at(g, x, y + 1, torus)) + tally(
        live_at(g, x + 1, y - 1, torus),
    ) + tally(live_at(g, x + 1, y, torus)) + tally(live_at(g, x + 1, y + 1, torus))
}

/// The fate of one cell: a live cell stays alive on two or three live
/// neighbours, a dead cell comes alive on exactly three.
pub open spec fn next_cell(alive: bool, neighbors: int) -> bool {
    if alive {
        neighbors == 2 || neighbors == 3
    } else {
        neighbors == 3
    }
}

/// The generation that follows `g`: every cell decided at once from `g`.
pub open spec fn next_grid(g: Grid, torus: bool) -> Grid {
    Seq::new(
        g.len(),
        |y: int| Seq::new(g[y].len(), |x: int| next_cell(g[y][x], neighbor_count(g, x, y, torus))),
    )
}

/// The grid `n` generations after `g`.
pub open spec fn generations(g: Grid, torus: bool, n: nat) -> Grid
    decreases n,
{
    if n == 0 {
        g
    } else {
        next_grid(generations(g, torus, (n - 1) as nat), torus)
    }
}

/// Whether two grids agree on the cell `(x, y)` and on the eight
/// coordinates around it, as `live_at` reads them.
pub open spec fn same_neighborhood(a: Grid, b: Grid, x: int, y: int, torus: bool) -> bool {
    forall|dx: int, dy: int|
        -1 <= dx <= 1 && -1 <= dy <= 1 ==> #[trigger] live_at(a, x + dx, y + dy, torus) == live_at(
            b,
            x + dx,
            y + dy,
            torus,
        )
}

/// A neighbour count lies between zero and eight.
pub proof fn neighbor_count_bounds(g: Grid, x: int, y: int, torus: bool)
    ensures
        0 <= neighbor_count(g, x, y, torus) <= 8,
{
}

/// The next generation has the shape of the present one.
pub proof fn next_grid_keeps_shape(g: Grid, torus: bool)
    requires
        rectangular(g),
    ensures
        rectangular(next_grid(g, torus)),
        height(next_grid(g, torus)) == height(g),
        width(next_grid(g, torus)) == width(g),
{
    let n = next_grid(g, torus);
    assert forall|y: int| 0 <= y < n.len() implies #[trigger] n[y].len() == n[0].len() by {
        assert(g[y].len() == g[0].len());
    }
}

/// Any number of generations on, the grid still has its first shape.
pub proof fn generations_keep_shape(g: Grid, torus: bool, n: nat)
    requires
        rectangular(g),
    ensures
        rectangular(generations(g, torus, n)),
        height(generations(g, torus, n)) == height(g),
        width(generations(g, torus, n)) == width(g),
    decreases n,
{
    if n > 0 {
        generations_keep_shape(g, torus, (n - 1) as nat);
        next_grid_keeps_shape(generations(g, torus, (n - 1) as nat), torus);
    }
}

/// Each cell of the next generation is decided by the rule from its own
/// state and the count of its live neighbours.
pub proof fn next_grid_follows_rule(g: Grid, torus: bool, x: int, y: int)
    requires
        rectangular(g),
        in_range(g, x, y),
    ensures
        next_grid(g, torus)[y][x] == next_cell(g[y][x], neighbor_count(g, x, y, torus)),
{
    assert(g[y].len() == g[0].len());
}

/// The next state of a cell depends on nothing but the three-by-three block
/// around it: two grids that agree there give the cell the same next state.
pub proof fn next_cell_is_local(a: Grid, b: Grid, torus: bool, x: int, y: int)
    requires
        rectangular(a),
        rectangular(b),
        in_range(a, x, y),
        in_range(b, x, y),
        same_neighborhood(a, b, x, y, torus),
    ensures
        next_grid(a, torus)[y][x] == next_grid(b, torus)[y][x],
{
    next_grid_follows_rule(a, torus, x, y);
    next_grid_follows_rule(b, torus, x, y);
    assert(live_at(a, x + 0, y + 0, torus) == live_at(b, x + 0, y + 0, torus));
    assert(live_at(a, x + (-1), y + (-1), torus) == live_at(b, x + (-1), y + (-1), torus));
    assert(live_at(a, x + (-1), y + 0, torus) == live_at(b, x + (-1), y + 0, torus));
    assert(live_at(a, x + (-1), y + 1, torus) == live_at(b, x + (-1), y + 1, torus));
    assert(live_at(a, x + 0, y + (-1), torus) == live_at(b, x + 0, y + (-1), torus));
    assert(live_at(a, x + 0, y + 1, torus) == live_at(b, x + 0, y + 1, torus));
    assert(live_at(a, x + 1, y + (-1), torus) == live_at(b, x + 1, y + (-1), torus));
    assert(live_at(a, x + 1, y + 0, torus) == live_at(b, x + 1, y + 0, torus));
    assert(live_at(a, x + 1, y + 1, torus) == live_at(b, x + 1, y + 1, torus));
}

/// A cell with exactly three live neighbours is alive in the next
/// generation, whatever it was before.
pub proof fn three_neighbors_give_life(g: Grid, torus: bool, x: int, y: int)
    requires
        rectangular(g),
        in_range(g, x, y),
        neighbor_count(g, x, y, torus) == 3,
    ensures
        next_grid(g, torus)[y][x],
{
    next_grid_follows_rule(g, torus, x, y);
}

/// A cell with fewer than two or more than three live neighbours is dead in
/// the next generation, whatever it was before.
pub proof fn too_few_or_too_many_give_death(g: Grid, torus: bool, x: int, y: int)
    requires
        rectangular(g),
        in_range(g, x, y),
        neighbor_count(g, x, y, torus) < 2 || neighbor_count(g, x, y, torus) > 3,
    ensures
        !next_grid(g, torus)[y][x],
{
    next_grid_follows_rule(g, torus, x, y);
}

/// Away from the edges the topology makes no difference: a cell whose eight
/// neighbours all lie inside the grid has the same count, and the same next
/// state, on a torus as on a bounded grid.
pub proof fn interior_ignores_topology(g: Grid, x: int, y: int)
    requires
        rectangular(g),
        1 <= x < width(g) - 1,
        1 <= y < height(g) - 1,
    ensures
        neighbor_count(g, x, y, true) == neighbor_count(g, x, y, false),
        next_grid(g, true)[y][x] == next_grid(g, false)[y][x],
{
    next_grid_follows_rule(g, true, x, y);
    next_grid_follows_rule(g, false, x, y);
}

} // verus!
