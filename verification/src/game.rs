//! The game: a board, the generations it has been through, and the rule
//! that takes it from one generation to the next.

use vstd::prelude::*;
use crate::board::Board;
use crate::board::Grid;
use crate::history::History;
use crate::history::remember;
use crate::history::remember_stays_bounded;
use crate::random::toss;
use crate::rules::generations;
use crate::rules::height;
use crate::rules::in_range;
use crate::rules::live_at;
use crate::rules::neighbor_count;
use crate::rules::next_cell;
use crate::rules::next_grid;
use crate::rules::rectangular;
use crate::rules::tally;
use crate::rules::width;

verus! {

/// The number of past generations that a game keeps for comparison.
pub const PREVS_MAX_LENGTH: usize = 10_000;

/// A game as a mathematical value.
pub struct GameView {
    /// The grid the game started from.
    pub init: Grid,
    /// The present generation.
    pub grid: Grid,
    /// The generations on record, oldest first.
    pub past: Seq<Grid>,
    /// Whether the edges of the grid wrap round.
    pub torus: bool,
    /// The number of generations computed so far.
    pub epochs: nat,
}

/// Whether `a` is a proper grid of the same height and width as `b`.
pub open spec fn same_shape(a: Grid, b: Grid) -> bool {
    &&& rectangular(a)
    &&& height(a) == height(b)
    &&& width(a) == width(b)
}

/// What holds of every game in use: it started from a proper grid, its
/// present grid has the shape of that start and is what the rule makes of
/// it after `epochs` generations, and its record is within the limit and
/// holds only grids of the starting shape.
pub open spec fn valid(s: GameView) -> bool {
    &&& rectangular(s.init)
    &&& same_shape(s.grid, s.init)
    &&& s.grid == generations(s.init, s.torus, s.epochs)
    &&& s.past.len() <= PREVS_MAX_LENGTH
    &&& forall|i: int| 0 <= i < s.past.len() ==> same_shape(#[trigger] s.past[i], s.init)
}

/// The game one generation on: the rule applied to every cell, and one more
/// epoch counted. The record is untouched.
pub open spec fn stepped(s: GameView) -> GameView {
    GameView { grid: next_grid(s.grid, s.torus), epochs: s.epochs + 1, ..s }
}

/// The game with its present grid put on record.
pub open spec fn recorded(s: GameView) -> GameView {
    GameView { past: remember(s.past, s.grid, PREVS_MAX_LENGTH as nat), ..s }
}

/// A game is dead when its present grid is on record.
pub open spec fn dead(s: GameView) -> bool {
    s.past.contains(s.grid)
}

/// The game after `n` rounds, each of which records the present grid and
/// then steps.
pub open spec fn advanced(s: GameView, n: nat) -> GameView
    decreases n,
{
    if n == 0 {
        s
    } else {
        stepped(recorded(advanced(s, (n - 1) as nat)))
    }
}

/// A game of life on a grid of fixed shape.
pub struct Game {
    /// The board the game started from.
    pub init_board: Board,
    board: Board,
    buffer: Board,
    prevs: History,
    is_torus: bool,
    epochs: usize,
}

impl View for Game {
    type V = GameView;

    closed spec fn view(&self) -> GameView {
        GameView {
            init: self.init_board@,
            grid: self.board@,
            past: self.prevs@,
            torus: self.is_torus,
            epochs: self.epochs as nat,
        }
    }
}

impl Game {
    /// The game is in a state that `step` can start from: it is `valid`, and
    /// it is at rest between two steps.
    pub open spec fn wf(&self) -> bool {
        &&& valid(self@)
        &&& self.at_rest()
    }

    /// Between two steps the scratch board mirrors the present one, and the
    /// record has the limit that every game has.
    pub closed spec fn at_rest(&self) -> bool {
        &&& self.buffer@ == self.board@
        &&& self.prevs.limit() == PREVS_MAX_LENGTH
    }

    /// A game that starts from `board`, with nothing on record and no
    /// generation computed.
    pub fn new(board: Board, is_torus: bool) -> (game: Self)
        requires
            rectangular(board@),
        ensures
            game.wf(),
            game@ == (GameView {
                init: board@,
                grid: board@,
                past: Seq::<Grid>::empty(),
                torus: is_torus,
                epochs: 0,
            }),
    {
        Self {
            board: board.clone(),
            buffer: board.clone(),
            is_torus,
            init_board: board.clone(),
            prevs: History::new(PREVS_MAX_LENGTH),
            epochs: 0,
        }
    }

    /// A game on a grid of `width` columns and `height` rows in which each
    /// cell is alive or dead by the toss of a fair coin.
    pub fn new_random(width: usize, height: usize, is_torus: bool) -> (game: Self)
        requires
            width > 0,
            height > 0,
        ensures
            game.wf(),
            rectangular(game@.grid),
            crate::rules::height(game@.grid) == height,
            crate::rules::width(game@.grid) == width,
            game@.init == game@.grid,
            game@.past == Seq::<Grid>::empty(),
            game@.torus == is_torus,
            game@.epochs == 0,
    {
        let mut rng = rand::thread_rng();
        let mut rows: Vec<Vec<bool>> = Vec::new();
        let mut y: usize = 0;
        while y < height
            invariant
                y <= height,
                rows@.len() == y,
                forall|r: int| 0 <= r < y ==> (#[trigger] rows@[r]).len() == width,
            decreases height - y,
        {
            let mut row: Vec<bool> = Vec::new();
            let mut x: usize = 0;
            while x < width
                invariant
                    x <= width,
                    row@.len() == x,
                decreases width - x,
            {
                row.push(toss(&mut rng));
                x += 1;
            }
            rows.push(row);
            y += 1;
        }
        proof {
            let g = rows.deep_view();
            assert(g.len() == height);
            assert forall|r: int| 0 <= r < g.len() implies #[trigger] g[r].len() == width by {
                assert(g[r] == rows@[r].deep_view());
                assert(rows@[r].deep_view().len() == rows@[r].len());
            }
        }
        Self::new(Board::new(rows), is_torus)
    }

    /// The number of rows.
    pub fn height(&self) -> (h: usize)
        ensures
            h == height(self@.grid),
    {
        self.board.height()
    }

    /// The number of columns.
    pub fn width(&self) -> (w: usize)
        requires
            self@.grid.len() > 0,
        ensures
            w == width(self@.grid),
    {
        self.board.width()
    }

    /// The rows of the present generation.
    pub fn board(&self) -> (rows: &Vec<Vec<bool>>)
        ensures
            rows.deep_view() == self@.grid,
    {
        self.board.board()
    }

    /// The number of generations computed so far.
    pub fn epochs(&self) -> (n: usize)
        ensures
            n == self@.epochs,
    {
        self.epochs
    }

    /// Whether the coordinate lies on the grid.
    pub fn check_within_range(&self, x: i32, y: i32) -> (inside: bool)
        requires
            self@.grid.len() > 0,
        ensures
            inside == in_range(self@.grid, x as int, y as int),
    {
        0 <= x && (x as usize) < self.width() && 0 <= y && (y as usize) < self.height()
    }

    /// Whether the coordinate one step of `(dx, dy)` away from the cell
    /// `(x, y)` stands for a live cell.
    fn neighbor_is_live(&self, x: usize, y: usize, dx: i32, dy: i32) -> (live: bool)
        requires
            rectangular(self@.grid),
            in_range(self@.grid, x as int, y as int),
            -1 <= dx <= 1,
            -1 <= dy <= 1,
        ensures
            live == live_at(self@.grid, x + dx, y + dy, self@.torus),
    {
        let width = self.width();
        let height = self.height();
        if stays_inside(x, dx, width) && stays_inside(y, dy, height) {
            let nx = moved(x, dx);
            let ny = moved(y, dy);
            assert(self@.grid[ny as int].len() == self@.grid[0].len());
            let cell = self.board.get(nx, ny);
            cell.unwrap()
        } else if self.is_torus {
            let nx = moved_round(x, dx, width);
            let ny = moved_round(y, dy, height);
            assert(self@.grid[ny as int].len() == self@.grid[0].len());
            let cell = self.board.get(nx, ny);
            cell.unwrap()
        } else {
            false
        }
    }

    /// The number of live cells among the eight that touch `(x, y)`.
    pub fn count_neighbors(&self, x: usize, y: usize) -> (count: usize)
        requires
            rectangular(self@.grid),
            in_range(self@.grid, x as int, y as int),
        ensures
            count == neighbor_count(self@.grid, x as int, y as int, self@.torus),
    {
        let mut count: usize = 0;
        count += one_if(self.neighbor_is_live(x, y, -1, -1));
        count += one_if(self.neighbor_is_live(x, y, -1, 0));
        count += one_if(self.neighbor_is_live(x, y, -1, 1));
        count += one_if(self.neighbor_is_live(x, y, 0, -1));
        count += one_if(self.neighbor_is_live(x, y, 0, 1));
        count += one_if(self.neighbor_is_live(x, y, 1, -1));
        count += one_if(self.neighbor_is_live(x, y, 1, 0));
        count += one_if(self.neighbor_is_live(x, y, 1, 1));
        count
    }

    /// Whether the present generation is on record.
    pub fn is_dead(&self) -> (gone: bool)
        ensures
            gone == dead(self@),
    {
        self.prevs.contains(&self.board)
    }

    /// Runs the game until it is dead: as long as the present generation is
    /// not on record, it is put on record and the next one is computed. The
    /// run also ends if the epoch counter can count no further.
    pub fn step_until_dead(&mut self)
        requires
            old(self).wf(),
        ensures
            final(self).wf(),
            final(self)@.epochs >= old(self)@.epochs,
            final(self)@ == advanced(
                old(self)@,
                (final(self)@.epochs - old(self)@.epochs) as nat,
            ),
            forall|k: nat|
                k < final(self)@.epochs - old(self)@.epochs ==> !dead(
                    #[trigger] advanced(old(self)@, k),
                ),
            dead(final(self)@) || final(self)@.epochs == usize::MAX,
    {
        let ghost start = self@;
        let ghost mut rounds: nat = 0;
        while !self.is_dead() && self.epochs < usize::MAX
            invariant
                self.wf(),
                self@ == advanced(start, rounds),
                self@.epochs == start.epochs + rounds,
                forall|k: nat| k < rounds ==> !dead(#[trigger] advanced(start, k)),
            decreases usize::MAX - self.epochs,
        {
            proof {
                remember_stays_bounded(self@.past, self@.grid, PREVS_MAX_LENGTH as nat);
            }
            self.prevs.push(self.board.clone());
            self.step();
            proof {
                rounds = rounds + 1;
            }
        }
    }

    /// Computes the next generation: every cell is decided by the rule from
    /// the present grid, and one more epoch is counted.
    pub fn step(&mut self)
        requires
            old(self).wf(),
            old(self)@.epochs < usize::MAX,
        ensures
            final(self).wf(),
            final(self)@ == stepped(old(self)@),
    {
        let ghost g = self@.grid;
        let ghost torus = self@.torus;
        let height = self.height();
        let width = self.width();
        let mut y: usize = 0;
        while y < height
            invariant
                y <= height,
                height == g.len(),
                width == g[0].len(),
                rectangular(g),
                self.board@ == g,
                self.is_torus == torus,
                self@ == old(self)@,
                self.prevs == old(self).prevs,
                self.buffer@.len() == g.len(),
                forall|r: int| 0 <= r < height ==> (#[trigger] self.buffer@[r]).len() == width,
                forall|r: int, c: int|
                    0 <= r < y && 0 <= c < width ==> (#[trigger] self.buffer@[r][c]) == next_cell(
                        g[r][c],
                        neighbor_count(g, c, r, torus),
                    ),
                forall|r: int, c: int|
                    y <= r < height && 0 <= c < width ==> (#[trigger] self.buffer@[r][c])
                        == g[r][c],
            decreases height - y,
        {
            let mut x: usize = 0;
            while x < width
                invariant
                    y < height,
                    x <= width,
                    height == g.len(),
                    width == g[0].len(),
                    rectangular(g),
                    self.board@ == g,
                    self.is_torus == torus,
                    self@ == old(self)@,
                    self.prevs == old(self).prevs,
                    self.buffer@.len() == g.len(),
                    forall|r: int| 0 <= r < height ==> (#[trigger] self.buffer@[r]).len() == width,
                    forall|r: int, c: int|
                        (0 <= r < y && 0 <= c < width) || (r == y && 0 <= c < x) ==> (
                        #[trigger] self.buffer@[r][c]) == next_cell(
                            g[r][c],
                            neighbor_count(g, c, r, torus),
                        ),
                    forall|r: int, c: int|
                        (y < r < height && 0 <= c < width) || (r == y && x <= c < width) ==> (
                        #[trigger] self.buffer@[r][c]) == g[r][c],
                decreases width - x,
            {
                let ghost before = self.buffer@;
                assert(before[y as int].len() == width);
                assert(before[y as int][x as int] == g[y as int][x as int]);
                let neighbors = self.count_neighbors(x, y);
                let alive = self.buffer.get(x, y);
                if alive.unwrap() {
                    if !(neighbors == 2 || neighbors == 3) {
                        self.buffer.set(x, y, false);
                    }
                } else if neighbors == 3 {
                    self.buffer.set(x, y, true);
                }
                proof {
                    let after = self.buffer@;
                    assert(after[y as int][x as int] == next_cell(
                        g[y as int][x as int],
                        neighbor_count(g, x as int, y as int, torus),
                    ));
                    assert forall|r: int, c: int|
                        0 <= r < height && 0 <= c < width && !(r == y && c == x) implies (
                    #[trigger] after[r][c]) == before[r][c] by {
                        assert(before[r].len() == width);
                    }
                    assert forall|r: int| 0 <= r < height implies (#[trigger] after[r]).len()
                        == width by {
                        assert(before[r].len() == width);
                    }
                }
                x += 1;
            }
            y += 1;
        }
        proof {
            assert forall|r: int| 0 <= r < g.len() implies #[trigger] g[r].len() == width by {}
            assert(self.buffer@ =~~= next_grid(g, torus));
            crate::rules::next_grid_keeps_shape(g, torus);
        }
        self.board = self.buffer.clone();
        self.epochs += 1;
    }
}

/// One for a live cell, zero for a dead one.
fn one_if(live: bool) -> (n: usize)
    ensures
        n == tally(live),
{
    if live {
        1
    } else {
        0
    }
}

/// Whether one step of `delta` from `pos` stays on an axis of `len` cells.
fn stays_inside(pos: usize, delta: i32, len: usize) -> (inside: bool)
    requires
        pos < len,
        -1 <= delta <= 1,
    ensures
        inside == (0 <= pos + delta < len),
{
    if delta < 0 {
        pos > 0
    } else if delta > 0 {
        pos < len - 1
    } else {
        true
    }
}

/// The position one step of `delta` from `pos`.
fn moved(pos: usize, delta: i32) -> (res: usize)
    requires
        -1 <= delta <= 1,
        0 <= pos + delta < usize::MAX,
    ensures
        res == pos + delta,
{
    if delta < 0 {
        pos - 1
    } else if delta > 0 {
        pos + 1
    } else {
        pos
    }
}

/// The position one step of `delta` from `pos` on an axis of `len` cells
/// whose two ends are joined.
fn moved_round(pos: usize, delta: i32, len: usize) -> (res: usize)
    requires
        pos < len,
        -1 <= delta <= 1,
    ensures
        res == (pos + delta) % (len as int),
        res < len,
{
    proof {
        vstd::arithmetic::div_mod::lemma_small_mod(pos as nat, len as nat);
        vstd::arithmetic::div_mod::lemma_mod_self_0(len as int);
        vstd::arithmetic::div_mod::lemma_small_mod((len - 1) as nat, len as nat);
        vstd::arithmetic::div_mod::lemma_mod_add_multiples_vanish(-1, len as int);
        if pos + 1 < len {
            vstd::arithmetic::div_mod::lemma_small_mod((pos + 1) as nat, len as nat);
        }
        if pos > 0 {
            vstd::arithmetic::div_mod::lemma_small_mod((pos - 1) as nat, len as nat);
        }
    }
    if delta < 0 {
        if pos == 0 {
            len - 1
        } else {
            pos - 1
        }
    } else if delta > 0 {
        if pos == len - 1 {
            0
        } else {
            pos + 1
        }
    } else {
        pos
    }
}

} // verus!
