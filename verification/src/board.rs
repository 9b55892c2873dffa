//! The rectangular grid of cells.

use vstd::prelude::*;
use vstd::std_specs::cmp::PartialEqSpec;
use vstd::std_specs::cmp::PartialEqSpecImpl;

verus! {

/// The cells of a grid as a mathematical value: a sequence of rows, each a
/// sequence of cell states. Row `y`, column `x` is `grid[y][x]`.
pub type Grid = Seq<Seq<bool>>;

/// A grid of cells, stored row by row.
#[derive(Debug, Hash)]
pub struct Board {
    board: Vec<Vec<bool>>,
}

impl View for Board {
    type V = Grid;

    closed spec fn view(&self) -> Grid {
        self.board.deep_view()
    }
}

impl Board {
    /// Wraps the given rows. Nothing is checked: the rows may differ in length.
    pub fn new(board: Vec<Vec<bool>>) -> (res: Self)
        ensures
            res@ == board.deep_view(),
    {
        Self { board }
    }

    /// The number of rows.
    pub fn height(&self) -> (h: usize)
        ensures
            h == self@.len(),
    {
        self.board.len()
    }

    /// The length of the first row.
    pub fn width(&self) -> (w: usize)
        requires
            self@.len() > 0,
        ensures
            w == self@[0].len(),
    {
        self.board[0].len()
    }

    /// The rows themselves.
    pub fn board(&self) -> (rows: &Vec<Vec<bool>>)
        ensures
            rows.deep_view() == self@,
    {
        &self.board
    }

    /// The rows themselves, open to change: whatever the caller leaves in
    /// them is the board afterwards.
    pub fn board_mut(&mut self) -> (rows: &mut Vec<Vec<bool>>)
        ensures
            rows.deep_view() == old(self)@,
            final(self)@ == final(rows).deep_view(),
    {
        &mut self.board
    }

    /// The cell in column `x` of row `y`, or `None` where the board has no
    /// such cell.
    pub fn get(&self, x: usize, y: usize) -> (cell: Option<bool>)
        ensures
            cell == if y < self@.len() && x < self@[y as int].len() {
                Some(self@[y as int][x as int])
            } else {
                None
            },
    {
        if y < self.board.len() {
            let row = &self.board[y];
            if x < row.len() {
                Some(row[x])
            } else {
                None
            }
        } else {
            None
        }
    }

    /// Writes `value` into column `x` of row `y`.
    pub fn set(&mut self, x: usize, y: usize, value: bool)
        requires
            y < old(self)@.len(),
            x < old(self)@[y as int].len(),
        ensures
            final(self)@ == old(self)@.update(y as int, old(self)@[y as int].update(x as int, value)),
    {
        self.board[y][x] = value;
        proof {
            let before = old(self)@;
            assert(self@ =~~= before.update(y as int, before[y as int].update(x as int, value)));
        }
    }
}

impl Clone for Board {
    /// An independent board with the same cells.
    fn clone(&self) -> (res: Self)
        ensures
            res@ == self@,
    {
        let rows = self.board.clone();
        proof {
            assert(rows.deep_view() =~~= self.board.deep_view());
        }
        Self { board: rows }
    }
}

impl PartialEq for Board {
    /// Two boards are equal when they have the same rows of the same cells.
    fn eq(&self, other: &Self) -> (same: bool) {
        let same = self.board == other.board;
        proof {
            let a = self.board;
            let b = other.board;
            if same {
                assert(a.deep_view() =~~= b.deep_view());
            } else if a.deep_view() == b.deep_view() {
                assert(a.len() == a.deep_view().len() && b.len() == b.deep_view().len());
                assert forall|i: int| 0 <= i < a.len() implies #[trigger] PartialEqSpec::eq_spec(
                    &a[i],
                    &b[i],
                ) by {
                    assert(a[i].deep_view() == a.deep_view()[i]);
                    assert(b[i].deep_view() == b.deep_view()[i]);
                    assert(a[i].len() == a[i].deep_view().len());
                    assert(b[i].len() == b[i].deep_view().len());
                    assert forall|j: int| 0 <= j < a[i].len() implies a[i][j] == b[i][j] by {
                        assert(a[i][j] == a[i].deep_view()[j]);
                        assert(b[i][j] == b[i].deep_view()[j]);
                    }
                }
            }
        }
        same
    }
}

impl PartialEqSpecImpl for Board {
    open spec fn obeys_eq_spec() -> bool {
        true
    }

    open spec fn eq_spec(&self, other: &Self) -> bool {
        self@ == other@
    }
}

impl Eq for Board {

}

} // verus!
