//! Three familiar grids and what the rule makes of them: the empty grid,
//! and the blinker lying flat and standing upright.

use vstd::prelude::*;
use crate::board::Grid;
use crate::detection::advanced_unfolds;
use crate::detection::death_is_a_recent_repeat;
use crate::game::advanced;
use crate::game::dead;
use crate::game::GameView;
use crate::rules::generations;
use crate::rules::live_at;
use crate::rules::neighbor_count;
use crate::rules::next_grid;

verus! {

/// The grid of `w` columns and `h` rows with no live cell.
pub open spec fn barren(w: nat, h: nat) -> Grid {
    Seq::new(h, |y: int| Seq::new(w, |x: int| false))
}

/// The grid of `w` columns and `h` rows whose only live cells are the
/// three in row `cy` from column `cx - 1` to column `cx + 1`.
pub open spec fn blinker_flat(w: nat, h: nat, cx: int, cy: int) -> Grid {
    Seq::new(h, |y: int| Seq::new(w, |x: int| y == cy && cx - 1 <= x <= cx + 1))
}

/// The grid of `w` columns and `h` rows whose only live cells are the
/// three in column `cx` from row `cy - 1` to row `cy + 1`.
pub open spec fn blinker_upright(w: nat, h: nat, cx: int, cy: int) -> Grid {
    Seq::new(h, |y: int| Seq::new(w, |x: int| x == cx && cy - 1 <= y <= cy + 1))
}

/// Nothing is born on an empty grid, under either topology.
pub proof fn barren_stays_barren(w: nat, h: nat, torus: bool)
    requires
        w > 0,
        h > 0,
    ensures
        next_grid(barren(w, h), torus) == barren(w, h),
{
    let g = barren(w, h);
    assert forall|x: int, y: int| !live_at(g, x, y, torus) by {
        vstd::arithmetic::div_mod::lemma_mod_bound(x, w as int);
        vstd::arithmetic::div_mod::lemma_mod_bound(y, h as int);
    }
    assert forall|x: int, y: int| neighbor_count(g, x, y, torus) == 0 by {}
    assert(next_grid(g, torus) =~~= g);
}

/// A game that starts on a grid which the rule leaves as it is, with
/// nothing on record, is alive at first and dead after one round.
pub proof fn still_grid_dies_in_one_round(s: GameView)
    requires
        s.past.len() == 0,
        next_grid(s.grid, s.torus) == s.grid,
    ensures
        !dead(advanced(s, 0)),
        dead(advanced(s, 1)),
{
    assert(generations(s.grid, s.torus, 1) == next_grid(generations(s.grid, s.torus, 0), s.torus));
    death_is_a_recent_repeat(s, 1);
    assert(generations(s.grid, s.torus, 0) == s.grid);
}

/// On a bounded grid a blinker that keeps clear of the edge by its middle
/// cell turns from flat to upright in one generation and back in the next.
pub proof fn blinker_turns(w: nat, h: nat, cx: int, cy: int)
    requires
        1 <= cx < w - 1,
        1 <= cy < h - 1,
    ensures
        next_grid(blinker_flat(w, h, cx, cy), false) == blinker_upright(w, h, cx, cy),
        next_grid(blinker_upright(w, h, cx, cy), false) == blinker_flat(w, h, cx, cy),
{
    let flat = blinker_flat(w, h, cx, cy);
    let upright = blinker_upright(w, h, cx, cy);
    assert(next_grid(flat, false) =~~= upright);
    assert(next_grid(upright, false) =~~= flat);
}

/// A game that starts on a flat blinker on a bounded grid, with nothing on
/// record, is alive at first and after one round, and dead after two.
pub proof fn blinker_dies_in_two_rounds(s: GameView, w: nat, h: nat, cx: int, cy: int)
    requires
        1 <= cx < w - 1,
        1 <= cy < h - 1,
        s.past.len() == 0,
        !s.torus,
        s.grid == blinker_flat(w, h, cx, cy),
    ensures
        !dead(advanced(s, 0)),
        !dead(advanced(s, 1)),
        advanced(s, 1).grid == blinker_upright(w, h, cx, cy),
        dead(advanced(s, 2)),
        advanced(s, 2).grid == blinker_flat(w, h, cx, cy),
{
    blinker_turns(w, h, cx, cy);
    let flat = blinker_flat(w, h, cx, cy);
    let upright = blinker_upright(w, h, cx, cy);
    assert(generations(flat, false, 0) == flat);
    assert(generations(flat, false, 1) == next_grid(generations(flat, false, 0), false));
    assert(generations(flat, false, 2) == next_grid(generations(flat, false, 1), false));
    assert(flat[cy][cx - 1] != upright[cy][cx - 1]);
    advanced_unfolds(s, 1);
    advanced_unfolds(s, 2);
    death_is_a_recent_repeat(s, 1);
    death_is_a_recent_repeat(s, 2);
}

} // verus!
