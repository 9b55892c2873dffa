//! What a run of rounds amounts to, and when it finds the game dead.

use vstd::prelude::*;
use crate::board::Grid;
use crate::game::advanced;
use crate::game::dead;
use crate::game::valid;
use crate::game::GameView;
use crate::game::PREVS_MAX_LENGTH;
use crate::history::latest;
use crate::history::remember_all;
use crate::history::window_holds_latest;
use crate::rules::generations;
use crate::rules::generations_keep_shape;

verus! {

/// The first `n` generations of `g`, starting with `g` itself: the grids
/// that `n` rounds put on record, in order.
pub open spec fn trail(g: Grid, torus: bool, n: nat) -> Seq<Grid> {
    Seq::new(n, |k: int| generations(g, torus, k as nat))
}

/// After `n` rounds the grid is `n` generations on, `n` more epochs are
/// counted, and the record has taken in the `n` grids passed through. The
/// starting grid and the topology are as they were.
pub proof fn advanced_unfolds(s: GameView, n: nat)
    ensures
        advanced(s, n).grid == generations(s.grid, s.torus, n),
        advanced(s, n).past == remember_all(
            s.past,
            trail(s.grid, s.torus, n),
            PREVS_MAX_LENGTH as nat,
        ),
        advanced(s, n).epochs == s.epochs + n,
        advanced(s, n).init == s.init,
        advanced(s, n).torus == s.torus,
    decreases n,
{
    if n == 0 {
        assert(trail(s.grid, s.torus, 0).len() == 0);
    } else {
        let m = (n - 1) as nat;
        advanced_unfolds(s, m);
        assert(trail(s.grid, s.torus, n).drop_last() =~= trail(s.grid, s.torus, m));
        assert(trail(s.grid, s.torus, n).last() == generations(s.grid, s.torus, m));
    }
}

/// Rounds keep a valid game valid.
pub proof fn advanced_keeps_valid(s: GameView, n: nat)
    requires
        valid(s),
    ensures
        valid(advanced(s, n)),
    decreases n,
{
    if n > 0 {
        let before = advanced(s, (n - 1) as nat);
        advanced_keeps_valid(s, (n - 1) as nat);
        generations_keep_shape(s.init, s.torus, before.epochs + 1);
    }
}

/// The record after `n` rounds is the latest of what was on record before
/// and the grids passed through.
pub proof fn record_after_rounds(s: GameView, n: nat)
    requires
        s.past.len() <= PREVS_MAX_LENGTH,
    ensures
        advanced(s, n).past == latest(
            s.past + trail(s.grid, s.torus, n),
            PREVS_MAX_LENGTH as nat,
        ),
        advanced(s, n).past.len() <= PREVS_MAX_LENGTH,
{
    advanced_unfolds(s, n);
    window_holds_latest(s.past, trail(s.grid, s.torus, n), PREVS_MAX_LENGTH as nat);
}

/// A grid that comes back within the window is found: if generation `p`
/// equals an earlier generation `q`, no more than `PREVS_MAX_LENGTH` rounds
/// before it, the game is dead after `p` rounds.
pub proof fn repeat_within_window_is_dead(s: GameView, q: nat, p: nat)
    requires
        s.past.len() <= PREVS_MAX_LENGTH,
        q < p,
        p - q <= PREVS_MAX_LENGTH,
        generations(s.grid, s.torus, q) == generations(s.grid, s.torus, p),
    ensures
        dead(advanced(s, p)),
{
    record_after_rounds(s, p);
    advanced_unfolds(s, p);
    let all = s.past + trail(s.grid, s.torus, p);
    let kept = latest(all, PREVS_MAX_LENGTH as nat);
    let at = (s.past.len() + q) as int;
    assert(all[at] == generations(s.grid, s.torus, q));
    if all.len() <= PREVS_MAX_LENGTH {
        assert(kept[at] == all[at]);
    } else {
        let shift = all.len() - PREVS_MAX_LENGTH;
        assert(kept[at - shift] == all[at]);
    }
}

/// In a game that started with nothing on record, death is exactly a
/// repeat within the window: the game is dead after `n` rounds if and only
/// if generation `n` equals one of the `PREVS_MAX_LENGTH` generations
/// before it.
pub proof fn death_is_a_recent_repeat(s: GameView, n: nat)
    requires
        s.past.len() == 0,
    ensures
        dead(advanced(s, n)) <==> exists|q: nat|
            q < n && n - q <= PREVS_MAX_LENGTH && #[trigger] generations(s.grid, s.torus, q)
                == generations(s.grid, s.torus, n),
{
    record_after_rounds(s, n);
    advanced_unfolds(s, n);
    let now = generations(s.grid, s.torus, n);
    let all = s.past + trail(s.grid, s.torus, n);
    let kept = latest(all, PREVS_MAX_LENGTH as nat);
    assert(all =~= trail(s.grid, s.torus, n));
    if dead(advanced(s, n)) {
        let i = choose|i: int| 0 <= i < kept.len() && kept[i] == now;
        let q = if all.len() <= PREVS_MAX_LENGTH {
            i as nat
        } else {
            (i + all.len() - PREVS_MAX_LENGTH) as nat
        };
        assert(all[q as int] == generations(s.grid, s.torus, q));
        assert(q < n && n - q <= PREVS_MAX_LENGTH && generations(s.grid, s.torus, q) == now);
    }
    if exists|q: nat|
        q < n && n - q <= PREVS_MAX_LENGTH && #[trigger] generations(s.grid, s.torus, q) == now {
        let q = choose|q: nat|
            q < n && n - q <= PREVS_MAX_LENGTH && #[trigger] generations(s.grid, s.torus, q)
                == now;
        repeat_within_window_is_dead(s, q, n);
    }
}

} // verus!
