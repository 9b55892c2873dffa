//! The window of past generations: a queue that forgets its oldest entry
//! once it holds more than its limit.

use std::collections::VecDeque;
use vstd::prelude::*;
use crate::board::Board;
use crate::board::Grid;

verus! {

/// The window after `g` has been added to `past`: `g` goes on at the end,
/// and if that makes more than `limit` entries the first one is dropped.
pub open spec fn remember(past: Seq<Grid>, g: Grid, limit: nat) -> Seq<Grid> {
    let grown = past.push(g);
    if grown.len() > limit {
        grown.drop_first()
    } else {
        grown
    }
}

/// The window after each grid of `added` has been added in turn.
pub open spec fn remember_all(past: Seq<Grid>, added: Seq<Grid>, limit: nat) -> Seq<Grid>
    decreases added.len(),
{
    if added.len() == 0 {
        past
    } else {
        remember(remember_all(past, added.drop_last(), limit), added.last(), limit)
    }
}

/// A window within its limit is still within it after one more grid.
pub proof fn remember_stays_bounded(past: Seq<Grid>, g: Grid, limit: nat)
    requires
        past.len() <= limit,
    ensures
        remember(past, g, limit).len() <= limit,
        remember(past, g, limit).len() == if past.len() < limit {
            past.len() + 1
        } else {
            past.len()
        },
{
}

/// Adding to a full window drops exactly the oldest entry: what was second
/// is now first, the order of the rest is kept, and the new grid is last.
pub proof fn remember_drops_oldest(past: Seq<Grid>, g: Grid, limit: nat)
    requires
        past.len() == limit,
        limit > 0,
    ensures
        remember(past, g, limit) == past.skip(1).push(g),
{
    assert(past.push(g).drop_first() =~= past.skip(1).push(g));
}

/// The last `limit` entries of `all`, or all of it where it has no more.
pub open spec fn latest(all: Seq<Grid>, limit: nat) -> Seq<Grid> {
    if all.len() <= limit {
        all
    } else {
        all.skip(all.len() - limit)
    }
}

/// A window holds the latest of what it held and what was added to it, in
/// order: after more additions than it has room for, exactly the last
/// `limit` of them, so that everything older has left it.
pub proof fn window_holds_latest(past: Seq<Grid>, added: Seq<Grid>, limit: nat)
    requires
        past.len() <= limit,
    ensures
        remember_all(past, added, limit) == latest(past + added, limit),
        remember_all(past, added, limit).len() <= limit,
    decreases added.len(),
{
    let result = remember_all(past, added, limit);
    if added.len() == 0 {
        assert(past + added =~= past);
    } else {
        let earlier = added.drop_last();
        window_holds_latest(past, earlier, limit);
        let before = remember_all(past, earlier, limit);
        assert((past + earlier).push(added.last()) =~= past + added);
        assert(before == latest(past + earlier, limit));
        assert(result =~= latest(past + added, limit));
    }
}

/// A bounded first-in, first-out record of boards.
pub struct History {
    boards: VecDeque<Board>,
    max_length: usize,
}

impl View for History {
    type V = Seq<Grid>;

    /// The boards on record, oldest first.
    closed spec fn view(&self) -> Seq<Grid> {
        self.boards@.map_values(|b: Board| b@)
    }
}

impl History {
    /// The most boards the record keeps.
    pub closed spec fn limit(&self) -> nat {
        self.max_length as nat
    }

    /// The record is within its limit.
    pub open spec fn wf(&self) -> bool {
        self@.len() <= self.limit()
    }

    /// An empty record that will keep at most `max_length` boards.
    pub fn new(max_length: usize) -> (res: Self)
        ensures
            res@ == Seq::<Grid>::empty(),
            res.limit() == max_length,
            res.wf(),
    {
        let res = Self { boards: VecDeque::new(), max_length };
        assert(res@ =~= Seq::<Grid>::empty());
        res
    }

    /// The number of boards on record.
    pub fn len(&self) -> (n: usize)
        ensures
            n == self@.len(),
    {
        self.boards.len()
    }

    /// The most boards the record keeps.
    pub fn max_length(&self) -> (n: usize)
        ensures
            n == self.limit(),
    {
        self.max_length
    }

    /// Whether a board with the same cells as `board` is on record.
    pub fn contains(&self, board: &Board) -> (found: bool)
        ensures
            found == self@.contains(board@),
    {
        let mut i: usize = 0;
        while i < self.boards.len()
            invariant
                i <= self.boards@.len(),
                forall|j: int| 0 <= j < i ==> #[trigger] self@[j] != board@,
            decreases self.boards@.len() - i,
        {
            if self.boards[i] == *board {
                assert(self@[i as int] == board@);
                return true;
            }
            i += 1;
        }
        false
    }

    /// Puts `board` on record as the newest entry, and drops the oldest
    /// entry if the record would otherwise exceed its limit.
    pub fn push(&mut self, board: Board)
        ensures
            final(self)@ == remember(old(self)@, board@, old(self).limit()),
            final(self).limit() == old(self).limit(),
            old(self).wf() ==> final(self).wf(),
    {
        self.boards.push_back(board);
        assert(self@ =~= old(self)@.push(board@));
        if self.boards.len() > self.max_length {
            self.boards.pop_front();
            assert(self@ =~= old(self)@.push(board@).drop_first());
        }
    }
}

} // verus!
