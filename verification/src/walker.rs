//! Walking the chain: which block is scanned next, and when the walk ends.
//!
//! The walk ascends from a start height to the height of the tip, the tip
//! included, one block at a time. The caller reads each block that the walk
//! names, scans it, and reports it done.

use vstd::prelude::*;

verus! {

/// What the walk asks for next.
#[derive(Clone, Copy, Debug, PartialEq, Eq)]
pub enum WalkStep {
    /// Read and scan the block at this height.
    Visit(i32),
    /// No block is left between the cursor and the tip.
    Finished,
}

/// The position of a walk and the number of blocks it has done.
#[derive(Clone, Copy, Debug)]
pub struct BlockCursor {
    start: i32,
    next: i64,
}

/// The heights that a walk visits from `next` up to `tip`, in order.
pub open spec fn heights_from(next: int, tip: int) -> Seq<int>
    decreases tip - next + 1,
{
    if next > tip {
        Seq::empty()
    } else {
        seq![next] + heights_from(next + 1, tip)
    }
}

/// A walk visits each height from its start to the tip once, in ascending
/// order, and no other height.
pub proof fn lemma_walk_visits_each_once(start: int, tip: int)
    ensures
        heights_from(start, tip).len() == if start > tip {
            0
        } else {
            tip - start + 1
        },
        forall|i: int|
            0 <= i < heights_from(start, tip).len() ==> #[trigger] heights_from(start, tip)[i]
                == start + i,
    decreases tip - start + 1,
{
    if start <= tip {
        lemma_walk_visits_each_once(start + 1, tip);
        let rest = heights_from(start + 1, tip);
        let all = heights_from(start, tip);
        assert forall|i: int| 0 <= i < all.len() implies #[trigger] all[i] == start + i by {
            if i > 0 {
                assert(all[i] == rest[i - 1]);
            }
        }
    }
}

impl BlockCursor {
    #[verifier::type_invariant]
    closed spec fn well_formed(&self) -> bool {
        self.start <= self.next <= i32::MAX + 1
    }

    /// The height at which the walk began.
    pub closed spec fn start_height(&self) -> int {
        self.start as int
    }

    /// The height of the block that comes next.
    pub closed spec fn next_height(&self) -> int {
        self.next as int
    }

    /// The number of blocks done so far.
    pub open spec fn blocks_done(&self) -> int {
        self.next_height() - self.start_height()
    }

    /// A cursor at the start of a walk that begins at height `birthday`.
    pub fn start(birthday: i32) -> (cursor: BlockCursor)
        ensures
            cursor.start_height() == birthday,
            cursor.next_height() == birthday,
    {
        BlockCursor { start: birthday, next: birthday as i64 }
    }

    /// The number of blocks done so far.
    pub fn processed(&self) -> (count: u64)
        ensures
            count == self.blocks_done(),
    {
        proof {
            use_type_invariant(self);
        }
        (self.next - self.start as i64) as u64
    }

    /// What the walk asks for next, the tip being at `tip_height`: the block
    /// at the cursor while the cursor is not above the tip.
    pub fn step(&self, tip_height: i32) -> (step: WalkStep)
        ensures
            self.next_height() <= tip_height ==> step == WalkStep::Visit(self.next_height() as i32),
            self.next_height() > tip_height ==> step == WalkStep::Finished,
            step is Finished <==> heights_from(self.next_height(), tip_height as int).len() == 0,
            step matches WalkStep::Visit(h) ==> heights_from(
                self.next_height(),
                tip_height as int,
            ).first() == h,
    {
        proof {
            use_type_invariant(self);
        }
        if self.next <= tip_height as i64 {
            WalkStep::Visit(self.next as i32)
        } else {
            WalkStep::Finished
        }
    }

    /// The cursor after the block that `step` named has been done, the tip
    /// being at `tip_height`. A walk that is finished stays where it is.
    pub fn advance(self, tip_height: i32) -> (after: BlockCursor)
        ensures
            after.start_height() == self.start_height(),
            self.next_height() <= tip_height ==> after.next_height() == self.next_height() + 1
                && after.blocks_done() == self.blocks_done() + 1 && heights_from(
                after.next_height(),
                tip_height as int,
            ) == heights_from(self.next_height(), tip_height as int).drop_first(),
            self.next_height() > tip_height ==> after.next_height() == self.next_height(),
    {
        proof {
            use_type_invariant(&self);
        }
        if self.next <= tip_height as i64 {
            proof {
                let rest = heights_from(self.next + 1, tip_height as int);
                assert((seq![self.next as int] + rest).drop_first() =~= rest);
            }
            BlockCursor { start: self.start, next: self.next + 1 }
        } else {
            self
        }
    }

    /// Whether progress is due for a report, one being made every `every`
    /// blocks: at least one block is done, and the number of blocks done is
    /// a multiple of `every`. Never with `every` at 0.
    pub fn report_due(&self, every: u64) -> (due: bool)
        ensures
            due == (every > 0 && self.blocks_done() > 0 && self.blocks_done() % (every as int)
                == 0),
    {
        let done: u64 = self.processed();
        every > 0 && done > 0 && done % every == 0
    }
}

} // verus!
