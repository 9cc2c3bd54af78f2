//! The process-wide color state: which numeric color currently means
//! marked, unmarked and garbage.
use vstd::prelude::*;

verus! {

/// The three live colors of the current epoch.
///
/// Written by one coordinating thread while every domain is paused;
/// read by every domain otherwise.
#[derive(Clone, Copy, Debug, PartialEq, Eq, Structural)]
pub struct GlobalHeapState {
    pub marked: usize,
    pub unmarked: usize,
    pub garbage: usize,
}

/// One of the three colors that rotate between epochs.
pub open spec fn is_live_color(c: usize) -> bool {
    c == 0 || c == 256 || c == 512
}

/// The colors after one epoch rotation.
pub open spec fn rotated(s: GlobalHeapState) -> GlobalHeapState {
    GlobalHeapState { marked: s.garbage, unmarked: s.marked, garbage: s.unmarked }
}

impl GlobalHeapState {
    /// The three colors are a permutation of the three live colors.
    pub open spec fn wf(&self) -> bool {
        &&& is_live_color(self.marked)
        &&& is_live_color(self.unmarked)
        &&& is_live_color(self.garbage)
        &&& self.marked != self.unmarked
        &&& self.marked != self.garbage
        &&& self.unmarked != self.garbage
    }

    /// The colors at process start.
    pub fn new() -> (r: GlobalHeapState)
        ensures
            r.wf(),
            r == (GlobalHeapState { marked: 0, unmarked: 256, garbage: 512 }),
    {
        GlobalHeapState { marked: 0, unmarked: 256, garbage: 512 }
    }
}

/// Advances the collector epoch: what was garbage becomes marked, what was
/// marked becomes unmarked, and what was unmarked becomes garbage.
///
/// Only to be called while every domain is paused.
pub fn caml_cycle_heap_stw(g: &mut GlobalHeapState)
    requires
        old(g).wf(),
    ensures
        *final(g) == rotated(*old(g)),
        final(g).wf(),
{
    let old_g = *g;
    *g = GlobalHeapState { marked: old_g.garbage, unmarked: old_g.marked, garbage: old_g.unmarked };
}

/// Rotating the colors preserves the permutation invariant.
pub proof fn lemma_rotation_wf(s: GlobalHeapState)
    requires
        s.wf(),
    ensures
        rotated(s).wf(),
{
}

/// Three rotations bring every color state back to itself.
pub proof fn lemma_rotation_period_three(s: GlobalHeapState)
    ensures
        rotated(rotated(rotated(s))) == s,
{
}

} // verus!
