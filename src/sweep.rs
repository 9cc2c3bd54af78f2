//! The incremental sweep: a work-bounded pass over the blocks to sweep that
//! reclaims garbage and keeps the rest alive.
use vstd::prelude::*;
use crate::colors::{GlobalHeapState, rotated};
use crate::heap::{
    CamlHeapState, HeapStats, block_wf, blocks_wf, words, lemma_words_push,
    lemma_blocks_wf_push, lemma_blocks_wf_prefix,
};
use crate::value::{Value, has_custom_tag, color_of, tag_of, CUSTOM_TAG, NOT_MARKABLE};

verus! {

/// Whether a block's header carries the current garbage color.
pub open spec fn is_garbage_block(g: GlobalHeapState, b: Vec<Value>) -> bool {
    color_of(b@[0].0) == g.garbage as u64
}

/// Whether a block is garbage whose finalizer has to run.
pub open spec fn needs_finalizer(g: GlobalHeapState, b: Vec<Value>) -> bool {
    is_garbage_block(g, b) && tag_of(b@[0].0) == CUSTOM_TAG
}

/// The garbage test as a predicate, for filtering.
pub open spec fn garbage_pred(g: GlobalHeapState) -> spec_fn(Vec<Value>) -> bool {
    |b: Vec<Value>| is_garbage_block(g, b)
}

/// The survival test as a predicate, for filtering.
pub open spec fn live_pred(g: GlobalHeapState) -> spec_fn(Vec<Value>) -> bool {
    |b: Vec<Value>| !is_garbage_block(g, b)
}

/// The finalization test as a predicate, for filtering.
pub open spec fn finalizer_pred(g: GlobalHeapState) -> spec_fn(Vec<Value>) -> bool {
    |b: Vec<Value>| needs_finalizer(g, b)
}

/// The first `k` blocks popped from the end of `todo`, in the order popped.
pub open spec fn popped(todo: Seq<Vec<Value>>, k: nat) -> Seq<Vec<Value>> {
    Seq::new(k, |i: int| todo[todo.len() - 1 - i])
}

/// How many blocks a sweep with budget `work` visits: it pops blocks while
/// the remaining budget is positive and blocks are left.
pub open spec fn visit_count(todo: Seq<Vec<Value>>, work: int) -> nat
    decreases todo.len(),
{
    if work <= 0 || todo.len() == 0 {
        0
    } else {
        1 + visit_count(todo.drop_last(), work - todo.last()@.len())
    }
}

/// The blocks that a sweep with budget `work` visits, in the order visited.
pub open spec fn visited(todo: Seq<Vec<Value>>, work: int) -> Seq<Vec<Value>> {
    popped(todo, visit_count(todo, work))
}

/// The counters after the blocks `gone` are reclaimed.
pub open spec fn stats_after_reclaim(s: HeapStats, gone: Seq<Vec<Value>>) -> HeapStats {
    HeapStats {
        large_words: (s.large_words - words(gone)) as usize,
        large_blocks: (s.large_blocks - gone.len()) as usize,
        ..s
    }
}

/// Filtering a sequence with a block appended.
pub proof fn lemma_filter_push(s: Seq<Vec<Value>>, b: Vec<Value>, p: spec_fn(Vec<Value>) -> bool)
    ensures
        s.push(b).filter(p) == (if p(b) {
            s.filter(p).push(b)
        } else {
            s.filter(p)
        }),
{
    reveal(Seq::filter);
    assert(s.push(b).drop_last() =~= s);
}

/// Whether the header word `hd` carries the current garbage color.
fn is_garbage(g: &GlobalHeapState, hd: &Value) -> (r: bool)
    ensures
        r == (color_of(hd.0) == g.garbage as u64),
{
    let garbo = g.garbage;
    let malloy = hd.color();
    garbo as u64 == malloy
}

/// Reclaims a garbage block: a custom-tagged block goes to `finalizers`,
/// whose owner runs its finalizer before releasing it; the counters drop by
/// the block's length and by one block.
fn free(heap: &mut CamlHeapState, a: Vec<Value>, finalizers: &mut Vec<Vec<Value>>)
    requires
        a@.len() >= 1,
        old(heap).stats.large_words >= a@.len(),
        old(heap).stats.large_blocks >= 1,
    ensures
        final(heap).alive@ == old(heap).alive@,
        final(heap).todo@ == old(heap).todo@,
        final(heap).stats == (HeapStats {
            large_words: (old(heap).stats.large_words - a@.len()) as usize,
            large_blocks: (old(heap).stats.large_blocks - 1) as usize,
            ..old(heap).stats
        }),
        final(finalizers)@ == (if tag_of(a@[0].0) == CUSTOM_TAG {
            old(finalizers)@.push(a)
        } else {
            old(finalizers)@
        }),
{
    let len = a.len();
    if has_custom_tag(a[0]) {
        finalizers.push(a);
    }
    heap.stats.large_words = heap.stats.large_words - len;
    heap.stats.large_blocks = heap.stats.large_blocks - 1;
}

/// Sweeps blocks from the end of `todo` while the budget `work` is positive.
///
/// Each visited block costs its length. A block with the current garbage
/// color is reclaimed (custom-tagged ones are appended to `finalizers`, in
/// the order visited); any other block moves to `alive`. Returns the budget
/// left, which may be negative by less than the last block's length.
pub fn sweep(
    heap: &mut CamlHeapState,
    g: &GlobalHeapState,
    work: isize,
    finalizers: &mut Vec<Vec<Value>>,
) -> (r: isize)
    requires
        old(heap).wf(),
    ensures
        final(heap).wf(),
        final(heap).todo@ == old(heap).todo@.subrange(
            0,
            old(heap).todo@.len() - visit_count(old(heap).todo@, work as int),
        ),
        final(heap).alive@ == old(heap).alive@ + visited(old(heap).todo@, work as int).filter(
            live_pred(*g),
        ),
        final(finalizers)@ == old(finalizers)@ + visited(old(heap).todo@, work as int).filter(
            finalizer_pred(*g),
        ),
        final(heap).stats == stats_after_reclaim(
            old(heap).stats,
            visited(old(heap).todo@, work as int).filter(garbage_pred(*g)),
        ),
        r == work - words(visited(old(heap).todo@, work as int)),
{
    let ghost t0 = heap.todo@;
    let ghost a0 = heap.alive@;
    let ghost f0 = finalizers@;
    let ghost s0 = heap.stats;
    let ghost n = t0.len();
    let ghost w0 = work as int;
    let ghost mut i: nat = 0;
    let mut work = work;
    proof {
        assert(t0.subrange(0, n as int) =~= t0);
        assert(popped(t0, 0) =~= Seq::<Vec<Value>>::empty());
        reveal(Seq::filter);
        assert(a0 + popped(t0, 0).filter(live_pred(*g)) =~= a0);
        assert(f0 + popped(t0, 0).filter(finalizer_pred(*g)) =~= f0);
    }
    while work > 0 && heap.todo.len() > 0
        invariant
            heap.wf(),
            i <= n,
            n == t0.len(),
            heap.todo@ == t0.subrange(0, n - i),
            heap.alive@ == a0 + popped(t0, i).filter(live_pred(*g)),
            finalizers@ == f0 + popped(t0, i).filter(finalizer_pred(*g)),
            heap.stats == stats_after_reclaim(s0, popped(t0, i).filter(garbage_pred(*g))),
            words(popped(t0, i).filter(garbage_pred(*g))) <= s0.large_words,
            popped(t0, i).filter(garbage_pred(*g)).len() <= s0.large_blocks,
            work as int == w0 - words(popped(t0, i)),
            visit_count(t0, w0) == i + visit_count(heap.todo@, work as int),
        decreases heap.todo@.len(),
    {
        let ghost vis = popped(t0, i);
        let ghost todo_before = heap.todo@;
        let ghost alive_before = heap.alive@;
        let a = heap.todo.pop().unwrap();
        proof {
            assert(todo_before.last() == a);
            assert(block_wf(todo_before[todo_before.len() - 1]));
            assert(popped(t0, i + 1) =~= vis.push(a));
            assert(todo_before.drop_last() =~= t0.subrange(0, n - (i + 1)));
            assert(todo_before =~= todo_before.drop_last().push(a));
            lemma_words_push(todo_before.drop_last(), a);
            lemma_words_push(vis, a);
            lemma_blocks_wf_prefix(todo_before, todo_before.len() - 1);
            lemma_filter_push(vis, a, live_pred(*g));
            lemma_filter_push(vis, a, finalizer_pred(*g));
            lemma_filter_push(vis, a, garbage_pred(*g));
        }
        work = work - a.len() as isize;
        if is_garbage(g, &a[0]) {
            proof {
                lemma_words_push(vis.filter(garbage_pred(*g)), a);
            }
            free(heap, a, finalizers);
            proof {
                assert(finalizers@ =~= f0 + popped(t0, i + 1).filter(finalizer_pred(*g)));
            }
        } else {
            heap.alive.push(a);
            proof {
                lemma_words_push(alive_before, a);
                lemma_blocks_wf_push(alive_before, a);
                assert(heap.alive@ =~= a0 + popped(t0, i + 1).filter(live_pred(*g)));
            }
        }
        proof {
            i = i + 1;
        }
    }
    assert(visit_count(heap.todo@, work as int) == 0);
    work
}

/// Sweeps as `sweep` does, unless `skip` is set: then nothing is visited
/// and the whole budget is returned.
///
/// `skip` is the decision of the fault-injection seam (see `strike_skips`).
pub fn caml_sweep(
    heap: &mut CamlHeapState,
    g: &GlobalHeapState,
    work: isize,
    skip: bool,
    finalizers: &mut Vec<Vec<Value>>,
) -> (r: isize)
    requires
        old(heap).wf(),
    ensures
        final(heap).wf(),
        skip ==> {
            &&& final(heap).todo@ == old(heap).todo@
            &&& final(heap).alive@ == old(heap).alive@
            &&& final(finalizers)@ == old(finalizers)@
            &&& final(heap).stats == old(heap).stats
            &&& r == work
        },
        !skip ==> {
            let v = visited(old(heap).todo@, work as int);
            &&& final(heap).todo@ == old(heap).todo@.subrange(0, old(heap).todo@.len() - v.len())
            &&& final(heap).alive@ == old(heap).alive@ + v.filter(live_pred(*g))
            &&& final(finalizers)@ == old(finalizers)@ + v.filter(finalizer_pred(*g))
            &&& final(heap).stats == stats_after_reclaim(
                old(heap).stats,
                v.filter(garbage_pred(*g)),
            )
            &&& r == work - words(v)
        },
{
    if skip {
        return work;
    }
    sweep(heap, g, work, finalizers)
}

/// Whether the collectors skip a sweep call: never while they are not on
/// strike, and on a fair coin flip while they are.
pub fn strike_skips(on_strike: bool) -> (r: bool)
    ensures
        !on_strike ==> !r,
{
    on_strike && rand::random::<bool>()
}

/// Relies on rand::random: a value drawn from the thread-local generator,
/// of which nothing is promised.
pub assume_specification<T>[ rand::random::<T> ]() -> (r: T)
    where
        rand::distributions::Standard: rand::distributions::Distribution<T>,
;

/// A sweep with nothing to sweep visits no block and spends no budget.
pub proof fn lemma_empty_todo_spends_nothing(todo: Seq<Vec<Value>>, work: int)
    requires
        todo.len() == 0,
    ensures
        visit_count(todo, work) == 0,
        visited(todo, work).len() == 0,
        work - words(visited(todo, work)) == work,
{
    assert(popped(todo, 0) =~= Seq::<Vec<Value>>::empty());
}

/// A budget of at least the words of every block to sweep visits them all.
pub proof fn lemma_full_budget_visits_all(todo: Seq<Vec<Value>>, work: int)
    requires
        blocks_wf(todo),
        work >= words(todo),
    ensures
        visit_count(todo, work) == todo.len(),
    decreases todo.len(),
{
    if todo.len() > 0 {
        assert(block_wf(todo[todo.len() - 1]));
        lemma_blocks_wf_prefix(todo, todo.len() - 1);
        assert(todo.drop_last() =~= todo.subrange(0, todo.len() - 1));
        lemma_full_budget_visits_all(todo.drop_last(), work - todo.last()@.len());
    }
}

/// A sweep whose budget covers every block to sweep reclaims each garbage
/// block among them, and keeps each other block alive.
pub proof fn lemma_full_budget_reclaims_garbage(
    g: GlobalHeapState,
    todo: Seq<Vec<Value>>,
    work: int,
    j: int,
)
    requires
        blocks_wf(todo),
        work >= words(todo),
        0 <= j < todo.len(),
    ensures
        is_garbage_block(g, todo[j]) ==> visited(todo, work).filter(garbage_pred(g)).contains(
            todo[j],
        ),
        !is_garbage_block(g, todo[j]) ==> visited(todo, work).filter(live_pred(g)).contains(
            todo[j],
        ),
{
    broadcast use vstd::seq_lib::group_filter_ensures;

    lemma_full_budget_visits_all(todo, work);
    let v = visited(todo, work);
    let k = todo.len() - 1 - j;
    assert(v[k] == todo[j]);
}

/// After a rotation, a block that the tracer re-marked is not garbage, and a
/// block left unmarked is. A block marked before the rotation is unmarked
/// after it, and garbage after the next one unless the tracer re-marks it.
/// A pinned block is never garbage.
pub proof fn lemma_color_conservation(g: GlobalHeapState)
    requires
        g.wf(),
    ensures
        rotated(g).marked != rotated(g).garbage,
        g.unmarked == rotated(g).garbage,
        g.marked == rotated(g).unmarked,
        g.marked == rotated(rotated(g)).garbage,
        NOT_MARKABLE != rotated(g).garbage,
{
}

/// Every block queued for finalization is garbage, so it is not kept alive;
/// and no surviving block is queued.
pub proof fn lemma_finalized_are_reclaimed(g: GlobalHeapState, v: Seq<Vec<Value>>)
    ensures
        forall|i: int|
            0 <= i < v.filter(finalizer_pred(g)).len() ==> is_garbage_block(
                g,
                #[trigger] v.filter(finalizer_pred(g))[i],
            ),
        forall|i: int|
            0 <= i < v.filter(live_pred(g)).len() ==> !needs_finalizer(
                g,
                #[trigger] v.filter(live_pred(g))[i],
            ),
{
    broadcast use vstd::seq_lib::group_filter_ensures;
}

} // verus!
