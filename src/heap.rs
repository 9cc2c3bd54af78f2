//! The per-domain heap: its two block containers, its statistics, and
//! allocation of large blocks.
use vstd::prelude::*;
use crate::colors::GlobalHeapState;
use crate::value::{Value, header, color_of, size_of, tag_of, MAX_WORDS, NOT_MARKABLE};
use libc::size_t;

verus! {

/// Occupancy counters of one domain's heap.
#[derive(Clone, Copy, Debug, Default)]
pub struct HeapStats {
    pub pool_words: usize,
    pub pool_max_words: usize,
    pub pool_live_words: usize,
    pub pool_live_blocks: usize,
    pub pool_frag_words: usize,
    pub large_words: usize,
    pub large_max_words: usize,
    pub large_blocks: usize,
}

/// A pool of the small-object allocator; pools are not managed here.
pub struct Pool;

/// One domain's heap: blocks live in the current epoch, blocks still to
/// sweep, and the counters over both.
pub struct CamlHeapState {
    pub alive: Vec<Vec<Value>>,
    pub todo: Vec<Vec<Value>>,
    pub stats: HeapStats,
}

/// Total length, header words included, of a sequence of blocks.
pub open spec fn words(bs: Seq<Vec<Value>>) -> nat
    decreases bs.len(),
{
    if bs.len() == 0 {
        0
    } else {
        words(bs.drop_last()) + bs.last()@.len()
    }
}

/// A block has its header word and a length that a signed budget can hold.
pub open spec fn block_wf(b: Vec<Value>) -> bool {
    1 <= b@.len() <= isize::MAX
}

/// Every block of the sequence is well formed.
pub open spec fn blocks_wf(bs: Seq<Vec<Value>>) -> bool {
    forall|i: int| 0 <= i < bs.len() ==> #[trigger] block_wf(bs[i])
}

/// The zero-filled block of `n` payload words under header `hd`.
pub open spec fn fresh_block(hd: Value, n: nat) -> Seq<Value> {
    seq![hd] + Seq::new(n, |i: int| Value(0))
}

/// The counters after a block of `wh_size` words is allocated: the words
/// and the block are counted, and the high-water mark follows the words.
pub open spec fn stats_after_alloc(s: HeapStats, wh_size: nat) -> HeapStats {
    HeapStats {
        large_words: (s.large_words + wh_size) as usize,
        large_max_words: if s.large_words + wh_size > s.large_max_words {
            (s.large_words + wh_size) as usize
        } else {
            s.large_max_words
        },
        large_blocks: (s.large_blocks + 1) as usize,
        ..s
    }
}

/// Error of an operation that this heap does not provide.
#[derive(Clone, Copy, Debug, PartialEq, Eq, Structural)]
pub enum Unsupported {
    NotImplemented,
}

impl CamlHeapState {
    /// The counters agree with the resident blocks.
    pub open spec fn wf(&self) -> bool {
        &&& blocks_wf(self.alive@)
        &&& blocks_wf(self.todo@)
        &&& self.stats.large_words == words(self.alive@) + words(self.todo@)
        &&& self.stats.large_blocks == self.alive@.len() + self.todo@.len()
        &&& self.stats.large_max_words >= self.stats.large_words
    }
}

/// Appending a block adds its length to the total.
pub proof fn lemma_words_push(bs: Seq<Vec<Value>>, b: Vec<Value>)
    ensures
        words(bs.push(b)) == words(bs) + b@.len(),
{
    assert(bs.push(b).drop_last() =~= bs);
}

/// A fresh, empty domain heap.
pub fn caml_init_shared_heap() -> (r: Box<CamlHeapState>)
    ensures
        r.wf(),
        r.alive@.len() == 0,
        r.todo@.len() == 0,
        r.stats == (HeapStats {
            pool_words: 0,
            pool_max_words: 0,
            pool_live_words: 0,
            pool_live_blocks: 0,
            pool_frag_words: 0,
            large_words: 0,
            large_max_words: 0,
            large_blocks: 0,
        }),
{
    let stats = HeapStats {
        pool_words: 0,
        pool_max_words: 0,
        pool_live_words: 0,
        pool_live_blocks: 0,
        pool_frag_words: 0,
        large_words: 0,
        large_max_words: 0,
        large_blocks: 0,
    };
    Box::new(CamlHeapState { alive: Vec::new(), todo: Vec::new(), stats })
}

/// Releases a domain heap and every block it owns.
pub fn caml_teardown_shared_heap(heap: Box<CamlHeapState>) {
    let _ = heap;
}

/// Appends a block of `wh_size` words, header `hd` then zeros, to the
/// alive blocks and counts it.
pub fn alloc_block(heap: &mut CamlHeapState, wh_size: usize, hd: Value)
    requires
        old(heap).wf(),
        1 <= wh_size <= isize::MAX,
        old(heap).stats.large_words + wh_size <= usize::MAX,
    ensures
        final(heap).wf(),
        final(heap).alive@ == old(heap).alive@.push(final(heap).alive@.last()),
        final(heap).alive@.last()@ == fresh_block(hd, (wh_size - 1) as nat),
        final(heap).todo@ == old(heap).todo@,
        final(heap).stats == stats_after_alloc(old(heap).stats, wh_size as nat),
{
    proof {
        // each block has at least one word, so the count fits beside the total
        lemma_blocks_le_words(heap.alive@);
        lemma_blocks_le_words(heap.todo@);
    }
    heap.stats.large_words = heap.stats.large_words + wh_size;
    if heap.stats.large_words > heap.stats.large_max_words {
        heap.stats.large_max_words = heap.stats.large_words;
    }
    heap.stats.large_blocks = heap.stats.large_blocks + 1;
    let mut block: Vec<Value> = Vec::with_capacity(wh_size);
    block.push(hd);
    let mut i: usize = 1;
    while i < wh_size
        invariant
            1 <= i <= wh_size,
            block@ == fresh_block(hd, (i - 1) as nat),
        decreases wh_size - i,
    {
        block.push(Value(0));
        i = i + 1;
        assert(block@ =~= fresh_block(hd, (i - 1) as nat));
    }
    let ghost alive0 = heap.alive@;
    heap.alive.push(block);
    proof {
        lemma_words_push(alive0, block);
        lemma_blocks_wf_push(alive0, block);
    }
}

/// Allocates a block of `nb_words` payload words with type tag `tag`.
///
/// The block is zero-filled after its header and joins the alive blocks.
/// Its color is `NOT_MARKABLE` when pinned, and otherwise the current
/// marked color, so that it survives the collection in flight. The header
/// word is returned. `_reserved` does not affect the encoding.
pub fn caml_shared_try_alloc(
    heap: &mut CamlHeapState,
    g: &GlobalHeapState,
    nb_words: size_t,
    tag: size_t,
    _reserved: size_t,
    pinned: bool,
) -> (r: Value)
    requires
        old(heap).wf(),
        g.wf(),
        nb_words <= MAX_WORDS,
        nb_words < isize::MAX,
        tag < 256,
        old(heap).stats.large_words + nb_words + 1 <= usize::MAX,
    ensures
        final(heap).wf(),
        r.0 == header(nb_words as nat, alloc_color(g, pinned) as nat, tag as nat),
        size_of(r.0) == nb_words,
        color_of(r.0) == alloc_color(g, pinned),
        tag_of(r.0) == tag,
        final(heap).alive@ == old(heap).alive@.push(final(heap).alive@.last()),
        final(heap).alive@.last()@ == fresh_block(r, nb_words as nat),
        final(heap).todo@ == old(heap).todo@,
        final(heap).stats == stats_after_alloc(old(heap).stats, (nb_words + 1) as nat),
{
    let wh_size = nb_words + 1;
    let colour = if pinned {
        NOT_MARKABLE
    } else {
        g.marked
    };
    let hd = Value::make_header(nb_words, colour, tag);
    alloc_block(heap, wh_size, hd);
    hd
}

/// The color given to a new block.
pub open spec fn alloc_color(g: &GlobalHeapState, pinned: bool) -> usize {
    if pinned {
        NOT_MARKABLE
    } else {
        g.marked
    }
}

/// Copies the domain's counters into `sample`.
pub fn caml_collect_heap_stats_sample(heap: &CamlHeapState, sample: &mut HeapStats)
    ensures
        *final(sample) == heap.stats,
{
    *sample = heap.stats;
}

/// Adds the orphaned heaps' counters into an accumulator; there are none
/// at this layer.
pub fn caml_accum_orphan_heap_stats() {
}

/// Bytes held by large blocks, at eight bytes a word.
pub fn caml_heap_size(heap: &CamlHeapState) -> (r: usize)
    requires
        heap.stats.large_words * 8 <= usize::MAX,
    ensures
        r == heap.stats.large_words * 8,
{
    heap.stats.large_words * 8
}

/// The high-water mark of the words held by large blocks.
pub fn caml_top_heap_words(heap: &CamlHeapState) -> (r: usize)
    ensures
        r == heap.stats.large_max_words,
{
    heap.stats.large_max_words
}

/// The number of resident large blocks.
pub fn caml_heap_blocks(heap: &CamlHeapState) -> (r: usize)
    ensures
        r == heap.stats.large_blocks,
{
    heap.stats.large_blocks
}

/// The pool that holds a pooled block: pools are not managed here.
pub fn caml_pool_of_shared_block(_v: Value) -> (r: Result<Pool, Unsupported>)
    ensures
        r is Err,
{
    Err(Unsupported::NotImplemented)
}

/// Unpins a pinned block: not provided here.
pub fn caml_shared_unpin(_v: Value) -> (r: Result<(), Unsupported>)
    ensures
        r is Err,
{
    Err(Unsupported::NotImplemented)
}

/// Re-darkens a pool during marking: not provided here.
pub fn caml_redarken_pool(_pool: &Pool) -> (r: Result<(), Unsupported>)
    ensures
        r is Err,
{
    Err(Unsupported::NotImplemented)
}

/// Checks the whole heap's invariants while every domain is paused: not
/// provided here.
pub fn caml_verify_heap() -> (r: Result<(), Unsupported>)
    ensures
        r is Err,
{
    Err(Unsupported::NotImplemented)
}

/// Starts a new epoch on this domain: the alive blocks become the blocks
/// to sweep, and the blocks left unswept become the alive ones.
///
/// To be called once per epoch, after the colors have been rotated.
pub fn caml_cycle_heap(heap: &mut CamlHeapState)
    requires
        old(heap).wf(),
    ensures
        final(heap).wf(),
        final(heap).alive@ == old(heap).todo@,
        final(heap).todo@ == old(heap).alive@,
        final(heap).stats == old(heap).stats,
{
    std::mem::swap(&mut heap.alive, &mut heap.todo);
}

/// The counters of a well-formed heap describe its resident blocks: the
/// words are their total length, and the high-water mark is at least the
/// words. An allocation raises the mark to the new total exactly when the
/// total passes it, so the mark is the largest total seen after any
/// allocation.
pub proof fn lemma_stats_consistency(heap: &CamlHeapState, wh_size: nat)
    requires
        heap.wf(),
        heap.stats.large_words + wh_size <= usize::MAX,
    ensures
        heap.stats.large_words == words(heap.alive@) + words(heap.todo@),
        heap.stats.large_blocks == heap.alive@.len() + heap.todo@.len(),
        heap.stats.large_max_words >= heap.stats.large_words,
        stats_after_alloc(heap.stats, wh_size).large_words == heap.stats.large_words + wh_size,
        stats_after_alloc(heap.stats, wh_size).large_max_words == if heap.stats.large_words
            + wh_size > heap.stats.large_max_words {
            heap.stats.large_words + wh_size
        } else {
            heap.stats.large_max_words as int
        },
        stats_after_alloc(heap.stats, wh_size).large_max_words >= stats_after_alloc(
            heap.stats,
            wh_size,
        ).large_words,
{
}

/// Appending a well-formed block keeps a sequence well formed.
pub proof fn lemma_blocks_wf_push(bs: Seq<Vec<Value>>, b: Vec<Value>)
    requires
        blocks_wf(bs),
        block_wf(b),
    ensures
        blocks_wf(bs.push(b)),
{
    assert forall|j: int| 0 <= j < bs.push(b).len() implies #[trigger] block_wf(bs.push(b)[j]) by {
        if j < bs.len() {
            assert(block_wf(bs[j]));
        }
    }
}

/// A prefix of a well-formed sequence is well formed.
pub proof fn lemma_blocks_wf_prefix(bs: Seq<Vec<Value>>, n: int)
    requires
        blocks_wf(bs),
        0 <= n <= bs.len(),
    ensures
        blocks_wf(bs.subrange(0, n)),
{
    assert forall|j: int| 0 <= j < n implies #[trigger] block_wf(bs.subrange(0, n)[j]) by {
        assert(block_wf(bs[j]));
    }
}

/// A well-formed sequence holds no more blocks than words.
pub proof fn lemma_blocks_le_words(bs: Seq<Vec<Value>>)
    requires
        blocks_wf(bs),
    ensures
        bs.len() <= words(bs),
    decreases bs.len(),
{
    if bs.len() > 0 {
        assert(block_wf(bs[bs.len() - 1]));
        lemma_blocks_wf_prefix(bs, bs.len() - 1);
        assert(bs.drop_last() =~= bs.subrange(0, bs.len() - 1));
        lemma_blocks_le_words(bs.drop_last());
    }
}

} // verus!
