use shared_heap::colors::{caml_cycle_heap_stw, GlobalHeapState};
use shared_heap::heap::{
    caml_collect_heap_stats_sample, caml_cycle_heap, caml_heap_blocks, caml_heap_size,
    alloc_block, caml_init_shared_heap, caml_pool_of_shared_block, caml_redarken_pool, caml_shared_try_alloc,
    caml_shared_unpin, caml_teardown_shared_heap, caml_top_heap_words, caml_verify_heap,
    HeapStats, Pool, Unsupported,
};
use shared_heap::sweep::{caml_sweep, strike_skips, sweep};
use shared_heap::value::{has_custom_tag, Value, CUSTOM_TAG, NOT_MARKABLE};

fn color(v: Value) -> u64 {
    v.0 & 0x300
}

#[test]
fn header_encoding_packs_fields() {
    assert_eq!(Value::make_header(4, 0, 0).0, 4096);
    assert_eq!(Value::make_header(1, 768, 255).0, 2047);
    let v = Value::make_header(3, 512, 7);
    assert_eq!(v.color(), 512);
    assert_eq!(v.0 >> 10, 3);
    assert_eq!(v.0 & 0xff, 7);
    assert!(!has_custom_tag(v));
    assert!(has_custom_tag(Value::make_header(0, 0, 255)));
}

#[test]
fn epoch_rotation_has_period_three() {
    let start = GlobalHeapState::new();
    let mut g = start;
    caml_cycle_heap_stw(&mut g);
    assert_eq!(g, GlobalHeapState { marked: 512, unmarked: 0, garbage: 256 });
    caml_cycle_heap_stw(&mut g);
    assert_ne!(g, start);
    caml_cycle_heap_stw(&mut g);
    assert_eq!(g, start);
}

#[test]
fn allocation_counts_words_and_blocks() {
    let g = GlobalHeapState::new();
    let mut heap = caml_init_shared_heap();
    let hd = caml_shared_try_alloc(&mut heap, &g, 4, 0, 0, false);
    assert_eq!(hd.0, 4096);
    assert_eq!(heap.stats.large_words, 5);
    assert_eq!(heap.stats.large_blocks, 1);
    assert_eq!(heap.stats.large_max_words, 5);
    assert_eq!(heap.alive.len(), 1);
    assert_eq!(heap.alive[0].len(), 5);
    assert_eq!(heap.alive[0][0], hd);
    assert!(heap.alive[0][1..].iter().all(|w| w.0 == 0));
    assert_eq!(caml_heap_size(&heap), 40);
    assert_eq!(caml_top_heap_words(&heap), 5);
    assert_eq!(caml_heap_blocks(&heap), 1);
    caml_teardown_shared_heap(heap);
}

#[test]
fn unmarked_block_survives_one_epoch_and_is_reclaimed_at_the_next() {
    let mut g = GlobalHeapState::new();
    let mut heap = caml_init_shared_heap();
    caml_shared_try_alloc(&mut heap, &g, 4, 0, 0, false);
    assert_eq!(heap.stats.large_words, 5);
    assert_eq!(heap.stats.large_blocks, 1);
    let mut fin = Vec::new();

    // the old marked color is the new unmarked one: the block is kept
    caml_cycle_heap_stw(&mut g);
    caml_cycle_heap(&mut heap);
    assert_eq!(sweep(&mut heap, &g, 10, &mut fin), 5);
    assert_eq!(color(heap.alive[0][0]), g.unmarked as u64);
    assert_eq!(heap.stats.large_words, 5);
    assert_eq!(heap.stats.large_blocks, 1);

    // not re-marked during that epoch: garbage after the next rotation
    caml_cycle_heap_stw(&mut g);
    caml_cycle_heap(&mut heap);
    assert_eq!(color(heap.todo[0][0]), g.garbage as u64);
    assert_eq!(sweep(&mut heap, &g, 10, &mut fin), 10 - 5);
    assert_eq!(heap.stats.large_words, 0);
    assert_eq!(heap.stats.large_blocks, 0);
    assert_eq!(heap.stats.large_max_words, 5);
    assert!(heap.alive.is_empty() && heap.todo.is_empty());
    assert!(fin.is_empty());
}

#[test]
fn remarked_block_is_never_reclaimed() {
    let mut g = GlobalHeapState::new();
    let mut heap = caml_init_shared_heap();
    caml_shared_try_alloc(&mut heap, &g, 2, 0, 0, false);
    let mut fin = Vec::new();
    for _ in 0..6 {
        caml_cycle_heap_stw(&mut g);
        caml_cycle_heap(&mut heap);
        // the tracer re-marks the block with the current marked color
        let hd = heap.todo[0][0].0;
        heap.todo[0][0] = Value((hd & !0x300) | g.marked as u64);
        assert_eq!(sweep(&mut heap, &g, 100, &mut fin), 97);
        assert_eq!(heap.alive.len(), 1);
    }
    assert_eq!(heap.stats.large_words, 3);
}

#[test]
fn pinned_block_is_never_reclaimed() {
    let mut g = GlobalHeapState::new();
    let mut heap = caml_init_shared_heap();
    let hd = caml_shared_try_alloc(&mut heap, &g, 3, 5, 0, true);
    assert_eq!(hd.color(), NOT_MARKABLE as u64);
    let mut fin = Vec::new();
    for _ in 0..7 {
        caml_cycle_heap_stw(&mut g);
        caml_cycle_heap(&mut heap);
        sweep(&mut heap, &g, 50, &mut fin);
        assert_eq!(heap.alive.len(), 1);
        assert_eq!(heap.alive[0][0].color(), NOT_MARKABLE as u64);
        assert_eq!(heap.stats.large_words, 4);
        assert_eq!(heap.stats.large_blocks, 1);
    }
}

#[test]
fn custom_block_is_queued_for_finalization_once() {
    let mut g = GlobalHeapState::new();
    let mut heap = caml_init_shared_heap();
    caml_shared_try_alloc(&mut heap, &g, 1, CUSTOM_TAG as usize, 0, false);
    heap.alive[0][1] = Value(0xdead_beef);
    let mut fin: Vec<Vec<Value>> = Vec::new();
    for _ in 0..2 {
        caml_cycle_heap_stw(&mut g);
        caml_cycle_heap(&mut heap);
        sweep(&mut heap, &g, 10, &mut fin);
    }
    assert_eq!(heap.stats.large_blocks, 0);
    assert_eq!(fin.len(), 1);
    let mut calls = Vec::new();
    for block in fin.drain(..) {
        calls.push(block[1]);
    }
    assert_eq!(calls, vec![Value(0xdead_beef)]);
    // nothing left to finalize on later sweeps
    caml_cycle_heap_stw(&mut g);
    caml_cycle_heap(&mut heap);
    sweep(&mut heap, &g, 10, &mut fin);
    assert!(fin.is_empty());
}

#[test]
fn garbage_without_custom_tag_is_not_queued() {
    let mut g = GlobalHeapState::new();
    let mut heap = caml_init_shared_heap();
    caml_shared_try_alloc(&mut heap, &g, 1, 254, 0, false);
    let mut fin = Vec::new();
    caml_cycle_heap_stw(&mut g);
    caml_cycle_heap_stw(&mut g);
    caml_cycle_heap(&mut heap);
    assert_eq!(sweep(&mut heap, &g, 1, &mut fin), -1);
    assert_eq!(heap.stats.large_blocks, 0);
    assert!(fin.is_empty());
}

#[test]
fn sweep_with_empty_todo_returns_budget() {
    let g = GlobalHeapState::new();
    let mut heap = caml_init_shared_heap();
    let mut fin = Vec::new();
    assert_eq!(sweep(&mut heap, &g, 10, &mut fin), 10);
    assert_eq!(sweep(&mut heap, &g, -3, &mut fin), -3);
    assert_eq!(sweep(&mut heap, &g, 0, &mut fin), 0);
}

#[test]
fn sweep_budget_is_a_soft_cap() {
    let g = GlobalHeapState::new();
    let mut heap = caml_init_shared_heap();
    for n in [1usize, 2, 3] {
        caml_shared_try_alloc(&mut heap, &g, n, 0, 0, false);
    }
    caml_cycle_heap(&mut heap);
    let mut fin = Vec::new();
    // pops the block of 4 words, then the one of 3: overdraws by 2
    assert_eq!(sweep(&mut heap, &g, 5, &mut fin), -2);
    assert_eq!(heap.todo.len(), 1);
    assert_eq!(heap.alive.len(), 2);
    assert_eq!(heap.alive[0].len(), 4);
    assert_eq!(heap.alive[1].len(), 3);
    // a non-positive budget visits nothing
    assert_eq!(sweep(&mut heap, &g, 0, &mut fin), 0);
    assert_eq!(heap.todo.len(), 1);
    assert_eq!(sweep(&mut heap, &g, 1, &mut fin), -1);
    assert!(heap.todo.is_empty());
    assert_eq!(heap.stats.large_words, 9);
}

#[test]
fn high_water_mark_is_kept_after_reclaim() {
    let mut g = GlobalHeapState::new();
    let mut heap = caml_init_shared_heap();
    caml_shared_try_alloc(&mut heap, &g, 9, 0, 0, false);
    caml_shared_try_alloc(&mut heap, &g, 4, 0, 0, false);
    assert_eq!(heap.stats.large_max_words, 15);
    let mut fin = Vec::new();
    caml_cycle_heap_stw(&mut g);
    caml_cycle_heap_stw(&mut g);
    caml_cycle_heap(&mut heap);
    sweep(&mut heap, &g, 100, &mut fin);
    assert_eq!(heap.stats.large_words, 0);
    assert_eq!(heap.stats.large_max_words, 15);
    caml_shared_try_alloc(&mut heap, &g, 2, 0, 0, false);
    assert_eq!(heap.stats.large_words, 3);
    assert_eq!(heap.stats.large_max_words, 15);
}

#[test]
fn stats_sample_copies_counters() {
    let g = GlobalHeapState::new();
    let mut heap = caml_init_shared_heap();
    caml_shared_try_alloc(&mut heap, &g, 6, 1, 0, false);
    let mut sample = HeapStats::default();
    sample.pool_words = 99;
    caml_collect_heap_stats_sample(&heap, &mut sample);
    assert_eq!(sample.pool_words, 0);
    assert_eq!(sample.large_words, 7);
    assert_eq!(sample.large_max_words, 7);
    assert_eq!(sample.large_blocks, 1);
}

#[test]
fn skipped_sweep_does_nothing() {
    let mut g = GlobalHeapState::new();
    let mut heap = caml_init_shared_heap();
    caml_shared_try_alloc(&mut heap, &g, 4, 0, 0, false);
    caml_cycle_heap_stw(&mut g);
    caml_cycle_heap_stw(&mut g);
    caml_cycle_heap(&mut heap);
    let mut fin = Vec::new();
    assert_eq!(caml_sweep(&mut heap, &g, 10, true, &mut fin), 10);
    assert_eq!(heap.todo.len(), 1);
    assert_eq!(heap.stats.large_words, 5);
    assert_eq!(caml_sweep(&mut heap, &g, 10, false, &mut fin), 5);
    assert_eq!(heap.stats.large_words, 0);
}

#[test]
fn no_strike_never_skips() {
    for _ in 0..100 {
        assert!(!strike_skips(false));
    }
}

#[test]
fn unsupported_operations_fail() {
    assert!(matches!(caml_pool_of_shared_block(Value(0)), Err(Unsupported::NotImplemented)));
    assert_eq!(caml_shared_unpin(Value(0)), Err(Unsupported::NotImplemented));
    assert_eq!(caml_redarken_pool(&Pool), Err(Unsupported::NotImplemented));
    assert_eq!(caml_verify_heap(), Err(Unsupported::NotImplemented));
}

#[test]
fn alloc_block_appends_zeroed_block() {
    let mut heap = caml_init_shared_heap();
    alloc_block(&mut heap, 3, Value(77));
    alloc_block(&mut heap, 2, Value(5));
    assert_eq!(heap.alive, vec![vec![Value(77), Value(0), Value(0)], vec![Value(5), Value(0)]]);
    assert_eq!(heap.stats.large_words, 5);
    assert_eq!(heap.stats.large_max_words, 5);
    assert_eq!(heap.stats.large_blocks, 2);
}
