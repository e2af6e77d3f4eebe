use scrying::pool::WorkerPool;

#[test]
fn peak_concurrency_within_budget() {
    let threads = 4;
    let total = 3 * threads;
    let mut pool = WorkerPool::new(threads, total);
    let mut peak = 0;
    let mut started = Vec::new();
    let mut completions = 0;
    while !pool.is_done() {
        while let Some(i) = pool.start_next() {
            started.push(i);
            peak = peak.max(pool.active());
        }
        // every running session ends at once
        while pool.active() > 0 {
            pool.complete();
            completions += 1;
        }
    }
    assert!(peak <= threads);
    assert_eq!(peak, threads);
    assert_eq!(started, (0..total).collect::<Vec<_>>());
    assert_eq!(completions, total);
}

#[test]
fn failures_still_complete() {
    // odd targets fail; each session signals completion either way
    let mut pool = WorkerPool::new(2, 5);
    let mut completions = 0;
    let mut successes = 0;
    while !pool.is_done() {
        if let Some(i) = pool.start_next() {
            if i % 2 == 0 {
                successes += 1;
            }
            pool.complete();
            completions += 1;
        }
    }
    assert_eq!(completions, 5);
    assert_eq!(successes, 3);
}

#[test]
fn empty_queue_is_done() {
    let mut pool = WorkerPool::new(10, 0);
    assert!(pool.is_done());
    assert_eq!(pool.start_next(), None);
}
