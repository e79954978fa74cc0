use music_server::pool::ThreadPool;

#[test]
fn construct_spawns_exactly_size_workers() {
    for size in 1..6usize {
        let pool: ThreadPool<u64> = ThreadPool::new(size);
        assert_eq!(pool.worker_count(), size);
        for w in 0..size {
            assert!(pool.is_idle(w));
        }
        assert_eq!(pool.pending_count(), 0);
    }
}

#[test]
fn construct_zero_fails_fast() {
    let none: Option<ThreadPool<u64>> = ThreadPool::try_new(0);
    assert!(none.is_none());
    let some: Option<ThreadPool<u64>> = ThreadPool::try_new(1);
    assert!(some.is_some());
    assert_eq!(some.unwrap().worker_count(), 1);
}

#[test]
fn each_job_executes_exactly_once() {
    // more jobs than workers, an uneven interleaving of pulls and returns
    let mut pool: ThreadPool<u64> = ThreadPool::new(3);
    for j in 0..7u64 {
        pool.execute(j);
    }
    let mut log: Vec<u64> = Vec::new();
    let a: u64 = pool.dispatch(0);
    let b: u64 = pool.dispatch(2);
    pool.finish(0);
    log.push(a);
    let c: u64 = pool.dispatch(0);
    let d: u64 = pool.dispatch(1);
    pool.finish(2);
    log.push(b);
    pool.finish(1);
    log.push(d);
    pool.finish(0);
    log.push(c);
    while pool.pending_count() > 0 {
        let j: u64 = pool.dispatch(1);
        pool.finish(1);
        log.push(j);
    }
    log.sort();
    assert_eq!(log, vec![0, 1, 2, 3, 4, 5, 6]);
}

#[test]
fn no_jobs_executed_when_none_submitted() {
    let mut pool: ThreadPool<u64> = ThreadPool::new(2);
    assert_eq!(pool.pending_count(), 0);
    assert!(pool.try_dispatch(0).is_none());
    assert!(pool.try_dispatch(1).is_none());
}

#[test]
fn excess_jobs_stay_queued_until_a_worker_frees_up() {
    let mut pool: ThreadPool<u64> = ThreadPool::new(2);
    for j in 10..15u64 {
        pool.execute(j);
    }
    let first: u64 = pool.dispatch(0);
    let second: u64 = pool.dispatch(1);
    assert_eq!((first, second), (10, 11));
    // both workers busy: the three excess jobs wait, none is dropped
    assert_eq!(pool.pending_count(), 3);
    assert!(pool.try_dispatch(0).is_none());
    assert_eq!(pool.pending_count(), 3);
    pool.finish(0);
    let third: u64 = pool.dispatch(0);
    assert_eq!(third, 12);
    assert_eq!(pool.pending_count(), 2);
}

#[test]
fn two_long_jobs_run_concurrently_on_two_workers() {
    let mut pool: ThreadPool<u64> = ThreadPool::new(2);
    pool.execute(1);
    pool.execute(2);
    let a: u64 = pool.dispatch(0);
    let b: u64 = pool.dispatch(1);
    // both jobs are in flight at the same time, on distinct workers
    assert!(!pool.is_idle(0));
    assert!(!pool.is_idle(1));
    assert_eq!((a, b), (1, 2));
    pool.finish(1);
    assert!(!pool.is_idle(0));
    assert!(pool.is_idle(1));
}

#[test]
fn eight_jobs_on_four_workers_run_in_two_waves() {
    let mut pool: ThreadPool<u64> = ThreadPool::new(4);
    for j in 0..8u64 {
        pool.execute(j);
    }
    let mut log: Vec<u64> = Vec::new();
    // first wave: every worker picks one job; the other four wait
    for w in 0..4usize {
        let j: u64 = pool.dispatch(w);
        log.push(j);
    }
    assert_eq!(pool.pending_count(), 4);
    for w in 0..4usize {
        assert!(!pool.is_idle(w));
        pool.finish(w);
    }
    // second wave: the queued jobs run
    for w in 0..4usize {
        let j: u64 = pool.dispatch(w);
        log.push(j);
        pool.finish(w);
    }
    assert_eq!(pool.pending_count(), 0);
    let mut sorted: Vec<u64> = log.clone();
    sorted.sort();
    sorted.dedup();
    // exactly eight distinct entries: no duplicates, no omissions
    assert_eq!(log.len(), 8);
    assert_eq!(sorted, vec![0, 1, 2, 3, 4, 5, 6, 7]);
}

#[test]
fn single_worker_runs_jobs_in_submission_order() {
    let mut pool: ThreadPool<&'static str> = ThreadPool::new(1);
    pool.execute("A");
    pool.execute("B");
    pool.execute("C");
    let mut log: Vec<&'static str> = Vec::new();
    while let Some(job) = pool.try_dispatch(0) {
        log.push(job);
        pool.finish(0);
    }
    assert_eq!(log, vec!["A", "B", "C"]);
}

#[test]
fn dispatch_hands_out_jobs_in_submission_order_across_workers() {
    let mut pool: ThreadPool<u64> = ThreadPool::new(3);
    pool.execute(100);
    pool.execute(200);
    pool.execute(300);
    // whichever workers win the race, the queue hands out oldest first
    assert_eq!(pool.dispatch(2), 100);
    assert_eq!(pool.dispatch(0), 200);
    assert_eq!(pool.dispatch(1), 300);
}
