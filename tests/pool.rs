use std::sync::atomic::{AtomicUsize, Ordering};
use std::sync::mpsc;
use std::sync::Arc;

use workerpool::pool::{Next, WorkerPool};
use workerpool::worker::Worker;

type Job = Box<dyn FnOnce() + Send + 'static>;

/// Lets the workers of `pool` ask for work in turn, running what they get,
/// until one of them is told to wait or stop. Returns the number of jobs run.
fn run_queued(pool: &mut WorkerPool<Job>) -> usize {
    let size = pool.size();
    let mut ran = 0;
    let mut w = 0;
    loop {
        match pool.next(w % size) {
            Next::Run(job) => {
                job();
                ran += 1;
            }
            Next::Wait | Next::Stop => return ran,
        }
        w += 1;
    }
}

#[test]
fn worker_should_return_new() {
    let w = Worker::new(1);
    assert_eq!("(id: 1)", w.render());
}

#[test]
fn workerpool_should_return_new() {
    let expected = "workers[] = (id: 0)(id: 1)(id: 2)".to_string();
    let pool = WorkerPool::<Job>::new(3);
    assert_eq!(expected.to_string(), pool.render());
}

#[test]
fn workerpool_should_execute_job_succeed() {
    let mut pool = WorkerPool::<Job>::new(1);
    for _ in 0..10000 {
        let r = pool.execute(Box::new(|| {
            let _sum = 3 + 1;
        }));
        assert!(r.is_ok());
    }
}

#[test]
fn pool_should_synchronize_sender_and_receiver_and_fold_results() {
    let nworkers = 4;
    let njobs = 8;

    let mut pool = WorkerPool::<Job>::new(nworkers);

    let (tx, rx) = mpsc::channel();

    for _ in 0..njobs {
        let tx = tx.clone();
        let r = pool.execute(Box::new(move || {
            tx.send(1).expect("channel waiting for pool");
        }));
        assert!(r.is_ok());
    }
    run_queued(&mut pool);

    assert_eq!(rx.iter().take(njobs).fold(0, |a, b| a + b), njobs);
}

#[test]
fn new_pool_numbers_workers_from_zero() {
    let pool = WorkerPool::<Job>::new(5);
    assert_eq!(pool.size(), 5);
    assert_eq!(pool.pending_len(), 0);
    assert!(pool.is_open());
    assert_eq!(
        pool.render(),
        "workers[] = (id: 0)(id: 1)(id: 2)(id: 3)(id: 4)"
    );
}

#[test]
fn worker_ids_with_several_digits() {
    let pool = WorkerPool::<u32>::new(12);
    assert_eq!(
        pool.render(),
        "workers[] = (id: 0)(id: 1)(id: 2)(id: 3)(id: 4)(id: 5)(id: 6)(id: 7)(id: 8)(id: 9)(id: 10)(id: 11)"
    );
    assert_eq!(Worker::new(4096).render(), "(id: 4096)");
    assert_eq!(Worker::new(4096).id(), 4096);
}

#[test]
fn empty_pool_renders_no_workers() {
    let pool = WorkerPool::<u32>::new(0);
    assert_eq!(pool.render(), "workers[] = ");
}

#[test]
fn every_job_runs_exactly_once() {
    let mut pool = WorkerPool::<Job>::new(3);
    let counts: Arc<Vec<AtomicUsize>> = Arc::new((0..50).map(|_| AtomicUsize::new(0)).collect());
    for k in 0..50 {
        let counts = counts.clone();
        assert!(pool
            .execute(Box::new(move || {
                counts[k].fetch_add(1, Ordering::SeqCst);
            }))
            .is_ok());
    }
    assert_eq!(pool.pending_len(), 50);
    assert_eq!(run_queued(&mut pool), 50);
    assert_eq!(pool.pending_len(), 0);
    for c in counts.iter() {
        assert_eq!(c.load(Ordering::SeqCst), 1);
    }
    assert!(matches!(pool.next(0), Next::Wait));
}

#[test]
fn jobs_leave_in_order_of_arrival_each_to_one_worker() {
    let mut pool = WorkerPool::<u32>::new(3);
    for token in 100..110 {
        assert_eq!(pool.execute(token), Ok(()));
    }
    let mut seen = Vec::new();
    for w in [2, 0, 0, 1, 2, 1, 0, 2, 1, 0, 1, 2] {
        if let Next::Run(token) = pool.next(w) {
            seen.push(token);
        }
    }
    assert_eq!(seen, (100..110).collect::<Vec<u32>>());
}

#[test]
fn pool_without_workers_keeps_every_job_queued() {
    let mut pool = WorkerPool::<Job>::new(0);
    let ran = Arc::new(AtomicUsize::new(0));
    for _ in 0..1000 {
        let ran = ran.clone();
        assert!(pool
            .execute(Box::new(move || {
                ran.fetch_add(1, Ordering::SeqCst);
            }))
            .is_ok());
    }
    assert_eq!(pool.size(), 0);
    assert_eq!(pool.pending_len(), 1000);
    assert_eq!(ran.load(Ordering::SeqCst), 0);
}

#[test]
fn closed_pool_gives_the_job_back() {
    let mut pool = WorkerPool::<u32>::new(2);
    pool.close();
    assert!(!pool.is_open());
    assert_eq!(pool.execute(7), Err(7));
    assert_eq!(pool.pending_len(), 0);
}

#[test]
fn closed_pool_drains_then_stops() {
    let mut pool = WorkerPool::<u32>::new(2);
    assert_eq!(pool.execute(1), Ok(()));
    assert_eq!(pool.execute(2), Ok(()));
    pool.close();
    assert!(matches!(pool.next(1), Next::Run(1)));
    assert!(matches!(pool.next(1), Next::Run(2)));
    assert!(matches!(pool.next(0), Next::Stop));
    assert!(matches!(pool.next(1), Next::Stop));
}

#[test]
fn open_empty_pool_tells_workers_to_wait() {
    let mut pool = WorkerPool::<u32>::new(1);
    assert!(matches!(pool.next(0), Next::Wait));
    assert_eq!(pool.execute(3), Ok(()));
    assert!(matches!(pool.next(0), Next::Run(3)));
    assert!(matches!(pool.next(0), Next::Wait));
}
