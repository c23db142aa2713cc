use std::cell::{Cell, RefCell};
use std::rc::Rc;

use yarws::{Action, Channel, Message, ThreadPool, WorkerLoop};

type Job = Box<dyn FnOnce()>;

/// A pool of `size` workers with its channel. Starting a worker's thread is
/// starting its loop here, and the thread's handle is the worker's index.
fn start(size: usize) -> (ThreadPool<usize>, Channel<Job>, Vec<WorkerLoop>) {
    let loops = RefCell::new(Vec::new());
    let pool = ThreadPool::new(size, |id| {
        loops.borrow_mut().push(WorkerLoop::new(id));
        id
    });
    (pool, Channel::new(), loops.into_inner())
}

/// What letting go of the pool does: the terminate signals go on the
/// channel, and each worker, in the order of creation, is waited for until
/// it has left its loop. Returns how many jobs the workers ran.
fn release(
    mut pool: ThreadPool<usize>,
    mut channel: Channel<Job>,
    mut loops: Vec<WorkerLoop>,
) -> usize {
    let plan = pool.shutdown();
    for signal in plan.signals {
        channel.send(signal);
    }
    let mut ran = 0;
    for thread in plan.threads {
        let worker = &mut loops[thread];
        while worker.is_running() {
            let message = channel.try_recv().expect("the worker waits for a message");
            match worker.on_message(message) {
                Action::Run(job) => {
                    job();
                    ran += 1;
                }
                Action::Exit => {}
            }
        }
    }
    assert!(!pool.is_open());
    assert!(channel.is_empty());
    assert!(loops.iter().all(|worker| !worker.is_running()));
    ran
}

#[test]
fn thread_executes() {
    let (pool, mut channel, loops) = start(4);

    channel.send(pool.execute(Box::new(|| {
        println!("Hello from a thread!");
    })));

    assert_eq!(release(pool, channel, loops), 1);
}

#[test]
fn thread_pool_executes_many_jobs() {
    let (pool, mut channel, loops) = start(4);

    for _ in 0..8 {
        channel.send(pool.execute(Box::new(|| {
            println!("Hello from a thread!");
        })));
    }

    assert_eq!(release(pool, channel, loops), 8);
}

#[test]
fn thread_pool_shutdown() {
    let (pool, mut channel, loops) = start(4);

    for _ in 0..8 {
        channel.send(pool.execute(Box::new(|| {
            println!("Hello from a thread!");
        })));
    }

    assert_eq!(release(pool, channel, loops), 8);
}

#[test]
fn drop_thread_pool_should_shutdown_all_workers() {
    let (mut pool, mut channel, mut loops) = start(4);

    for _ in 0..8 {
        channel.send(pool.execute(Box::new(|| {
            println!("Hello from a thread!");
        })));
    }

    let plan = pool.shutdown();
    assert_eq!(plan.threads, vec![0, 1, 2, 3]);
    for signal in plan.signals {
        channel.send(signal);
    }
    let mut told_to_stop = Vec::new();
    let mut turn = 0;
    while loops.iter().any(|worker| worker.is_running()) {
        let worker = &mut loops[turn % 4];
        turn += 1;
        if !worker.is_running() {
            continue;
        }
        let message = channel.try_recv().expect("the worker waits for a message");
        match worker.on_message(message) {
            Action::Run(job) => job(),
            Action::Exit => told_to_stop.push(worker.id()),
        }
    }
    told_to_stop.sort();
    assert_eq!(told_to_stop, vec![0, 1, 2, 3]);
    assert!(channel.is_empty());
}

#[test]
fn new_pool_has_one_worker_for_each_index() {
    for size in [1usize, 2, 4, 7, 64] {
        let pool = ThreadPool::new(size, |id| id + 100);
        assert_eq!(pool.size(), size);
        assert!(pool.is_open());
        for index in 0..size {
            let worker = pool.worker(index);
            assert_eq!(worker.id(), index);
            assert!(worker.has_thread());
        }
    }
}

#[test]
fn new_pool_starts_each_worker_once_in_rising_order() {
    let started = RefCell::new(Vec::new());
    let pool = ThreadPool::new(5, |id| {
        started.borrow_mut().push(id);
        format!("thread-{}", id)
    });
    assert_eq!(started.into_inner(), vec![0, 1, 2, 3, 4]);
    assert_eq!(pool.size(), 5);
}

#[test]
fn pool_of_one_worker_is_a_pool() {
    let mut pool = ThreadPool::new(1, |id| id);
    assert_eq!(pool.size(), 1);
    let plan = pool.shutdown::<u32>();
    assert_eq!(plan.signals, vec![Message::Terminate]);
    assert_eq!(plan.threads, vec![0]);
}

#[test]
fn execute_wraps_the_job_as_a_message() {
    let pool = ThreadPool::new(2, |id| id);
    assert_eq!(pool.execute(17u32), Message::NewJob(17u32));
    assert_eq!(pool.execute("job"), Message::NewJob("job"));
    assert!(pool.is_open());
    assert_eq!(pool.size(), 2);
}

#[test]
fn execute_leaves_the_job_to_be_run_once() {
    let runs = Rc::new(Cell::new(0));
    let pool = ThreadPool::new(3, |id| id);
    let counter = Rc::clone(&runs);
    let job: Job = Box::new(move || counter.set(counter.get() + 1));
    assert_eq!(runs.get(), 0);
    match pool.execute(job) {
        Message::NewJob(job) => job(),
        Message::Terminate => panic!("a job was submitted"),
    }
    assert_eq!(runs.get(), 1);
}

#[test]
fn shutdown_sends_one_signal_for_each_worker() {
    for size in [1usize, 3, 4, 10] {
        let mut pool = ThreadPool::new(size, |id| id);
        let plan = pool.shutdown::<u8>();
        assert_eq!(plan.signals.len(), size);
        assert!(plan.signals.iter().all(|signal| signal.is_terminate()));
    }
}

#[test]
fn shutdown_hands_out_the_threads_in_creation_order() {
    let mut pool = ThreadPool::new(4, |id| 10 * id + 3);
    let plan = pool.shutdown::<u8>();
    assert_eq!(plan.threads, vec![3, 13, 23, 33]);
}

#[test]
fn shutdown_empties_every_slot_and_keeps_the_workers() {
    let mut pool = ThreadPool::new(4, |id| id);
    assert!(pool.is_open());
    pool.shutdown::<u8>();
    assert!(!pool.is_open());
    assert_eq!(pool.size(), 4);
    for index in 0..4 {
        assert_eq!(pool.worker(index).id(), index);
        assert!(!pool.worker(index).has_thread());
    }
}
