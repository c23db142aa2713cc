use yarws::{Action, Message, Worker, WorkerLoop, WorkerState};

#[test]
fn new_loop_is_running() {
    let worker = WorkerLoop::new(3);
    assert_eq!(worker.id(), 3);
    assert_eq!(worker.state(), WorkerState::Running);
    assert!(worker.is_running());
}

#[test]
fn job_is_run_and_the_loop_goes_on() {
    let mut worker = WorkerLoop::new(0);
    assert_eq!(worker.on_message(Message::NewJob(5u32)), Action::Run(5u32));
    assert_eq!(worker.state(), WorkerState::Running);
    assert_eq!(worker.on_message(Message::NewJob(6u32)), Action::Run(6u32));
    assert!(worker.is_running());
    assert_eq!(worker.id(), 0);
}

#[test]
fn terminate_ends_the_loop() {
    let mut worker = WorkerLoop::new(2);
    assert_eq!(worker.on_message(Message::<u32>::Terminate), Action::Exit);
    assert_eq!(worker.state(), WorkerState::Terminated);
    assert!(!worker.is_running());
    assert_eq!(worker.id(), 2);
}

#[test]
fn loop_runs_the_jobs_that_come_before_its_signal() {
    let mut worker = WorkerLoop::new(1);
    let mut messages = vec![
        Message::NewJob('a'),
        Message::NewJob('b'),
        Message::Terminate,
        Message::NewJob('c'),
    ]
    .into_iter();
    let mut ran = Vec::new();
    while worker.is_running() {
        match worker.on_message(messages.next().unwrap()) {
            Action::Run(job) => ran.push(job),
            Action::Exit => {}
        }
    }
    assert_eq!(ran, vec!['a', 'b']);
    assert_eq!(messages.next(), Some(Message::NewJob('c')));
}

#[test]
fn message_knows_whether_it_is_the_signal() {
    assert!(Message::<u8>::Terminate.is_terminate());
    assert!(!Message::NewJob(0u8).is_terminate());
}

#[test]
fn record_holds_index_and_thread() {
    let worker = Worker::new(7, "handle");
    assert_eq!(worker.id(), 7);
    assert!(worker.has_thread());
}

#[test]
fn thread_is_taken_once() {
    let mut worker = Worker::new(4, 99u64);
    assert_eq!(worker.take_thread(), Some(99));
    assert!(!worker.has_thread());
    assert_eq!(worker.take_thread(), None);
    assert!(!worker.has_thread());
    assert_eq!(worker.id(), 4);
}
