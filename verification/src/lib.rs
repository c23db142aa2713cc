//! A fixed-size worker pool, stated as the protocol that its parts follow.
//!
//! A pool owns a fixed number of workers and the sending end of a dispatch
//! channel. Each worker runs on a thread of its own and takes one message
//! after another off the channel: a job, which it runs, or the terminate
//! signal, on which it leaves. Shutting the pool down puts one terminate
//! signal on the channel for each worker and then waits for every thread.
//!
//! This crate holds the decisions of that protocol and leaves the threads
//! and the channel between them to its user:
//!
//! - [`ThreadPool`] keeps the workers' records and says what goes on the
//!   channel: the message for a job, and on shutdown the terminate signals
//!   together with the threads to wait for.
//! - [`WorkerLoop`] is the loop of one worker as a state machine: it says
//!   what the worker does with the message that it has received.
//! - [`Channel`] is the channel as the protocol needs it: unbounded, first
//!   in, first out, each message handed out once.
//! - [`model`] puts the three together as one state machine over every order
//!   in which the workers may move, and [`laws`] proves what holds of all of
//!   them: each job is delivered once, in order, to one worker; a shutdown
//!   comes to an end and leaves no worker behind; a worker that is stuck in
//!   a job holds up no other.
//! - [`Simulation`] runs the three on one thread, move by move, and each of
//!   its moves is a step of the model.

pub mod channel;
pub mod laws;
pub mod message;
pub mod model;
pub mod pool;
pub mod simulation;
pub mod worker;

pub use channel::Channel;
pub use message::Message;
pub use model::{Phase, Step, SystemState};
pub use pool::{Shutdown, ThreadPool};
pub use simulation::Simulation;
pub use worker::{Action, Worker, WorkerLoop, WorkerState};
