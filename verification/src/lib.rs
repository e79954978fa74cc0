//! Core of a small music-serving application: a fixed-size worker pool that
//! decouples submission of opaque jobs from their execution on a bounded set
//! of persistent workers, together with the plain data types that the
//! application's authentication and library-management endpoints exchange.
//!
//! The pool itself is modelled as a state machine: the queue, the dispatch
//! bookkeeping and the worker lifecycle live here with full contracts, while
//! a host embedding the pool drives it with the events it observes (a job
//! submitted, a worker pulling the next job, a job returning).

pub mod auth;
pub mod friends;
pub mod models;
pub mod playlist;
pub mod pool;
pub mod server;
