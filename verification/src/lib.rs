//! The core of an unbounded multi-producer multi-consumer channel: its queue.
//!
//! The queue is a Michael-Scott linked list with a sentinel head. Senders link
//! nodes at the tail, receivers unlink them at the head, and both help a
//! pointer that fell behind. A queue can be closed once; it is then drained
//! before its receivers learn that it is disconnected.
//!
//! - [`protocol`] holds the decisions of a sender, a receiver and a blocked
//!   receiver, apart from the memory they run on.
//! - [`queue`] holds the queue on an arena of nodes: the atomic accesses to the
//!   chain, the steps of the protocols, and the operations.
//! - [`blocking`] keeps the books of the receivers that wait.
//! - [`state`] says what a queue holds and what each call does to it.
//! - [`history`] and [`schedule`] prove what holds of every sequence of calls
//!   and of every interleaving of senders and receivers.

pub mod blocking;
pub mod error;
pub mod history;
pub mod protocol;
pub mod queue;
pub mod schedule;
pub mod state;

pub use blocking::{Blocking, Token, Waiters};
pub use error::{RecvTimeoutError, SendTimeoutError, TryRecvError, TrySendError};
pub use queue::Queue;
pub use state::{QueueState, RecvPoll};
