//! The message and state types of a generic worker pool whose threads take tasks
//! of type `T` from a shared channel.

use vstd::prelude::*;
use std::sync::mpsc::{Receiver, Sender};
use std::sync::Mutex;

verus! {

/// A message of the generic pool.
pub enum PoolMsg<T> {
    Start,
    Wait,
    Task(T),
    End,
}

/// A generic pool: its number of threads and their shared state.
#[verifier::reject_recursive_types(T)]
pub struct Pool<T> {
    size: u32,
    state: PoolState<T>,
}

/// What the threads of a generic pool share: an id and the two ends of the
/// channel.
#[verifier::reject_recursive_types(T)]
pub struct PoolState<T> {
    id: u32,
    rx: Mutex<Receiver<PoolMsg<T>>>,
    tx: Mutex<Sender<PoolMsg<T>>>,
}

} // verus!
