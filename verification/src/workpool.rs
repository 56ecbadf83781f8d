//! A pool whose workers report where they are: the shared work queue of optional
//! tasks and the channel of position reports.

use vstd::prelude::*;
use std::sync::mpsc::{Receiver, Sender};
use std::sync::{Arc, Mutex};

use crate::taskpool::{channel, mutex, send_to};

verus! {

/// A position report of a worker: the worker's id and the number of workers.
#[derive(Debug, PartialEq, Eq, Structural, Clone, Copy)]
pub enum WorkMsg {
    Begin(u32, u32),
    Wait(u32, u32),
    Work(u32, u32),
    Exit(u32, u32),
}

/// What the workers share: their number, the queue of tasks (`None` asks a worker
/// to stop) and the channel of position reports.
#[verifier::reject_recursive_types(T)]
pub struct WorkState<T> {
    size: u32,
    rx: Mutex<Receiver<Option<T>>>,
    tx: Sender<Option<T>>,
    pos_tx: Sender<WorkMsg>,
}

impl<T> WorkState<T> {
    /// The number of workers.
    pub closed spec fn size(&self) -> u32 {
        self.size
    }

    /// The state of `size` workers that report through `pos_tx`, with a fresh queue.
    pub fn new(pos_tx: Sender<WorkMsg>, size: u32) -> (s: WorkState<T>)
        ensures
            s.size() == size,
    {
        let (sender, receiver) = channel::<Option<T>>();
        WorkState { size, rx: mutex(receiver), tx: sender, pos_tx }
    }

    /// The queue entry that carries the task `msg`.
    pub fn queued(msg: T) -> (r: Option<T>)
        ensures
            r == Some(msg),
    {
        Some(msg)
    }

    /// Queues a task; whether it reached the queue.
    pub fn send(&self, msg: T) -> bool {
        send_to(&self.tx, Self::queued(msg))
    }

    /// Sends a position report; whether it reached the channel.
    pub fn send_pos(&self, msg: WorkMsg) -> bool {
        send_to(&self.pos_tx, msg)
    }

    /// The report a worker sends as it begins.
    pub fn begin_msg(&self, id: u32) -> (m: WorkMsg)
        ensures
            m == WorkMsg::Begin(id, self.size()),
    {
        WorkMsg::Begin(id, self.size)
    }

    /// The report a worker sends as it exits.
    pub fn exit_msg(&self, id: u32) -> (m: WorkMsg)
        ensures
            m == WorkMsg::Exit(id, self.size()),
    {
        WorkMsg::Exit(id, self.size)
    }

    /// The receiving end of the queue.
    pub closed spec fn queue(&self) -> Mutex<Receiver<Option<T>>> {
        self.rx
    }

    /// The queue the workers take tasks from.
    pub fn receiver(&self) -> (r: &Mutex<Receiver<Option<T>>>)
        ensures
            *r == self.queue(),
    {
        &self.rx
    }
}

/// A pool of reporting workers.
#[verifier::reject_recursive_types(T)]
pub struct Pool<T> {
    state: Arc<WorkState<T>>,
}

impl<T> Pool<T> {
    /// A pool for `size` workers, with the receiving end of their position reports.
    pub fn new(size: u32) -> (r: (Pool<T>, Receiver<WorkMsg>))
        ensures
            r.0.size() == size,
    {
        let (pos_tx, pos_rx) = channel::<WorkMsg>();
        (Pool { state: Arc::new(WorkState::new(pos_tx, size)) }, pos_rx)
    }

    /// The number of workers.
    pub closed spec fn size(&self) -> u32 {
        self.state.size()
    }

    /// What the workers share.
    pub closed spec fn shared(&self) -> Arc<WorkState<T>> {
        self.state
    }

    /// What the workers share.
    pub fn state(&self) -> (r: &Arc<WorkState<T>>)
        ensures
            *r == self.shared(),
            r.size() == self.size(),
    {
        &self.state
    }
}

} // verus!
