//! A pool of worker threads fed through a channel: its configuration, the tasks and
//! messages it passes, the count of running workers, and the reference count that
//! decides when the pool is shut down. Starting the threads is left to the caller.

use vstd::prelude::*;
use std::sync::atomic::{AtomicUsize, Ordering};
use std::sync::mpsc::{Receiver, Sender};
use std::sync::{Arc, Mutex};

use crate::text::{decimal, decimal_text, push_text};

verus! {

#[verifier::external_type_specification]
#[verifier::external_body]
#[verifier::reject_recursive_types(T)]
pub struct ExSender<T>(Sender<T>);

#[verifier::external_type_specification]
#[verifier::external_body]
#[verifier::reject_recursive_types(T)]
pub struct ExReceiver<T>(Receiver<T>);

#[verifier::external_type_specification]
#[verifier::external_body]
#[verifier::reject_recursive_types(T)]
pub struct ExMutex<T: ?Sized>(Mutex<T>);

/// Calls `std::sync::mpsc::channel`: a new channel's sending and receiving ends.
#[verifier::external_body]
pub(crate) fn channel<T>() -> (Sender<T>, Receiver<T>) {
    std::sync::mpsc::channel()
}

/// Calls `std::sync::Mutex::new`, which wraps a value in a new, unlocked mutex.
#[verifier::external_body]
pub(crate) fn mutex<T>(t: T) -> Mutex<T> {
    Mutex::new(t)
}

/// Calls `std::sync::mpsc::Sender::send`: whether the message was handed to the
/// channel; it is not when the receiving end is gone, which depends on other
/// threads, so nothing is claimed of the result.
#[verifier::external_body]
pub(crate) fn send_to<T>(tx: &Sender<T>, msg: T) -> bool {
    match tx.send(msg) {
        Ok(()) => true,
        Err(_) => false,
    }
}

/// Calls `Arc::clone`: another pointer to the same allocation, so the value it
/// points to is the same.
#[verifier::external_body]
fn share<T: ?Sized>(a: &Arc<T>) -> (r: Arc<T>)
    ensures
        r == *a,
{
    a.clone()
}

/// Work that a pool thread runs.
pub trait Job: Send + Sync {
    /// The work may be run now.
    spec fn ready(&self) -> bool;

    /// What holds once the work has run.
    spec fn ran(&self) -> bool;

    /// Runs the work.
    fn invoke(&self)
        requires
            self.ready(),
        ensures
            self.ran(),
    ;
}

impl<F: Fn() + Send + Sync> Job for F {
    open spec fn ready(&self) -> bool {
        call_requires(*self, ())
    }

    open spec fn ran(&self) -> bool {
        call_ensures(*self, (), ())
    }

    fn invoke(&self) {
        (self)()
    }
}

/// A hook that a pool thread calls with its index when it starts or stops.
pub trait Hook: Send + Sync {
    /// The hook may be called with `idx`.
    spec fn ready(&self, idx: usize) -> bool;

    /// What holds once the hook was called with `idx`.
    spec fn called(&self, idx: usize) -> bool;

    /// Calls the hook.
    fn call(&self, idx: usize)
        requires
            self.ready(idx),
        ensures
            self.called(idx),
    ;
}

impl<F: Fn(usize) + Send + Sync> Hook for F {
    open spec fn ready(&self, idx: usize) -> bool {
        call_requires(*self, (idx,))
    }

    open spec fn called(&self, idx: usize) -> bool {
        call_ensures(*self, (idx,), ())
    }

    fn call(&self, idx: usize) {
        (self)(idx)
    }
}

/// A piece of work for the pool. The work is shared behind an `Arc`; the pool
/// runs it as a `Job`, in practice `dyn Job`.
pub struct Task<J: ?Sized> {
    spawn: Option<Arc<J>>,
}

impl<J: ?Sized> Task<J> {
    /// The work the task carries.
    pub closed spec fn job(&self) -> Option<Arc<J>> {
        self.spawn
    }
}

impl<J: ?Sized + Job> Task<J> {
    /// Whether the task carries work.
    pub closed spec fn has_work(&self) -> bool {
        self.spawn is Some
    }

    /// The task's work may be run now.
    pub closed spec fn ready(&self) -> bool {
        match &self.spawn {
            Some(f) => f.ready(),
            None => true,
        }
    }

    /// A task that runs `job`.
    pub fn new(job: Arc<J>) -> (t: Task<J>)
        ensures
            t.job() == Some(job),
            t.has_work(),
            t.ready() == job.ready(),
    {
        Task { spawn: Some(job) }
    }

    /// Runs the task's work, if it carries any, on the current thread.
    pub fn run(&self)
        requires
            self.ready(),
        ensures
            self.job() matches Some(f) ==> f.ran(),
    {
        match &self.spawn {
            Some(fun) => fun.invoke(),
            None => {},
        }
    }
}

/// A message to the pool's threads.
pub enum Message<J: ?Sized> {
    /// The work to run.
    Run(Task<J>),
    /// Stop one thread.
    Close,
}

impl<J: ?Sized> Message<J> {
    /// The message that asks a thread to run `job`.
    pub fn run_job(job: Arc<J>) -> (m: Message<J>)
        ensures
            m matches Message::Run(t) && t.job() == Some(job),
    {
        Message::Run(Task { spawn: Some(job) })
    }

    /// The message that asks one thread to stop.
    pub fn close() -> (m: Message<J>)
        ensures
            m is Close,
    {
        Message::Close
    }

    /// What a thread does with the message: run the task it carries, or stop
    /// (`None`).
    pub fn into_task(self) -> (r: Option<Task<J>>)
        ensures
            r == (match self {
                Message::Run(t) => Some(t),
                Message::Close => None,
            }),
    {
        match self {
            Message::Run(t) => Some(t),
            Message::Close => None,
        }
    }
}

/// A progress report of a pool thread: its kind, an index and a position.
#[derive(Debug, PartialEq, Eq)]
pub enum PosMsg {
    Start(i32, i64),
    Point(i32, i64, String),
    End(i32, i64),
}

/// A progress report stamped with the id and the kind of its sender.
#[derive(Debug, PartialEq, Eq)]
pub struct WrapPosMsg(pub i32, pub i32, pub PosMsg);

/// The sending side of a thread's progress reports.
pub struct PosState {
    id: i32,
    t: i32,
    tx: Sender<WrapPosMsg>,
}

/// Setting the stamp of progress reports, and sending them.
pub trait SendState {
    /// The id and kind with which reports are stamped.
    spec fn stamp(&self) -> (i32, i32);

    #[allow(non_snake_case)]
    fn setId(&mut self, id: i32)
        ensures
            final(self).stamp() == (id, old(self).stamp().1),
    ;

    #[allow(non_snake_case)]
    fn setT(&mut self, t: i32)
        ensures
            final(self).stamp() == (old(self).stamp().0, t),
    ;

    /// Sends the report stamped with the current id and kind; whether it reached
    /// the channel.
    fn send(&self, pos: PosMsg) -> bool;
}

impl PosState {
    /// The report `pos` stamped with the current id and kind.
    pub fn stamped(&self, pos: PosMsg) -> (m: WrapPosMsg)
        ensures
            m == WrapPosMsg(self.stamp().0, self.stamp().1, pos),
    {
        WrapPosMsg(self.id, self.t, pos)
    }

    /// Reports with id `id` and kind `t`, sent through `tx`.
    pub fn new(id: i32, t: i32, tx: Sender<WrapPosMsg>) -> (s: PosState)
        ensures
            s.stamp() == (id, t),
    {
        PosState { id, t, tx }
    }
}

impl SendState for PosState {
    closed spec fn stamp(&self) -> (i32, i32) {
        (self.id, self.t)
    }

    #[allow(non_snake_case)]
    fn setId(&mut self, id: i32) {
        self.id = id;
    }

    #[allow(non_snake_case)]
    fn setT(&mut self, t: i32) {
        self.t = t;
    }

    fn send(&self, pos: PosMsg) -> bool {
        send_to(&self.tx, self.stamped(pos))
    }
}

/// The count of pool threads that are running.
pub struct WaitPool {
    active_size: AtomicUsize,
}

impl WaitPool {
    /// A count that starts at zero.
    pub fn new() -> WaitPool {
        WaitPool { active_size: AtomicUsize::new(0) }
    }

    /// A thread starts: the count grows by one. Returns the count before.
    pub fn enter(&self) -> usize {
        self.active_size.fetch_add(1, Ordering::Relaxed)
    }

    /// A thread stops: the count falls by one. Returns the count before.
    pub fn leave(&self) -> usize {
        self.active_size.fetch_sub(1, Ordering::Relaxed)
    }

    /// The number of running threads, as last seen.
    pub fn active(&self) -> usize {
        self.active_size.load(Ordering::Relaxed)
    }
}

/// Whether a wait for the pool's threads goes on, given the number still running.
pub fn keep_waiting(active: usize) -> (r: bool)
    ensures
        r == (active > 0),
{
    active > 0
}

/// What the pool's threads share.
#[verifier::reject_recursive_types(J)]
pub struct PoolState<J: ?Sized> {
    rx: Mutex<Receiver<Message<J>>>,
    tx: Sender<Message<J>>,
    cnt: AtomicUsize,
    size: usize,
    wait: WaitPool,
}

impl<J: ?Sized> PoolState<J> {
    /// The number of threads.
    pub closed spec fn size(&self) -> usize {
        self.size
    }

    /// Posts a message to the threads; whether it reached the channel.
    pub fn send(&self, msg: Message<J>) -> bool {
        send_to(&self.tx, msg)
    }

    /// The receiving end of the pool's channel.
    pub closed spec fn receiving_end(&self) -> Mutex<Receiver<Message<J>>> {
        self.rx
    }

    /// The pool's count of running threads.
    pub closed spec fn running_count(&self) -> WaitPool {
        self.wait
    }

    /// The receiving end the threads take messages from.
    pub fn receiver(&self) -> (r: &Mutex<Receiver<Message<J>>>)
        ensures
            *r == self.receiving_end(),
    {
        &self.rx
    }

    /// The count of running threads.
    pub fn wait_pool(&self) -> (r: &WaitPool)
        ensures
            *r == self.running_count(),
    {
        &self.wait
    }

    /// The number of threads.
    pub fn thread_count(&self) -> (n: usize)
        ensures
            n == self.size(),
    {
        self.size
    }

    /// The messages that shut the pool down: one `Close` per thread.
    pub fn shutdown_messages(&self) -> (ms: Vec<Message<J>>)
        ensures
            ms.len() == self.size(),
            forall|i: int| 0 <= i < ms.len() ==> (#[trigger] ms@[i]) is Close,
    {
        let mut ms: Vec<Message<J>> = Vec::new();
        let mut i: usize = 0;
        while i < self.size
            invariant
                i <= self.size,
                ms.len() == i,
                forall|j: int| 0 <= j < ms.len() ==> (#[trigger] ms@[j]) is Close,
            decreases self.size - i,
        {
            ms.push(Message::close());
            i = i + 1;
        }
        ms
    }

    /// Posts the shutdown messages, one `Close` per thread; how many reached the
    /// channel.
    pub fn close_all(&self) -> (sent: usize)
        ensures
            sent <= self.size(),
    {
        let ms = self.shutdown_messages();
        let mut sent: usize = 0;
        for m in it: ms
            invariant
                sent <= it.index(),
                it.seq().len() == self.size(),
        {
            if self.send(m) {
                sent = sent + 1;
            }
        }
        sent
    }
}

/// Whether releasing a handle releases the last one, given the number of handles
/// counted just before.
pub fn is_last(before: usize) -> (r: bool)
    ensures
        r == (before == 1),
{
    before == 1
}

/// A handle of a pool of threads; handles are counted, and the pool is shut down
/// when the last one is released.
#[verifier::reject_recursive_types(J)]
pub struct ThreadPool<J: ?Sized> {
    state: Arc<PoolState<J>>,
}

impl<J: ?Sized> ThreadPool<J> {
    /// The configuration of a new pool, with its defaults.
    pub fn builder<H: ?Sized>() -> (b: ThreadPoolBuilder<H>)
        ensures
            b@ == ThreadPoolBuilder::<H>::defaults(),
            b@.pool_size == 2,
            b@.stack_size == 0,
            b@.name_prefix is None,
            b@.after_start is None,
            b@.before_stop is None,
    {
        ThreadPoolBuilder::new()
    }

    /// The number of threads.
    pub closed spec fn size(&self) -> usize {
        self.state.size()
    }

    /// Hands `job` to the pool's threads to run; whether it reached the channel.
    pub fn spawn(&self, job: Arc<J>) -> bool {
        self.state.send(Message::run_job(job))
    }

    /// What the pool's threads share.
    pub closed spec fn shared(&self) -> Arc<PoolState<J>> {
        self.state
    }

    /// What the pool's threads share.
    pub fn state(&self) -> (r: &Arc<PoolState<J>>)
        ensures
            *r == self.shared(),
            r.size() == self.size(),
    {
        &self.state
    }

    /// Releases this handle. When it was the last one, one `Close` per thread is
    /// posted, and the caller waits for the threads to stop. Returns whether it was
    /// the last.
    pub fn release(&self) -> (last: bool) {
        let before = self.state.cnt.fetch_sub(1, Ordering::Relaxed);
        if is_last(before) {
            self.state.close_all();
            true
        } else {
            false
        }
    }
}

impl<J: ?Sized> Clone for ThreadPool<J> {
    /// Another handle of the same pool; the count of handles grows by one.
    fn clone(&self) -> (r: ThreadPool<J>)
        ensures
            r.shared() == self.shared(),
            r.size() == self.size(),
    {
        self.state.cnt.fetch_add(1, Ordering::Relaxed);
        ThreadPool { state: share(&self.state) }
    }
}

/// The configuration of a pool as plain values.
pub struct BuilderView<H: ?Sized> {
    pub pool_size: usize,
    pub stack_size: usize,
    pub name_prefix: Option<Seq<char>>,
    pub after_start: Option<Arc<H>>,
    pub before_stop: Option<Arc<H>>,
}

/// The configuration of a pool: the number of threads, their stack size (0 for the
/// default), a prefix for their names, and hooks called as each starts and stops.
pub struct ThreadPoolBuilder<H: ?Sized> {
    pool_size: usize,
    stack_size: usize,
    name_prefix: Option<String>,
    after_start: Option<Arc<H>>,
    before_stop: Option<Arc<H>>,
}

impl<H: ?Sized> View for ThreadPoolBuilder<H> {
    type V = BuilderView<H>;

    closed spec fn view(&self) -> BuilderView<H> {
        BuilderView {
            pool_size: self.pool_size,
            stack_size: self.stack_size,
            name_prefix: match &self.name_prefix {
                Some(p) => Some(p@),
                None => None,
            },
            after_start: self.after_start,
            before_stop: self.before_stop,
        }
    }
}

/// The name of thread `counter` of a pool whose names start with `prefix`.
pub open spec fn thread_name(prefix: Seq<char>, counter: nat) -> Seq<char> {
    prefix + decimal(counter)
}

impl<H: ?Sized> ThreadPoolBuilder<H> {
    /// Two threads, the default stack size, no name prefix, no hooks.
    pub open spec fn defaults() -> BuilderView<H> {
        BuilderView {
            pool_size: 2,
            stack_size: 0,
            name_prefix: None,
            after_start: None,
            before_stop: None,
        }
    }

    /// A configuration with the defaults.
    pub fn new() -> (b: ThreadPoolBuilder<H>)
        ensures
            b@ == Self::defaults(),
    {
        ThreadPoolBuilder {
            pool_size: 2,
            stack_size: 0,
            name_prefix: None,
            after_start: None,
            before_stop: None,
        }
    }

    /// Sets the number of threads.
    pub fn pool_size(&mut self, size: usize) -> (r: &mut Self)
        ensures
            r@ == (BuilderView { pool_size: size, ..old(self)@ }),
            *final(self) == *final(r),
    {
        self.pool_size = size;
        self
    }

    /// Sets the threads' stack size (0 for the default).
    pub fn stack_size(&mut self, stack_size: usize) -> (r: &mut Self)
        ensures
            r@ == (BuilderView { stack_size, ..old(self)@ }),
            *final(self) == *final(r),
    {
        self.stack_size = stack_size;
        self
    }

    /// Sets the prefix of the threads' names.
    pub fn name_prefix(&mut self, name_prefix: String) -> (r: &mut Self)
        ensures
            r@ == (BuilderView { name_prefix: Some(name_prefix@), ..old(self)@ }),
            *final(self) == *final(r),
    {
        self.name_prefix = Some(name_prefix);
        self
    }

    /// Sets the hook each thread calls with its index when it starts.
    pub fn after_start(&mut self, hook: Arc<H>) -> (r: &mut Self)
        ensures
            r@ == (BuilderView { after_start: Some(hook), ..old(self)@ }),
            *final(self) == *final(r),
    {
        self.after_start = Some(hook);
        self
    }

    /// Sets the hook each thread calls with its index when it stops.
    pub fn before_stop(&mut self, hook: Arc<H>) -> (r: &mut Self)
        ensures
            r@ == (BuilderView { before_stop: Some(hook), ..old(self)@ }),
            *final(self) == *final(r),
    {
        self.before_stop = Some(hook);
        self
    }

    /// The number of threads.
    pub fn get_pool_size(&self) -> (n: usize)
        ensures
            n == self@.pool_size,
    {
        self.pool_size
    }

    /// The name of thread `counter`, when a prefix is set: the prefix followed by
    /// the counter in decimal.
    pub fn thread_name(&self, counter: usize) -> (r: Option<String>)
        ensures
            match (r, self@.name_prefix) {
                (Some(n), Some(p)) => n@ == thread_name(p, counter as nat),
                (None, None) => true,
                _ => false,
            },
    {
        match &self.name_prefix {
            Some(p) => {
                let mut name = p.clone();
                let digits = decimal_text(counter as u64);
                push_text(&mut name, digits.as_str());
                Some(name)
            },
            None => None,
        }
    }

    /// The stack size to ask for, when one is set (not 0).
    pub fn thread_stack_size(&self) -> (r: Option<usize>)
        ensures
            r == (if self@.stack_size > 0 { Some(self@.stack_size) } else { None::<usize> }),
    {
        if self.stack_size > 0 {
            Some(self.stack_size)
        } else {
            None
        }
    }

    /// The hook called as a thread starts.
    pub fn start_hook(&self) -> (r: Option<Arc<H>>)
        ensures
            r == self@.after_start,
    {
        match &self.after_start {
            Some(h) => Some(share(h)),
            None => None,
        }
    }

    /// The hook called as a thread stops.
    pub fn stop_hook(&self) -> (r: Option<Arc<H>>)
        ensures
            r == self@.before_stop,
    {
        match &self.before_stop {
            Some(h) => Some(share(h)),
            None => None,
        }
    }

    /// The shared state of a new pool with one handle: a fresh channel, the
    /// configured number of threads, none of them running yet.
    pub fn create_state<J: ?Sized>(&self) -> (p: ThreadPool<J>)
        requires
            self@.pool_size > 0,
        ensures
            p.size() == self@.pool_size,
    {
        let (tx, rx) = channel();
        ThreadPool {
            state: Arc::new(
                PoolState {
                    rx: mutex(rx),
                    tx,
                    cnt: AtomicUsize::new(1),
                    size: self.pool_size,
                    wait: WaitPool::new(),
                },
            ),
        }
    }
}

} // verus!
