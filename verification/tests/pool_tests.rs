use morelike::taskpool::{
    keep_waiting, Hook, Job, Message, PosMsg, PosState, SendState, Task, ThreadPool,
    ThreadPoolBuilder, WaitPool, WrapPosMsg,
};
use morelike::workpool::{Pool, WorkMsg, WorkState};
use std::sync::atomic::{AtomicUsize, Ordering};
use std::sync::mpsc::channel;
use std::sync::Arc;

#[test]
fn builder_defaults_and_setters() {
    let mut b: ThreadPoolBuilder<dyn Hook> = ThreadPool::<dyn Job>::builder();
    assert_eq!(b.thread_stack_size(), None);
    assert_eq!(b.thread_name(3), None);
    assert!(b.start_hook().is_none());
    assert!(b.stop_hook().is_none());
    b.pool_size(4).stack_size(8192).name_prefix("worker-".to_string());
    assert_eq!(b.thread_stack_size(), Some(8192));
    assert_eq!(b.thread_name(0), Some("worker-0".to_string()));
    assert_eq!(b.thread_name(12), Some("worker-12".to_string()));
    let hook: Arc<dyn Hook> = Arc::new(|_i: usize| {});
    b.after_start(hook.clone()).before_stop(hook);
    assert!(b.start_hook().is_some());
    assert!(b.stop_hook().is_some());
    let p: ThreadPool<dyn Job> = b.create_state();
    assert_eq!(p.state().thread_count(), 4);
}

#[test]
fn spawned_work_arrives_and_runs() {
    let b: ThreadPoolBuilder<dyn Hook> = ThreadPoolBuilder::new();
    let p: ThreadPool<dyn Job> = b.create_state();
    let hits = Arc::new(AtomicUsize::new(0));
    let h = hits.clone();
    let job: Arc<dyn Job> = Arc::new(move || {
        h.fetch_add(1, Ordering::SeqCst);
    });
    assert!(p.spawn(job));
    let msg = p.state().receiver().lock().unwrap().recv().unwrap();
    match msg {
        Message::Run(t) => {
            t.run();
            t.run();
        }
        Message::Close => panic!("expected work"),
    }
    assert_eq!(hits.load(Ordering::SeqCst), 2);
}

#[test]
fn last_release_closes_every_thread() {
    let mut b: ThreadPoolBuilder<dyn Hook> = ThreadPoolBuilder::new();
    b.pool_size(3);
    let p: ThreadPool<dyn Job> = b.create_state();
    let q = p.clone();
    assert!(!q.release());
    assert!(p.release());
    let rx = p.state().receiver().lock().unwrap();
    let mut closes = 0;
    while let Ok(m) = rx.try_recv() {
        assert!(matches!(m, Message::Close));
        closes += 1;
    }
    assert_eq!(closes, 3);
}

#[test]
fn wait_pool_counts() {
    let w = WaitPool::new();
    assert_eq!(w.active(), 0);
    assert_eq!(w.enter(), 0);
    assert_eq!(w.enter(), 1);
    assert_eq!(w.leave(), 2);
    assert_eq!(w.active(), 1);
    assert!(keep_waiting(w.active()));
    assert!(!keep_waiting(0));
}

#[test]
fn position_reports_are_stamped() {
    let (tx, rx) = channel();
    let mut s = PosState::new(1, 2, tx);
    assert!(s.send(PosMsg::Start(0, 5)));
    s.setId(7);
    s.setT(9);
    assert!(s.send(PosMsg::Point(1, 6, "x".to_string())));
    assert_eq!(rx.recv().unwrap(), WrapPosMsg(1, 2, PosMsg::Start(0, 5)));
    assert_eq!(rx.recv().unwrap(), WrapPosMsg(7, 9, PosMsg::Point(1, 6, "x".to_string())));
    drop(rx);
    assert!(!s.send(PosMsg::End(0, 0)));
}

#[test]
fn work_state_queues_and_reports() {
    let (pos_tx, pos_rx) = channel();
    let w: WorkState<u32> = WorkState::new(pos_tx, 3);
    assert!(w.send(5));
    assert!(w.send_pos(w.begin_msg(1)));
    assert!(w.send_pos(w.exit_msg(1)));
    let rx = w.receiver().lock().unwrap();
    assert_eq!(rx.recv().unwrap(), Some(5));
    assert_eq!(pos_rx.recv().unwrap(), WorkMsg::Begin(1, 3));
    assert_eq!(pos_rx.recv().unwrap(), WorkMsg::Exit(1, 3));
}

#[test]
fn work_pool_is_made_with_its_report_channel() {
    let (p, pos_rx) = Pool::<u32>::new(2);
    assert!(p.state().send_pos(WorkMsg::Wait(0, 2)));
    assert_eq!(pos_rx.recv().unwrap(), WorkMsg::Wait(0, 2));
}

#[test]
fn task_runs_its_work() {
    let hits = Arc::new(AtomicUsize::new(0));
    let h = hits.clone();
    let job: Arc<dyn Job> = Arc::new(move || {
        h.fetch_add(3, Ordering::SeqCst);
    });
    let t: Task<dyn Job> = Task::new(job);
    t.run();
    assert_eq!(hits.load(Ordering::SeqCst), 3);
}

#[test]
fn messages_and_decisions() {
    let job: Arc<dyn Job> = Arc::new(|| {});
    assert!(matches!(Message::<dyn Job>::close().into_task(), None));
    assert!(Message::run_job(job).into_task().is_some());
    assert!(morelike::taskpool::is_last(1));
    assert!(!morelike::taskpool::is_last(2));
    assert!(!morelike::taskpool::is_last(0));
    let b: ThreadPoolBuilder<dyn Hook> = ThreadPoolBuilder::new();
    let p: ThreadPool<dyn Job> = b.create_state();
    let ms = p.state().shutdown_messages();
    assert_eq!(ms.len(), 2);
    assert!(ms.iter().all(|m| matches!(m, Message::Close)));
    let (tx, _rx) = channel();
    let s = PosState::new(4, 5, tx);
    assert_eq!(s.stamped(PosMsg::End(1, 2)), WrapPosMsg(4, 5, PosMsg::End(1, 2)));
    assert_eq!(WorkState::<u8>::queued(3), Some(3));
}

#[test]
fn hooks_are_kept_as_given() {
    let mut b: ThreadPoolBuilder<dyn Hook> = ThreadPoolBuilder::new();
    let start: Arc<dyn Hook> = Arc::new(|_i: usize| {});
    let stop: Arc<dyn Hook> = Arc::new(|_i: usize| {});
    b.after_start(start.clone()).before_stop(stop.clone()).pool_size(3);
    assert!(Arc::ptr_eq(&b.start_hook().unwrap(), &start));
    assert!(Arc::ptr_eq(&b.stop_hook().unwrap(), &stop));
}

#[test]
fn clones_share_the_pool() {
    let b: ThreadPoolBuilder<dyn Hook> = ThreadPoolBuilder::new();
    let p: ThreadPool<dyn Job> = b.create_state();
    let q = p.clone();
    assert!(Arc::ptr_eq(p.state(), q.state()));
}
