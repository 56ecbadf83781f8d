//! The scanning progress protocol: the messages that scanning workers report, the
//! counters that the coordinating `Finder` keeps of them, and what a worker does
//! with each directory-walk message it receives.

use vstd::prelude::*;

use crate::walk::{classify, kind_of, EntryInfo, EntryKind};

verus! {

/// A progress report sent by a scanning worker to the coordinator.
#[derive(Debug, PartialEq, Eq)]
pub enum MsgPos {
    Start,
    WaitDir,
    BeginScan,
    EndScan,
    EndScanThread(u32),
    ScanDir(String),
    ScanFile(String),
    End,
}

/// Work handed to the scanning workers.
#[derive(Debug, PartialEq, Eq)]
pub enum FinderMsg {
    /// A directory to list, with its depth below the scan root.
    Dir(String, u32),
    /// A regular file that was found.
    File(String),
    /// Tells one worker to stop.
    Close,
}

/// A file found by a scan: its path, its size and the checksum of its first block.
#[derive(Debug, PartialEq, Eq)]
pub struct SearchFile {
    pub file: String,
    pub size: u64,
    pub crc: u32,
}

/// The number of scanning workers a `Finder` starts with.
pub const SCAN_THREADS: u32 = 2;

/// The counters of the coordinator, as plain numbers.
pub struct FinderCounts {
    pub count_dir: u32,
    pub count_file: u32,
    pub count_wait: u32,
    pub count_scan: u32,
    pub scan_thread: u32,
    pub active_thread: u32,
}

/// What the coordinator makes of one progress report.
#[derive(Debug, PartialEq, Eq)]
pub struct Received {
    /// The report handed on to the caller (for `EndScanThread`, with the number of
    /// workers still running).
    pub pos: MsgPos,
    /// Whether the scan is over: every worker waits for work and at least one began
    /// scanning. The caller then posts `EndScan` and one `Close` per worker.
    pub end_scan: bool,
}

/// The coordinator of a scan: it counts what the workers report.
pub struct Finder {
    count_dir: u32,
    count_file: u32,
    count_wait: u32,
    count_scan: u32,
    scan_thread: u32,
    active_thread: u32,
}

impl View for Finder {
    type V = FinderCounts;

    closed spec fn view(&self) -> FinderCounts {
        FinderCounts {
            count_dir: self.count_dir,
            count_file: self.count_file,
            count_wait: self.count_wait,
            count_scan: self.count_scan,
            scan_thread: self.scan_thread,
            active_thread: self.active_thread,
        }
    }
}

impl FinderCounts {
    /// The report can be counted without a counter leaving its range.
    pub open spec fn can_receive(self, msg: MsgPos) -> bool {
        match msg {
            MsgPos::EndScanThread(_) => self.active_thread > 0,
            MsgPos::WaitDir => self.count_wait < u32::MAX,
            MsgPos::BeginScan => self.count_wait > 0 && self.count_scan < u32::MAX,
            MsgPos::ScanDir(_) => self.count_dir < u32::MAX,
            MsgPos::ScanFile(_) => self.count_file < u32::MAX,
            _ => true,
        }
    }

    /// The counters after the report `msg`.
    pub open spec fn after(self, msg: MsgPos) -> FinderCounts {
        match msg {
            MsgPos::EndScanThread(_) => FinderCounts {
                active_thread: (self.active_thread - 1) as u32,
                ..self
            },
            MsgPos::WaitDir => FinderCounts { count_wait: (self.count_wait + 1) as u32, ..self },
            MsgPos::BeginScan => FinderCounts {
                count_wait: (self.count_wait - 1) as u32,
                count_scan: (self.count_scan + 1) as u32,
                ..self
            },
            MsgPos::ScanDir(_) => FinderCounts { count_dir: (self.count_dir + 1) as u32, ..self },
            MsgPos::ScanFile(_) => FinderCounts {
                count_file: (self.count_file + 1) as u32,
                ..self
            },
            _ => self,
        }
    }

    /// The report handed on for `msg`.
    pub open spec fn reply(self, msg: MsgPos) -> MsgPos {
        match msg {
            MsgPos::EndScanThread(_) => MsgPos::EndScanThread((self.active_thread - 1) as u32),
            _ => msg,
        }
    }

    /// Whether the report `msg` ends the scan.
    pub open spec fn ends_scan(self, msg: MsgPos) -> bool {
        &&& msg is WaitDir
        &&& self.count_wait + 1 == self.scan_thread
        &&& self.count_scan > 0
    }
}

impl Finder {
    /// A coordinator for `SCAN_THREADS` workers that has counted nothing yet.
    pub fn new() -> (f: Finder)
        ensures
            f@ == (FinderCounts {
                count_dir: 0,
                count_file: 0,
                count_wait: 0,
                count_scan: 0,
                scan_thread: SCAN_THREADS,
                active_thread: SCAN_THREADS,
            }),
    {
        Finder {
            count_dir: 0,
            count_file: 0,
            count_wait: 0,
            count_scan: 0,
            scan_thread: SCAN_THREADS,
            active_thread: SCAN_THREADS,
        }
    }

    /// Counts one progress report.
    pub fn recv(&mut self, msg: MsgPos) -> (r: Received)
        requires
            old(self)@.can_receive(msg),
        ensures
            final(self)@ == old(self)@.after(msg),
            r.pos == old(self)@.reply(msg),
            r.end_scan == old(self)@.ends_scan(msg),
            !(msg is WaitDir) ==> !r.end_scan,
            r.end_scan <==> (msg is WaitDir && final(self)@.count_wait == final(self)@.scan_thread
                && final(self)@.count_scan > 0),
    {
        match msg {
            MsgPos::EndScanThread(_i) => {
                self.active_thread = self.active_thread - 1;
                Received { pos: MsgPos::EndScanThread(self.active_thread), end_scan: false }
            },
            MsgPos::WaitDir => {
                self.count_wait = self.count_wait + 1;
                let end_scan = self.count_wait == self.scan_thread && self.count_scan > 0;
                Received { pos: MsgPos::WaitDir, end_scan }
            },
            MsgPos::BeginScan => {
                self.count_wait = self.count_wait - 1;
                self.count_scan = self.count_scan + 1;
                Received { pos: MsgPos::BeginScan, end_scan: false }
            },
            MsgPos::ScanDir(path) => {
                self.count_dir = self.count_dir + 1;
                Received { pos: MsgPos::ScanDir(path), end_scan: false }
            },
            MsgPos::ScanFile(path) => {
                self.count_file = self.count_file + 1;
                Received { pos: MsgPos::ScanFile(path), end_scan: false }
            },
            other => Received { pos: other, end_scan: false },
        }
    }
}

impl Finder {
    /// The counters as plain numbers.
    pub fn counts(&self) -> (c: FinderCounts)
        ensures
            c == self@,
    {
        FinderCounts {
            count_dir: self.count_dir,
            count_file: self.count_file,
            count_wait: self.count_wait,
            count_scan: self.count_scan,
            scan_thread: self.scan_thread,
            active_thread: self.active_thread,
        }
    }

    /// Starting a scan of `path`: the report that the scan starts, and the first
    /// piece of work, the root directory at depth 0.
    pub fn scan(&self, path: String) -> (r: (MsgPos, FinderMsg))
        ensures
            r.0 == MsgPos::Start,
            r.1 == FinderMsg::Dir(path, 0),
    {
        (MsgPos::Start, FinderMsg::Dir(path, 0))
    }
}

/// The counters after the reports `msgs`, taken in order.
pub open spec fn after_all(c: FinderCounts, msgs: Seq<MsgPos>) -> FinderCounts
    decreases msgs.len(),
{
    if msgs.len() == 0 {
        c
    } else {
        after_all(c.after(msgs[0]), msgs.drop_first())
    }
}

/// Every report of `msgs`, taken in order, can be counted.
pub open spec fn can_receive_all(c: FinderCounts, msgs: Seq<MsgPos>) -> bool
    decreases msgs.len(),
{
    if msgs.len() == 0 {
        true
    } else {
        c.can_receive(msgs[0]) && can_receive_all(c.after(msgs[0]), msgs.drop_first())
    }
}

/// The number of reports in `msgs` that satisfy `p`.
pub open spec fn count_where(msgs: Seq<MsgPos>, p: spec_fn(MsgPos) -> bool) -> nat
    decreases msgs.len(),
{
    if msgs.len() == 0 {
        0
    } else {
        (if p(msgs[0]) { 1nat } else { 0nat }) + count_where(msgs.drop_first(), p)
    }
}

/// Over any run of reports: the directory counter grows by the number of
/// `ScanDir` reports, the file counter by the number of `ScanFile` reports, the
/// number of running workers falls by the number of `EndScanThread` reports, the
/// scans begun grow by the number of `BeginScan` reports, the waiting counter moves
/// by `WaitDir` minus `BeginScan` reports, and the number of workers started never
/// changes.
pub proof fn lemma_reports_are_counted(c: FinderCounts, msgs: Seq<MsgPos>)
    requires
        can_receive_all(c, msgs),
    ensures
        after_all(c, msgs).count_dir == c.count_dir + count_where(msgs, |m: MsgPos| m is ScanDir),
        after_all(c, msgs).count_file == c.count_file + count_where(
            msgs,
            |m: MsgPos| m is ScanFile,
        ),
        after_all(c, msgs).active_thread == c.active_thread - count_where(
            msgs,
            |m: MsgPos| m is EndScanThread,
        ),
        after_all(c, msgs).count_scan == c.count_scan + count_where(
            msgs,
            |m: MsgPos| m is BeginScan,
        ),
        after_all(c, msgs).count_wait == c.count_wait + count_where(msgs, |m: MsgPos| m is WaitDir)
            - count_where(msgs, |m: MsgPos| m is BeginScan),
        after_all(c, msgs).scan_thread == c.scan_thread,
    decreases msgs.len(),
{
    if msgs.len() > 0 {
        lemma_reports_are_counted(c.after(msgs[0]), msgs.drop_first());
    }
}

/// What a scanning worker does with one piece of work.
#[derive(Debug, PartialEq, Eq)]
pub enum WorkerStep {
    /// Report `ScanDir` for the directory, then list it at the given depth.
    ListDir(String, u32),
    /// Report this and take the next piece of work.
    Report(MsgPos),
    /// Stop, reporting `EndScanThread(0)`.
    Stop,
}

/// The step a worker takes for `msg`.
pub open spec fn step_for(msg: FinderMsg) -> WorkerStep {
    match msg {
        FinderMsg::Dir(path, level) => WorkerStep::ListDir(path, level),
        FinderMsg::File(path) => WorkerStep::Report(MsgPos::ScanFile(path)),
        FinderMsg::Close => WorkerStep::Stop,
    }
}

/// The work that one listed entry of a directory at depth `level` gives: a
/// directory is listed one level deeper, a regular file is reported, anything
/// else is skipped.
pub open spec fn entry_message(e: EntryInfo, level: u32) -> Option<FinderMsg> {
    match kind_of(e) {
        EntryKind::Dir => Some(FinderMsg::Dir(e.path, (level + 1) as u32)),
        EntryKind::File => Some(FinderMsg::File(e.path)),
        _ => None,
    }
}

/// The work that the listed entries of a directory at depth `level` give, in order.
pub open spec fn dir_messages(es: Seq<EntryInfo>, level: u32) -> Seq<FinderMsg>
    decreases es.len(),
{
    if es.len() == 0 {
        Seq::empty()
    } else {
        let prev = dir_messages(es.drop_last(), level);
        match entry_message(es.last(), level) {
            Some(m) => prev.push(m),
            None => prev,
        }
    }
}

/// No entry of `es` is a directory.
pub open spec fn has_no_dir(es: Seq<EntryInfo>) -> bool {
    forall|i: int| 0 <= i < es.len() ==> kind_of(#[trigger] es[i]) != EntryKind::Dir
}

/// The part of a scanning worker that decides: `size` is the number of workers
/// that share the work queue.
pub struct FinderState {
    size: u32,
}

impl FinderState {
    /// The decisions of one of `size` workers.
    pub fn new(size: u32) -> (s: FinderState)
        ensures
            s.size() == size,
    {
        FinderState { size }
    }

    /// The number of workers that share the work queue.
    pub closed spec fn size(&self) -> u32 {
        self.size
    }

    /// The number of workers that share the work queue.
    pub fn worker_count(&self) -> (n: u32)
        ensures
            n == self.size(),
    {
        self.size
    }

    /// The report a worker sends as it waits for work.
    pub fn wait_report(&self) -> (m: MsgPos)
        ensures
            m == MsgPos::WaitDir,
    {
        MsgPos::WaitDir
    }

    /// The report a worker sends as it takes a piece of work.
    pub fn begin_report(&self) -> (m: MsgPos)
        ensures
            m == MsgPos::BeginScan,
    {
        MsgPos::BeginScan
    }

    /// The report a worker sends as it stops.
    pub fn stop_report(&self) -> (m: MsgPos)
        ensures
            m == MsgPos::EndScanThread(0),
    {
        MsgPos::EndScanThread(0)
    }

    /// What to do with one piece of work.
    pub fn step(&self, msg: FinderMsg) -> (s: WorkerStep)
        ensures
            s == step_for(msg),
    {
        match msg {
            FinderMsg::Dir(path, level) => WorkerStep::ListDir(path, level),
            FinderMsg::File(path) => WorkerStep::Report(MsgPos::ScanFile(path)),
            FinderMsg::Close => WorkerStep::Stop,
        }
    }

    /// The work that the listing of a directory at depth `level` gives.
    pub fn load(&self, entries: &Vec<EntryInfo>, level: u32) -> (r: Vec<FinderMsg>)
        requires
            level < u32::MAX || has_no_dir(entries@),
        ensures
            r@ == dir_messages(entries@, level),
    {
        let mut out: Vec<FinderMsg> = Vec::new();
        let mut i: usize = 0;
        while i < entries.len()
            invariant
                i <= entries.len(),
                level < u32::MAX || has_no_dir(entries@),
                out@ == dir_messages(entries@.take(i as int), level),
            decreases entries.len() - i,
        {
            let e = &entries[i];
            proof {
                assert(entries@.take(i + 1).drop_last() =~= entries@.take(i as int));
                assert(entries@.take(i + 1).last() == entries@[i as int]);
            }
            match classify(e) {
                EntryKind::Dir => {
                    assert(kind_of(entries@[i as int]) == EntryKind::Dir);
                    out.push(FinderMsg::Dir(e.path.clone(), level + 1));
                },
                EntryKind::File => {
                    out.push(FinderMsg::File(e.path.clone()));
                },
                _ => {},
            }
            i = i + 1;
        }
        assert(entries@.take(entries.len() as int) =~= entries@);
        out
    }
}

} // verus!
