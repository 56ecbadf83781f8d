use morelike::task::{Finder, FinderMsg, FinderState, MsgPos, WorkerStep, SCAN_THREADS};
use morelike::walk::EntryInfo;

fn entry(path: &str, name: &str, is_dir: bool, is_symlink: bool, is_file: bool) -> EntryInfo {
    EntryInfo {
        path: path.to_string(),
        name: name.to_string(),
        is_dir,
        is_symlink,
        is_file,
    }
}

#[test]
fn finder_starts_with_two_workers_and_no_counts() {
    let f = Finder::new();
    let c = f.counts();
    assert_eq!(c.count_dir, 0);
    assert_eq!(c.count_file, 0);
    assert_eq!(c.count_wait, 0);
    assert_eq!(c.count_scan, 0);
    assert_eq!(c.scan_thread, SCAN_THREADS);
    assert_eq!(c.active_thread, 2);
}

#[test]
fn finder_counts_dirs_and_files() {
    let mut f = Finder::new();
    let r = f.recv(MsgPos::ScanDir("a".to_string()));
    assert_eq!(r.pos, MsgPos::ScanDir("a".to_string()));
    assert!(!r.end_scan);
    f.recv(MsgPos::ScanDir("b".to_string()));
    let r = f.recv(MsgPos::ScanFile("a/x".to_string()));
    assert_eq!(r.pos, MsgPos::ScanFile("a/x".to_string()));
    let c = f.counts();
    assert_eq!(c.count_dir, 2);
    assert_eq!(c.count_file, 1);
}

#[test]
fn finder_ends_scan_when_all_workers_wait_after_a_scan() {
    let mut f = Finder::new();
    // Both workers wait before anything was scanned: no end yet.
    assert!(!f.recv(MsgPos::WaitDir).end_scan);
    assert!(!f.recv(MsgPos::WaitDir).end_scan);
    // One worker takes the root directory.
    assert!(!f.recv(MsgPos::BeginScan).end_scan);
    let c = f.counts();
    assert_eq!(c.count_wait, 1);
    assert_eq!(c.count_scan, 1);
    // It waits again: every worker waits and one scan began.
    let r = f.recv(MsgPos::WaitDir);
    assert_eq!(r.pos, MsgPos::WaitDir);
    assert!(r.end_scan);
}

#[test]
fn finder_counts_stopping_workers() {
    let mut f = Finder::new();
    let r = f.recv(MsgPos::EndScanThread(0));
    assert_eq!(r.pos, MsgPos::EndScanThread(1));
    let r = f.recv(MsgPos::EndScanThread(0));
    assert_eq!(r.pos, MsgPos::EndScanThread(0));
    assert_eq!(f.counts().active_thread, 0);
}

#[test]
fn finder_passes_other_reports_on() {
    let mut f = Finder::new();
    assert_eq!(f.recv(MsgPos::Start).pos, MsgPos::Start);
    assert_eq!(f.recv(MsgPos::EndScan).pos, MsgPos::EndScan);
    assert_eq!(f.recv(MsgPos::End).pos, MsgPos::End);
    let c = f.counts();
    assert_eq!((c.count_dir, c.count_file, c.count_wait, c.count_scan), (0, 0, 0, 0));
}

#[test]
fn finder_scan_starts_at_depth_zero() {
    let f = Finder::new();
    let (pos, work) = f.scan("/tmp/x".to_string());
    assert_eq!(pos, MsgPos::Start);
    assert_eq!(work, FinderMsg::Dir("/tmp/x".to_string(), 0));
}

#[test]
fn worker_steps() {
    let s = FinderState::new(2);
    assert_eq!(s.worker_count(), 2);
    assert_eq!(
        s.step(FinderMsg::Dir("d".to_string(), 3)),
        WorkerStep::ListDir("d".to_string(), 3)
    );
    assert_eq!(
        s.step(FinderMsg::File("f".to_string())),
        WorkerStep::Report(MsgPos::ScanFile("f".to_string()))
    );
    assert_eq!(s.step(FinderMsg::Close), WorkerStep::Stop);
}

#[test]
fn worker_lists_directories_deeper_and_skips_links() {
    let s = FinderState::new(2);
    let entries = vec![
        entry("r/a", "a", true, false, false),
        entry("r/l", "l", false, true, true),
        entry("r/f", "f", false, false, true),
        entry("r/dl", "dl", true, true, false),
        entry("r/p", "p", false, false, false),
    ];
    let msgs = s.load(&entries, 4);
    assert_eq!(
        msgs,
        vec![
            FinderMsg::Dir("r/a".to_string(), 5),
            FinderMsg::File("r/f".to_string()),
            FinderMsg::Dir("r/dl".to_string(), 5),
        ]
    );
}

#[test]
fn worker_lists_files_at_the_deepest_level() {
    let s = FinderState::new(1);
    let entries = vec![entry("r/f", "f", false, false, true)];
    let msgs = s.load(&entries, u32::MAX);
    assert_eq!(msgs, vec![FinderMsg::File("r/f".to_string())]);
}

#[test]
fn finder_ends_scan_once() {
    let mut f = Finder::new();
    f.recv(MsgPos::WaitDir);
    f.recv(MsgPos::BeginScan);
    f.recv(MsgPos::WaitDir);
    assert!(f.recv(MsgPos::WaitDir).end_scan);
    assert!(!f.recv(MsgPos::WaitDir).end_scan);
}

#[test]
fn worker_framing_reports() {
    let s = FinderState::new(2);
    assert_eq!(s.wait_report(), MsgPos::WaitDir);
    assert_eq!(s.begin_report(), MsgPos::BeginScan);
    assert_eq!(s.stop_report(), MsgPos::EndScanThread(0));
}
