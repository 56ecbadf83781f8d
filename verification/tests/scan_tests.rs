use morelike::scan::{FinderMsg, Scan};
use morelike::walk::EntryInfo;

fn entry(path: &str, name: &str, is_dir: bool, is_file: bool) -> EntryInfo {
    EntryInfo { path: path.to_string(), name: name.to_string(), is_dir, is_symlink: false, is_file }
}

#[test]
fn ignore_matches_whole_names() {
    let ignore = vec![".git".to_string(), "target".to_string()];
    assert!(Scan::is_ignore(&ignore, ".git"));
    assert!(Scan::is_ignore(&ignore, "target"));
    assert!(!Scan::is_ignore(&ignore, "targets"));
    assert!(!Scan::is_ignore(&ignore, "git"));
    assert!(!Scan::is_ignore(&vec![], "x"));
}

#[test]
fn load_leaves_out_ignored_entries() {
    let s = Scan::new(vec![".git".to_string(), "skip.txt".to_string()]);
    assert_eq!(s.ignore_list().len(), 2);
    let entries = vec![
        entry("r/.git", ".git", true, false),
        entry("r/src", "src", true, false),
        entry("r/skip.txt", "skip.txt", false, true),
        entry("r/a.txt", "a.txt", false, true),
    ];
    assert_eq!(
        s.load(&entries, 1),
        vec![FinderMsg::Dir("r/src".to_string(), 2), FinderMsg::File("r/a.txt".to_string(), 1)]
    );
}

#[test]
fn overrides_follow_the_ignore_rules() {
    let s = Scan::new(vec![
        "!.git".to_string(),
        "!target".to_string(),
        "!**/Library/Containers/**".to_string(),
    ]);
    let o = s.overrides("/root").expect("overrides build");
    assert!(o.matched("/root/.git", true).is_ignore());
    assert!(o.matched("/root/target", true).is_ignore());
    assert!(!o.matched("/root/src", true).is_ignore());
}

#[test]
fn overrides_skip_rejected_globs() {
    let s = Scan::new(vec!["[".to_string(), "!a".to_string()]);
    let o = s.overrides("/root").expect("overrides build");
    assert!(o.matched("/root/a", false).is_ignore());
}

#[test]
fn overrides_match_relative_to_the_root() {
    let s = Scan::new(vec!["!skip".to_string()]);
    let o = s.overrides("/base").expect("overrides build");
    assert_eq!(o.path(), std::path::Path::new("/base"));
    assert!(!o.is_empty());
    assert_eq!(o.num_ignores(), 1);
    let empty = Scan::new(vec![]).overrides("/base").expect("overrides build");
    assert!(empty.is_empty());
}
