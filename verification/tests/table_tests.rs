use morelike::table::{FileInfo, FileTable};
use morelike::walk::{EntryInfo, EntryKind};

fn info(name: &str, path: &str, size: u64) -> FileInfo {
    FileInfo::new(
        name.to_string(),
        path.to_string(),
        size,
        "2020-01-02 03:04".to_string(),
        "2020-01-02 05:06".to_string(),
    )
}

#[test]
fn file_info_keeps_its_values() {
    let f = info("a.txt", "/x/a.txt", 12);
    assert_eq!(f.get_name(), "a.txt");
    assert_eq!(f.get_path(), "/x/a.txt");
    assert_eq!(f.get_size(), 12);
    assert_eq!(f.get_accessed(), "2020-01-02 03:04");
    assert_eq!(f.get_modified(), "2020-01-02 05:06");
}

#[test]
fn file_info_describe_pads_fields() {
    let f = info("a.txt", "/x/a.txt", 12);
    let expected = format!(
        "name:{:<20} size:{:<15} accessed:{:14} modified:{:14}",
        "a.txt", 12u64, "2020-01-02 03:04", "2020-01-02 05:06"
    );
    assert_eq!(f.describe(), expected);
    assert_eq!(
        f.describe(),
        "name:a.txt                size:12              accessed:2020-01-02 03:04 modified:2020-01-02 05:06"
    );
}

#[test]
fn file_info_describe_keeps_long_fields_whole() {
    let f = FileInfo::new(
        "a-very-long-file-name-indeed.txt".to_string(),
        "p".to_string(),
        12345678901234567890,
        "x".to_string(),
        "y".to_string(),
    );
    assert_eq!(
        f.describe(),
        "name:a-very-long-file-name-indeed.txt size:12345678901234567890 accessed:x              modified:y             "
    );
}

#[test]
fn table_starts_empty() {
    let t = FileTable::new();
    assert!(t.exact().is_empty());
    assert!(t.group(7).is_empty());
    assert_eq!(t.render(), "]");
    assert_eq!(t.dir_count(), 0);
    assert_eq!(t.file_count(), 0);
}

#[test]
fn table_groups_by_checksum() {
    let mut t = FileTable::new();
    t.insert(1, info("a", "/a", 1));
    t.insert(2, info("b", "/b", 1));
    t.insert(1, info("c", "/c", 1));
    assert_eq!(t.group(1), vec!["/a".to_string(), "/c".to_string()]);
    assert_eq!(t.group(2), vec!["/b".to_string()]);
    assert!(t.group(3).is_empty());
}

#[test]
fn table_replaces_a_file_with_the_same_path() {
    let mut t = FileTable::new();
    t.insert(1, info("a", "/a", 1));
    t.insert(1, info("a", "/a", 99));
    assert_eq!(t.group(1), vec!["/a".to_string()]);
    assert!(t.exact().is_empty());
}

#[test]
fn exact_lists_only_duplicate_groups() {
    let mut t = FileTable::new();
    t.insert(10, info("a", "/a", 1));
    t.insert(20, info("b", "/b", 1));
    t.insert(10, info("c", "/c", 1));
    t.insert(30, info("d", "/d", 1));
    t.insert(30, info("e", "/e", 1));
    t.insert(30, info("f", "/f", 1));
    let mut d = t.exact();
    d.sort();
    assert_eq!(
        d,
        vec![
            (10, vec!["/a".to_string(), "/c".to_string()]),
            (30, vec!["/d".to_string(), "/e".to_string(), "/f".to_string()]),
        ]
    );
}

#[test]
fn render_lists_groups_and_closes() {
    let mut t = FileTable::new();
    t.insert(5, info("a", "/a", 3));
    let f = info("a", "/a", 3);
    let expected = format!(
        "{:<12} \n{:>40} \n{:<40} {}\n]",
        5,
        "/a",
        "",
        f.describe()
    );
    assert_eq!(t.render(), expected);
}

#[test]
fn render_covers_every_group() {
    let mut t = FileTable::new();
    t.insert(5, info("a", "/a", 3));
    t.insert(6, info("b", "/b", 4));
    let r = t.render();
    let a = format!("{:<12} \n{:>40} \n{:<40} {}\n", 5, "/a", "", info("a", "/a", 3).describe());
    let b = format!("{:<12} \n{:>40} \n{:<40} {}\n", 6, "/b", "", info("b", "/b", 4).describe());
    assert!(r == format!("{}{}]", a, b) || r == format!("{}{}]", b, a));
}

#[test]
fn counters_and_progress() {
    let mut t = FileTable::new();
    t.note_dir();
    t.note_file();
    t.note_file();
    assert_eq!(t.dir_count(), 1);
    assert_eq!(t.file_count(), 2);
    assert_eq!(
        t.progress("/some/dir", "abcdefghijklmnop"),
        "dirs:1,files:2, /some/dir >> abcdefghij"
    );
    assert_eq!(t.progress("/d", "short"), "dirs:1,files:2, /d >> short");
    assert_eq!(t.progress("/d", "ééééééééééé"), "dirs:1,files:2, /d >> éééééééééé");
}

#[test]
fn visit_counts_by_kind() {
    let e = |is_dir: bool, is_symlink: bool, is_file: bool| EntryInfo {
        path: "p".to_string(),
        name: "p".to_string(),
        is_dir,
        is_symlink,
        is_file,
    };
    let mut t = FileTable::new();
    assert_eq!(t.visit(&e(true, false, false)), EntryKind::Dir);
    assert_eq!(t.visit(&e(false, false, true)), EntryKind::File);
    assert_eq!(t.visit(&e(false, true, true)), EntryKind::Symlink);
    assert_eq!(t.visit(&e(false, false, false)), EntryKind::Other);
    assert_eq!(t.dir_count(), 1);
    assert_eq!(t.file_count(), 1);
    assert!(t.exact().is_empty());
}

#[test]
fn file_info_from_path_takes_the_last_component() {
    let f = FileInfo::from_path("/x/y/z.txt".to_string(), 5, "a".to_string(), "m".to_string())
        .expect("named");
    assert_eq!(f.get_name(), "z.txt");
    assert_eq!(f.get_path(), "/x/y/z.txt");
    assert_eq!(f.get_size(), 5);
    let g = FileInfo::from_path("rel".to_string(), 0, String::new(), String::new()).unwrap();
    assert_eq!(g.get_name(), "rel");
    assert!(FileInfo::from_path("/".to_string(), 0, String::new(), String::new()).is_none());
    assert!(FileInfo::from_path("a/..".to_string(), 0, String::new(), String::new()).is_none());
}
