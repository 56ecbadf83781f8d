use morelike::text::{
    decimal_text, first_chars, push_padded_left, push_padded_right, push_spaces, push_text,
};
use morelike::walk::{classify, tree_entry_line, EntryInfo, EntryKind};

#[test]
fn decimal_digits() {
    assert_eq!(decimal_text(0), "0");
    assert_eq!(decimal_text(7), "7");
    assert_eq!(decimal_text(10), "10");
    assert_eq!(decimal_text(120), "120");
    assert_eq!(decimal_text(u64::MAX), u64::MAX.to_string());
}

#[test]
fn padding() {
    let mut s = String::from("[");
    push_padded_right(&mut s, "ab", 5);
    push_text(&mut s, "|");
    push_padded_left(&mut s, "ab", 5);
    push_text(&mut s, "|");
    push_padded_right(&mut s, "abcdef", 3);
    push_padded_left(&mut s, "é", 3);
    push_spaces(&mut s, 2);
    assert_eq!(s, "[ab   |   ab|abcdef  é  ");
}

#[test]
fn first_characters() {
    assert_eq!(first_chars("abcdefghijkl", 10), "abcdefghij");
    assert_eq!(first_chars("abc", 10), "abc");
    assert_eq!(first_chars("ĀāĂăĄąĆćĈĉĊ", 10), "ĀāĂăĄąĆćĈĉ");
    assert_eq!(first_chars("", 0), "");
}

fn e(is_dir: bool, is_symlink: bool, is_file: bool) -> EntryInfo {
    EntryInfo { path: "p".to_string(), name: "n".to_string(), is_dir, is_symlink, is_file }
}

#[test]
fn entry_kinds() {
    assert_eq!(classify(&e(true, true, false)), EntryKind::Dir);
    assert_eq!(classify(&e(false, true, true)), EntryKind::Symlink);
    assert_eq!(classify(&e(false, false, true)), EntryKind::File);
    assert_eq!(classify(&e(false, false, false)), EntryKind::Other);
}

#[test]
fn tree_lines() {
    assert_eq!(tree_entry_line(0, false, Some("a")), "├─a");
    assert_eq!(tree_entry_line(2, true, Some("b")), "    └─b");
    assert_eq!(tree_entry_line(1, true, None), "  ");
}
