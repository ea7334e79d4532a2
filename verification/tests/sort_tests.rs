use std::cmp::Ordering;
use zeus_fm::filelist::{order, sort_entries, FileListItem};

fn entry(path: &str, is_dir: bool) -> FileListItem {
    FileListItem::new(path.to_string(), is_dir)
}

#[test]
fn directories_sort_before_files() {
    let raw = vec![
        entry("/d/zz.txt", false),
        entry("/d/music", true),
        entry("/d/aa.txt", false),
        entry("/d/video", true),
    ];
    let sorted = sort_entries(raw);
    let paths: Vec<&str> = sorted.iter().map(|e| e.path.as_str()).collect();
    assert_eq!(paths, vec!["/d/music", "/d/video", "/d/aa.txt", "/d/zz.txt"]);
    assert!(sorted[0].is_dir());
    assert!(sorted[1].is_dir());
    assert!(sorted[2].is_file());
    assert!(sorted[3].is_file());
}

#[test]
fn sort_is_strictly_increasing_within_groups() {
    let raw = vec![
        entry("/d/b", false),
        entry("/d/a", false),
        entry("/d/c", false),
    ];
    let sorted = sort_entries(raw);
    for w in sorted.windows(2) {
        assert!(w[0].path < w[1].path);
    }
}

#[test]
fn sort_drops_duplicate_keys() {
    let raw = vec![
        entry("/d/a", false),
        entry("/d/a", false),
        entry("/d/b", false),
    ];
    let sorted = sort_entries(raw);
    assert_eq!(sorted.len(), 2);
}

#[test]
fn same_path_dir_and_file_are_distinct_keys() {
    let raw = vec![entry("/d/x", false), entry("/d/x", true)];
    let sorted = sort_entries(raw);
    assert_eq!(sorted.len(), 2);
    assert!(sorted[0].is_dir());
    assert!(sorted[1].is_file());
}

#[test]
fn order_is_a_total_comparison() {
    let d = entry("/d/a", true);
    let f = entry("/d/a", false);
    let f2 = entry("/d/b", false);
    assert_eq!(order(&d, &f), Ordering::Less);
    assert_eq!(order(&f, &d), Ordering::Greater);
    assert_eq!(order(&f, &f2), Ordering::Less);
    assert_eq!(order(&f, &f), Ordering::Equal);
}

#[test]
fn display_line_plain_file() {
    let e = FileListItem::new("/top/notes.txt".to_string(), false);
    let line = e.get_text(20, "5B");
    assert_eq!(line, " notes.txt      5B");
}

#[test]
fn display_line_marked_directory() {
    let mut e = FileListItem::new("/top/docs".to_string(), true);
    e.marked = true;
    let line = e.get_text(12, "DIR");
    assert_eq!(line, ">[docs] DIR");
}

#[test]
fn display_line_minimum_padding() {
    let e = FileListItem::new("/top/longname.bin".to_string(), false);
    let line = e.get_text(4, "9B");
    assert_eq!(line, " longname.bin 9B");
}
