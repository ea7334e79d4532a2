use zeus_fm::filelist::{FileList, FileListItem};
use zeus_fm::fsys::MemFs;
use zeus_fm::preview::Preview;
use zeus_fm::state::State;

#[test]
fn preview_new_reads_file_once() {
    let mut fs = MemFs::new();
    fs.add_file("/top/a.txt", "alpha");
    let pv = Preview::new(Some("/top/a.txt".to_string()), &mut fs);
    assert_eq!(pv.path.as_deref(), Some("/top/a.txt"));
    assert_eq!(pv.file_contents.as_deref(), Some("alpha"));
}

#[test]
fn preview_new_without_target_is_empty() {
    let mut fs = MemFs::new();
    let pv = Preview::new(None, &mut fs);
    assert_eq!(pv.path, None);
    assert_eq!(pv.file_contents, None);
}

#[test]
fn preview_set_path_of_unreadable_file_has_no_content() {
    let mut fs = MemFs::new();
    let mut pv = Preview::default();
    pv.set_path(Some("/gone.txt".to_string()), &mut fs);
    assert_eq!(pv.path.as_deref(), Some("/gone.txt"));
    assert_eq!(pv.file_contents, None);
}

#[test]
fn file_list_construction_and_items() {
    let items = vec![
        FileListItem::new("/d/a".to_string(), false),
        FileListItem::new("/d/b".to_string(), true),
    ];
    let mut fl = FileList::with_items(items, "/d");
    assert_eq!(fl.root, "/d");
    assert_eq!(fl.list.items.len(), 2);
    assert_eq!(fl.selected(), None);
    fl.select(1);
    assert_eq!(fl.selected(), Some(1));
    let it = fl.selected_item().unwrap();
    assert_eq!(it.path, "/d/b");
    fl.unselect();
    assert_eq!(fl.selected(), None);
}

#[test]
fn file_list_refresh_sorts_and_keeps_valid_selection() {
    let mut fl = FileList::new("/d");
    fl.refresh_list(vec![
        FileListItem::new("/d/z".to_string(), false),
        FileListItem::new("/d/dir".to_string(), true),
        FileListItem::new("/d/a".to_string(), false),
    ]);
    let paths: Vec<&str> = fl.list.items.iter().map(|e| e.path.as_str()).collect();
    assert_eq!(paths, vec!["/d/dir", "/d/a", "/d/z"]);
    fl.select(2);
    fl.refresh_list(vec![FileListItem::new("/d/only".to_string(), false)]);
    assert_eq!(fl.selected(), None);
}

#[test]
fn state_default_has_one_tab() {
    let mut fs = MemFs::new();
    fs.add_dir("/", vec![FileListItem::new("/top".to_string(), true)]);
    let state = State::default(Some("/".to_string()), &mut fs);
    assert_eq!(state.tabs.len(), 1);
    assert_eq!(state.current_tab, 0);
    assert_eq!(state.current_panel_idx, 1);
    assert_eq!(state.get_current_tab().dir.as_deref(), Some("/"));
}
