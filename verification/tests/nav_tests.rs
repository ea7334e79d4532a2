use zeus_fm::actions::{apply_action, Action};
use zeus_fm::events::EventLoopAction;
use zeus_fm::filelist::FileListItem;
use zeus_fm::fsys::{Filesystem, MemFs};
use zeus_fm::panel::Panel;
use zeus_fm::state::State;
use zeus_fm::tabstate::TabState;

fn entry(path: &str, is_dir: bool) -> FileListItem {
    FileListItem::new(path.to_string(), is_dir)
}

/// A small tree: `/` holds `top`; `/top` holds a directory and two
/// files; one file has readable text.
fn demo_fs() -> MemFs {
    let mut fs = MemFs::new();
    fs.add_dir("/", vec![entry("/top", true)]);
    fs.add_dir(
        "/top",
        vec![
            entry("/top/a.txt", false),
            entry("/top/docs", true),
            entry("/top/b.txt", false),
        ],
    );
    fs.add_dir("/top/docs", vec![entry("/top/docs/inner.txt", false)]);
    fs.add_file("/top/a.txt", "hello from a");
    fs.add_file("/top/docs/inner.txt", "inner text");
    fs
}

fn main_panel(tab: &TabState) -> &zeus_fm::filelist::FileList {
    match &tab.panels[1] {
        Panel::FileListPanel(fl) => fl,
        _ => panic!("current slot is not a listing"),
    }
}

fn select_in_main(tab: &mut TabState, i: usize) {
    match &mut tab.panels[1] {
        Panel::FileListPanel(fl) => fl.select(i),
        _ => panic!("current slot is not a listing"),
    }
}

#[test]
fn initial_tab_lists_sorted_and_selects_first() {
    let mut fs = demo_fs();
    let state = State::from_tab_count(1, Some("/top".to_string()), &mut fs);
    let tab = &state.tabs[0];
    assert_eq!(tab.dir.as_deref(), Some("/top"));
    let fl = main_panel(tab);
    let paths: Vec<&str> = fl.list.items.iter().map(|e| e.path.as_str()).collect();
    assert_eq!(paths, vec!["/top/docs", "/top/a.txt", "/top/b.txt"]);
    assert_eq!(fl.selected(), Some(0));
    match &tab.panels[0] {
        Panel::FileListPanel(parent) => assert_eq!(parent.root, "/"),
        _ => panic!("parent slot should list /"),
    }
}

#[test]
fn cd_parent_steps_up() {
    let mut fs = demo_fs();
    let mut state = State::from_tab_count(1, Some("/top".to_string()), &mut fs);
    let tab = &mut state.tabs[0];
    tab.cd_parent(&mut fs);
    assert_eq!(tab.dir.as_deref(), Some("/"));
    match &tab.panels[0] {
        Panel::EmptyPanel => {},
        _ => panic!("parent slot of / should be empty"),
    }
}

#[test]
fn cd_parent_at_root_is_noop() {
    let mut fs = demo_fs();
    let mut state = State::from_tab_count(1, Some("/".to_string()), &mut fs);
    let tab = &mut state.tabs[0];
    let before = tab.dir.clone();
    tab.cd_parent(&mut fs);
    assert_eq!(tab.dir, before);
    assert_eq!(tab.dir.as_deref(), Some("/"));
}

#[test]
fn cd_selected_on_file_is_noop() {
    let mut fs = demo_fs();
    let mut state = State::from_tab_count(1, Some("/top".to_string()), &mut fs);
    let tab = &mut state.tabs[0];
    select_in_main(tab, 1);
    assert!(main_panel(tab).list.items[1].is_file());
    tab.cd_selected(&mut fs);
    assert_eq!(tab.dir.as_deref(), Some("/top"));
    assert_eq!(main_panel(tab).selected(), Some(1));
}

#[test]
fn cd_selected_enters_directory() {
    let mut fs = demo_fs();
    let mut state = State::from_tab_count(1, Some("/top".to_string()), &mut fs);
    let tab = &mut state.tabs[0];
    select_in_main(tab, 0);
    assert!(main_panel(tab).list.items[0].is_dir());
    tab.cd_selected(&mut fs);
    assert_eq!(tab.dir.as_deref(), Some("/top/docs"));
    let paths: Vec<&str> = main_panel(tab).list.items.iter().map(|e| e.path.as_str()).collect();
    assert_eq!(paths, vec!["/top/docs/inner.txt"]);
}

#[test]
fn cd_restores_clamped_cursor() {
    let mut fs = demo_fs();
    let mut state = State::from_tab_count(1, Some("/top".to_string()), &mut fs);
    let tab = &mut state.tabs[0];
    select_in_main(tab, 2);
    tab.cd(Some("/top/docs".to_string()), &mut fs);
    // one entry only: the remembered position 2 clamps to 0
    assert_eq!(main_panel(tab).selected(), Some(0));
}

#[test]
fn cd_to_unreadable_directory_degrades_to_empty_listing() {
    let mut fs = demo_fs();
    let mut state = State::from_tab_count(1, Some("/top".to_string()), &mut fs);
    let tab = &mut state.tabs[0];
    tab.cd(Some("/nowhere/else".to_string()), &mut fs);
    assert_eq!(tab.dir.as_deref(), Some("/nowhere/else"));
    assert_eq!(main_panel(tab).list.items.len(), 0);
    assert_eq!(main_panel(tab).selected(), None);
}

#[test]
fn preview_follows_selection() {
    let mut fs = demo_fs();
    let mut state = State::from_tab_count(1, Some("/top".to_string()), &mut fs);
    let tab = &mut state.tabs[0];
    select_in_main(tab, 1);  // "/top/a.txt"
    tab.update_preview(&mut fs);
    match &tab.panels[2] {
        Panel::PreviewPanel(pv) => {
            assert_eq!(pv.path.as_deref(), Some("/top/a.txt"));
            assert_eq!(pv.file_contents.as_deref(), Some("hello from a"));
        },
        _ => panic!("preview slot missing"),
    }
}

#[test]
fn preview_of_directory_has_no_content() {
    let mut fs = demo_fs();
    let mut state = State::from_tab_count(1, Some("/top".to_string()), &mut fs);
    let tab = &mut state.tabs[0];
    select_in_main(tab, 0);  // "/top/docs", a directory
    tab.update_preview(&mut fs);
    match &tab.panels[2] {
        Panel::PreviewPanel(pv) => {
            assert_eq!(pv.path.as_deref(), Some("/top/docs"));
            assert_eq!(pv.file_contents, None);
        },
        _ => panic!("preview slot missing"),
    }
}

#[test]
fn mark_action_toggles_and_advances() {
    let mut fs = demo_fs();
    let mut state = State::from_tab_count(1, Some("/top".to_string()), &mut fs);
    assert_eq!(state.current_panel_idx, 1);
    assert!(!main_panel(&state.tabs[0]).list.items[0].marked);
    let r = apply_action(&mut state, Action::Mark, &mut fs);
    assert_eq!(r, EventLoopAction::ContinueLoop);
    let fl = main_panel(&state.tabs[0]);
    assert!(fl.list.items[0].marked);
    assert_eq!(fl.selected(), Some(1));
    assert!(state.tabs[0].marked_paths.iter().any(|p| p == "/top/docs"));
}

#[test]
fn mark_action_wraps_at_end_and_untoggles() {
    let mut fs = demo_fs();
    let mut state = State::from_tab_count(1, Some("/top".to_string()), &mut fs);
    select_in_main(&mut state.tabs[0], 2);
    apply_action(&mut state, Action::Mark, &mut fs);
    let fl = main_panel(&state.tabs[0]);
    assert!(fl.list.items[2].marked);
    assert_eq!(fl.selected(), Some(0));
    // toggle the same entry back off
    select_in_main(&mut state.tabs[0], 2);
    apply_action(&mut state, Action::Mark, &mut fs);
    let fl = main_panel(&state.tabs[0]);
    assert!(!fl.list.items[2].marked);
    assert!(state.tabs[0].marked_paths.is_empty());
}

#[test]
fn move_actions_step_cursor_and_preview() {
    let mut fs = demo_fs();
    let mut state = State::from_tab_count(1, Some("/top".to_string()), &mut fs);
    apply_action(&mut state, Action::MoveDown, &mut fs);
    assert_eq!(main_panel(&state.tabs[0]).selected(), Some(1));
    match &state.tabs[0].panels[2] {
        Panel::PreviewPanel(pv) => assert_eq!(pv.path.as_deref(), Some("/top/a.txt")),
        _ => panic!("preview slot missing"),
    }
    apply_action(&mut state, Action::MoveUp, &mut fs);
    assert_eq!(main_panel(&state.tabs[0]).selected(), Some(0));
}

#[test]
fn next_tab_wraps_and_clears_chord() {
    let mut fs = demo_fs();
    let mut state = State::from_tab_count(2, Some("/top".to_string()), &mut fs);
    assert_eq!(state.current_tab, 0);
    state.next_tab();
    assert_eq!(state.current_tab, 1);
    state.next_tab();
    assert_eq!(state.current_tab, 0);
    assert!(state.key_seq.is_empty());
}

#[test]
fn new_tab_copies_directory_and_becomes_current() {
    let mut fs = demo_fs();
    let mut state = State::from_tab_count(1, Some("/top".to_string()), &mut fs);
    state.new_tab(&mut fs);
    assert_eq!(state.tabs.len(), 2);
    assert_eq!(state.current_tab, 1);
    assert_eq!(state.tabs[1].dir.as_deref(), Some("/top"));
}

#[test]
fn next_panel_cycles_and_refreshes_selection() {
    let mut fs = demo_fs();
    let mut state = State::from_tab_count(1, Some("/top".to_string()), &mut fs);
    assert_eq!(state.current_panel_idx, 1);
    state.next_panel();
    assert_eq!(state.current_panel_idx, 2);
    // the listing panels are force-unselected while the preview is active
    assert_eq!(main_panel(&state.tabs[0]).selected(), None);
    state.next_panel();
    assert_eq!(state.current_panel_idx, 0);
    state.next_panel();
    assert_eq!(state.current_panel_idx, 1);
    // back on the current slot, the remembered cursor is visible again
    assert_eq!(main_panel(&state.tabs[0]).selected(), Some(0));
}

#[test]
fn listing_failure_from_trait_impl_yields_empty_listing() {
    struct NoFs;
    impl Filesystem for NoFs {
        fn list_dir(&mut self, _path: &str) -> Option<Vec<FileListItem>> {
            None
        }
        fn read_text(&mut self, _path: &str) -> Option<String> {
            None
        }
    }
    let mut fs = NoFs;
    let state = State::from_tab_count(1, Some("/top".to_string()), &mut fs);
    assert_eq!(main_panel(&state.tabs[0]).list.items.len(), 0);
}
