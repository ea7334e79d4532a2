use zeus_fm::actions::Action;
use zeus_fm::config::Config;
use zeus_fm::events::EventLoopAction;
use zeus_fm::filelist::FileListItem;
use zeus_fm::fsys::MemFs;
use zeus_fm::input::{Key, KeySequence};
use zeus_fm::procevent::{handle_input, handle_tick};
use zeus_fm::state::State;

fn demo_fs() -> MemFs {
    let mut fs = MemFs::new();
    fs.add_dir("/", vec![FileListItem::new("/top".to_string(), true)]);
    fs.add_dir("/top", vec![FileListItem::new("/top/a.txt".to_string(), false)]);
    fs
}

fn two_tab_state(fs: &mut MemFs) -> State {
    State::from_tab_count(2, Some("/top".to_string()), fs)
}

fn chord_config() -> Config {
    let mut c = Config::default();
    c.map_key(
        KeySequence::from_keys(&[Key::Char('g'), Key::Char('t')]),
        Action::NextTab,
    );
    c
}

#[test]
fn quit_binding_round_trip() {
    let mut fs = demo_fs();
    let mut state = two_tab_state(&mut fs);
    let config = Config::from_toml_text("[mappings]\nquit = [\"q\"]\n").unwrap();
    let r = handle_input(&mut state, &config, Key::Char('q'), 10, &mut fs);
    assert_eq!(r, EventLoopAction::QuitLoop);
    assert!(state.key_seq.is_empty());
}

#[test]
fn unbound_key_accumulates() {
    let mut fs = demo_fs();
    let mut state = two_tab_state(&mut fs);
    let config = Config::from_toml_text("[mappings]\nquit = [\"q\"]\n").unwrap();
    let r = handle_input(&mut state, &config, Key::Char('z'), 10, &mut fs);
    assert_eq!(r, EventLoopAction::ContinueLoop);
    assert_eq!(state.key_seq, KeySequence::from_keys(&[Key::Char('z')]));
}

#[test]
fn two_key_chord_fires_within_timeout() {
    let mut fs = demo_fs();
    let mut state = two_tab_state(&mut fs);
    let config = chord_config();
    handle_input(&mut state, &config, Key::Char('g'), 0, &mut fs);
    assert_eq!(state.current_tab, 0);
    let r = handle_input(&mut state, &config, Key::Char('t'), 500, &mut fs);
    assert_eq!(r, EventLoopAction::ContinueLoop);
    assert_eq!(state.current_tab, 1);
    assert!(state.key_seq.is_empty());
}

#[test]
fn chord_timeout_discards_stale_prefix() {
    let mut fs = demo_fs();
    let mut state = two_tab_state(&mut fs);
    let config = chord_config();
    handle_input(&mut state, &config, Key::Char('g'), 0, &mut fs);
    // the second key arrives more than 1000 ms after the first
    let r = handle_input(&mut state, &config, Key::Char('t'), 1500, &mut fs);
    assert_eq!(r, EventLoopAction::ContinueLoop);
    // the pending chord holds only the fresh key, and the action did not fire
    assert_eq!(state.key_seq, KeySequence::from_keys(&[Key::Char('t')]));
    assert_eq!(state.current_tab, 0);
}

#[test]
fn chord_at_exact_timeout_still_fires() {
    let mut fs = demo_fs();
    let mut state = two_tab_state(&mut fs);
    let config = chord_config();
    handle_input(&mut state, &config, Key::Char('g'), 0, &mut fs);
    let r = handle_input(&mut state, &config, Key::Char('t'), 1000, &mut fs);
    assert_eq!(r, EventLoopAction::ContinueLoop);
    assert_eq!(state.current_tab, 1);
}

#[test]
fn escape_cancels_any_partial_chord() {
    let mut fs = demo_fs();
    let mut state = two_tab_state(&mut fs);
    let config = chord_config();
    handle_input(&mut state, &config, Key::Char('g'), 0, &mut fs);
    assert!(!state.key_seq.is_empty());
    let r = handle_input(&mut state, &config, Key::Esc, 100, &mut fs);
    assert_eq!(r, EventLoopAction::ContinueLoop);
    assert!(state.key_seq.is_empty());
    assert_eq!(state.last_key_time, Some(100));
}

#[test]
fn tick_clears_expired_chord() {
    let mut fs = demo_fs();
    let mut state = two_tab_state(&mut fs);
    let config = chord_config();
    handle_input(&mut state, &config, Key::Char('g'), 0, &mut fs);
    handle_tick(&mut state, 500);
    assert!(!state.key_seq.is_empty());
    handle_tick(&mut state, 1200);
    assert!(state.key_seq.is_empty());
}

#[test]
fn tick_without_prior_key_does_nothing() {
    let mut fs = demo_fs();
    let mut state = two_tab_state(&mut fs);
    handle_tick(&mut state, 99999);
    assert!(state.key_seq.is_empty());
    assert_eq!(state.last_key_time, None);
}

#[test]
fn unmatched_chord_grows_until_cleared() {
    let mut fs = demo_fs();
    let mut state = two_tab_state(&mut fs);
    let config = chord_config();
    handle_input(&mut state, &config, Key::Char('x'), 0, &mut fs);
    handle_input(&mut state, &config, Key::Char('y'), 100, &mut fs);
    handle_input(&mut state, &config, Key::Char('z'), 200, &mut fs);
    assert_eq!(
        state.key_seq,
        KeySequence::from_keys(&[Key::Char('x'), Key::Char('y'), Key::Char('z')])
    );
}

#[test]
fn default_bindings_drive_cursor() {
    let mut fs = MemFs::new();
    fs.add_dir("/", vec![FileListItem::new("/top".to_string(), true)]);
    fs.add_dir(
        "/top",
        vec![
            FileListItem::new("/top/a.txt".to_string(), false),
            FileListItem::new("/top/b.txt".to_string(), false),
        ],
    );
    let mut state = State::from_tab_count(1, Some("/top".to_string()), &mut fs);
    let config = Config::default();
    handle_input(&mut state, &config, Key::Char('j'), 0, &mut fs);
    assert_eq!(state.selected(), Some(1));
    handle_input(&mut state, &config, Key::Char('k'), 10, &mut fs);
    assert_eq!(state.selected(), Some(0));
}
