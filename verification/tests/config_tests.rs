use zeus_fm::actions::{action_of, get_actions, Action};
use zeus_fm::config::{parse_key_string, Config};
use zeus_fm::input::{Key, KeySequence};

#[test]
fn parse_single_characters() {
    assert_eq!(parse_key_string("q"), Some(Key::Char('q')));
    assert_eq!(parse_key_string(" "), Some(Key::Char(' ')));
    assert_eq!(parse_key_string("-"), Some(Key::Char('-')));
}

#[test]
fn parse_modifier_forms() {
    assert_eq!(parse_key_string("C-x"), Some(Key::Ctrl('x')));
    assert_eq!(parse_key_string("c-x"), Some(Key::Ctrl('x')));
    assert_eq!(parse_key_string("M-a"), Some(Key::Alt('a')));
    assert_eq!(parse_key_string("m-a"), Some(Key::Alt('a')));
}

#[test]
fn parse_malformed_tokens() {
    assert_eq!(parse_key_string(""), None);
    assert_eq!(parse_key_string("ab"), None);
    assert_eq!(parse_key_string("X-a"), None);
    assert_eq!(parse_key_string("C+a"), None);
    assert_eq!(parse_key_string("quit"), None);
}

#[test]
fn action_names_resolve() {
    assert_eq!(action_of("quit"), Some(Action::Quit));
    assert_eq!(action_of("move_down"), Some(Action::MoveDown));
    assert_eq!(action_of("cd_selected"), Some(Action::CdSelected));
    assert_eq!(action_of("frobnicate"), None);
    assert_eq!(action_of(""), None);
}

#[test]
fn actions_catalog_is_complete() {
    let actions = get_actions();
    assert_eq!(actions.len(), 9);
    for (name, a) in &actions {
        assert_eq!(action_of(name), Some(*a));
    }
}

#[test]
fn default_config_bindings() {
    let c = Config::default();
    let q = KeySequence::from_keys(&[Key::Char('q')]);
    let j = KeySequence::from_keys(&[Key::Char('j')]);
    let k = KeySequence::from_keys(&[Key::Char('k')]);
    let sp = KeySequence::from_keys(&[Key::Char(' ')]);
    let x = KeySequence::from_keys(&[Key::Char('x')]);
    assert_eq!(c.find_action(&q), Some(Action::Quit));
    assert_eq!(c.find_action(&j), Some(Action::MoveDown));
    assert_eq!(c.find_action(&k), Some(Action::MoveUp));
    assert_eq!(c.find_action(&sp), Some(Action::Mark));
    assert_eq!(c.find_action(&x), None);
}

#[test]
fn map_key_replaces_existing_chord() {
    let mut c = Config::default();
    let q = KeySequence::from_keys(&[Key::Char('q')]);
    c.map_key(KeySequence::from_keys(&[Key::Char('q')]), Action::Mark);
    assert_eq!(c.find_action(&q), Some(Action::Mark));
    assert_eq!(c.key_map.len(), 4);
}

#[test]
fn toml_single_binding() {
    let c = Config::from_toml_text("[mappings]\nquit = [\"q\"]\n").unwrap();
    let q = KeySequence::from_keys(&[Key::Char('q')]);
    assert_eq!(c.find_action(&q), Some(Action::Quit));
    assert_eq!(c.key_map.len(), 1);
}

#[test]
fn toml_chord_and_modifiers() {
    let text = "[mappings]\nnext_tab = [\"g\", \"t\"]\nquit = [\"C-c\"]\n";
    let c = Config::from_toml_text(text).unwrap();
    let gt = KeySequence::from_keys(&[Key::Char('g'), Key::Char('t')]);
    let cc = KeySequence::from_keys(&[Key::Ctrl('c')]);
    assert_eq!(c.find_action(&gt), Some(Action::NextTab));
    assert_eq!(c.find_action(&cc), Some(Action::Quit));
}

#[test]
fn toml_unrecognized_action_dropped() {
    let text = "[mappings]\nfrobnicate = [\"f\"]\nquit = [\"q\"]\n";
    let c = Config::from_toml_text(text).unwrap();
    assert_eq!(c.key_map.len(), 1);
    let f = KeySequence::from_keys(&[Key::Char('f')]);
    assert_eq!(c.find_action(&f), None);
}

#[test]
fn toml_malformed_token_list_dropped_per_binding() {
    let text = "[mappings]\nmark = [\"toolong\"]\nquit = [\"q\"]\n";
    let c = Config::from_toml_text(text).unwrap();
    assert_eq!(c.key_map.len(), 1);
    let q = KeySequence::from_keys(&[Key::Char('q')]);
    assert_eq!(c.find_action(&q), Some(Action::Quit));
}

#[test]
fn toml_non_string_token_drops_binding() {
    let text = "[mappings]\nmark = [7]\nquit = [\"q\"]\n";
    let c = Config::from_toml_text(text).unwrap();
    assert_eq!(c.key_map.len(), 1);
}

#[test]
fn toml_empty_chord_dropped() {
    let text = "[mappings]\nmark = []\nquit = [\"q\"]\n";
    let c = Config::from_toml_text(text).unwrap();
    assert_eq!(c.key_map.len(), 1);
}

#[test]
fn toml_unparseable_document_yields_nothing() {
    assert!(Config::from_toml_text("this is { not toml").is_none());
}

#[test]
fn toml_missing_mappings_table_yields_nothing() {
    assert!(Config::from_toml_text("[other]\nx = 1\n").is_none());
}
