use mac_key_remapper::config::{Config, ConfigError, TextShortcut};
use mac_key_remapper::load::{load, persisted, stored, LoadStep, StoredConfig};

fn shortcut(trigger: char, text: &str) -> TextShortcut {
    TextShortcut { trigger, text: text.to_string() }
}

/// Runs one load against an in-memory store, writing where the library asks
/// for it. Returns the result and whether a write took place.
fn load_from(store: &mut Option<StoredConfig>) -> (Result<Config, ConfigError>, bool) {
    let found = match store.take() {
        None => StoredConfig::Absent,
        Some(record) => record,
    };
    match load(found) {
        LoadStep::Ready(config) => {
            *store = Some(stored(&config));
            (Ok(config), false)
        }
        LoadStep::Persist(config) => {
            *store = Some(stored(&config));
            (persisted(config, true), true)
        }
        LoadStep::Failed(error) => (Err(error), false),
    }
}

#[test]
fn load_absent_asks_to_persist_default() {
    assert_eq!(load(StoredConfig::Absent), LoadStep::Persist(Config::default()));
}

#[test]
fn load_unreachable_is_io_error() {
    assert_eq!(load(StoredConfig::Unreachable), LoadStep::Failed(ConfigError::Io));
}

#[test]
fn load_malformed_is_parse_error() {
    assert_eq!(load(StoredConfig::Malformed), LoadStep::Failed(ConfigError::Parse));
}

#[test]
fn load_found_uses_stored_record() {
    let shortcuts = vec![shortcut('t', "two"), shortcut('o', "one"), shortcut('t', "again")];
    let found = StoredConfig::Found {
        activation_target: "https://example.com".to_string(),
        shortcuts: shortcuts.clone(),
    };
    let expected = Config::new("https://example.com".to_string(), shortcuts).unwrap();
    assert_eq!(load(found), LoadStep::Ready(expected));
}

#[test]
fn load_found_with_empty_target_is_parse_error() {
    let found = StoredConfig::Found {
        activation_target: String::new(),
        shortcuts: vec![shortcut('h', "Hello")],
    };
    assert_eq!(load(found), LoadStep::Failed(ConfigError::Parse));
}

#[test]
fn persisted_after_successful_write_is_in_force() {
    assert_eq!(persisted(Config::default(), true), Ok(Config::default()));
}

#[test]
fn persisted_after_failed_write_is_io_error() {
    assert_eq!(persisted(Config::default(), false), Err(ConfigError::Io));
}

#[test]
fn stored_record_holds_fields_in_order() {
    let shortcuts = vec![shortcut('b', "B"), shortcut('a', "A")];
    let config = Config::new("target".to_string(), shortcuts.clone()).unwrap();
    assert_eq!(
        stored(&config),
        StoredConfig::Found { activation_target: "target".to_string(), shortcuts }
    );
}

#[test]
fn stored_config_round_trips() {
    let config = Config::new(
        "https://example.com/path?q=1".to_string(),
        vec![shortcut('h', "Hello, World!"), shortcut('x', ""), shortcut('h', "shadowed")],
    )
    .unwrap();
    assert_eq!(load(stored(&config)), LoadStep::Ready(config));
}

#[test]
fn scenario_first_run_persists_default_once() {
    let mut store: Option<StoredConfig> = None;
    let (first, wrote_first) = load_from(&mut store);
    assert_eq!(first, Ok(Config::default()));
    assert!(wrote_first);
    assert_eq!(store, Some(stored(&Config::default())));
    let (second, wrote_second) = load_from(&mut store);
    assert_eq!(second, first);
    assert!(!wrote_second);
}
