use mac_key_remapper::config::{Config, ConfigError, TextShortcut};

fn shortcut(trigger: char, text: &str) -> TextShortcut {
    TextShortcut { trigger, text: text.to_string() }
}

#[test]
fn default_config_has_documented_values() {
    let config = Config::default();
    assert_eq!(config.activation_target(), "https://www.google.com");
    assert_eq!(
        config.shortcuts(),
        &vec![shortcut('h', "Hello, World!"), shortcut('t', "Thank you very much")]
    );
}

#[test]
fn default_config_is_deterministic() {
    assert_eq!(Config::default(), Config::default());
}

#[test]
fn new_keeps_fields_and_order() {
    let shortcuts = vec![shortcut('b', "second"), shortcut('a', "first"), shortcut('c', "")];
    let config = Config::new("https://example.com".to_string(), shortcuts.clone()).unwrap();
    assert_eq!(config.activation_target(), "https://example.com");
    assert_eq!(config.shortcuts(), &shortcuts);
}

#[test]
fn new_rejects_empty_activation_target() {
    let r = Config::new(String::new(), vec![shortcut('h', "Hello")]);
    assert_eq!(r, Err(ConfigError::Parse));
}

#[test]
fn new_accepts_any_non_empty_target() {
    let r = Config::new("not a uri at all".to_string(), Vec::new());
    assert!(r.is_ok());
    assert_eq!(r.unwrap().activation_target(), "not a uri at all");
}

#[test]
fn new_accepts_duplicate_triggers() {
    let shortcuts = vec![shortcut('x', "one"), shortcut('x', "two")];
    let config = Config::new("u".to_string(), shortcuts.clone()).unwrap();
    assert_eq!(config.shortcuts(), &shortcuts);
}

#[test]
fn expansion_finds_each_default_shortcut() {
    let config = Config::default();
    assert_eq!(config.expansion('h'), Some(&"Hello, World!".to_string()));
    assert_eq!(config.expansion('t'), Some(&"Thank you very much".to_string()));
}

#[test]
fn expansion_uses_first_of_duplicate_triggers() {
    let config = Config::new(
        "u".to_string(),
        vec![
            shortcut('a', "alpha"),
            shortcut('x', "first"),
            shortcut('b', "beta"),
            shortcut('x', "second"),
            shortcut('x', "third"),
        ],
    )
    .unwrap();
    assert_eq!(config.expansion('x'), Some(&"first".to_string()));
    assert_eq!(config.expansion('b'), Some(&"beta".to_string()));
}

#[test]
fn expansion_of_absent_trigger_is_none() {
    let config = Config::default();
    assert_eq!(config.expansion('z'), None);
    assert_eq!(config.expansion('H'), None);
    let empty = Config::new("u".to_string(), Vec::new()).unwrap();
    assert_eq!(empty.expansion('h'), None);
}

#[test]
fn expansion_may_be_empty_text() {
    let config = Config::new("u".to_string(), vec![shortcut('e', "")]).unwrap();
    assert_eq!(config.expansion('e'), Some(&String::new()));
}

#[test]
fn config_clone_is_equal() {
    let config = Config::new(
        "https://example.com".to_string(),
        vec![shortcut('h', "Hello, World!"), shortcut('h', "again")],
    )
    .unwrap();
    let copy = config.clone();
    assert_eq!(copy, config);
    let s = shortcut('q', "quit");
    assert_eq!(s.clone(), s);
}

#[test]
fn into_parts_returns_fields() {
    let shortcuts = vec![shortcut('h', "Hello, World!")];
    let config = Config::new("https://example.com".to_string(), shortcuts.clone()).unwrap();
    let (target, list) = config.into_parts();
    assert_eq!(target, "https://example.com");
    assert_eq!(list, shortcuts);
}
