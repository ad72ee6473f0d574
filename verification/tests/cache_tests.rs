use secret_cache::cache::{cache_file_name, needs_fetch};
use secret_cache::render::{has_prefix, render_exports};

#[test]
fn cache_file_has_its_fixed_name() {
    assert_eq!(cache_file_name(), ".sec.key");
}

#[test]
fn empty_cache_file_triggers_a_fetch() {
    assert!(needs_fetch(true, 0));
}

#[test]
fn missing_cache_file_triggers_a_fetch() {
    assert!(needs_fetch(false, 0));
}

#[test]
fn non_empty_cache_file_is_served_as_is() {
    assert!(!needs_fetch(true, 27));
}

#[test]
fn render_keeps_order_and_drops_reserved_keys() {
    let entries = vec![
        ("ONE".to_string(), "1".to_string()),
        ("DOPPLER_CONFIG".to_string(), "dev".to_string()),
        ("TWO".to_string(), "2 and 3".to_string()),
    ];
    let content = render_exports(&entries);
    assert_eq!(content, "export ONE='1'\nexport TWO='2 and 3'\n");
}

#[test]
fn render_of_nothing_is_empty() {
    let entries: Vec<(String, String)> = Vec::new();
    assert_eq!(render_exports(&entries), "");
}

#[test]
fn prefix_test_matches_whole_prefix_only() {
    assert!(has_prefix("DOPPLER_PROJECT", "DOPPLER_"));
    assert!(!has_prefix("DOPPLERX", "DOPPLER_"));
    assert!(!has_prefix("DOP", "DOPPLER_"));
    assert!(has_prefix("anything", ""));
}
