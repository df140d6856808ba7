use predate::config::Config;
use predate::config::ConfigError;

const IDS: [&str; 10] = [
    "test-1", "test-2", "test-3", "test-4", "test-5", "test-6", "test-7", "test-8", "test-9",
    "test-10",
];

fn full_tests() -> Vec<(String, String)> {
    IDS.iter()
        .map(|id| (id.to_string(), format!("$GREPQ {}", id)))
        .collect()
}

fn full_sizes() -> Vec<(String, i64)> {
    IDS.iter()
        .enumerate()
        .map(|(i, id)| (id.to_string(), 100 + i as i64))
        .collect()
}

#[test]
fn accepts_document_with_exactly_all_ten() {
    let cfg = match Config::from_pairs(&full_tests(), &full_sizes()) {
        Ok(cfg) => cfg,
        Err(_) => panic!("complete document was rejected"),
    };
    assert_eq!(cfg.templates.len(), 10);
    assert_eq!(cfg.expected.len(), 10);
    assert_eq!(cfg.templates[0], "$GREPQ test-1");
    assert_eq!(cfg.templates[9], "$GREPQ test-10");
    assert_eq!(cfg.expected[0], 100);
    assert_eq!(cfg.expected[9], 109);
}

#[test]
fn rejects_document_missing_a_command() {
    let tests: Vec<(String, String)> = full_tests()
        .into_iter()
        .filter(|(id, _)| id != "test-5")
        .collect();
    match Config::from_pairs(&tests, &full_sizes()) {
        Err(ConfigError::MissingCommand(id)) => assert_eq!(id, "test-5"),
        _ => panic!("document missing test-5 from the command mapping was not rejected"),
    }
}

#[test]
fn rejects_document_missing_an_expected_size() {
    let sizes: Vec<(String, i64)> = full_sizes()
        .into_iter()
        .filter(|(id, _)| id != "test-10")
        .collect();
    match Config::from_pairs(&full_tests(), &sizes) {
        Err(ConfigError::MissingExpected(id)) => assert_eq!(id, "test-10"),
        _ => panic!("document missing test-10 from the size mapping was not rejected"),
    }
}

#[test]
fn rejects_empty_document_naming_first_identifier() {
    match Config::from_pairs(&Vec::new(), &Vec::new()) {
        Err(ConfigError::MissingCommand(id)) => assert_eq!(id, "test-1"),
        _ => panic!("empty document was not rejected"),
    }
}

#[test]
fn missing_command_is_reported_before_missing_size() {
    let tests: Vec<(String, String)> = full_tests()
        .into_iter()
        .filter(|(id, _)| id != "test-7")
        .collect();
    let sizes: Vec<(String, i64)> = full_sizes()
        .into_iter()
        .filter(|(id, _)| id != "test-2")
        .collect();
    match Config::from_pairs(&tests, &sizes) {
        Err(ConfigError::MissingCommand(id)) => assert_eq!(id, "test-7"),
        _ => panic!("expected the command mapping to be checked first"),
    }
}

#[test]
fn later_duplicate_key_overrides_earlier() {
    let mut tests = full_tests();
    tests.push(("test-3".to_string(), "$GREPQ overridden".to_string()));
    let mut sizes = full_sizes();
    sizes.push(("test-3".to_string(), 999));
    let cfg = match Config::from_pairs(&tests, &sizes) {
        Ok(cfg) => cfg,
        Err(_) => panic!("document with a duplicate key was rejected"),
    };
    assert_eq!(cfg.templates[2], "$GREPQ overridden");
    assert_eq!(cfg.expected[2], 999);
}

#[test]
fn unknown_extra_keys_are_ignored() {
    let mut tests = full_tests();
    tests.push(("test-11".to_string(), "$GREPQ extra".to_string()));
    let mut sizes = full_sizes();
    sizes.push(("warm-up".to_string(), 1));
    assert!(Config::from_pairs(&tests, &sizes).is_ok());
}
