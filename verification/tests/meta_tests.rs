use forma::meta::{MetaError, WorldMeta};

#[test]
fn metadata_round_trip() {
    let meta = WorldMeta::load("backend = sqlite3\nname = test\n").unwrap();
    assert_eq!(meta.get_str("backend"), Some("sqlite3"));
    assert_eq!(meta.get_str("name"), Some("test"));
}

#[test]
fn line_without_equals_fails() {
    let err = WorldMeta::load("malformed").unwrap_err();
    match err {
        MetaError::InvalidFormat(line) => assert_eq!(line, "malformed"),
        MetaError::Io(_) => panic!("wrong error variant"),
    }
}

#[test]
fn bad_line_reported_among_good_ones() {
    let err = WorldMeta::load("backend = sqlite3\nmalformed\nname = test\n").unwrap_err();
    match err {
        MetaError::InvalidFormat(line) => assert_eq!(line, "malformed"),
        MetaError::Io(_) => panic!("wrong error variant"),
    }
}

#[test]
fn duplicate_key_last_wins() {
    let meta = WorldMeta::load("name = first\nname = second\n").unwrap();
    assert_eq!(meta.get_str("name"), Some("second"));
}

#[test]
fn blank_lines_skipped() {
    let meta = WorldMeta::load("\n   \n\t\nbackend = sqlite3\n\n").unwrap();
    assert_eq!(meta.get_str("backend"), Some("sqlite3"));
}

#[test]
fn keys_and_values_trimmed() {
    let meta = WorldMeta::load("  backend   =   sqlite3  \n").unwrap();
    assert_eq!(meta.get_str("backend"), Some("sqlite3"));
}

#[test]
fn value_may_contain_equals() {
    let meta = WorldMeta::load("dsn = host=localhost user=map\n").unwrap();
    assert_eq!(meta.get_str("dsn"), Some("host=localhost user=map"));
}

#[test]
fn missing_key_is_none() {
    let meta = WorldMeta::load("backend = sqlite3\n").unwrap();
    assert_eq!(meta.get_str("absent"), None);
}

#[test]
fn empty_text_loads_empty() {
    let meta = WorldMeta::load("").unwrap();
    assert_eq!(meta.get_str("backend"), None);
}

#[test]
fn empty_value_allowed() {
    let meta = WorldMeta::load("key =\n").unwrap();
    assert_eq!(meta.get_str("key"), Some(""));
}
