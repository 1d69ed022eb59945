use forma::world::{plan_open, world_name_from_path, BackendKind, Error};

#[test]
fn unknown_backend_postgres() {
    let err = plan_open("/worlds/test", "backend = postgres\n").unwrap_err();
    match err {
        Error::UnknownBackend(name) => assert_eq!(name, "postgres"),
        _ => panic!("wrong error variant"),
    }
}

#[test]
fn plan_open_sqlite3() {
    let plan = plan_open("/worlds/demo", "backend = sqlite3\nname = test\n").unwrap();
    assert_eq!(plan.name, "demo");
    assert!(matches!(plan.backend, BackendKind::Sqlite3));
    assert_eq!(plan.meta.get_str("backend"), Some("sqlite3"));
    assert_eq!(plan.meta.get_str("name"), Some("test"));
}

#[test]
fn empty_path_is_invalid() {
    let err = plan_open("", "backend = sqlite3\n").unwrap_err();
    match err {
        Error::InvalidPath(p) => assert_eq!(p, ""),
        _ => panic!("wrong error variant"),
    }
}

#[test]
fn all_separator_path_is_invalid() {
    let err = world_name_from_path("///").unwrap_err();
    assert!(matches!(err, Error::InvalidPath(_)));
}

#[test]
fn trailing_separator_ignored_in_name() {
    assert_eq!(world_name_from_path("/worlds/alpha/").unwrap(), "alpha");
}

#[test]
fn bare_name_is_its_own_segment() {
    assert_eq!(world_name_from_path("alpha").unwrap(), "alpha");
}

#[test]
fn missing_backend_entry_is_unknown() {
    let err = plan_open("/worlds/demo", "name = test\n").unwrap_err();
    match err {
        Error::UnknownBackend(name) => assert_eq!(name, ""),
        _ => panic!("wrong error variant"),
    }
}

#[test]
fn malformed_metadata_propagates() {
    let err = plan_open("/worlds/demo", "no separator here").unwrap_err();
    match err {
        Error::Metadata(forma::meta::MetaError::InvalidFormat(line)) => {
            assert_eq!(line, "no separator here")
        },
        _ => panic!("wrong error variant"),
    }
}

#[test]
fn last_backend_entry_wins() {
    let err = plan_open("/w", "backend = sqlite3\nbackend = postgres\n").unwrap_err();
    match err {
        Error::UnknownBackend(name) => assert_eq!(name, "postgres"),
        _ => panic!("wrong error variant"),
    }
}
