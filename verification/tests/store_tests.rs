use toggle_mode_widget::errors::StoreError;
use toggle_mode_widget::hive::{hive_from_str, Root};
use toggle_mode_widget::store::{Store, StoredValue};

fn segs(parts: &[&str]) -> Vec<String> {
    parts.iter().map(|s| s.to_string()).collect()
}

fn store_all_writable() -> Store {
    Store::new(vec![
        Root::LocalMachine,
        Root::CurrentUser,
        Root::ClassesRoot,
        Root::Users,
        Root::CurrentConfig,
    ])
}

#[test]
fn resolve_known_roots_any_case() {
    for (id, root) in [
        ("HKLM", Root::LocalMachine),
        ("hklm", Root::LocalMachine),
        ("HkLm", Root::LocalMachine),
        ("HKCU", Root::CurrentUser),
        ("hkcu", Root::CurrentUser),
        ("HKCR", Root::ClassesRoot),
        ("hkCr", Root::ClassesRoot),
        ("HKU", Root::Users),
        ("hku", Root::Users),
        ("HKCC", Root::CurrentConfig),
        ("hkcc", Root::CurrentConfig),
    ] {
        assert_eq!(hive_from_str(id), Ok(root), "identifier {id}");
    }
}

#[test]
fn resolve_unknown_root_rejected_with_text() {
    for id in ["", "HK", "HKL", "HKLMX", "registry", "HKCUU", "hk u", "????"] {
        assert_eq!(
            hive_from_str(id),
            Err(StoreError::UnknownRoot(id.to_string())),
            "identifier {id}"
        );
    }
}

#[test]
fn write_then_read_round_trip() {
    let mut s = store_all_writable();
    let path = segs(&["Software", "Theme"]);
    let name = "AppsUseLightTheme".to_string();
    for v in [0u32, 1, 42, u32::MAX] {
        assert_eq!(s.write(Root::CurrentUser, &path, &name, v), Ok(()));
        assert_eq!(s.read(Root::CurrentUser, &path, &name), Ok(v));
    }
}

#[test]
fn read_absent_path_fails_and_leaves_store_alone() {
    let mut s = store_all_writable();
    let path = segs(&["Software", "Theme"]);
    let name = "Mode".to_string();
    assert_eq!(s.write(Root::CurrentUser, &path, &name, 7), Ok(()));

    let other_path = segs(&["Software", "Missing"]);
    assert_eq!(
        s.read(Root::CurrentUser, &other_path, &name),
        Err(StoreError::PathNotFound)
    );
    // A path that exists under one root does not exist under another.
    assert_eq!(
        s.read(Root::LocalMachine, &path, &name),
        Err(StoreError::PathNotFound)
    );
    // The failed reads left the store unmodified.
    assert_eq!(s.read(Root::CurrentUser, &path, &name), Ok(7));
}

#[test]
fn read_absent_name_under_existing_path_fails() {
    let mut s = store_all_writable();
    let path = segs(&["Software", "Theme"]);
    assert_eq!(s.write(Root::CurrentUser, &path, &"Mode".to_string(), 1), Ok(()));
    assert_eq!(
        s.read(Root::CurrentUser, &path, &"Other".to_string()),
        Err(StoreError::ValueNotFound)
    );
    assert_eq!(s.read(Root::CurrentUser, &path, &"Mode".to_string()), Ok(1));
}

#[test]
fn absence_is_distinct_from_value_zero() {
    let mut s = store_all_writable();
    let path = segs(&["k"]);
    assert_eq!(s.write(Root::Users, &path, &"zero".to_string(), 0), Ok(()));
    assert_eq!(s.read(Root::Users, &path, &"zero".to_string()), Ok(0));
    assert_eq!(
        s.read(Root::Users, &path, &"absent".to_string()),
        Err(StoreError::ValueNotFound)
    );
}

#[test]
fn last_writer_wins() {
    let mut s = store_all_writable();
    let path = segs(&["Software", "Theme"]);
    let name = "Mode".to_string();
    assert_eq!(s.write(Root::CurrentUser, &path, &name, 1), Ok(()));
    assert_eq!(s.write(Root::CurrentUser, &path, &name, 2), Ok(()));
    assert_eq!(s.read(Root::CurrentUser, &path, &name), Ok(2));
    // A neighboring name is untouched by the overwrite.
    assert_eq!(s.write(Root::CurrentUser, &path, &"Other".to_string(), 9), Ok(()));
    assert_eq!(s.write(Root::CurrentUser, &path, &name, 3), Ok(()));
    assert_eq!(s.read(Root::CurrentUser, &path, &"Other".to_string()), Ok(9));
}

#[test]
fn write_overwrites_prior_type() {
    let mut s = store_all_writable();
    let path = segs(&["Software"]);
    let name = "Mode".to_string();
    assert_eq!(s.write_other(Root::CurrentUser, &path, &name), Ok(()));
    assert_eq!(
        s.read(Root::CurrentUser, &path, &name),
        Err(StoreError::TypeMismatch)
    );
    // A typed write replaces the foreign value and its type.
    assert_eq!(s.write(Root::CurrentUser, &path, &name, 5), Ok(()));
    assert_eq!(s.read(Root::CurrentUser, &path, &name), Ok(5));
}

#[test]
fn write_denied_without_permission() {
    let mut s = Store::new(vec![Root::CurrentUser]);
    let path = segs(&["Software"]);
    let name = "Mode".to_string();
    assert_eq!(
        s.write(Root::LocalMachine, &path, &name, 1),
        Err(StoreError::AccessDenied)
    );
    // The denied write changed nothing: the path still does not exist.
    assert_eq!(
        s.read(Root::LocalMachine, &path, &name),
        Err(StoreError::PathNotFound)
    );
    assert_eq!(s.write(Root::CurrentUser, &path, &name, 1), Ok(()));
    assert_eq!(s.read(Root::CurrentUser, &path, &name), Ok(1));
}

#[test]
fn write_creates_intermediate_keys() {
    let mut s = store_all_writable();
    let deep = segs(&["a", "b", "c"]);
    let name = "v".to_string();
    assert_eq!(s.write(Root::CurrentUser, &deep, &name, 1), Ok(()));
    // Every key on the way down now exists: reading there finds the path but
    // not the name.
    assert_eq!(
        s.read(Root::CurrentUser, &segs(&["a"]), &name),
        Err(StoreError::ValueNotFound)
    );
    assert_eq!(
        s.read(Root::CurrentUser, &segs(&["a", "b"]), &name),
        Err(StoreError::ValueNotFound)
    );
    assert!(s.contains_path(Root::CurrentUser, &segs(&["a"])));
    assert!(s.contains_path(Root::CurrentUser, &segs(&["a", "b"])));
    assert!(s.contains_path(Root::CurrentUser, &deep));
    // A sibling was not created.
    assert!(!s.contains_path(Root::CurrentUser, &segs(&["a", "x"])));
    assert_eq!(
        s.read(Root::CurrentUser, &segs(&["a", "x"]), &name),
        Err(StoreError::PathNotFound)
    );
    // The empty path is the root itself, which always exists.
    assert!(s.contains_path(Root::ClassesRoot, &segs(&[])));
}

#[test]
fn error_messages_preserve_cause_text() {
    assert_eq!(
        StoreError::UnknownRoot("HKXY".to_string()).message(),
        "Unknown hive: HKXY"
    );
    assert_eq!(StoreError::PathNotFound.message(), "path not found");
    assert_eq!(StoreError::ValueNotFound.message(), "value not found");
    assert_eq!(
        StoreError::TypeMismatch.message(),
        "value is not a 32-bit integer"
    );
    assert_eq!(StoreError::AccessDenied.message(), "access denied");
}
