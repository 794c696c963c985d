//! Tests for the four command operations against the in-memory backend.

use kpv::commands::Execute;
use kpv::commands::delete::DeleteCommand;
use kpv::commands::link::LinkCommand;
use kpv::commands::list::ListCommand;
use kpv::commands::save::SaveCommand;
use kpv::error::KpvError;
use kpv::memory::MemoryStorage;
use kpv::storage::Storage;

fn fresh_storage() -> MemoryStorage {
    MemoryStorage::new(String::from("/home/user/.config/kpv"))
}

fn storage_with_saved(keys: &[&str]) -> MemoryStorage {
    let mut storage = fresh_storage();
    storage.place_file("seed.env", b"SEED=1\n".to_vec());
    for key in keys {
        let command = SaveCommand { key, source_path: "seed.env" };
        command
            .execute(&mut storage)
            .expect("seeding a key should succeed");
    }
    storage
}

#[test]
fn delete_invokes_storage() {
    let command = DeleteCommand { key: "test-key" };
    let mut storage = fresh_storage();

    command.execute(&mut storage).expect("execution should succeed");

    assert!(!storage.check_key_exists("test-key"));
}

#[test]
fn delete_removes_a_saved_key() {
    let mut storage = storage_with_saved(&["test-key"]);
    assert!(storage.check_key_exists("test-key"));

    let command = DeleteCommand { key: "test-key" };
    command.execute(&mut storage).expect("execution should succeed");

    assert!(!storage.check_key_exists("test-key"));
}

#[test]
fn delete_nonexistent_key_succeeds() {
    let mut storage = storage_with_saved(&["other"]);

    let command = DeleteCommand { key: "does-not-exist" };
    command
        .execute(&mut storage)
        .expect("deleting a key that was never saved should succeed");

    let keys = ListCommand.execute(&mut storage).expect("list should succeed");
    assert_eq!(keys, vec!["other"]);
}

#[test]
fn delete_is_idempotent() {
    let mut storage = storage_with_saved(&["gone"]);

    let first = DeleteCommand { key: "gone" }.execute(&mut storage);
    assert!(first.is_ok());
    let second = DeleteCommand { key: "gone" }.execute(&mut storage);
    assert!(second.is_ok());
    assert!(!storage.check_key_exists("gone"));
}

#[test]
fn delete_invalid_key_fails_validation() {
    let mut storage = fresh_storage();
    let result = DeleteCommand { key: "no/slashes" }.execute(&mut storage);
    assert!(matches!(result, Err(KpvError::Io(_))));
}

#[test]
fn list_returns_sorted_keys() {
    let mut storage = storage_with_saved(&["beta", "alpha", "gamma"]);

    let command = ListCommand;
    let keys = command.execute(&mut storage).expect("list should succeed");
    assert_eq!(keys, vec!["alpha", "beta", "gamma"]);
}

#[test]
fn list_sorts_by_code_point() {
    let mut storage = storage_with_saved(&["a", "B", "ab", "A"]);

    let keys = ListCommand.execute(&mut storage).expect("list should succeed");
    assert_eq!(keys, vec!["A", "B", "a", "ab"]);
}

#[test]
fn list_empty_storage_returns_empty() {
    let mut storage = fresh_storage();
    let keys = ListCommand.execute(&mut storage).expect("list should succeed");
    assert!(keys.is_empty());
}

#[test]
fn list_is_stable_under_repeated_calls() {
    let mut storage = storage_with_saved(&["zeta", "alpha", "mid"]);

    let first = ListCommand.execute(&mut storage).expect("list should succeed");
    let second = ListCommand.execute(&mut storage).expect("list should succeed");
    assert_eq!(first, second);
    assert_eq!(first, vec!["alpha", "mid", "zeta"]);
}

#[test]
fn save_invokes_storage_when_source_exists() {
    let mut storage = fresh_storage();
    storage.place_file("work/.env", b"KEY=value\n".to_vec());

    let command = SaveCommand { key: "my-key", source_path: "work/.env" };
    command.execute(&mut storage).expect("execution should succeed");

    assert!(storage.check_key_exists("my-key"));
}

#[test]
fn save_errors_when_source_missing() {
    let command = SaveCommand { key: "missing", source_path: "/tmp/non-existent-env" };

    let mut storage = fresh_storage();
    let result = command.execute(&mut storage);
    assert!(matches!(result, Err(KpvError::EnvFileNotFound)));
    assert!(!storage.check_key_exists("missing"));
}

#[test]
fn save_errors_when_source_is_directory() {
    let mut storage = fresh_storage();
    storage.place_dir("some-dir");

    let command = SaveCommand { key: "dir-key", source_path: "some-dir" };
    let result = command.execute(&mut storage);
    assert!(matches!(result, Err(KpvError::EnvFileNotFound)));
    assert!(!storage.check_key_exists("dir-key"));
}

#[test]
fn save_invalid_key_fails_before_storing() {
    let mut storage = fresh_storage();
    storage.place_file(".env", b"X=1\n".to_vec());

    let result = SaveCommand { key: "bad key", source_path: ".env" }.execute(&mut storage);
    assert!(matches!(result, Err(KpvError::Io(_))));
    assert!(!storage.check_key_exists("bad key"));
}

#[test]
fn save_overwrites_previous_content() {
    let mut storage = fresh_storage();
    storage.place_file("first.env", b"ONE=1\n".to_vec());
    storage.place_file("second.env", b"TWO=2\n".to_vec());

    SaveCommand { key: "proj", source_path: "first.env" }
        .execute(&mut storage)
        .expect("first save should succeed");
    SaveCommand { key: "proj", source_path: "second.env" }
        .execute(&mut storage)
        .expect("second save should succeed");

    LinkCommand { key: "proj", dest_path: "out/.env" }
        .execute(&mut storage)
        .expect("link should succeed");
    let bytes = storage.read_env("out/.env").expect("reading the link should succeed");
    assert_eq!(bytes, b"TWO=2\n".to_vec());
}

#[test]
fn link_invokes_storage_when_key_exists_and_dest_free() {
    let mut storage = storage_with_saved(&["demo-key"]);

    let command = LinkCommand { key: "demo-key", dest_path: "work/.env" };
    command.execute(&mut storage).expect("link should succeed");

    assert!(storage.path_exists("work/.env"));
}

#[test]
fn link_errors_when_key_missing() {
    let mut storage = fresh_storage();

    let command = LinkCommand { key: "absent", dest_path: "work/.env" };
    let result = command.execute(&mut storage);
    assert!(matches!(result, Err(KpvError::KeyNotFound(key)) if key == "absent"));
    assert!(!storage.path_exists("work/.env"));
}

#[test]
fn link_errors_when_dest_exists() {
    let mut storage = storage_with_saved(&["demo-key"]);
    storage.place_file("work/.env", b"placeholder".to_vec());

    let command = LinkCommand { key: "demo-key", dest_path: "work/.env" };
    let result = command.execute(&mut storage);
    assert!(matches!(result, Err(KpvError::EnvAlreadyExists)));
    let bytes = storage.read_env("work/.env").expect("destination should still be readable");
    assert_eq!(bytes, b"placeholder".to_vec());
}

#[test]
fn link_errors_when_dest_is_dangling_symlink() {
    let mut storage = storage_with_saved(&["demo-key"]);
    storage.place_symlink("work/.env", "nowhere/.env");

    let result = LinkCommand { key: "demo-key", dest_path: "work/.env" }.execute(&mut storage);
    assert!(matches!(result, Err(KpvError::EnvAlreadyExists)));
}

#[test]
fn link_never_mutates_stored_data() {
    let mut storage = storage_with_saved(&["alpha", "beta"]);

    LinkCommand { key: "alpha", dest_path: "a/.env" }
        .execute(&mut storage)
        .expect("link should succeed");
    let failed = LinkCommand { key: "missing", dest_path: "b/.env" }.execute(&mut storage);
    assert!(failed.is_err());

    let keys = ListCommand.execute(&mut storage).expect("list should succeed");
    assert_eq!(keys, vec!["alpha", "beta"]);
}

#[test]
fn round_trip_reads_saved_bytes_through_link() {
    let mut storage = fresh_storage();
    storage.place_file("src/.env", b"TOKEN=super-secret\n".to_vec());

    SaveCommand { key: "k", source_path: "src/.env" }
        .execute(&mut storage)
        .expect("save should succeed");
    LinkCommand { key: "k", dest_path: "dest/.env" }
        .execute(&mut storage)
        .expect("link should succeed");

    let bytes = storage.read_env("dest/.env").expect("reading through the link should succeed");
    assert_eq!(bytes, b"TOKEN=super-secret\n".to_vec());
}

#[test]
fn save_then_exists_then_list_scenario() {
    let mut storage = fresh_storage();
    storage.place_file(".env", b"API_KEY=secret123".to_vec());

    SaveCommand { key: "proj", source_path: ".env" }
        .execute(&mut storage)
        .expect("save should succeed");

    assert!(storage.check_key_exists("proj"));
    let keys = ListCommand.execute(&mut storage).expect("list should succeed");
    assert_eq!(keys, vec!["proj"]);
}

#[test]
fn link_missing_key_reports_the_key() {
    let mut storage = fresh_storage();

    let result = LinkCommand { key: "missing-key", dest_path: "dest/.env" }.execute(&mut storage);
    assert!(matches!(result, Err(KpvError::KeyNotFound(key)) if key == "missing-key"));
    assert!(!storage.path_exists("dest/.env"));
}

#[test]
fn delete_never_saved_key_has_no_effect() {
    let mut storage = storage_with_saved(&["kept"]);

    DeleteCommand { key: "never-saved" }
        .execute(&mut storage)
        .expect("delete should succeed");

    assert!(storage.check_key_exists("kept"));
    let keys = ListCommand.execute(&mut storage).expect("list should succeed");
    assert_eq!(keys, vec!["kept"]);
}
