//! Tests for key validation, path computation, and the error taxonomy.

use kpv::error::ErrorKind;
use kpv::error::KpvError;
use kpv::memory::MemoryStorage;
use kpv::storage::FilesystemStorage;
use kpv::storage::Storage;

#[test]
fn valid_keys_are_accepted() {
    assert!(FilesystemStorage::is_key_valid("test-key"));
    assert!(FilesystemStorage::is_key_valid("ABC-123"));
    assert!(FilesystemStorage::is_key_valid("a"));
    assert!(FilesystemStorage::is_key_valid("0"));
}

#[test]
fn unicode_alphanumerics_are_accepted() {
    assert!(FilesystemStorage::is_key_valid("caf\u{e9}"));
    assert!(FilesystemStorage::is_key_valid("\u{43a}\u{43b}\u{44e}\u{447}"));
}

#[test]
fn invalid_keys_are_rejected() {
    assert!(!FilesystemStorage::is_key_valid(""));
    assert!(!FilesystemStorage::is_key_valid("a b"));
    assert!(!FilesystemStorage::is_key_valid("a/b"));
    assert!(!FilesystemStorage::is_key_valid("."));
    assert!(!FilesystemStorage::is_key_valid(".."));
    assert!(!FilesystemStorage::is_key_valid("/abs"));
    assert!(!FilesystemStorage::is_key_valid("dotted.name"));
    assert!(!FilesystemStorage::is_key_valid("under_score"));
}

#[test]
fn ensure_valid_key_mirrors_validation() {
    let storage = FilesystemStorage::new(String::from("/root"));
    assert!(storage.ensure_valid_key("fine-key").is_ok());
    let rejected = storage.ensure_valid_key("not fine");
    assert!(matches!(rejected, Err(KpvError::Io(ErrorKind::InvalidInput))));
}

#[test]
fn key_paths_follow_the_layout() {
    let storage = FilesystemStorage::new(String::from("/home/user/.config/kpv"));
    assert_eq!(storage.key_dir("proj"), "/home/user/.config/kpv/proj");
    assert_eq!(storage.key_env_path("proj"), "/home/user/.config/kpv/proj/.env");
    assert_eq!(storage.get_key_env_path("proj"), "/home/user/.config/kpv/proj/.env");
}

#[test]
fn from_home_appends_the_fixed_subpath() {
    let storage = FilesystemStorage::from_home("/home/user");
    assert_eq!(storage.get_key_env_path("k"), "/home/user/.config/kpv/k/.env");
}

#[test]
fn parse_entry_key_inverts_the_path() {
    let storage = FilesystemStorage::new(String::from("/home/user/.config/kpv"));
    let path = storage.get_key_env_path("demo");
    assert_eq!(storage.parse_entry_key(&path), Some(String::from("demo")));
    assert_eq!(storage.parse_entry_key("/other/root/demo/.env"), None);
    assert_eq!(storage.parse_entry_key("/home/user/.config/kpv/demo/other"), None);
    assert_eq!(storage.parse_entry_key("short"), None);
}

#[test]
fn check_key_exists_is_false_for_invalid_keys() {
    let storage = MemoryStorage::new(String::from("/root"));
    assert!(!storage.check_key_exists("no/such"));
    assert!(!storage.check_key_exists(""));
}

#[test]
fn save_env_validates_the_key_first() {
    let mut storage = MemoryStorage::new(String::from("/root"));
    storage.place_file(".env", b"X=1".to_vec());
    let result = storage.save_env("bad key", ".env");
    assert!(matches!(result, Err(KpvError::Io(ErrorKind::InvalidInput))));
}

#[test]
fn save_env_missing_source_is_an_io_error() {
    let mut storage = MemoryStorage::new(String::from("/root"));
    let result = storage.save_env("test-key", "missing.env");
    assert!(matches!(result, Err(KpvError::Io(ErrorKind::NotFound))));
}

#[test]
fn link_env_reports_occupied_destinations() {
    let mut storage = MemoryStorage::new(String::from("/root"));
    storage.place_file("dest/.env", b"old".to_vec());
    let result = storage.link_env("any-key", "dest/.env");
    assert!(matches!(result, Err(KpvError::EnvAlreadyExists)));
}

#[test]
fn error_kinds_match_the_taxonomy() {
    assert_eq!(KpvError::Io(ErrorKind::PermissionDenied).kind(), ErrorKind::PermissionDenied);
    assert_eq!(KpvError::HomeNotConfigured.kind(), ErrorKind::NotFound);
    assert_eq!(KpvError::EnvFileNotFound.kind(), ErrorKind::NotFound);
    assert_eq!(KpvError::KeyNotFound(String::from("x")).kind(), ErrorKind::NotFound);
    assert_eq!(KpvError::EnvAlreadyExists.kind(), ErrorKind::AlreadyExists);
}

#[test]
fn error_messages_name_the_failure() {
    assert_eq!(
        KpvError::EnvFileNotFound.message(),
        "No .env file found in the current directory"
    );
    assert_eq!(
        KpvError::KeyNotFound(String::from("proj")).message(),
        "No .env file found for key 'proj'"
    );
    assert_eq!(
        KpvError::EnvAlreadyExists.message(),
        ".env file already exists in the current directory"
    );
    assert_eq!(KpvError::HomeNotConfigured.message(), "HOME environment variable not set");
    assert_eq!(KpvError::Io(ErrorKind::NotFound).message(), "I/O error: not found");
}

#[test]
fn key_not_found_carries_the_key() {
    let err = KpvError::key_not_found("lost");
    assert!(matches!(err, KpvError::KeyNotFound(key) if key == "lost"));
}

#[test]
fn read_env_reads_plain_files_and_rejects_directories() {
    let mut storage = MemoryStorage::new(String::from("/root"));
    storage.place_file("plain.env", b"A=1".to_vec());
    storage.place_dir("somedir");
    assert_eq!(storage.read_env("plain.env"), Some(b"A=1".to_vec()));
    assert_eq!(storage.read_env("somedir"), None);
    assert_eq!(storage.read_env("nothing"), None);
}

#[test]
fn read_env_follows_only_links_onto_stored_entries() {
    let mut storage = MemoryStorage::new(String::from("/root"));
    storage.place_symlink("stray", "/elsewhere/file");
    assert_eq!(storage.read_env("stray"), None);
}
