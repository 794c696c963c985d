//! Tests that commands pass a failing backend's errors through unchanged,
//! using the in-memory backend in its failing state.

use kpv::commands::delete::DeleteCommand;
use kpv::commands::link::LinkCommand;
use kpv::commands::list::ListCommand;
use kpv::commands::save::SaveCommand;
use kpv::commands::Execute;
use kpv::error::KpvError;
use kpv::memory::MemoryStorage;

fn failing_storage_with(keys: &[&str]) -> MemoryStorage {
    let mut storage = MemoryStorage::new(String::from("/home/user/.config/kpv"));
    storage.place_file("seed.env", b"SEED=1\n".to_vec());
    for key in keys {
        SaveCommand { key, source_path: "seed.env" }
            .execute(&mut storage)
            .expect("seeding a key should succeed");
    }
    storage.set_failing();
    storage
}

#[test]
fn save_propagates_storage_error() {
    let mut storage = failing_storage_with(&[]);
    let command = SaveCommand { key: "err", source_path: "seed.env" };
    let result = command.execute(&mut storage);
    assert!(matches!(result, Err(KpvError::Io(_))));
}

#[test]
fn link_propagates_storage_error() {
    let mut storage = failing_storage_with(&["demo-key"]);
    let command = LinkCommand { key: "demo-key", dest_path: "work/.env" };
    let result = command.execute(&mut storage);
    assert!(matches!(result, Err(KpvError::Io(_))));
}

#[test]
fn list_propagates_storage_error() {
    let mut storage = failing_storage_with(&[]);
    let command = ListCommand;
    let result = command.execute(&mut storage);
    assert!(matches!(result, Err(KpvError::Io(_))));
}

#[test]
fn delete_propagates_storage_error() {
    let mut storage = failing_storage_with(&["protected"]);
    let command = DeleteCommand { key: "protected" };
    let result = command.execute(&mut storage);
    assert!(matches!(result, Err(KpvError::Io(_))));
}
