use rspack_cache::cache::storage::{MemoryStorage, Storage};
use rspack_cache::resolve::ModuleIdentifier;

#[test]
fn empty_store_finds_nothing() {
    let storage: MemoryStorage<String> = MemoryStorage::new();
    assert_eq!(storage.get(&ModuleIdentifier::from("a")), None);
    assert_eq!(storage.get(&ModuleIdentifier::from("")), None);
}

#[test]
fn store_hands_out_what_was_filed() {
    let mut storage: MemoryStorage<String> = MemoryStorage::new();
    storage.set(ModuleIdentifier::from("a"), "one".to_string());
    storage.set(ModuleIdentifier::from("b"), "two".to_string());
    assert_eq!(storage.get(&ModuleIdentifier::from("a")), Some("one".to_string()));
    assert_eq!(storage.get(&ModuleIdentifier::from("b")), Some("two".to_string()));
    assert_eq!(storage.get(&ModuleIdentifier::from("c")), None);
    assert_eq!(storage.get(&ModuleIdentifier::from("a")), Some("one".to_string()));
}

#[test]
fn store_replaces_what_was_there() {
    let mut storage: MemoryStorage<u32> = MemoryStorage::new();
    storage.set(ModuleIdentifier::from("a"), 1);
    storage.set(ModuleIdentifier::from("a"), 2);
    assert_eq!(storage.get(&ModuleIdentifier::from("a")), Some(2));
}

#[test]
fn store_works_behind_a_box() {
    let mut storage: Box<dyn Storage<u32>> = Box::new(MemoryStorage::new());
    storage.set(ModuleIdentifier::from("a"), 1);
    assert_eq!(storage.get(&ModuleIdentifier::from("a")), Some(1));
    assert_eq!(storage.get(&ModuleIdentifier::from("b")), None);
}
