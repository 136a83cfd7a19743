use restaurant_booking::{ErrorCode, Identity, RecordStore};

fn key(byte: u8) -> Identity {
    Identity::new([byte; 32])
}

#[test]
fn new_store_is_empty() {
    let store = RecordStore::new();
    assert!(!store.contains(&key(1)));
    assert_eq!(store.read(&key(1)), None);
}

#[test]
fn create_stores_under_a_free_address() {
    let mut store = RecordStore::new();
    assert_eq!(store.create(key(1), vec![10, 20]), Ok(()));
    assert!(store.contains(&key(1)));
    assert_eq!(store.read(&key(1)), Some(&vec![10, 20]));
    assert!(!store.contains(&key(2)));
}

#[test]
fn create_refuses_an_occupied_address() {
    let mut store = RecordStore::new();
    assert_eq!(store.create(key(1), vec![10, 20]), Ok(()));
    assert_eq!(store.create(key(1), vec![30]), Err(ErrorCode::AlreadyInitialized));
    assert_eq!(store.read(&key(1)), Some(&vec![10, 20]));
}

#[test]
fn write_replaces_in_place() {
    let mut store = RecordStore::new();
    assert_eq!(store.create(key(1), vec![10]), Ok(()));
    assert_eq!(store.create(key(2), vec![20]), Ok(()));
    assert_eq!(store.write(&key(1), vec![11, 12]), Ok(()));
    assert_eq!(store.read(&key(1)), Some(&vec![11, 12]));
    assert_eq!(store.read(&key(2)), Some(&vec![20]));
}

#[test]
fn write_refuses_a_free_address() {
    let mut store = RecordStore::new();
    assert_eq!(store.write(&key(1), vec![11]), Err(ErrorCode::NotFound));
    assert!(!store.contains(&key(1)));
}

#[test]
fn get_or_create_creates_once() {
    let mut store = RecordStore::new();
    assert_eq!(store.get_or_create(key(1), vec![0, 0]), &vec![0, 0]);
    assert_eq!(store.write(&key(1), vec![7, 7]), Ok(()));
    assert_eq!(store.get_or_create(key(1), vec![0, 0]), &vec![7, 7]);
    assert_eq!(store.read(&key(1)), Some(&vec![7, 7]));
}

#[test]
fn addresses_differ_by_a_single_byte() {
    let mut store = RecordStore::new();
    let mut bytes = [5u8; 32];
    let first = Identity::new(bytes);
    bytes[31] = 6;
    let second = Identity::new(bytes);
    assert!(!first.same(&second));
    assert!(first.same(&first));
    assert_eq!(store.create(first, vec![1]), Ok(()));
    assert_eq!(store.create(second, vec![2]), Ok(()));
    assert_eq!(store.read(&first), Some(&vec![1]));
    assert_eq!(store.read(&second), Some(&vec![2]));
}
