use rustcache::error::StorageError;
use rustcache::storage::{IncrementParam, Record, Storage};

fn value_of(rec: Record) -> Vec<u8> {
    match rec {
        Record::Value(d) => d.value,
        Record::Counter(_) => panic!("expected a value record"),
    }
}

fn counter_of(rec: Record) -> u64 {
    match rec {
        Record::Counter(d) => d.value,
        Record::Value(_) => panic!("expected a counter record"),
    }
}

fn cas_of(rec: &Record) -> u64 {
    match rec {
        Record::Value(d) => d.header.cas,
        Record::Counter(d) => d.header.cas,
    }
}

#[test]
fn insert() {
    let mut storage = Storage::new();
    let record = Record::new(String::from("Test data").into_bytes(), 0, 0, 0);
    let result = storage.set(String::from("key1").into_bytes(), record, 0);
    assert!(result.is_ok());

    let value = storage.get(&String::from("key1").into_bytes(), 0).unwrap();
    assert_eq!(value_of(value), String::from("Test data").into_bytes());
}

#[test]
fn key_isolation() {
    let mut storage = Storage::new();
    storage
        .set(b"a".to_vec(), Record::new(b"v1".to_vec(), 0, 0, 0), 10)
        .unwrap();
    storage
        .set(b"b".to_vec(), Record::new(b"v2".to_vec(), 0, 0, 0), 10)
        .unwrap();
    assert_eq!(value_of(storage.get(&b"a".to_vec(), 10).unwrap()), b"v1".to_vec());
    assert_eq!(value_of(storage.get(&b"b".to_vec(), 10).unwrap()), b"v2".to_vec());
}

#[test]
fn cas_token_semantics() {
    let mut storage = Storage::new();
    let t1 = storage
        .set(b"k".to_vec(), Record::new(b"one".to_vec(), 0, 0, 0), 5)
        .unwrap();
    assert_ne!(t1, 0);

    let wrong = storage.cas(
        b"k".to_vec(),
        Record::new(b"two".to_vec(), 0, 0, 0),
        t1 + 999,
        5,
    );
    assert_eq!(wrong, Err(StorageError::CasMismatch));
    assert_eq!(value_of(storage.get(&b"k".to_vec(), 5).unwrap()), b"one".to_vec());

    let t2 = storage
        .cas(b"k".to_vec(), Record::new(b"two".to_vec(), 0, 0, 0), t1, 5)
        .unwrap();
    assert_ne!(t2, t1);
    let rec = storage.get(&b"k".to_vec(), 5).unwrap();
    assert_eq!(cas_of(&rec), t2);
    assert_eq!(value_of(rec), b"two".to_vec());

    let missing = storage.cas(b"absent".to_vec(), Record::new(vec![], 0, 0, 0), 1, 5);
    assert_eq!(missing, Err(StorageError::NotFound));
}

#[test]
fn set_changes_token_each_time() {
    let mut storage = Storage::new();
    let t1 = storage
        .set(b"k".to_vec(), Record::new(b"a".to_vec(), 0, 0, 0), 1)
        .unwrap();
    let t2 = storage
        .set(b"k".to_vec(), Record::new(b"b".to_vec(), 0, 0, 0), 1)
        .unwrap();
    assert_ne!(t1, t2);
}

#[test]
fn expired_record_is_absent() {
    let now: u64 = 100;
    let mut storage = Storage::new();
    storage
        .set(b"gone".to_vec(), Record::new(b"x".to_vec(), 0, 0, 99), now - 2)
        .unwrap();

    assert!(storage.get(&b"gone".to_vec(), now).is_none());
    assert_eq!(
        storage.replace(b"gone".to_vec(), Record::new(b"y".to_vec(), 0, 0, 0), now),
        Err(StorageError::NotFound)
    );
    assert_eq!(
        storage.append(b"gone".to_vec(), b"z".to_vec(), now),
        Err(StorageError::NotFound)
    );
    assert_eq!(
        storage.cas(b"gone".to_vec(), Record::new(b"y".to_vec(), 0, 0, 0), 1, now),
        Err(StorageError::NotFound)
    );
}

#[test]
fn never_expiring_record_stays() {
    let mut storage = Storage::new();
    storage
        .set(b"keep".to_vec(), Record::new(b"x".to_vec(), 0, 0, 0), 1)
        .unwrap();
    assert!(storage.get(&b"keep".to_vec(), u64::MAX).is_some());
}

#[test]
fn increments_accumulate_without_lost_updates() {
    let mut storage = Storage::new();
    let param = IncrementParam { delta: 1, value: 0 };
    let seeded = storage.increment(b"ctr".to_vec(), param, 0, 3).unwrap();
    assert_eq!(seeded, 0);

    let n: u64 = 10;
    let mut last: u64 = 0;
    for _ in 0..n {
        last = storage
            .increment(b"ctr".to_vec(), IncrementParam { delta: 1, value: 0 }, 0, 3)
            .unwrap();
    }
    assert_eq!(last, n);
    assert_eq!(counter_of(storage.get(&b"ctr".to_vec(), 3).unwrap()), n);
}

#[test]
fn decrement_floors_at_zero() {
    let mut storage = Storage::new();
    storage
        .increment(b"ctr".to_vec(), IncrementParam { delta: 0, value: 5 }, 0, 1)
        .unwrap();
    let r = storage
        .decrement(b"ctr".to_vec(), IncrementParam { delta: 10, value: 0 }, 0, 1)
        .unwrap();
    assert_eq!(r, 0);
}

#[test]
fn increment_on_value_record_is_not_found() {
    let mut storage = Storage::new();
    storage
        .set(b"k".to_vec(), Record::new(b"text".to_vec(), 0, 0, 0), 1)
        .unwrap();
    assert_eq!(
        storage.increment(b"k".to_vec(), IncrementParam { delta: 1, value: 0 }, 0, 1),
        Err(StorageError::NotFound)
    );
}

#[test]
fn add_requires_absence_replace_requires_presence() {
    let mut storage = Storage::new();
    assert_eq!(
        storage.replace(b"k".to_vec(), Record::new(b"v".to_vec(), 0, 0, 0), 1),
        Err(StorageError::NotFound)
    );
    storage
        .add(b"k".to_vec(), Record::new(b"v".to_vec(), 0, 0, 0), 1)
        .unwrap();
    assert_eq!(
        storage.add(b"k".to_vec(), Record::new(b"w".to_vec(), 0, 0, 0), 1),
        Err(StorageError::KeyExists)
    );
    storage
        .replace(b"k".to_vec(), Record::new(b"w".to_vec(), 0, 0, 0), 1)
        .unwrap();
    assert_eq!(value_of(storage.get(&b"k".to_vec(), 1).unwrap()), b"w".to_vec());
}

#[test]
fn append_and_prepend_concatenate_and_keep_flags() {
    let mut storage = Storage::new();
    storage
        .set(b"k".to_vec(), Record::new(b"ab".to_vec(), 0, 7, 0), 1)
        .unwrap();
    storage.append(b"k".to_vec(), b"cd".to_vec(), 1).unwrap();
    storage.prepend(b"k".to_vec(), b"xx".to_vec(), 1).unwrap();
    let rec = storage.get(&b"k".to_vec(), 1).unwrap();
    match &rec {
        Record::Value(d) => {
            assert_eq!(d.value, b"xxabcd".to_vec());
            assert_eq!(d.header.flags, 7);
        }
        Record::Counter(_) => panic!("expected a value record"),
    }

    assert_eq!(
        storage.append(b"missing".to_vec(), b"z".to_vec(), 1),
        Err(StorageError::NotFound)
    );
}

#[test]
fn append_on_counter_is_type_mismatch() {
    let mut storage = Storage::new();
    storage
        .increment(b"ctr".to_vec(), IncrementParam { delta: 0, value: 1 }, 0, 1)
        .unwrap();
    assert_eq!(
        storage.append(b"ctr".to_vec(), b"z".to_vec(), 1),
        Err(StorageError::TypeMismatch)
    );
}

#[test]
fn delete_and_flush_remove_records() {
    let mut storage = Storage::new();
    storage
        .set(b"k".to_vec(), Record::new(b"v".to_vec(), 0, 0, 0), 1)
        .unwrap();
    assert_eq!(storage.delete(&b"k".to_vec(), 1), Ok(()));
    assert_eq!(storage.delete(&b"k".to_vec(), 1), Err(StorageError::NotFound));

    storage
        .set(b"a".to_vec(), Record::new(b"1".to_vec(), 0, 0, 0), 1)
        .unwrap();
    storage
        .set(b"b".to_vec(), Record::new(b"2".to_vec(), 0, 0, 0), 1)
        .unwrap();
    storage.flush();
    assert!(storage.get(&b"a".to_vec(), 1).is_none());
    assert!(storage.get(&b"b".to_vec(), 1).is_none());
}

#[test]
fn touch_rewrites_expiration_and_keeps_token() {
    let mut storage = Storage::new();
    let t = storage
        .set(b"k".to_vec(), Record::new(b"v".to_vec(), 0, 0, 0), 1)
        .unwrap();
    assert_eq!(storage.touch(&b"k".to_vec(), 50, 2), Ok(()));
    let rec = storage.get(&b"k".to_vec(), 50).unwrap();
    assert_eq!(cas_of(&rec), t);
    assert!(storage.get(&b"k".to_vec(), 51).is_none());
    assert_eq!(
        storage.touch(&b"absent".to_vec(), 50, 2),
        Err(StorageError::NotFound)
    );
}

#[test]
fn oversized_key_is_rejected() {
    let mut storage = Storage::new();
    let long_key = vec![b'x'; 251];
    assert_eq!(
        storage.set(long_key.clone(), Record::new(b"v".to_vec(), 0, 0, 0), 1),
        Err(StorageError::KeyTooLarge)
    );
    assert!(storage.get(&long_key, 1).is_none());

    let edge_key = vec![b'x'; 250];
    assert!(storage.set(edge_key.clone(), Record::new(b"v".to_vec(), 0, 0, 0), 1).is_ok());
    assert!(storage.get(&edge_key, 1).is_some());
}
