use std::collections::HashMap;
use std::sync::Arc;

use csync_store::cas::{Cas, CasError};
use csync_store::chunk::{split_blocks, CHUNK_SIZE};
use csync_store::hash::hash_bytes;
use csync_store::storage::{AtomicWrite, Storage, StorageError, WriteStep};

fn store() -> Cas {
    Cas::new(Storage::at_root(String::from("/srv/.csync")))
}

/// Runs every step of `w` on the in-memory files; all of them succeed.
fn drive(files: &mut HashMap<String, Vec<u8>>, mut w: AtomicWrite) -> Result<(), StorageError> {
    loop {
        match w.step() {
            WriteStep::Done => return w.finish(),
            WriteStep::CreateTemp => {
                files.insert(w.temp_path().clone(), Vec::new());
            }
            WriteStep::WriteTemp => {
                files.insert(w.temp_path().clone(), w.data().to_vec());
            }
            WriteStep::RenameTemp => {
                let d = files.remove(w.temp_path()).unwrap();
                files.insert(w.target().clone(), d);
            }
            WriteStep::RemoveTemp => {
                files.remove(w.temp_path());
            }
            WriteStep::CreateParent | WriteStep::SyncTemp => {}
        }
        w.advance(Ok(()));
    }
}

/// Stores `data` under `hash`; returns whether a write took place.
fn put(cas: &Cas, files: &mut HashMap<String, Vec<u8>>, hash: &[u8; 32], data: &[u8]) -> bool {
    let exists = files.contains_key(&cas.construct_hash_path(hash));
    match cas.put_object(hash, data.to_vec(), exists).unwrap() {
        None => false,
        Some(w) => {
            drive(files, w).unwrap();
            true
        }
    }
}

fn get(cas: &Cas, files: &HashMap<String, Vec<u8>>, hash: &[u8; 32]) -> Result<Vec<u8>, CasError> {
    let found = files.get(&cas.construct_hash_path(hash)).map(|b| Ok(b.clone()));
    cas.get_object(hash, found).map(|c| {
        assert_eq!(&c.hash, hash);
        c.data
    })
}

#[test]
fn hash_path_is_sharded_by_first_two_bytes() {
    let cas = store();
    let mut hash = [0u8; 32];
    hash[0] = 0xab;
    hash[1] = 0x0c;
    hash[31] = 0xff;
    let hex: String = hash.iter().map(|b| format!("{:02x}", b)).collect();
    assert_eq!(
        cas.construct_hash_path(&hash),
        format!("/srv/.csync/objects/ab/0c/{}", hex)
    );
}

#[test]
fn put_then_get_returns_the_bytes() {
    let cas = store();
    let mut files = HashMap::new();
    let data = b"chunk contents".to_vec();
    let hash = hash_bytes(&data);
    assert!(put(&cas, &mut files, &hash, &data));
    assert!(files.contains_key(&cas.construct_hash_path(&hash)));
    assert_eq!(get(&cas, &files, &hash).unwrap(), data);
}

#[test]
fn second_put_writes_nothing() {
    let cas = store();
    let mut files = HashMap::new();
    let data = b"twice".to_vec();
    let hash = hash_bytes(&data);
    assert!(put(&cas, &mut files, &hash, &data));
    let before = files.clone();
    assert!(!put(&cas, &mut files, &hash, &data));
    assert_eq!(files, before);
    assert!(cas.put_object(&hash, data.clone(), true).unwrap().is_none());
}

#[test]
fn get_of_missing_object_is_not_found() {
    let cas = store();
    let files = HashMap::new();
    let hash = hash_bytes(b"never stored");
    assert!(matches!(get(&cas, &files, &hash), Err(CasError::ObjectNotFound)));
}

#[test]
fn get_passes_read_errors_on() {
    let cas = store();
    let hash = hash_bytes(b"x");
    let r = cas.get_object(&hash, Some(Err(StorageError::FileDoesNotExist)));
    assert!(matches!(
        r,
        Err(CasError::StorageErr(StorageError::FileDoesNotExist))
    ));
}

#[test]
fn put_under_root_with_parent_segment_is_refused() {
    let cas = Cas::new_with_storage(Arc::new(Storage::at_root(String::from("/srv/../x"))));
    let hash = hash_bytes(b"x");
    let r = cas.put_object(&hash, b"x".to_vec(), false);
    assert!(matches!(
        r,
        Err(CasError::StorageErr(StorageError::InvalidFileLocation))
    ));
}

#[test]
fn storage_error_converts() {
    let e: CasError = StorageError::NoHomeDir.into();
    assert!(matches!(e, CasError::StorageErr(StorageError::NoHomeDir)));
}

#[test]
fn ingest_two_and_a_half_blocks_end_to_end() {
    let cas = store();
    let mut files = HashMap::new();
    let data: Vec<u8> = (0..CHUNK_SIZE * 5 / 2)
        .map(|i| ((i as u64).wrapping_mul(2654435761) >> 13) as u8)
        .collect();
    let blocks = split_blocks(&data, CHUNK_SIZE);
    let sizes: Vec<usize> = blocks.iter().map(|b| b.len()).collect();
    assert_eq!(sizes, vec![CHUNK_SIZE, CHUNK_SIZE, CHUNK_SIZE / 2]);
    let hashes: Vec<[u8; 32]> = blocks.iter().map(|b| hash_bytes(b)).collect();
    for (h, b) in hashes.iter().zip(blocks.iter()) {
        assert!(put(&cas, &mut files, h, b));
    }
    assert_eq!(files.len(), 3);
    let mut rebuilt = Vec::new();
    for h in &hashes {
        assert!(files.contains_key(&cas.construct_hash_path(h)));
        rebuilt.extend(get(&cas, &files, h).unwrap());
    }
    assert_eq!(rebuilt, data);

    let again: Vec<[u8; 32]> = split_blocks(&data, CHUNK_SIZE)
        .iter()
        .map(|b| hash_bytes(b))
        .collect();
    assert_eq!(again, hashes);
    for (h, b) in again.iter().zip(blocks.iter()) {
        assert!(!put(&cas, &mut files, h, b));
    }
    assert_eq!(files.len(), 3);
}
