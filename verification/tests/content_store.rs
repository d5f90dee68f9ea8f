use microtak_server::content_store::{
    is_valid_hash, validate_hash, ContentStore, ContentStoreError, ReadOutcome, UploadStep,
};
use microtak_server::digest::hex_sha256;
use std::collections::BTreeMap;

/// A store over files that are kept in memory.
struct Disk {
    store: ContentStore,
    files: BTreeMap<String, Vec<u8>>,
    writes: u64,
}

impl Disk {
    fn new() -> Self {
        Disk { store: ContentStore::open("/data/content".to_string()), files: BTreeMap::new(), writes: 0 }
    }

    fn put(&mut self, bytes: &[u8], claimed: Option<&str>) -> Result<String, ContentStoreError> {
        let place = self.store.place(bytes, claimed)?;
        let exists = self.files.contains_key(&place.path);
        if let UploadStep::WriteThenRename(temp) = self.store.upload_step(exists, 7, self.writes) {
            self.writes += 1;
            self.files.insert(temp.clone(), bytes.to_vec());
            let written = self.files.remove(&temp).unwrap();
            self.files.insert(place.path, written);
        }
        Ok(place.hash)
    }

    fn get(&self, hash: &str) -> Result<Option<Vec<u8>>, ContentStoreError> {
        let path = self.store.locate(hash)?;
        ContentStore::found(match self.files.get(&path) {
            Some(bytes) => ReadOutcome::Bytes(bytes.clone()),
            None => ReadOutcome::Missing,
        })
    }
}

#[test]
fn stores_content_under_its_actual_sha256_hash() {
    let mut disk = Disk::new();
    let hash = disk.put(b"hello world", None).unwrap();
    assert_eq!(hash, hex_sha256(b"hello world"));
    assert_eq!(hash.len(), 64, "SHA-256 hex hash must be 64 characters");
    assert_eq!(hash, "b94d27b9934d3e08a52e52d7da7dabfac484efe37a5380ee9088f7ace2efcde9");
}

#[test]
fn get_returns_previously_stored_bytes() {
    let mut disk = Disk::new();
    let hash = disk.put(b"some file content", None).unwrap();
    let fetched = disk.get(&hash).unwrap();
    assert_eq!(fetched.as_deref(), Some(&b"some file content"[..]));
    assert_eq!(disk.get(&hash.to_uppercase()).unwrap(), fetched);
}

#[test]
fn get_on_unknown_hash_is_none_not_an_error() {
    let disk = Disk::new();
    let unknown = "a".repeat(64);
    assert!(disk.get(&unknown).unwrap().is_none());
}

#[test]
fn rejects_a_claimed_hash_not_matching_the_actual_content() {
    let mut disk = Disk::new();
    let wrong_hash = "0".repeat(64);
    let result = disk.put(b"real content", Some(&wrong_hash));
    assert!(matches!(
        result,
        Err(ContentStoreError::HashMismatch { .. })
    ));
    // Nothing should have been written under the wrong hash.
    assert!(disk.get(&wrong_hash).unwrap().is_none());
    assert!(disk.files.is_empty());
    let actual = hex_sha256(b"real content");
    assert_eq!(
        result.unwrap_err().message(),
        format!("uploaded content's actual hash {actual} does not match the claimed hash {wrong_hash}")
    );
}

#[test]
fn accepts_a_correctly_claimed_hash() {
    let mut disk = Disk::new();
    let actual = hex_sha256(b"matching content");
    let hash = disk.put(b"matching content", Some(&actual)).unwrap();
    assert_eq!(hash, actual);
    assert_eq!(disk.put(b"matching content", Some(&actual.to_uppercase())).unwrap(), actual);
}

#[test]
fn re_uploading_identical_content_is_idempotent() {
    let mut disk = Disk::new();
    let hash_a = disk.put(b"duplicate me", None).unwrap();
    let hash_b = disk.put(b"duplicate me", None).unwrap();
    assert_eq!(hash_a, hash_b);
    assert_eq!(disk.get(&hash_a).unwrap().as_deref(), Some(&b"duplicate me"[..]));
    assert_eq!(disk.writes, 1);
}

#[test]
fn rejects_malformed_or_path_traversal_hash_on_get() {
    let disk = Disk::new();
    for bad in ["../../etc/passwd", "not-hex-at-all", "abc", ""] {
        let result = disk.get(bad);
        assert!(
            matches!(result, Err(ContentStoreError::InvalidHash(_))),
            "expected {bad:?} to be rejected as an invalid hash, got {result:?}"
        );
    }
}

#[test]
fn is_valid_hash_accepts_only_well_formed_sha256_hex() {
    assert!(is_valid_hash(&"a".repeat(64)));
    assert!(!is_valid_hash(&"a".repeat(63)));
    assert!(!is_valid_hash("../escape"));
}

#[test]
fn put_leaves_no_temp_file_behind() {
    let mut disk = Disk::new();
    disk.put(b"clean up after yourself", None).unwrap();
    let leftover_tmp_files: Vec<_> = disk.files.keys().filter(|name| name.contains(".tmp-")).collect();
    assert!(
        leftover_tmp_files.is_empty(),
        "expected no leftover temp files, found: {leftover_tmp_files:?}"
    );
}

#[test]
fn hashes_are_read_in_either_case_and_kept_in_lower_case() {
    let mixed = "aB".repeat(32);
    assert_eq!(validate_hash(&mixed).unwrap(), "ab".repeat(32));
    assert!(!is_valid_hash(&"g".repeat(64)));
    assert!(!is_valid_hash(&"\u{e9}".repeat(32)));
    let error = validate_hash("xyz").unwrap_err();
    assert_eq!(
        error.message(),
        "'xyz' is not a valid content hash (expected 64 lowercase hex characters)"
    );
}

#[test]
fn files_stand_in_the_directory() {
    let store = ContentStore::open("/data/content".to_string());
    assert_eq!(store.path_for("abc"), "/data/content/abc");
    assert_eq!(ContentStore::open("dir/".to_string()).path_for("abc"), "dir/abc");
    assert_eq!(ContentStore::open(String::new()).path_for("abc"), "abc");
    assert_eq!(
        store.upload_step(false, 12345, 0),
        UploadStep::WriteThenRename("/data/content/.tmp-12345-0".to_string())
    );
    assert_eq!(store.upload_step(true, 12345, 0), UploadStep::Done);
}

#[test]
fn a_file_that_cannot_be_read_is_an_error() {
    let result = ContentStore::found(ReadOutcome::Failed("permission denied".to_string()));
    assert_eq!(result.unwrap_err().message(), "I/O error: permission denied");
}

#[test]
fn content_stays_found_after_later_uploads() {
    let mut disk = Disk::new();
    let hash = disk.put(b"first", None).unwrap();
    for later in [&b"second"[..], b"third", b"first"] {
        disk.put(later, None).unwrap();
        assert_eq!(disk.get(&hash).unwrap().as_deref(), Some(&b"first"[..]));
        assert_eq!(disk.get(&hash.to_uppercase()).unwrap().as_deref(), Some(&b"first"[..]));
    }
    assert_eq!(disk.put(b"first", None).unwrap(), hash);
    assert_eq!(disk.files.len(), 3);
}
