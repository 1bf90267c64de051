use saveconfig::blob::BlobPayload;
use saveconfig::blob_table::BlobTable;
use saveconfig::entry::Entry;
use saveconfig::manifest::Manifest;

#[test]
fn test_blob_integrity_calculation() {
    let mut blob = BlobPayload::new("tar.zst".to_string(), b"test data");

    let content_hash = blob.calculate_blob_content_hash();
    assert!(!content_hash.is_empty());
    assert_eq!(content_hash.len(), 64);

    blob.finalize_blob_chain_hash().unwrap();
    assert!(blob.get_blob_chain_hash().is_some());
    assert!(!blob.get_blob_chain_hash().unwrap().is_empty());

    assert!(blob.verify_blob_integrity());
}

#[test]
fn test_blob_chain_linking() {
    let mut blob1 = BlobPayload::new("tar.zst".to_string(), b"test data 1");
    let mut blob2 = BlobPayload::new("tar.zst".to_string(), b"test data 2");

    blob1.finalize_blob_chain_hash().unwrap();
    let chain_hash_1 = blob1.get_blob_chain_hash().cloned().unwrap();

    blob2.set_previous_blob_hash(Some(chain_hash_1.clone()));
    blob2.finalize_blob_chain_hash().unwrap();

    assert_eq!(blob2.get_previous_blob_hash(), Some(&chain_hash_1));
    assert!(blob2.get_blob_chain_hash().is_some());
    assert_ne!(blob2.get_blob_chain_hash().unwrap(), &chain_hash_1);

    assert!(blob1.verify_blob_integrity());
    assert!(blob2.verify_blob_integrity());
}

#[test]
fn test_manifest_blob_chain_verification() {
    let mut manifest = Manifest::new(
        "test-backup".to_string(),
        "2023-01-01T00:00:00Z".to_string(),
        "linux".to_string(),
    );

    let mut blob1 = BlobPayload::new("tar.zst".to_string(), b"test data 1");
    let mut blob2 = BlobPayload::new("tar.zst".to_string(), b"test data 2");

    blob1.finalize_blob_chain_hash().unwrap();
    blob2.finalize_blob_chain_hash().unwrap();

    manifest.add_blob_for_testing("blob1".to_string(), blob1);
    manifest.add_blob_for_testing("blob2".to_string(), blob2);

    manifest.entries.push(Entry {
        blob_id: "blob1".to_string(),
        target_hint: "app:test1".to_string(),
        logical_path: "/test/path1".to_string(),
        tar_member: Some("test1.txt".to_string()),
    });

    manifest.entries.push(Entry {
        blob_id: "blob2".to_string(),
        target_hint: "app:test2".to_string(),
        logical_path: "/test/path2".to_string(),
        tar_member: Some("test2.txt".to_string()),
    });

    for i in 0..manifest.blobs.len() {
        let blob = manifest.blobs.get(&manifest.entries[i].blob_id).unwrap();
        assert!(blob.verify_blob_integrity());
    }
}

#[test]
fn test_compression_level_usage() {
    let test_data = b"This is test data for compression testing. ".repeat(100);

    let compressed_level_3 = zstd::encode_all(&test_data[..], 3).unwrap();
    let compressed_level_19 = zstd::encode_all(&test_data[..], 19).unwrap();

    assert!(compressed_level_19.len() <= compressed_level_3.len());

    let decompressed_3 = zstd::decode_all(&compressed_level_3[..]).unwrap();
    let decompressed_19 = zstd::decode_all(&compressed_level_19[..]).unwrap();

    assert_eq!(decompressed_3, test_data);
    assert_eq!(decompressed_19, test_data);
    assert_eq!(decompressed_3, decompressed_19);
}

#[test]
fn test_blob_payload_known_values() {
    let blob = BlobPayload::new("tar.zst".to_string(), b"hello");
    // SHA-256 and base64 of the five bytes of "hello".
    assert_eq!(
        blob.get_sha256(),
        "2cf24dba5fb0a30e26e83b2ac5b9e29e1b161e5c1fa7425e73043362938b9824"
    );
    assert_eq!(blob.b64, "aGVsbG8=");
    assert_eq!(blob.size, 5);
    let decoded = blob.decode().unwrap();
    assert_eq!(decoded, b"hello");
}

#[test]
fn test_blob_payload_empty_hash() {
    let blob = BlobPayload::new("tar".to_string(), b"");
    // SHA-256 of the empty byte string.
    assert_eq!(
        blob.get_sha256(),
        "e3b0c44298fc1c149afbf4c8996fb92427ae41e4649b934ca495991b7852b855"
    );
    assert_eq!(blob.b64, "");
}

#[test]
fn test_blob_table_insert_and_get() {
    let mut table = BlobTable::new();
    assert_eq!(table.len(), 0);
    assert!(table.get("a").is_none());

    let blob_a = BlobPayload::new("tar".to_string(), b"aaa");
    let blob_b = BlobPayload::new("tar".to_string(), b"bbb");
    table.insert("a".to_string(), blob_a);
    table.insert("b".to_string(), blob_b);
    assert_eq!(table.len(), 2);
    assert_eq!(table.get("a").unwrap().size, 3);
    assert!(table.contains("b"));
    assert!(!table.contains("c"));

    // Re-binding a key replaces, never duplicates.
    let blob_a2 = BlobPayload::new("tar".to_string(), b"aaaa");
    table.insert("a".to_string(), blob_a2);
    assert_eq!(table.len(), 2);
    assert_eq!(table.get("a").unwrap().size, 4);
}

#[test]
fn test_canonical_hash_order_independent() {
    // Permuting entries and blobs leaves the canonical backup hash alone.
    let blob_a = BlobPayload::new("tar.zst".to_string(), b"payload a");
    let blob_b = BlobPayload::new("tar.zst".to_string(), b"payload b");
    let entry_a = Entry {
        blob_id: blob_a.get_sha256().to_string(),
        target_hint: "app:one".to_string(),
        logical_path: "/one".to_string(),
        tar_member: Some("one.txt".to_string()),
    };
    let entry_b = Entry {
        blob_id: blob_b.get_sha256().to_string(),
        target_hint: "app:two".to_string(),
        logical_path: "/two".to_string(),
        tar_member: None,
    };

    let mut m1 = Manifest::new(
        "snap".to_string(),
        "2024-01-01T00:00:00Z".to_string(),
        "linux".to_string(),
    );
    m1.add_blob_for_testing(blob_a.get_sha256().to_string(), blob_a.clone());
    m1.add_blob_for_testing(blob_b.get_sha256().to_string(), blob_b.clone());
    m1.entries.push(entry_a.clone());
    m1.entries.push(entry_b.clone());

    let mut m2 = Manifest::new(
        "snap".to_string(),
        "2024-01-01T00:00:00Z".to_string(),
        "linux".to_string(),
    );
    m2.add_blob_for_testing(blob_b.get_sha256().to_string(), blob_b);
    m2.add_blob_for_testing(blob_a.get_sha256().to_string(), blob_a);
    m2.entries.push(entry_b);
    m2.entries.push(entry_a);

    assert_eq!(m1.calculate_backup_hash(), m2.calculate_backup_hash());
}

#[test]
fn test_finalize_then_verify() {
    let mut manifest = Manifest::new(
        "snap-1".to_string(),
        "2024-01-01T00:00:00Z".to_string(),
        "linux".to_string(),
    );
    assert_eq!(manifest.verify_backup_integrity(), Ok(false));
    manifest.finalize_chain_hash();
    assert_eq!(manifest.verify_backup_integrity(), Ok(true));
}

#[test]
fn test_tampered_entries_fail_verification() {
    let mut manifest = Manifest::new(
        "snap-1".to_string(),
        "2024-01-01T00:00:00Z".to_string(),
        "linux".to_string(),
    );
    let blob = BlobPayload::new("tar.zst".to_string(), b"data");
    manifest.add_blob_for_testing(blob.get_sha256().to_string(), blob.clone());
    manifest.finalize_chain_hash();
    assert_eq!(manifest.verify_backup_integrity(), Ok(true));

    // Alter the entries while leaving the stored chain hash alone.
    manifest.entries.push(Entry {
        blob_id: blob.get_sha256().to_string(),
        target_hint: "app:intruder".to_string(),
        logical_path: "/intruder".to_string(),
        tar_member: None,
    });
    assert_eq!(manifest.verify_backup_integrity(), Ok(false));
}

#[test]
fn test_find_existing_blob_by_content() {
    let mut manifest = Manifest::new(
        "snap".to_string(),
        "2024-01-01T00:00:00Z".to_string(),
        "linux".to_string(),
    );
    let blob = BlobPayload::new("tar.zst".to_string(), b"payload");
    let id = blob.get_sha256().to_string();
    manifest.add_blob_for_testing(id.clone(), blob);

    assert_eq!(manifest.find_existing_blob_by_content(&id), Some(id));
    assert_eq!(
        manifest.find_existing_blob_by_content(
            "0000000000000000000000000000000000000000000000000000000000000000"
        ),
        None
    );
}
