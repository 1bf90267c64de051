use saveconfig::blob::BlobPayload;
use saveconfig::blob_table::BlobTable;
use saveconfig::chain::{BlobChainManager, BlobChainMetadata};
use saveconfig::engine::get_blob_chain_info;

#[test]
fn test_blob_chain_metadata() {
    let mut metadata = BlobChainMetadata::new();

    metadata.add_blob("blob1".to_string(), "hash1".to_string());
    metadata.add_blob("blob2".to_string(), "hash2".to_string());

    assert_eq!(metadata.chain_order.len(), 2);
    assert_eq!(metadata.get_position("blob1"), Some(0));
    assert_eq!(metadata.get_position("blob2"), Some(1));
    assert!(metadata.verify_integrity());
}

#[test]
fn test_blob_chain_manager() {
    let mut manager = BlobChainManager::new("/tmp/store".to_string(), "test_backup".to_string());

    let mut blob1 = BlobPayload::new("tar.zst".to_string(), b"test data 1");
    let mut blob2 = BlobPayload::new("tar.zst".to_string(), b"test data 2");

    manager.add_blob_to_chain("blob1", &mut blob1).unwrap();
    manager.add_blob_to_chain("blob2", &mut blob2).unwrap();

    assert_eq!(manager.metadata.chain_order.len(), 2);
    assert!(blob1.verify_blob_integrity());
    assert!(blob2.verify_blob_integrity());

    assert!(blob2.get_previous_blob_hash().is_some());
    assert_eq!(blob2.get_previous_blob_hash(), blob1.get_blob_chain_hash());
}

#[test]
fn test_encrypted_metadata_storage() {
    let mut manager = BlobChainManager::new("/tmp/store".to_string(), "test_backup".to_string());

    let mut blob1 = BlobPayload::new("tar.zst".to_string(), b"test data 1");
    let mut blob2 = BlobPayload::new("tar.zst".to_string(), b"test data 2");

    manager.add_blob_to_chain("blob1", &mut blob1).unwrap();
    manager.add_blob_to_chain("blob2", &mut blob2).unwrap();

    // The sidecar is written under a backup-specific name.
    assert_eq!(
        manager.get_metadata_path(),
        "/tmp/store/test_backup_blob_chain.encrypted"
    );
    let sealed = manager.export_sidecar().unwrap();

    // A fresh manager can open the sealed record.
    let mut manager2 = BlobChainManager::new("/tmp/store".to_string(), "test_backup".to_string());
    manager2.import_sidecar(&sealed).unwrap();
    assert_eq!(manager2.metadata.chain_order.len(), 2);
    assert_eq!(manager2.metadata.chain_order[0], "blob1");
    assert_eq!(manager2.metadata.chain_order[1], "blob2");

    assert!(manager2.metadata.verify_integrity());
}

#[test]
fn test_complete_blob_chain_verification() {
    let mut manager = BlobChainManager::new("/tmp/store".to_string(), "test_backup".to_string());

    let mut blob1 = BlobPayload::new("tar.zst".to_string(), b"test data 1");
    let mut blob2 = BlobPayload::new("tar.zst".to_string(), b"test data 2");
    let mut blob3 = BlobPayload::new("tar.zst".to_string(), b"test data 3");

    manager.add_blob_to_chain("blob1", &mut blob1).unwrap();
    manager.add_blob_to_chain("blob2", &mut blob2).unwrap();
    manager.add_blob_to_chain("blob3", &mut blob3).unwrap();

    let mut blobs = BlobTable::new();
    blobs.insert("blob1".to_string(), blob1);
    blobs.insert("blob2".to_string(), blob2.clone());
    blobs.insert("blob3".to_string(), blob3);

    assert!(manager.verify_blob_chain(&blobs).unwrap());

    // Removing a blob breaks the chain; rebuild the table without blob2.
    let mut missing = BlobTable::new();
    for i in 0..blobs.len() {
        let (id, b) = blobs.item_at(i);
        if id != "blob2" {
            missing.insert(id.clone(), b.duplicate());
        }
    }
    assert!(!manager.verify_blob_chain(&missing).unwrap());
}

#[test]
fn test_complete_blob_chain_workflow() {
    let mut manager = BlobChainManager::new("/tmp/store".to_string(), "test_backup".to_string());

    let blob_data1: &[u8] = b"compressed_tar_data_file1";
    let blob_data2: &[u8] = b"compressed_tar_data_file2";
    let blob_data3: &[u8] = b"compressed_tar_data_file3";

    let mut blob1 = BlobPayload::new("tar.zst".to_string(), blob_data1);
    let mut blob2 = BlobPayload::new("tar.zst".to_string(), blob_data2);
    let mut blob3 = BlobPayload::new("tar.zst".to_string(), blob_data3);

    manager.add_blob_to_chain("blob1", &mut blob1).unwrap();
    manager.add_blob_to_chain("blob2", &mut blob2).unwrap();
    manager.add_blob_to_chain("blob3", &mut blob3).unwrap();

    let mut manifest = saveconfig::manifest::Manifest::new(
        "integration-test-backup".to_string(),
        "2024-01-01T00:00:00Z".to_string(),
        "linux".to_string(),
    );
    manifest.add_blob_for_testing("blob1".to_string(), blob1);
    manifest.add_blob_for_testing("blob2".to_string(), blob2);
    manifest.add_blob_for_testing("blob3".to_string(), blob3);

    manifest.entries.push(saveconfig::entry::Entry {
        blob_id: "blob1".to_string(),
        target_hint: "app:test1".to_string(),
        logical_path: "/test/file1.conf".to_string(),
        tar_member: Some("file1.conf".to_string()),
    });
    manifest.entries.push(saveconfig::entry::Entry {
        blob_id: "blob2".to_string(),
        target_hint: "app:test2".to_string(),
        logical_path: "/test/file2.conf".to_string(),
        tar_member: Some("file2.conf".to_string()),
    });
    manifest.entries.push(saveconfig::entry::Entry {
        blob_id: "blob3".to_string(),
        target_hint: "app:test3".to_string(),
        logical_path: "/test/file3.conf".to_string(),
        tar_member: Some("file3.conf".to_string()),
    });

    assert!(manager.verify_blob_chain(&manifest.blobs).unwrap());

    let chain_info = get_blob_chain_info(&manager).unwrap();
    assert!(chain_info.contains("3 blobs"), "{}", chain_info);
    assert!(chain_info.contains("integrity hash"), "{}", chain_info);

    // The sealed sidecar carries the chain to a fresh manager.
    let sealed = manager.export_sidecar().unwrap();
    let mut manager2 = BlobChainManager::new("/tmp/store".to_string(), "test_backup".to_string());
    manager2.import_sidecar(&sealed).unwrap();
    let chain_metadata = manager2.get_chain_info();
    assert_eq!(chain_metadata.chain_order.len(), 3);
    assert_eq!(chain_metadata.chain_order[0], "blob1");
    assert_eq!(chain_metadata.chain_order[1], "blob2");
    assert_eq!(chain_metadata.chain_order[2], "blob3");

    assert!(chain_metadata.verify_integrity());
}

#[test]
fn test_blob_chain_security_properties() {
    let mut manager = BlobChainManager::new("/tmp/store".to_string(), "test_backup".to_string());

    let mut blob1 = BlobPayload::new("tar.zst".to_string(), b"data1");
    let mut blob2 = BlobPayload::new("tar.zst".to_string(), b"data2");
    let mut blob3 = BlobPayload::new("tar.zst".to_string(), b"data3");

    manager.add_blob_to_chain("blob1", &mut blob1).unwrap();
    manager.add_blob_to_chain("blob2", &mut blob2).unwrap();
    manager.add_blob_to_chain("blob3", &mut blob3).unwrap();

    let mut blobs = BlobTable::new();
    blobs.insert("blob1".to_string(), blob1.duplicate());
    blobs.insert("blob2".to_string(), blob2.duplicate());
    blobs.insert("blob3".to_string(), blob3.duplicate());

    assert!(manager.verify_blob_chain(&blobs).unwrap(), "Complete chain should verify");

    let mut without_blob2 = BlobTable::new();
    without_blob2.insert("blob1".to_string(), blob1.duplicate());
    without_blob2.insert("blob3".to_string(), blob3.duplicate());
    assert!(
        !manager.verify_blob_chain(&without_blob2).unwrap(),
        "Chain with missing blob should fail verification"
    );

    let mut wrong_chain_blob = BlobPayload::new("tar.zst".to_string(), b"data2");
    wrong_chain_blob.set_previous_blob_hash(Some("wrong_previous_hash".to_string()));
    wrong_chain_blob.finalize_blob_chain_hash().unwrap();
    let mut with_wrong_link = BlobTable::new();
    with_wrong_link.insert("blob1".to_string(), blob1.duplicate());
    with_wrong_link.insert("blob2".to_string(), wrong_chain_blob);
    with_wrong_link.insert("blob3".to_string(), blob3.duplicate());
    assert!(
        !manager.verify_blob_chain(&with_wrong_link).unwrap(),
        "Chain with wrong previous hash should fail verification"
    );
}

#[test]
fn test_encrypted_storage_security() {
    let mut manager = BlobChainManager::new("/tmp/store".to_string(), "test_backup".to_string());

    let mut blob1 = BlobPayload::new("tar.zst".to_string(), b"sensitive_config_data");
    manager.add_blob_to_chain("sensitive_blob", &mut blob1).unwrap();

    let sealed = manager.export_sidecar().unwrap();

    let data_string = String::from_utf8_lossy(&sealed);
    assert!(
        !data_string.contains("sensitive_blob"),
        "Encrypted data should not contain plaintext blob names"
    );
    assert!(
        !data_string.contains("chain_order"),
        "Encrypted data should not contain plaintext field names"
    );

    let mut manager2 = BlobChainManager::new("/tmp/store".to_string(), "test_backup".to_string());
    manager2.import_sidecar(&sealed).unwrap();
    let metadata = manager2.get_chain_info();
    assert_eq!(
        metadata.chain_order[0], "sensitive_blob",
        "Decrypted data should contain correct blob name"
    );
}

#[test]
fn test_per_backup_encryption_isolation() {
    let mut chain_manager1 = BlobChainManager::new("/tmp/store".to_string(), "backup1".to_string());
    let mut chain_manager2 = BlobChainManager::new("/tmp/store".to_string(), "backup2".to_string());

    let mut blob1_backup1 = BlobPayload::new("tar.zst".to_string(), b"backup1_data");
    let mut blob1_backup2 = BlobPayload::new("tar.zst".to_string(), b"backup2_data");

    chain_manager1.add_blob_to_chain("blob1", &mut blob1_backup1).unwrap();
    chain_manager2.add_blob_to_chain("blob1", &mut blob1_backup2).unwrap();

    assert_eq!(
        chain_manager1.get_metadata_path(),
        "/tmp/store/backup1_blob_chain.encrypted"
    );
    assert_eq!(
        chain_manager2.get_metadata_path(),
        "/tmp/store/backup2_blob_chain.encrypted"
    );

    let data1 = chain_manager1.export_sidecar().unwrap();
    let data2 = chain_manager2.export_sidecar().unwrap();
    assert_ne!(data1, data2, "Different backup chains should have different encrypted data");

    let chain_info1 = chain_manager1.get_chain_info();
    let chain_info2 = chain_manager2.get_chain_info();

    assert_eq!(chain_info1.chain_order.len(), 1, "backup1 should have 1 blob");
    assert_eq!(chain_info2.chain_order.len(), 1, "backup2 should have 1 blob");
}

#[test]
fn test_tampered_payload_fails_chain_verification() {
    // Replace one blob's payload with different but well-formed bytes,
    // leaving its stored hashes untouched: verification must fail.
    let mut manager = BlobChainManager::new("/tmp/store".to_string(), "snap-x".to_string());

    let mut blob_a = BlobPayload::new("tar.zst".to_string(), b"payload a");
    let mut blob_b = BlobPayload::new("tar.zst".to_string(), b"payload b");
    let mut blob_c = BlobPayload::new("tar.zst".to_string(), b"payload c");

    manager.add_blob_to_chain("a", &mut blob_a).unwrap();
    manager.add_blob_to_chain("b", &mut blob_b).unwrap();
    manager.add_blob_to_chain("c", &mut blob_c).unwrap();

    let mut tampered = blob_b.duplicate();
    let substitute = BlobPayload::new("tar.zst".to_string(), b"different payload");
    tampered.b64 = substitute.b64.clone();

    let mut blobs = BlobTable::new();
    blobs.insert("a".to_string(), blob_a);
    blobs.insert("b".to_string(), tampered);
    blobs.insert("c".to_string(), blob_c);

    assert!(!manager.verify_blob_chain(&blobs).unwrap());
}

#[test]
fn test_import_rejects_altered_sidecar() {
    let mut manager = BlobChainManager::new("/tmp/store".to_string(), "snap".to_string());
    let mut blob = BlobPayload::new("tar.zst".to_string(), b"data");
    manager.add_blob_to_chain("blob1", &mut blob).unwrap();

    let mut sealed = manager.export_sidecar().unwrap();
    let last = sealed.len() - 1;
    sealed[last] ^= 0xff;

    let mut manager2 = BlobChainManager::new("/tmp/store".to_string(), "snap".to_string());
    assert!(manager2.import_sidecar(&sealed).is_err());
    assert_eq!(manager2.metadata.chain_order.len(), 0);
}
