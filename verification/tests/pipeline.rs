use saveconfig::chain::BlobChainManager;
use saveconfig::entry::Entry;
use saveconfig::errors::StoreError;
use saveconfig::manifest::Manifest;
use saveconfig::performance::{PerformanceConfig, PerformanceMetrics};
use saveconfig::pipeline::{FileInput, RestoredContent};
use saveconfig::snapshots::verify_chain_from;

fn fresh_manifest(name: &str) -> Manifest {
    Manifest::new(
        name.to_string(),
        format!("2024-01-0{}T00:00:00Z", 1),
        "linux".to_string(),
    )
}

#[test]
fn test_ingest_and_restore_round_trip() {
    let mut manifest = fresh_manifest("snap-1");
    let mut chain = BlobChainManager::new("/tmp/store".to_string(), "snap-1".to_string());
    let config = PerformanceConfig::balanced();
    let others: Vec<Manifest> = Vec::new();

    let out = manifest
        .create_blob_from_file(
            &mut chain,
            &config,
            &others,
            "settings.json",
            "/src/settings.json",
            b"hello",
            "app:zed",
        )
        .unwrap();

    assert!(!out.reused);
    assert!(out.payload_to_store.is_some());
    assert_eq!(out.blob_id, out.content_hash);
    assert_eq!(manifest.entries.len(), 1);
    assert_eq!(manifest.entries[0].blob_id, out.blob_id);
    assert_eq!(manifest.entries[0].tar_member.as_deref(), Some("settings.json"));
    assert_eq!(chain.metadata.chain_order.len(), 1);

    let entry = Entry {
        blob_id: out.blob_id.clone(),
        target_hint: "app:zed".to_string(),
        logical_path: "/src/settings.json".to_string(),
        tar_member: Some("settings.json".to_string()),
    };
    match manifest.restore_blob_to(&entry).unwrap() {
        RestoredContent::File(data) => assert_eq!(data, b"hello"),
        RestoredContent::Tree(_) => panic!("expected a single file"),
    }
}

#[test]
fn test_cross_snapshot_dedup() {
    let mut snap_a = fresh_manifest("snap-A");
    let mut chain_a = BlobChainManager::new("/tmp/store".to_string(), "snap-A".to_string());
    let config = PerformanceConfig::balanced();
    let none: Vec<Manifest> = Vec::new();

    let first = snap_a
        .create_blob_from_file(
            &mut chain_a,
            &config,
            &none,
            "config.toml",
            "/etc/config.toml",
            b"identical bytes",
            "app:zed",
        )
        .unwrap();
    assert!(!first.reused);

    let mut snap_b = fresh_manifest("snap-B");
    let mut chain_b = BlobChainManager::new("/tmp/store".to_string(), "snap-B".to_string());
    let others = vec![snap_a.clone()];

    let second = snap_b
        .create_blob_from_file(
            &mut chain_b,
            &config,
            &others,
            "config.toml",
            "/etc/config.toml",
            b"identical bytes",
            "app:zed",
        )
        .unwrap();

    // The store keeps one blob: the second ingest reuses the first's id,
    // stores nothing new, and leaves its own chain untouched.
    assert!(second.reused);
    assert!(second.payload_to_store.is_none());
    assert_eq!(second.blob_id, first.blob_id);
    assert_eq!(chain_b.metadata.chain_order.len(), 0);

    // The reused blob is embedded in the second manifest as well.
    assert!(snap_b.blobs.contains(&second.blob_id));
}

#[test]
fn test_within_manifest_dedup() {
    let mut manifest = fresh_manifest("snap-1");
    let mut chain = BlobChainManager::new("/tmp/store".to_string(), "snap-1".to_string());
    let config = PerformanceConfig::balanced();
    let none: Vec<Manifest> = Vec::new();

    let first = manifest
        .create_blob_from_file(&mut chain, &config, &none, "a.txt", "/a.txt", b"same", "app:a")
        .unwrap();
    let second = manifest
        .create_blob_from_file(&mut chain, &config, &none, "a.txt", "/b/a.txt", b"same", "app:b")
        .unwrap();

    assert!(!first.reused);
    assert!(second.reused);
    assert_eq!(first.blob_id, second.blob_id);
    assert_eq!(manifest.entries.len(), 2);
    assert_eq!(manifest.blobs.len(), 1);
    assert_eq!(chain.metadata.chain_order.len(), 1);
}

#[test]
fn test_directory_ingest_and_tree_restore() {
    let mut manifest = fresh_manifest("snap-1");
    let mut chain = BlobChainManager::new("/tmp/store".to_string(), "snap-1".to_string());
    let config = PerformanceConfig::balanced();
    let none: Vec<Manifest> = Vec::new();

    let dirs = vec!["sub".to_string()];
    let files = vec![
        ("top.txt".to_string(), b"top contents".to_vec()),
        ("sub/inner.txt".to_string(), b"inner contents".to_vec()),
    ];
    let out = manifest
        .create_blob_from_directory(
            &mut chain,
            &config,
            &none,
            &dirs,
            &files,
            "/home/user/.config/zed",
            "app:zed",
        )
        .unwrap();
    assert!(!out.reused);
    assert_eq!(manifest.entries[0].tar_member, None);

    let entry = Entry {
        blob_id: out.blob_id.clone(),
        target_hint: "app:zed".to_string(),
        logical_path: "/home/user/.config/zed".to_string(),
        tar_member: None,
    };
    match manifest.restore_blob_to(&entry).unwrap() {
        RestoredContent::Tree(items) => {
            assert_eq!(items.len(), 3);
            assert!(items[0].is_dir);
            assert_eq!(items[0].path, "sub");
            assert_eq!(items[1].path, "top.txt");
            assert_eq!(items[1].data, b"top contents");
            assert_eq!(items[2].path, "sub/inner.txt");
            assert_eq!(items[2].data, b"inner contents");
        },
        RestoredContent::File(_) => panic!("expected a tree"),
    }
}

#[test]
fn test_restore_error_variants() {
    let mut manifest = fresh_manifest("snap-1");

    // An entry naming an absent blob.
    let missing = Entry {
        blob_id: "absent".to_string(),
        target_hint: "app:x".to_string(),
        logical_path: "/x".to_string(),
        tar_member: None,
    };
    assert_eq!(manifest.restore_blob_to(&missing), Err(StoreError::MissingBlob));

    // A blob in a format the engine does not know.
    let odd = saveconfig::blob::BlobPayload::new("zip".to_string(), b"data");
    manifest.add_blob_for_testing("odd".to_string(), odd);
    let odd_entry = Entry {
        blob_id: "odd".to_string(),
        target_hint: "app:x".to_string(),
        logical_path: "/x".to_string(),
        tar_member: None,
    };
    assert_eq!(manifest.restore_blob_to(&odd_entry), Err(StoreError::UnknownFormat));

    // A payload that is no base64.
    let mut broken = saveconfig::blob::BlobPayload::new("tar".to_string(), b"data");
    broken.b64 = "!!!not-base64!!!".to_string();
    manifest.add_blob_for_testing("broken".to_string(), broken);
    let broken_entry = Entry {
        blob_id: "broken".to_string(),
        target_hint: "app:x".to_string(),
        logical_path: "/x".to_string(),
        tar_member: None,
    };
    assert_eq!(manifest.restore_blob_to(&broken_entry), Err(StoreError::Decode));

    // A member the archive does not hold.
    let mut chain = BlobChainManager::new("/tmp/store".to_string(), "snap-1".to_string());
    let config = PerformanceConfig::balanced();
    let none: Vec<Manifest> = Vec::new();
    let out = manifest
        .create_blob_from_file(&mut chain, &config, &none, "a.txt", "/a.txt", b"abc", "app:a")
        .unwrap();
    let wrong_member = Entry {
        blob_id: out.blob_id,
        target_hint: "app:a".to_string(),
        logical_path: "/a.txt".to_string(),
        tar_member: Some("b.txt".to_string()),
    };
    assert_eq!(manifest.restore_blob_to(&wrong_member), Err(StoreError::MemberNotFound));
}

#[test]
fn test_snapshot_chain_linkage() {
    let mut s1 = Manifest::new(
        "snap-1".to_string(),
        "2024-01-01T00:00:00Z".to_string(),
        "linux".to_string(),
    );
    s1.finalize_chain_hash();

    let mut s2 = Manifest::new(
        "snap-2".to_string(),
        "2024-01-02T00:00:00Z".to_string(),
        "linux".to_string(),
    );
    s2.set_previous_backup(&s1).unwrap();
    s2.finalize_chain_hash();

    let mut s3 = Manifest::new(
        "snap-3".to_string(),
        "2024-01-03T00:00:00Z".to_string(),
        "linux".to_string(),
    );
    s3.set_previous_backup(&s2).unwrap();
    s3.finalize_chain_hash();

    assert_eq!(s3.previous_backup_hash, s2.backup_chain_hash);
    assert_eq!(s2.previous_backup_hash, s1.backup_chain_hash);

    let store = vec![s1, s2, s3];
    assert_eq!(verify_chain_from("snap-3", &store), Ok(true));
    assert_eq!(verify_chain_from("snap-2", &store), Ok(true));
    assert_eq!(verify_chain_from("missing", &store), Err(StoreError::BrokenChain));
}

#[test]
fn test_chain_walk_detects_tampering() {
    let mut s1 = Manifest::new(
        "snap-1".to_string(),
        "2024-01-01T00:00:00Z".to_string(),
        "linux".to_string(),
    );
    s1.finalize_chain_hash();

    let mut s2 = Manifest::new(
        "snap-2".to_string(),
        "2024-01-02T00:00:00Z".to_string(),
        "linux".to_string(),
    );
    s2.set_previous_backup(&s1).unwrap();
    s2.finalize_chain_hash();

    // Alter the first snapshot after the chain was built.
    s1.os_source = "windows".to_string();

    let store = vec![s1, s2];
    assert_eq!(verify_chain_from("snap-2", &store), Ok(false));
}

#[test]
fn test_set_previous_backup_requires_finalized() {
    let never_saved = Manifest::new(
        "snap-0".to_string(),
        "2024-01-01T00:00:00Z".to_string(),
        "linux".to_string(),
    );
    let mut next = Manifest::new(
        "snap-1".to_string(),
        "2024-01-02T00:00:00Z".to_string(),
        "linux".to_string(),
    );
    assert_eq!(next.set_previous_backup(&never_saved), Err(StoreError::BrokenChain));
}

#[test]
fn test_chunked_compression_round_trip() {
    // Force the parallel chunked path with a small chunk size, and check
    // that the concatenated frames decode back to the input in one pass.
    let config = PerformanceConfig::custom(Some(4), Some(1024), Some(3));
    let mut config = config;
    config.io_buffer_size = 1024;
    config.chunk_size = 4096;
    assert!(config.validate().is_ok());

    let data: Vec<u8> = (0..40000u32).map(|i| (i % 251) as u8).collect();
    assert!(config.should_use_parallel(data.len()));
    let compressed = saveconfig::compress::compress_chunked(&data, &config, 1024).unwrap();
    let restored = saveconfig::compress::decompress_payload(&compressed).unwrap();
    assert_eq!(restored, data);
}

#[test]
fn test_batch_ingest_and_restore() {
    let mut manifest = fresh_manifest("snap-batch");
    let mut chain = BlobChainManager::new("/tmp/store".to_string(), "snap-batch".to_string());
    let config = PerformanceConfig::balanced();
    let none: Vec<Manifest> = Vec::new();
    let mut metrics = PerformanceMetrics::new();

    let files = vec![
        FileInput {
            name: "one.txt".to_string(),
            logical_path: "/one.txt".to_string(),
            data: b"first file".to_vec(),
            target_hint: "app:one".to_string(),
        },
        FileInput {
            name: "two.txt".to_string(),
            logical_path: "/two.txt".to_string(),
            data: b"second file".to_vec(),
            target_hint: "app:two".to_string(),
        },
        FileInput {
            name: "one.txt".to_string(),
            logical_path: "/copy/one.txt".to_string(),
            data: b"first file".to_vec(),
            target_hint: "app:three".to_string(),
        },
    ];
    let outcomes = manifest
        .create_blobs_from_files_batch(&mut chain, &config, &none, &files, &mut metrics)
        .unwrap();

    assert_eq!(outcomes.len(), 3);
    assert!(!outcomes[0].reused);
    assert!(!outcomes[1].reused);
    assert!(outcomes[2].reused);
    assert_eq!(outcomes[2].blob_id, outcomes[0].blob_id);
    assert_eq!(metrics.get_stats().files_processed, 3);
    assert_eq!(metrics.get_stats().dedup_saves, 1);
    assert!(manifest.verify_blob_chain_integrity(&chain).unwrap());

    let restored = manifest.restore_blobs_batch(&manifest.entries).unwrap();
    assert_eq!(restored.len(), 3);
    match &restored[1] {
        RestoredContent::File(d) => assert_eq!(d, b"second file"),
        RestoredContent::Tree(_) => panic!("expected a file"),
    }
}

#[test]
fn test_restore_rejects_malformed_streams() {
    let mut manifest = fresh_manifest("snap-1");

    // A tar-format blob whose payload is no tar archive.
    let not_tar = saveconfig::blob::BlobPayload::new("tar".to_string(), &[1u8; 600]);
    manifest.add_blob_for_testing("not-tar".to_string(), not_tar);
    let entry = Entry {
        blob_id: "not-tar".to_string(),
        target_hint: "app:x".to_string(),
        logical_path: "/x".to_string(),
        tar_member: None,
    };
    assert_eq!(manifest.restore_blob_to(&entry), Err(StoreError::Pack));

    // A tar.zst blob whose payload is no zstd stream.
    let not_zstd = saveconfig::blob::BlobPayload::new("tar.zst".to_string(), b"plainly not zstd");
    manifest.add_blob_for_testing("not-zstd".to_string(), not_zstd);
    let entry = Entry {
        blob_id: "not-zstd".to_string(),
        target_hint: "app:x".to_string(),
        logical_path: "/x".to_string(),
        tar_member: None,
    };
    assert_eq!(manifest.restore_blob_to(&entry), Err(StoreError::Decompression));
}

#[test]
fn test_unclean_member_names_rejected() {
    // The tar writer canonicalizes `.` components and doubled slashes,
    // so such member names are refused before packaging.
    let mut manifest = fresh_manifest("snap-1");
    let mut chain = BlobChainManager::new("/tmp/store".to_string(), "snap-1".to_string());
    let config = PerformanceConfig::balanced();
    let none: Vec<Manifest> = Vec::new();

    for bad in ["./a.txt", "a//b.txt", "", "/abs.txt", "trail/", "a/../b.txt", "."] {
        let r = manifest.create_blob_from_file(
            &mut chain,
            &config,
            &none,
            bad,
            "/x",
            b"data",
            "app:x",
        );
        assert_eq!(r.err(), Some(StoreError::Pack), "{bad}");
    }
    assert_eq!(manifest.entries.len(), 0);

    let ok = manifest.create_blob_from_file(
        &mut chain,
        &config,
        &none,
        "plain.txt",
        "/x",
        b"data",
        "app:x",
    );
    assert!(ok.is_ok());

    let dirs = vec!["sub/./x".to_string()];
    let files: Vec<(String, Vec<u8>)> = Vec::new();
    let r = manifest.create_blob_from_directory(
        &mut chain,
        &config,
        &none,
        &dirs,
        &files,
        "/tree",
        "app:x",
    );
    assert_eq!(r.err(), Some(StoreError::Pack));
}

#[test]
fn test_validate_store() {
    let mut good = fresh_manifest("snap-1");
    let blob = saveconfig::blob::BlobPayload::new("tar.zst".to_string(), b"payload");
    let id = blob.get_sha256().to_string();
    good.add_blob_for_testing(id.clone(), blob.clone());
    good.entries.push(Entry {
        blob_id: id.clone(),
        target_hint: "app:x".to_string(),
        logical_path: "/x".to_string(),
        tar_member: None,
    });
    let other = Manifest::new(
        "snap-2".to_string(),
        "2024-01-02T00:00:00Z".to_string(),
        "linux".to_string(),
    );
    assert!(saveconfig::pipeline::validate_store(&vec![good.clone(), other.clone()]));

    // Duplicate snapshot names are refused.
    let twin = good.clone();
    assert!(!saveconfig::pipeline::validate_store(&vec![good.clone(), twin]));

    // A blob keyed by something other than its content hash is refused.
    let mut mislabeled = other.clone();
    mislabeled.add_blob_for_testing("not-the-hash".to_string(), blob);
    assert!(!saveconfig::pipeline::validate_store(&vec![good.clone(), mislabeled]));

    // An entry naming an absent blob is refused.
    let mut dangling = other;
    dangling.entries.push(Entry {
        blob_id: "absent".to_string(),
        target_hint: "app:x".to_string(),
        logical_path: "/x".to_string(),
        tar_member: None,
    });
    assert!(!saveconfig::pipeline::validate_store(&vec![good, dangling]));
}

#[test]
fn test_order_files_for_pack() {
    let files = vec![
        FileInput {
            name: "small.txt".to_string(),
            logical_path: "/small.txt".to_string(),
            data: b"a".to_vec(),
            target_hint: "app:x".to_string(),
        },
        FileInput {
            name: "large.txt".to_string(),
            logical_path: "/large.txt".to_string(),
            data: b"aaaaaaaa".to_vec(),
            target_hint: "app:x".to_string(),
        },
        FileInput {
            name: "mid.txt".to_string(),
            logical_path: "/mid.txt".to_string(),
            data: b"aaaa".to_vec(),
            target_hint: "app:x".to_string(),
        },
    ];
    let ordered = saveconfig::pipeline::order_files_for_pack(files);
    assert_eq!(ordered.len(), 3);
    assert_eq!(ordered[0].name, "large.txt");
    assert_eq!(ordered[1].name, "mid.txt");
    assert_eq!(ordered[2].name, "small.txt");
}
