use cargo_promote::domain::promote_lock::PromoteLock;

fn contents() -> Vec<Vec<u8>> {
    vec![b"name = \"test\"".to_vec(), b"fn foo() {}".to_vec()]
}

#[test]
fn compute_source_hash_includes_cargo_files() {
    let hash = PromoteLock::compute_source_hash(&contents());
    assert!(hash.starts_with("sha256:"));
    assert_eq!(hash.len(), "sha256:".len() + 64);
}

#[test]
fn source_hash_is_deterministic() {
    let hash1 = PromoteLock::compute_source_hash(&contents());
    let hash2 = PromoteLock::compute_source_hash(&contents());
    assert_eq!(hash1, hash2);
}

#[test]
fn source_hash_of_nothing_is_the_empty_digest() {
    assert_eq!(
        PromoteLock::compute_source_hash(&vec![]),
        "sha256:e3b0c44298fc1c149afbf4c8996fb92427ae41e4649b934ca495991b7852b855"
    );
}

#[test]
fn source_hash_hashes_the_files_one_after_the_other() {
    let split = PromoteLock::compute_source_hash(&vec![b"ab".to_vec(), b"c".to_vec()]);
    let whole = PromoteLock::compute_source_hash(&vec![b"abc".to_vec()]);
    assert_eq!(split, whole);
    assert_eq!(
        whole,
        "sha256:ba7816bf8f01cfea414140de5dae2223b00361a396177a9cb410ff61f20015ad"
    );
    assert_ne!(whole, PromoteLock::compute_source_hash(&vec![b"abd".to_vec()]));
}

#[test]
fn verify_hash_accepts_the_recorded_hash_only() {
    let lock = PromoteLock {
        version: "0.2.0".to_string(),
        source_hash: "sha256:abc123".to_string(),
        bumped_at: "20260531::180000".to_string(),
        entered_pipeline: "develop".to_string(),
    };
    assert!(lock.verify_hash("sha256:abc123").is_ok());
    assert_eq!(
        lock.verify_hash("sha256:ffff").unwrap_err().message(),
        "source hash mismatch: lock says 'sha256:abc123' but current is 'sha256:ffff'"
    );
}

#[test]
fn bump_lock_enters_the_first_branch_stage() {
    let stages = vec!["develop".to_string(), "main".to_string()];
    let lock = PromoteLock::for_bump("0.1.1", "sha256:x".to_string(), "20260601::120000".to_string(), &stages);
    assert_eq!(lock.version, "0.1.1");
    assert_eq!(lock.entered_pipeline, "develop");
    let none = PromoteLock::for_bump("0.1.1", "sha256:x".to_string(), "t".to_string(), &vec![]);
    assert_eq!(none.entered_pipeline, "");
}

#[test]
fn source_hash_is_sha256_prefix_and_64_hex_digits() {
    let hash = PromoteLock::compute_source_hash(&vec![b"abc".to_vec()]);
    assert_eq!(hash.len(), 71);
    assert_eq!(
        hash,
        "sha256:ba7816bf8f01cfea414140de5dae2223b00361a396177a9cb410ff61f20015ad"
    );
}
