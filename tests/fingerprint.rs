use sqlite_ledger::fingerprint::calculate_hash;

#[test]
fn fingerprint_is_md5_in_lower_hex() {
    assert_eq!(
        calculate_hash(&String::new()),
        "d41d8cd98f00b204e9800998ecf8427e"
    );
    assert_eq!(
        calculate_hash(&"abc".to_string()),
        "900150983cd24fb0d6963f7d28e17f72"
    );
}

#[test]
fn fingerprint_is_stable_and_tells_texts_apart() {
    let a = "CREATE TABLE t (id INTEGER)".to_string();
    let b = "CREATE TABLE t (id TEXT)".to_string();
    assert_eq!(calculate_hash(&a), calculate_hash(&a.clone()));
    assert_ne!(calculate_hash(&a), calculate_hash(&b));
    let digest = calculate_hash(&b);
    assert_eq!(digest.len(), 32);
    assert!(digest.chars().all(|c| c.is_ascii_digit() || ('a'..='f').contains(&c)));
}
