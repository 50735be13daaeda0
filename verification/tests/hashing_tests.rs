use freqhole::hashing::{hash_bytes, finish_id, ContentHasher};

#[test]
fn empty_input_has_the_known_digest() {
    // SHA-256 of no bytes, base-64 URL-safe without padding
    assert_eq!(hash_bytes(&[]), "47DEQpj8HBSa-_TImW-5JCeuQeRkm5NMpJWZG3hSuFU");
}

#[test]
fn ids_are_43_characters_of_the_url_safe_alphabet() {
    let id = hash_bytes(b"freqhole");
    assert_eq!(id.len(), 43);
    assert!(id.chars().all(|c| c.is_ascii_alphanumeric() || c == '-' || c == '_'));
}

#[test]
fn same_content_same_id() {
    let a = hash_bytes(b"the same bytes");
    let b = hash_bytes(b"the same bytes");
    assert_eq!(a, b);
}

#[test]
fn one_changed_byte_changes_the_id() {
    let a = hash_bytes(b"the same bytes");
    let b = hash_bytes(b"the same bytez");
    assert_ne!(a, b);
}

#[test]
fn streaming_chunks_matches_the_one_shot_digest() {
    let whole = hash_bytes(b"split me into pieces");
    let mut hasher = ContentHasher::new();
    hasher.update(b"split me ");
    hasher.update(b"into ");
    hasher.update(b"pieces");
    assert_eq!(finish_id(hasher), whole);
}

#[test]
fn streaming_nothing_matches_the_empty_digest() {
    let hasher = ContentHasher::new();
    assert_eq!(finish_id(hasher), hash_bytes(&[]));
}
