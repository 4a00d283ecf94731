use webgal_craft::digits::{dec_string, hex_string};
use webgal_craft::fingerprints::{content_digest, hash_path, site_id};

#[test]
fn hex_string_zero() {
    assert_eq!(hex_string(0), "0");
}

#[test]
fn hex_string_known_values() {
    assert_eq!(hex_string(255), "ff");
    assert_eq!(hex_string(16), "10");
    assert_eq!(hex_string(3735928559), "deadbeef");
    assert_eq!(hex_string(u64::MAX), "ffffffffffffffff");
}

#[test]
fn dec_string_known_values() {
    assert_eq!(dec_string(0), "0");
    assert_eq!(dec_string(7), "7");
    assert_eq!(dec_string(65535), "65535");
    assert_eq!(dec_string(1000000), "1000000");
}

#[test]
fn hash_path_is_deterministic_hex() {
    let a = hash_path("/some/dir");
    let b = hash_path("/some/dir");
    assert_eq!(a, b);
    assert!(!a.is_empty());
    assert!(a.chars().all(|c| c.is_ascii_hexdigit() && !c.is_ascii_uppercase()));
}

#[test]
fn hash_path_distinguishes_inputs() {
    assert_ne!(hash_path("/some/dir"), hash_path("/some/other"));
}

#[test]
fn site_id_is_deterministic() {
    assert_eq!(site_id("/proj/a"), site_id("/proj/a"));
}

#[test]
fn content_digest_of_empty_input() {
    assert_eq!(
        content_digest(b""),
        "af1349b9f5f9a1a6a0404dea36dcc9499bcb25c9adc112b7cc9a93cae41f3262"
    );
}

#[test]
fn content_digest_tracks_content() {
    let d1 = content_digest(b"hello");
    let d2 = content_digest(b"hello!");
    assert_eq!(d1.len(), 64);
    assert_eq!(d2.len(), 64);
    assert_ne!(d1, d2);
    assert_eq!(d1, content_digest(b"hello"));
}
