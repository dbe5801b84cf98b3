use agentenv::digest::{request_digest, sha256_hex, valid_digest};
use agentenv::json::Json;

#[test]
fn sixty_four_lower_case_digits_are_a_digest() {
    assert!(valid_digest(&"a".repeat(64)));
    assert!(valid_digest(&"0123456789abcdef".repeat(4)));
    assert!(!valid_digest(&"A".repeat(64)));
    assert!(!valid_digest(&"g".repeat(64)));
    assert!(!valid_digest(&"a".repeat(63)));
    assert!(!valid_digest(&"a".repeat(65)));
    assert!(!valid_digest(&"é".repeat(32)));
    assert!(!valid_digest(""));
}

#[test]
fn the_hash_is_rendered_in_lower_case_digits() {
    assert_eq!(
        sha256_hex(b""),
        "e3b0c44298fc1c149afbf4c8996fb92427ae41e4649b934ca495991b7852b855"
    );
    assert_eq!(
        sha256_hex(b"abc"),
        "ba7816bf8f01cfea414140de5dae2223b00361a396177a9cb410ff61f20015ad"
    );
}

#[test]
fn the_digest_is_that_of_the_compact_text_with_sorted_fields() {
    let request = Json::Object(vec![
        ("b".to_string(), Json::Number(2u32.into())),
        (
            "a".to_string(),
            Json::Array(vec![
                Json::Bool(true),
                Json::Null,
                Json::Text("x".to_string()),
            ]),
        ),
        ("b".to_string(), Json::Number(1u32.into())),
    ]);
    assert_eq!(
        request_digest(request).unwrap(),
        "54a65415ad370228851a1da4b31b6fd42dc58b19a50d35cae759325f7388ce64"
    );
}
