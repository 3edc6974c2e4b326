use agentbed::digest::{manifest_digest, operation_domain, OperationDigest, OPERATION_DOMAIN_V1, OPERATION_DOMAIN_V2};
use agentbed::json::{canonical_text, JsonValue};
use agentbed::protocol::{PROTOCOL_VERSION_V1, PROTOCOL_VERSION_V2};
use sha2::{Digest as _, Sha256};

fn empty() -> JsonValue {
    JsonValue::Object(Vec::new())
}

fn obj(members: Vec<(&str, JsonValue)>) -> JsonValue {
    JsonValue::Object(members.into_iter().map(|(k, v)| (k.to_owned(), v)).collect())
}

#[test]
fn the_v2_domain_separator_is_the_frozen_string() {
    assert_eq!(&OPERATION_DOMAIN_V2, b"agentbed.operation.v2\0");
}

#[test]
fn the_v1_domain_separator_is_the_frozen_string() {
    assert_eq!(&OPERATION_DOMAIN_V1, b"agentbed.operation.v1\0");
    assert_eq!(operation_domain(PROTOCOL_VERSION_V1).unwrap(), b"agentbed.operation.v1\0".to_vec());
    assert!(operation_domain(3).is_err());
}

#[test]
fn matches_the_frozen_v1_construction_byte_for_byte() {
    let computed = OperationDigest::of(PROTOCOL_VERSION_V1, "system.info", 1, &empty()).unwrap();
    let expected_canonical = br#"{"arguments":{},"operation":"system.info","operation_version":1}"#;
    assert_eq!(computed.canonical_bytes(), expected_canonical);

    let mut hasher = Sha256::new();
    hasher.update(b"agentbed.operation.v1\0");
    hasher.update(expected_canonical);
    let expected: [u8; 32] = hasher.finalize().into();
    assert_eq!(computed.digest().bytes, expected);
}

#[test]
fn the_domain_separator_actually_separates() {
    let computed = OperationDigest::of(PROTOCOL_VERSION_V1, "system.info", 1, &empty()).unwrap();
    let undomained: [u8; 32] = Sha256::digest(computed.canonical_bytes()).into();
    assert_ne!(computed.digest().bytes, undomained);

    let as_manifest = manifest_digest(&obj(vec![
        ("arguments", empty()),
        ("operation", JsonValue::Str("system.info".to_owned())),
        ("operation_version", JsonValue::Int(1)),
    ]))
    .unwrap();
    assert_ne!(computed.digest().bytes, as_manifest.bytes);
}

#[test]
fn operation_version_changes_the_digest() {
    let v1 = OperationDigest::of(PROTOCOL_VERSION_V1, "system.info", 1, &empty()).unwrap();
    let v2 = OperationDigest::of(PROTOCOL_VERSION_V1, "system.info", 2, &empty()).unwrap();
    assert_ne!(v1.digest().bytes, v2.digest().bytes);
}

#[test]
fn operation_name_changes_the_digest() {
    let info = OperationDigest::of(PROTOCOL_VERSION_V1, "system.info", 1, &empty()).unwrap();
    let other = OperationDigest::of(PROTOCOL_VERSION_V1, "system.reboot", 1, &empty()).unwrap();
    assert_ne!(info.digest().bytes, other.digest().bytes);
}

#[test]
fn arguments_are_canonicalized_not_echoed() {
    let a = OperationDigest::of(
        PROTOCOL_VERSION_V1,
        "x.y",
        1,
        &obj(vec![("b", JsonValue::Int(1)), ("a", JsonValue::Int(2))]),
    )
    .unwrap();
    let b = OperationDigest::of(
        PROTOCOL_VERSION_V1,
        "x.y",
        1,
        &obj(vec![("a", JsonValue::Int(2)), ("b", JsonValue::Int(1))]),
    )
    .unwrap();
    assert_eq!(a.digest().bytes, b.digest().bytes);
    assert_eq!(a.canonical_bytes(), b.canonical_bytes());
}

#[test]
fn the_frozen_v1_vector_holds() {
    let computed = OperationDigest::of(PROTOCOL_VERSION_V1, "system.info", 1, &empty()).unwrap();
    assert_eq!(
        computed.digest().to_text(),
        "sha256:b407fa812a98601a6a123e5f5f5005e6ddd45f98d48bec9189de22c3df5bcbf2"
    );
}

#[test]
fn v1_and_v2_domains_never_share_a_digest() {
    let v1 = OperationDigest::of(PROTOCOL_VERSION_V1, "system.info", 1, &empty()).unwrap();
    let v2 = OperationDigest::of(PROTOCOL_VERSION_V2, "system.info", 1, &empty()).unwrap();
    assert_ne!(v1.digest().bytes, v2.digest().bytes);
    assert_eq!(v1.canonical_bytes(), v2.canonical_bytes());
}

#[test]
fn an_unsupported_protocol_has_no_digest() {
    assert!(OperationDigest::of(7, "system.info", 1, &empty()).is_err());
}

#[test]
fn canonical_text_sorts_keys_escapes_strings_and_writes_integers() {
    let v = obj(vec![
        ("z", JsonValue::Array(vec![JsonValue::Null, JsonValue::Bool(true), JsonValue::Int(-12)])),
        ("a", JsonValue::Str("q\"\\\n\u{1}é".to_owned())),
        ("m", obj(vec![("b", JsonValue::Bool(false)), ("a", JsonValue::Int(0))])),
    ]);
    assert_eq!(
        canonical_text(&v),
        "{\"a\":\"q\\\"\\\\\\n\\u0001é\",\"m\":{\"a\":0,\"b\":false},\"z\":[null,true,-12]}"
    );
    assert_eq!(canonical_text(&JsonValue::Int(i64::MIN)), "-9223372036854775808");
}

#[test]
fn keys_sort_by_utf16_code_units() {
    // U+FF21 sorts after U+1F600 by UTF-16 units (0xD83D < 0xFF21) though not by code point.
    let v = obj(vec![("\u{FF21}", JsonValue::Int(1)), ("\u{1F600}", JsonValue::Int(2))]);
    assert_eq!(canonical_text(&v), "{\"\u{1F600}\":2,\"\u{FF21}\":1}");
}

#[test]
fn reordering_members_anywhere_keeps_the_canonical_text() {
    let inner_a = obj(vec![("y", JsonValue::Int(1)), ("x", JsonValue::Null)]);
    let inner_b = obj(vec![("x", JsonValue::Null), ("y", JsonValue::Int(1))]);
    let a = obj(vec![("k", inner_a), ("b", JsonValue::Bool(true)), ("a", JsonValue::Array(vec![]))]);
    let b = obj(vec![("a", JsonValue::Array(vec![])), ("k", inner_b), ("b", JsonValue::Bool(true))]);
    assert_eq!(canonical_text(&a), canonical_text(&b));
    assert_eq!(canonical_text(&a), "{\"a\":[],\"b\":true,\"k\":{\"x\":null,\"y\":1}}");
}
