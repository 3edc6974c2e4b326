use agentbed::identity::{decode_hex32, hex, AuthError, Enrollment, TokenEntry, TokenStore, MIN_TOKEN_CHARS};
use sha2::{Digest as _, Sha256};

const TOKEN_A: &str = "aaaaaaaaaaaaaaaaaaaaaaaaaaaaaa";
const TOKEN_B: &str = "bbbbbbbbbbbbbbbbbbbbbbbbbbbbbb";

fn store() -> TokenStore {
    TokenStore::from_pairs(vec![
        ("agent-a".to_owned(), "a.yaml".to_owned(), TOKEN_A.to_owned()),
        ("agent-b".to_owned(), "b.yaml".to_owned(), TOKEN_B.to_owned()),
    ])
    .expect("store builds")
}

fn sha_hex(token: &str) -> String {
    let h: [u8; 32] = Sha256::digest(token.as_bytes()).into();
    hex(&h)
}

#[test]
fn resolves_each_token_to_its_own_identity() {
    let store = store();
    assert_eq!(store.resolve(TOKEN_A).unwrap().agent_id(), "agent-a");
    assert_eq!(store.resolve(TOKEN_B).unwrap().agent_id(), "agent-b");
}

#[test]
fn refuses_unknown_short_and_empty_tokens() {
    let store = store();
    assert_eq!(store.resolve("cccccccccccccccccccccccccccccc"), Err(AuthError::UnknownToken));
    assert_eq!(store.resolve(""), Err(AuthError::UnknownToken));
    assert_eq!(store.resolve("short"), Err(AuthError::UnknownToken));
}

#[test]
fn refuses_revoked_and_expired_entries() {
    let store = TokenStore::from_entries(vec![
        TokenEntry {
            agent_id: "revoked-agent".to_owned(),
            manifest_ref: "a.yaml".to_owned(),
            token_sha256: sha_hex(TOKEN_A),
            revoked: true,
            expires_at_unix: None,
        },
        TokenEntry {
            agent_id: "expired-agent".to_owned(),
            manifest_ref: "b.yaml".to_owned(),
            token_sha256: sha_hex(TOKEN_B),
            revoked: false,
            expires_at_unix: Some(1),
        },
    ])
    .expect("store parses");
    assert_eq!(store.resolve(TOKEN_A), Err(AuthError::Revoked));
    assert_eq!(store.resolve(TOKEN_B), Err(AuthError::Expired));
}

#[test]
fn refuses_to_enrol_a_low_entropy_token() {
    let result = TokenStore::from_pairs(vec![("a".to_owned(), "a.yaml".to_owned(), "hunter2".to_owned())]);
    assert!(result.is_err());
}

#[test]
fn identity_cannot_be_constructed_without_a_token() {
    let store = store();
    let ctx = store.resolve(TOKEN_A).unwrap();
    assert_eq!(ctx.manifest_ref(), "a.yaml");
}

#[test]
fn the_short_token_message_names_the_agent() {
    let err = TokenStore::from_pairs(vec![("shorty".to_owned(), "a.yaml".to_owned(), "x".to_owned())]).err();
    assert_eq!(err.as_deref(), Some("token for shorty is shorter than 26 characters"));
    assert_eq!(MIN_TOKEN_CHARS, 26);
}

#[test]
fn expiry_is_checked_against_the_given_time() {
    let store = TokenStore::from_enrollments(vec![Enrollment {
        agent_id: "e".to_owned(),
        manifest_ref: "e.yaml".to_owned(),
        token: TOKEN_A.to_owned(),
        revoked: false,
        expires_at_unix: Some(1000),
    }])
    .unwrap();
    assert_eq!(store.resolve_at(TOKEN_A, 999).unwrap().agent_id(), "e");
    assert_eq!(store.resolve_at(TOKEN_A, 1000), Err(AuthError::Expired));
    assert_eq!(store.len(), 1);
    assert!(!store.is_empty());
}

#[test]
fn a_later_enrollment_of_the_same_token_replaces_the_earlier() {
    let store = TokenStore::from_pairs(vec![
        ("first".to_owned(), "1.yaml".to_owned(), TOKEN_A.to_owned()),
        ("second".to_owned(), "2.yaml".to_owned(), TOKEN_A.to_owned()),
    ])
    .unwrap();
    assert_eq!(store.len(), 1);
    assert_eq!(store.resolve(TOKEN_A).unwrap().agent_id(), "second");
}

#[test]
fn token_files_refuse_bad_and_repeated_hashes() {
    let entry = |agent: &str, hash: String| TokenEntry {
        agent_id: agent.to_owned(),
        manifest_ref: "m.yaml".to_owned(),
        token_sha256: hash,
        revoked: false,
        expires_at_unix: None,
    };
    let err = TokenStore::from_entries(vec![entry("bad", "abc".to_owned())]).err();
    assert_eq!(err.as_deref(), Some("token hash for bad is not 32 hex bytes"));
    let err = TokenStore::from_entries(vec![entry("one", sha_hex(TOKEN_A)), entry("two", sha_hex(TOKEN_A))]).err();
    assert_eq!(err.as_deref(), Some("two entries share a token hash"));
    let ok = TokenStore::from_entries(vec![entry("one", sha_hex(TOKEN_A).to_uppercase())]).unwrap();
    assert_eq!(ok.resolve(TOKEN_A).unwrap().agent_id(), "one");
}

#[test]
fn hex_decoding_reads_pairs_as_from_str_radix_does() {
    let text = "00".repeat(31) + "ff";
    let bytes = decode_hex32(&text).unwrap();
    assert_eq!(bytes[31], 0xff);
    assert_eq!(bytes[0], 0);
    let plus = "+a".repeat(32);
    assert_eq!(decode_hex32(&plus).unwrap(), [10u8; 32]);
    assert!(decode_hex32(&"zz".repeat(32)).is_none());
    assert!(decode_hex32(&"0".repeat(63)).is_none());
    assert_eq!(hex(&[0xab; 32]), "ab".repeat(32));
}

#[test]
fn a_revoked_later_enrolment_decides() {
    let store = TokenStore::from_enrollments(vec![
        Enrollment { agent_id: "a".to_owned(), manifest_ref: "a.yaml".to_owned(), token: TOKEN_A.to_owned(), revoked: false, expires_at_unix: None },
        Enrollment { agent_id: "a".to_owned(), manifest_ref: "a.yaml".to_owned(), token: TOKEN_A.to_owned(), revoked: true, expires_at_unix: None },
    ])
    .unwrap();
    assert_eq!(store.resolve_at(TOKEN_A, 0), Err(AuthError::Revoked));
}
