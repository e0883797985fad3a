use streaminfa::common::auth::{
    fast_key_hash, AuthProvider, ClientIp, IngestKeyStore, TokenStatus,
};
use streaminfa::common::config::AuthConfig;
use streaminfa::common::error::IngestError;
use streaminfa::common::types::StreamId;

fn empty_auth_config() -> AuthConfig {
    AuthConfig {
        ingest_stream_keys: Vec::new(),
        admin_bearer_tokens: Vec::new(),
    }
}

#[test]
fn test_resolve_stream_id_for_bound_key() {
    let mut provider = AuthProvider::new(&empty_auth_config());
    let stream_id = StreamId::new();
    let (key, _hash) = provider
        .generate_stream_key_for_stream(Some(stream_id))
        .unwrap();

    let resolved = provider.resolve_stream_id_for_key(&key);
    assert_eq!(resolved, Some(stream_id));
}

#[test]
fn test_resolve_stream_id_for_unbound_key() {
    let mut provider = AuthProvider::new(&empty_auth_config());
    let (key, _hash) = provider.generate_stream_key().unwrap();

    let resolved = provider.resolve_stream_id_for_key(&key);
    assert_eq!(resolved, None);
}

#[test]
fn test_rotate_stream_key_for_stream_invalidates_old_keys() {
    let mut provider = AuthProvider::new(&empty_auth_config());
    let stream_id = StreamId::new();
    let (old_key, _old_hash) = provider
        .generate_stream_key_for_stream(Some(stream_id))
        .unwrap();

    let (new_key, _new_hash) = provider.rotate_stream_key_for_stream(stream_id).unwrap();

    assert!(provider.validate_stream_key(&old_key).is_err());
    assert_eq!(provider.resolve_stream_id_for_key(&old_key), None);
    assert!(provider.validate_stream_key(&new_key).is_ok());
    assert_eq!(
        provider.resolve_stream_id_for_key(&new_key),
        Some(stream_id)
    );
}

#[test]
fn test_open_mode_tracks_runtime_token_updates() {
    let mut provider = AuthProvider::new(&empty_auth_config());
    assert!(provider.is_open_mode());

    provider.update_admin_tokens(vec!["at_runtime_token".to_string()]);
    assert!(!provider.is_open_mode());

    provider.update_admin_tokens(Vec::new());
    assert!(provider.is_open_mode());
}

#[test]
fn test_bearer_token_validation_constant_time_path() {
    let provider = AuthProvider::new(&AuthConfig {
        ingest_stream_keys: Vec::new(),
        admin_bearer_tokens: vec!["at_abc123".to_string()],
    });

    assert!(provider.validate_bearer_token("at_abc123"));
    assert!(!provider.validate_bearer_token("at_wrong"));
}

#[test]
fn test_invalid_stream_key_rejected_without_bcrypt() {
    let mut provider = AuthProvider::new(&empty_auth_config());
    let stream_id = StreamId::new();
    let (_valid_key, _hash) = provider
        .generate_stream_key_for_stream(Some(stream_id))
        .unwrap();

    assert!(provider
        .validate_stream_key("sk_totallyinvalidkey1234")
        .is_err());
}

#[test]
fn configured_keys_are_accepted_and_replaced() {
    let mut provider = AuthProvider::new(&AuthConfig {
        ingest_stream_keys: vec!["sk_one".to_string(), "sk_two".to_string()],
        admin_bearer_tokens: Vec::new(),
    });
    assert!(provider.validate_stream_key("sk_one").is_ok());
    assert!(provider.validate_stream_key("sk_two").is_ok());
    match provider.validate_stream_key("sk_three") {
        Err(IngestError::AuthFailed { reason }) => assert_eq!(reason, "invalid stream key"),
        _ => panic!("unknown keys must be refused"),
    }
    provider.update_stream_keys(vec!["sk_three".to_string()]);
    assert!(provider.validate_stream_key("sk_one").is_err());
    assert!(provider.validate_stream_key("sk_three").is_ok());
}

#[test]
fn five_failures_block_an_address_for_a_while() {
    let mut provider = AuthProvider::new(&AuthConfig {
        ingest_stream_keys: vec!["sk_good".to_string()],
        admin_bearer_tokens: Vec::new(),
    });
    let ip = ClientIp::V4(0x7f00_0001);
    let other = ClientIp::V4(0x7f00_0002);
    for i in 0..5 {
        assert!(provider
            .validate_stream_key_with_ip_at("sk_bad", ip, 1_000_000_000 * i)
            .is_err());
    }
    match provider.validate_stream_key_with_ip_at("sk_good", ip, 6_000_000_000) {
        Err(IngestError::AuthFailed { reason }) => {
            assert_eq!(reason, "too many failed attempts, IP temporarily blocked")
        }
        _ => panic!("the address must be blocked"),
    }
    assert!(provider
        .validate_stream_key_with_ip_at("sk_good", other, 6_000_000_000)
        .is_ok());
    assert!(provider
        .validate_stream_key_with_ip_at("sk_good", ip, 400_000_000_000)
        .is_ok());
    provider.cleanup_brute_force_tracker_at(1_000_000_000_000);
    assert!(provider
        .validate_stream_key_with_ip_at("sk_good", ip, 1_000_001_000_000)
        .is_ok());
}

#[test]
fn tokens_are_missing_or_forbidden_or_valid() {
    let provider = AuthProvider::new(&AuthConfig {
        ingest_stream_keys: Vec::new(),
        admin_bearer_tokens: vec!["at_abc123".to_string()],
    });
    assert_eq!(provider.check_bearer_token(None), TokenStatus::Missing);
    assert_eq!(
        provider.check_bearer_token(Some("at_abc12")),
        TokenStatus::Forbidden
    );
    assert_eq!(
        provider.check_bearer_token(Some("at_abc123")),
        TokenStatus::Valid
    );
}

#[test]
fn generated_tokens_have_their_form() {
    let mut provider = AuthProvider::new(&empty_auth_config());
    let (key, hash) = provider.generate_stream_key().unwrap();
    assert!(key.starts_with("sk_"));
    assert_eq!(key.len(), 27);
    assert!(key[3..].chars().all(|c| c.is_ascii_alphanumeric()));
    assert_ne!(key, hash);
    assert!(bcrypt::verify(&key, &hash).unwrap());
    assert!(hash.starts_with("$2b$10$"));
    assert_eq!(hash.len(), 60);

    let (token, _) = provider.generate_admin_token().unwrap();
    assert!(token.starts_with("at_"));
    assert_eq!(token.len(), 35);
    assert!(provider.validate_bearer_token(&token));

    let (replacement, _) = provider.rotate_stream_key(&hash).unwrap();
    assert!(provider.validate_stream_key(&key).is_err());
    assert!(provider.validate_stream_key(&replacement).is_ok());
    assert_ne!(key, replacement);
}

#[test]
fn key_index_depends_on_the_key() {
    assert_eq!(fast_key_hash("sk_a"), fast_key_hash("sk_a"));
    assert_ne!(fast_key_hash("sk_a"), fast_key_hash("sk_b"));
}

#[test]
fn keys_and_tokens_are_kept_once_hashed() {
    let mut provider = AuthProvider::new(&empty_auth_config());
    let stream_id = StreamId::new();
    assert_eq!(
        provider.keep_stream_key("sk_a".to_string(), None, Some(stream_id)),
        None
    );
    assert_eq!(provider.keep_admin_token("at_a".to_string(), None), None);
    assert!(provider.is_open_mode());

    let hash = bcrypt::hash("sk_a", 4).unwrap();
    assert_eq!(
        provider.keep_stream_key("sk_a".to_string(), Some(hash.clone()), Some(stream_id)),
        Some(("sk_a".to_string(), hash))
    );
    assert_eq!(provider.resolve_stream_id_for_key("sk_a"), Some(stream_id));
    assert_eq!(
        provider.keep_admin_token("at_a".to_string(), Some("h".to_string())),
        Some(("at_a".to_string(), "h".to_string()))
    );
    assert!(provider.validate_bearer_token("at_a"));
    assert!(!provider.validate_bearer_token("at_b"));
}

#[test]
fn rotation_leaves_the_keys_of_other_streams() {
    let mut provider = AuthProvider::new(&empty_auth_config());
    let rotated = StreamId::new();
    let other = StreamId::new();
    provider.generate_stream_key_for_stream(Some(rotated)).unwrap();
    let (key, _) = provider.generate_stream_key_for_stream(Some(other)).unwrap();
    provider.rotate_stream_key_for_stream(rotated).unwrap();
    assert!(provider.validate_stream_key(&key).is_ok());
    assert_eq!(provider.resolve_stream_id_for_key(&key), Some(other));
}

#[test]
fn hashed_keys_are_stored_and_others_passed_over() {
    let keys = vec!["a".to_string(), "b".to_string(), "c".to_string()];
    let hash = |k: &str| Some(bcrypt::hash(k, 4).unwrap());
    let all = IngestKeyStore::from_hashed(&keys, vec![hash("a"), hash("b"), hash("c")]);
    for key in &keys {
        assert!(all.accepts_key(key));
    }
    let some = IngestKeyStore::from_hashed(&keys, vec![hash("a"), None, hash("c")]);
    assert!(some.accepts_key("a"));
    assert!(!some.accepts_key("b"));
    assert!(some.accepts_key("c"));
}
