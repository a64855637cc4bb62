use modelwire_server::config::ProviderConfig;
use modelwire_server::error::ErrorKind;
use modelwire_server::runtime_config::{
    config_with_encrypted_managed_keys, seed_failed, seed_next, seed_start, SeedStep,
};
use modelwire_server::secrets::{
    decrypt_managed_key, encrypt_managed_key, encrypt_with_nonce, split_sealed, text_of_opened,
    PREFIX,
};

#[test]
fn managed_key_roundtrip() {
    let secret = "enc-master-secret";
    let plaintext = "sk-managed-123";
    let ciphertext = encrypt_managed_key(plaintext, secret).unwrap();
    assert!(ciphertext.starts_with(PREFIX));
    assert_ne!(ciphertext, plaintext);
    let restored = decrypt_managed_key(&ciphertext, secret).unwrap();
    assert_eq!(restored, plaintext);
}

#[test]
fn sealing_depends_on_the_nonce_and_the_secret() {
    let one = encrypt_with_nonce("sk", "secret", vec![1; 12]).unwrap();
    let again = encrypt_with_nonce("sk", "secret", vec![1; 12]).unwrap();
    let other = encrypt_with_nonce("sk", "secret", vec![2; 12]).unwrap();
    let third = encrypt_with_nonce("sk", "secret2", vec![1; 12]).unwrap();
    assert_eq!(one, again);
    assert_ne!(one, other);
    assert_ne!(one, third);
    // Nonce, two bytes of text and a tag of sixteen make forty characters of base64.
    assert_eq!(one.len(), PREFIX.len() + 40);
    assert!(one.starts_with("mwenc:v1:AQEBAQEBAQEBAQEB"));
}

#[test]
fn unreadable_keys_are_reported() {
    let sealed = encrypt_managed_key("sk", "secret").unwrap();
    let error = decrypt_managed_key(&sealed, "other").unwrap_err();
    assert_eq!(error.kind, ErrorKind::InternalError);
    assert_eq!(error.message, "Managed key decryption failed");
    for text in ["sk-plain", "mwenc:v1:***", "mwenc:v1:AQEBAQEBAQEBAQEB"] {
        let error = decrypt_managed_key(text, "secret").unwrap_err();
        assert_eq!(error.message, "Invalid managed key ciphertext");
    }
    let (nonce, payload) = split_sealed(Some(vec![7; 13])).unwrap();
    assert_eq!(nonce, vec![7; 12]);
    assert_eq!(payload, vec![7]);
    assert!(split_sealed(Some(vec![7; 12])).is_err());
    assert_eq!(
        text_of_opened(Some(vec![0xff])).unwrap_err().message,
        "Managed key plaintext is not UTF-8"
    );
    assert_eq!(text_of_opened(Some(b"sk".to_vec())).unwrap(), "sk");
}

fn provider(auth_mode: &str, api_key: Option<&str>) -> ProviderConfig {
    ProviderConfig {
        id: "managed-provider".to_string(),
        name: "Managed Provider".to_string(),
        base_url: "https://api.example.com/v1".to_string(),
        auth_mode: auth_mode.to_string(),
        default_wire_api: "responses".to_string(),
        state_scope: Some("scope-a".to_string()),
        api_key: api_key.map(|key| key.to_string()),
        allow_private_ips: false,
        skip_ssrf_validation: false,
        config_json: None,
    }
}

#[test]
fn seeded_managed_keys_are_sealed() {
    let secret = "seed-managed-key-secret";
    let sealed_before = encrypt_managed_key("sk-old", secret).unwrap();
    let providers = vec![
        provider("managed", Some("sk-seed-secret")),
        provider("managed", None),
        provider("pass_authorization", Some("sk-plain")),
        provider("managed", Some(&sealed_before)),
    ];
    let seeded = config_with_encrypted_managed_keys(&providers, Some(secret)).unwrap();
    let key = seeded[0].api_key.as_deref().unwrap();
    assert!(key.starts_with("mwenc:v1:"));
    assert_eq!(decrypt_managed_key(key, secret).unwrap(), "sk-seed-secret");
    assert_eq!(seeded[1].api_key, None);
    assert_eq!(seeded[2].api_key.as_deref(), Some("sk-plain"));
    assert_eq!(seeded[3].api_key.as_deref(), Some(sealed_before.as_str()));
    assert_eq!(seeded[0].id, "managed-provider");

    let unsealed = config_with_encrypted_managed_keys(&providers, None).unwrap();
    assert_eq!(unsealed[0].api_key.as_deref(), Some("sk-seed-secret"));
}

#[test]
fn stores_are_seeded_once() {
    assert!(matches!(seed_start(0, 0), SeedStep::Done));
    assert!(matches!(seed_start(1, 0), SeedStep::CountRoutes));
    assert!(matches!(
        seed_next(SeedStep::CountRoutes, Ok(1)).unwrap(),
        SeedStep::Done
    ));
    assert!(matches!(
        seed_next(SeedStep::CountRoutes, Ok(0)).unwrap(),
        SeedStep::LockAndCountRoutes
    ));
    assert!(matches!(
        seed_next(SeedStep::LockAndCountRoutes, Ok(0)).unwrap(),
        SeedStep::Seed
    ));
    assert!(matches!(
        seed_next(SeedStep::LockAndCountRoutes, Ok(3)).unwrap(),
        SeedStep::Done
    ));
    let error = seed_next(SeedStep::CountRoutes, Err("gone".to_string())).unwrap_err();
    assert_eq!(error.kind, ErrorKind::InternalError);
    assert_eq!(error.message, "Failed to read runtime config state: gone");
    assert_eq!(
        seed_failed("full").message,
        "Failed to seed runtime config from file config: full"
    );
}

#[test]
fn sealed_keys_have_a_known_length() {
    for (plaintext, length) in [("", 49), ("a", 49), ("ab", 49), ("abc", 53), ("\u{e9}\u{e9}", 53)] {
        assert_eq!(encrypt_managed_key(plaintext, "secret").unwrap().len(), length);
    }
}
