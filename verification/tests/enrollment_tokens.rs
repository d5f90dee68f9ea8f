use microtak_server::enrollment_tokens::{
    random_token, EnrollmentTokenError, EnrollmentTokenStore, TokenEvent,
};
use microtak_server::eventlog::EventLogError;
use microtak_server::random::secret_text;

#[test]
fn mints_a_usable_token() {
    let mut store = EnrollmentTokenStore::in_memory();
    let token = store.mint(None, None, 1_000).unwrap();
    assert_eq!(token.len(), 64, "expected a 256-bit hex token");
    store.validate_and_consume(&token, "device-a", 1_100).unwrap();
}

#[test]
fn two_mints_produce_different_tokens() {
    let mut store = EnrollmentTokenStore::in_memory();
    let a = store.mint(None, None, 1_000).unwrap();
    let b = store.mint(None, None, 1_000).unwrap();
    assert_ne!(a, b);
}

#[test]
fn a_token_can_only_be_used_once() {
    let mut store = EnrollmentTokenStore::in_memory();
    let token = store.mint(None, None, 1_000).unwrap();
    store.validate_and_consume(&token, "device-a", 1_100).unwrap();

    let result = store.validate_and_consume(&token, "device-b", 1_200);
    assert!(matches!(result, Err(EnrollmentTokenError::AlreadyUsed)));
}

#[test]
fn unknown_token_is_rejected() {
    let mut store = EnrollmentTokenStore::in_memory();
    let result = store.validate_and_consume("not-a-real-token", "device-a", 1_000);
    assert!(matches!(result, Err(EnrollmentTokenError::NotFound)));
}

#[test]
fn a_revoked_token_cannot_be_used_even_if_never_consumed() {
    let mut store = EnrollmentTokenStore::in_memory();
    let token = store.mint(None, None, 1_000).unwrap();
    store.revoke(&token).unwrap();

    let result = store.validate_and_consume(&token, "device-a", 1_100);
    assert!(matches!(result, Err(EnrollmentTokenError::Revoked)));
}

#[test]
fn an_expired_token_is_rejected() {
    let mut store = EnrollmentTokenStore::in_memory();
    let token = store.mint(Some(60), None, 1_000).unwrap(); // expires at 1060
    let result = store.validate_and_consume(&token, "device-a", 1_060);
    assert!(matches!(result, Err(EnrollmentTokenError::Expired)));
}

#[test]
fn a_token_just_before_its_expiry_is_still_usable() {
    let mut store = EnrollmentTokenStore::in_memory();
    let token = store.mint(Some(60), None, 1_000).unwrap(); // expires at 1060
    store.validate_and_consume(&token, "device-a", 1_059).unwrap();
}

#[test]
fn list_reflects_mint_and_consumption_state() {
    let mut store = EnrollmentTokenStore::in_memory();
    let token = store.mint(None, Some("for jz_pixel".to_string()), 1_000).unwrap();
    store.validate_and_consume(&token, "jz_pixel", 1_100).unwrap();

    let all = store.list();
    assert_eq!(all.len(), 1);
    assert_eq!(all[0].note.as_deref(), Some("for jz_pixel"));
    assert!(all[0].used);
    assert_eq!(all[0].used_by_common_name.as_deref(), Some("jz_pixel"));
    assert_eq!(all[0].used_at_unix, Some(1_100));
}

#[test]
fn revoking_unknown_token_errors() {
    let mut store = EnrollmentTokenStore::in_memory();
    assert!(matches!(
        store.revoke("nonexistent"),
        Err(EnrollmentTokenError::NotFound)
    ));
}

#[test]
fn enrollment_tokens_persists_across_reload() {
    let mut log: Vec<TokenEvent> = Vec::new();
    let mut store = EnrollmentTokenStore::in_memory();
    let token = random_token().unwrap();
    log.push(EnrollmentTokenStore::propose_mint(&token, None, None, 1_000));
    store.apply_event(&log[0]);
    log.push(store.propose_consume(&token, "device-a", 1_100).unwrap());

    let parsed = log.into_iter().enumerate().map(|(i, event)| (i + 1, Ok(event))).collect();
    let mut reloaded = EnrollmentTokenStore::load_or_create("tokens.log", parsed).unwrap();
    let result = reloaded.validate_and_consume(&token, "device-b", 1_200);
    assert!(
        matches!(result, Err(EnrollmentTokenError::AlreadyUsed)),
        "a reloaded store must remember the token was already consumed"
    );
}

#[test]
fn list_is_in_the_order_of_minting_times() {
    let mut store = EnrollmentTokenStore::in_memory();
    store.mint(None, Some("third".to_string()), 3_000).unwrap();
    store.mint(None, Some("first".to_string()), 1_000).unwrap();
    store.mint(Some(5), Some("second".to_string()), 2_000).unwrap();
    let notes: Vec<String> = store.list().into_iter().map(|t| t.note.unwrap()).collect();
    assert_eq!(notes, vec!["first", "second", "third"]);
    assert_eq!(store.list()[1].expires_at_unix, Some(2_005));
}

#[test]
fn a_revocation_is_reported_before_a_use_and_a_use_before_an_expiry() {
    let mut store = EnrollmentTokenStore::in_memory();
    let token = store.mint(Some(10), None, 1_000).unwrap();
    store.validate_and_consume(&token, "device-a", 1_001).unwrap();
    let used = store.find(&token).unwrap();
    assert!(matches!(used.is_usable_at(9_999), Err(EnrollmentTokenError::AlreadyUsed)));
    store.revoke(&token).unwrap();
    let revoked = store.find(&token).unwrap();
    assert!(matches!(revoked.is_usable_at(9_999), Err(EnrollmentTokenError::Revoked)));
}

#[test]
fn a_token_whose_use_was_not_logged_stays_good() {
    let mut store = EnrollmentTokenStore::in_memory();
    let token = store.mint(None, None, 1_000).unwrap();
    let event = store.propose_consume(&token, "device-a", 1_100).unwrap();
    let failed = EventLogError::Open { path: "t.log".to_string(), source: "gone".to_string() };
    let error = store.commit(&event, Err(failed)).unwrap_err();
    assert_eq!(error.message(), "event log error: failed to open event log t.log: gone");
    store.validate_and_consume(&token, "device-a", 1_200).unwrap();
}

#[test]
fn errors_say_what_is_wrong() {
    assert_eq!(EnrollmentTokenError::NotFound.message(), "unknown enrollment token");
    assert_eq!(EnrollmentTokenError::AlreadyUsed.message(), "enrollment token has already been used");
    assert_eq!(EnrollmentTokenError::Revoked.message(), "enrollment token has been revoked");
    assert_eq!(EnrollmentTokenError::Expired.message(), "enrollment token has expired");
    assert_eq!(EnrollmentTokenError::NoRandomness.message(), "OS RNG must be available");
}

#[test]
fn a_secret_is_the_drawn_bytes_in_hexadecimal() {
    assert_eq!(secret_text(Some(vec![0x00, 0x0f, 0xa5, 0xff])).as_deref(), Some("000fa5ff"));
    assert_eq!(secret_text(Some(Vec::new())).as_deref(), Some(""));
    assert_eq!(secret_text(None), None);
    assert_eq!(random_token().unwrap().len(), 64);
}
