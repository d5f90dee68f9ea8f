use microtak_server::eventlog::EventLogError;
use microtak_server::users::{PasswordCheck, UserError, UserEvent, UserStore};

#[test]
fn a_minted_user_authenticates_with_the_right_password() {
    let mut store = UserStore::in_memory();
    store.mint("jz", "correct horse battery staple", 1_000).unwrap();
    assert!(store.authenticate("jz", "correct horse battery staple"));
    assert_eq!(store.check_login("jz", "correct horse battery staple"), PasswordCheck::Matches);
}

#[test]
fn wrong_password_is_rejected() {
    let mut store = UserStore::in_memory();
    store.mint("jz", "correct horse battery staple", 1_000).unwrap();
    assert!(!store.authenticate("jz", "wrong password"));
    assert_eq!(store.check_login("jz", "wrong password"), PasswordCheck::Differs);
}

#[test]
fn unknown_username_is_rejected() {
    let store = UserStore::in_memory();
    assert!(!store.authenticate("nobody", "whatever"));
}

#[test]
fn minting_a_duplicate_username_errors() {
    let mut store = UserStore::in_memory();
    store.mint("jz", "pw1", 1_000).unwrap();
    assert!(matches!(store.mint("jz", "pw2", 1_100), Err(UserError::AlreadyExists)));
}

#[test]
fn a_revoked_user_cannot_authenticate_even_with_the_right_password() {
    let mut store = UserStore::in_memory();
    store.mint("jz", "correct horse battery staple", 1_000).unwrap();
    store.revoke("jz").unwrap();
    assert!(!store.authenticate("jz", "correct horse battery staple"));
}

#[test]
fn revoking_unknown_user_errors() {
    let mut store = UserStore::in_memory();
    assert!(matches!(store.revoke("nobody"), Err(UserError::NotFound)));
}

#[test]
fn passwords_are_never_stored_in_plaintext() {
    let store = UserStore::in_memory();
    let event = store.propose_mint("jz", "correct horse battery staple", 1_000).unwrap();
    match event {
        UserEvent::Created { password_hash: hash, .. } => {
            assert_ne!(hash, "correct horse battery staple");
            assert!(hash.starts_with("$argon2"), "expected a real Argon2 PHC hash, got: {hash}");
        }
        UserEvent::Revoked { .. } => panic!("expected a creation"),
    }
}

#[test]
fn list_reflects_mint_and_revoke_state() {
    let mut store = UserStore::in_memory();
    store.mint("jz", "pw1", 1_000).unwrap();
    store.mint("other", "pw2", 1_100).unwrap();
    store.revoke("jz").unwrap();

    let all = store.list();
    assert_eq!(all.len(), 2);
    assert_eq!(all[0].username, "jz");
    assert!(all[0].revoked);
    assert_eq!(all[1].username, "other");
    assert!(!all[1].revoked);
}

#[test]
fn users_persists_across_reload() {
    let store = UserStore::in_memory();
    let event = store.propose_mint("jz", "correct horse battery staple", 1_000).unwrap();

    let reloaded = UserStore::load_or_create("users.log", vec![(1, Ok(event))]).unwrap();
    assert!(reloaded.authenticate("jz", "correct horse battery staple"));
}

#[test]
fn a_malformed_hash_lets_nobody_in() {
    let event = UserEvent::Created {
        username: "jz".to_string(),
        password_hash: "not a hash".to_string(),
        created_at_unix: 1,
    };
    let store = UserStore::replay(&vec![event]);
    assert!(!store.authenticate("jz", "not a hash"));
    assert_eq!(store.check_login("jz", "not a hash"), PasswordCheck::Failed);
}

#[test]
fn what_the_check_found_decides_who_is_let_in() {
    let mut store = UserStore::in_memory();
    store.mint("jz", "pw", 1_000).unwrap();
    assert!(store.admits("jz", PasswordCheck::Matches));
    assert!(!store.admits("jz", PasswordCheck::Differs));
    assert!(!store.admits("jz", PasswordCheck::Failed));
    assert!(!store.admits("nobody", PasswordCheck::Matches));
    store.revoke("jz").unwrap();
    assert!(!store.admits("jz", PasswordCheck::Matches));
}

#[test]
fn accounts_that_cannot_be_hashed_or_logged_are_not_made() {
    let mut store = UserStore::in_memory();
    assert!(matches!(store.propose_create("jz", None, 1), Err(UserError::Hashing)));
    let event = store.propose_create("jz", Some("h".to_string()), 1).unwrap();
    let failed = EventLogError::Append { path: "u.log".to_string(), source: "full".to_string() };
    let error = store.commit(&event, Err(failed)).unwrap_err();
    assert_eq!(error.message(), "event log error: failed to append to event log u.log: full");
    assert!(store.list().is_empty());
    assert_eq!(UserError::NotFound.message(), "unknown user");
    assert_eq!(UserError::AlreadyExists.message(), "user already exists");
    assert_eq!(UserError::Hashing.message(), "argon2 hashing should not fail");
}

#[test]
fn a_login_needs_the_password_of_an_account_that_was_not_revoked() {
    let mut store = UserStore::in_memory();
    store.mint("a", "pass-a", 1).unwrap();
    store.mint("b", "pass-b", 2).unwrap();
    store.revoke("b").unwrap();
    assert!(store.mint("b", "pass-c", 3).is_err());
    assert!(store.authenticate("a", "pass-a"));
    assert!(!store.authenticate("a", "pass-b"));
    assert!(!store.authenticate("b", "pass-b"));
    assert!(!store.authenticate("b", "pass-c"));
    assert!(!store.authenticate("c", "pass-a"));
}
