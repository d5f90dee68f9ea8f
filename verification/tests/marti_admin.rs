use microtak_server::enrollment_tokens::EnrollmentTokenStore;
use microtak_server::eventlog::EventLogError;
use microtak_server::marti::admin::{
    cert_by_hash, get_cert_by_hash, list_tokens, list_users, mint_token, mint_token_with, mint_user,
    random_password, require_admin, revoke_token, revoke_user, token_minted, token_revoked,
    user_minted, user_revoked, MintTokenRequest, MintUserRequest, MintedToken, MintedUser,
    RequestBody, Step,
};
use microtak_server::marti::reply::{PeerIdentity, Reply};
use microtak_server::pki::{build_csr, fingerprint_sha256_colon_hex, CertificateAuthority};
use microtak_server::registry::DeviceRegistry;
use microtak_server::users::UserStore;

const NOW: i64 = 1_790_000_000;

fn admin() -> Option<String> {
    Some("jz-admin".to_string())
}

fn me(name: &str) -> PeerIdentity {
    PeerIdentity(name.to_string())
}

fn defaults() -> RequestBody<MintTokenRequest> {
    RequestBody::Parsed(MintTokenRequest { expires_in_secs: None, note: None })
}

fn mint(
    tokens: &mut EnrollmentTokenStore,
    who: &str,
    body: RequestBody<MintTokenRequest>,
) -> Reply<MintedToken> {
    match mint_token(&admin(), &me(who), body, NOW) {
        Step::Log(event) => token_minted(tokens, &event, Ok(())),
        Step::Answer(reply) => reply,
    }
}

fn add_user(users: &mut UserStore, who: &str, username: &str, password: Option<&str>) -> Reply<MintedUser> {
    let body = Ok(MintUserRequest {
        username: username.to_string(),
        password: password.map(String::from),
    });
    match mint_user(&admin(), &me(who), users, body, NOW) {
        Step::Log(new) => user_minted(users, new, Ok(())),
        Step::Answer(reply) => reply,
    }
}

#[test]
fn admin_can_mint_list_and_revoke_a_token() {
    let mut tokens = EnrollmentTokenStore::in_memory();
    let token = match mint(&mut tokens, "jz-admin", defaults()) {
        Reply::Body { status, body } => {
            assert_eq!(status, 201);
            body.token
        }
        other => panic!("expected a token, got {other:?}"),
    };
    assert_eq!(token.len(), 64);

    match list_tokens(&admin(), &me("jz-admin"), &tokens) {
        Reply::Body { status, body } => {
            assert_eq!(status, 200);
            assert_eq!(body.len(), 1);
            assert_eq!(body[0].token, token);
        }
        other => panic!("expected a list, got {other:?}"),
    }

    let event = match revoke_token(&admin(), &me("jz-admin"), &tokens, &token) {
        Step::Log(event) => event,
        other => panic!("expected an event, got {other:?}"),
    };
    assert_eq!(token_revoked(&mut tokens, &event, Ok(())).status(), 204);
    assert!(tokens.list()[0].revoked);
}

#[test]
fn non_admin_identity_is_rejected() {
    let mut tokens = EnrollmentTokenStore::in_memory();
    assert_eq!(mint(&mut tokens, "some-other-device", defaults()).status(), 403);
    assert!(tokens.list().is_empty(), "the rejected request must not have minted anything");
}

#[test]
fn no_configured_admin_rejects_every_caller() {
    let tokens = EnrollmentTokenStore::in_memory();
    let reply = list_tokens(&None, &me("anyone"), &tokens);
    assert!(matches!(reply, Reply::Error { status: 403, message }
        if message == "not authorized to use the admin API"));
    assert!(!require_admin(&None, &me("")));
    assert!(require_admin(&admin(), &me("jz-admin")));
}

#[test]
fn revoking_unknown_token_is_404() {
    let tokens = EnrollmentTokenStore::in_memory();
    let step = revoke_token(&admin(), &me("jz-admin"), &tokens, "does-not-exist");
    assert!(matches!(step, Step::Answer(Reply::Error { status: 404, message })
        if message == "unknown enrollment token"));
}

#[test]
fn mint_accepts_expiry_and_note() {
    let mut tokens = EnrollmentTokenStore::in_memory();
    let body = RequestBody::Parsed(MintTokenRequest {
        expires_in_secs: Some(3600),
        note: Some("for jz_pixel".to_string()),
    });
    assert_eq!(mint(&mut tokens, "jz-admin", body).status(), 201);
    let list = tokens.list();
    assert_eq!(list.len(), 1);
    assert_eq!(list[0].expires_at_unix, Some(NOW + 3600));
    assert_eq!(list[0].note.as_deref(), Some("for jz_pixel"));
}

#[test]
fn an_empty_body_mints_with_defaults_and_a_bad_one_is_refused() {
    let mut tokens = EnrollmentTokenStore::in_memory();
    assert_eq!(mint(&mut tokens, "jz-admin", RequestBody::Empty).status(), 201);
    assert_eq!(tokens.list()[0].expires_at_unix, None);
    let reply = mint(&mut tokens, "jz-admin", RequestBody::Malformed("line 1".to_string()));
    assert!(matches!(reply, Reply::Error { status: 400, message }
        if message == "invalid request body: line 1"));
    // Who may not use the surface does not learn about their body.
    assert_eq!(mint(&mut tokens, "x", RequestBody::Malformed("line 1".to_string())).status(), 403);
    let step = mint_token_with(&admin(), &me("jz-admin"), RequestBody::Empty, None, NOW);
    assert!(matches!(step, Step::Answer(Reply::Error { status: 500, .. })));
}

#[test]
fn admin_can_mint_list_and_revoke_a_user() {
    let mut users = UserStore::in_memory();
    let reply = add_user(&mut users, "jz-admin", "alice", Some("correct horse battery staple"));
    assert_eq!(reply.status(), 201);
    assert!(users.authenticate("alice", "correct horse battery staple"));

    match list_users(&admin(), &me("jz-admin"), &users) {
        Reply::Body { status, body } => {
            assert_eq!(status, 200);
            assert_eq!(body.len(), 1);
            assert_eq!(body[0].username, "alice");
        }
        other => panic!("expected a list, got {other:?}"),
    }

    let event = match revoke_user(&admin(), &me("jz-admin"), &users, "alice") {
        Step::Log(event) => event,
        other => panic!("expected an event, got {other:?}"),
    };
    assert_eq!(user_revoked(&mut users, &event, Ok(())).status(), 204);
    assert!(!users.authenticate("alice", "correct horse battery staple"));
}

#[test]
fn mint_user_without_a_password_generates_one() {
    let mut users = UserStore::in_memory();
    let generated_password = match add_user(&mut users, "jz-admin", "bob", None) {
        Reply::Body { status, body } => {
            assert_eq!(status, 201);
            assert_eq!(body.username, "bob");
            body.password
        }
        other => panic!("expected an account, got {other:?}"),
    };
    assert!(!generated_password.is_empty());
    assert_eq!(generated_password.len(), 32);
    assert!(users.authenticate("bob", &generated_password));
    assert_ne!(random_password(), random_password());
}

#[test]
fn non_admin_cannot_manage_users() {
    let mut users = UserStore::in_memory();
    let reply = add_user(&mut users, "some-other-device", "alice", Some("hunter2"));
    assert_eq!(reply.status(), 403);
    assert!(users.list().is_empty(), "the rejected request must not have minted anything");
    assert_eq!(list_users(&admin(), &me("x"), &users).status(), 403);
    let step = revoke_user(&admin(), &me("x"), &users, "alice");
    assert!(matches!(step, Step::Answer(Reply::Error { status: 403, .. })));
}

#[test]
fn a_taken_user_name_is_409_and_an_unknown_one_404() {
    let mut users = UserStore::in_memory();
    add_user(&mut users, "jz-admin", "alice", Some("a"));
    let reply = add_user(&mut users, "jz-admin", "alice", Some("b"));
    assert!(matches!(reply, Reply::Error { status: 409, message } if message == "user already exists"));
    let step = revoke_user(&admin(), &me("jz-admin"), &users, "nobody");
    assert!(matches!(step, Step::Answer(Reply::Error { status: 404, message }) if message == "unknown user"));
    let step = mint_user(&admin(), &me("jz-admin"), &users, Err("missing field".to_string()), NOW);
    assert!(matches!(step, Step::Answer(Reply::Error { status: 400, .. })));
}

#[test]
fn what_was_not_logged_is_500_and_does_not_happen() {
    let failed = || EventLogError::Append { path: "x.log".to_string(), source: "full".to_string() };
    let mut tokens = EnrollmentTokenStore::in_memory();
    let event = match mint_token(&admin(), &me("jz-admin"), RequestBody::Empty, NOW) {
        Step::Log(event) => event,
        other => panic!("expected an event, got {other:?}"),
    };
    assert_eq!(token_minted(&mut tokens, &event, Err(failed())).status(), 500);
    assert!(tokens.list().is_empty());
    let mut users = UserStore::in_memory();
    let body = Ok(MintUserRequest { username: "a".to_string(), password: Some("b".to_string()) });
    match mint_user(&admin(), &me("jz-admin"), &users, body, NOW) {
        Step::Log(new) => assert_eq!(user_minted(&mut users, new, Err(failed())).status(), 500),
        other => panic!("expected an event, got {other:?}"),
    }
    assert!(users.list().is_empty());
}

fn enroll(registry: &mut DeviceRegistry, name: &str) -> String {
    let ca = match CertificateAuthority::generate("Test CA", NOW) {
        Ok(ca) => ca,
        Err(error) => panic!("{}", error.message()),
    };
    let (csr_pem, _key) = build_csr(name).unwrap();
    let signed = ca.sign_csr(&csr_pem, 365 * 24 * 60 * 60, NOW).unwrap();
    registry.enroll(name, &signed.cert_pem, 1_000).unwrap();
    fingerprint_sha256_colon_hex(&signed.cert_pem).unwrap()
}

#[test]
fn certadmin_lookup_finds_an_enrolled_devices_real_fingerprint() {
    let mut registry = DeviceRegistry::in_memory();
    registry.enroll("no-cert", "not a certificate", 1).unwrap();
    let hash = enroll(&mut registry, "device-a");
    match get_cert_by_hash(&admin(), &me("jz-admin"), &registry, &hash) {
        Reply::Body { status, body } => {
            assert_eq!(status, 200);
            assert_eq!(body.client_uid, "device-a");
            assert_eq!(body.subject_dn, "CN=device-a");
            assert_eq!(body.user_dn, "CN=device-a");
            assert_eq!(body.hash, hash);
            assert!(body.revocation_date.is_none());
        }
        other => panic!("expected a certificate, got {other:?}"),
    }
    assert_eq!(get_cert_by_hash(&admin(), &me("x"), &registry, &hash).status(), 403);
}

#[test]
fn certadmin_lookup_reports_revocation_status() {
    let mut registry = DeviceRegistry::in_memory();
    let hash = enroll(&mut registry, "device-revoked");
    registry.revoke("device-revoked").unwrap();
    match get_cert_by_hash(&admin(), &me("jz-admin"), &registry, &hash) {
        Reply::Body { body, .. } => assert_eq!(body.revocation_date.as_deref(), Some("revoked")),
        other => panic!("expected a certificate, got {other:?}"),
    }
}

#[test]
fn certadmin_lookup_of_unknown_hash_is_404() {
    let registry = DeviceRegistry::in_memory();
    let reply = get_cert_by_hash(&admin(), &me("jz-admin"), &registry, "00:11:22");
    assert!(matches!(reply, Reply::Error { status: 404, message } if message == "unknown certificate"));
    assert_eq!(cert_by_hash(&Vec::new(), "").status(), 404);
}
