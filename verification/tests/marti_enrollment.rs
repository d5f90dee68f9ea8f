use base64::Engine;
use microtak_server::app::EnrollmentMode;
use microtak_server::enrollment_tokens::EnrollmentTokenStore;
use microtak_server::eventlog::EventLogError;
use microtak_server::marti::enrollment::{
    basic_auth_credentials, get_ca_pem, get_config, is_acceptable_csr_content_type,
    normalize_csr_body, parse_credentials, shaped_success_response, strip_pem_armor, EnrollStep,
    EnrollmentState, SignReply, SignRequest, TextReply,
};
use microtak_server::pki::{build_csr, CertificateAuthority, PkiError, SignedCertificate};
use microtak_server::registry::DeviceRegistry;
use microtak_server::transport::relay::{greet, Greeting};
use microtak_server::users::UserStore;
use x509_parser::prelude::{FromDer, X509Certificate};

const NOW: i64 = 1_790_000_000;

struct Server {
    state: EnrollmentState,
    registry: DeviceRegistry,
    tokens: EnrollmentTokenStore,
    users: UserStore,
}

impl Server {
    fn with(mode: EnrollmentMode, admin: Option<&str>) -> Self {
        let ca = match CertificateAuthority::generate("MicroTAK Test CA", NOW) {
            Ok(ca) => ca,
            Err(error) => panic!("{}", error.message()),
        };
        Server {
            state: EnrollmentState {
                ca,
                cert_validity_seconds: 365 * 24 * 60 * 60,
                enrollment_mode: mode,
                admin_common_name: admin.map(String::from),
            },
            registry: DeviceRegistry::in_memory(),
            tokens: EnrollmentTokenStore::in_memory(),
            users: UserStore::in_memory(),
        }
    }

    fn open() -> Self {
        Server::with(EnrollmentMode::Open, None)
    }

    fn requiring_tokens() -> Self {
        let mut server = Server::with(EnrollmentMode::Auto, Some("test-admin"));
        server.registry.enroll("test-admin", "fake-admin-cert-pem", 0).unwrap();
        server
    }

    fn post(&mut self, request: &SignRequest) -> SignReply {
        self.state.sign_client_v2(&mut self.registry, &mut self.tokens, &self.users, request, NOW)
    }
}

fn request(content_type: &str, body: &str) -> SignRequest {
    SignRequest {
        content_type: content_type.to_string(),
        accept: String::new(),
        authorization: None,
        token: None,
        body: body.as_bytes().to_vec(),
    }
}

fn octets(body: &str) -> SignRequest {
    request("application/octet-stream", body)
}

fn basic(username: &str, password: &str) -> Option<String> {
    let encoded = base64::engine::general_purpose::STANDARD.encode(format!("{username}:{password}"));
    Some(format!("Basic {encoded}"))
}

fn issued(reply: SignReply) -> TextReply {
    match reply {
        SignReply::Issued(text) => text,
        SignReply::Refused { status, message } => panic!("refused with {status}: {message}"),
    }
}

fn refused(reply: SignReply) -> (u16, String) {
    match reply {
        SignReply::Refused { status, message } => (status, message),
        SignReply::Issued(_) => panic!("issued"),
    }
}

fn wrap_pem(bare_base64: &str) -> String {
    format!("-----BEGIN CERTIFICATE-----\n{bare_base64}\n-----END CERTIFICATE-----\n")
}

fn bare(csr_pem: &str) -> String {
    csr_pem.lines().filter(|line| !line.starts_with("-----")).collect()
}

#[test]
fn tc_enroll_01_config_endpoint_requires_no_auth() {
    let response = get_config();
    assert_eq!(response.status, 200);
    assert_eq!(response.content_type, "text/xml");
    let body = response.body;
    assert!(body.contains("certificateConfig"));
    assert!(body.contains("name=\"O\""));
    assert!(body.contains("name=\"OU\""));
}

#[test]
fn ca_pem_endpoint_requires_no_auth_and_returns_the_real_ca() {
    let server = Server::open();
    let response = get_ca_pem(&server.state.ca);
    assert_eq!(response.status, 200);
    assert_eq!(response.body, server.state.ca.ca_cert_pem());
}

#[test]
fn tc_enroll_02_accepts_raw_octet_stream_csr() {
    let mut server = Server::open();
    let ca_pem = server.state.ca.ca_cert_pem();
    let (csr_pem, _key) = build_csr("device-e2e").unwrap();

    let response = issued(server.post(&octets(&bare(&csr_pem))));
    assert_eq!(response.status, 200);
    assert_eq!(response.content_type, "application/json");
    let body: serde_json::Value = serde_json::from_str(&response.body).unwrap();
    let signed_cert = body["signedCert"].as_str().unwrap();
    assert!(!signed_cert.contains("BEGIN CERTIFICATE"));
    assert!(!body["ca0"].as_str().unwrap().is_empty(), "expected a CA chain cert too");

    let ca_der = pem::parse(&ca_pem).unwrap();
    let (_, ca_x509) = X509Certificate::from_der(ca_der.contents()).unwrap();
    let leaf_der = pem::parse(wrap_pem(signed_cert)).unwrap();
    let (_, leaf_x509) = X509Certificate::from_der(leaf_der.contents()).unwrap();
    assert!(leaf_x509
        .verify_signature(Some(ca_x509.public_key()))
        .is_ok());
}

#[test]
fn tc_enroll_03_rejects_form_encoded_csr_submission() {
    let mut server = Server::open();
    let (csr_pem, _key) = build_csr("device-form").unwrap();
    let (status, message) =
        refused(server.post(&request("application/x-www-form-urlencoded", &csr_pem)));
    assert_eq!(status, 400);
    assert!(message.contains("Content-Type"));
    assert_eq!(
        message,
        "Content-Type must be application/octet-stream or application/pkcs10 (got 'application/x-www-form-urlencoded')"
    );
}

#[test]
fn accepts_csr_submitted_as_text_plain() {
    let mut server = Server::open();
    let (csr_pem, _key) = build_csr("device-omnitak").unwrap();
    let response = issued(server.post(&request("text/plain; charset=utf-8", &bare(&csr_pem))));
    assert_eq!(response.status, 200);
}

#[test]
fn tc_enroll_06_rejects_malformed_csr_payload() {
    let mut server = Server::open();
    let (status, message) = refused(server.post(&octets("this is not a CSR")));
    assert_eq!(status, 400);
    assert!(message.starts_with("failed to sign CSR: failed to parse CSR: "));
    assert!(server.registry.all().is_empty());
}

#[test]
fn tc_enroll_07_shapes_response_for_text_plain_accept() {
    let mut server = Server::open();
    let (csr_pem, _key) = build_csr("device-quirk").unwrap();
    let mut req = octets(&csr_pem);
    req.accept = "text/plain".to_string();
    let response = issued(server.post(&req));
    assert_eq!(response.status, 200);
    assert_eq!(response.content_type, "text/plain");
    // Still a JSON *body*, just served with a text/plain Content-Type.
    let parsed: serde_json::Value = serde_json::from_str(&response.body).unwrap();
    assert!(!parsed["signedCert"].as_str().unwrap().is_empty());
}

#[test]
fn enrollment_records_device_in_registry() {
    let mut server = Server::open();
    let (csr_pem, _key) = build_csr("device-registry-check").unwrap();
    issued(server.post(&octets(&csr_pem)));
    let record = server.registry.find("device-registry-check");
    assert!(record.is_some());
    assert_eq!(record.unwrap().enrolled_at_unix, NOW);
}

#[test]
fn rejects_enrollment_with_no_token_when_gating_is_enabled() {
    let mut server = Server::requiring_tokens();
    let (csr_pem, _key) = build_csr("device-no-token").unwrap();
    let (status, message) = refused(server.post(&octets(&csr_pem)));
    assert_eq!(status, 403);
    assert_eq!(message, "a valid enrollment token is required");
    assert!(server.registry.find("device-no-token").is_none());
}

#[test]
fn accepts_enrollment_with_a_valid_token_and_consumes_it() {
    let mut server = Server::requiring_tokens();
    let token = server.tokens.mint(None, None, 1_000).unwrap();
    let (csr_pem, _key) = build_csr("device-with-token").unwrap();
    let mut req = octets(&csr_pem);
    req.token = Some(token);
    assert_eq!(issued(server.post(&req)).status, 200);
    let all = server.tokens.list();
    assert!(all[0].used, "the token should be consumed after use");
    assert_eq!(all[0].used_by_common_name.as_deref(), Some("device-with-token"));
}

#[test]
fn rejects_reusing_an_already_consumed_token() {
    let mut server = Server::requiring_tokens();
    let token = server.tokens.mint(None, None, 1_000).unwrap();

    let (csr_a, _key_a) = build_csr("device-a").unwrap();
    let mut req = octets(&csr_a);
    req.token = Some(token.clone());
    assert_eq!(issued(server.post(&req)).status, 200);

    let (csr_b, _key_b) = build_csr("device-b").unwrap();
    let mut req = octets(&csr_b);
    req.token = Some(token);
    let (status, message) = refused(server.post(&req));
    assert_eq!(status, 403);
    assert_eq!(message, "invalid enrollment token: enrollment token has already been used");
    assert!(server.registry.find("device-b").is_none());
}

#[test]
fn rejects_a_revoked_token() {
    let mut server = Server::requiring_tokens();
    let token = server.tokens.mint(None, None, 1_000).unwrap();
    server.tokens.revoke(&token).unwrap();
    let (csr_pem, _key) = build_csr("device-revoked-token").unwrap();
    let mut req = octets(&csr_pem);
    req.token = Some(token);
    let (status, _) = refused(server.post(&req));
    assert_eq!(status, 403);
}

#[test]
fn open_mode_stays_open_even_after_the_admin_has_enrolled() {
    let mut server = Server::with(EnrollmentMode::Open, Some("open-mode-admin"));
    server.registry.enroll("open-mode-admin", "fake-cert-pem", 0).unwrap();
    let (csr_pem, _key) = build_csr("device-still-open").unwrap();
    assert_eq!(issued(server.post(&octets(&csr_pem))).status, 200);
}

#[test]
fn basic_auth_enrollment_bypasses_the_token_gate_even_when_locked_down() {
    let mut server = Server::requiring_tokens();
    server.users.mint("device-with-password", "hunter2", 0).unwrap();
    let (csr_pem, _key) = build_csr("device-with-password").unwrap();
    let mut req = octets(&csr_pem);
    req.authorization = basic("device-with-password", "hunter2");
    let response = issued(server.post(&req));
    assert_eq!(response.status, 200);
    let body: serde_json::Value = serde_json::from_str(&response.body).unwrap();
    assert!(!body["signedCert"].as_str().unwrap().is_empty());
    assert!(server.registry.find("device-with-password").is_some());
}

#[test]
fn basic_auth_with_wrong_password_is_rejected_even_in_open_mode() {
    let mut server = Server::open(); // Open mode: no token would be required at all.
    server.users.mint("device-with-password", "hunter2", 0).unwrap();
    let (csr_pem, _key) = build_csr("device-with-password").unwrap();
    let mut req = octets(&csr_pem);
    req.authorization = basic("device-with-password", "wrong-password");
    let (status, message) = refused(server.post(&req));
    assert_eq!(status, 401);
    assert_eq!(message, "invalid username or password");
    assert!(server.registry.find("device-with-password").is_none());
}

#[test]
fn basic_auth_rejects_csr_cn_not_matching_authenticated_username() {
    let mut server = Server::open();
    server.users.mint("alice", "correct horse battery staple", 0).unwrap();
    let (csr_pem, _key) = build_csr("bob").unwrap();
    let mut req = octets(&csr_pem);
    req.authorization = basic("alice", "correct horse battery staple");
    let (status, message) = refused(server.post(&req));
    assert_eq!(status, 403);
    assert_eq!(message, "CSR Common Name must match the authenticated username");
    assert!(server.registry.find("bob").is_none());
}

#[test]
fn e2e_enrollment_auto_mode_locks_down_the_moment_the_admin_enrolls() {
    let mut server = Server::with(EnrollmentMode::Auto, Some("jz-admin"));
    assert!(!server.state.is_locked_down(&server.registry));

    // Before the admin has enrolled, an unrelated device needs no token.
    let (csr, _key) = build_csr("device-before-admin").unwrap();
    issued(server.post(&octets(&csr)));
    let (csr, _key) = build_csr("jz-admin").unwrap();
    issued(server.post(&octets(&csr)));
    assert!(server.state.is_locked_down(&server.registry));

    // From this exact point on, a new device with no token is rejected.
    let (csr, _key) = build_csr("device-no-token").unwrap();
    let (status, _) = refused(server.post(&octets(&csr)));
    assert_eq!(status, 403);
    assert!(server.registry.find("device-no-token").is_none());

    // A device enrolling with a minted token succeeds, and can connect.
    let minted = server.tokens.mint(None, None, NOW).unwrap();
    let (csr, _key) = build_csr("device-with-token").unwrap();
    let mut with_token = octets(&csr);
    with_token.token = Some(minted.clone());
    assert_eq!(issued(server.post(&with_token)).status, 200);
    let greeting = greet(&server.registry, Some("device-with-token".to_string()));
    assert!(matches!(greeting, Greeting::Welcome(_)));

    // The now-consumed token can't be reused by a second device.
    let (csr, _key) = build_csr("device-second").unwrap();
    let mut reused = octets(&csr);
    reused.token = Some(minted);
    let (status, _) = refused(server.post(&reused));
    assert_eq!(status, 403);
}

#[test]
fn no_administrator_means_no_lock() {
    let server = Server::with(EnrollmentMode::Auto, None);
    assert!(!server.state.is_locked_down(&server.registry));
}

#[test]
fn content_types_are_judged_without_their_parameters() {
    for good in ["application/octet-stream", "application/pkcs10", "text/plain", "", " text/plain ;x=y", ";"] {
        assert!(is_acceptable_csr_content_type(good), "{good:?}");
    }
    for bad in ["application/json", "TEXT/PLAIN", "text/plainx", "multipart/form-data; boundary=x"] {
        assert!(!is_acceptable_csr_content_type(bad), "{bad:?}");
    }
}

#[test]
fn request_bodies_are_trimmed_and_armored() {
    assert_eq!(
        normalize_csr_body(b"  AAAA\n").unwrap(),
        "-----BEGIN CERTIFICATE REQUEST-----\nAAAA\n-----END CERTIFICATE REQUEST-----\n"
    );
    let armored = "-----BEGIN CERTIFICATE REQUEST-----\nAAAA\n-----END CERTIFICATE REQUEST-----";
    assert_eq!(normalize_csr_body(format!("\u{a0}{armored}\n\n").as_bytes()).unwrap(), armored);
    assert_eq!(normalize_csr_body(b" \r\n").unwrap_err(), "CSR body is empty");
    assert_eq!(normalize_csr_body(b"\xff").unwrap_err(), "CSR body is not valid UTF-8 text");
}

#[test]
fn armor_is_stripped_line_by_line() {
    assert_eq!(strip_pem_armor("-----BEGIN X-----\nAAAA\r\nBBBB\n-----END X-----\n"), "AAAA\nBBBB");
    assert_eq!(strip_pem_armor("AAAA"), "AAAA");
    assert_eq!(strip_pem_armor("-----only armor"), "");
}

#[test]
fn credentials_are_read_from_the_basic_scheme_only() {
    let read = |header: &str| basic_auth_credentials(&Some(header.to_string()));
    assert_eq!(read("Basic YTpiOmM="), Some(("a".to_string(), "b:c".to_string())));
    assert_eq!(read("Basic YTo="), Some(("a".to_string(), String::new())));
    assert_eq!(read("Bearer YTpi"), None);
    assert_eq!(read("basic YTpi"), None);
    assert_eq!(read("Basic !!!"), None);
    assert_eq!(read("Basic YWI="), None); // no colon
    assert_eq!(basic_auth_credentials(&None), None);
    assert_eq!(parse_credentials(Some(b"u:\xff".to_vec())), None);
    assert_eq!(parse_credentials(None), None);
}

#[test]
fn answers_take_the_form_that_is_accepted() {
    let shape = |accept: &str| shaped_success_response(accept, "-----B\nCERT\n-----E\n", "-----B\nCA\n-----E\n");
    assert_eq!(shape("").content_type, "application/json");
    assert_eq!(shape("*/*").content_type, "application/json");
    assert_eq!(shape("application/json, text/plain").content_type, "text/plain");
    assert_eq!(shape("application/json").body, r#"{"ca0":"CA","signedCert":"CERT"}"#);
    let xml = shape("application/xml");
    assert_eq!(xml.content_type, "application/xml");
    assert_eq!(
        xml.body,
        "<enrollmentResponse><signedCert><![CDATA[CERT]]></signedCert><ca0><![CDATA[CA]]></ca0></enrollmentResponse>"
    );
}

fn signed() -> SignedCertificate {
    SignedCertificate { cert_pem: "cert".to_string(), common_name: "device".to_string() }
}

#[test]
fn what_signing_gave_decides_the_next_step() {
    let server = Server::open();
    let req = octets("");
    let step = server.state.after_signing(
        &server.registry,
        &server.tokens,
        &req,
        Err(PkiError::MissingCommonName),
        None,
        NOW,
    );
    assert!(matches!(step, EnrollStep::Refuse { status: 400, message }
        if message == "failed to sign CSR: CSR has no usable Common Name in its subject"));
    let step = server.state.after_signing(&server.registry, &server.tokens, &req, Ok(signed()), None, NOW);
    assert!(matches!(step, EnrollStep::Enroll { signed } if signed.common_name == "device"));
    let login = Some(("device".to_string(), true));
    let step = server.state.after_signing(&server.registry, &server.tokens, &req, Ok(signed()), login, NOW);
    assert!(matches!(step, EnrollStep::Enroll { .. }));
    let login = Some(("device".to_string(), false));
    let step = server.state.after_signing(&server.registry, &server.tokens, &req, Ok(signed()), login, NOW);
    assert!(matches!(step, EnrollStep::Refuse { status: 401, .. }));
}

#[test]
fn what_could_not_be_logged_does_not_happen() {
    let failed = || EventLogError::Append { path: "x.log".to_string(), source: "full".to_string() };
    let mut server = Server::requiring_tokens();
    let token = server.tokens.mint(None, None, 1_000).unwrap();
    let consumed = server.tokens.propose_consume(&token, "device", NOW).unwrap();
    let (status, message) = match EnrollmentState::spend(&mut server.tokens, &consumed, Err(failed())) {
        Ok(()) => panic!("spent"),
        Err(reply) => refused(reply),
    };
    assert_eq!(status, 403);
    assert_eq!(
        message,
        "invalid enrollment token: event log error: failed to append to event log x.log: full"
    );
    assert!(!server.tokens.list()[0].used);
    EnrollmentState::spend(&mut server.tokens, &consumed, Ok(())).unwrap();
    assert!(server.tokens.list()[0].used);

    let enrolled = EnrollmentState::enrollment_of(&signed(), NOW);
    let reply = server.state.finish(&mut server.registry, &enrolled, Err(failed()), &signed(), "");
    assert_eq!(refused(reply), (500, "failed to record device".to_string()));
    assert!(server.registry.find("device").is_none());
}

#[test]
fn white_space_of_every_kind_is_trimmed() {
    let white = "\u{9}\u{a}\u{b}\u{c}\u{d}\u{20}\u{85}\u{a0}\u{1680}\u{2000}\u{200a}\u{2028}\u{2029}\u{202f}\u{205f}\u{3000}";
    let armored = "-----BEGIN CERTIFICATE REQUEST-----\nAAAA\n-----END CERTIFICATE REQUEST-----";
    let body = format!("{white}{armored}{white}");
    assert_eq!(normalize_csr_body(body.as_bytes()).unwrap(), armored);
    let kept = format!("\u{200b}{armored}");
    assert!(normalize_csr_body(kept.as_bytes()).unwrap().contains('\u{200b}'));
}

#[test]
fn preparing_and_answering_a_request_is_taking_it_in() {
    let server = Server::open();
    let (csr, _key) = build_csr("device").unwrap();
    let good = octets(&csr);
    let prepared = server.state.prepare(&server.users, &good, NOW);
    assert!(matches!(&prepared, Ok(p) if p.login.is_none()));
    let step = server.state.answer(&server.registry, &server.tokens, &good, prepared, NOW);
    assert!(matches!(step, EnrollStep::Enroll { signed } if signed.common_name == "device"));
    let bad = request("application/json", &csr);
    let prepared = server.state.prepare(&server.users, &bad, NOW);
    let step = server.state.answer(&server.registry, &server.tokens, &bad, prepared, NOW);
    assert!(matches!(step, EnrollStep::Refuse { status: 400, .. }));
}
