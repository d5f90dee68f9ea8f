use base64::Engine;
use microtak_server::content_store::{ContentStore, ContentStoreError, ReadOutcome};
use microtak_server::digest::hmac_sha256;
use microtak_server::hex::hex_encode;
use microtak_server::marti::contacts::{list_client_endpoints, list_contacts};
use microtak_server::marti::content::{download, upload};
use microtak_server::marti::discovery::{files_config, list_groups, version, version_config};
use microtak_server::marti::oauth::{grant, make_jwt, session_key, token, Grant};
use microtak_server::marti::reply::Reply;
use microtak_server::transport::connections::{ClientEndpoint, ConnectedClients, Transport};
use microtak_server::users::UserStore;

fn device(uid: Option<&str>) -> ClientEndpoint {
    ClientEndpoint {
        remote_addr: "127.0.0.1:1".to_string(),
        transport: Transport::Tls,
        common_name: Some("device-a".to_string()),
        uid: uid.map(String::from),
        connected_at_unix: 1_000,
    }
}

#[test]
fn reflects_live_registrations_not_a_static_list() {
    let mut clients = ConnectedClients::new();
    assert!(list_client_endpoints(&clients).is_empty());
    clients.register(device(Some("UID-A")));
    let body = list_client_endpoints(&clients);
    assert_eq!(body.len(), 1);
    assert_eq!(body[0].common_name.as_deref(), Some("device-a"));
    clients.unregister("127.0.0.1:1");
    assert!(list_client_endpoints(&clients).is_empty());
}

#[test]
fn reflects_live_bound_connections_not_a_static_list() {
    let mut clients = ConnectedClients::new();
    assert!(list_contacts(&clients).is_empty());
    clients.register(device(Some("UID-A")));
    let body = list_contacts(&clients);
    assert_eq!(body.len(), 1);
    assert_eq!(body[0].uid, "UID-A");
    assert_eq!(body[0].callsign, "device-a");
    assert_eq!(body[0].team, "");
    assert!(body[0].filter_groups.is_empty());
}

#[test]
fn connections_without_a_bound_uid_are_omitted() {
    let mut clients = ConnectedClients::new();
    clients.register(device(None));
    assert!(list_contacts(&clients).is_empty());
    let anonymous = ClientEndpoint {
        remote_addr: "127.0.0.1:2".to_string(),
        transport: Transport::Tcp,
        common_name: None,
        uid: Some("UID-P".to_string()),
        connected_at_unix: 1,
    };
    clients.register(anonymous);
    let body = list_contacts(&clients);
    assert_eq!(body.len(), 1);
    assert_eq!(body[0].callsign, "");
}

#[test]
fn uploads_and_downloads_content_round_trip() {
    let store = ContentStore::open("/content".to_string());
    let place = store.place(b"some file bytes", None).unwrap();
    let hash = match upload(Ok(place.hash)) {
        Reply::Body { status, body } => {
            assert_eq!(status, 200);
            body.hash
        }
        other => panic!("expected a hash, got {other:?}"),
    };
    assert_eq!(store.locate(&hash).unwrap(), place.path);
    let found = ContentStore::found(ReadOutcome::Bytes(b"some file bytes".to_vec()));
    match download(&hash, found) {
        Reply::Body { status, body } => {
            assert_eq!(status, 200);
            assert_eq!(body.content_type, "application/octet-stream");
            assert_eq!(&body.bytes[..], b"some file bytes");
        }
        other => panic!("expected content, got {other:?}"),
    }
}

#[test]
fn rejects_upload_with_mismatched_claimed_hash() {
    let store = ContentStore::open("/content".to_string());
    let wrong_hash = "0".repeat(64);
    let stored = store.place(b"actual bytes", Some(&wrong_hash)).map(|place| place.hash);
    let reply = upload(stored);
    assert_eq!(reply.status(), 400);
    assert!(matches!(reply, Reply::Error { message, .. }
        if message.starts_with(&format!("claimed hash {wrong_hash} does not match"))));
    assert_eq!(upload(Err(ContentStoreError::Io("full".to_string()))).status(), 500);
}

#[test]
fn download_of_unknown_hash_is_404() {
    let unknown = "a".repeat(64);
    let reply = download(&unknown, ContentStore::found(ReadOutcome::Missing));
    assert!(matches!(reply, Reply::Error { status: 404, message }
        if message == format!("no content stored under hash '{unknown}'")));
}

#[test]
fn download_with_path_traversal_hash_is_rejected() {
    let store = ContentStore::open("/content".to_string());
    let hash = "../../etc/passwd";
    let error = store.locate(hash).unwrap_err();
    let reply = download(hash, Err(error));
    assert!(matches!(reply, Reply::Error { status: 400, message }
        if message == "'../../etc/passwd' is not a valid content hash"));
    assert_eq!(download("", Err(ContentStoreError::Io("x".to_string()))).status(), 500);
}

#[test]
fn version_returns_200_with_a_real_body() {
    let response = version();
    assert_eq!(response.status, 200);
    assert_eq!(response.content_type, "text/plain");
    assert!(response.body.starts_with("MicroTAK "));
}

#[test]
fn version_config_returns_200_json() {
    let config = version_config();
    assert_eq!(config.version, version().body);
    assert_eq!(config.api, "3");
}

#[test]
fn files_config_reports_an_upload_size_limit() {
    assert!(files_config().upload_size_limit > 0);
    assert_eq!(files_config().upload_size_limit, 100 * 1024 * 1024);
}

#[test]
fn returns_a_well_shaped_empty_list() {
    let groups = list_groups();
    assert_eq!(groups.data.len(), 0);
    assert_eq!(groups.version, "3");
    assert_eq!(groups.kind, "com.bbn.marti.remote.groups.Group");
}

fn claims(token: &str, segment: usize) -> serde_json::Value {
    let part = token.split('.').nth(segment).unwrap();
    let json = base64::engine::general_purpose::URL_SAFE_NO_PAD.decode(part).unwrap();
    serde_json::from_slice(&json).unwrap()
}

#[test]
fn valid_credentials_return_a_real_three_segment_jwt() {
    let mut users = UserStore::in_memory();
    users.mint("jz", "correct horse battery staple", 0).unwrap();
    let key = session_key().unwrap();
    assert_eq!(key.len(), 32);

    let granted = token(&users, &key, "jz", "correct horse battery staple", 1_000);
    assert_eq!(granted.status(), 200);
    let token = match granted {
        Grant::Token(token) => token,
        Grant::Refused { .. } => panic!("refused"),
    };
    assert_eq!(token.split('.').count(), 3, "expected header.payload.signature");
    let payload = claims(&token, 1);
    assert_eq!(payload["sub"], "jz");
    assert_eq!(payload["aud"], "microtak-server");
    assert_eq!(payload["iat"], 1_000);
    assert_eq!(payload["nbf"], 1_000);
    assert_eq!(payload["exp"], 4_600);
    assert_eq!(claims(&token, 0)["alg"], "HS256");
    let (signed, signature) = token.rsplit_once('.').unwrap();
    let signature = base64::engine::general_purpose::URL_SAFE_NO_PAD.decode(signature).unwrap();
    assert_eq!(signature, hmac_sha256(&key, signed.as_bytes()));
}

#[test]
fn wrong_password_returns_the_real_error_shape() {
    let mut users = UserStore::in_memory();
    users.mint("jz", "correct horse battery staple", 0).unwrap();
    let refused = token(&users, b"key", "jz", "wrong", 1_000);
    assert_eq!(refused.status(), 401);
    match refused {
        Grant::Refused { error, description } => {
            assert_eq!(error, "invalid_grant");
            assert!(description.contains("Bad credentials"));
        }
        Grant::Token(_) => panic!("granted"),
    }
}

#[test]
fn unknown_username_is_also_rejected() {
    let users = UserStore::in_memory();
    assert_eq!(token(&users, b"key", "nobody", "whatever", 1_000).status(), 401);
    assert_eq!(grant(b"key", "nobody", false, 0).status(), 401);
}

#[test]
fn a_token_is_the_same_text_for_the_same_key_user_and_time() {
    assert_eq!(
        make_jwt(b"key", "jz", 1_000),
        [
            "eyJhbGciOiJIUzI1NiIsInR5cCI6IkpXVCJ9",
            "eyJhdWQiOiJtaWNyb3Rhay1zZXJ2ZXIiLCJleHAiOjQ2MDAsImlhdCI6MTAwMCwibmJmIjoxMDAwLCJzdWIiOiJqeiJ9",
            "0F_Dvc6ClXMlRHRlIrKKN7Jx34wEoNDSgAUBiEpyp30",
        ]
        .join(".")
    );
    assert_eq!(grant(b"key", "jz", true, 1_000), Grant::Token(make_jwt(b"key", "jz", 1_000)));
    assert_ne!(make_jwt(b"another", "jz", 1_000), make_jwt(b"key", "jz", 1_000));
    assert_eq!(claims(&make_jwt(b"key", "a\"b", 0), 1)["sub"], "a\"b");
}

#[test]
fn messages_are_authenticated_with_short_and_long_keys() {
    assert_eq!(
        hex_encode(&hmac_sha256(&[0x0b; 20], b"Hi There")),
        "b0344c61d8db38535ca8afceaf0bf12b881dc200c9833da726e9376c2e32cff7"
    );
    let message = b"Test Using Larger Than Block-Size Key - Hash Key First";
    assert_eq!(
        hex_encode(&hmac_sha256(&[0xaa; 131], message)),
        "60e431591ee0b67f0d8a26aacbf5b77f8e0bc6213728c5140546040f0ee37f54"
    );
}
