use microtak_server::app::{ca_start, open_authority, CaStart, EnrollmentMode};
use microtak_server::content_store::{ContentStore, ReadOutcome as FileOutcome, UploadStep};
use microtak_server::cot::{CotError, Event, Point};
use microtak_server::enrollment_tokens::EnrollmentTokenStore;
use microtak_server::marti::contacts::list_client_endpoints;
use microtak_server::marti::content::{download, upload};
use microtak_server::marti::enrollment::{EnrollmentState, SignReply, SignRequest};
use microtak_server::marti::missions::{get_mission, MissionRequest};
use microtak_server::marti::reply::{PeerIdentity, Reply};
use microtak_server::missions::{MissionEvent, MissionStore};
use microtak_server::pki::{
    build_csr, cert_pem_to_der, common_name_from_cert_der, CertificateAuthority,
};
use microtak_server::registry::{DeviceRegistry, RegistryError};
use microtak_server::transport::codec::{DecodedItem, StreamDecoder, StreamError};
use microtak_server::transport::connections::{ConnectedClients, Transport};
use microtak_server::transport::hub::Outbound;
use microtak_server::transport::relay::{
    delivers, endpoint_of, greet, on_item, on_read, outbound, relay_event, Greeting, ItemAction,
    ReadAction, ReadOutcome, Relayed,
};
use microtak_server::users::UserStore;
use std::collections::BTreeMap;

const NOW: i64 = 1_790_000_000;

/// A connection: its address, and the name on its certificate.
struct Connection {
    addr: &'static str,
    common_name: Option<String>,
}

/// A server whose devices enroll and connect without a network.
struct Server {
    state: EnrollmentState,
    registry: DeviceRegistry,
    tokens: EnrollmentTokenStore,
    users: UserStore,
    clients: ConnectedClients,
}

impl Server {
    fn new() -> Self {
        let ca = match CertificateAuthority::generate("MicroTAK Test CA", NOW) {
            Ok(ca) => ca,
            Err(error) => panic!("{}", error.message()),
        };
        Server {
            state: EnrollmentState {
                ca,
                cert_validity_seconds: 365 * 24 * 60 * 60,
                enrollment_mode: EnrollmentMode::Auto,
                admin_common_name: None,
            },
            registry: DeviceRegistry::in_memory(),
            tokens: EnrollmentTokenStore::in_memory(),
            users: UserStore::in_memory(),
            clients: ConnectedClients::new(),
        }
    }

    /// Enrolls a device and gives the name on the certificate that it got.
    fn enroll(&mut self, common_name: &str) -> String {
        let (csr, _key) = build_csr(common_name).unwrap();
        let request = SignRequest {
            content_type: "application/octet-stream".to_string(),
            accept: String::new(),
            authorization: None,
            token: None,
            body: csr.into_bytes(),
        };
        let reply = self.state.sign_client_v2(
            &mut self.registry,
            &mut self.tokens,
            &self.users,
            &request,
            NOW,
        );
        assert!(matches!(reply, SignReply::Issued(_)));
        let cert_pem = self.registry.find(common_name).unwrap().cert_pem;
        let der = cert_pem_to_der(&cert_pem).unwrap();
        common_name_from_cert_der(&der).unwrap()
    }

    /// Connects a client that shows a certificate with this name.
    fn connect(&mut self, addr: &'static str, common_name: String) -> Connection {
        match greet(&self.registry, Some(common_name)) {
            Greeting::Welcome(cn) => {
                self.clients.register(endpoint_of(addr, Some(cn.clone()), NOW));
                Connection { addr, common_name: Some(cn) }
            }
            other => panic!("not let in: {other:?}"),
        }
    }

    fn connect_plain(&mut self, addr: &'static str) -> Connection {
        self.clients.register(endpoint_of(addr, None, NOW));
        Connection { addr, common_name: None }
    }

    /// What goes out when `from` sends an event with this uid.
    fn send(&mut self, from: &Connection, uid: &str) -> Result<Outbound, RegistryError> {
        let event = event(uid);
        let xml = Some(format!("<event uid=\"{uid}\"/>"));
        match &from.common_name {
            None => Ok(outbound(from.addr, &event, xml).unwrap()),
            Some(cn) => {
                match relay_event(&mut self.registry, &mut self.clients, from.addr, cn, &event, xml) {
                    Relayed::Closed(error) => Err(error),
                    Relayed::Sent(out) => Ok(out.unwrap()),
                }
            }
        }
    }

    fn receives(&self, to: &Connection, message: &Outbound) -> bool {
        delivers(&self.registry, to.addr, to.common_name.as_deref(), message)
    }
}

fn event(uid: &str) -> Event {
    Event {
        version: "2.0".to_string(),
        uid: uid.to_string(),
        cot_type: "a-f-G-U-C".to_string(),
        how: "m-g".to_string(),
        time: "2026-09-21T12:00:00Z".to_string(),
        start: "2026-09-21T12:00:00Z".to_string(),
        stale: "2026-09-21T12:05:00Z".to_string(),
        point: Point { lat: 0, lon: 0, hae: 0, ce: 0, le: 0 },
        detail: None,
    }
}

/// Content files that are kept in memory.
struct Files {
    store: ContentStore,
    files: BTreeMap<String, Vec<u8>>,
}

impl Files {
    fn put(&mut self, bytes: &[u8], claimed: Option<&str>) -> Reply<microtak_server::marti::content::Uploaded> {
        match self.store.place(bytes, claimed) {
            Err(error) => upload(Err(error)),
            Ok(place) => {
                let exists = self.files.contains_key(&place.path);
                if let UploadStep::WriteThenRename(_) = self.store.upload_step(exists, 1, 0) {
                    self.files.insert(place.path, bytes.to_vec());
                }
                upload(Ok(place.hash))
            }
        }
    }

    fn get(&self, hash: &str) -> Reply<microtak_server::marti::content::Download> {
        match self.store.locate(hash) {
            Err(error) => download(hash, Err(error)),
            Ok(path) => {
                let outcome = match self.files.get(&path) {
                    Some(bytes) => FileOutcome::Bytes(bytes.clone()),
                    None => FileOutcome::Missing,
                };
                download(hash, ContentStore::found(outcome))
            }
        }
    }
}

#[test]
fn e2e_enroll_then_connect_via_mtls_and_relay_across_transports() {
    let mut server = Server::new();
    let name_a = server.enroll("device-a");
    let name_b = server.enroll("device-b");
    assert_eq!(name_a, "device-a");
    let a = server.connect("127.0.0.1:1", name_a);
    let b = server.connect("127.0.0.1:2", name_b);
    let plain = server.connect_plain("127.0.0.1:3");

    let from_a = server.send(&a, "FROM-MTLS-A").unwrap();
    assert!(from_a.xml.contains("FROM-MTLS-A"));
    assert!(server.receives(&b, &from_a));
    assert!(server.receives(&plain, &from_a));
    assert!(!server.receives(&a, &from_a));

    let from_plain = server.send(&plain, "FROM-PLAIN-TCP").unwrap();
    assert!(server.receives(&a, &from_plain));
}

#[test]
fn e2e_fanout_to_multiple_clients_across_mixed_transports() {
    let mut server = Server::new();
    let name_b = server.enroll("fanout-b");
    let name_c = server.enroll("fanout-c");
    let sender = server.connect_plain("127.0.0.1:1");
    let b = server.connect("127.0.0.1:2", name_b);
    let c = server.connect("127.0.0.1:3", name_c);
    let d = server.connect_plain("127.0.0.1:4");

    let message = server.send(&sender, "FANOUT-EVENT").unwrap();
    for client in [&b, &c, &d] {
        assert!(server.receives(client, &message), "{}", client.addr);
    }
    assert!(!server.receives(&sender, &message));
}

#[test]
fn e2e_client_endpoints_reflects_real_connections() {
    let mut server = Server::new();
    let name = server.enroll("endpoints-client");
    server.enroll("endpoints-viewer");
    assert!(list_client_endpoints(&server.clients).is_empty());

    let plain = server.connect_plain("127.0.0.1:1");
    let device = server.connect("127.0.0.1:2", name);
    server.send(&device, "ENDPOINTS-UID").unwrap();

    let during = list_client_endpoints(&server.clients);
    assert_eq!(during.len(), 2);
    assert!(during.iter().any(|c| c.transport == Transport::Tcp && c.common_name.is_none()));
    assert!(during.iter().any(|c| c.transport == Transport::Tls
        && c.common_name.as_deref() == Some("endpoints-client")
        && c.uid.as_deref() == Some("ENDPOINTS-UID")));

    server.clients.unregister(plain.addr);
    server.clients.unregister(device.addr);
    assert!(list_client_endpoints(&server.clients).is_empty());
}

#[test]
fn e2e_rejects_cross_device_uid_spoofing_after_http_enrollment() {
    let mut server = Server::new();
    let target = server.enroll("spoof-target");
    let spoofer = server.enroll("spoof-attacker");
    let a = server.connect("127.0.0.1:1", target);
    let other = server.connect("127.0.0.1:2", spoofer);

    let message = server.send(&a, "CONTESTED-UID").unwrap();
    assert!(server.receives(&other, &message));
    let refused = server.send(&other, "CONTESTED-UID");
    assert!(matches!(refused, Err(RegistryError::UidOwnedByOtherDevice { .. })));
}

#[test]
fn e2e_revoked_device_rejected_on_new_connection() {
    let mut server = Server::new();
    let name = server.enroll("revoke-me");
    server.registry.revoke("revoke-me").unwrap();
    assert!(matches!(greet(&server.registry, Some(name)), Greeting::Revoked(cn) if cn == "revoke-me"));
}

#[test]
fn e2e_plain_tcp_client_disconnected_on_garbage_input() {
    let mut decoder = StreamDecoder::new();
    let read = ReadOutcome::Data(b"not a cot stream at all, garbage bytes".to_vec());
    let action = on_read(&mut decoder, &read);
    assert!(matches!(action, ReadAction::Close(StreamError::UnexpectedContent(_))));
}

#[test]
fn tc_stream_05_keeps_connection_open_after_skipped_event() {
    let server = Server::new();
    let bad = "<event version=\"2.0\"></event>";
    let good = "<event uid=\"AFTER-BAD\"></event>";
    let mut decoder = StreamDecoder::new();
    let read = ReadOutcome::Data(format!("{bad}{good}").into_bytes());
    let documents = match on_read(&mut decoder, &read) {
        ReadAction::Examine(documents) => documents,
        other => panic!("expected documents, got {other:?}"),
    };
    assert_eq!(documents, vec![bad, good]);
    let no_event = Err(CotError::Xml("missing field `@uid`".to_string()));
    let skipped = DecodedItem::decoded(documents[0].clone(), no_event);
    assert!(matches!(on_item(&server.registry, None, skipped), ItemAction::Ignore));
    let kept = DecodedItem::decoded(documents[1].clone(), Ok(event("AFTER-BAD")));
    let action = on_item(&server.registry, None, kept);
    assert!(matches!(action, ItemAction::Relay(e) if e.uid == "AFTER-BAD"));
}

#[test]
fn e2e_datasync_content_upload_download_round_trip() {
    let mut disk = Files { store: ContentStore::open("/content".to_string()), files: BTreeMap::new() };
    let mut missions = MissionStore::in_memory();
    let file_bytes = b"this is a real KML file's worth of bytes";
    let hash = match disk.put(file_bytes, None) {
        Reply::Body { status, body } => {
            assert_eq!(status, 200);
            body.hash
        }
        other => panic!("expected a hash, got {other:?}"),
    };
    assert_eq!(hash.len(), 64);
    assert_eq!(disk.put(file_bytes, Some(&"0".repeat(64))).status(), 400);

    let who = PeerIdentity("content-client".to_string());
    let create = MissionRequest::Create {
        name: "Content Test".to_string(),
        description: None,
        creator_uid: "content-client".to_string(),
        keywords: vec![],
    };
    assert_eq!(create.handle(&mut missions, &who, NOW).status(), 201);
    let add = MissionRequest::AddContent {
        name: "Content Test".to_string(),
        hash: hash.clone(),
        filename: "recon.kml".to_string(),
        creator_uid: "content-client".to_string(),
    };
    assert_eq!(add.handle(&mut missions, &who, NOW).status(), 200);
    match get_mission(&missions, "Content Test") {
        Reply::Body { body, .. } => assert_eq!(body.contents[0].hash, hash),
        other => panic!("expected a mission, got {other:?}"),
    }

    match disk.get(&hash) {
        Reply::Body { status, body } => {
            assert_eq!(status, 200);
            assert_eq!(&body.bytes[..], &file_bytes[..]);
        }
        other => panic!("expected content, got {other:?}"),
    }
    assert_eq!(disk.get(&"f".repeat(64)).status(), 404);
}

#[test]
fn persists_ca_registry_and_missions_across_a_restart() {
    let first = match open_authority(CaStart::Generate, "MicroTAK CA", NOW) {
        Ok(opened) => opened,
        Err(error) => panic!("{}", error.message()),
    };
    assert!(first.is_new);
    let mut registry = DeviceRegistry::in_memory();
    let enrolled = DeviceRegistry::propose_enroll("device-a", "fake-cert-pem", 1_000);
    registry.commit(&enrolled, Ok(())).unwrap();
    let mut missions = MissionStore::in_memory();
    let created: MissionEvent =
        missions.propose_create("m", None, "user-1", vec![], 1_000).unwrap().unwrap();
    missions.commit(&created, Ok(())).unwrap();
    let mut disk = Files { store: ContentStore::open("/content".to_string()), files: BTreeMap::new() };
    assert_eq!(disk.put(b"persisted content", None).status(), 200);
    let content_hash = disk.store.place(b"persisted content", None).unwrap().hash;

    let start = ca_start(Some(first.ca.ca_cert_pem()), Some(first.ca.ca_key_pem()));
    let second = match open_authority(start, "MicroTAK CA", NOW + 1) {
        Ok(opened) => opened,
        Err(error) => panic!("{}", error.message()),
    };
    assert!(!second.is_new);
    assert_eq!(second.ca.ca_cert_pem(), first.ca.ca_cert_pem());
    let registry = DeviceRegistry::load_or_create("registry.log", vec![(1, Ok(enrolled))]).unwrap();
    assert!(registry.find("device-a").is_some());
    let missions = MissionStore::load_or_create("missions.log", vec![(1, Ok(created))]).unwrap();
    assert!(missions.get("m").is_some());
    let reopened = Files { store: ContentStore::open("/content".to_string()), files: disk.files };
    match reopened.get(&content_hash) {
        Reply::Body { body, .. } => assert_eq!(&body.bytes[..], b"persisted content"),
        other => panic!("expected content, got {other:?}"),
    }
}
