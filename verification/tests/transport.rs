use microtak_server::cot::{Chat, ChatGroup, Dest, Detail, Event, Marti, Point};
use microtak_server::registry::{DeviceRegistry, RegistryError};
use microtak_server::transport::codec::{DecodedItem, StreamDecoder, StreamError};
use microtak_server::transport::connections::{ClientEndpoint, ConnectedClients, Transport};
use microtak_server::transport::hub::Outbound;
use microtak_server::transport::relay::{
    delivers, endpoint_of, greet, on_item, on_read, on_received, outbound as outbound_of,
    relay_event, Greeting, HubAction, ItemAction, ReadAction, ReadOutcome, Received, Relayed,
};

fn outbound(dest_uids: Option<Vec<&str>>) -> Outbound {
    Outbound {
        sender: "127.0.0.1:1".to_string(),
        xml: "<event/>".to_string(),
        dest_uids: dest_uids.map(|uids| uids.into_iter().map(String::from).collect()),
    }
}

fn endpoint(addr: &str, transport: Transport) -> ClientEndpoint {
    ClientEndpoint {
        remote_addr: addr.to_string(),
        transport,
        common_name: None,
        uid: None,
        connected_at_unix: 1_000,
    }
}

fn event(uid: &str, detail: Option<Detail>) -> Event {
    Event {
        version: "2.0".to_string(),
        uid: uid.to_string(),
        cot_type: "a-f-G-U-C".to_string(),
        how: "m-g".to_string(),
        time: "2026-09-21T12:00:00Z".to_string(),
        start: "2026-09-21T12:00:00Z".to_string(),
        stale: "2026-09-21T12:05:00Z".to_string(),
        point: Point { lat: 0, lon: 0, hae: 0, ce: 0, le: 0 },
        detail,
    }
}

fn sent(relayed: Relayed) -> Outbound {
    match relayed {
        Relayed::Sent(Some(out)) => out,
        other => panic!("expected an outgoing event, got {other:?}"),
    }
}

#[test]
fn broadcast_is_deliverable_to_anyone() {
    let msg = outbound(None);
    assert!(msg.is_deliverable_to(Some("UID-A")));
    assert!(msg.is_deliverable_to(None)); // even a connection with no known identity
}

#[test]
fn directed_message_only_deliverable_to_addressed_uid() {
    let msg = outbound(Some(vec!["UID-A", "UID-B"]));
    assert!(msg.is_deliverable_to(Some("UID-A")));
    assert!(msg.is_deliverable_to(Some("UID-B")));
    assert!(!msg.is_deliverable_to(Some("UID-C")));
}

#[test]
fn directed_message_never_deliverable_to_unknown_identity() {
    let msg = outbound(Some(vec!["UID-A"]));
    assert!(!msg.is_deliverable_to(None));
}

#[test]
fn registers_and_lists_connections() {
    let mut clients = ConnectedClients::new();
    assert!(clients.list().is_empty());

    clients.register(endpoint("127.0.0.1:1", Transport::Tcp));
    clients.register(endpoint("127.0.0.1:2", Transport::Tls));
    assert_eq!(clients.list().len(), 2);
}

#[test]
fn unregister_removes_a_connection() {
    let mut clients = ConnectedClients::new();
    clients.register(endpoint("127.0.0.1:1", Transport::Tcp));
    clients.unregister("127.0.0.1:1");
    assert!(clients.list().is_empty());
}

#[test]
fn set_uid_updates_a_live_registration() {
    let mut clients = ConnectedClients::new();
    let addr = "127.0.0.1:1";
    clients.register(endpoint("127.0.0.1:1", Transport::Tls));
    clients.set_uid(addr, "UID-A".to_string());

    let found = clients.list().into_iter().find(|c| c.remote_addr == addr);
    assert_eq!(found.unwrap().uid.as_deref(), Some("UID-A"));
}

#[test]
fn set_uid_on_unregistered_connection_is_a_harmless_no_op() {
    let mut clients = ConnectedClients::new();
    clients.set_uid("127.0.0.1:9", "UID-X".to_string());
    assert!(clients.list().is_empty());
}

#[test]
fn registering_an_address_again_replaces_its_entry() {
    let mut clients = ConnectedClients::default();
    clients.register(endpoint("127.0.0.1:1", Transport::Tcp));
    clients.register(endpoint("127.0.0.1:1", Transport::Tls));
    assert_eq!(clients.list(), vec![endpoint("127.0.0.1:1", Transport::Tls)]);
}

#[test]
fn unregistering_keeps_the_other_connections() {
    let mut clients = ConnectedClients::new();
    clients.register(endpoint("a", Transport::Tcp));
    clients.register(endpoint("b", Transport::Tcp));
    clients.register(endpoint("c", Transport::Tcp));
    clients.unregister("b");
    clients.unregister("unknown");
    let addrs: Vec<String> = clients.list().into_iter().map(|c| c.remote_addr).collect();
    assert_eq!(addrs, vec!["a", "c"]);
}

#[test]
fn tc_tls_05_disconnects_revoked_device_at_connect_time() {
    let mut registry = DeviceRegistry::in_memory();
    registry.enroll("device-a", "cert", 1_000).unwrap();
    assert!(matches!(greet(&registry, Some("device-a".to_string())), Greeting::Welcome(cn) if cn == "device-a"));
    registry.revoke("device-a").unwrap();
    assert!(matches!(greet(&registry, Some("device-a".to_string())), Greeting::Revoked(cn) if cn == "device-a"));
    assert!(matches!(greet(&registry, Some("never enrolled".to_string())), Greeting::Welcome(_)));
    assert!(matches!(greet(&registry, None), Greeting::NoCommonName));
}

#[test]
fn tc_tls_04_disconnects_on_cross_device_uid_spoofing() {
    let mut registry = DeviceRegistry::in_memory();
    let mut clients = ConnectedClients::new();
    registry.enroll("victim", "cert-v", 1_000).unwrap();
    registry.enroll("attacker", "cert-a", 1_000).unwrap();
    clients.register(endpoint_of("127.0.0.1:1", Some("victim".to_string()), 5));
    clients.register(endpoint_of("127.0.0.1:2", Some("attacker".to_string()), 6));

    let first = relay_event(
        &mut registry,
        &mut clients,
        "127.0.0.1:1",
        "victim",
        &event("VICTIM-UID", None),
        Some("<event/>".to_string()),
    );
    assert_eq!(sent(first).dest_uids, None);
    assert_eq!(clients.list()[0].uid.as_deref(), Some("VICTIM-UID"));

    let spoofed = relay_event(
        &mut registry,
        &mut clients,
        "127.0.0.1:2",
        "attacker",
        &event("VICTIM-UID", None),
        Some("<event/>".to_string()),
    );
    assert!(matches!(spoofed, Relayed::Closed(RegistryError::UidOwnedByOtherDevice { .. })));
    assert_eq!(clients.list()[1].uid, None);
    assert_eq!(registry.find("attacker").unwrap().uid, None);
}

#[test]
fn tc_chat_01_individual_geochat_delivered_only_to_addressed_recipient() {
    let mut registry = DeviceRegistry::in_memory();
    for (cn, uid) in [("alpha", "UID-A"), ("bravo", "UID-B"), ("charlie", "UID-C")] {
        registry.enroll(cn, "cert", 1_000).unwrap();
        registry.bind_uid(cn, uid).unwrap();
    }
    let mut clients = ConnectedClients::new();
    let detail = Detail {
        marti: Some(Marti { dest: vec![Dest { uid: Some("UID-B".to_string()), callsign: None }] }),
        ..Detail::default()
    };
    let message = sent(relay_event(
        &mut registry,
        &mut clients,
        "addr-a",
        "alpha",
        &event("UID-A", Some(detail)),
        Some("<event/>".to_string()),
    ));
    assert!(delivers(&registry, "addr-b", Some("bravo"), &message));
    assert!(!delivers(&registry, "addr-c", Some("charlie"), &message));
    assert!(!delivers(&registry, "addr-a", Some("alpha"), &message));
    assert!(!delivers(&registry, "addr-p", None, &message));
}

#[test]
fn tc_chat_02_team_geochat_delivered_to_members_not_outsiders() {
    let mut registry = DeviceRegistry::in_memory();
    for (cn, uid) in [("alpha", "UID-A"), ("bravo", "UID-B"), ("charlie", "UID-C"), ("delta", "UID-D")] {
        registry.enroll(cn, "cert", 1_000).unwrap();
        registry.bind_uid(cn, uid).unwrap();
    }
    let members = vec![
        ("@uid0".to_string(), "UID-A".to_string()),
        ("@uid1".to_string(), "UID-B".to_string()),
        ("@uid2".to_string(), "UID-C".to_string()),
    ];
    let detail = Detail {
        chat: Some(Chat {
            id: "team".to_string(),
            chatroom: "Team".to_string(),
            sender_callsign: None,
            group_owner: None,
            chatgrp: Some(ChatGroup::new(Some("team".to_string()), members)),
        }),
        ..Detail::default()
    };
    let message = outbound_of("addr-a", &event("UID-A", Some(detail)), Some("<event/>".to_string())).unwrap();
    assert!(delivers(&registry, "addr-b", Some("bravo"), &message));
    assert!(delivers(&registry, "addr-c", Some("charlie"), &message));
    assert!(!delivers(&registry, "addr-d", Some("delta"), &message));
    assert!(!delivers(&registry, "addr-a", Some("alpha"), &message));
}

#[test]
fn tc_route_01_relays_event_to_other_client_but_not_back_to_sender() {
    let registry = DeviceRegistry::in_memory();
    let message = outbound_of("127.0.0.1:1", &event("UID-A", None), Some("<event/>".to_string())).unwrap();
    assert_eq!(message.xml, "<event/>");
    let received = Received::Message(message);
    assert_eq!(on_received(&registry, "127.0.0.1:2", None, &received), HubAction::Write);
    assert_eq!(on_received(&registry, "127.0.0.1:1", None, &received), HubAction::Skip);
    assert_eq!(on_received(&registry, "127.0.0.1:2", None, &Received::Lagged), HubAction::Skip);
    assert_eq!(on_received(&registry, "127.0.0.1:2", None, &Received::Closed), HubAction::Drop);
}

#[test]
fn an_event_that_cannot_be_written_is_dropped() {
    assert!(outbound_of("a", &event("UID-A", None), None).is_none());
}

#[test]
fn reading_leads_to_documents_or_to_the_end_of_the_connection() {
    let mut decoder = StreamDecoder::new();
    let action = on_read(&mut decoder, &ReadOutcome::Data(b"<event></event><eve".to_vec()));
    assert!(matches!(action, ReadAction::Examine(docs) if docs == vec!["<event></event>"]));
    let action = on_read(&mut decoder, &ReadOutcome::Data(b"nt></event>".to_vec()));
    assert!(matches!(action, ReadAction::Examine(docs) if docs == vec!["<event></event>"]));
    assert!(matches!(on_read(&mut decoder, &ReadOutcome::End), ReadAction::Drop));
    assert!(matches!(on_read(&mut decoder, &ReadOutcome::Failed), ReadAction::Drop));
    let action = on_read(&mut decoder, &ReadOutcome::Data(b"garbage".to_vec()));
    assert!(matches!(action, ReadAction::Close(StreamError::UnexpectedContent(_))));
}

#[test]
fn documents_are_relayed_bound_or_refused() {
    let mut registry = DeviceRegistry::in_memory();
    registry.enroll("alpha", "cert", 1).unwrap();
    registry.enroll("bravo", "cert", 1).unwrap();
    let skipped = DecodedItem::Skipped {
        xml: "<event></event>".to_string(),
        error: microtak_server::cot::CotError::Xml("bad".to_string()),
    };
    assert!(matches!(on_item(&registry, Some("alpha"), skipped), ItemAction::Ignore));

    let plain = on_item(&registry, None, DecodedItem::Event(event("UID-X", None)));
    assert!(matches!(plain, ItemAction::Relay(e) if e.uid == "UID-X"));

    let first = on_item(&registry, Some("alpha"), DecodedItem::Event(event("UID-A", None)));
    match first {
        ItemAction::Bind { binding, event } => {
            assert_eq!(event.uid, "UID-A");
            registry.commit(&binding, Ok(())).unwrap();
        }
        other => panic!("expected a binding, got {other:?}"),
    }
    let again = on_item(&registry, Some("alpha"), DecodedItem::Event(event("UID-A", None)));
    assert!(matches!(again, ItemAction::Relay(_)));
    let spoofed = on_item(&registry, Some("bravo"), DecodedItem::Event(event("UID-A", None)));
    assert!(matches!(spoofed, ItemAction::Close(RegistryError::UidOwnedByOtherDevice { .. })));
    let changed = on_item(&registry, Some("alpha"), DecodedItem::Event(event("UID-B", None)));
    assert!(matches!(changed, ItemAction::Close(RegistryError::DeviceUidMismatch { .. })));
    let unknown = on_item(&registry, Some("nobody"), DecodedItem::Event(event("UID-N", None)));
    assert!(matches!(unknown, ItemAction::Close(RegistryError::NotFound(_))));
}

#[test]
fn a_new_connection_has_bound_no_uid() {
    let plain = endpoint_of("127.0.0.1:1", None, 42);
    assert_eq!(plain.transport, Transport::Tcp);
    assert_eq!(plain.uid, None);
    assert_eq!(plain.connected_at_unix, 42);
    let device = endpoint_of("127.0.0.1:2", Some("alpha".to_string()), 43);
    assert_eq!(device.transport, Transport::Tls);
    assert_eq!(device.common_name.as_deref(), Some("alpha"));
}

#[test]
fn what_is_left_to_decode_after_a_refused_read() {
    let data = |bytes: &[u8]| ReadOutcome::Data(bytes.to_vec());
    let mut decoder = StreamDecoder::with_max_buffered(10);
    let action = on_read(&mut decoder, &data(b"<event><aaaa"));
    assert!(matches!(action, ReadAction::Close(StreamError::TooLarge { buffered: 12, limit: 10 })));
    let action = on_read(&mut decoder, &data(b"</event>"));
    assert!(matches!(action, ReadAction::Examine(docs) if docs == vec!["<event><aaaa</event>"]));

    let action = on_read(&mut decoder, &data(b"garbage"));
    assert!(matches!(action, ReadAction::Close(StreamError::UnexpectedContent(_))));
    let action = on_read(&mut decoder, &data(b"<event></event>"));
    assert!(matches!(action, ReadAction::Examine(docs) if docs == vec!["<event></event>"]));
}

#[test]
fn a_message_and_an_endpoint_can_be_copied() {
    let message = outbound(Some(vec!["UID-A"]));
    assert_eq!(message.clone(), message);
    let client = endpoint("127.0.0.1:1", Transport::Tls);
    assert_eq!(client.clone(), client);
}
