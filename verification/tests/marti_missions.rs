use microtak_server::eventlog::EventLogError;
use microtak_server::marti::missions::{
    get_changes, get_mission, list_missions, MissionRequest, MissionStep,
};
use microtak_server::marti::reply::{PeerIdentity, Reply};
use microtak_server::missions::{ChangeType, Mission, MissionRole, MissionStore};

fn peer(name: &str) -> PeerIdentity {
    PeerIdentity(name.to_string())
}

fn create(name: &str, creator: &str) -> MissionRequest {
    MissionRequest::Create {
        name: name.to_string(),
        description: None,
        creator_uid: creator.to_string(),
        keywords: vec![],
    }
}

fn update(name: &str, description: &str, actor: &str) -> MissionRequest {
    MissionRequest::Update {
        name: name.to_string(),
        description: Some(description.to_string()),
        keywords: None,
        actor_uid: actor.to_string(),
    }
}

fn delete(name: &str) -> MissionRequest {
    MissionRequest::Delete { name: name.to_string() }
}

fn add_content(name: &str, hash: &str, creator: &str) -> MissionRequest {
    MissionRequest::AddContent {
        name: name.to_string(),
        hash: hash.to_string(),
        filename: "f.kml".to_string(),
        creator_uid: creator.to_string(),
    }
}

fn subscribe(name: &str, uid: &str) -> MissionRequest {
    MissionRequest::Subscribe { name: name.to_string(), uid: uid.to_string() }
}

fn unsubscribe(name: &str, uid: &str) -> MissionRequest {
    MissionRequest::Unsubscribe { name: name.to_string(), uid: uid.to_string() }
}

fn assign(name: &str, uid: &str, role: MissionRole) -> MissionRequest {
    MissionRequest::AssignRole { name: name.to_string(), uid: uid.to_string(), role }
}

fn send(store: &mut MissionStore, who: &str, request: MissionRequest) -> Reply<Mission> {
    request.handle(store, &peer(who), 1_000)
}

fn status(store: &mut MissionStore, who: &str, request: MissionRequest) -> u16 {
    send(store, who, request).status()
}

fn body(reply: Reply<Mission>) -> Mission {
    match reply {
        Reply::Body { body, .. } => body,
        other => panic!("expected a mission, got {other:?}"),
    }
}

#[test]
fn creates_and_fetches_a_mission_over_http() {
    let mut store = MissionStore::in_memory();
    let request = MissionRequest::Create {
        name: "Recon Alpha".to_string(),
        description: Some("test".to_string()),
        creator_uid: "user-1".to_string(),
        keywords: vec![],
    };
    let reply = send(&mut store, "user-1", request);
    assert_eq!(reply.status(), 201);
    assert_eq!(body(reply).name, "Recon Alpha");
    let fetched = get_mission(&store, "Recon Alpha");
    assert_eq!(fetched.status(), 200);
    assert_eq!(body(fetched).description.as_deref(), Some("test"));
}

#[test]
fn rejects_duplicate_creation_with_409() {
    let mut store = MissionStore::in_memory();
    send(&mut store, "user-1", create("dup", "user-1"));
    let reply = send(&mut store, "user-1", create("dup", "user-1"));
    assert!(matches!(reply, Reply::Error { status: 409, message } if message == "mission 'dup' already exists"));
}

#[test]
fn subscribes_and_unsubscribes_via_query_param() {
    let mut store = MissionStore::in_memory();
    send(&mut store, "user-1", create("m", "user-1"));
    assert_eq!(status(&mut store, "device-1", subscribe("m", "device-1")), 200);
    assert_eq!(body(get_mission(&store, "m")).subscribers, vec!["device-1"]);
    assert_eq!(status(&mut store, "device-1", unsubscribe("m", "device-1")), 200);
    assert!(body(get_mission(&store, "m")).subscribers.is_empty());
}

#[test]
fn changes_endpoint_reflects_history() {
    let mut store = MissionStore::in_memory();
    send(&mut store, "user-1", create("m", "user-1"));
    match get_changes(&store, "m") {
        Reply::Body { status, body } => {
            assert_eq!(status, 200);
            assert_eq!(body.len(), 1);
        }
        other => panic!("expected changes, got {other:?}"),
    }
    assert!(matches!(get_changes(&store, "nope"), Reply::Error { status: 404, .. }));
}

#[test]
fn get_on_missing_mission_returns_404() {
    let store = MissionStore::in_memory();
    let reply = get_mission(&store, "nope");
    assert!(matches!(reply, Reply::Error { status: 404, message } if message == "no mission named 'nope'"));
}

#[test]
fn e2e_mission_roles_enforce_owner_and_subscriber_authorization() {
    let mut store = MissionStore::in_memory();
    let name = "Roles Test";

    // The creator gets Owner automatically.
    let created = send(&mut store, "mission-owner", create(name, "mission-owner"));
    assert_eq!(created.status(), 201);
    let roles = body(created).roles;
    assert_eq!(roles.get("mission-owner"), Some(&MissionRole::Owner));

    // An outsider (never subscribed) can't add content.
    assert_eq!(status(&mut store, "mission-outsider", add_content(name, "aaa", "mission-outsider")), 403);

    // Subscribing grants the Subscriber role, which does allow adding content...
    assert_eq!(status(&mut store, "mission-subscriber", subscribe(name, "mission-subscriber")), 200);
    assert_eq!(status(&mut store, "mission-subscriber", add_content(name, "bbb", "mission-subscriber")), 200);

    // ...but not updating mission metadata or deleting it.
    assert_eq!(status(&mut store, "mission-subscriber", update(name, "hijacked", "mission-subscriber")), 403);
    assert_eq!(status(&mut store, "mission-subscriber", delete(name)), 403);

    // The owner promotes the subscriber to co-owner via the real role API...
    assert_eq!(status(&mut store, "mission-owner", assign(name, "mission-subscriber", MissionRole::Owner)), 200);

    // ...after which the former subscriber can update the mission.
    assert_eq!(status(&mut store, "mission-subscriber", update(name, "co-owned now", "mission-subscriber")), 200);

    // With two owners now, demoting one of them is allowed -- only the
    // *last* owner is protected.
    assert_eq!(status(&mut store, "mission-owner", assign(name, "mission-owner", MissionRole::Subscriber)), 200);

    // ...but now mission-subscriber is the *only* owner.
    assert_eq!(status(&mut store, "mission-subscriber", assign(name, "mission-subscriber", MissionRole::Subscriber)), 409);

    // The now-demoted original owner can no longer delete the mission; the
    // remaining (last) owner still can.
    assert_eq!(status(&mut store, "mission-owner", delete(name)), 403);
    assert_eq!(status(&mut store, "mission-subscriber", delete(name)), 204);
}

#[test]
fn e2e_missions_api_rejects_creatoruid_not_matching_authenticated_cert() {
    let mut store = MissionStore::in_memory();
    assert_eq!(status(&mut store, "real-identity", create("Spoofed", "someone-else")), 403);
    // The rejected request must not have created anything.
    assert_eq!(get_mission(&store, "Spoofed").status(), 404);
    assert!(matches!(get_changes(&store, "Spoofed"), Reply::Error { .. }));
}

#[test]
fn e2e_missions_api_full_lifecycle() {
    let mut store = MissionStore::in_memory();
    let who = "missions-client";
    let name = "Recon Alpha";
    let first = MissionRequest::Create {
        name: name.to_string(),
        description: Some("first pass".to_string()),
        creator_uid: who.to_string(),
        keywords: vec!["kept".to_string()],
    };
    assert_eq!(status(&mut store, who, first), 201);
    assert_eq!(status(&mut store, who, create(name, who)), 409);
    assert_eq!(status(&mut store, who, subscribe(name, who)), 200);

    let content = MissionRequest::AddContent {
        name: name.to_string(),
        hash: "abc123".to_string(),
        filename: "map.kml".to_string(),
        creator_uid: who.to_string(),
    };
    assert_eq!(status(&mut store, who, content), 200);

    let updated = send(&mut store, who, update(name, "updated", who));
    assert_eq!(updated.status(), 200);
    let updated = body(updated);
    assert_eq!(updated.description.as_deref(), Some("updated"));
    assert_eq!(updated.contents[0].hash, "abc123");
    assert_eq!(updated.keywords, vec!["kept"]);

    match get_changes(&store, name) {
        Reply::Body { status, body } => {
            assert_eq!(status, 200);
            let change_types: Vec<ChangeType> = body.into_iter().map(|c| c.change_type).collect();
            assert_eq!(
                change_types,
                vec![
                    ChangeType::Create,
                    ChangeType::Subscribe,
                    ChangeType::AddContent,
                    ChangeType::Update,
                ]
            );
        }
        other => panic!("expected changes, got {other:?}"),
    }

    assert_eq!(status(&mut store, who, delete(name)), 204);
    assert_eq!(get_mission(&store, name).status(), 404);
}

#[test]
fn a_deleted_mission_is_gone_but_its_history_stays() {
    let mut store = MissionStore::in_memory();
    assert_eq!(status(&mut store, "owner", create("Op", "owner")), 201);
    match list_missions(&store) {
        Reply::Body { body, .. } => assert_eq!(body.len(), 1),
        other => panic!("expected a list, got {other:?}"),
    }
    assert_eq!(status(&mut store, "owner", delete("Op")), 204);
    assert_eq!(status(&mut store, "owner", delete("Op")), 404);
    assert_eq!(status(&mut store, "owner", update("Op", "x", "owner")), 404);
    assert_eq!(status(&mut store, "owner", subscribe("Op", "owner")), 404);
    assert!(matches!(get_changes(&store, "Op"), Reply::Body { status: 200, .. }));
}

#[test]
fn every_claim_is_held_against_the_certificate() {
    let mut store = MissionStore::in_memory();
    send(&mut store, "owner", create("m", "owner"));
    for request in [
        update("m", "x", "other"),
        add_content("m", "h", "other"),
        subscribe("m", "other"),
        unsubscribe("m", "other"),
    ] {
        assert_eq!(status(&mut store, "owner", request), 403);
    }
}

#[test]
fn roles_are_handed_out_and_taken_away_by_owners_only() {
    let mut store = MissionStore::in_memory();
    send(&mut store, "owner", create("m", "owner"));
    send(&mut store, "member", subscribe("m", "member"));
    let take = |uid: &str| MissionRequest::RevokeRole { name: "m".to_string(), uid: uid.to_string() };
    assert_eq!(status(&mut store, "member", take("owner")), 403);
    assert_eq!(status(&mut store, "member", assign("m", "member", MissionRole::Owner)), 403);
    assert_eq!(status(&mut store, "owner", take("owner")), 409);
    assert_eq!(status(&mut store, "owner", take("member")), 200);
    assert_eq!(status(&mut store, "member", add_content("m", "h", "member")), 403);
    assert_eq!(status(&mut store, "owner", assign("nope", "x", MissionRole::Owner)), 404);
}

#[test]
fn a_request_whose_event_was_not_logged_changes_nothing() {
    let mut store = MissionStore::in_memory();
    let request = create("m", "owner");
    let event = match request.begin(&store, &peer("owner"), 1_000) {
        MissionStep::Log(event) => event,
        other => panic!("expected an event, got {other:?}"),
    };
    let failed = EventLogError::Append { path: "missions.log".to_string(), source: "full".to_string() };
    let reply = request.finish(&mut store, &event, Err(failed));
    assert!(matches!(reply, Reply::Error { status: 500, message }
        if message == "event log error: failed to append to event log missions.log: full"));
    assert_eq!(get_mission(&store, "m").status(), 404);
    assert_eq!(request.finish(&mut store, &event, Ok(())).status(), 201);
}
