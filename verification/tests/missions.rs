use microtak_server::missions::{
    ChangeType, MissionContentRef, MissionError, MissionEvent, MissionRole, MissionStore,
    MissionUpdate,
};

fn append(store: &mut MissionStore, log: &mut Vec<MissionEvent>, event: Option<MissionEvent>) {
    if let Some(event) = event {
        store.commit(&event, Ok(())).unwrap();
        log.push(event);
    }
}

#[test]
fn tc_marti_01_creates_gets_and_deletes_a_mission() {
    let mut store = MissionStore::in_memory();
    let created = store
        .create("Recon Alpha", Some("desc".into()), "user-1", vec![], 1_000)
        .unwrap();
    assert_eq!(created.name, "Recon Alpha");

    let fetched = store.get("Recon Alpha").unwrap();
    assert_eq!(fetched, created);

    store.delete("Recon Alpha").unwrap();
    assert!(store.get("Recon Alpha").is_none());
}

#[test]
fn tc_marti_02_rejects_creating_a_duplicate_name() {
    let mut store = MissionStore::in_memory();
    store.create("dup", None, "user-1", vec![], 1_000).unwrap();
    let result = store.create("dup", None, "user-1", vec![], 2_000);
    assert!(matches!(result, Err(MissionError::AlreadyExists(_))));
    assert_eq!(result.unwrap_err().message(), "mission 'dup' already exists");
    assert_eq!(store.get("dup").unwrap().created_at_unix, 1_000);
}

#[test]
fn tc_marti_03_names_with_url_reserved_characters_round_trip() {
    let mut store = MissionStore::in_memory();
    let name = "Recon Reppenstedt & Buchholz/Nord 50%";
    store.create(name, None, "user-1", vec![], 1_000).unwrap();
    assert!(store.get(name).is_some());
    assert_eq!(store.list().len(), 1);
}

#[test]
fn tc_marti_12_update_only_changes_provided_fields() {
    let mut store = MissionStore::in_memory();
    store
        .create(
            "m",
            Some("original".into()),
            "user-1",
            vec!["k1".into()],
            1_000,
        )
        .unwrap();

    let updated = store
        .update(
            "m",
            MissionUpdate {
                description: Some("new".into()),
                keywords: None,
            },
            "user-2",
            2_000,
        )
        .unwrap();

    assert_eq!(updated.description.as_deref(), Some("new"));
    assert_eq!(updated.keywords, vec!["k1".to_string()]); // untouched

    let updated = store
        .update(
            "m",
            MissionUpdate {
                description: None,
                keywords: Some(vec!["k2".into(), "k3".into()]),
            },
            "user-2",
            3_000,
        )
        .unwrap();
    assert_eq!(updated.description.as_deref(), Some("new"));
    assert_eq!(updated.keywords, vec!["k2", "k3"]);
}

#[test]
fn update_on_missing_mission_errors() {
    let mut store = MissionStore::in_memory();
    let result = store.update("nope", MissionUpdate::default(), "user-1", 1_000);
    assert!(matches!(result, Err(MissionError::NotFound(_))));
    assert_eq!(result.unwrap_err().message(), "no mission found named 'nope'");
}

#[test]
fn tc_marti_05_changes_reflect_full_history() {
    let mut store = MissionStore::in_memory();
    store.create("m", None, "user-1", vec![], 1_000).unwrap();
    store
        .update(
            "m",
            MissionUpdate {
                description: Some("d".into()),
                keywords: None,
            },
            "user-1",
            2_000,
        )
        .unwrap();
    store
        .add_content(
            "m",
            MissionContentRef {
                hash: "abc123".into(),
                filename: "map.kml".into(),
                added_at_unix: 3_000,
                creator_uid: "user-1".into(),
            },
            3_000,
        )
        .unwrap();
    store.subscribe("m", "user-2", 4_000).unwrap();

    let changes = store.changes("m").unwrap();
    assert_eq!(changes.len(), 4);
    assert_eq!(changes[0].change_type, ChangeType::Create);
    assert_eq!(changes[1].change_type, ChangeType::Update);
    assert_eq!(changes[2].change_type, ChangeType::AddContent);
    assert_eq!(changes[2].content_hash.as_deref(), Some("abc123"));
    assert_eq!(changes[3].change_type, ChangeType::Subscribe);
}

#[test]
fn tc_marti_04_subscribe_and_unsubscribe_are_idempotent() {
    let mut store = MissionStore::in_memory();
    store.create("m", None, "user-1", vec![], 1_000).unwrap();

    store.subscribe("m", "user-2", 2_000).unwrap();
    store.subscribe("m", "user-2", 3_000).unwrap(); // no-op, no error
    assert_eq!(store.get("m").unwrap().subscribers, vec!["user-2"]);

    store.unsubscribe("m", "user-2", 4_000).unwrap();
    store.unsubscribe("m", "user-2", 5_000).unwrap(); // no-op, no error
    assert!(store.get("m").unwrap().subscribers.is_empty());
    assert_eq!(store.changes("m").unwrap().len(), 3);
}

#[test]
fn missions_persists_across_reload() {
    let mut store = MissionStore::in_memory();
    let mut log = Vec::new();
    let event = store.propose_create("m", Some("d".into()), "user-1", vec![], 1_000).unwrap();
    append(&mut store, &mut log, event);

    let parsed = log.into_iter().map(|event| (1, Ok(event))).collect();
    let reloaded = MissionStore::load_or_create("missions.log", parsed).unwrap();
    let mission = reloaded.get("m").unwrap();
    assert_eq!(mission.description.as_deref(), Some("d"));
}

#[test]
fn missions_replay_reconstructs_a_realistic_mutation_sequence_exactly() {
    let mut store = MissionStore::in_memory();
    let mut log = Vec::new();
    let event = store.propose_create("m1", None, "user-1", vec![], 1_000).unwrap();
    append(&mut store, &mut log, event);
    let event = store.propose_create("m2", Some("keep".into()), "user-2", vec![], 1_100).unwrap();
    append(&mut store, &mut log, event);
    let event = store.propose_subscribe("m1", "device-a", 1_200).unwrap();
    append(&mut store, &mut log, event);
    let event = store.propose_subscribe("m1", "device-a", 1_300).unwrap(); // idempotent, no event
    append(&mut store, &mut log, event);
    let update = MissionUpdate { description: Some("updated".into()), keywords: None };
    let event = store.propose_update("m2", update, "user-2", 1_400).unwrap();
    append(&mut store, &mut log, event);
    let event = store.propose_delete("m1").unwrap();
    append(&mut store, &mut log, event);
    assert_eq!(log.len(), 5);

    let replayed = MissionStore::replay(&log);
    assert!(replayed.get("m1").is_none(), "m1 was deleted");
    assert_eq!(
        replayed.changes("m1").unwrap().len(),
        2,
        "m1's history (create + subscribe) survives even though the mission itself is gone"
    );
    let m2 = replayed.get("m2").unwrap();
    assert_eq!(m2.description.as_deref(), Some("updated"));
    assert_eq!(replayed.list(), store.list());
}

#[test]
fn a_name_can_be_used_again_and_its_history_goes_on() {
    let mut store = MissionStore::in_memory();
    store.create("m", None, "user-1", vec![], 1_000).unwrap();
    store.delete("m").unwrap();
    assert!(matches!(store.delete("m"), Err(MissionError::NotFound(_))));
    store.create("m", None, "user-2", vec![], 2_000).unwrap();
    let changes = store.changes("m").unwrap();
    assert_eq!(changes.len(), 2);
    assert_eq!(changes[0].creator_uid, "user-1");
    assert_eq!(changes[1].creator_uid, "user-2");
    assert!(matches!(store.changes("other"), Err(MissionError::NotFound(_))));
}

#[test]
fn added_content_is_entered_in_the_name_of_the_missions_creator() {
    let mut store = MissionStore::in_memory();
    store.create("m", None, "creator", vec![], 1_000).unwrap();
    let content = MissionContentRef {
        hash: "abc123".into(),
        filename: "map.kml".into(),
        added_at_unix: 7,
        creator_uid: "uploader".into(),
    };
    store.add_content("m", content, 3_000).unwrap();
    let contents = store.get("m").unwrap().contents;
    assert_eq!(contents.len(), 1);
    assert_eq!(contents[0].creator_uid, "uploader");
    assert_eq!(contents[0].added_at_unix, 3_000);
    assert_eq!(store.changes("m").unwrap()[1].creator_uid, "creator");
    assert_eq!(store.changes("m").unwrap()[1].timestamp_unix, 3_000);
}

#[test]
fn creators_own_and_subscribers_subscribe() {
    let mut store = MissionStore::in_memory();
    store.create("m", None, "owner", vec![], 1_000).unwrap();
    assert_eq!(store.role_of("m", "owner"), Some(MissionRole::Owner));
    assert_eq!(store.role_of("m", "other"), None);
    assert_eq!(store.role_of("nope", "owner"), None);

    store.subscribe("m", "other", 2_000).unwrap();
    assert_eq!(store.role_of("m", "other"), Some(MissionRole::Subscriber));
    store.unsubscribe("m", "other", 3_000).unwrap();
    assert_eq!(store.role_of("m", "other"), None);

    store.subscribe("m", "owner", 4_000).unwrap();
    assert_eq!(store.role_of("m", "owner"), Some(MissionRole::Owner));
    store.unsubscribe("m", "owner", 5_000).unwrap();
    assert_eq!(store.role_of("m", "owner"), Some(MissionRole::Owner));
}

#[test]
fn the_last_owner_cannot_be_demoted_or_removed() {
    let mut store = MissionStore::in_memory();
    store.create("m", None, "a", vec![], 1_000).unwrap();
    let error = store.assign_role("m", "a", MissionRole::Subscriber).unwrap_err();
    assert!(matches!(error, MissionError::LastOwner(_)));
    assert_eq!(error.message(), "mission 'm' must keep at least one owner");
    assert!(matches!(store.revoke_role("m", "a"), Err(MissionError::LastOwner(_))));

    store.assign_role("m", "b", MissionRole::Owner).unwrap();
    store.assign_role("m", "a", MissionRole::Subscriber).unwrap();
    assert_eq!(store.role_of("m", "a"), Some(MissionRole::Subscriber));
    assert!(matches!(store.revoke_role("m", "b"), Err(MissionError::LastOwner(_))));
    store.revoke_role("m", "a").unwrap();
    assert_eq!(store.role_of("m", "a"), None);
    store.revoke_role("m", "a").unwrap(); // nothing to take away
    assert!(matches!(store.assign_role("nope", "a", MissionRole::Owner), Err(MissionError::NotFound(_))));
    assert!(matches!(store.revoke_role("nope", "a"), Err(MissionError::NotFound(_))));
}

#[test]
fn assigned_roles_survive_a_replay() {
    let mut store = MissionStore::in_memory();
    let mut log = Vec::new();
    let event = store.propose_create("m", None, "a", vec![], 1_000).unwrap();
    append(&mut store, &mut log, event);
    let event = store.propose_assign_role("m", "b", MissionRole::Owner).unwrap();
    append(&mut store, &mut log, event);
    let event = store.propose_assign_role("m", "b", MissionRole::Owner).unwrap(); // held already
    append(&mut store, &mut log, event);
    let event = store.propose_revoke_role("m", "a").unwrap();
    append(&mut store, &mut log, event);
    assert_eq!(log.len(), 3);
    let replayed = MissionStore::replay(&log);
    assert_eq!(replayed.role_of("m", "a"), None);
    assert_eq!(replayed.role_of("m", "b"), Some(MissionRole::Owner));
}
