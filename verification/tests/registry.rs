use microtak_server::eventlog::EventLogError;
use microtak_server::registry::{DeviceRegistry, RegistryError, RegistryEvent};

/// A registry beside the log that a server would keep of it.
struct Logged {
    registry: DeviceRegistry,
    log: Vec<RegistryEvent>,
}

impl Logged {
    fn new() -> Self {
        Logged { registry: DeviceRegistry::in_memory(), log: Vec::new() }
    }

    fn append(&mut self, event: RegistryEvent) {
        self.registry.commit(&event, Ok(())).unwrap();
        self.log.push(event);
    }

    fn enroll(&mut self, common_name: &str, cert: &str, now: i64) {
        self.append(DeviceRegistry::propose_enroll(common_name, cert, now));
    }

    fn bind_uid(&mut self, common_name: &str, uid: &str) {
        if let Some(event) = self.registry.propose_bind_uid(common_name, uid).unwrap() {
            self.append(event);
        }
    }

    fn revoke(&mut self, common_name: &str) {
        let event = self.registry.propose_revoke(common_name).unwrap();
        self.append(event);
    }
}

#[test]
fn enrolls_and_finds_a_device() {
    let mut registry = DeviceRegistry::in_memory();
    let record = registry.enroll("device-a", "-----BEGIN CERTIFICATE-----...", 1_000).unwrap();
    assert_eq!(record.common_name, "device-a");
    assert!(!record.revoked);
    assert!(record.uid.is_none());

    let found = registry.find("device-a").unwrap();
    assert_eq!(found, record);
}

#[test]
fn re_enrollment_rotates_cert_but_preserves_uid_binding() {
    let mut registry = DeviceRegistry::in_memory();
    registry.enroll("device-a", "cert-v1", 1_000).unwrap();
    registry.bind_uid("device-a", "UID-A").unwrap();

    let rotated = registry.enroll("device-a", "cert-v2", 2_000).unwrap();
    assert_eq!(rotated.cert_pem, "cert-v2");
    assert_eq!(rotated.uid.as_deref(), Some("UID-A"));
}

#[test]
fn tc_tls_04_binds_uid_on_first_use() {
    let mut registry = DeviceRegistry::in_memory();
    registry.enroll("device-a", "cert", 1_000).unwrap();
    registry.bind_uid("device-a", "UID-A").unwrap();
    assert_eq!(registry.find("device-a").unwrap().uid.as_deref(), Some("UID-A"));
}

#[test]
fn tc_tls_04_same_device_reasserting_same_uid_is_idempotent() {
    let mut registry = DeviceRegistry::in_memory();
    registry.enroll("device-a", "cert", 1_000).unwrap();
    registry.bind_uid("device-a", "UID-A").unwrap();
    registry.bind_uid("device-a", "UID-A").unwrap(); // no error
    assert_eq!(registry.find("device-a").unwrap().uid.as_deref(), Some("UID-A"));
    assert!(registry.propose_bind_uid("device-a", "UID-A").unwrap().is_none());
}

#[test]
fn tc_tls_04_rejects_uid_already_owned_by_a_different_device() {
    let mut registry = DeviceRegistry::in_memory();
    registry.enroll("device-a", "cert-a", 1_000).unwrap();
    registry.enroll("device-b", "cert-b", 1_000).unwrap();
    registry.bind_uid("device-a", "UID-A").unwrap();

    let result = registry.bind_uid("device-b", "UID-A");
    assert!(matches!(
        result,
        Err(RegistryError::UidOwnedByOtherDevice { .. })
    ));
    assert_eq!(
        result.unwrap_err().message(),
        "uid 'UID-A' is already bound to a different device (common name 'device-a')"
    );
}

#[test]
fn tc_tls_04_rejects_device_rebinding_to_a_different_uid() {
    let mut registry = DeviceRegistry::in_memory();
    registry.enroll("device-a", "cert", 1_000).unwrap();
    registry.bind_uid("device-a", "UID-A").unwrap();

    let result = registry.bind_uid("device-a", "UID-B");
    assert!(matches!(
        result,
        Err(RegistryError::DeviceUidMismatch { .. })
    ));
    assert_eq!(
        result.unwrap_err().message(),
        "device 'device-a' already claims uid 'UID-A', cannot rebind to 'UID-B'"
    );
    assert_eq!(registry.find("device-a").unwrap().uid.as_deref(), Some("UID-A"));
}

#[test]
fn revokes_a_device() {
    let mut registry = DeviceRegistry::in_memory();
    registry.enroll("device-a", "cert", 1_000).unwrap();
    assert!(!registry.is_revoked("device-a"));
    registry.revoke("device-a").unwrap();
    assert!(registry.is_revoked("device-a"));
}

#[test]
fn re_enrollment_does_not_clear_revocation() {
    let mut registry = DeviceRegistry::in_memory();
    registry.enroll("device-a", "cert-v1", 1_000).unwrap();
    registry.revoke("device-a").unwrap();

    let rotated = registry.enroll("device-a", "cert-v2", 2_000).unwrap();
    assert!(
        rotated.revoked,
        "re-enrolling a revoked device must not silently un-revoke it"
    );
    assert!(registry.is_revoked("device-a"));
}

#[test]
fn revoking_unknown_device_errors() {
    let mut registry = DeviceRegistry::in_memory();
    assert!(matches!(
        registry.revoke("nonexistent"),
        Err(RegistryError::NotFound(_))
    ));
}

#[test]
fn binding_for_an_unknown_device_errors() {
    let mut registry = DeviceRegistry::in_memory();
    let error = registry.bind_uid("nonexistent", "UID-A").unwrap_err();
    assert!(matches!(error, RegistryError::NotFound(_)));
    assert_eq!(error.message(), "no device found with common name 'nonexistent'");
    assert!(!registry.is_revoked("nonexistent"));
}

#[test]
fn registry_persists_across_reload() {
    let mut live = Logged::new();
    live.enroll("device-a", "cert", 1_000);
    live.bind_uid("device-a", "UID-A");

    let reloaded = DeviceRegistry::replay(&live.log);
    let record = reloaded.find("device-a").unwrap();
    assert_eq!(record.cert_pem, "cert");
    assert_eq!(record.uid.as_deref(), Some("UID-A"));
}

#[test]
fn loading_nonexistent_path_starts_empty() {
    let registry = DeviceRegistry::load_or_create("does-not-exist.log", Vec::new()).unwrap();
    assert!(registry.find("anything").is_none());
}

#[test]
fn a_log_with_a_bad_record_is_not_loaded() {
    let parsed = vec![
        (1, Ok(DeviceRegistry::propose_enroll("device-a", "cert", 1_000))),
        (3, Err("expected value".to_string())),
        (4, Err("later".to_string())),
    ];
    let error = DeviceRegistry::load_or_create("devices.log", parsed).unwrap_err();
    assert_eq!(
        error.message(),
        "event log error: corrupt event log devices.log at line 3: expected value"
    );
}

#[test]
fn registry_replay_reconstructs_a_realistic_mutation_sequence_exactly() {
    let mut live = Logged::new();
    live.enroll("device-a", "cert-v1", 1_000);
    live.enroll("device-b", "cert-b", 1_100);
    live.bind_uid("device-a", "UID-A");
    live.bind_uid("device-a", "UID-A"); // idempotent, no event
    live.enroll("device-a", "cert-v2", 2_000); // rotation
    live.revoke("device-b");
    assert_eq!(live.log.len(), 5);

    let replayed = DeviceRegistry::replay(&live.log);
    let a = replayed.find("device-a").unwrap();
    assert_eq!(a.cert_pem, "cert-v2");
    assert_eq!(a.uid.as_deref(), Some("UID-A"));
    assert!(!a.revoked);
    assert!(replayed.is_revoked("device-b"));
    assert_eq!(replayed.all(), live.registry.all());
}

#[test]
fn an_event_that_was_not_logged_is_not_applied() {
    let mut registry = DeviceRegistry::in_memory();
    let event = DeviceRegistry::propose_enroll("device-a", "cert", 1_000);
    let failed = EventLogError::Append { path: "devices.log".to_string(), source: "disk full".to_string() };
    let error = registry.commit(&event, Err(failed)).unwrap_err();
    assert_eq!(
        error.message(),
        "event log error: failed to append to event log devices.log: disk full"
    );
    assert!(registry.find("device-a").is_none());
}

#[test]
fn all_lists_each_device_once_in_the_order_of_the_names() {
    let mut registry = DeviceRegistry::in_memory();
    registry.enroll("b", "cert-b", 1).unwrap();
    registry.enroll("a", "cert-a", 2).unwrap();
    registry.enroll("b", "cert-b2", 3).unwrap();
    let names: Vec<String> = registry.all().into_iter().map(|d| d.common_name).collect();
    assert_eq!(names, vec!["a", "b"]);
}
