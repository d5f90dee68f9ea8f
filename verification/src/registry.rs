//! Enrolled devices by certificate common name, and the uid each may assert.
//!
//! A mutation is proposed as an event, the event is logged, and only then is
//! it applied. The same reducer serves live changes and replay.

use crate::eventlog::{event_views, first_corrupt, parsed_events, readable, EventLogError};
use crate::table::{lemma_row, lemma_row_exists, rows_map, Table};
use crate::text::{cat, clone_text, same_text};
use crate::views::lemma_view_push;
use vstd::prelude::*;

verus! {

/// Why a registry request is refused.
#[derive(Debug)]
pub enum RegistryError {
    /// No device has this common name.
    NotFound(String),
    /// Another device owns the uid.
    UidOwnedByOtherDevice { uid: String, owner: String },
    /// The device already has a different uid.
    DeviceUidMismatch { common_name: String, existing: String, claimed: String },
    /// The event could not be logged.
    EventLog(EventLogError),
}

impl RegistryError {
    /// What `message` says.
    pub open spec fn message_spec(&self) -> Seq<char> {
        match *self {
            RegistryError::NotFound(name) => "no device found with common name '"@ + name@ + "'"@,
            RegistryError::UidOwnedByOtherDevice { uid, owner } => "uid '"@ + uid@ + (
            "' is already bound to a different device (common name '"@ + owner@ + "')"@),
            RegistryError::DeviceUidMismatch { common_name, existing, claimed } => "device '"@
                + common_name@ + ("' already claims uid '"@ + existing@ + (
            "', cannot rebind to '"@ + claimed@ + "'"@)),
            RegistryError::EventLog(error) => "event log error: "@ + error.message_spec() + ""@,
        }
    }

    /// The error in words.
    pub fn message(&self) -> (res: String)
        ensures
            res@ == self.message_spec(),
    {
        match self {
            RegistryError::NotFound(name) => cat("no device found with common name '", name, "'"),
            RegistryError::UidOwnedByOtherDevice { uid, owner } => cat(
                "uid '",
                uid,
                &cat("' is already bound to a different device (common name '", owner, "')"),
            ),
            RegistryError::DeviceUidMismatch { common_name, existing, claimed } => {
                let tail = cat("', cannot rebind to '", claimed, "'");
                cat("device '", common_name, &cat("' already claims uid '", existing, &tail))
            },
            RegistryError::EventLog(error) => cat("event log error: ", &error.message(), ""),
        }
    }
}

/// An enrolled device.
#[derive(Debug, PartialEq)]
pub struct DeviceRecord {
    pub common_name: String,
    pub cert_pem: String,
    pub enrolled_at_unix: i64,
    pub revoked: bool,
    /// The uid that the device asserted first, once it has.
    pub uid: Option<String>,
}

/// The model of a device.
pub struct DeviceView {
    pub common_name: Seq<char>,
    pub cert_pem: Seq<char>,
    pub enrolled_at_unix: i64,
    pub revoked: bool,
    pub uid: Option<Seq<char>>,
}

impl DeepView for DeviceRecord {
    type V = DeviceView;

    open spec fn deep_view(&self) -> DeviceView {
        DeviceView {
            common_name: self.common_name@,
            cert_pem: self.cert_pem@,
            enrolled_at_unix: self.enrolled_at_unix,
            revoked: self.revoked,
            uid: self.uid.deep_view(),
        }
    }
}

impl Clone for DeviceRecord {
    fn clone(&self) -> (res: Self)
        ensures
            res == *self,
    {
        DeviceRecord {
            common_name: self.common_name.clone(),
            cert_pem: self.cert_pem.clone(),
            enrolled_at_unix: self.enrolled_at_unix,
            revoked: self.revoked,
            uid: clone_text(&self.uid),
        }
    }
}

/// One change of the registry, as it is logged.
#[derive(Debug, Clone, PartialEq)]
pub enum RegistryEvent {
    Enrolled { common_name: String, cert_pem: String, at_unix: i64 },
    Revoked { common_name: String },
    UidBound { common_name: String, uid: String },
}

/// The model of a registry event.
pub enum RegistryEventView {
    Enrolled { common_name: Seq<char>, cert_pem: Seq<char>, at_unix: i64 },
    Revoked { common_name: Seq<char> },
    UidBound { common_name: Seq<char>, uid: Seq<char> },
}

impl DeepView for RegistryEvent {
    type V = RegistryEventView;

    open spec fn deep_view(&self) -> RegistryEventView {
        match *self {
            RegistryEvent::Enrolled { common_name, cert_pem, at_unix } =>
                RegistryEventView::Enrolled {
                common_name: common_name@,
                cert_pem: cert_pem@,
                at_unix,
            },
            RegistryEvent::Revoked { common_name } => RegistryEventView::Revoked {
                common_name: common_name@,
            },
            RegistryEvent::UidBound { common_name, uid } => RegistryEventView::UidBound {
                common_name: common_name@,
                uid: uid@,
            },
        }
    }
}

/// The devices by common name.
pub type Devices = Map<Seq<char>, DeviceView>;

/// What `event` makes of `devices`. Enrolling a known device rotates its
/// certificate and keeps its uid and its revocation; an event on an unknown
/// device changes nothing.
pub open spec fn apply(devices: Devices, event: RegistryEventView) -> Devices {
    match event {
        RegistryEventView::Enrolled { common_name, cert_pem, at_unix } => devices.insert(
            common_name,
            DeviceView {
                common_name,
                cert_pem,
                enrolled_at_unix: at_unix,
                revoked: devices.contains_key(common_name) && devices[common_name].revoked,
                uid: if devices.contains_key(common_name) {
                    devices[common_name].uid
                } else {
                    None
                },
            },
        ),
        RegistryEventView::Revoked { common_name } => if devices.contains_key(common_name) {
            devices.insert(common_name, DeviceView { revoked: true, ..devices[common_name] })
        } else {
            devices
        },
        RegistryEventView::UidBound { common_name, uid } => if devices.contains_key(common_name) {
            devices.insert(common_name, DeviceView { uid: Some(uid), ..devices[common_name] })
        } else {
            devices
        },
    }
}

/// What a log of `events` makes of an empty registry.
pub open spec fn replay_spec(events: Seq<RegistryEventView>) -> Devices
    decreases events.len(),
{
    if events.len() == 0 {
        Map::empty()
    } else {
        apply(replay_spec(events.drop_last()), events.last())
    }
}

/// Whether a device other than `common_name` owns `uid`.
pub open spec fn owned_elsewhere(devices: Devices, common_name: Seq<char>, uid: Seq<char>) -> bool {
    exists|k: Seq<char>|
        #[trigger] devices.contains_key(k) && devices[k].uid == Some(uid) && k != common_name
}

/// What is answered to a device that asserts a uid. `Ok(Some(event))` binds
/// it, `Ok(None)` finds it bound already.
pub open spec fn bind_answer(
    devices: Devices,
    common_name: Seq<char>,
    uid: Seq<char>,
    res: Result<Option<RegistryEvent>, RegistryError>,
) -> bool {
    if owned_elsewhere(devices, common_name, uid) {
        res matches Err(RegistryError::UidOwnedByOtherDevice { uid: u, owner }) && u@ == uid
            && devices.contains_key(owner@) && devices[owner@].uid == Some(uid) && owner@
            != common_name
    } else if !devices.contains_key(common_name) {
        res matches Err(RegistryError::NotFound(n)) && n@ == common_name
    } else {
        match devices[common_name].uid {
            None => res matches Ok(Some(event)) && event.deep_view()
                == (RegistryEventView::UidBound { common_name, uid }),
            Some(existing) => if existing == uid {
                res matches Ok(None)
            } else {
                res matches Err(
                    RegistryError::DeviceUidMismatch { common_name: n, existing: e, claimed: c },
                ) && n@ == common_name && e@ == existing && c@ == uid
            },
        }
    }
}

/// Every record stands under its own common name.
pub open spec fn keyed(devices: Devices) -> bool {
    forall|k: Seq<char>| #[trigger]
        devices.contains_key(k) ==> devices[k].common_name == k
}

/// The devices that this server knows.
#[derive(Debug)]
pub struct DeviceRegistry {
    devices: Table<DeviceRecord>,
}

impl DeviceRegistry {
    /// The devices by common name.
    pub closed spec fn devices(&self) -> Devices {
        self.devices.map()
    }

    /// The devices in the order of their names.
    pub closed spec fn roll(&self) -> Seq<(Seq<char>, DeviceView)> {
        self.devices.rows()
    }

    /// Every device stands once, under its own common name.
    pub closed spec fn wf(&self) -> bool {
        self.devices.wf() && keyed(self.devices.map())
    }

    /// The roll is the devices, each once.
    pub proof fn law_roll_is_complete(&self)
        requires
            self.wf(),
        ensures
            crate::table::ordered_rows(self.roll()),
            self.devices() == rows_map(self.roll()),
            keyed(self.devices()),
    {
    }

    /// An empty registry.
    pub fn in_memory() -> (res: Self)
        ensures
            res.wf(),
            res.devices() == Map::<Seq<char>, DeviceView>::empty(),
    {
        DeviceRegistry { devices: Table::new() }
    }

    /// The registry that a log of `events` describes.
    pub fn replay(events: &Vec<RegistryEvent>) -> (res: Self)
        ensures
            res.wf(),
            res.devices() == replay_spec(events.deep_view()),
    {
        let mut res = Self::in_memory();
        let ghost all = events.deep_view();
        let mut i: usize = 0;
        assert(all.take(0) =~= seq![]);
        while i < events.len()
            invariant
                all == events.deep_view(),
                i <= events@.len(),
                res.wf(),
                res.devices() == replay_spec(all.take(i as int)),
            decreases events@.len() - i,
        {
            assert(all.take(i + 1).drop_last() =~= all.take(i as int));
            res.apply_event(&events[i]);
            i = i + 1;
        }
        assert(all.take(i as int) =~= all);
        res
    }

    /// The registry that the log at `path` describes, given what each of its
    /// records was parsed into; a log that cannot be read is an error.
    pub fn load_or_create(path: &str, parsed: Vec<(usize, Result<RegistryEvent, String>)>) -> (res: Result<
        Self,
        RegistryError,
    >)
        ensures
            match res {
                Ok(store) => {
                    &&& readable(parsed@)
                    &&& store.wf()
                    &&& store.devices() == replay_spec(event_views(parsed@))
                },
                Err(RegistryError::EventLog(error)) => {
                    &&& !readable(parsed@)
                    &&& first_corrupt(path@, parsed@, error)
                },
                Err(_) => false,
            },
    {
        match parsed_events(path, parsed) {
            Ok(events) => Ok(Self::replay(&events)),
            Err(error) => Err(RegistryError::EventLog(error)),
        }
    }

    /// Applies one logged event.
    pub fn apply_event(&mut self, event: &RegistryEvent)
        requires
            old(self).wf(),
        ensures
            final(self).wf(),
            final(self).devices() == apply(old(self).devices(), event.deep_view()),
    {
        match event {
            RegistryEvent::Enrolled { common_name, cert_pem, at_unix } => {
                let (revoked, uid) = match self.devices.get(common_name) {
                    Some(device) => (device.revoked, clone_text(&device.uid)),
                    None => (false, None),
                };
                let record = DeviceRecord {
                    common_name: common_name.clone(),
                    cert_pem: cert_pem.clone(),
                    enrolled_at_unix: *at_unix,
                    revoked,
                    uid,
                };
                self.devices.insert(common_name.clone(), record);
            },
            RegistryEvent::Revoked { common_name } => {
                let found = match self.devices.get(common_name) {
                    Some(device) => Some(device.clone()),
                    None => None,
                };
                if let Some(device) = found {
                    let record = DeviceRecord { revoked: true, ..device };
                    self.devices.insert(common_name.clone(), record);
                }
            },
            RegistryEvent::UidBound { common_name, uid } => {
                let found = match self.devices.get(common_name) {
                    Some(device) => Some(device.clone()),
                    None => None,
                };
                if let Some(device) = found {
                    let record = DeviceRecord { uid: Some(uid.clone()), ..device };
                    self.devices.insert(common_name.clone(), record);
                }
            },
        }
    }

    /// Applies `event` if it was logged; otherwise nothing changes and the
    /// log's error is handed on.
    pub fn commit(&mut self, event: &RegistryEvent, logged: Result<(), EventLogError>) -> (res:
        Result<(), RegistryError>)
        requires
            old(self).wf(),
        ensures
            final(self).wf(),
            match logged {
                Ok(()) => res is Ok && final(self).devices() == apply(
                    old(self).devices(),
                    event.deep_view(),
                ),
                Err(error) => res == Err::<(), RegistryError>(RegistryError::EventLog(error))
                    && final(self).devices() == old(self).devices(),
            },
    {
        match logged {
            Ok(()) => {
                self.apply_event(event);
                Ok(())
            },
            Err(error) => Err(RegistryError::EventLog(error)),
        }
    }

    /// The event that enrolls a device, or rotates its certificate.
    pub fn propose_enroll(common_name: &str, cert_pem: &str, now_unix: i64) -> (res: RegistryEvent)
        ensures
            res.deep_view() == (RegistryEventView::Enrolled {
                common_name: common_name@,
                cert_pem: cert_pem@,
                at_unix: now_unix,
            }),
    {
        RegistryEvent::Enrolled {
            common_name: common_name.to_owned(),
            cert_pem: cert_pem.to_owned(),
            at_unix: now_unix,
        }
    }

    /// Enrolls a device, or rotates its certificate.
    pub fn enroll(&mut self, common_name: &str, cert_pem: &str, now_unix: i64) -> (res: Result<
        DeviceRecord,
        RegistryError,
    >)
        requires
            old(self).wf(),
        ensures
            final(self).wf(),
            final(self).devices() == apply(
                old(self).devices(),
                RegistryEventView::Enrolled {
                    common_name: common_name@,
                    cert_pem: cert_pem@,
                    at_unix: now_unix,
                },
            ),
            final(self).devices().contains_key(common_name@),
            res matches Ok(device) && device.deep_view() == final(self).devices()[common_name@]
                && device.common_name@ == common_name@ && device.cert_pem@ == cert_pem@
                && device.enrolled_at_unix == now_unix,
    {
        let event = Self::propose_enroll(common_name, cert_pem, now_unix);
        self.apply_event(&event);
        match self.find(common_name) {
            Some(device) => Ok(device),
            None => Err(RegistryError::NotFound(common_name.to_owned())),
        }
    }

    /// The device with this common name.
    pub fn find(&self, common_name: &str) -> (res: Option<DeviceRecord>)
        requires
            self.wf(),
        ensures
            res.deep_view() == self.devices().get(common_name@),
    {
        match self.devices.get(common_name) {
            Some(device) => Some(device.clone()),
            None => None,
        }
    }

    /// All devices, in the order of their names.
    pub fn all(&self) -> (res: Vec<DeviceRecord>)
        requires
            self.wf(),
        ensures
            res.deep_view() == self.roll().map_values(|row: (Seq<char>, DeviceView)| row.1),
    {
        let ghost rows = self.devices.rows();
        let mut res: Vec<DeviceRecord> = Vec::new();
        let mut i: usize = 0;
        assert(res.deep_view() =~= seq![]);
        while i < self.devices.len()
            invariant
                rows == self.devices.rows(),
                i <= rows.len(),
                res.deep_view() == rows.take(i as int).map_values(
                    |row: (Seq<char>, DeviceView)| row.1,
                ),
            decreases rows.len() - i,
        {
            let ghost before = res;
            let device = self.devices.value_at(i).clone();
            res.push(device);
            proof {
                lemma_view_push(before, res, device);
                assert(res.deep_view() =~= rows.take(i + 1).map_values(
                    |row: (Seq<char>, DeviceView)| row.1,
                ));
            }
            i = i + 1;
        }
        assert(rows.take(i as int) =~= rows);
        res
    }

    /// Whether the device is known and revoked.
    pub fn is_revoked(&self, common_name: &str) -> (res: bool)
        requires
            self.wf(),
        ensures
            res == (self.devices().contains_key(common_name@)
                && self.devices()[common_name@].revoked),
    {
        match self.devices.get(common_name) {
            Some(device) => device.revoked,
            None => false,
        }
    }

    /// The event that revokes a device, if it is known.
    pub fn propose_revoke(&self, common_name: &str) -> (res: Result<RegistryEvent, RegistryError>)
        requires
            self.wf(),
        ensures
            match res {
                Ok(event) => {
                    &&& self.devices().contains_key(common_name@)
                    &&& event.deep_view() == (RegistryEventView::Revoked {
                        common_name: common_name@,
                    })
                },
                Err(RegistryError::NotFound(name)) => {
                    &&& !self.devices().contains_key(common_name@)
                    &&& name@ == common_name@
                },
                Err(_) => false,
            },
    {
        match self.devices.get(common_name) {
            Some(_) => Ok(RegistryEvent::Revoked { common_name: common_name.to_owned() }),
            None => Err(RegistryError::NotFound(common_name.to_owned())),
        }
    }

    /// Revokes a device.
    pub fn revoke(&mut self, common_name: &str) -> (res: Result<(), RegistryError>)
        requires
            old(self).wf(),
        ensures
            final(self).wf(),
            final(self).devices() == apply(
                old(self).devices(),
                RegistryEventView::Revoked { common_name: common_name@ },
            ),
            match res {
                Ok(()) => {
                    &&& old(self).devices().contains_key(common_name@)
                    &&& final(self).devices().contains_key(common_name@)
                    &&& final(self).devices()[common_name@].revoked
                },
                Err(RegistryError::NotFound(name)) => {
                    &&& !old(self).devices().contains_key(common_name@)
                    &&& name@ == common_name@
                    &&& final(self).devices() == old(self).devices()
                },
                Err(_) => false,
            },
    {
        match self.propose_revoke(common_name) {
            Ok(event) => {
                self.apply_event(&event);
                Ok(())
            },
            Err(error) => Err(error),
        }
    }

    /// The common name of a device other than `common_name` that owns `uid`.
    fn other_owner(&self, common_name: &str, uid: &str) -> (res: Option<String>)
        requires
            self.wf(),
        ensures
            match res {
                Some(owner) => {
                    &&& self.devices().contains_key(owner@)
                    &&& self.devices()[owner@].uid == Some(uid@)
                    &&& owner@ != common_name@
                },
                None => !owned_elsewhere(self.devices(), common_name@, uid@),
            },
    {
        let ghost rows = self.devices.rows();
        let mut i: usize = 0;
        while i < self.devices.len()
            invariant
                self.wf(),
                rows == self.devices.rows(),
                crate::table::ordered_rows(rows),
                self.devices() == rows_map(rows),
                i <= rows.len(),
                forall|j: int|
                    0 <= j < i ==> (#[trigger] rows[j]).1.uid != Some(uid@) || rows[j].0
                        == common_name@,
            decreases rows.len() - i,
        {
            let device = self.devices.value_at(i);
            proof {
                lemma_row(rows, i as int);
            }
            if let Some(owned) = &device.uid {
                if same_text(owned, uid) && !same_text(&device.common_name, common_name) {
                    return Some(device.common_name.clone());
                }
            }
            i = i + 1;
        }
        proof {
            if owned_elsewhere(self.devices(), common_name@, uid@) {
                let k = choose|k: Seq<char>| #[trigger]
                    self.devices().contains_key(k) && self.devices()[k].uid == Some(uid@) && k
                        != common_name@;
                let j = lemma_row_exists(rows, k);
                assert(rows[j].1.uid == Some(uid@));
            }
        }
        None
    }

    /// What to answer a device that asserts `uid`.
    pub fn propose_bind_uid(&self, common_name: &str, uid: &str) -> (res: Result<
        Option<RegistryEvent>,
        RegistryError,
    >)
        requires
            self.wf(),
        ensures
            bind_answer(self.devices(), common_name@, uid@, res),
    {
        if let Some(owner) = self.other_owner(common_name, uid) {
            assert(owned_elsewhere(self.devices(), common_name@, uid@));
            return Err(RegistryError::UidOwnedByOtherDevice { uid: uid.to_owned(), owner });
        }
        match self.devices.get(common_name) {
            None => Err(RegistryError::NotFound(common_name.to_owned())),
            Some(device) => match &device.uid {
                None => Ok(
                    Some(
                        RegistryEvent::UidBound {
                            common_name: common_name.to_owned(),
                            uid: uid.to_owned(),
                        },
                    ),
                ),
                Some(existing) => if same_text(existing, uid) {
                    Ok(None)
                } else {
                    Err(
                        RegistryError::DeviceUidMismatch {
                            common_name: common_name.to_owned(),
                            existing: existing.clone(),
                            claimed: uid.to_owned(),
                        },
                    )
                },
            },
        }
    }

    /// Binds `uid` to a device on first use. A uid that another device owns,
    /// an unknown device and a device with a different uid are refused, and
    /// nothing changes.
    pub fn bind_uid(&mut self, common_name: &str, uid: &str) -> (res: Result<(), RegistryError>)
        requires
            old(self).wf(),
        ensures
            final(self).wf(),
            match res {
                Ok(()) => {
                    &&& !owned_elsewhere(old(self).devices(), common_name@, uid@)
                    &&& old(self).devices().contains_key(common_name@)
                    &&& old(self).devices()[common_name@].uid matches Some(u) ==> u == uid@
                    &&& final(self).devices().contains_key(common_name@)
                    &&& final(self).devices()[common_name@].uid == Some(uid@)
                    &&& final(self).devices() == apply(
                        old(self).devices(),
                        RegistryEventView::UidBound { common_name: common_name@, uid: uid@ },
                    )
                },
                Err(error) => {
                    &&& final(self).devices() == old(self).devices()
                    &&& bind_answer(
                        old(self).devices(),
                        common_name@,
                        uid@,
                        Err::<Option<RegistryEvent>, RegistryError>(error),
                    )
                },
            },
    {
        match self.propose_bind_uid(common_name, uid) {
            Ok(Some(event)) => {
                self.apply_event(&event);
                Ok(())
            },
            Ok(None) => {
                assert(self.devices() =~= apply(
                    self.devices(),
                    RegistryEventView::UidBound { common_name: common_name@, uid: uid@ },
                ));
                Ok(())
            },
            Err(error) => Err(error),
        }
    }
}

/// The registry may make `event` happen in this state: it enrolls, it revokes
/// a known device, or it gives a device without a uid one that nobody owns.
pub open spec fn admissible(devices: Devices, event: RegistryEventView) -> bool {
    match event {
        RegistryEventView::Enrolled { .. } => true,
        RegistryEventView::Revoked { common_name } => devices.contains_key(common_name),
        RegistryEventView::UidBound { common_name, uid } => {
            &&& devices.contains_key(common_name)
            &&& devices[common_name].uid is None
            &&& !owned_elsewhere(devices, common_name, uid)
        },
    }
}

/// Every event of the log was admissible when it was appended.
pub open spec fn admissible_log(events: Seq<RegistryEventView>) -> bool
    decreases events.len(),
{
    events.len() == 0 || (admissible_log(events.drop_last()) && admissible(
        replay_spec(events.drop_last()),
        events.last(),
    ))
}

/// No uid belongs to two devices.
pub open spec fn uids_distinct(devices: Devices) -> bool {
    forall|a: Seq<char>, b: Seq<char>|
        (#[trigger] devices.contains_key(a) && #[trigger] devices.contains_key(b) && devices[a].uid
            is Some && devices[a].uid == devices[b].uid) ==> a == b
}

/// Appending an event to the log and applying it to the live state keep the
/// two in step: the state stays what a replay of the log gives.
pub proof fn law_live_state_is_the_replayed_log(
    events: Seq<RegistryEventView>,
    event: RegistryEventView,
)
    ensures
        replay_spec(events.push(event)) == apply(replay_spec(events), event),
{
    assert(events.push(event).drop_last() =~= events);
}

/// What the registry proposes to a device that asserts a uid is admissible.
pub proof fn law_bindings_are_admissible(
    devices: Devices,
    common_name: Seq<char>,
    uid: Seq<char>,
    event: RegistryEvent,
)
    requires
        bind_answer(devices, common_name, uid, Ok(Some(event))),
    ensures
        admissible(devices, event.deep_view()),
{
}

/// No uid is ever owned by two devices.
pub proof fn law_no_uid_has_two_owners(events: Seq<RegistryEventView>)
    requires
        admissible_log(events),
    ensures
        uids_distinct(replay_spec(events)),
    decreases events.len(),
{
    if events.len() > 0 {
        let devices = replay_spec(events.drop_last());
        law_no_uid_has_two_owners(events.drop_last());
        let now = apply(devices, events.last());
        assert forall|a: Seq<char>, b: Seq<char>|
            (#[trigger] now.contains_key(a) && #[trigger] now.contains_key(b) && now[a].uid is Some
                && now[a].uid == now[b].uid) implies a == b by {
            if devices.contains_key(a) && devices.contains_key(b) {
                match events.last() {
                    RegistryEventView::UidBound { common_name, uid } => {
                        if a != b && a == common_name {
                            assert(owned_elsewhere(devices, common_name, uid));
                        }
                        if a != b && b == common_name {
                            assert(owned_elsewhere(devices, common_name, uid));
                        }
                    },
                    _ => {},
                }
            }
        }
    }
}

/// Re-enrolling rotates the certificate and keeps the uid and the revocation:
/// it is no way to undo a revocation.
pub proof fn law_reenrollment_keeps_uid_and_revocation(
    devices: Devices,
    common_name: Seq<char>,
    cert_pem: Seq<char>,
    at_unix: i64,
)
    requires
        devices.contains_key(common_name),
    ensures
        ({
            let now = apply(
                devices,
                RegistryEventView::Enrolled { common_name, cert_pem, at_unix },
            );
            &&& now.contains_key(common_name)
            &&& now[common_name].cert_pem == cert_pem
            &&& now[common_name].enrolled_at_unix == at_unix
            &&& now[common_name].uid == devices[common_name].uid
            &&& now[common_name].revoked == devices[common_name].revoked
        }),
{
}

/// A device that enrolls for the first time is known by its name, with its
/// certificate and the time; it is not revoked and has no uid yet.
pub proof fn law_enrollment_makes_a_device_known(
    devices: Devices,
    common_name: Seq<char>,
    cert_pem: Seq<char>,
    at_unix: i64,
)
    requires
        !devices.contains_key(common_name),
    ensures
        ({
            let now = apply(
                devices,
                RegistryEventView::Enrolled { common_name, cert_pem, at_unix },
            );
            &&& now.contains_key(common_name)
            &&& now[common_name].common_name == common_name
            &&& now[common_name].cert_pem == cert_pem
            &&& now[common_name].enrolled_at_unix == at_unix
            &&& !now[common_name].revoked
            &&& now[common_name].uid is None
        }),
{
}

/// Revoking a known device revokes it, whatever else its record holds, and
/// changes nothing else about it; a device that is not known stays unknown.
pub proof fn law_revoking_revokes(devices: Devices, common_name: Seq<char>)
    ensures
        ({
            let now = apply(devices, RegistryEventView::Revoked { common_name });
            &&& now.contains_key(common_name) == devices.contains_key(common_name)
            &&& devices.contains_key(common_name) ==> {
                let was = devices[common_name];
                let is = now[common_name];
                &&& is.revoked
                &&& is.common_name == was.common_name
                &&& is.cert_pem == was.cert_pem
                &&& is.enrolled_at_unix == was.enrolled_at_unix
                &&& is.uid == was.uid
            }
            &&& !devices.contains_key(common_name) ==> now == devices
        }),
{
}

/// Binding gives a known device the uid and changes nothing else about it; a
/// device that is not known stays unknown.
pub proof fn law_binding_gives_the_uid(devices: Devices, common_name: Seq<char>, uid: Seq<char>)
    ensures
        ({
            let now = apply(devices, RegistryEventView::UidBound { common_name, uid });
            &&& now.contains_key(common_name) == devices.contains_key(common_name)
            &&& devices.contains_key(common_name) ==> {
                let was = devices[common_name];
                let is = now[common_name];
                &&& is.uid == Some(uid)
                &&& is.common_name == was.common_name
                &&& is.cert_pem == was.cert_pem
                &&& is.enrolled_at_unix == was.enrolled_at_unix
                &&& is.revoked == was.revoked
            }
            &&& !devices.contains_key(common_name) ==> now == devices
        }),
{
}

/// What a device that asserts a uid is answered, in full: a uid of another
/// device is refused and that device is named, whoever asks; a device that is
/// not known is refused; one with another uid is refused; one with this uid
/// needs nothing; one without any gets it.
pub proof fn law_how_an_asserted_uid_is_answered(
    devices: Devices,
    common_name: Seq<char>,
    uid: Seq<char>,
    res: Result<Option<RegistryEvent>, RegistryError>,
)
    requires
        bind_answer(devices, common_name, uid, res),
    ensures
        res matches Err(RegistryError::UidOwnedByOtherDevice { uid: u, owner }) ==> u@ == uid
            && owner@ != common_name && devices.contains_key(owner@) && devices[owner@].uid
            == Some(uid),
        res is Ok ==> forall|k: Seq<char>|
            k != common_name && #[trigger] devices.contains_key(k) ==> devices[k].uid != Some(uid),
        res is Ok ==> devices.contains_key(common_name),
        res matches Ok(None) ==> devices[common_name].uid == Some(uid),
        res matches Ok(Some(event)) ==> devices[common_name].uid is None && event.deep_view()
            == (RegistryEventView::UidBound { common_name, uid }),
        res matches Err(RegistryError::NotFound(n)) ==> n@ == common_name && !devices.contains_key(
            common_name,
        ),
        res matches Err(
            RegistryError::DeviceUidMismatch { common_name: n, existing, claimed },
        ) ==> n@ == common_name && claimed@ == uid && devices.contains_key(common_name)
            && devices[common_name].uid == Some(existing@) && existing@ != uid,
        !(res matches Err(RegistryError::EventLog(_))),
        devices.contains_key(common_name) && devices[common_name].uid == Some(uid) && (forall|
            k: Seq<char>,
        |
            k != common_name && #[trigger] devices.contains_key(k) ==> devices[k].uid != Some(uid))
            ==> res is Ok,
        devices.contains_key(common_name) && devices[common_name].uid is None && (forall|
            k: Seq<char>,
        |
            k != common_name && #[trigger] devices.contains_key(k) ==> devices[k].uid != Some(uid))
            ==> res is Ok,
{
}

/// The event enrolls the device of this name.
pub open spec fn enrolls(event: RegistryEventView, name: Seq<char>) -> bool {
    event matches RegistryEventView::Enrolled { common_name, .. } && common_name == name
}

/// The event revokes the device of this name.
pub open spec fn revokes(event: RegistryEventView, name: Seq<char>) -> bool {
    event matches RegistryEventView::Revoked { common_name } && common_name == name
}

/// A device is known exactly if the log enrolls it, and revoked exactly if the
/// log revokes it after that.
pub proof fn law_the_log_says_who_is_known_and_revoked(
    events: Seq<RegistryEventView>,
    name: Seq<char>,
)
    ensures
        replay_spec(events).contains_key(name) <==> exists|i: int|
            0 <= i < events.len() && #[trigger] enrolls(events[i], name),
        replay_spec(events).contains_key(name) ==> (replay_spec(events)[name].revoked <==> exists|
            i: int,
            j: int,
        |
            0 <= i < j < events.len() && #[trigger] enrolls(events[i], name) && #[trigger] revokes(
                events[j],
                name,
            )),
    decreases events.len(),
{
    if events.len() > 0 {
        let head = events.drop_last();
        let n = events.len() - 1;
        law_the_log_says_who_is_known_and_revoked(head, name);
        let was = replay_spec(head);
        let now = replay_spec(events);
        assert(forall|i: int| 0 <= i < n ==> head[i] == events[i]);
        if was.contains_key(name) {
            let i = choose|i: int| 0 <= i < head.len() && #[trigger] enrolls(head[i], name);
            assert(enrolls(events[i], name));
            if revokes(events[n], name) {
                assert(enrolls(events[i], name) && revokes(events[n], name));
            }
            if was[name].revoked {
                let (a, b) = choose|a: int, b: int|
                    0 <= a < b < head.len() && #[trigger] enrolls(head[a], name)
                        && #[trigger] revokes(head[b], name);
                assert(enrolls(events[a], name) && revokes(events[b], name));
            }
        } else {
            assert forall|i: int| 0 <= i < n implies !#[trigger] enrolls(events[i], name) by {
                assert(!enrolls(head[i], name));
            }
        }
        if now.contains_key(name) && !was.contains_key(name) {
            assert(enrolls(events[n], name));
        }
        if exists|a: int, b: int|
            0 <= a < b < events.len() && #[trigger] enrolls(events[a], name) && #[trigger] revokes(
                events[b],
                name,
            ) {
            let (a, b) = choose|a: int, b: int|
                0 <= a < b < events.len() && #[trigger] enrolls(events[a], name)
                    && #[trigger] revokes(events[b], name);
            assert(enrolls(head[a], name));
            if b < n {
                assert(revokes(head[b], name));
            }
        }
    }
}

/// A revoked device stays known and revoked, whatever happens later.
pub proof fn law_revocation_is_permanent(
    events: Seq<RegistryEventView>,
    later: Seq<RegistryEventView>,
    common_name: Seq<char>,
)
    requires
        replay_spec(events).contains_key(common_name),
        replay_spec(events)[common_name].revoked,
    ensures
        replay_spec(events + later).contains_key(common_name),
        replay_spec(events + later)[common_name].revoked,
    decreases later.len(),
{
    if later.len() == 0 {
        assert(events + later =~= events);
    } else {
        law_revocation_is_permanent(events, later.drop_last(), common_name);
        assert((events + later).drop_last() =~= events + later.drop_last());
        assert((events + later).last() == later.last());
    }
}

/// A bound uid stays bound to its device for good.
pub proof fn law_uid_is_fixed_once_bound(
    events: Seq<RegistryEventView>,
    later: Seq<RegistryEventView>,
    common_name: Seq<char>,
)
    requires
        replay_spec(events).contains_key(common_name),
        replay_spec(events)[common_name].uid is Some,
        admissible_log(events + later),
    ensures
        replay_spec(events + later).contains_key(common_name),
        replay_spec(events + later)[common_name].uid == replay_spec(events)[common_name].uid,
    decreases later.len(),
{
    if later.len() == 0 {
        assert(events + later =~= events);
    } else {
        assert((events + later).drop_last() =~= events + later.drop_last());
        assert((events + later).last() == later.last());
        law_uid_is_fixed_once_bound(events, later.drop_last(), common_name);
    }
}

/// A device that asserts its uid again is answered that it is bound already,
/// without a new event.
pub proof fn law_rebinding_is_idempotent(
    devices: Devices,
    common_name: Seq<char>,
    uid: Seq<char>,
    res: Result<Option<RegistryEvent>, RegistryError>,
)
    requires
        admissible(devices, RegistryEventView::UidBound { common_name, uid }),
        bind_answer(
            apply(devices, RegistryEventView::UidBound { common_name, uid }),
            common_name,
            uid,
            res,
        ),
    ensures
        res matches Ok(None),
{
    let now = apply(devices, RegistryEventView::UidBound { common_name, uid });
    if owned_elsewhere(now, common_name, uid) {
        let k = choose|k: Seq<char>| #[trigger]
            now.contains_key(k) && now[k].uid == Some(uid) && k != common_name;
        assert(devices.contains_key(k) && devices[k].uid == Some(uid));
        assert(owned_elsewhere(devices, common_name, uid));
    }
}

/// A uid that one device owns is refused to every other.
pub proof fn law_uid_cannot_be_spoofed(
    devices: Devices,
    owner: Seq<char>,
    other: Seq<char>,
    uid: Seq<char>,
    res: Result<Option<RegistryEvent>, RegistryError>,
)
    requires
        devices.contains_key(owner),
        devices[owner].uid == Some(uid),
        other != owner,
        bind_answer(devices, other, uid, res),
    ensures
        res matches Err(RegistryError::UidOwnedByOtherDevice { .. }),
{
    assert(owned_elsewhere(devices, other, uid));
}

/// An event changes nothing but the device it is about.
pub proof fn law_events_leave_other_devices_alone(
    devices: Devices,
    event: RegistryEventView,
    other: Seq<char>,
)
    requires
        event matches RegistryEventView::Enrolled { common_name, .. } ==> common_name != other,
        event matches RegistryEventView::Revoked { common_name } ==> common_name != other,
        event matches RegistryEventView::UidBound { common_name, .. } ==> common_name != other,
    ensures
        apply(devices, event).contains_key(other) == devices.contains_key(other),
        apply(devices, event)[other] == devices[other],
{
}

/// Every record of a replayed registry stands under its own common name.
pub proof fn law_replay_is_keyed(events: Seq<RegistryEventView>)
    ensures
        keyed(replay_spec(events)),
    decreases events.len(),
{
    if events.len() > 0 {
        law_replay_is_keyed(events.drop_last());
    }
}

} // verus!
