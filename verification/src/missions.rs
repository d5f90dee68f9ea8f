//! Missions: shared metadata with a change history, subscribers and roles.
//!
//! A mutation is proposed as an event, the event is logged, and only then is
//! it applied. The same reducer serves live changes and replay. A mission's
//! name is an opaque key: nothing sanitises it.

use crate::eventlog::{event_views, first_corrupt, parsed_events, readable, EventLogError};
use crate::table::{drop_row, lemma_drop_row, lemma_put_row, lemma_row, lemma_row_exists,
    ordered_rows, put_row, rows_map, Table};
use crate::text::{cat, clone_text, clone_texts, lemma_without, same_text, text_in, without, without_spec};
use crate::views::{duplicate_all, duplicate_opt, lemma_view_push, Duplicate};
use vstd::prelude::*;

verus! {

/// Why a mission request is refused.
#[derive(Debug)]
pub enum MissionError {
    /// A live mission has this name.
    AlreadyExists(String),
    /// No live mission has this name.
    NotFound(String),
    /// The mission would be left without an owner.
    LastOwner(String),
    /// The event could not be logged.
    EventLog(EventLogError),
}

impl MissionError {
    /// What `message` says.
    pub open spec fn message_spec(&self) -> Seq<char> {
        match *self {
            MissionError::AlreadyExists(name) => "mission '"@ + name@ + "' already exists"@,
            MissionError::NotFound(name) => "no mission found named '"@ + name@ + "'"@,
            MissionError::LastOwner(name) => "mission '"@ + name@ + "' must keep at least one owner"@,
            MissionError::EventLog(error) => "event log error: "@ + error.message_spec() + ""@,
        }
    }

    /// The error in words.
    pub fn message(&self) -> (res: String)
        ensures
            res@ == self.message_spec(),
    {
        match self {
            MissionError::AlreadyExists(name) => cat("mission '", name, "' already exists"),
            MissionError::NotFound(name) => cat("no mission found named '", name, "'"),
            MissionError::LastOwner(name) => {
                cat("mission '", name, "' must keep at least one owner")
            },
            MissionError::EventLog(error) => cat("event log error: ", &error.message(), ""),
        }
    }
}

/// What an identity may do with a mission.
#[derive(Debug, Clone, Copy, PartialEq, Eq, Structural)]
pub enum MissionRole {
    /// May change and delete the mission, and hand out roles.
    Owner,
    /// May add content.
    Subscriber,
}

impl DeepView for MissionRole {
    type V = MissionRole;

    open spec fn deep_view(&self) -> MissionRole {
        *self
    }
}

/// The kind of an entry in a mission's history.
#[derive(Debug, Clone, Copy, PartialEq, Eq, Structural)]
pub enum ChangeType {
    Create,
    Update,
    AddContent,
    RemoveContent,
    Subscribe,
    Unsubscribe,
}

/// A reference to content that belongs to a mission.
#[derive(Debug, PartialEq)]
pub struct MissionContentRef {
    pub hash: String,
    pub filename: String,
    pub added_at_unix: i64,
    pub creator_uid: String,
}

/// The model of a content reference.
pub struct ContentView {
    pub hash: Seq<char>,
    pub filename: Seq<char>,
    pub added_at_unix: i64,
    pub creator_uid: Seq<char>,
}

impl DeepView for MissionContentRef {
    type V = ContentView;

    open spec fn deep_view(&self) -> ContentView {
        ContentView {
            hash: self.hash@,
            filename: self.filename@,
            added_at_unix: self.added_at_unix,
            creator_uid: self.creator_uid@,
        }
    }
}

impl Duplicate for MissionContentRef {
    fn duplicate(&self) -> (res: Self) {
        MissionContentRef {
            hash: self.hash.clone(),
            filename: self.filename.clone(),
            added_at_unix: self.added_at_unix,
            creator_uid: self.creator_uid.clone(),
        }
    }
}

impl Clone for MissionContentRef {
    fn clone(&self) -> (res: Self)
        ensures
            res.deep_view() == self.deep_view(),
    {
        self.duplicate()
    }
}

/// An entry of a mission's history.
#[derive(Debug, PartialEq)]
pub struct MissionChange {
    pub change_type: ChangeType,
    pub timestamp_unix: i64,
    pub creator_uid: String,
    /// The content that was added or removed; `None` for other changes.
    pub content_hash: Option<String>,
}

/// The model of a history entry.
pub struct ChangeView {
    pub change_type: ChangeType,
    pub timestamp_unix: i64,
    pub creator_uid: Seq<char>,
    pub content_hash: Option<Seq<char>>,
}

impl DeepView for MissionChange {
    type V = ChangeView;

    open spec fn deep_view(&self) -> ChangeView {
        ChangeView {
            change_type: self.change_type,
            timestamp_unix: self.timestamp_unix,
            creator_uid: self.creator_uid@,
            content_hash: self.content_hash.deep_view(),
        }
    }
}

impl Duplicate for MissionChange {
    fn duplicate(&self) -> (res: Self) {
        MissionChange {
            change_type: self.change_type,
            timestamp_unix: self.timestamp_unix,
            creator_uid: self.creator_uid.clone(),
            content_hash: clone_text(&self.content_hash),
        }
    }
}

impl Clone for MissionChange {
    fn clone(&self) -> (res: Self)
        ensures
            res.deep_view() == self.deep_view(),
    {
        self.duplicate()
    }
}

/// A mission.
#[derive(Debug, PartialEq)]
pub struct Mission {
    pub name: String,
    pub description: Option<String>,
    pub creator_uid: String,
    pub created_at_unix: i64,
    pub keywords: Vec<String>,
    pub contents: Vec<MissionContentRef>,
    pub subscribers: Vec<String>,
    /// The role of each identity that has one.
    pub roles: Table<MissionRole>,
}

/// The roles of a mission, each identity once.
pub type Roles = Seq<(Seq<char>, MissionRole)>;

/// The model of a mission.
pub struct MissionView {
    pub name: Seq<char>,
    pub description: Option<Seq<char>>,
    pub creator_uid: Seq<char>,
    pub created_at_unix: i64,
    pub keywords: Seq<Seq<char>>,
    pub contents: Seq<ContentView>,
    pub subscribers: Seq<Seq<char>>,
    pub roles: Roles,
}

impl DeepView for Mission {
    type V = MissionView;

    open spec fn deep_view(&self) -> MissionView {
        MissionView {
            name: self.name@,
            description: self.description.deep_view(),
            creator_uid: self.creator_uid@,
            created_at_unix: self.created_at_unix,
            keywords: self.keywords.deep_view(),
            contents: self.contents.deep_view(),
            subscribers: self.subscribers.deep_view(),
            roles: self.roles.rows(),
        }
    }
}

impl Duplicate for Mission {
    fn duplicate(&self) -> (res: Self) {
        Mission {
            name: self.name.clone(),
            description: clone_text(&self.description),
            creator_uid: self.creator_uid.clone(),
            created_at_unix: self.created_at_unix,
            keywords: clone_texts(&self.keywords),
            contents: duplicate_all(&self.contents),
            subscribers: clone_texts(&self.subscribers),
            roles: self.roles.copied(),
        }
    }
}

impl Clone for Mission {
    fn clone(&self) -> (res: Self)
        ensures
            res.deep_view() == self.deep_view(),
    {
        self.duplicate()
    }
}

/// A name's mission, while it is live, and its whole history.
#[derive(Debug, PartialEq)]
pub struct MissionRecord {
    pub mission: Option<Mission>,
    pub changes: Vec<MissionChange>,
}

/// The model of a mission record.
pub struct RecordView {
    pub mission: Option<MissionView>,
    pub changes: Seq<ChangeView>,
}

impl DeepView for MissionRecord {
    type V = RecordView;

    open spec fn deep_view(&self) -> RecordView {
        RecordView { mission: self.mission.deep_view(), changes: self.changes.deep_view() }
    }
}

impl Duplicate for MissionRecord {
    fn duplicate(&self) -> (res: Self) {
        MissionRecord {
            mission: duplicate_opt(&self.mission),
            changes: duplicate_all(&self.changes),
        }
    }
}

impl Clone for MissionRecord {
    fn clone(&self) -> (res: Self)
        ensures
            res.deep_view() == self.deep_view(),
    {
        self.duplicate()
    }
}

/// What an update changes; `None` leaves a field as it is.
#[derive(Debug, PartialEq)]
pub struct MissionUpdate {
    pub description: Option<String>,
    pub keywords: Option<Vec<String>>,
}

impl Default for MissionUpdate {
    fn default() -> (res: Self)
        ensures
            res.description is None,
            res.keywords is None,
    {
        MissionUpdate { description: None, keywords: None }
    }
}

/// One change of the mission store, as it is logged.
#[derive(Debug, Clone, PartialEq)]
#[allow(inconsistent_fields)]
pub enum MissionEvent {
    Created {
        name: String,
        description: Option<String>,
        creator_uid: String,
        keywords: Vec<String>,
        at_unix: i64,
    },
    Updated {
        name: String,
        description: Option<String>,
        keywords: Option<Vec<String>>,
        actor_uid: String,
        at_unix: i64,
    },
    Deleted { name: String },
    ContentAdded {
        name: String,
        hash: String,
        filename: String,
        creator_uid: String,
        at_unix: i64,
    },
    Subscribed { name: String, uid: String, at_unix: i64 },
    Unsubscribed { name: String, uid: String, at_unix: i64 },
    RoleAssigned { name: String, uid: String, role: MissionRole },
    RoleRevoked { name: String, uid: String },
}

/// The model of a mission event.
#[allow(inconsistent_fields)]
pub enum MissionEventView {
    Created {
        name: Seq<char>,
        description: Option<Seq<char>>,
        creator_uid: Seq<char>,
        keywords: Seq<Seq<char>>,
        at_unix: i64,
    },
    Updated {
        name: Seq<char>,
        description: Option<Seq<char>>,
        keywords: Option<Seq<Seq<char>>>,
        actor_uid: Seq<char>,
        at_unix: i64,
    },
    Deleted { name: Seq<char> },
    ContentAdded {
        name: Seq<char>,
        hash: Seq<char>,
        filename: Seq<char>,
        creator_uid: Seq<char>,
        at_unix: i64,
    },
    Subscribed { name: Seq<char>, uid: Seq<char>, at_unix: i64 },
    Unsubscribed { name: Seq<char>, uid: Seq<char>, at_unix: i64 },
    RoleAssigned { name: Seq<char>, uid: Seq<char>, role: MissionRole },
    RoleRevoked { name: Seq<char>, uid: Seq<char> },
}

impl DeepView for MissionEvent {
    type V = MissionEventView;

    open spec fn deep_view(&self) -> MissionEventView {
        match *self {
            MissionEvent::Created { name, description, creator_uid, keywords, at_unix } =>
                MissionEventView::Created {
                name: name@,
                description: description.deep_view(),
                creator_uid: creator_uid@,
                keywords: keywords.deep_view(),
                at_unix,
            },
            MissionEvent::Updated { name, description, keywords, actor_uid, at_unix } =>
                MissionEventView::Updated {
                name: name@,
                description: description.deep_view(),
                keywords: keywords.deep_view(),
                actor_uid: actor_uid@,
                at_unix,
            },
            MissionEvent::Deleted { name } => MissionEventView::Deleted { name: name@ },
            MissionEvent::ContentAdded { name, hash, filename, creator_uid, at_unix } =>
                MissionEventView::ContentAdded {
                name: name@,
                hash: hash@,
                filename: filename@,
                creator_uid: creator_uid@,
                at_unix,
            },
            MissionEvent::Subscribed { name, uid, at_unix } => MissionEventView::Subscribed {
                name: name@,
                uid: uid@,
                at_unix,
            },
            MissionEvent::Unsubscribed { name, uid, at_unix } => MissionEventView::Unsubscribed {
                name: name@,
                uid: uid@,
                at_unix,
            },
            MissionEvent::RoleAssigned { name, uid, role } => MissionEventView::RoleAssigned {
                name: name@,
                uid: uid@,
                role,
            },
            MissionEvent::RoleRevoked { name, uid } => MissionEventView::RoleRevoked {
                name: name@,
                uid: uid@,
            },
        }
    }
}

/// The records by mission name.
pub type Missions = Map<Seq<char>, RecordView>;

/// The live mission of this name.
pub open spec fn mission_of(missions: Missions, name: Seq<char>) -> Option<MissionView> {
    if missions.contains_key(name) {
        missions[name].mission
    } else {
        None
    }
}

/// The history of this name, empty if it was never used.
pub open spec fn history_of(missions: Missions, name: Seq<char>) -> Seq<ChangeView> {
    if missions.contains_key(name) {
        missions[name].changes
    } else {
        seq![]
    }
}

/// The role of `uid`, if it has one.
pub open spec fn role_in(roles: Roles, uid: Seq<char>) -> Option<MissionRole> {
    if rows_map(roles).contains_key(uid) {
        Some(rows_map(roles)[uid])
    } else {
        None
    }
}

/// The roles after `uid` subscribed: whoever has a role keeps it.
pub open spec fn roles_subscribed(roles: Roles, uid: Seq<char>) -> Roles {
    if role_in(roles, uid) is None {
        put_row(roles, uid, MissionRole::Subscriber)
    } else {
        roles
    }
}

/// The roles after `uid` unsubscribed: an owner stays one.
pub open spec fn roles_unsubscribed(roles: Roles, uid: Seq<char>) -> Roles {
    if role_in(roles, uid) == Some(MissionRole::Subscriber) {
        drop_row(roles, uid)
    } else {
        roles
    }
}

/// The mission that `event` makes of `mission`, which is live or not.
pub open spec fn mission_after(mission: Option<MissionView>, event: MissionEventView) -> Option<
    MissionView,
> {
    match event {
        MissionEventView::Created { name, description, creator_uid, keywords, at_unix } => Some(
            MissionView {
                name,
                description,
                creator_uid,
                created_at_unix: at_unix,
                keywords,
                contents: seq![],
                subscribers: seq![],
                roles: seq![(creator_uid, MissionRole::Owner)],
            },
        ),
        MissionEventView::Deleted { .. } => None,
        _ => match mission {
            None => None,
            Some(m) => Some(
                match event {
                    MissionEventView::Updated { description, keywords, .. } => MissionView {
                        description: if description is Some {
                            description
                        } else {
                            m.description
                        },
                        keywords: match keywords {
                            Some(k) => k,
                            None => m.keywords,
                        },
                        ..m
                    },
                    MissionEventView::ContentAdded {
                        hash,
                        filename,
                        creator_uid,
                        at_unix,
                        ..
                    } => MissionView {
                        contents: m.contents.push(
                            ContentView { hash, filename, added_at_unix: at_unix, creator_uid },
                        ),
                        ..m
                    },
                    MissionEventView::Subscribed { uid, .. } => MissionView {
                        subscribers: m.subscribers.push(uid),
                        roles: roles_subscribed(m.roles, uid),
                        ..m
                    },
                    MissionEventView::Unsubscribed { uid, .. } => MissionView {
                        subscribers: without_spec(m.subscribers, uid),
                        roles: roles_unsubscribed(m.roles, uid),
                        ..m
                    },
                    MissionEventView::RoleAssigned { uid, role, .. } => MissionView {
                        roles: put_row(m.roles, uid, role),
                        ..m
                    },
                    MissionEventView::RoleRevoked { uid, .. } => MissionView {
                        roles: drop_row(m.roles, uid),
                        ..m
                    },
                    _ => m,
                },
            ),
        },
    }
}

/// The history entry that `event` leaves, if it leaves one. Added content is
/// entered in the name of the mission's creator.
pub open spec fn entry_of(mission: Option<MissionView>, event: MissionEventView) -> Option<
    ChangeView,
> {
    match event {
        MissionEventView::Created { creator_uid, at_unix, .. } => Some(
            ChangeView {
                change_type: ChangeType::Create,
                timestamp_unix: at_unix,
                creator_uid,
                content_hash: None,
            },
        ),
        MissionEventView::Updated { actor_uid, at_unix, .. } => Some(
            ChangeView {
                change_type: ChangeType::Update,
                timestamp_unix: at_unix,
                creator_uid: actor_uid,
                content_hash: None,
            },
        ),
        MissionEventView::ContentAdded { hash, creator_uid, at_unix, .. } => Some(
            ChangeView {
                change_type: ChangeType::AddContent,
                timestamp_unix: at_unix,
                creator_uid: match mission {
                    Some(m) => m.creator_uid,
                    None => creator_uid,
                },
                content_hash: Some(hash),
            },
        ),
        MissionEventView::Subscribed { uid, at_unix, .. } => Some(
            ChangeView {
                change_type: ChangeType::Subscribe,
                timestamp_unix: at_unix,
                creator_uid: uid,
                content_hash: None,
            },
        ),
        MissionEventView::Unsubscribed { uid, at_unix, .. } => Some(
            ChangeView {
                change_type: ChangeType::Unsubscribe,
                timestamp_unix: at_unix,
                creator_uid: uid,
                content_hash: None,
            },
        ),
        _ => None,
    }
}

/// The mission that an event is about.
pub open spec fn subject(event: MissionEventView) -> Seq<char> {
    match event {
        MissionEventView::Created { name, .. } => name,
        MissionEventView::Updated { name, .. } => name,
        MissionEventView::Deleted { name } => name,
        MissionEventView::ContentAdded { name, .. } => name,
        MissionEventView::Subscribed { name, .. } => name,
        MissionEventView::Unsubscribed { name, .. } => name,
        MissionEventView::RoleAssigned { name, .. } => name,
        MissionEventView::RoleRevoked { name, .. } => name,
    }
}

/// What `event` makes of `missions`. An event other than a creation changes
/// nothing where its name was never used.
pub open spec fn apply(missions: Missions, event: MissionEventView) -> Missions {
    let name = subject(event);
    if missions.contains_key(name) || event is Created {
        let mission = mission_of(missions, name);
        let changes = history_of(missions, name);
        missions.insert(
            name,
            RecordView {
                mission: mission_after(mission, event),
                changes: match entry_of(mission, event) {
                    Some(entry) => changes.push(entry),
                    None => changes,
                },
            },
        )
    } else {
        missions
    }
}

/// What a log of `events` makes of an empty store.
pub open spec fn replay_spec(events: Seq<MissionEventView>) -> Missions
    decreases events.len(),
{
    if events.len() == 0 {
        Map::empty()
    } else {
        apply(replay_spec(events.drop_last()), events.last())
    }
}

/// Every live mission stands under its own name and gives each identity at
/// most one role.
pub open spec fn consistent(missions: Missions) -> bool {
    forall|k: Seq<char>| #[trigger]
        missions.contains_key(k) ==> (missions[k].mission matches Some(m) ==> m.name == k
            && ordered_rows(m.roles))
}

/// An event keeps the store consistent.
pub proof fn lemma_apply_consistent(missions: Missions, event: MissionEventView)
    requires
        consistent(missions),
    ensures
        consistent(apply(missions, event)),
{
    let name = subject(event);
    if missions.contains_key(name) {
        if let Some(m) = missions[name].mission {
            match event {
                MissionEventView::Subscribed { uid, .. } => {
                    lemma_put_row(m.roles, uid, MissionRole::Subscriber);
                },
                MissionEventView::Unsubscribed { uid, .. } => {
                    lemma_drop_row(m.roles, uid);
                },
                MissionEventView::RoleAssigned { uid, role, .. } => {
                    lemma_put_row(m.roles, uid, role);
                },
                MissionEventView::RoleRevoked { uid, .. } => {
                    lemma_drop_row(m.roles, uid);
                },
                _ => {},
            }
        }
    }
}

/// The missions that this server knows.
#[derive(Debug)]
pub struct MissionStore {
    missions: Table<MissionRecord>,
}

impl MissionStore {
    /// The records by mission name.
    pub closed spec fn missions(&self) -> Missions {
        self.missions.map()
    }

    /// The records in the order of their names.
    pub closed spec fn roll(&self) -> Seq<(Seq<char>, RecordView)> {
        self.missions.rows()
    }

    /// Every name stands once, and its record is consistent.
    pub closed spec fn wf(&self) -> bool {
        self.missions.wf() && consistent(self.missions.map())
    }

    /// The roll is the missions, each once.
    pub proof fn law_roll_is_complete(&self)
        requires
            self.wf(),
        ensures
            ordered_rows(self.roll()),
            self.missions() == rows_map(self.roll()),
            consistent(self.missions()),
    {
    }

    /// An empty store.
    pub fn in_memory() -> (res: Self)
        ensures
            res.wf(),
            res.missions() == Map::<Seq<char>, RecordView>::empty(),
    {
        MissionStore { missions: Table::new() }
    }

    /// The store that a log of `events` describes.
    pub fn replay(events: &Vec<MissionEvent>) -> (res: Self)
        ensures
            res.wf(),
            res.missions() == replay_spec(events.deep_view()),
    {
        let mut res = Self::in_memory();
        let ghost all = events.deep_view();
        let mut i: usize = 0;
        assert(all.take(0) =~= seq![]);
        while i < events.len()
            invariant
                all == events.deep_view(),
                i <= events@.len(),
                res.wf(),
                res.missions() == replay_spec(all.take(i as int)),
            decreases events@.len() - i,
        {
            assert(all.take(i + 1).drop_last() =~= all.take(i as int));
            res.apply_event(&events[i]);
            i = i + 1;
        }
        assert(all.take(i as int) =~= all);
        res
    }

    /// Puts `mission` and, where there is one, a new history entry into the
    /// record of `name`.
    fn revise(&mut self, name: &str, mission: Option<Mission>, entry: Option<MissionChange>)
        requires
            old(self).missions.wf(),
        ensures
            final(self).missions.wf(),
            final(self).missions() == old(self).missions().insert(
                name@,
                RecordView {
                    mission: mission.deep_view(),
                    changes: match entry {
                        Some(e) => history_of(old(self).missions(), name@).push(e.deep_view()),
                        None => history_of(old(self).missions(), name@),
                    },
                },
            ),
    {
        let mut changes: Vec<MissionChange> = match self.missions.get(name) {
            Some(record) => duplicate_all(&record.changes),
            None => Vec::new(),
        };
        assert(changes.deep_view() =~= history_of(self.missions(), name@));
        if let Some(e) = entry {
            let ghost before = changes;
            changes.push(e);
            proof {
                lemma_view_push(before, changes, e);
            }
        }
        self.missions.insert(name.to_owned(), MissionRecord { mission, changes });
    }

    /// Whether `name` was ever used, and its live mission.
    fn known(&self, name: &str) -> (res: Option<Option<Mission>>)
        requires
            self.wf(),
        ensures
            match res {
                Some(mission) => {
                    &&& self.missions().contains_key(name@)
                    &&& mission.deep_view() == mission_of(self.missions(), name@)
                    &&& mission matches Some(m) ==> m.roles.wf()
                },
                None => !self.missions().contains_key(name@),
            },
    {
        match self.missions.get(name) {
            Some(record) => {
                let mission = duplicate_opt(&record.mission);
                Some(mission)
            },
            None => None,
        }
    }

    /// The store that the log at `path` describes, given what each of its
    /// records was parsed into; a log that cannot be read is an error.
    pub fn load_or_create(path: &str, parsed: Vec<(usize, Result<MissionEvent, String>)>) -> (res: Result<
        Self,
        MissionError,
    >)
        ensures
            match res {
                Ok(store) => {
                    &&& readable(parsed@)
                    &&& store.wf()
                    &&& store.missions() == replay_spec(event_views(parsed@))
                },
                Err(MissionError::EventLog(error)) => {
                    &&& !readable(parsed@)
                    &&& first_corrupt(path@, parsed@, error)
                },
                Err(_) => false,
            },
    {
        match parsed_events(path, parsed) {
            Ok(events) => Ok(Self::replay(&events)),
            Err(error) => Err(MissionError::EventLog(error)),
        }
    }

    /// Applies one logged event.
    pub fn apply_event(&mut self, event: &MissionEvent)
        requires
            old(self).wf(),
        ensures
            final(self).wf(),
            final(self).missions() == apply(old(self).missions(), event.deep_view()),
    {
        proof {
            lemma_apply_consistent(self.missions(), event.deep_view());
        }
        match event {
            MissionEvent::Created { name, description, creator_uid, keywords, at_unix } => {
                self.apply_created(name, description, creator_uid, keywords, *at_unix);
            },
            MissionEvent::Updated { name, description, keywords, actor_uid, at_unix } => {
                self.apply_updated(name, description, keywords, actor_uid, *at_unix);
            },
            MissionEvent::Deleted { name } => {
                if self.known(name).is_some() {
                    self.revise(name, None, None);
                }
            },
            MissionEvent::ContentAdded { name, hash, filename, creator_uid, at_unix } => {
                self.apply_content_added(name, hash, filename, creator_uid, *at_unix);
            },
            MissionEvent::Subscribed { name, uid, at_unix } => {
                self.apply_subscribed(name, uid, *at_unix);
            },
            MissionEvent::Unsubscribed { name, uid, at_unix } => {
                self.apply_unsubscribed(name, uid, *at_unix);
            },
            MissionEvent::RoleAssigned { name, uid, role } => {
                if let Some(mission) = self.known(name) {
                    let mission = match mission {
                        Some(mut m) => {
                            m.roles.insert(uid.clone(), *role);
                            Some(m)
                        },
                        None => None,
                    };
                    self.revise(name, mission, None);
                }
            },
            MissionEvent::RoleRevoked { name, uid } => {
                if let Some(mission) = self.known(name) {
                    let mission = match mission {
                        Some(mut m) => {
                            m.roles.remove(uid);
                            Some(m)
                        },
                        None => None,
                    };
                    self.revise(name, mission, None);
                }
            },
        }
    }

    /// Applies a creation.
    fn apply_created(
        &mut self,
        name: &String,
        description: &Option<String>,
        creator_uid: &String,
        keywords: &Vec<String>,
        at_unix: i64,
    )
        requires
            old(self).missions.wf(),
        ensures
            final(self).missions.wf(),
            final(self).missions() == apply(
                old(self).missions(),
                MissionEventView::Created {
                    name: name@,
                    description: description.deep_view(),
                    creator_uid: creator_uid@,
                    keywords: keywords.deep_view(),
                    at_unix,
                },
            ),
    {
        let mut roles: Table<MissionRole> = Table::new();
        roles.insert(creator_uid.clone(), MissionRole::Owner);
        assert(roles.rows() =~= seq![(creator_uid@, MissionRole::Owner)]);
        let contents: Vec<MissionContentRef> = Vec::new();
        let subscribers: Vec<String> = Vec::new();
        assert(contents.deep_view() =~= seq![]);
        assert(subscribers.deep_view() =~= seq![]);
        let mission = Mission {
            name: name.clone(),
            description: clone_text(description),
            creator_uid: creator_uid.clone(),
            created_at_unix: at_unix,
            keywords: clone_texts(keywords),
            contents,
            subscribers,
            roles,
        };
        let entry = MissionChange {
            change_type: ChangeType::Create,
            timestamp_unix: at_unix,
            creator_uid: creator_uid.clone(),
            content_hash: None,
        };
        self.revise(name, Some(mission), Some(entry));
    }

    /// Applies an update.
    fn apply_updated(
        &mut self,
        name: &String,
        description: &Option<String>,
        keywords: &Option<Vec<String>>,
        actor_uid: &String,
        at_unix: i64,
    )
        requires
            old(self).wf(),
        ensures
            final(self).missions.wf(),
            final(self).missions() == apply(
                old(self).missions(),
                MissionEventView::Updated {
                    name: name@,
                    description: description.deep_view(),
                    keywords: keywords.deep_view(),
                    actor_uid: actor_uid@,
                    at_unix,
                },
            ),
    {
        if let Some(mission) = self.known(name) {
            let mission = match mission {
                Some(mut m) => {
                    if description.is_some() {
                        m.description = clone_text(description);
                    }
                    if let Some(words) = keywords {
                        m.keywords = clone_texts(words);
                    }
                    Some(m)
                },
                None => None,
            };
            let entry = MissionChange {
                change_type: ChangeType::Update,
                timestamp_unix: at_unix,
                creator_uid: actor_uid.clone(),
                content_hash: None,
            };
            self.revise(name, mission, Some(entry));
        }
    }

    /// Applies an addition of content.
    fn apply_content_added(
        &mut self,
        name: &String,
        hash: &String,
        filename: &String,
        creator_uid: &String,
        at_unix: i64,
    )
        requires
            old(self).wf(),
        ensures
            final(self).missions.wf(),
            final(self).missions() == apply(
                old(self).missions(),
                MissionEventView::ContentAdded {
                    name: name@,
                    hash: hash@,
                    filename: filename@,
                    creator_uid: creator_uid@,
                    at_unix,
                },
            ),
    {
        if let Some(mission) = self.known(name) {
            let entered_by = match &mission {
                Some(m) => m.creator_uid.clone(),
                None => creator_uid.clone(),
            };
            let mission = match mission {
                Some(mut m) => {
                    let content = MissionContentRef {
                        hash: hash.clone(),
                        filename: filename.clone(),
                        added_at_unix: at_unix,
                        creator_uid: creator_uid.clone(),
                    };
                    let ghost before = m.contents;
                    m.contents.push(content);
                    proof {
                        lemma_view_push(before, m.contents, content);
                    }
                    Some(m)
                },
                None => None,
            };
            let entry = MissionChange {
                change_type: ChangeType::AddContent,
                timestamp_unix: at_unix,
                creator_uid: entered_by,
                content_hash: Some(hash.clone()),
            };
            self.revise(name, mission, Some(entry));
        }
    }

    /// Applies a subscription.
    fn apply_subscribed(&mut self, name: &String, uid: &String, at_unix: i64)
        requires
            old(self).wf(),
        ensures
            final(self).missions.wf(),
            final(self).missions() == apply(
                old(self).missions(),
                MissionEventView::Subscribed { name: name@, uid: uid@, at_unix },
            ),
    {
        if let Some(mission) = self.known(name) {
            let mission = match mission {
                Some(mut m) => {
                    let subscriber = uid.clone();
                    let ghost before = m.subscribers;
                    m.subscribers.push(subscriber);
                    proof {
                        lemma_view_push(before, m.subscribers, subscriber);
                    }
                    if m.roles.get(uid).is_none() {
                        m.roles.insert(uid.clone(), MissionRole::Subscriber);
                    }
                    Some(m)
                },
                None => None,
            };
            let entry = MissionChange {
                change_type: ChangeType::Subscribe,
                timestamp_unix: at_unix,
                creator_uid: uid.clone(),
                content_hash: None,
            };
            self.revise(name, mission, Some(entry));
        }
    }

    /// Applies the end of a subscription.
    fn apply_unsubscribed(&mut self, name: &String, uid: &String, at_unix: i64)
        requires
            old(self).wf(),
        ensures
            final(self).missions.wf(),
            final(self).missions() == apply(
                old(self).missions(),
                MissionEventView::Unsubscribed { name: name@, uid: uid@, at_unix },
            ),
    {
        if let Some(mission) = self.known(name) {
            let mission = match mission {
                Some(mut m) => {
                    m.subscribers = without(&m.subscribers, uid);
                    let is_subscriber = match m.roles.get(uid) {
                        Some(role) => *role == MissionRole::Subscriber,
                        None => false,
                    };
                    if is_subscriber {
                        m.roles.remove(uid);
                    }
                    Some(m)
                },
                None => None,
            };
            let entry = MissionChange {
                change_type: ChangeType::Unsubscribe,
                timestamp_unix: at_unix,
                creator_uid: uid.clone(),
                content_hash: None,
            };
            self.revise(name, mission, Some(entry));
        }
    }
}

/// What is answered to a request that would change a mission.
pub enum MissionAnswer {
    /// The event happens.
    Record(MissionEventView),
    /// The request is met already: nothing happens.
    Nothing,
    /// Refused: a live mission has the name.
    AlreadyExists,
    /// Refused: no live mission has the name.
    NotFound,
    /// Refused: the mission would lose its last owner.
    LastOwner,
}

/// A proposal on the mission `name` gives this answer.
pub open spec fn answers(
    res: Result<Option<MissionEvent>, MissionError>,
    name: Seq<char>,
    answer: MissionAnswer,
) -> bool {
    match answer {
        MissionAnswer::Record(event) => res matches Ok(Some(e)) && e.deep_view() == event,
        MissionAnswer::Nothing => res matches Ok(None),
        MissionAnswer::AlreadyExists => res matches Err(MissionError::AlreadyExists(n)) && n@
            == name,
        MissionAnswer::NotFound => res matches Err(MissionError::NotFound(n)) && n@ == name,
        MissionAnswer::LastOwner => res matches Err(MissionError::LastOwner(n)) && n@ == name,
    }
}

/// A request on the mission `name` ends in `error`, or in none.
pub open spec fn refused_with(
    error: Option<MissionError>,
    name: Seq<char>,
    answer: MissionAnswer,
) -> bool {
    match answer {
        MissionAnswer::Record(_) => error is None,
        MissionAnswer::Nothing => error is None,
        MissionAnswer::AlreadyExists => error matches Some(MissionError::AlreadyExists(n)) && n@
            == name,
        MissionAnswer::NotFound => error matches Some(MissionError::NotFound(n)) && n@ == name,
        MissionAnswer::LastOwner => error matches Some(MissionError::LastOwner(n)) && n@ == name,
    }
}

/// The missions once the answer has taken effect.
pub open spec fn after(missions: Missions, answer: MissionAnswer) -> Missions {
    match answer {
        MissionAnswer::Record(event) => apply(missions, event),
        _ => missions,
    }
}

/// A name that no live mission has is created; any other is taken.
pub open spec fn create_answer(
    missions: Missions,
    name: Seq<char>,
    description: Option<Seq<char>>,
    creator_uid: Seq<char>,
    keywords: Seq<Seq<char>>,
    at_unix: i64,
) -> MissionAnswer {
    if mission_of(missions, name) is Some {
        MissionAnswer::AlreadyExists
    } else {
        MissionAnswer::Record(
            MissionEventView::Created { name, description, creator_uid, keywords, at_unix },
        )
    }
}

/// An event on a live mission happens; on another name it is refused.
pub open spec fn on_live(missions: Missions, event: MissionEventView) -> MissionAnswer {
    if mission_of(missions, subject(event)) is Some {
        MissionAnswer::Record(event)
    } else {
        MissionAnswer::NotFound
    }
}

/// Subscribing is recorded once.
pub open spec fn subscribe_answer(
    missions: Missions,
    name: Seq<char>,
    uid: Seq<char>,
    at_unix: i64,
) -> MissionAnswer {
    match mission_of(missions, name) {
        None => MissionAnswer::NotFound,
        Some(m) => if m.subscribers.contains(uid) {
            MissionAnswer::Nothing
        } else {
            MissionAnswer::Record(MissionEventView::Subscribed { name, uid, at_unix })
        },
    }
}

/// Unsubscribing is recorded where there is a subscription.
pub open spec fn unsubscribe_answer(
    missions: Missions,
    name: Seq<char>,
    uid: Seq<char>,
    at_unix: i64,
) -> MissionAnswer {
    match mission_of(missions, name) {
        None => MissionAnswer::NotFound,
        Some(m) => if m.subscribers.contains(uid) {
            MissionAnswer::Record(MissionEventView::Unsubscribed { name, uid, at_unix })
        } else {
            MissionAnswer::Nothing
        },
    }
}

/// `uid` is the one owner.
pub open spec fn sole_owner(roles: Roles, uid: Seq<char>) -> bool {
    &&& role_in(roles, uid) == Some(MissionRole::Owner)
    &&& forall|k: Seq<char>| #[trigger] role_in(roles, k) == Some(MissionRole::Owner) ==> k == uid
}

/// A role is assigned unless it is held already or the last owner would go.
pub open spec fn assign_role_answer(
    missions: Missions,
    name: Seq<char>,
    uid: Seq<char>,
    role: MissionRole,
) -> MissionAnswer {
    match mission_of(missions, name) {
        None => MissionAnswer::NotFound,
        Some(m) => if role_in(m.roles, uid) == Some(role) {
            MissionAnswer::Nothing
        } else if sole_owner(m.roles, uid) {
            MissionAnswer::LastOwner
        } else {
            MissionAnswer::Record(MissionEventView::RoleAssigned { name, uid, role })
        },
    }
}

/// A role is taken away unless there is none or the last owner would go.
pub open spec fn revoke_role_answer(
    missions: Missions,
    name: Seq<char>,
    uid: Seq<char>,
) -> MissionAnswer {
    match mission_of(missions, name) {
        None => MissionAnswer::NotFound,
        Some(m) => if role_in(m.roles, uid) is None {
            MissionAnswer::Nothing
        } else if sole_owner(m.roles, uid) {
            MissionAnswer::LastOwner
        } else {
            MissionAnswer::Record(MissionEventView::RoleRevoked { name, uid })
        },
    }
}

/// Whether `uid` is the one owner.
fn is_sole_owner(roles: &Table<MissionRole>, uid: &str) -> (res: bool)
    requires
        roles.wf(),
    ensures
        res == sole_owner(roles.rows(), uid@),
{
    let owner = match roles.get(uid) {
        Some(role) => *role == MissionRole::Owner,
        None => false,
    };
    if !owner {
        return false;
    }
    let ghost rows = roles.rows();
    let mut i: usize = 0;
    while i < roles.len()
        invariant
            rows == roles.rows(),
            ordered_rows(rows),
            i <= rows.len(),
            forall|j: int|
                0 <= j < i && (#[trigger] rows[j]).1 == MissionRole::Owner ==> rows[j].0 == uid@,
        decreases rows.len() - i,
    {
        if *roles.value_at(i) == MissionRole::Owner && !same_text(roles.name_at(i), uid) {
            proof {
                lemma_row(rows, i as int);
                assert(role_in(rows, rows[i as int].0) == Some(MissionRole::Owner));
            }
            return false;
        }
        i = i + 1;
    }
    assert forall|k: Seq<char>| #[trigger]
        role_in(rows, k) == Some(MissionRole::Owner) implies k == uid@ by {
        let j = lemma_row_exists(rows, k);
        assert(rows[j].1 == MissionRole::Owner);
    }
    true
}

impl MissionStore {
    /// The live mission of this name.
    pub fn get(&self, name: &str) -> (res: Option<Mission>)
        requires
            self.wf(),
        ensures
            res.deep_view() == mission_of(self.missions(), name@),
            res matches Some(m) ==> m.roles.wf(),
    {
        match self.known(name) {
            Some(mission) => mission,
            None => None,
        }
    }

    /// The live missions, in the order of their names.
    pub fn list(&self) -> (res: Vec<Mission>)
        requires
            self.wf(),
        ensures
            res.deep_view() == self.roll().filter_map(
                |row: (Seq<char>, RecordView)| row.1.mission,
            ),
    {
        let ghost rows = self.missions.rows();
        let ghost live = |row: (Seq<char>, RecordView)| row.1.mission;
        let mut res: Vec<Mission> = Vec::new();
        let mut i: usize = 0;
        assert(res.deep_view() =~= seq![]);
        assert(rows.take(0).filter_map(live) =~= seq![]) by {
            reveal(Seq::filter_map);
        }
        while i < self.missions.len()
            invariant
                rows == self.missions.rows(),
                live == (|row: (Seq<char>, RecordView)| row.1.mission),
                i <= rows.len(),
                res.deep_view() == rows.take(i as int).filter_map(live),
            decreases rows.len() - i,
        {
            let ghost before = res;
            proof {
                rows.lemma_filter_map_take_succ(live, i as int);
            }
            if let Some(mission) = duplicate_opt(&self.missions.value_at(i).mission) {
                res.push(mission);
                proof {
                    lemma_view_push(before, res, mission);
                }
            }
            assert(res.deep_view() =~= rows.take(i + 1).filter_map(live));
            i = i + 1;
        }
        assert(rows.take(i as int) =~= rows);
        res
    }

    /// The history of a name, also after its mission was deleted.
    pub fn changes(&self, name: &str) -> (res: Result<Vec<MissionChange>, MissionError>)
        requires
            self.wf(),
        ensures
            match res {
                Ok(changes) => {
                    &&& self.missions().contains_key(name@)
                    &&& changes.deep_view() == history_of(self.missions(), name@)
                },
                Err(MissionError::NotFound(n)) => {
                    &&& !self.missions().contains_key(name@)
                    &&& n@ == name@
                },
                Err(_) => false,
            },
    {
        match self.missions.get(name) {
            Some(record) => Ok(duplicate_all(&record.changes)),
            None => Err(MissionError::NotFound(name.to_owned())),
        }
    }

    /// The role of `uid` in the live mission of this name.
    pub fn role_of(&self, name: &str, uid: &str) -> (res: Option<MissionRole>)
        requires
            self.wf(),
        ensures
            res == match mission_of(self.missions(), name@) {
                Some(m) => role_in(m.roles, uid@),
                None => None,
            },
    {
        match self.get(name) {
            Some(mission) => match mission.roles.get(uid) {
                Some(role) => Some(*role),
                None => None,
            },
            None => None,
        }
    }

    /// Applies `event` if it was logged; otherwise nothing changes and the
    /// log's error is handed on.
    pub fn commit(&mut self, event: &MissionEvent, logged: Result<(), EventLogError>) -> (res:
        Result<(), MissionError>)
        requires
            old(self).wf(),
        ensures
            final(self).wf(),
            match logged {
                Ok(()) => res is Ok && final(self).missions() == apply(
                    old(self).missions(),
                    event.deep_view(),
                ),
                Err(error) => res == Err::<(), MissionError>(MissionError::EventLog(error))
                    && final(self).missions() == old(self).missions(),
            },
    {
        match logged {
            Ok(()) => {
                self.apply_event(event);
                Ok(())
            },
            Err(error) => Err(MissionError::EventLog(error)),
        }
    }

    /// Makes a proposal happen.
    fn carry_out(&mut self, proposal: Result<Option<MissionEvent>, MissionError>) -> (res: Result<
        (),
        MissionError,
    >)
        requires
            old(self).wf(),
        ensures
            final(self).wf(),
            match proposal {
                Ok(Some(event)) => res is Ok && final(self).missions() == apply(
                    old(self).missions(),
                    event.deep_view(),
                ),
                Ok(None) => res is Ok && final(self).missions() == old(self).missions(),
                Err(error) => res == Err::<(), MissionError>(error) && final(self).missions()
                    == old(self).missions(),
            },
    {
        match proposal {
            Ok(Some(event)) => {
                self.apply_event(&event);
                Ok(())
            },
            Ok(None) => Ok(()),
            Err(error) => Err(error),
        }
    }

    /// What to answer a request to create a mission.
    pub fn propose_create(
        &self,
        name: &str,
        description: Option<String>,
        creator_uid: &str,
        keywords: Vec<String>,
        now_unix: i64,
    ) -> (res: Result<Option<MissionEvent>, MissionError>)
        requires
            self.wf(),
        ensures
            answers(
                res,
                name@,
                create_answer(
                    self.missions(),
                    name@,
                    description.deep_view(),
                    creator_uid@,
                    keywords.deep_view(),
                    now_unix,
                ),
            ),
    {
        if self.get(name).is_some() {
            return Err(MissionError::AlreadyExists(name.to_owned()));
        }
        Ok(
            Some(
                MissionEvent::Created {
                    name: name.to_owned(),
                    description,
                    creator_uid: creator_uid.to_owned(),
                    keywords,
                    at_unix: now_unix,
                },
            ),
        )
    }

    /// Creates a mission; a name that a live mission has is taken.
    pub fn create(
        &mut self,
        name: &str,
        description: Option<String>,
        creator_uid: &str,
        keywords: Vec<String>,
        now_unix: i64,
    ) -> (res: Result<Mission, MissionError>)
        requires
            old(self).wf(),
        ensures
            final(self).wf(),
            ({
                let answer = create_answer(
                    old(self).missions(),
                    name@,
                    description.deep_view(),
                    creator_uid@,
                    keywords.deep_view(),
                    now_unix,
                );
                &&& final(self).missions() == after(old(self).missions(), answer)
                &&& refused_with(res.err(), name@, answer)
                &&& res matches Ok(m) ==> Some(m.deep_view()) == mission_of(
                    final(self).missions(),
                    name@,
                )
            }),
    {
        let proposal = self.propose_create(name, description, creator_uid, keywords, now_unix);
        match self.carry_out(proposal) {
            Ok(()) => self.existing(name),
            Err(error) => Err(error),
        }
    }

    /// The live mission of this name, which must exist.
    fn existing(&self, name: &str) -> (res: Result<Mission, MissionError>)
        requires
            self.wf(),
        ensures
            match res {
                Ok(m) => Some(m.deep_view()) == mission_of(self.missions(), name@),
                Err(MissionError::NotFound(n)) => mission_of(self.missions(), name@) is None && n@
                    == name@,
                Err(_) => false,
            },
    {
        match self.get(name) {
            Some(mission) => Ok(mission),
            None => Err(MissionError::NotFound(name.to_owned())),
        }
    }

    /// What to answer a request to update a mission.
    pub fn propose_update(
        &self,
        name: &str,
        changes: MissionUpdate,
        actor_uid: &str,
        now_unix: i64,
    ) -> (res: Result<Option<MissionEvent>, MissionError>)
        requires
            self.wf(),
        ensures
            answers(
                res,
                name@,
                on_live(
                    self.missions(),
                    MissionEventView::Updated {
                        name: name@,
                        description: changes.description.deep_view(),
                        keywords: changes.keywords.deep_view(),
                        actor_uid: actor_uid@,
                        at_unix: now_unix,
                    },
                ),
            ),
    {
        if self.get(name).is_none() {
            return Err(MissionError::NotFound(name.to_owned()));
        }
        Ok(
            Some(
                MissionEvent::Updated {
                    name: name.to_owned(),
                    description: changes.description,
                    keywords: changes.keywords,
                    actor_uid: actor_uid.to_owned(),
                    at_unix: now_unix,
                },
            ),
        )
    }

    /// Changes the fields of a mission that `changes` names.
    pub fn update(
        &mut self,
        name: &str,
        changes: MissionUpdate,
        actor_uid: &str,
        now_unix: i64,
    ) -> (res: Result<Mission, MissionError>)
        requires
            old(self).wf(),
        ensures
            final(self).wf(),
            ({
                let answer = on_live(
                    old(self).missions(),
                    MissionEventView::Updated {
                        name: name@,
                        description: changes.description.deep_view(),
                        keywords: changes.keywords.deep_view(),
                        actor_uid: actor_uid@,
                        at_unix: now_unix,
                    },
                );
                &&& final(self).missions() == after(old(self).missions(), answer)
                &&& refused_with(res.err(), name@, answer)
                &&& res matches Ok(m) ==> Some(m.deep_view()) == mission_of(
                    final(self).missions(),
                    name@,
                )
            }),
    {
        let proposal = self.propose_update(name, changes, actor_uid, now_unix);
        match self.carry_out(proposal) {
            Ok(()) => self.existing(name),
            Err(error) => Err(error),
        }
    }

    /// What to answer a request to delete a mission.
    pub fn propose_delete(&self, name: &str) -> (res: Result<Option<MissionEvent>, MissionError>)
        requires
            self.wf(),
        ensures
            answers(
                res,
                name@,
                on_live(self.missions(), MissionEventView::Deleted { name: name@ }),
            ),
    {
        if self.get(name).is_none() {
            return Err(MissionError::NotFound(name.to_owned()));
        }
        Ok(Some(MissionEvent::Deleted { name: name.to_owned() }))
    }

    /// Deletes a mission and keeps its history.
    pub fn delete(&mut self, name: &str) -> (res: Result<(), MissionError>)
        requires
            old(self).wf(),
        ensures
            final(self).wf(),
            ({
                let answer = on_live(
                    old(self).missions(),
                    MissionEventView::Deleted { name: name@ },
                );
                &&& final(self).missions() == after(old(self).missions(), answer)
                &&& refused_with(res.err(), name@, answer)
            }),
    {
        let proposal = self.propose_delete(name);
        self.carry_out(proposal)
    }

    /// What to answer a request to add content to a mission.
    pub fn propose_add_content(&self, name: &str, content: MissionContentRef, now_unix: i64) -> (res:
        Result<Option<MissionEvent>, MissionError>)
        requires
            self.wf(),
        ensures
            answers(
                res,
                name@,
                on_live(
                    self.missions(),
                    MissionEventView::ContentAdded {
                        name: name@,
                        hash: content.hash@,
                        filename: content.filename@,
                        creator_uid: content.creator_uid@,
                        at_unix: now_unix,
                    },
                ),
            ),
    {
        if self.get(name).is_none() {
            return Err(MissionError::NotFound(name.to_owned()));
        }
        Ok(
            Some(
                MissionEvent::ContentAdded {
                    name: name.to_owned(),
                    hash: content.hash,
                    filename: content.filename,
                    creator_uid: content.creator_uid,
                    at_unix: now_unix,
                },
            ),
        )
    }

    /// Adds a reference to content to a mission, as of `now_unix`.
    pub fn add_content(&mut self, name: &str, content: MissionContentRef, now_unix: i64) -> (res:
        Result<(), MissionError>)
        requires
            old(self).wf(),
        ensures
            final(self).wf(),
            ({
                let answer = on_live(
                    old(self).missions(),
                    MissionEventView::ContentAdded {
                        name: name@,
                        hash: content.hash@,
                        filename: content.filename@,
                        creator_uid: content.creator_uid@,
                        at_unix: now_unix,
                    },
                );
                &&& final(self).missions() == after(old(self).missions(), answer)
                &&& refused_with(res.err(), name@, answer)
            }),
    {
        let proposal = self.propose_add_content(name, content, now_unix);
        self.carry_out(proposal)
    }

    /// What to answer a request to subscribe to a mission.
    pub fn propose_subscribe(&self, name: &str, uid: &str, now_unix: i64) -> (res: Result<
        Option<MissionEvent>,
        MissionError,
    >)
        requires
            self.wf(),
        ensures
            answers(res, name@, subscribe_answer(self.missions(), name@, uid@, now_unix)),
    {
        match self.get(name) {
            None => Err(MissionError::NotFound(name.to_owned())),
            Some(mission) => if text_in(&mission.subscribers, uid) {
                Ok(None)
            } else {
                Ok(
                    Some(
                        MissionEvent::Subscribed {
                            name: name.to_owned(),
                            uid: uid.to_owned(),
                            at_unix: now_unix,
                        },
                    ),
                )
            },
        }
    }

    /// Subscribes `uid` to a mission; once subscribed, nothing happens.
    pub fn subscribe(&mut self, name: &str, uid: &str, now_unix: i64) -> (res: Result<
        (),
        MissionError,
    >)
        requires
            old(self).wf(),
        ensures
            final(self).wf(),
            ({
                let answer = subscribe_answer(old(self).missions(), name@, uid@, now_unix);
                &&& final(self).missions() == after(old(self).missions(), answer)
                &&& refused_with(res.err(), name@, answer)
            }),
    {
        let proposal = self.propose_subscribe(name, uid, now_unix);
        self.carry_out(proposal)
    }

    /// What to answer a request to unsubscribe from a mission.
    pub fn propose_unsubscribe(&self, name: &str, uid: &str, now_unix: i64) -> (res: Result<
        Option<MissionEvent>,
        MissionError,
    >)
        requires
            self.wf(),
        ensures
            answers(res, name@, unsubscribe_answer(self.missions(), name@, uid@, now_unix)),
    {
        match self.get(name) {
            None => Err(MissionError::NotFound(name.to_owned())),
            Some(mission) => if text_in(&mission.subscribers, uid) {
                Ok(
                    Some(
                        MissionEvent::Unsubscribed {
                            name: name.to_owned(),
                            uid: uid.to_owned(),
                            at_unix: now_unix,
                        },
                    ),
                )
            } else {
                Ok(None)
            },
        }
    }

    /// Unsubscribes `uid` from a mission; where it is not subscribed, nothing
    /// happens.
    pub fn unsubscribe(&mut self, name: &str, uid: &str, now_unix: i64) -> (res: Result<
        (),
        MissionError,
    >)
        requires
            old(self).wf(),
        ensures
            final(self).wf(),
            ({
                let answer = unsubscribe_answer(old(self).missions(), name@, uid@, now_unix);
                &&& final(self).missions() == after(old(self).missions(), answer)
                &&& refused_with(res.err(), name@, answer)
            }),
    {
        let proposal = self.propose_unsubscribe(name, uid, now_unix);
        self.carry_out(proposal)
    }

    /// What to answer a request to give `uid` a role.
    pub fn propose_assign_role(&self, name: &str, uid: &str, role: MissionRole) -> (res: Result<
        Option<MissionEvent>,
        MissionError,
    >)
        requires
            self.wf(),
        ensures
            answers(res, name@, assign_role_answer(self.missions(), name@, uid@, role)),
    {
        match self.get(name) {
            None => Err(MissionError::NotFound(name.to_owned())),
            Some(mission) => {
                let held = match mission.roles.get(uid) {
                    Some(r) => *r == role,
                    None => false,
                };
                if held {
                    Ok(None)
                } else if is_sole_owner(&mission.roles, uid) {
                    Err(MissionError::LastOwner(name.to_owned()))
                } else {
                    Ok(
                        Some(
                            MissionEvent::RoleAssigned {
                                name: name.to_owned(),
                                uid: uid.to_owned(),
                                role,
                            },
                        ),
                    )
                }
            },
        }
    }

    /// Gives `uid` a role in place of the one it has.
    pub fn assign_role(&mut self, name: &str, uid: &str, role: MissionRole) -> (res: Result<
        (),
        MissionError,
    >)
        requires
            old(self).wf(),
        ensures
            final(self).wf(),
            ({
                let answer = assign_role_answer(old(self).missions(), name@, uid@, role);
                &&& final(self).missions() == after(old(self).missions(), answer)
                &&& refused_with(res.err(), name@, answer)
            }),
    {
        let proposal = self.propose_assign_role(name, uid, role);
        self.carry_out(proposal)
    }

    /// What to answer a request to take the role of `uid` away.
    pub fn propose_revoke_role(&self, name: &str, uid: &str) -> (res: Result<
        Option<MissionEvent>,
        MissionError,
    >)
        requires
            self.wf(),
        ensures
            answers(res, name@, revoke_role_answer(self.missions(), name@, uid@)),
    {
        match self.get(name) {
            None => Err(MissionError::NotFound(name.to_owned())),
            Some(mission) => if mission.roles.get(uid).is_none() {
                Ok(None)
            } else if is_sole_owner(&mission.roles, uid) {
                Err(MissionError::LastOwner(name.to_owned()))
            } else {
                Ok(
                    Some(
                        MissionEvent::RoleRevoked { name: name.to_owned(), uid: uid.to_owned() },
                    ),
                )
            },
        }
    }

    /// Takes the role of `uid` away.
    pub fn revoke_role(&mut self, name: &str, uid: &str) -> (res: Result<(), MissionError>)
        requires
            old(self).wf(),
        ensures
            final(self).wf(),
            ({
                let answer = revoke_role_answer(old(self).missions(), name@, uid@);
                &&& final(self).missions() == after(old(self).missions(), answer)
                &&& refused_with(res.err(), name@, answer)
            }),
    {
        let proposal = self.propose_revoke_role(name, uid);
        self.carry_out(proposal)
    }
}

/// Appending an event to the log and applying it to the live state keep the
/// two in step: the state stays what a replay of the log gives.
pub proof fn law_live_state_is_the_replayed_log(
    events: Seq<MissionEventView>,
    event: MissionEventView,
)
    ensures
        replay_spec(events.push(event)) == apply(replay_spec(events), event),
{
    assert(events.push(event).drop_last() =~= events);
}

/// An event changes nothing but the mission it is about.
pub proof fn law_events_leave_other_missions_alone(
    missions: Missions,
    event: MissionEventView,
    other: Seq<char>,
)
    requires
        other != subject(event),
    ensures
        mission_of(apply(missions, event), other) == mission_of(missions, other),
        history_of(apply(missions, event), other) == history_of(missions, other),
        apply(missions, event).contains_key(other) == missions.contains_key(other),
{
}

/// History is only ever added to, by deletion and re-creation too.
pub proof fn law_history_only_grows(
    missions: Missions,
    event: MissionEventView,
    name: Seq<char>,
)
    ensures
        history_of(missions, name).is_prefix_of(history_of(apply(missions, event), name)),
        missions.contains_key(name) ==> apply(missions, event).contains_key(name),
{
    let before = history_of(missions, name);
    let now = history_of(apply(missions, event), name);
    assert(now.subrange(0, before.len() as int) =~= before);
}

/// A mission is created once: as long as it lives, its name is taken.
pub proof fn law_create_is_strict(
    missions: Missions,
    name: Seq<char>,
    description: Option<Seq<char>>,
    creator_uid: Seq<char>,
    keywords: Seq<Seq<char>>,
    at_unix: i64,
    again: Option<Seq<char>>,
    other_uid: Seq<char>,
    other_keywords: Seq<Seq<char>>,
    later: i64,
)
    ensures
        ({
            let now = after(
                missions,
                create_answer(missions, name, description, creator_uid, keywords, at_unix),
            );
            &&& mission_of(now, name) is Some
            &&& create_answer(now, name, again, other_uid, other_keywords, later)
                == MissionAnswer::AlreadyExists
        }),
{
}

/// An update changes the fields it names, and no others; it is entered in the
/// history.
pub proof fn law_update_is_partial(
    missions: Missions,
    name: Seq<char>,
    description: Option<Seq<char>>,
    keywords: Option<Seq<Seq<char>>>,
    actor_uid: Seq<char>,
    at_unix: i64,
)
    requires
        mission_of(missions, name) is Some,
    ensures
        ({
            let event = MissionEventView::Updated {
                name,
                description,
                keywords,
                actor_uid,
                at_unix,
            };
            let was = mission_of(missions, name)->0;
            let now = mission_of(apply(missions, event), name);
            &&& now matches Some(m)
            &&& m == (MissionView { description: m.description, keywords: m.keywords, ..was })
            &&& m.description == if description is Some { description } else { was.description }
            &&& m.keywords == match keywords { Some(k) => k, None => was.keywords }
            &&& history_of(apply(missions, event), name).last().change_type == ChangeType::Update
            &&& history_of(apply(missions, event), name).last().creator_uid == actor_uid
        }),
{
}

/// A deleted mission is gone and its history stays; its name can be used
/// again, and the history goes on.
pub proof fn law_delete_keeps_history(
    missions: Missions,
    name: Seq<char>,
    description: Option<Seq<char>>,
    creator_uid: Seq<char>,
    keywords: Seq<Seq<char>>,
    at_unix: i64,
)
    requires
        mission_of(missions, name) is Some,
    ensures
        ({
            let gone = apply(missions, MissionEventView::Deleted { name });
            let answer = create_answer(gone, name, description, creator_uid, keywords, at_unix);
            &&& mission_of(gone, name) is None
            &&& gone.contains_key(name)
            &&& history_of(gone, name) == history_of(missions, name)
            &&& answer is Record
            &&& history_of(after(gone, answer), name).drop_last() == history_of(missions, name)
        }),
{
    let gone = apply(missions, MissionEventView::Deleted { name });
    let answer = create_answer(gone, name, description, creator_uid, keywords, at_unix);
    assert(history_of(after(gone, answer), name).drop_last() =~= history_of(missions, name));
}

/// Subscribing twice is subscribing once.
pub proof fn law_subscribe_is_idempotent(
    missions: Missions,
    name: Seq<char>,
    uid: Seq<char>,
    at_unix: i64,
    later: i64,
)
    requires
        mission_of(missions, name) is Some,
    ensures
        ({
            let now = after(missions, subscribe_answer(missions, name, uid, at_unix));
            &&& mission_of(now, name) is Some
            &&& mission_of(now, name)->0.subscribers.contains(uid)
            &&& subscribe_answer(now, name, uid, later) == MissionAnswer::Nothing
        }),
{
    let was = mission_of(missions, name)->0;
    if !was.subscribers.contains(uid) {
        assert(was.subscribers.push(uid).last() == uid);
    }
}

/// Unsubscribing twice is unsubscribing once, and leaves no subscription.
pub proof fn law_unsubscribe_is_idempotent(
    missions: Missions,
    name: Seq<char>,
    uid: Seq<char>,
    at_unix: i64,
    later: i64,
)
    requires
        mission_of(missions, name) is Some,
    ensures
        ({
            let now = after(missions, unsubscribe_answer(missions, name, uid, at_unix));
            &&& mission_of(now, name) is Some
            &&& !mission_of(now, name)->0.subscribers.contains(uid)
            &&& unsubscribe_answer(now, name, uid, later) == MissionAnswer::Nothing
        }),
{
    let was = mission_of(missions, name)->0;
    lemma_without(was.subscribers, uid);
}

/// Nobody is subscribed twice.
pub open spec fn subscribed_once(missions: Missions) -> bool {
    forall|k: Seq<char>|
        (#[trigger] mission_of(missions, k)) matches Some(m) ==> m.subscribers.no_duplicates()
}

/// Some identity owns the mission.
pub open spec fn has_owner(roles: Roles) -> bool {
    exists|k: Seq<char>| #[trigger] role_in(roles, k) == Some(MissionRole::Owner)
}

/// Every live mission has an owner.
pub open spec fn all_owned(missions: Missions) -> bool {
    forall|k: Seq<char>|
        (#[trigger] mission_of(missions, k)) matches Some(m) ==> has_owner(m.roles)
}

/// The store may make `event` happen in this state: what its answers record.
pub open spec fn admissible(missions: Missions, event: MissionEventView) -> bool {
    match event {
        MissionEventView::Created { name, description, creator_uid, keywords, at_unix } =>
            create_answer(missions, name, description, creator_uid, keywords, at_unix)
            == MissionAnswer::Record(event),
        MissionEventView::Subscribed { name, uid, at_unix } => subscribe_answer(
            missions,
            name,
            uid,
            at_unix,
        ) == MissionAnswer::Record(event),
        MissionEventView::Unsubscribed { name, uid, at_unix } => unsubscribe_answer(
            missions,
            name,
            uid,
            at_unix,
        ) == MissionAnswer::Record(event),
        MissionEventView::RoleAssigned { name, uid, role } => assign_role_answer(
            missions,
            name,
            uid,
            role,
        ) == MissionAnswer::Record(event),
        MissionEventView::RoleRevoked { name, uid } => revoke_role_answer(missions, name, uid)
            == MissionAnswer::Record(event),
        _ => on_live(missions, event) == MissionAnswer::Record(event),
    }
}

/// Every event of the log was admissible when it was appended.
pub open spec fn admissible_log(events: Seq<MissionEventView>) -> bool
    decreases events.len(),
{
    events.len() == 0 || (admissible_log(events.drop_last()) && admissible(
        replay_spec(events.drop_last()),
        events.last(),
    ))
}

/// Subscribing and unsubscribing never demote an owner.
pub proof fn law_subscription_never_demotes_an_owner(roles: Roles, uid: Seq<char>, k: Seq<char>)
    requires
        ordered_rows(roles),
        role_in(roles, k) == Some(MissionRole::Owner),
    ensures
        role_in(roles_subscribed(roles, uid), k) == Some(MissionRole::Owner),
        role_in(roles_unsubscribed(roles, uid), k) == Some(MissionRole::Owner),
{
    lemma_put_row(roles, uid, MissionRole::Subscriber);
    lemma_drop_row(roles, uid);
}

/// Whoever subscribes has a role, and whoever unsubscribes and was no owner
/// has none.
pub proof fn law_subscription_grants_a_role(roles: Roles, uid: Seq<char>)
    requires
        ordered_rows(roles),
    ensures
        role_in(roles_subscribed(roles, uid), uid) is Some,
        role_in(roles, uid) is None ==> role_in(roles_subscribed(roles, uid), uid) == Some(
            MissionRole::Subscriber,
        ),
        role_in(roles, uid) != Some(MissionRole::Owner) ==> role_in(
            roles_unsubscribed(roles, uid),
            uid,
        ) is None,
{
    lemma_put_row(roles, uid, MissionRole::Subscriber);
    lemma_drop_row(roles, uid);
}

/// An admissible event leaves every live mission an owner.
proof fn lemma_owned_step(missions: Missions, event: MissionEventView)
    requires
        consistent(missions),
        all_owned(missions),
        admissible(missions, event),
    ensures
        all_owned(apply(missions, event)),
{
    let name = subject(event);
    let now = apply(missions, event);
    assert forall|k: Seq<char>| (#[trigger] mission_of(now, k)) matches Some(m) implies has_owner(
        mission_of(now, k)->0.roles,
    ) by {
        if k != name {
            assert(mission_of(now, k) == mission_of(missions, k));
        } else {
            let roles = mission_of(now, k)->0.roles;
            if let MissionEventView::Created { creator_uid, .. } = event {
                lemma_row(roles, 0);
                assert(role_in(roles, creator_uid) == Some(MissionRole::Owner));
            } else {
                let was = mission_of(missions, k)->0;
                assert(ordered_rows(was.roles));
                let owner = choose|o: Seq<char>| #[trigger]
                    role_in(was.roles, o) == Some(MissionRole::Owner);
                assert(role_in(was.roles, owner) == Some(MissionRole::Owner));
                match event {
                    MissionEventView::Subscribed { uid, .. } => {
                        law_subscription_never_demotes_an_owner(was.roles, uid, owner);
                        assert(role_in(roles, owner) == Some(MissionRole::Owner));
                    },
                    MissionEventView::Unsubscribed { uid, .. } => {
                        law_subscription_never_demotes_an_owner(was.roles, uid, owner);
                        assert(role_in(roles, owner) == Some(MissionRole::Owner));
                    },
                    MissionEventView::RoleAssigned { uid, role, .. } => {
                        lemma_put_row(was.roles, uid, role);
                        if owner == uid {
                            assert(!sole_owner(was.roles, uid));
                            let o = choose|o: Seq<char>| #[trigger]
                                role_in(was.roles, o) == Some(MissionRole::Owner) && o != uid;
                            assert(role_in(roles, o) == Some(MissionRole::Owner));
                        } else {
                            assert(role_in(roles, owner) == Some(MissionRole::Owner));
                        }
                    },
                    MissionEventView::RoleRevoked { uid, .. } => {
                        lemma_drop_row(was.roles, uid);
                        if owner == uid {
                            assert(!sole_owner(was.roles, uid));
                            let o = choose|o: Seq<char>| #[trigger]
                                role_in(was.roles, o) == Some(MissionRole::Owner) && o != uid;
                            assert(role_in(roles, o) == Some(MissionRole::Owner));
                        } else {
                            assert(role_in(roles, owner) == Some(MissionRole::Owner));
                        }
                    },
                    _ => {},
                }
            }
        }
    }
}

/// A replayed store is consistent, whatever the log holds.
pub proof fn law_replay_is_consistent(events: Seq<MissionEventView>)
    ensures
        consistent(replay_spec(events)),
    decreases events.len(),
{
    if events.len() > 0 {
        law_replay_is_consistent(events.drop_last());
        lemma_apply_consistent(replay_spec(events.drop_last()), events.last());
    }
}

/// No live mission is ever without an owner.
pub proof fn law_missions_always_have_an_owner(events: Seq<MissionEventView>)
    requires
        admissible_log(events),
    ensures
        all_owned(replay_spec(events)),
    decreases events.len(),
{
    if events.len() > 0 {
        law_missions_always_have_an_owner(events.drop_last());
        law_replay_is_consistent(events.drop_last());
        lemma_owned_step(replay_spec(events.drop_last()), events.last());
    }
}

/// Nobody is ever subscribed to a mission twice.
pub proof fn law_nobody_is_subscribed_twice(events: Seq<MissionEventView>)
    requires
        admissible_log(events),
    ensures
        subscribed_once(replay_spec(events)),
    decreases events.len(),
{
    if events.len() > 0 {
        let missions = replay_spec(events.drop_last());
        let event = events.last();
        let now = apply(missions, event);
        law_nobody_is_subscribed_twice(events.drop_last());
        assert forall|k: Seq<char>| (#[trigger] mission_of(now, k)) matches Some(
            m,
        ) implies mission_of(now, k)->0.subscribers.no_duplicates() by {
            if k != subject(event) {
                assert(mission_of(now, k) == mission_of(missions, k));
            } else if !(event is Created) {
                let was = mission_of(missions, k)->0;
                if let MissionEventView::Unsubscribed { uid, .. } = event {
                    lemma_filter_no_duplicates(was.subscribers, uid);
                }
            }
        }
    }
}

/// Leaving entries out makes no duplicates.
proof fn lemma_filter_no_duplicates(list: Seq<Seq<char>>, s: Seq<char>)
    requires
        list.no_duplicates(),
    ensures
        without_spec(list, s).no_duplicates(),
    decreases list.len(),
{
    reveal(Seq::filter);
    if list.len() > 0 {
        let head = list.drop_last();
        lemma_filter_no_duplicates(head, s);
        let kept = without_spec(head, s);
        if list.last() != s {
            assert(without_spec(list, s) == kept.push(list.last()));
            assert forall|i: int| 0 <= i < kept.len() implies kept[i] != list.last() by {
                lemma_without(head, s);
                assert(kept.contains(kept[i]));
                assert(head.contains(kept[i]));
            }
        }
    }
}

/// A created mission is live under its name with what it was created with; it
/// has no content and no subscribers, and its creator is its owner and the only
/// one with a role. The creation is entered behind the name's earlier history.
pub proof fn law_creation_makes_a_new_mission(
    missions: Missions,
    name: Seq<char>,
    description: Option<Seq<char>>,
    creator_uid: Seq<char>,
    keywords: Seq<Seq<char>>,
    at_unix: i64,
    other: Seq<char>,
)
    ensures
        ({
            let now = apply(
                missions,
                MissionEventView::Created { name, description, creator_uid, keywords, at_unix },
            );
            let history = history_of(now, name);
            &&& mission_of(now, name) matches Some(m)
            &&& m.name == name
            &&& m.description == description
            &&& m.creator_uid == creator_uid
            &&& m.created_at_unix == at_unix
            &&& m.keywords == keywords
            &&& m.contents.len() == 0
            &&& m.subscribers.len() == 0
            &&& role_in(m.roles, creator_uid) == Some(MissionRole::Owner)
            &&& other != creator_uid ==> role_in(m.roles, other) is None
            &&& history.len() == history_of(missions, name).len() + 1
            &&& history.drop_last() == history_of(missions, name)
            &&& history.last().change_type == ChangeType::Create
            &&& history.last().timestamp_unix == at_unix
            &&& history.last().creator_uid == creator_uid
            &&& history.last().content_hash is None
        }),
{
    let now = apply(
        missions,
        MissionEventView::Created { name, description, creator_uid, keywords, at_unix },
    );
    let roles = mission_of(now, name)->0.roles;
    lemma_row(roles, 0);
    if rows_map(roles).contains_key(other) {
        let i = lemma_row_exists(roles, other);
    }
    assert(history_of(now, name).drop_last() =~= history_of(missions, name));
}

/// Added content is referred to behind everything that was added before, by its
/// hash and file name, with who added it and when; nothing else about the
/// mission changes. It is entered in the history, in the name of the mission's
/// creator.
pub proof fn law_content_is_added_behind_the_rest(
    missions: Missions,
    name: Seq<char>,
    hash: Seq<char>,
    filename: Seq<char>,
    creator_uid: Seq<char>,
    at_unix: i64,
)
    requires
        mission_of(missions, name) is Some,
    ensures
        ({
            let was = mission_of(missions, name)->0;
            let now = apply(
                missions,
                MissionEventView::ContentAdded { name, hash, filename, creator_uid, at_unix },
            );
            let history = history_of(now, name);
            &&& mission_of(now, name) matches Some(m)
            &&& m.contents.len() == was.contents.len() + 1
            &&& forall|i: int|
                0 <= i < was.contents.len() ==> #[trigger] m.contents[i] == was.contents[i]
            &&& m.contents.last().hash == hash
            &&& m.contents.last().filename == filename
            &&& m.contents.last().added_at_unix == at_unix
            &&& m.contents.last().creator_uid == creator_uid
            &&& m.name == was.name
            &&& m.description == was.description
            &&& m.creator_uid == was.creator_uid
            &&& m.created_at_unix == was.created_at_unix
            &&& m.keywords == was.keywords
            &&& m.subscribers == was.subscribers
            &&& m.roles == was.roles
            &&& history.len() == history_of(missions, name).len() + 1
            &&& history.drop_last() == history_of(missions, name)
            &&& history.last().change_type == ChangeType::AddContent
            &&& history.last().timestamp_unix == at_unix
            &&& history.last().creator_uid == was.creator_uid
            &&& history.last().content_hash == Some(hash)
        }),
{
    let now = apply(
        missions,
        MissionEventView::ContentAdded { name, hash, filename, creator_uid, at_unix },
    );
    assert(history_of(now, name).drop_last() =~= history_of(missions, name));
}

/// The content that a log adds to the mission `name` after it was last created,
/// in order.
pub open spec fn added_since_creation(events: Seq<MissionEventView>, name: Seq<char>) -> Seq<
    ContentView,
>
    decreases events.len(),
{
    if events.len() == 0 {
        seq![]
    } else {
        let before = added_since_creation(events.drop_last(), name);
        match events.last() {
            MissionEventView::Created { name: n, .. } => if n == name {
                seq![]
            } else {
                before
            },
            MissionEventView::ContentAdded { name: n, hash, filename, creator_uid, at_unix } =>
                if n == name {
                before.push(ContentView { hash, filename, added_at_unix: at_unix, creator_uid })
            } else {
                before
            },
            _ => before,
        }
    }
}

/// A live mission refers to exactly the content that its log has added since it
/// was created, in order.
pub proof fn law_contents_are_what_was_added(events: Seq<MissionEventView>, name: Seq<char>)
    ensures
        mission_of(replay_spec(events), name) matches Some(m) ==> m.contents
            == added_since_creation(events, name),
    decreases events.len(),
{
    if events.len() > 0 {
        let head = events.drop_last();
        law_contents_are_what_was_added(head, name);
        if subject(events.last()) != name {
            law_events_leave_other_missions_alone(replay_spec(head), events.last(), name);
        }
    }
}

/// An update leaves the content, the subscribers and the roles of a mission as
/// they are, and who created it and when.
pub proof fn law_updates_touch_description_and_keywords_only(
    missions: Missions,
    name: Seq<char>,
    description: Option<Seq<char>>,
    keywords: Option<Seq<Seq<char>>>,
    actor_uid: Seq<char>,
    at_unix: i64,
)
    requires
        mission_of(missions, name) is Some,
    ensures
        ({
            let was = mission_of(missions, name)->0;
            let now = apply(
                missions,
                MissionEventView::Updated { name, description, keywords, actor_uid, at_unix },
            );
            let history = history_of(now, name);
            &&& mission_of(now, name) matches Some(m)
            &&& description is Some ==> m.description == description
            &&& description is None ==> m.description == was.description
            &&& keywords matches Some(words) ==> m.keywords == words
            &&& keywords is None ==> m.keywords == was.keywords
            &&& m.name == was.name
            &&& m.creator_uid == was.creator_uid
            &&& m.created_at_unix == was.created_at_unix
            &&& m.contents == was.contents
            &&& m.subscribers == was.subscribers
            &&& m.roles == was.roles
            &&& history.len() == history_of(missions, name).len() + 1
            &&& history.drop_last() == history_of(missions, name)
            &&& history.last().change_type == ChangeType::Update
            &&& history.last().timestamp_unix == at_unix
            &&& history.last().creator_uid == actor_uid
            &&& history.last().content_hash is None
        }),
{
    let now = apply(
        missions,
        MissionEventView::Updated { name, description, keywords, actor_uid, at_unix },
    );
    assert(history_of(now, name).drop_last() =~= history_of(missions, name));
}

/// Whoever subscribes stands behind the earlier subscribers, and becomes a
/// subscriber by role where it had none; nobody else's role and nothing else
/// about the mission changes. It is entered in the history.
pub proof fn law_subscribing_adds_one_subscriber(
    missions: Missions,
    name: Seq<char>,
    uid: Seq<char>,
    at_unix: i64,
    k: Seq<char>,
)
    requires
        consistent(missions),
        mission_of(missions, name) is Some,
    ensures
        ({
            let was = mission_of(missions, name)->0;
            let now = apply(missions, MissionEventView::Subscribed { name, uid, at_unix });
            let history = history_of(now, name);
            &&& mission_of(now, name) matches Some(m)
            &&& m.subscribers.len() == was.subscribers.len() + 1
            &&& m.subscribers.last() == uid
            &&& m.subscribers.drop_last() == was.subscribers
            &&& role_in(m.roles, k) == if k == uid && role_in(was.roles, k) is None {
                Some(MissionRole::Subscriber)
            } else {
                role_in(was.roles, k)
            }
            &&& m.name == was.name
            &&& m.description == was.description
            &&& m.creator_uid == was.creator_uid
            &&& m.created_at_unix == was.created_at_unix
            &&& m.keywords == was.keywords
            &&& m.contents == was.contents
            &&& history.len() == history_of(missions, name).len() + 1
            &&& history.drop_last() == history_of(missions, name)
            &&& history.last().change_type == ChangeType::Subscribe
            &&& history.last().timestamp_unix == at_unix
            &&& history.last().creator_uid == uid
            &&& history.last().content_hash is None
        }),
{
    let was = mission_of(missions, name)->0;
    let now = apply(missions, MissionEventView::Subscribed { name, uid, at_unix });
    assert(mission_of(now, name)->0.subscribers.drop_last() =~= was.subscribers);
    assert(history_of(now, name).drop_last() =~= history_of(missions, name));
    lemma_put_row(was.roles, uid, MissionRole::Subscriber);
}

/// Whoever unsubscribes is no subscriber any more, by role neither, unless it
/// owns the mission; everybody else stays subscribed, nobody else's role and
/// nothing else about the mission changes. It is entered in the history.
pub proof fn law_unsubscribing_removes_one_subscriber(
    missions: Missions,
    name: Seq<char>,
    uid: Seq<char>,
    at_unix: i64,
    k: Seq<char>,
)
    requires
        consistent(missions),
        mission_of(missions, name) is Some,
    ensures
        ({
            let was = mission_of(missions, name)->0;
            let now = apply(missions, MissionEventView::Unsubscribed { name, uid, at_unix });
            let history = history_of(now, name);
            &&& mission_of(now, name) matches Some(m)
            &&& m.subscribers.contains(k) <==> was.subscribers.contains(k) && k != uid
            &&& !was.subscribers.contains(uid) ==> m.subscribers == was.subscribers
            &&& forall|i: int|
                was.subscribers.no_duplicates() && 0 <= i < was.subscribers.len()
                    && #[trigger] was.subscribers[i] == uid ==> m.subscribers
                    == was.subscribers.remove(i)
            &&& role_in(m.roles, k) == if k == uid && role_in(was.roles, k) == Some(
                MissionRole::Subscriber,
            ) {
                None
            } else {
                role_in(was.roles, k)
            }
            &&& m.name == was.name
            &&& m.description == was.description
            &&& m.creator_uid == was.creator_uid
            &&& m.created_at_unix == was.created_at_unix
            &&& m.keywords == was.keywords
            &&& m.contents == was.contents
            &&& history.len() == history_of(missions, name).len() + 1
            &&& history.drop_last() == history_of(missions, name)
            &&& history.last().change_type == ChangeType::Unsubscribe
            &&& history.last().timestamp_unix == at_unix
            &&& history.last().creator_uid == uid
            &&& history.last().content_hash is None
        }),
{
    let was = mission_of(missions, name)->0;
    let now = apply(missions, MissionEventView::Unsubscribed { name, uid, at_unix });
    assert(history_of(now, name).drop_last() =~= history_of(missions, name));
    lemma_drop_row(was.roles, uid);
    lemma_without(was.subscribers, uid);
    lemma_without_none(was.subscribers, uid);
    assert forall|i: int|
        was.subscribers.no_duplicates() && 0 <= i < was.subscribers.len()
            && #[trigger] was.subscribers[i] == uid implies mission_of(now, name)->0.subscribers
        == was.subscribers.remove(i) by {
        lemma_without_one(was.subscribers, i);
    }
}

/// Leaving out what stands once takes out that one.
proof fn lemma_without_one(list: Seq<Seq<char>>, i: int)
    requires
        list.no_duplicates(),
        0 <= i < list.len(),
    ensures
        without_spec(list, list[i]) == list.remove(i),
    decreases list.len(),
{
    reveal(Seq::filter);
    let s = list[i];
    let head = list.drop_last();
    let last = list.last();
    assert(list[list.len() - 1] == last);
    if i < head.len() {
        assert(head.no_duplicates());
        lemma_without_one(head, i);
        assert(last != s);
        assert(without_spec(list, s) == head.remove(i).push(last));
        assert(head.remove(i).push(last) =~= list.remove(i));
    } else {
        assert(!head.contains(s)) by {
            if head.contains(s) {
                assert(list[head.index_of(s)] == s);
            }
        }
        lemma_without_none(head, s);
        assert(list.remove(i) =~= head);
    }
}

/// Leaving out what is not there leaves a list as it is.
proof fn lemma_without_none(list: Seq<Seq<char>>, s: Seq<char>)
    ensures
        !list.contains(s) ==> without_spec(list, s) == list,
    decreases list.len(),
{
    reveal(Seq::filter);
    if list.len() > 0 && !list.contains(s) {
        let head = list.drop_last();
        assert(!head.contains(s)) by {
            if head.contains(s) {
                assert(list[head.index_of(s)] == s);
            }
        }
        lemma_without_none(head, s);
        assert(list[list.len() - 1] != s);
        assert(head.push(list.last()) =~= list);
    } else if list.len() == 0 {
        assert(without_spec(list, s) =~= list);
    }
}

/// An assigned role is held in place of any other, and a revoked one is held no
/// more; nobody else's role, nothing else about the mission and nothing in its
/// history changes.
pub proof fn law_roles_change_for_one_identity(
    missions: Missions,
    name: Seq<char>,
    uid: Seq<char>,
    role: MissionRole,
    k: Seq<char>,
)
    requires
        consistent(missions),
        mission_of(missions, name) is Some,
    ensures
        ({
            let was = mission_of(missions, name)->0;
            let given = apply(missions, MissionEventView::RoleAssigned { name, uid, role });
            let taken = apply(missions, MissionEventView::RoleRevoked { name, uid });
            &&& mission_of(given, name) matches Some(m)
            &&& mission_of(taken, name) matches Some(n)
            &&& role_in(m.roles, k) == if k == uid {
                Some(role)
            } else {
                role_in(was.roles, k)
            }
            &&& role_in(n.roles, k) == if k == uid {
                None
            } else {
                role_in(was.roles, k)
            }
            &&& m == (MissionView { roles: m.roles, ..was })
            &&& n == (MissionView { roles: n.roles, ..was })
            &&& history_of(given, name) == history_of(missions, name)
            &&& history_of(taken, name) == history_of(missions, name)
        }),
{
    let was = mission_of(missions, name)->0;
    lemma_put_row(was.roles, uid, role);
    lemma_drop_row(was.roles, uid);
}

/// Nothing but a creation brings a mission to life: on a name that was never
/// used nothing happens, and on one whose mission is gone it stays gone.
pub proof fn law_only_creation_brings_a_mission_to_life(
    missions: Missions,
    event: MissionEventView,
)
    requires
        !(event is Created),
    ensures
        !missions.contains_key(subject(event)) ==> apply(missions, event) == missions,
        mission_of(missions, subject(event)) is None ==> mission_of(
            apply(missions, event),
            subject(event),
        ) is None,
        event is Deleted ==> mission_of(apply(missions, event), subject(event)) is None,
        !(event is Deleted) && mission_of(missions, subject(event)) is Some ==> mission_of(
            apply(missions, event),
            subject(event),
        ) is Some,
{
}

/// What each request is answered, by the mission that its name has: one that
/// needs a live mission is refused where there is none, and otherwise recorded
/// as asked.
pub proof fn law_requests_are_recorded_as_asked(
    missions: Missions,
    event: MissionEventView,
    name: Seq<char>,
    uid: Seq<char>,
    role: MissionRole,
    at_unix: i64,
)
    ensures
        on_live(missions, event) == if mission_of(missions, subject(event)) is Some {
            MissionAnswer::Record(event)
        } else {
            MissionAnswer::NotFound
        },
        mission_of(missions, name) is None ==> {
            &&& subscribe_answer(missions, name, uid, at_unix) == MissionAnswer::NotFound
            &&& unsubscribe_answer(missions, name, uid, at_unix) == MissionAnswer::NotFound
            &&& assign_role_answer(missions, name, uid, role) == MissionAnswer::NotFound
            &&& revoke_role_answer(missions, name, uid) == MissionAnswer::NotFound
        },
        mission_of(missions, name) matches Some(m) ==> {
            &&& subscribe_answer(missions, name, uid, at_unix) == if m.subscribers.contains(uid) {
                MissionAnswer::Nothing
            } else {
                MissionAnswer::Record(MissionEventView::Subscribed { name, uid, at_unix })
            }
            &&& unsubscribe_answer(missions, name, uid, at_unix) == if m.subscribers.contains(
                uid,
            ) {
                MissionAnswer::Record(MissionEventView::Unsubscribed { name, uid, at_unix })
            } else {
                MissionAnswer::Nothing
            }
            &&& role_in(m.roles, uid) == Some(role) ==> assign_role_answer(
                missions,
                name,
                uid,
                role,
            ) == MissionAnswer::Nothing
            &&& role_in(m.roles, uid) != Some(role) && role_in(m.roles, uid) != Some(
                MissionRole::Owner,
            ) ==> assign_role_answer(missions, name, uid, role) == MissionAnswer::Record(
                MissionEventView::RoleAssigned { name, uid, role },
            )
            &&& role_in(m.roles, uid) is None ==> revoke_role_answer(missions, name, uid)
                == MissionAnswer::Nothing
            &&& role_in(m.roles, uid) == Some(MissionRole::Subscriber) ==> revoke_role_answer(
                missions,
                name,
                uid,
            ) == MissionAnswer::Record(MissionEventView::RoleRevoked { name, uid })
        },
{
}

/// An owner's role can be changed or taken away exactly as long as another
/// owner is left.
pub proof fn law_the_last_owner_stays(
    missions: Missions,
    name: Seq<char>,
    uid: Seq<char>,
    second: Seq<char>,
)
    requires
        mission_of(missions, name) matches Some(m) && role_in(m.roles, uid) == Some(
            MissionRole::Owner,
        ),
    ensures
        ({
            let roles = mission_of(missions, name)->0.roles;
            let demoted = assign_role_answer(missions, name, uid, MissionRole::Subscriber);
            let removed = revoke_role_answer(missions, name, uid);
            &&& second != uid && role_in(roles, second) == Some(MissionRole::Owner) ==> demoted
                == MissionAnswer::Record(
                MissionEventView::RoleAssigned { name, uid, role: MissionRole::Subscriber },
            ) && removed == MissionAnswer::Record(MissionEventView::RoleRevoked { name, uid })
            &&& (forall|k: Seq<char>|
                k != uid ==> #[trigger] role_in(roles, k) != Some(MissionRole::Owner)) ==> demoted
                == MissionAnswer::LastOwner && removed == MissionAnswer::LastOwner
        }),
{
}

/// Every event about a used name is entered once, with its kind and time, but
/// for deletions and roles, which are not entered.
pub proof fn law_each_change_is_entered_once(missions: Missions, event: MissionEventView)
    requires
        missions.contains_key(subject(event)),
    ensures
        ({
            let was = history_of(missions, subject(event));
            let now = history_of(apply(missions, event), subject(event));
            match event {
                MissionEventView::Created { at_unix, .. } => now.len() == was.len() + 1
                    && now.last().change_type == ChangeType::Create && now.last().timestamp_unix
                    == at_unix,
                MissionEventView::Updated { at_unix, .. } => now.len() == was.len() + 1
                    && now.last().change_type == ChangeType::Update && now.last().timestamp_unix
                    == at_unix,
                MissionEventView::ContentAdded { at_unix, hash, .. } => now.len() == was.len() + 1
                    && now.last().change_type == ChangeType::AddContent
                    && now.last().timestamp_unix == at_unix && now.last().content_hash == Some(
                    hash,
                ),
                MissionEventView::Subscribed { at_unix, .. } => now.len() == was.len() + 1
                    && now.last().change_type == ChangeType::Subscribe && now.last().timestamp_unix
                    == at_unix,
                MissionEventView::Unsubscribed { at_unix, .. } => now.len() == was.len() + 1
                    && now.last().change_type == ChangeType::Unsubscribe
                    && now.last().timestamp_unix == at_unix,
                _ => now == was,
            }
        }),
{
}

/// A proposal says what its answer is: the event to record, that there is
/// nothing to do, or the refusal, with the name it is about; and only what is
/// recorded changes anything.
pub proof fn law_proposals_say_what_is_answered(
    missions: Missions,
    res: Result<Option<MissionEvent>, MissionError>,
    name: Seq<char>,
    answer: MissionAnswer,
)
    requires
        answers(res, name, answer),
    ensures
        res matches Ok(Some(event)) ==> answer == MissionAnswer::Record(event.deep_view()) && after(
            missions,
            answer,
        ) == apply(missions, event.deep_view()),
        res matches Ok(None) ==> answer is Nothing && after(missions, answer) == missions,
        res matches Err(error) ==> {
            &&& after(missions, answer) == missions
            &&& refused_with(Some(error), name, answer)
            &&& !refused_with(None, name, answer)
            &&& answer is AlreadyExists <==> (error matches MissionError::AlreadyExists(n) && n@
                == name)
            &&& answer is NotFound <==> (error matches MissionError::NotFound(n) && n@ == name)
            &&& answer is LastOwner <==> (error matches MissionError::LastOwner(n) && n@ == name)
            &&& answer is AlreadyExists || answer is NotFound || answer is LastOwner
        },
        res is Ok ==> refused_with(None, name, answer),
{
}

} // verus!
