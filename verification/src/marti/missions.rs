//! Missions over HTTP: who may do what, and what each request is answered.
//!
//! A request may only speak for whoever sends it. Reading is open to every
//! client; changing or deleting a mission and handing out roles takes an
//! owner, adding content takes any role.

use crate::eventlog::EventLogError;
use crate::marti::reply::{error_reply, PeerIdentity, Reply, ReplyView};
use crate::missions::{after, answers, apply, assign_role_answer, create_answer, mission_of, on_live,
    revoke_role_answer, role_in, subscribe_answer, unsubscribe_answer, Mission,
    MissionAnswer, MissionChange, MissionContentRef, MissionError, MissionEvent, MissionEventView,
    MissionRole, MissionStore, MissionUpdate, MissionView, Missions};
use crate::text::{cat, clone_text, clone_texts, same_text};
use vstd::prelude::*;

verus! {

/// A request that would change a mission.
#[derive(Debug)]
#[allow(inconsistent_fields)]
pub enum MissionRequest {
    Create {
        name: String,
        description: Option<String>,
        creator_uid: String,
        keywords: Vec<String>,
    },
    Update {
        name: String,
        description: Option<String>,
        keywords: Option<Vec<String>>,
        actor_uid: String,
    },
    Delete { name: String },
    AddContent { name: String, hash: String, filename: String, creator_uid: String },
    Subscribe { name: String, uid: String },
    Unsubscribe { name: String, uid: String },
    AssignRole { name: String, uid: String, role: MissionRole },
    RevokeRole { name: String, uid: String },
}

impl MissionRequest {
    /// The mission that the request is about.
    pub open spec fn name_spec(&self) -> Seq<char> {
        match *self {
            MissionRequest::Create { name, .. } => name@,
            MissionRequest::Update { name, .. } => name@,
            MissionRequest::Delete { name } => name@,
            MissionRequest::AddContent { name, .. } => name@,
            MissionRequest::Subscribe { name, .. } => name@,
            MissionRequest::Unsubscribe { name, .. } => name@,
            MissionRequest::AssignRole { name, .. } => name@,
            MissionRequest::RevokeRole { name, .. } => name@,
        }
    }

    /// The identity that the request speaks for, where it names one.
    pub open spec fn claim_spec(&self) -> Option<Seq<char>> {
        match *self {
            MissionRequest::Create { creator_uid, .. } => Some(creator_uid@),
            MissionRequest::Update { actor_uid, .. } => Some(actor_uid@),
            MissionRequest::AddContent { creator_uid, .. } => Some(creator_uid@),
            MissionRequest::Subscribe { uid, .. } => Some(uid@),
            MissionRequest::Unsubscribe { uid, .. } => Some(uid@),
            _ => None,
        }
    }

    /// Whether a sender with this role may have the request met.
    pub open spec fn allowed_to(&self, role: Option<MissionRole>) -> bool {
        match *self {
            MissionRequest::Update { .. } => role == Some(MissionRole::Owner),
            MissionRequest::Delete { .. } => role == Some(MissionRole::Owner),
            MissionRequest::AddContent { .. } => role is Some,
            MissionRequest::AssignRole { .. } => role == Some(MissionRole::Owner),
            MissionRequest::RevokeRole { .. } => role == Some(MissionRole::Owner),
            _ => true,
        }
    }

    /// What the mission store answers the request.
    pub open spec fn store_answer(&self, missions: Missions, now_unix: i64) -> MissionAnswer {
        match *self {
            MissionRequest::Create { name, description, creator_uid, keywords } => create_answer(
                missions,
                name@,
                description.deep_view(),
                creator_uid@,
                keywords.deep_view(),
                now_unix,
            ),
            MissionRequest::Update { name, description, keywords, actor_uid } => on_live(
                missions,
                MissionEventView::Updated {
                    name: name@,
                    description: description.deep_view(),
                    keywords: keywords.deep_view(),
                    actor_uid: actor_uid@,
                    at_unix: now_unix,
                },
            ),
            MissionRequest::Delete { name } => on_live(
                missions,
                MissionEventView::Deleted { name: name@ },
            ),
            MissionRequest::AddContent { name, hash, filename, creator_uid } => on_live(
                missions,
                MissionEventView::ContentAdded {
                    name: name@,
                    hash: hash@,
                    filename: filename@,
                    creator_uid: creator_uid@,
                    at_unix: now_unix,
                },
            ),
            MissionRequest::Subscribe { name, uid } => subscribe_answer(
                missions,
                name@,
                uid@,
                now_unix,
            ),
            MissionRequest::Unsubscribe { name, uid } => unsubscribe_answer(
                missions,
                name@,
                uid@,
                now_unix,
            ),
            MissionRequest::AssignRole { name, uid, role } => assign_role_answer(
                missions,
                name@,
                uid@,
                role,
            ),
            MissionRequest::RevokeRole { name, uid } => revoke_role_answer(missions, name@, uid@),
        }
    }

    /// The answer to the request once it is met: a created or changed mission
    /// is sent back as it now is.
    pub open spec fn met(&self, missions: Missions) -> ReplyView<MissionView> {
        match *self {
            MissionRequest::Create { name, .. } => match mission_of(missions, name@) {
                Some(m) => ReplyView::Body { status: 201, body: m },
                None => ReplyView::Empty { status: 201 },
            },
            MissionRequest::Update { name, .. } => match mission_of(missions, name@) {
                Some(m) => ReplyView::Body { status: 200, body: m },
                None => ReplyView::Empty { status: 200 },
            },
            MissionRequest::Delete { .. } => ReplyView::Empty { status: 204 },
            _ => ReplyView::Empty { status: 200 },
        }
    }
}

/// The role of `peer` in the mission of this name.
pub open spec fn role_at(missions: Missions, name: Seq<char>, peer: Seq<char>) -> Option<
    MissionRole,
> {
    match mission_of(missions, name) {
        Some(m) => role_in(m.roles, peer),
        None => None,
    }
}

/// What a request from `peer` comes to.
pub enum Verdict {
    /// It speaks for somebody else.
    ClaimMismatch,
    /// Its sender's role does not suffice.
    RoleMissing,
    /// The mission store decides.
    Store(MissionAnswer),
}

/// What a request from `peer` comes to. A false claim is refused before the
/// mission is looked at, a missing mission before the sender's role.
pub open spec fn verdict(
    missions: Missions,
    peer: Seq<char>,
    request: MissionRequest,
    now_unix: i64,
) -> Verdict {
    if request.claim_spec() matches Some(claim) && claim != peer {
        Verdict::ClaimMismatch
    } else if request is Create || mission_of(missions, request.name_spec()) is None
        || request.allowed_to(role_at(missions, request.name_spec(), peer)) {
        Verdict::Store(request.store_answer(missions, now_unix))
    } else {
        Verdict::RoleMissing
    }
}

/// The answer to an error of the store.
pub open spec fn error_view(error: MissionError) -> ReplyView<MissionView> {
    match error {
        MissionError::AlreadyExists(name) => ReplyView::Error {
            status: 409,
            message: "mission '"@ + name@ + "' already exists"@,
        },
        MissionError::NotFound(name) => ReplyView::Error {
            status: 404,
            message: "no mission named '"@ + name@ + "'"@,
        },
        MissionError::LastOwner(_) => ReplyView::Error {
            status: 409,
            message: error.message_spec(),
        },
        MissionError::EventLog(_) => ReplyView::Error {
            status: 500,
            message: error.message_spec(),
        },
    }
}

/// The answer that a refusal of the store gives.
pub open spec fn refusal(name: Seq<char>, answer: MissionAnswer) -> ReplyView<MissionView> {
    match answer {
        MissionAnswer::AlreadyExists => ReplyView::Error {
            status: 409,
            message: "mission '"@ + name + "' already exists"@,
        },
        MissionAnswer::NotFound => ReplyView::Error {
            status: 404,
            message: "no mission named '"@ + name + "'"@,
        },
        _ => ReplyView::Error {
            status: 409,
            message: "mission '"@ + name + "' must keep at least one owner"@,
        },
    }
}

/// The answer to an error of the store.
pub fn mission_error_response(error: MissionError) -> (res: Reply<Mission>)
    ensures
        res.deep_view() == error_view(error),
{
    match &error {
        MissionError::AlreadyExists(name) => Reply::Error {
            status: 409,
            message: cat("mission '", name, "' already exists"),
        },
        MissionError::NotFound(name) => Reply::Error {
            status: 404,
            message: cat("no mission named '", name, "'"),
        },
        MissionError::LastOwner(_) => Reply::Error { status: 409, message: error.message() },
        MissionError::EventLog(_) => Reply::Error { status: 500, message: error.message() },
    }
}

/// All live missions.
pub fn list_missions(store: &MissionStore) -> (res: Reply<Vec<Mission>>)
    requires
        store.wf(),
    ensures
        res.deep_view() == (ReplyView::Body {
            status: 200u16,
            body: store.roll().filter_map(
                |row: (Seq<char>, crate::missions::RecordView)| row.1.mission,
            ),
        }),
{
    Reply::Body { status: 200, body: store.list() }
}

/// One live mission.
pub fn get_mission(store: &MissionStore, name: &str) -> (res: Reply<Mission>)
    requires
        store.wf(),
    ensures
        res.deep_view() == match mission_of(store.missions(), name@) {
            Some(m) => ReplyView::Body { status: 200u16, body: m },
            None => refusal(name@, MissionAnswer::NotFound),
        },
{
    match store.get(name) {
        Some(mission) => Reply::Body { status: 200, body: mission },
        None => mission_error_response(MissionError::NotFound(name.to_owned())),
    }
}

/// The history of a name, also after its mission was deleted.
pub fn get_changes(store: &MissionStore, name: &str) -> (res: Reply<Vec<MissionChange>>)
    requires
        store.wf(),
    ensures
        res.deep_view() == if store.missions().contains_key(name@) {
            ReplyView::Body {
                status: 200u16,
                body: crate::missions::history_of(store.missions(), name@),
            }
        } else {
            ReplyView::Error { status: 404, message: "no mission named '"@ + name@ + "'"@ }
        },
{
    match store.changes(name) {
        Ok(changes) => Reply::Body { status: 200, body: changes },
        Err(_) => Reply::Error { status: 404, message: cat("no mission named '", name, "'") },
    }
}

/// What to do next about a request.
#[derive(Debug)]
pub enum MissionStep {
    /// Answer it.
    Answer(Reply<Mission>),
    /// Log this event, then finish.
    Log(MissionEvent),
}

/// The answer to a claim that is not the sender's.
pub open spec fn claim_refusal() -> ReplyView<MissionView> {
    ReplyView::Error {
        status: 403,
        message: "claimed identity does not match the authenticated client certificate"@,
    }
}

/// The answer to a sender without the role that is needed.
pub open spec fn role_refusal() -> ReplyView<MissionView> {
    ReplyView::Error { status: 403, message: "insufficient mission role for this action"@ }
}

/// The step that a verdict calls for.
pub open spec fn step_for(
    request: MissionRequest,
    missions: Missions,
    v: Verdict,
    step: MissionStep,
) -> bool {
    match v {
        Verdict::ClaimMismatch => step matches MissionStep::Answer(r) && r.deep_view()
            == claim_refusal(),
        Verdict::RoleMissing => step matches MissionStep::Answer(r) && r.deep_view()
            == role_refusal(),
        Verdict::Store(MissionAnswer::Record(event)) => step matches MissionStep::Log(e)
            && e.deep_view() == event,
        Verdict::Store(MissionAnswer::Nothing) => step matches MissionStep::Answer(r)
            && r.deep_view() == request.met(missions),
        Verdict::Store(answer) => step matches MissionStep::Answer(r) && r.deep_view() == refusal(
            request.name_spec(),
            answer,
        ),
    }
}

impl MissionRequest {
    /// The mission that the request is about.
    pub fn name(&self) -> (res: &String)
        ensures
            res@ == self.name_spec(),
    {
        match self {
            MissionRequest::Create { name, .. } => name,
            MissionRequest::Update { name, .. } => name,
            MissionRequest::Delete { name } => name,
            MissionRequest::AddContent { name, .. } => name,
            MissionRequest::Subscribe { name, .. } => name,
            MissionRequest::Unsubscribe { name, .. } => name,
            MissionRequest::AssignRole { name, .. } => name,
            MissionRequest::RevokeRole { name, .. } => name,
        }
    }

    /// Whether the request speaks for nobody but `peer`.
    fn speaks_for(&self, peer: &str) -> (res: bool)
        ensures
            res == (self.claim_spec() matches Some(claim) ==> claim == peer@),
    {
        match self {
            MissionRequest::Create { creator_uid, .. } => same_text(creator_uid, peer),
            MissionRequest::Update { actor_uid, .. } => same_text(actor_uid, peer),
            MissionRequest::AddContent { creator_uid, .. } => same_text(creator_uid, peer),
            MissionRequest::Subscribe { uid, .. } => same_text(uid, peer),
            MissionRequest::Unsubscribe { uid, .. } => same_text(uid, peer),
            _ => true,
        }
    }

    /// Whether a sender with this role may have the request met.
    fn allows(&self, role: Option<MissionRole>) -> (res: bool)
        ensures
            res == self.allowed_to(role),
    {
        let owner = match role {
            Some(r) => r == MissionRole::Owner,
            None => false,
        };
        match self {
            MissionRequest::Update { .. } => owner,
            MissionRequest::Delete { .. } => owner,
            MissionRequest::AddContent { .. } => role.is_some(),
            MissionRequest::AssignRole { .. } => owner,
            MissionRequest::RevokeRole { .. } => owner,
            _ => true,
        }
    }

    /// What the mission store answers the request.
    fn propose(&self, store: &MissionStore, now_unix: i64) -> (res: Result<
        Option<MissionEvent>,
        MissionError,
    >)
        requires
            store.wf(),
        ensures
            answers(res, self.name_spec(), self.store_answer(store.missions(), now_unix)),
    {
        match self {
            MissionRequest::Create { name, description, creator_uid, keywords } => {
                store.propose_create(
                    name,
                    clone_text(description),
                    creator_uid,
                    clone_texts(keywords),
                    now_unix,
                )
            },
            MissionRequest::Update { name, description, keywords, actor_uid } => {
                let words = match keywords {
                    Some(k) => Some(clone_texts(k)),
                    None => None,
                };
                let changes = MissionUpdate { description: clone_text(description), keywords: words };
                store.propose_update(name, changes, actor_uid, now_unix)
            },
            MissionRequest::Delete { name } => store.propose_delete(name),
            MissionRequest::AddContent { name, hash, filename, creator_uid } => {
                let content = MissionContentRef {
                    hash: hash.clone(),
                    filename: filename.clone(),
                    added_at_unix: now_unix,
                    creator_uid: creator_uid.clone(),
                };
                store.propose_add_content(name, content, now_unix)
            },
            MissionRequest::Subscribe { name, uid } => {
                store.propose_subscribe(name, uid, now_unix)
            },
            MissionRequest::Unsubscribe { name, uid } => {
                store.propose_unsubscribe(name, uid, now_unix)
            },
            MissionRequest::AssignRole { name, uid, role } => {
                store.propose_assign_role(name, uid, *role)
            },
            MissionRequest::RevokeRole { name, uid } => store.propose_revoke_role(name, uid),
        }
    }

    /// The answer once the request is met.
    fn success(&self, store: &MissionStore) -> (res: Reply<Mission>)
        requires
            store.wf(),
        ensures
            res.deep_view() == self.met(store.missions()),
    {
        match self {
            MissionRequest::Create { name, .. } => match store.get(name) {
                Some(mission) => Reply::Body { status: 201, body: mission },
                None => Reply::Empty { status: 201 },
            },
            MissionRequest::Update { name, .. } => match store.get(name) {
                Some(mission) => Reply::Body { status: 200, body: mission },
                None => Reply::Empty { status: 200 },
            },
            MissionRequest::Delete { .. } => Reply::Empty { status: 204 },
            _ => Reply::Empty { status: 200 },
        }
    }

    /// Decides about the request: it is answered, or an event is to be logged
    /// first.
    pub fn begin(&self, store: &MissionStore, peer: &PeerIdentity, now_unix: i64) -> (res:
        MissionStep)
        requires
            store.wf(),
        ensures
            step_for(
                *self,
                store.missions(),
                verdict(store.missions(), peer.deep_view(), *self, now_unix),
                res,
            ),
    {
        if !self.speaks_for(&peer.0) {
            return MissionStep::Answer(
                error_reply(
                    403,
                    "claimed identity does not match the authenticated client certificate",
                ),
            );
        }
        let exists = store.get(self.name()).is_some();
        let creates = match self {
            MissionRequest::Create { .. } => true,
            _ => false,
        };
        if !creates && exists && !self.allows(store.role_of(self.name(), &peer.0)) {
            return MissionStep::Answer(
                error_reply(403, "insufficient mission role for this action"),
            );
        }
        match self.propose(store, now_unix) {
            Ok(Some(event)) => MissionStep::Log(event),
            Ok(None) => MissionStep::Answer(self.success(store)),
            Err(error) => MissionStep::Answer(mission_error_response(error)),
        }
    }

    /// Ends a request whose event was to be logged: if it was, it is applied.
    pub fn finish(
        &self,
        store: &mut MissionStore,
        event: &MissionEvent,
        logged: Result<(), EventLogError>,
    ) -> (res: Reply<Mission>)
        requires
            old(store).wf(),
        ensures
            final(store).wf(),
            match logged {
                Ok(()) => {
                    &&& final(store).missions() == apply(old(store).missions(), event.deep_view())
                    &&& res.deep_view() == self.met(final(store).missions())
                },
                Err(error) => {
                    &&& final(store).missions() == old(store).missions()
                    &&& res.deep_view() == error_view(MissionError::EventLog(error))
                },
            },
    {
        match store.commit(event, logged) {
            Ok(()) => self.success(store),
            Err(error) => mission_error_response(error),
        }
    }

    /// Decides about the request and, where it is granted, makes it happen.
    pub fn handle(&self, store: &mut MissionStore, peer: &PeerIdentity, now_unix: i64) -> (res:
        Reply<Mission>)
        requires
            old(store).wf(),
        ensures
            final(store).wf(),
            match verdict(old(store).missions(), peer.deep_view(), *self, now_unix) {
                Verdict::ClaimMismatch => {
                    &&& final(store).missions() == old(store).missions()
                    &&& res.deep_view() == claim_refusal()
                },
                Verdict::RoleMissing => {
                    &&& final(store).missions() == old(store).missions()
                    &&& res.deep_view() == role_refusal()
                },
                Verdict::Store(answer) => {
                    &&& final(store).missions() == after(old(store).missions(), answer)
                    &&& res.deep_view() == if answer is Record || answer is Nothing {
                        self.met(final(store).missions())
                    } else {
                        refusal(self.name_spec(), answer)
                    }
                },
            },
    {
        match self.begin(store, peer, now_unix) {
            MissionStep::Answer(reply) => reply,
            MissionStep::Log(event) => self.finish(store, &event, Ok(())),
        }
    }
}

/// A request that speaks for somebody else is refused, whatever it asks.
pub proof fn law_nobody_speaks_for_another(
    missions: Missions,
    peer: Seq<char>,
    request: MissionRequest,
    now_unix: i64,
)
    requires
        request.claim_spec() is Some,
        request.claim_spec() != Some(peer),
    ensures
        verdict(missions, peer, request, now_unix) == Verdict::ClaimMismatch,
{
}

/// Whoever has no role in a live mission can join it and leave it, and change
/// nothing else about it.
pub proof fn law_outsiders_change_nothing(
    missions: Missions,
    peer: Seq<char>,
    request: MissionRequest,
    now_unix: i64,
)
    requires
        mission_of(missions, request.name_spec()) is Some,
        role_at(missions, request.name_spec(), peer) is None,
        !(request is Subscribe),
        !(request is Unsubscribe),
    ensures
        match verdict(missions, peer, request, now_unix) {
            Verdict::Store(answer) => request is Create && answer == MissionAnswer::AlreadyExists,
            _ => true,
        },
{
}

/// A subscriber may add content, and may not change or delete the mission or
/// hand out roles.
pub proof fn law_subscribers_only_contribute(
    missions: Missions,
    peer: Seq<char>,
    request: MissionRequest,
    now_unix: i64,
)
    requires
        role_at(missions, request.name_spec(), peer) == Some(MissionRole::Subscriber),
    ensures
        request is AddContent && request.claim_spec() == Some(peer) ==> verdict(
            missions,
            peer,
            request,
            now_unix,
        ) matches Verdict::Store(MissionAnswer::Record(_)),
        request is Update || request is Delete || request is AssignRole || request is RevokeRole
            ==> verdict(missions, peer, request, now_unix) is ClaimMismatch || verdict(
            missions,
            peer,
            request,
            now_unix,
        ) is RoleMissing,
{
}

/// A mission that was just created is its creator's to change and delete.
pub proof fn law_creators_own_their_missions(
    missions: Missions,
    name: Seq<char>,
    description: Option<Seq<char>>,
    creator_uid: Seq<char>,
    keywords: Seq<Seq<char>>,
    at_unix: i64,
)
    requires
        mission_of(missions, name) is None,
    ensures
        role_at(
            after(
                missions,
                create_answer(missions, name, description, creator_uid, keywords, at_unix),
            ),
            name,
            creator_uid,
        ) == Some(MissionRole::Owner),
{
    let roles = seq![(creator_uid, MissionRole::Owner)];
    crate::table::lemma_row(roles, 0);
}

/// An owner of a mission who speaks for nobody else may do anything about it
/// that the store lets happen; so may anybody about a name without a mission,
/// and anybody may create one and join or leave one in their own name.
pub proof fn law_who_is_let_through(
    missions: Missions,
    peer: Seq<char>,
    request: MissionRequest,
    now_unix: i64,
)
    requires
        request.claim_spec() is None || request.claim_spec() == Some(peer),
    ensures
        role_at(missions, request.name_spec(), peer) == Some(MissionRole::Owner) || mission_of(
            missions,
            request.name_spec(),
        ) is None || request is Create || request is Subscribe || request is Unsubscribe ==> verdict(
            missions,
            peer,
            request,
            now_unix,
        ) == Verdict::Store(request.store_answer(missions, now_unix)),
        verdict(missions, peer, request, now_unix) != Verdict::ClaimMismatch,
{
}

/// A request is about the mission that it names, and speaks for whoever it says
/// does it: the creator, the actor, the uploader or the subscriber. One that
/// deletes or hands out roles speaks for nobody but its sender.
pub proof fn law_what_a_request_claims(
    name: String,
    uid: String,
    text: String,
    hash: String,
    words: Vec<String>,
    role: MissionRole,
)
    ensures
        (MissionRequest::Create {
            name,
            description: None,
            creator_uid: uid,
            keywords: words,
        }).claim_spec() == Some(uid@),
        (MissionRequest::Update {
            name,
            description: None,
            keywords: None,
            actor_uid: uid,
        }).claim_spec() == Some(uid@),
        (MissionRequest::AddContent { name, hash, filename: text, creator_uid: uid }).claim_spec()
            == Some(uid@),
        (MissionRequest::Subscribe { name, uid }).claim_spec() == Some(uid@),
        (MissionRequest::Unsubscribe { name, uid }).claim_spec() == Some(uid@),
        (MissionRequest::Delete { name }).claim_spec() is None,
        (MissionRequest::AssignRole { name, uid, role }).claim_spec() is None,
        (MissionRequest::RevokeRole { name, uid }).claim_spec() is None,
        (MissionRequest::Delete { name }).name_spec() == name@,
        (MissionRequest::Subscribe { name, uid }).name_spec() == name@,
        (MissionRequest::AssignRole { name, uid, role }).name_spec() == name@,
{
}

/// What a request that is met makes happen is what it asks for: the event is of
/// its kind, about its mission, and in the name of its sender where it names one.
pub proof fn law_requests_make_happen_what_they_ask(
    missions: Missions,
    peer: Seq<char>,
    request: MissionRequest,
    now_unix: i64,
    event: MissionEventView,
)
    requires
        verdict(missions, peer, request, now_unix) == Verdict::Store(MissionAnswer::Record(event)),
    ensures
        match request {
            MissionRequest::Create { name, description, creator_uid, keywords } => event == (
            MissionEventView::Created {
                name: name@,
                description: description.deep_view(),
                creator_uid: peer,
                keywords: keywords.deep_view(),
                at_unix: now_unix,
            }),
            MissionRequest::Update { name, description, keywords, actor_uid } => event == (
            MissionEventView::Updated {
                name: name@,
                description: description.deep_view(),
                keywords: keywords.deep_view(),
                actor_uid: peer,
                at_unix: now_unix,
            }),
            MissionRequest::Delete { name } => event == (MissionEventView::Deleted { name: name@ }),
            MissionRequest::AddContent { name, hash, filename, creator_uid } => event == (
            MissionEventView::ContentAdded {
                name: name@,
                hash: hash@,
                filename: filename@,
                creator_uid: peer,
                at_unix: now_unix,
            }),
            MissionRequest::Subscribe { name, uid } => event == (MissionEventView::Subscribed {
                name: name@,
                uid: peer,
                at_unix: now_unix,
            }),
            MissionRequest::Unsubscribe { name, uid } => event == (
            MissionEventView::Unsubscribed { name: name@, uid: peer, at_unix: now_unix }),
            MissionRequest::AssignRole { name, uid, role } => event == (
            MissionEventView::RoleAssigned { name: name@, uid: uid@, role }),
            MissionRequest::RevokeRole { name, uid } => event == (MissionEventView::RoleRevoked {
                name: name@,
                uid: uid@,
            }),
        },
{
}

/// A created or changed mission is sent back as it is; what is refused is told
/// apart by its status: a name that is taken and a last owner are conflicts, a
/// name without a mission is not found.
pub proof fn law_replies_are_told_apart(
    missions: Missions,
    request: MissionRequest,
    name: Seq<char>,
    error: MissionError,
)
    ensures
        mission_of(missions, request.name_spec()) matches Some(m) ==> {
            &&& request is Create ==> request.met(missions) == (ReplyView::Body {
                status: 201u16,
                body: m,
            })
            &&& request is Update ==> request.met(missions) == (ReplyView::Body {
                status: 200u16,
                body: m,
            })
        },
        request is Delete ==> request.met(missions) == (ReplyView::<MissionView>::Empty {
            status: 204,
        }),
        !(request is Create) && !(request is Update) && !(request is Delete) ==> request.met(
            missions,
        ) == (ReplyView::<MissionView>::Empty { status: 200 }),
        refusal(name, MissionAnswer::AlreadyExists) matches ReplyView::Error { status, .. }
            && status == 409,
        refusal(name, MissionAnswer::NotFound) matches ReplyView::Error { status, .. } && status
            == 404,
        refusal(name, MissionAnswer::LastOwner) matches ReplyView::Error { status, .. } && status
            == 409,
        error_view(error) matches ReplyView::Error { status, .. } && (status == 404
            <==> error is NotFound) && (status == 409 <==> error is AlreadyExists
            || error is LastOwner) && (status == 500 <==> error is EventLog),
{
}

/// What is done about a request follows from what it comes to: a refusal is
/// answered as such, and only an event that the store lets happen is logged.
pub proof fn law_only_granted_requests_are_logged(
    request: MissionRequest,
    missions: Missions,
    v: Verdict,
    step: MissionStep,
)
    requires
        step_for(request, missions, v, step),
    ensures
        step matches MissionStep::Log(event) ==> v == Verdict::Store(
            MissionAnswer::Record(event.deep_view()),
        ),
        v is ClaimMismatch || v is RoleMissing ==> (step matches MissionStep::Answer(reply)
            && reply.deep_view() matches ReplyView::Error { status, .. } && status == 403),
        v matches Verdict::Store(answer) ==> answer is Record || answer is Nothing || (
        step matches MissionStep::Answer(reply) && reply.deep_view() == refusal(
            request.name_spec(),
            answer,
        )),
        v == Verdict::Store(MissionAnswer::Nothing) ==> (step matches MissionStep::Answer(reply)
            && reply.deep_view() == request.met(missions)),
{
}

} // verus!
