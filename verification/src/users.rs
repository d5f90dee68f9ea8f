//! Accounts for password logins. A password is only ever kept as a hash.

use crate::dated::{in_order, insert_dated, Dated};
use crate::eventlog::{event_views, first_corrupt, parsed_events, readable, EventLogError};
use crate::table::{ordered_rows, rows_map, Table};
use crate::text::cat;
use argon2::password_hash::{PasswordHasher, PasswordVerifier};
use vstd::prelude::*;

verus! {

/// Why a request on an account is refused.
#[derive(Debug)]
pub enum UserError {
    NotFound,
    AlreadyExists,
    /// The password could not be hashed.
    Hashing,
    /// The event could not be logged.
    EventLog(EventLogError),
}

impl UserError {
    /// What `message` says.
    pub open spec fn message_spec(&self) -> Seq<char> {
        match *self {
            UserError::NotFound => "unknown user"@,
            UserError::AlreadyExists => "user already exists"@,
            UserError::Hashing => "argon2 hashing should not fail"@,
            UserError::EventLog(error) => "event log error: "@ + error.message_spec() + ""@,
        }
    }

    /// The error in words.
    pub fn message(&self) -> (res: String)
        ensures
            res@ == self.message_spec(),
    {
        match self {
            UserError::NotFound => "unknown user".to_owned(),
            UserError::AlreadyExists => "user already exists".to_owned(),
            UserError::Hashing => "argon2 hashing should not fail".to_owned(),
            UserError::EventLog(error) => cat("event log error: ", &error.message(), ""),
        }
    }
}

/// What may be told of an account: nothing of its password.
#[derive(Debug, Clone, PartialEq)]
pub struct UserInfo {
    pub username: String,
    pub created_at_unix: i64,
    pub revoked: bool,
}

/// The model of what may be told of an account.
pub struct UserInfoView {
    pub username: Seq<char>,
    pub created_at_unix: i64,
    pub revoked: bool,
}

impl DeepView for UserInfo {
    type V = UserInfoView;

    open spec fn deep_view(&self) -> UserInfoView {
        UserInfoView {
            username: self.username@,
            created_at_unix: self.created_at_unix,
            revoked: self.revoked,
        }
    }
}

impl Dated for UserInfo {
    open spec fn date_of(v: UserInfoView) -> i64 {
        v.created_at_unix
    }

    fn date(&self) -> (res: i64) {
        self.created_at_unix
    }
}

/// An account.
#[derive(Debug)]
pub struct UserRecord {
    password_hash: String,
    created_at_unix: i64,
    revoked: bool,
}

/// The model of an account.
pub struct UserView {
    pub password_hash: Seq<char>,
    pub created_at_unix: i64,
    pub revoked: bool,
}

impl DeepView for UserRecord {
    type V = UserView;

    closed spec fn deep_view(&self) -> UserView {
        UserView {
            password_hash: self.password_hash@,
            created_at_unix: self.created_at_unix,
            revoked: self.revoked,
        }
    }
}

/// One change of the accounts, as it is logged.
#[derive(Debug, Clone, PartialEq)]
pub enum UserEvent {
    Created { username: String, password_hash: String, created_at_unix: i64 },
    Revoked { username: String },
}

/// The model of a user event.
pub enum UserEventView {
    Created { username: Seq<char>, password_hash: Seq<char>, created_at_unix: i64 },
    Revoked { username: Seq<char> },
}

impl DeepView for UserEvent {
    type V = UserEventView;

    open spec fn deep_view(&self) -> UserEventView {
        match *self {
            UserEvent::Created { username, password_hash, created_at_unix } =>
                UserEventView::Created {
                username: username@,
                password_hash: password_hash@,
                created_at_unix,
            },
            UserEvent::Revoked { username } => UserEventView::Revoked { username: username@ },
        }
    }
}

/// The accounts by user name.
pub type Users = Map<Seq<char>, UserView>;

/// What `event` makes of `users`; revoking an unknown one changes nothing.
pub open spec fn apply(users: Users, event: UserEventView) -> Users {
    match event {
        UserEventView::Created { username, password_hash, created_at_unix } => users.insert(
            username,
            UserView { password_hash, created_at_unix, revoked: false },
        ),
        UserEventView::Revoked { username } => if users.contains_key(username) {
            users.insert(username, UserView { revoked: true, ..users[username] })
        } else {
            users
        },
    }
}

/// What a log of `events` makes of no accounts.
pub open spec fn replay_spec(events: Seq<UserEventView>) -> Users
    decreases events.len(),
{
    if events.len() == 0 {
        Map::empty()
    } else {
        apply(replay_spec(events.drop_last()), events.last())
    }
}

/// Whether the output that a PHC hash string holds is what Argon2 computes of
/// the password with the salt and the parameters that the string holds.
pub uninterp spec fn password_matches(password: Seq<char>, hash: Seq<char>) -> bool;

/// What a look at a password found.
#[derive(Debug, Clone, Copy, PartialEq, Eq, Structural)]
pub enum PasswordCheck {
    /// It is the one that was hashed.
    Matches,
    /// It is another.
    Differs,
    /// It could not be told: the hash is malformed, or memory ran out.
    Failed,
}

/// Calls `PasswordHasher::hash_password` of `argon2::Argon2` with its default
/// parameters and a random salt. Believed of it: the hash that it returns, as
/// a string, is one that the password matches. It can fail, for want of random
/// bytes or of memory; which hash comes out rests on the salt.
#[verifier::external_body]
pub(crate) fn hash_password(password: &str) -> (res: Option<String>)
    ensures
        res matches Some(hash) ==> password_matches(password@, hash@),
{
    match argon2::Argon2::default().hash_password(password.as_bytes()) {
        Ok(hash) => Some(hash.to_string()),
        Err(_) => None,
    }
}

/// Calls `PasswordVerifier::verify_password` of `argon2::Argon2` on a hash
/// string. Believed of it: it succeeds only for a password that matches, and
/// calls a password invalid only if it does not match. Any other error says
/// nothing of the password.
#[verifier::external_body]
pub(crate) fn verify_password(password: &str, hash: &str) -> (res: PasswordCheck)
    ensures
        res == PasswordCheck::Matches ==> password_matches(password@, hash@),
        res == PasswordCheck::Differs ==> !password_matches(password@, hash@),
{
    match argon2::Argon2::default().verify_password(password.as_bytes(), hash) {
        Ok(()) => PasswordCheck::Matches,
        Err(argon2::password_hash::Error::PasswordInvalid) => PasswordCheck::Differs,
        Err(_) => PasswordCheck::Failed,
    }
}

/// What may be told of the account in a row.
pub open spec fn info_of(row: (Seq<char>, UserView)) -> UserInfoView {
    UserInfoView {
        username: row.0,
        created_at_unix: row.1.created_at_unix,
        revoked: row.1.revoked,
    }
}

/// Whether an account may log in at all: it exists and is not revoked.
pub open spec fn may_log_in(users: Users, username: Seq<char>) -> bool {
    users.contains_key(username) && !users[username].revoked
}

/// Whether this is the password of an account that may log in.
pub open spec fn right_login(users: Users, username: Seq<char>, password: Seq<char>) -> bool {
    may_log_in(users, username) && password_matches(password, users[username].password_hash)
}

/// The accounts that this server knows.
#[derive(Debug)]
pub struct UserStore {
    users: Table<UserRecord>,
}

impl UserStore {
    /// The accounts by user name.
    pub closed spec fn users(&self) -> Users {
        self.users.map()
    }

    /// The accounts in the order of their names.
    pub closed spec fn roll(&self) -> Seq<(Seq<char>, UserView)> {
        self.users.rows()
    }

    /// Every user name stands once.
    pub closed spec fn wf(&self) -> bool {
        self.users.wf()
    }

    /// The roll is the accounts, each once.
    pub proof fn law_roll_is_complete(&self)
        requires
            self.wf(),
        ensures
            ordered_rows(self.roll()),
            self.users() == rows_map(self.roll()),
    {
    }

    /// No accounts.
    pub fn in_memory() -> (res: Self)
        ensures
            res.wf(),
            res.users() == Map::<Seq<char>, UserView>::empty(),
    {
        UserStore { users: Table::new() }
    }

    /// The accounts that a log of `events` describes.
    pub fn replay(events: &Vec<UserEvent>) -> (res: Self)
        ensures
            res.wf(),
            res.users() == replay_spec(events.deep_view()),
    {
        let mut res = Self::in_memory();
        let ghost all = events.deep_view();
        let mut i: usize = 0;
        assert(all.take(0) =~= seq![]);
        while i < events.len()
            invariant
                all == events.deep_view(),
                i <= events@.len(),
                res.wf(),
                res.users() == replay_spec(all.take(i as int)),
            decreases events@.len() - i,
        {
            assert(all.take(i + 1).drop_last() =~= all.take(i as int));
            res.apply_event(&events[i]);
            i = i + 1;
        }
        assert(all.take(i as int) =~= all);
        res
    }

    /// The accounts that the log at `path` describes, given what each of its
    /// records was parsed into; a log that cannot be read is an error.
    pub fn load_or_create(path: &str, parsed: Vec<(usize, Result<UserEvent, String>)>) -> (res: Result<
        Self,
        UserError,
    >)
        ensures
            match res {
                Ok(store) => {
                    &&& readable(parsed@)
                    &&& store.wf()
                    &&& store.users() == replay_spec(event_views(parsed@))
                },
                Err(UserError::EventLog(error)) => {
                    &&& !readable(parsed@)
                    &&& first_corrupt(path@, parsed@, error)
                },
                Err(_) => false,
            },
    {
        match parsed_events(path, parsed) {
            Ok(events) => Ok(Self::replay(&events)),
            Err(error) => Err(UserError::EventLog(error)),
        }
    }

    /// Applies one logged event.
    pub fn apply_event(&mut self, event: &UserEvent)
        requires
            old(self).wf(),
        ensures
            final(self).wf(),
            final(self).users() == apply(old(self).users(), event.deep_view()),
    {
        match event {
            UserEvent::Created { username, password_hash, created_at_unix } => {
                let record = UserRecord {
                    password_hash: password_hash.clone(),
                    created_at_unix: *created_at_unix,
                    revoked: false,
                };
                self.users.insert(username.clone(), record);
            },
            UserEvent::Revoked { username } => {
                let found = match self.users.get(username) {
                    Some(user) => Some(
                        UserRecord {
                            password_hash: user.password_hash.clone(),
                            created_at_unix: user.created_at_unix,
                            revoked: true,
                        },
                    ),
                    None => None,
                };
                if let Some(record) = found {
                    self.users.insert(username.clone(), record);
                }
            },
        }
    }

    /// Applies `event` if it was logged; otherwise nothing changes and the
    /// log's error is handed on.
    pub fn commit(&mut self, event: &UserEvent, logged: Result<(), EventLogError>) -> (res: Result<
        (),
        UserError,
    >)
        requires
            old(self).wf(),
        ensures
            final(self).wf(),
            match logged {
                Ok(()) => res is Ok && final(self).users() == apply(
                    old(self).users(),
                    event.deep_view(),
                ),
                Err(error) => res == Err::<(), UserError>(UserError::EventLog(error))
                    && final(self).users() == old(self).users(),
            },
    {
        match logged {
            Ok(()) => {
                self.apply_event(event);
                Ok(())
            },
            Err(error) => Err(UserError::EventLog(error)),
        }
    }

    /// The event that creates an account, given what hashing its password
    /// gave. A name that was ever used is taken, revoked or not.
    pub fn propose_create(&self, username: &str, hash: Option<String>, now_unix: i64) -> (res: Result<
        UserEvent,
        UserError,
    >)
        requires
            self.wf(),
        ensures
            match res {
                Ok(event) => {
                    &&& permitted(self.users(), event.deep_view())
                    &&& !self.users().contains_key(username@)
                    &&& hash matches Some(h) && event.deep_view() == (UserEventView::Created {
                        username: username@,
                        password_hash: h@,
                        created_at_unix: now_unix,
                    })
                },
                Err(UserError::AlreadyExists) => self.users().contains_key(username@),
                Err(UserError::Hashing) => {
                    &&& !self.users().contains_key(username@)
                    &&& hash is None
                },
                Err(_) => false,
            },
    {
        if self.users.get(username).is_some() {
            return Err(UserError::AlreadyExists);
        }
        match hash {
            Some(password_hash) => Ok(
                UserEvent::Created {
                    username: username.to_owned(),
                    password_hash,
                    created_at_unix: now_unix,
                },
            ),
            None => Err(UserError::Hashing),
        }
    }

    /// The event that creates an account with this password. The password is
    /// hashed only where the name is free.
    pub fn propose_mint(&self, username: &str, password: &str, now_unix: i64) -> (res: Result<
        UserEvent,
        UserError,
    >)
        requires
            self.wf(),
        ensures
            match res {
                Ok(event) => {
                    &&& permitted(self.users(), event.deep_view())
                    &&& !self.users().contains_key(username@)
                    &&& event.deep_view() matches UserEventView::Created {
                        username: u,
                        password_hash,
                        created_at_unix,
                    }
                    &&& u == username@
                    &&& created_at_unix == now_unix
                    &&& password_matches(password@, password_hash)
                },
                Err(UserError::AlreadyExists) => self.users().contains_key(username@),
                Err(UserError::Hashing) => !self.users().contains_key(username@),
                Err(_) => false,
            },
    {
        if self.users.get(username).is_some() {
            return Err(UserError::AlreadyExists);
        }
        self.propose_create(username, hash_password(password), now_unix)
    }

    /// Creates an account with this password; otherwise nothing changes.
    pub fn mint(&mut self, username: &str, password: &str, now_unix: i64) -> (res: Result<
        (),
        UserError,
    >)
        requires
            old(self).wf(),
        ensures
            final(self).wf(),
            match res {
                Ok(()) => {
                    &&& !old(self).users().contains_key(username@)
                    &&& final(self).users().contains_key(username@)
                    &&& password_matches(password@, final(self).users()[username@].password_hash)
                    &&& final(self).users() == apply(
                        old(self).users(),
                        UserEventView::Created {
                            username: username@,
                            password_hash: final(self).users()[username@].password_hash,
                            created_at_unix: now_unix,
                        },
                    )
                },
                Err(error) => {
                    &&& final(self).users() == old(self).users()
                    &&& error is AlreadyExists <==> old(self).users().contains_key(username@)
                    &&& error is AlreadyExists || error is Hashing
                },
            },
    {
        match self.propose_mint(username, password, now_unix) {
            Ok(event) => {
                self.apply_event(&event);
                Ok(())
            },
            Err(error) => Err(error),
        }
    }

    /// The event that revokes an account, if it is known.
    pub fn propose_revoke(&self, username: &str) -> (res: Result<UserEvent, UserError>)
        requires
            self.wf(),
        ensures
            match res {
                Ok(event) => {
                    &&& permitted(self.users(), event.deep_view())
                    &&& self.users().contains_key(username@)
                    &&& event.deep_view() == (UserEventView::Revoked { username: username@ })
                },
                Err(error) => error is NotFound && !self.users().contains_key(username@),
            },
    {
        match self.users.get(username) {
            Some(_) => Ok(UserEvent::Revoked { username: username.to_owned() }),
            None => Err(UserError::NotFound),
        }
    }

    /// Revokes an account.
    pub fn revoke(&mut self, username: &str) -> (res: Result<(), UserError>)
        requires
            old(self).wf(),
        ensures
            final(self).wf(),
            final(self).users() == apply(
                old(self).users(),
                UserEventView::Revoked { username: username@ },
            ),
            match res {
                Ok(()) => old(self).users().contains_key(username@),
                Err(error) => error is NotFound && !old(self).users().contains_key(username@),
            },
    {
        match self.propose_revoke(username) {
            Ok(event) => {
                self.apply_event(&event);
                Ok(())
            },
            Err(error) => Err(error),
        }
    }

    /// What may be told of all accounts, the earliest created first.
    pub fn list(&self) -> (res: Vec<UserInfo>)
        requires
            self.wf(),
        ensures
            in_order::<UserInfo>(res.deep_view()),
            res.deep_view().to_multiset() == self.roll().map_values(
                |row: (Seq<char>, UserView)| info_of(row),
            ).to_multiset(),
    {
        let ghost rows = self.users.rows();
        let ghost values = rows.map_values(|row: (Seq<char>, UserView)| info_of(row));
        let mut res: Vec<UserInfo> = Vec::new();
        let mut i: usize = 0;
        assert(res.deep_view() =~= values.take(0));
        while i < self.users.len()
            invariant
                rows == self.users.rows(),
                values == rows.map_values(|row: (Seq<char>, UserView)| info_of(row)),
                i <= rows.len(),
                in_order::<UserInfo>(res.deep_view()),
                res.deep_view().to_multiset() == values.take(i as int).to_multiset(),
            decreases rows.len() - i,
        {
            let user = self.users.value_at(i);
            let info = UserInfo {
                username: self.users.name_at(i).clone(),
                created_at_unix: user.created_at_unix,
                revoked: user.revoked,
            };
            insert_dated(&mut res, info);
            proof {
                assert(values.take(i + 1) =~= values.take(i as int).push(values[i as int]));
                vstd::seq_lib::to_multiset_build(values.take(i as int), values[i as int]);
            }
            i = i + 1;
        }
        assert(values.take(i as int) =~= values);
        res
    }

    /// Whether a login is let in, given what the look at its password found.
    pub fn admits(&self, username: &str, check: PasswordCheck) -> (res: bool)
        requires
            self.wf(),
        ensures
            res == (may_log_in(self.users(), username@) && check == PasswordCheck::Matches),
    {
        match self.users.get(username) {
            Some(user) => !user.revoked && check == PasswordCheck::Matches,
            None => false,
        }
    }

    /// What a login with this password finds. An account that may not log in
    /// has no password that matches; the right password of one that may is
    /// never said to differ.
    pub fn check_login(&self, username: &str, password: &str) -> (res: PasswordCheck)
        requires
            self.wf(),
        ensures
            res == PasswordCheck::Matches ==> right_login(self.users(), username@, password@),
            res == PasswordCheck::Differs ==> !right_login(self.users(), username@, password@),
            !may_log_in(self.users(), username@) ==> res == PasswordCheck::Differs,
    {
        match self.users.get(username) {
            Some(user) => if user.revoked {
                PasswordCheck::Differs
            } else {
                verify_password(password, &user.password_hash)
            },
            None => PasswordCheck::Differs,
        }
    }

    /// Whether the account exists, is not revoked and has this password. Where
    /// the password cannot be told, the login is refused.
    pub fn authenticate(&self, username: &str, password: &str) -> (res: bool)
        requires
            self.wf(),
        ensures
            res ==> right_login(self.users(), username@, password@),
    {
        let check = self.check_login(username, password);
        self.admits(username, check)
    }
}

/// Appending an event to the log and applying it to the live state keep the
/// two in step: the state stays what a replay of the log gives.
pub proof fn law_live_state_is_the_replayed_log(events: Seq<UserEventView>, event: UserEventView)
    ensures
        replay_spec(events.push(event)) == apply(replay_spec(events), event),
{
    assert(events.push(event).drop_last() =~= events);
}

/// A new account may log in; once revoked it may not, with any password.
pub proof fn law_revocation_takes_effect_at_once(
    users: Users,
    username: Seq<char>,
    password_hash: Seq<char>,
    created_at_unix: i64,
)
    ensures
        ({
            let created = apply(
                users,
                UserEventView::Created { username, password_hash, created_at_unix },
            );
            let revoked = apply(created, UserEventView::Revoked { username });
            &&& may_log_in(created, username)
            &&& revoked.contains_key(username)
            &&& !may_log_in(revoked, username)
        }),
{
}

/// A revocation is for good: the name stays taken, and no later event but a
/// creation under it, which the store refuses, lets it log in again.
pub proof fn law_revoked_accounts_stay_out(
    users: Users,
    username: Seq<char>,
    event: UserEventView,
)
    requires
        users.contains_key(username),
        users[username].revoked,
        event matches UserEventView::Created { username: u, .. } ==> !users.contains_key(u),
    ensures
        apply(users, event).contains_key(username),
        !may_log_in(apply(users, event), username),
{
}

/// An event changes nothing but the account it is about.
pub proof fn law_events_leave_other_accounts_alone(
    users: Users,
    event: UserEventView,
    other: Seq<char>,
)
    requires
        event matches UserEventView::Created { username, .. } ==> username != other,
        event matches UserEventView::Revoked { username } ==> username != other,
    ensures
        apply(users, event).contains_key(other) == users.contains_key(other),
        apply(users, event)[other] == users[other],
{
}

/// A new account is let in with the password that its hash was made of.
pub proof fn law_fresh_account_has_its_password(
    users: Users,
    username: Seq<char>,
    password: Seq<char>,
    password_hash: Seq<char>,
    created_at_unix: i64,
)
    ensures
        password_matches(password, password_hash) ==> right_login(
            apply(users, UserEventView::Created { username, password_hash, created_at_unix }),
            username,
            password,
        ),
{
}

/// Whether the store lets this event happen: a name is created once, and only
/// a known one is revoked. It is what `propose_create`, `propose_mint` and
/// `propose_revoke` hand out.
pub open spec fn permitted(users: Users, event: UserEventView) -> bool {
    match event {
        UserEventView::Created { username, .. } => !users.contains_key(username),
        UserEventView::Revoked { username } => users.contains_key(username),
    }
}

/// Whether each event of a log was let happen when it came.
pub open spec fn permitted_log(events: Seq<UserEventView>) -> bool
    decreases events.len(),
{
    events.len() > 0 ==> permitted_log(events.drop_last()) && permitted(
        replay_spec(events.drop_last()),
        events.last(),
    )
}

/// A log to which the store appends what it lets happen stays such a log.
pub proof fn law_permitted_logs_grow(events: Seq<UserEventView>, event: UserEventView)
    requires
        permitted_log(events),
        permitted(replay_spec(events), event),
    ensures
        permitted_log(events.push(event)),
{
    assert(events.push(event).drop_last() =~= events);
}

/// Whether an event creates this account with this password.
pub open spec fn creates(event: UserEventView, username: Seq<char>, password: Seq<char>) -> bool {
    event matches UserEventView::Created { username: u, password_hash, .. } && u == username
        && password_matches(password, password_hash)
}

/// Whether this account was created with this password.
pub open spec fn was_created(
    events: Seq<UserEventView>,
    username: Seq<char>,
    password: Seq<char>,
) -> bool {
    exists|i: int| 0 <= i < events.len() && creates(#[trigger] events[i], username, password)
}

/// Whether this account was revoked.
pub open spec fn was_revoked(events: Seq<UserEventView>, username: Seq<char>) -> bool {
    events.contains(UserEventView::Revoked { username })
}

/// What a log says of an account is what was created under its name, once.
proof fn lemma_log_of_account(events: Seq<UserEventView>, username: Seq<char>)
    requires
        permitted_log(events),
    ensures
        ({
            let users = replay_spec(events);
            &&& was_revoked(events, username) ==> users.contains_key(username)
            &&& users.contains_key(username) ==> users[username].revoked == was_revoked(
                events,
                username,
            )
            &&& forall|i: int, password: Seq<char>|
                0 <= i < events.len() && #[trigger] creates(events[i], username, password)
                    ==> users.contains_key(username) && password_matches(
                    password,
                    users[username].password_hash,
                )
            &&& forall|password: Seq<char>|
                users.contains_key(username) && #[trigger] password_matches(
                    password,
                    users[username].password_hash,
                ) ==> was_created(events, username, password)
        }),
    decreases events.len(),
{
    if events.len() > 0 {
        let head = events.drop_last();
        let event = events.last();
        let n = events.len() - 1;
        let before = replay_spec(head);
        let users = replay_spec(events);
        lemma_log_of_account(head, username);
        assert(events =~= head.push(event));
        let revoked = UserEventView::Revoked { username };
        if was_revoked(head, username) {
            let i = choose|i: int| 0 <= i < head.len() && head[i] == revoked;
            assert(events[i] == revoked);
        }
        if was_revoked(events, username) && event != revoked {
            let i = choose|i: int| 0 <= i < events.len() && events[i] == revoked;
            assert(head[i] == revoked);
        }
        if event == revoked {
            assert(events[n] == revoked);
        }
        assert forall|i: int, password: Seq<char>|
            0 <= i < events.len() && #[trigger] creates(events[i], username, password) implies {
            &&& users.contains_key(username)
            &&& password_matches(password, users[username].password_hash)
        } by {
            if i < n {
                assert(creates(head[i], username, password));
            }
        }
        assert forall|password: Seq<char>|
            users.contains_key(username) && #[trigger] password_matches(
                password,
                users[username].password_hash,
            ) implies was_created(events, username, password) by {
            if event matches UserEventView::Created { username: u, .. } && u == username {
                assert(creates(events[n], username, password));
            } else {
                assert(password_matches(password, before[username].password_hash));
                assert(was_created(head, username, password));
                let i = choose|i: int|
                    0 <= i < head.len() && creates(#[trigger] head[i], username, password);
                assert(creates(events[i], username, password));
            }
        }
    }
}

/// Over any calls, a login is right exactly if its account was created with
/// this very password and was not revoked since; an account that was never
/// created, another password and a revoked account are all wrong.
pub proof fn law_logins_over_all_calls(
    events: Seq<UserEventView>,
    username: Seq<char>,
    password: Seq<char>,
)
    requires
        permitted_log(events),
    ensures
        right_login(replay_spec(events), username, password) <==> was_created(
            events,
            username,
            password,
        ) && !was_revoked(events, username),
{
    lemma_log_of_account(events, username);
    if was_created(events, username, password) {
        let i = choose|i: int|
            0 <= i < events.len() && creates(#[trigger] events[i], username, password);
        assert(creates(events[i], username, password));
    }
}

/// A created account is known by its name with the hash of its password and
/// the time, and is not revoked.
pub proof fn law_creation_makes_an_account(
    users: Users,
    username: Seq<char>,
    password_hash: Seq<char>,
    created_at_unix: i64,
)
    ensures
        ({
            let now = apply(
                users,
                UserEventView::Created { username, password_hash, created_at_unix },
            );
            &&& now.contains_key(username)
            &&& now[username].password_hash == password_hash
            &&& now[username].created_at_unix == created_at_unix
            &&& !now[username].revoked
        }),
{
}

/// Revoking a known account revokes it and changes nothing else about it; an
/// unknown one stays unknown.
pub proof fn law_revoking_shuts_an_account_out(
    users: Users,
    username: Seq<char>,
    password: Seq<char>,
)
    ensures
        ({
            let now = apply(users, UserEventView::Revoked { username });
            &&& !right_login(now, username, password)
            &&& !users.contains_key(username) ==> now == users
            &&& users.contains_key(username) ==> {
                &&& now.contains_key(username)
                &&& now[username].revoked
                &&& now[username].password_hash == users[username].password_hash
                &&& now[username].created_at_unix == users[username].created_at_unix
            }
        }),
{
}

/// What is told of an account is its name, when it was created and whether it
/// is revoked: accounts that differ in their passwords only look the same.
pub proof fn law_nothing_is_told_of_passwords(
    username: Seq<char>,
    account: UserView,
    other_hash: Seq<char>,
)
    ensures
        info_of((username, account)).username == username,
        info_of((username, account)).created_at_unix == account.created_at_unix,
        info_of((username, account)).revoked == account.revoked,
        info_of((username, account)) == info_of(
            (username, UserView { password_hash: other_hash, ..account }),
        ),
{
}

/// A list in order has the earliest created accounts first.
pub proof fn law_lists_start_with_the_earliest_created(list: Seq<UserInfoView>, i: int, j: int)
    requires
        in_order::<UserInfo>(list),
        0 <= i <= j < list.len(),
    ensures
        list[i].created_at_unix <= list[j].created_at_unix,
{
    assert(UserInfo::date_of(list[i]) <= UserInfo::date_of(list[j]));
}

} // verus!
