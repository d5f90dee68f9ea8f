//! Administration: invitations, accounts and certificate lookups. Only the
//! configured administrator may use it; where none is configured, nobody may.

use crate::dated::in_order;
use crate::enrollment_tokens::{expiry, expiry_fits, is_token_text, random_token, EnrollmentToken,
    EnrollmentTokenError, EnrollmentTokenStore, TokenEvent, TokenEventView, TokenView};
use crate::eventlog::EventLogError;
use crate::hex::{hex_spec, law_hex_reads_back};
use crate::marti::reply::{error_reply, PeerIdentity, Reply, ReplyView};
use crate::pki::{fingerprint_sha256_colon_hex, fingerprint_spec};
use crate::random::{random_bytes, secret_text};
use crate::registry::{DeviceRecord, DeviceRegistry, DeviceView};
use crate::text::{cat, same_text};
use crate::users::{info_of, password_matches, UserError, UserEvent, UserEventView, UserInfo,
    UserInfoView, UserStore, UserView};
use vstd::prelude::*;

verus! {

/// How many random bytes a generated password stands for.
pub const PASSWORD_BYTES: usize = 16;

/// Whether this client is the administrator.
pub open spec fn is_admin(admin: Option<Seq<char>>, peer: Seq<char>) -> bool {
    admin == Some(peer)
}

/// Whether this client is the administrator.
pub fn require_admin(admin: &Option<String>, identity: &PeerIdentity) -> (res: bool)
    ensures
        res == is_admin(admin.deep_view(), identity.deep_view()),
{
    match admin {
        Some(name) => same_text(name, &identity.0),
        None => false,
    }
}

/// The answer to everybody but the administrator.
pub open spec fn not_authorized<V>() -> ReplyView<V> {
    ReplyView::Error { status: 403, message: "not authorized to use the admin API"@ }
}

/// The answer to everybody but the administrator.
fn refuse<B: DeepView>() -> (res: Reply<B>)
    ensures
        res.deep_view() == not_authorized::<B::V>(),
{
    error_reply(403, "not authorized to use the admin API")
}

/// What a request body was read as.
#[derive(Debug)]
pub enum RequestBody<T> {
    Empty,
    Parsed(T),
    /// It could not be read, for this reason.
    Malformed(String),
}

/// What to do next about a request.
#[derive(Debug)]
pub enum Step<E, B> {
    /// Answer it.
    Answer(Reply<B>),
    /// Log this event, then finish.
    Log(E),
}

/// A request for an invitation.
#[derive(Debug)]
pub struct MintTokenRequest {
    pub expires_in_secs: Option<i64>,
    pub note: Option<String>,
}

/// The value of a new invitation.
#[derive(Debug)]
pub struct MintedToken {
    pub token: String,
}

impl DeepView for MintedToken {
    type V = Seq<char>;

    open spec fn deep_view(&self) -> Seq<char> {
        self.token@
    }
}

/// The answer to an error of the invitations.
pub open spec fn token_error_view<V>(error: EnrollmentTokenError) -> ReplyView<V> {
    ReplyView::Error {
        status: if error is NotFound {
            404
        } else {
            500
        },
        message: error.message_spec(),
    }
}

/// The answer to an error of the invitations.
pub fn token_error_response<B: DeepView>(error: &EnrollmentTokenError) -> (res: Reply<B>)
    ensures
        res.deep_view() == token_error_view::<B::V>(*error),
{
    let status: u16 = match error {
        EnrollmentTokenError::NotFound => 404,
        _ => 500,
    };
    Reply::Error { status, message: error.message() }
}

/// The answer to an error of the accounts.
pub open spec fn user_error_view<V>(error: UserError) -> ReplyView<V> {
    ReplyView::Error {
        status: match error {
            UserError::NotFound => 404,
            UserError::AlreadyExists => 409,
            _ => 500,
        },
        message: error.message_spec(),
    }
}

/// The answer to an error of the accounts.
pub fn user_error_response<B: DeepView>(error: &UserError) -> (res: Reply<B>)
    ensures
        res.deep_view() == user_error_view::<B::V>(*error),
{
    let status: u16 = match error {
        UserError::NotFound => 404,
        UserError::AlreadyExists => 409,
        _ => 500,
    };
    Reply::Error { status, message: error.message() }
}

/// What a request body asks for: an empty one asks for an invitation without
/// an expiry and without a note.
pub open spec fn wanted(body: RequestBody<MintTokenRequest>) -> (Option<i64>, Option<Seq<char>>) {
    match body {
        RequestBody::Parsed(r) => (r.expires_in_secs, r.note.deep_view()),
        _ => (None, None),
    }
}

/// The answer to a body that cannot be read.
pub open spec fn malformed<V>(reason: Seq<char>) -> ReplyView<V> {
    ReplyView::Error { status: 400, message: "invalid request body: "@ + reason + ""@ }
}

/// Takes in a request for an invitation, given the text for it.
pub fn mint_token_with(
    admin: &Option<String>,
    identity: &PeerIdentity,
    body: RequestBody<MintTokenRequest>,
    token: Option<String>,
    now_unix: i64,
) -> (res: Step<TokenEvent, MintedToken>)
    requires
        is_admin(admin.deep_view(), identity.deep_view()) ==> expiry_fits(
            wanted(body).0,
            now_unix,
        ),
    ensures
        if !is_admin(admin.deep_view(), identity.deep_view()) {
            res matches Step::Answer(r) && r.deep_view() == not_authorized::<Seq<char>>()
        } else {
            match body {
                RequestBody::Malformed(reason) => res matches Step::Answer(r) && r.deep_view()
                    == malformed::<Seq<char>>(reason@),
                _ => match token {
                    None => res matches Step::Answer(r) && r.deep_view() == token_error_view::<
                        Seq<char>,
                    >(EnrollmentTokenError::NoRandomness),
                    Some(t) => res matches Step::Log(event) && event.deep_view() == (
                    TokenEventView::Minted {
                        token: t@,
                        created_at_unix: now_unix,
                        expires_at_unix: expiry(wanted(body).0, now_unix),
                        note: wanted(body).1,
                    }),
                },
            }
        },
{
    if !require_admin(admin, identity) {
        return Step::Answer(refuse());
    }
    let (expires_in_secs, note): (Option<i64>, Option<String>) = match body {
        RequestBody::Empty => (None, None),
        RequestBody::Parsed(request) => (request.expires_in_secs, request.note),
        RequestBody::Malformed(reason) => {
            return Step::Answer(
                Reply::Error { status: 400, message: cat("invalid request body: ", &reason, "") },
            );
        },
    };
    match token {
        None => Step::Answer(token_error_response(&EnrollmentTokenError::NoRandomness)),
        Some(t) => Step::Log(
            EnrollmentTokenStore::propose_mint(&t, expires_in_secs, note, now_unix),
        ),
    }
}

/// Takes in a request for an invitation.
pub fn mint_token(
    admin: &Option<String>,
    identity: &PeerIdentity,
    body: RequestBody<MintTokenRequest>,
    now_unix: i64,
) -> (res: Step<TokenEvent, MintedToken>)
    requires
        is_admin(admin.deep_view(), identity.deep_view()) ==> expiry_fits(
            wanted(body).0,
            now_unix,
        ),
    ensures
        !is_admin(admin.deep_view(), identity.deep_view()) ==> (res matches Step::Answer(r)
            && r.deep_view() == not_authorized::<Seq<char>>()),
        is_admin(admin.deep_view(), identity.deep_view()) ==> match res {
            Step::Answer(r) => {
                ||| body matches RequestBody::Malformed(reason) && r.deep_view() == malformed::<
                    Seq<char>,
                >(reason@)
                ||| !(body is Malformed) && r.deep_view() == token_error_view::<Seq<char>>(
                    EnrollmentTokenError::NoRandomness,
                )
            },
            Step::Log(event) => {
                &&& !(body is Malformed)
                &&& event.deep_view() matches TokenEventView::Minted {
                    token,
                    created_at_unix,
                    expires_at_unix,
                    note,
                }
                &&& is_token_text(token)
                &&& created_at_unix == now_unix
                &&& expires_at_unix == expiry(wanted(body).0, now_unix)
                &&& note == wanted(body).1
            },
        },
{
    mint_token_with(admin, identity, body, random_token(), now_unix)
}

/// Ends a request for an invitation whose event was to be logged: its value is
/// handed out once.
pub fn token_minted(
    tokens: &mut EnrollmentTokenStore,
    event: &TokenEvent,
    logged: Result<(), EventLogError>,
) -> (res: Reply<MintedToken>)
    requires
        old(tokens).wf(),
    ensures
        final(tokens).wf(),
        match logged {
            Ok(()) => {
                &&& final(tokens).tokens() == crate::enrollment_tokens::apply(
                    old(tokens).tokens(),
                    event.deep_view(),
                )
                &&& res.deep_view() == (ReplyView::Body {
                    status: 201u16,
                    body: match event.deep_view() {
                        TokenEventView::Minted { token, .. } => token,
                        TokenEventView::Consumed { token, .. } => token,
                        TokenEventView::Revoked { token } => token,
                    },
                })
            },
            Err(error) => {
                &&& final(tokens).tokens() == old(tokens).tokens()
                &&& res.deep_view() == token_error_view::<Seq<char>>(
                    EnrollmentTokenError::EventLog(error),
                )
            },
        },
{
    let token = match event {
        TokenEvent::Minted { token, .. } => token.clone(),
        TokenEvent::Consumed { token, .. } => token.clone(),
        TokenEvent::Revoked { token } => token.clone(),
    };
    match tokens.commit(event, logged) {
        Ok(()) => Reply::Body { status: 201, body: MintedToken { token } },
        Err(error) => token_error_response(&error),
    }
}

/// All invitations, the earliest first.
pub fn list_tokens(
    admin: &Option<String>,
    identity: &PeerIdentity,
    tokens: &EnrollmentTokenStore,
) -> (res: Reply<Vec<EnrollmentToken>>)
    requires
        tokens.wf(),
    ensures
        if is_admin(admin.deep_view(), identity.deep_view()) {
            &&& res.deep_view() matches ReplyView::Body { status, body }
            &&& status == 200
            &&& in_order::<EnrollmentToken>(body)
            &&& body.to_multiset() == tokens.roll().map_values(
                |row: (Seq<char>, TokenView)| row.1,
            ).to_multiset()
        } else {
            res.deep_view() == not_authorized::<Seq<TokenView>>()
        },
{
    if !require_admin(admin, identity) {
        return refuse();
    }
    Reply::Body { status: 200, body: tokens.list() }
}

/// Takes in a request to revoke an invitation.
pub fn revoke_token(
    admin: &Option<String>,
    identity: &PeerIdentity,
    tokens: &EnrollmentTokenStore,
    token: &str,
) -> (res: Step<TokenEvent, MintedToken>)
    requires
        tokens.wf(),
    ensures
        if !is_admin(admin.deep_view(), identity.deep_view()) {
            res matches Step::Answer(r) && r.deep_view() == not_authorized::<Seq<char>>()
        } else if tokens.tokens().contains_key(token@) {
            res matches Step::Log(event) && event.deep_view() == (TokenEventView::Revoked {
                token: token@,
            })
        } else {
            res matches Step::Answer(r) && r.deep_view() == token_error_view::<Seq<char>>(
                EnrollmentTokenError::NotFound,
            )
        },
{
    if !require_admin(admin, identity) {
        return Step::Answer(refuse());
    }
    match tokens.propose_revoke(token) {
        Ok(event) => Step::Log(event),
        Err(error) => Step::Answer(token_error_response(&error)),
    }
}

/// Ends a request to revoke an invitation whose event was to be logged.
pub fn token_revoked(
    tokens: &mut EnrollmentTokenStore,
    event: &TokenEvent,
    logged: Result<(), EventLogError>,
) -> (res: Reply<MintedToken>)
    requires
        old(tokens).wf(),
    ensures
        final(tokens).wf(),
        match logged {
            Ok(()) => {
                &&& final(tokens).tokens() == crate::enrollment_tokens::apply(
                    old(tokens).tokens(),
                    event.deep_view(),
                )
                &&& res.deep_view() == (ReplyView::<Seq<char>>::Empty { status: 204 })
            },
            Err(error) => {
                &&& final(tokens).tokens() == old(tokens).tokens()
                &&& res.deep_view() == token_error_view::<Seq<char>>(
                    EnrollmentTokenError::EventLog(error),
                )
            },
        },
{
    match tokens.commit(event, logged) {
        Ok(()) => Reply::Empty { status: 204 },
        Err(error) => token_error_response(&error),
    }
}

/// A request for an account.
#[derive(Debug)]
pub struct MintUserRequest {
    pub username: String,
    /// Without one, a password is generated.
    pub password: Option<String>,
}

/// A new account with its password, which is told once.
#[derive(Debug)]
pub struct MintedUser {
    pub username: String,
    pub password: String,
}

impl DeepView for MintedUser {
    type V = (Seq<char>, Seq<char>);

    open spec fn deep_view(&self) -> (Seq<char>, Seq<char>) {
        (self.username@, self.password@)
    }
}

/// The text of a generated password.
pub open spec fn is_password_text(text: Seq<char>) -> bool {
    exists|bytes: Seq<u8>| bytes.len() == PASSWORD_BYTES && text == #[trigger] hex_spec(bytes)
}

/// A password out of random bytes, if they can be had.
pub fn random_password() -> (res: Option<String>)
    ensures
        res matches Some(password) ==> is_password_text(password@),
{
    secret_text(random_bytes(PASSWORD_BYTES))
}

/// An account that is to be logged, and its password.
#[derive(Debug)]
pub struct NewUser {
    pub event: UserEvent,
    pub minted: MintedUser,
}

/// Takes in a request for an account.
pub fn mint_user(
    admin: &Option<String>,
    identity: &PeerIdentity,
    users: &UserStore,
    body: Result<MintUserRequest, String>,
    now_unix: i64,
) -> (res: Step<NewUser, MintedUser>)
    requires
        users.wf(),
    ensures
        !is_admin(admin.deep_view(), identity.deep_view()) ==> (res matches Step::Answer(r)
            && r.deep_view() == not_authorized::<(Seq<char>, Seq<char>)>()),
        is_admin(admin.deep_view(), identity.deep_view()) ==> match body {
            Err(reason) => res matches Step::Answer(r) && r.deep_view() == malformed::<
                (Seq<char>, Seq<char>),
            >(reason@),
            Ok(request) => match res {
                Step::Log(new) => {
                    &&& !users.users().contains_key(request.username@)
                    &&& new.minted.username@ == request.username@
                    &&& match request.password {
                        Some(password) => new.minted.password@ == password@,
                        None => is_password_text(new.minted.password@),
                    }
                    &&& new.event.deep_view() matches UserEventView::Created {
                        username,
                        password_hash,
                        created_at_unix,
                    }
                    &&& username == request.username@
                    &&& created_at_unix == now_unix
                    &&& password_matches(new.minted.password@, password_hash)
                },
                Step::Answer(r) => {
                    ||| users.users().contains_key(request.username@) && r.deep_view()
                        == user_error_view::<(Seq<char>, Seq<char>)>(UserError::AlreadyExists)
                    ||| !users.users().contains_key(request.username@) && r.deep_view()
                        == user_error_view::<(Seq<char>, Seq<char>)>(UserError::Hashing)
                    ||| request.password is None && r.deep_view() == token_error_view::<
                        (Seq<char>, Seq<char>),
                    >(EnrollmentTokenError::NoRandomness)
                },
            },
        },
{
    if !require_admin(admin, identity) {
        return Step::Answer(refuse());
    }
    let request = match body {
        Ok(request) => request,
        Err(reason) => {
            return Step::Answer(
                Reply::Error { status: 400, message: cat("invalid request body: ", &reason, "") },
            );
        },
    };
    let password = match request.password {
        Some(password) => password,
        None => match random_password() {
            Some(password) => password,
            None => {
                return Step::Answer(token_error_response(&EnrollmentTokenError::NoRandomness));
            },
        },
    };
    match users.propose_mint(&request.username, &password, now_unix) {
        Ok(event) => Step::Log(
            NewUser { event, minted: MintedUser { username: request.username, password } },
        ),
        Err(error) => Step::Answer(user_error_response(&error)),
    }
}

/// Ends a request for an account whose event was to be logged: its password is
/// handed out once.
pub fn user_minted(users: &mut UserStore, new: NewUser, logged: Result<(), EventLogError>) -> (res:
    Reply<MintedUser>)
    requires
        old(users).wf(),
    ensures
        final(users).wf(),
        match logged {
            Ok(()) => {
                &&& final(users).users() == crate::users::apply(
                    old(users).users(),
                    new.event.deep_view(),
                )
                &&& res.deep_view() == (ReplyView::Body {
                    status: 201u16,
                    body: new.minted.deep_view(),
                })
            },
            Err(error) => {
                &&& final(users).users() == old(users).users()
                &&& res.deep_view() == user_error_view::<(Seq<char>, Seq<char>)>(
                    UserError::EventLog(error),
                )
            },
        },
{
    match users.commit(&new.event, logged) {
        Ok(()) => Reply::Body { status: 201, body: new.minted },
        Err(error) => user_error_response(&error),
    }
}

/// What may be told of all accounts, the earliest first.
pub fn list_users(admin: &Option<String>, identity: &PeerIdentity, users: &UserStore) -> (res: Reply<
    Vec<UserInfo>,
>)
    requires
        users.wf(),
    ensures
        if is_admin(admin.deep_view(), identity.deep_view()) {
            &&& res.deep_view() matches ReplyView::Body { status, body }
            &&& status == 200
            &&& in_order::<UserInfo>(body)
            &&& body.to_multiset() == users.roll().map_values(
                |row: (Seq<char>, UserView)| info_of(row),
            ).to_multiset()
        } else {
            res.deep_view() == not_authorized::<Seq<UserInfoView>>()
        },
{
    if !require_admin(admin, identity) {
        return refuse();
    }
    Reply::Body { status: 200, body: users.list() }
}

/// Takes in a request to revoke an account.
pub fn revoke_user(
    admin: &Option<String>,
    identity: &PeerIdentity,
    users: &UserStore,
    username: &str,
) -> (res: Step<UserEvent, MintedUser>)
    requires
        users.wf(),
    ensures
        if !is_admin(admin.deep_view(), identity.deep_view()) {
            res matches Step::Answer(r) && r.deep_view() == not_authorized::<
                (Seq<char>, Seq<char>),
            >()
        } else if users.users().contains_key(username@) {
            res matches Step::Log(event) && event.deep_view() == (UserEventView::Revoked {
                username: username@,
            })
        } else {
            res matches Step::Answer(r) && r.deep_view() == user_error_view::<
                (Seq<char>, Seq<char>),
            >(UserError::NotFound)
        },
{
    if !require_admin(admin, identity) {
        return Step::Answer(refuse());
    }
    match users.propose_revoke(username) {
        Ok(event) => Step::Log(event),
        Err(error) => Step::Answer(user_error_response(&error)),
    }
}

/// Ends a request to revoke an account whose event was to be logged.
pub fn user_revoked(users: &mut UserStore, event: &UserEvent, logged: Result<(), EventLogError>) -> (res:
    Reply<MintedUser>)
    requires
        old(users).wf(),
    ensures
        final(users).wf(),
        match logged {
            Ok(()) => {
                &&& final(users).users() == crate::users::apply(
                    old(users).users(),
                    event.deep_view(),
                )
                &&& res.deep_view() == (ReplyView::<(Seq<char>, Seq<char>)>::Empty { status: 204 })
            },
            Err(error) => {
                &&& final(users).users() == old(users).users()
                &&& res.deep_view() == user_error_view::<(Seq<char>, Seq<char>)>(
                    UserError::EventLog(error),
                )
            },
        },
{
    match users.commit(event, logged) {
        Ok(()) => Reply::Empty { status: 204 },
        Err(error) => user_error_response(&error),
    }
}

/// What is told of a certificate.
#[derive(Debug)]
pub struct CertInfo {
    pub hash: String,
    pub subject_dn: String,
    pub user_dn: String,
    pub client_uid: String,
    pub revocation_date: Option<String>,
}

/// The model of what is told of a certificate.
pub struct CertInfoView {
    pub hash: Seq<char>,
    pub subject_dn: Seq<char>,
    pub user_dn: Seq<char>,
    pub client_uid: Seq<char>,
    pub revocation_date: Option<Seq<char>>,
}

impl DeepView for CertInfo {
    type V = CertInfoView;

    open spec fn deep_view(&self) -> CertInfoView {
        CertInfoView {
            hash: self.hash@,
            subject_dn: self.subject_dn@,
            user_dn: self.user_dn@,
            client_uid: self.client_uid@,
            revocation_date: self.revocation_date.deep_view(),
        }
    }
}

/// What is told of the certificate of `device` when it is asked for by `hash`.
pub open spec fn cert_info(hash: Seq<char>, device: DeviceView) -> CertInfoView {
    CertInfoView {
        hash,
        subject_dn: "CN="@ + device.common_name + ""@,
        user_dn: "CN="@ + device.common_name + ""@,
        client_uid: device.common_name,
        revocation_date: if device.revoked {
            Some("revoked"@)
        } else {
            None
        },
    }
}

/// The device at `i` is the first whose certificate has this fingerprint.
pub open spec fn first_with(devices: Seq<DeviceView>, hash: Seq<char>, i: int) -> bool {
    &&& 0 <= i < devices.len()
    &&& fingerprint_spec(devices[i].cert_pem) == Some(hash)
    &&& forall|j: int| 0 <= j < i ==> fingerprint_spec((#[trigger] devices[j]).cert_pem) != Some(hash)
}

/// What is told of the first of `devices` whose certificate has this
/// fingerprint.
pub fn cert_by_hash(devices: &Vec<DeviceRecord>, hash: &str) -> (res: Reply<CertInfo>)
    ensures
        match res.deep_view() {
            ReplyView::Body { status, body } => {
                &&& status == 200
                &&& exists|i: int| #[trigger]
                    first_with(devices.deep_view(), hash@, i) && body == cert_info(
                        hash@,
                        devices.deep_view()[i],
                    )
            },
            ReplyView::Error { status, message } => {
                &&& status == 404
                &&& message == "unknown certificate"@
                &&& forall|i: int|
                    0 <= i < devices@.len() ==> fingerprint_spec(
                        (#[trigger] devices.deep_view()[i]).cert_pem,
                    ) != Some(hash@)
            },
            ReplyView::Empty { .. } => false,
        },
{
    let ghost all = devices.deep_view();
    let mut i: usize = 0;
    while i < devices.len()
        invariant
            all == devices.deep_view(),
            i <= devices@.len(),
            forall|j: int|
                0 <= j < i ==> fingerprint_spec((#[trigger] all[j]).cert_pem) != Some(hash@),
        decreases devices@.len() - i,
    {
        let device = &devices[i];
        assert(all[i as int] == device.deep_view());
        let matches = match fingerprint_sha256_colon_hex(&device.cert_pem) {
            Some(fingerprint) => same_text(&fingerprint, hash),
            None => false,
        };
        if matches {
            let revocation_date = if device.revoked {
                Some("revoked".to_owned())
            } else {
                None
            };
            let body = CertInfo {
                hash: hash.to_owned(),
                subject_dn: cat("CN=", &device.common_name, ""),
                user_dn: cat("CN=", &device.common_name, ""),
                client_uid: device.common_name.clone(),
                revocation_date,
            };
            assert(first_with(all, hash@, i as int));
            assert(body.deep_view() == cert_info(hash@, all[i as int]));
            return Reply::Body { status: 200, body };
        }
        i = i + 1;
    }
    error_reply(404, "unknown certificate")
}

/// Looks an enrolled device's certificate up by its fingerprint.
pub fn get_cert_by_hash(
    admin: &Option<String>,
    identity: &PeerIdentity,
    registry: &DeviceRegistry,
    hash: &str,
) -> (res: Reply<CertInfo>)
    requires
        registry.wf(),
    ensures
        ({
            let devices = registry.roll().map_values(|row: (Seq<char>, DeviceView)| row.1);
            if is_admin(admin.deep_view(), identity.deep_view()) {
                match res.deep_view() {
                    ReplyView::Body { status, body } => {
                        &&& status == 200
                        &&& exists|i: int| #[trigger]
                            first_with(devices, hash@, i) && body == cert_info(hash@, devices[i])
                    },
                    ReplyView::Error { status, message } => {
                        &&& status == 404
                        &&& message == "unknown certificate"@
                        &&& forall|i: int|
                            0 <= i < devices.len() ==> fingerprint_spec(
                                (#[trigger] devices[i]).cert_pem,
                            ) != Some(hash@)
                    },
                    ReplyView::Empty { .. } => false,
                }
            } else {
                res.deep_view() == not_authorized::<CertInfoView>()
            }
        }),
{
    if !require_admin(admin, identity) {
        return refuse();
    }
    let devices = registry.all();
    assert(devices.deep_view().len() == devices@.len());
    cert_by_hash(&devices, hash)
}

/// The surface fails closed: without a configured administrator nobody is let
/// in, and with one only they are.
pub proof fn law_admin_surface_fails_closed(admin: Seq<char>, peer: Seq<char>)
    ensures
        !is_admin(None, peer),
        is_admin(Some(admin), peer) <==> peer == admin,
{
}

/// Errors are told apart by their status: what is not known is not found, a name
/// that is taken is a conflict, a body that cannot be read is a bad request, and
/// everything else is the server's own.
pub proof fn law_errors_are_told_apart(
    token: EnrollmentTokenError,
    user: UserError,
    reason: Seq<char>,
)
    ensures
        token_error_view::<Seq<char>>(token) matches ReplyView::Error { status, message } && (status
            == 404 || status == 500) && (status == 404 <==> token is NotFound) && message
            == token.message_spec(),
        user_error_view::<Seq<char>>(user) matches ReplyView::Error { status, message } && (status
            == 404 <==> user is NotFound) && (status == 409 <==> user is AlreadyExists) && (status
            == 404 || status == 409 || status == 500) && message == user.message_spec(),
        not_authorized::<Seq<char>>() matches ReplyView::Error { status, .. } && status == 403,
        malformed::<Seq<char>>(reason) matches ReplyView::Error { status, message } && status == 400
            && message == "invalid request body: "@ + reason,
{
    reveal_strlit("");
    assert("invalid request body: "@ + reason + ""@ =~= "invalid request body: "@ + reason);
}

/// An invitation gets the lifetime and the note that its request asks for; a
/// request without a body asks for neither.
pub proof fn law_invitations_are_as_wanted(request: MintTokenRequest)
    ensures
        wanted(RequestBody::Parsed(request)).0 == request.expires_in_secs,
        wanted(RequestBody::Parsed(request)).1 == request.note.deep_view(),
        wanted(RequestBody::Empty).0 is None,
        wanted(RequestBody::Empty).1 is None,
{
}

/// What is told of a certificate is about the device that has it: it is named
/// by the device's common name, and called revoked exactly if the device is.
pub proof fn law_certificates_are_told_of_their_device(hash: Seq<char>, device: DeviceView)
    ensures
        ({
            let info = cert_info(hash, device);
            &&& info.hash == hash
            &&& info.client_uid == device.common_name
            &&& info.subject_dn == "CN="@ + device.common_name
            &&& info.user_dn == info.subject_dn
            &&& info.revocation_date is Some <==> device.revoked
        }),
{
    reveal_strlit("");
    assert("CN="@ + device.common_name + ""@ =~= "CN="@ + device.common_name);
}

/// Of two devices with one fingerprint the first is found, so that there is at
/// most one answer.
pub proof fn law_one_certificate_is_found(devices: Seq<DeviceView>, hash: Seq<char>, i: int, j: int)
    requires
        first_with(devices, hash, i),
        first_with(devices, hash, j),
    ensures
        i == j,
        fingerprint_spec(devices[i].cert_pem) == Some(hash),
{
    if i < j {
        assert(fingerprint_spec(devices[i].cert_pem) != Some(hash));
    }
    if j < i {
        assert(fingerprint_spec(devices[j].cert_pem) != Some(hash));
    }
}

/// A generated password stands for 16 bytes, in 32 lower-case digits.
pub proof fn law_generated_passwords_are_hex(text: Seq<char>, i: int)
    requires
        is_password_text(text),
    ensures
        text.len() == 32,
        0 <= i < 32 ==> ('0' <= text[i] <= '9' || 'a' <= text[i] <= 'f'),
{
    let bytes = choose|bytes: Seq<u8>|
        bytes.len() == PASSWORD_BYTES && text == #[trigger] hex_spec(bytes);
    law_hex_reads_back(bytes, 0);
    if 0 <= i < 32 {
        assert(hex_spec(bytes)[i] == text[i]);
    }
}

} // verus!
