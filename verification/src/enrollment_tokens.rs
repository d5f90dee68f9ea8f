//! Single-use enrollment invitations.

use crate::dated::{in_order, insert_dated, Dated};
use crate::eventlog::{event_views, first_corrupt, parsed_events, readable, EventLogError};
use crate::hex::{hex_spec, is_hex_digit, law_hex_is_faithful};
use crate::random::{random_bytes, secret_text};
use crate::table::{ordered_rows, rows_map, Table};
use crate::text::{cat, clone_text};
use crate::views::Duplicate;
use vstd::prelude::*;

verus! {

/// How many random bytes a token stands for.
pub const TOKEN_BYTES: usize = 32;

/// Why a token is refused.
#[derive(Debug)]
pub enum EnrollmentTokenError {
    NotFound,
    AlreadyUsed,
    Revoked,
    Expired,
    /// No random bytes could be had for a new token.
    NoRandomness,
    /// The event could not be logged.
    EventLog(EventLogError),
}

impl EnrollmentTokenError {
    /// What `message` says.
    pub open spec fn message_spec(&self) -> Seq<char> {
        match *self {
            EnrollmentTokenError::NotFound => "unknown enrollment token"@,
            EnrollmentTokenError::AlreadyUsed => "enrollment token has already been used"@,
            EnrollmentTokenError::Revoked => "enrollment token has been revoked"@,
            EnrollmentTokenError::Expired => "enrollment token has expired"@,
            EnrollmentTokenError::NoRandomness => "OS RNG must be available"@,
            EnrollmentTokenError::EventLog(error) => "event log error: "@ + error.message_spec()
                + ""@,
        }
    }

    /// The error in words.
    pub fn message(&self) -> (res: String)
        ensures
            res@ == self.message_spec(),
    {
        match self {
            EnrollmentTokenError::NotFound => "unknown enrollment token".to_owned(),
            EnrollmentTokenError::AlreadyUsed => {
                "enrollment token has already been used".to_owned()
            },
            EnrollmentTokenError::Revoked => "enrollment token has been revoked".to_owned(),
            EnrollmentTokenError::Expired => "enrollment token has expired".to_owned(),
            EnrollmentTokenError::NoRandomness => "OS RNG must be available".to_owned(),
            EnrollmentTokenError::EventLog(error) => {
                cat("event log error: ", &error.message(), "")
            },
        }
    }
}

/// An invitation.
#[derive(Debug, PartialEq)]
pub struct EnrollmentToken {
    pub token: String,
    pub created_at_unix: i64,
    /// `None` means that it never expires.
    pub expires_at_unix: Option<i64>,
    pub note: Option<String>,
    pub used: bool,
    pub used_by_common_name: Option<String>,
    pub used_at_unix: Option<i64>,
    pub revoked: bool,
}

/// The model of an invitation.
pub struct TokenView {
    pub token: Seq<char>,
    pub created_at_unix: i64,
    pub expires_at_unix: Option<i64>,
    pub note: Option<Seq<char>>,
    pub used: bool,
    pub used_by_common_name: Option<Seq<char>>,
    pub used_at_unix: Option<i64>,
    pub revoked: bool,
}

impl DeepView for EnrollmentToken {
    type V = TokenView;

    open spec fn deep_view(&self) -> TokenView {
        TokenView {
            token: self.token@,
            created_at_unix: self.created_at_unix,
            expires_at_unix: self.expires_at_unix,
            note: self.note.deep_view(),
            used: self.used,
            used_by_common_name: self.used_by_common_name.deep_view(),
            used_at_unix: self.used_at_unix,
            revoked: self.revoked,
        }
    }
}

impl Duplicate for EnrollmentToken {
    fn duplicate(&self) -> (res: Self) {
        EnrollmentToken {
            token: self.token.clone(),
            created_at_unix: self.created_at_unix,
            expires_at_unix: self.expires_at_unix,
            note: clone_text(&self.note),
            used: self.used,
            used_by_common_name: clone_text(&self.used_by_common_name),
            used_at_unix: self.used_at_unix,
            revoked: self.revoked,
        }
    }
}

impl Clone for EnrollmentToken {
    fn clone(&self) -> (res: Self)
        ensures
            res.deep_view() == self.deep_view(),
    {
        self.duplicate()
    }
}

impl Dated for EnrollmentToken {
    open spec fn date_of(v: TokenView) -> i64 {
        v.created_at_unix
    }

    fn date(&self) -> (res: i64) {
        self.created_at_unix
    }
}

/// Whether a token is good now, and if not, why: a revocation is reported
/// before a use, and a use before an expiry.
pub open spec fn usable(token: TokenView, now_unix: i64) -> Result<(), EnrollmentTokenError> {
    if token.revoked {
        Err(EnrollmentTokenError::Revoked)
    } else if token.used {
        Err(EnrollmentTokenError::AlreadyUsed)
    } else if token.expires_at_unix matches Some(at) && now_unix >= at {
        Err(EnrollmentTokenError::Expired)
    } else {
        Ok(())
    }
}

impl EnrollmentToken {
    /// Whether the token is good at `now_unix`.
    pub fn is_usable_at(&self, now_unix: i64) -> (res: Result<(), EnrollmentTokenError>)
        ensures
            res == usable(self.deep_view(), now_unix),
    {
        if self.revoked {
            return Err(EnrollmentTokenError::Revoked);
        }
        if self.used {
            return Err(EnrollmentTokenError::AlreadyUsed);
        }
        if let Some(expires_at) = self.expires_at_unix {
            if now_unix >= expires_at {
                return Err(EnrollmentTokenError::Expired);
            }
        }
        Ok(())
    }
}

/// One change of the token store, as it is logged.
#[derive(Debug, Clone, PartialEq)]
pub enum TokenEvent {
    Minted {
        token: String,
        created_at_unix: i64,
        expires_at_unix: Option<i64>,
        note: Option<String>,
    },
    Consumed { token: String, common_name: String, at_unix: i64 },
    Revoked { token: String },
}

/// The model of a token event.
pub enum TokenEventView {
    Minted {
        token: Seq<char>,
        created_at_unix: i64,
        expires_at_unix: Option<i64>,
        note: Option<Seq<char>>,
    },
    Consumed { token: Seq<char>, common_name: Seq<char>, at_unix: i64 },
    Revoked { token: Seq<char> },
}

impl DeepView for TokenEvent {
    type V = TokenEventView;

    open spec fn deep_view(&self) -> TokenEventView {
        match *self {
            TokenEvent::Minted { token, created_at_unix, expires_at_unix, note } =>
                TokenEventView::Minted {
                token: token@,
                created_at_unix,
                expires_at_unix,
                note: note.deep_view(),
            },
            TokenEvent::Consumed { token, common_name, at_unix } => TokenEventView::Consumed {
                token: token@,
                common_name: common_name@,
                at_unix,
            },
            TokenEvent::Revoked { token } => TokenEventView::Revoked { token: token@ },
        }
    }
}

/// The tokens by their value.
pub type Tokens = Map<Seq<char>, TokenView>;

/// What `event` makes of `tokens`; one on an unknown token changes nothing.
pub open spec fn apply(tokens: Tokens, event: TokenEventView) -> Tokens {
    match event {
        TokenEventView::Minted { token, created_at_unix, expires_at_unix, note } => tokens.insert(
            token,
            TokenView {
                token,
                created_at_unix,
                expires_at_unix,
                note,
                used: false,
                used_by_common_name: None,
                used_at_unix: None,
                revoked: false,
            },
        ),
        TokenEventView::Consumed { token, common_name, at_unix } => if tokens.contains_key(token) {
            tokens.insert(
                token,
                TokenView {
                    used: true,
                    used_by_common_name: Some(common_name),
                    used_at_unix: Some(at_unix),
                    ..tokens[token]
                },
            )
        } else {
            tokens
        },
        TokenEventView::Revoked { token } => if tokens.contains_key(token) {
            tokens.insert(token, TokenView { revoked: true, ..tokens[token] })
        } else {
            tokens
        },
    }
}

/// What a log of `events` makes of an empty store.
pub open spec fn replay_spec(events: Seq<TokenEventView>) -> Tokens
    decreases events.len(),
{
    if events.len() == 0 {
        Map::empty()
    } else {
        apply(replay_spec(events.drop_last()), events.last())
    }
}

/// What is answered to whoever presents `token`: `Ok` consumes it.
pub open spec fn consume_answer(tokens: Tokens, token: Seq<char>, now_unix: i64) -> Result<
    (),
    EnrollmentTokenError,
> {
    if tokens.contains_key(token) {
        usable(tokens[token], now_unix)
    } else {
        Err(EnrollmentTokenError::NotFound)
    }
}

/// When a token that is good for `expires_in_secs` expires.
pub open spec fn expiry(expires_in_secs: Option<i64>, now_unix: i64) -> Option<i64> {
    match expires_in_secs {
        Some(secs) => Some((now_unix + secs) as i64),
        None => None,
    }
}

/// The expiry is a time that can be written down.
pub open spec fn expiry_fits(expires_in_secs: Option<i64>, now_unix: i64) -> bool {
    expires_in_secs matches Some(secs) ==> i64::MIN <= now_unix + secs <= i64::MAX
}

/// The invitations that this server has handed out.
#[derive(Debug)]
pub struct EnrollmentTokenStore {
    tokens: Table<EnrollmentToken>,
}

impl EnrollmentTokenStore {
    /// The tokens by their value.
    pub closed spec fn tokens(&self) -> Tokens {
        self.tokens.map()
    }

    /// The tokens in the order of their texts.
    pub closed spec fn roll(&self) -> Seq<(Seq<char>, TokenView)> {
        self.tokens.rows()
    }

    /// Every token stands once.
    pub closed spec fn wf(&self) -> bool {
        self.tokens.wf()
    }

    /// The roll is the tokens, each once.
    pub proof fn law_roll_is_complete(&self)
        requires
            self.wf(),
        ensures
            ordered_rows(self.roll()),
            self.tokens() == rows_map(self.roll()),
    {
    }

    /// An empty store.
    pub fn in_memory() -> (res: Self)
        ensures
            res.wf(),
            res.tokens() == Map::<Seq<char>, TokenView>::empty(),
    {
        EnrollmentTokenStore { tokens: Table::new() }
    }

    /// The store that a log of `events` describes.
    pub fn replay(events: &Vec<TokenEvent>) -> (res: Self)
        ensures
            res.wf(),
            res.tokens() == replay_spec(events.deep_view()),
    {
        let mut res = Self::in_memory();
        let ghost all = events.deep_view();
        let mut i: usize = 0;
        assert(all.take(0) =~= seq![]);
        while i < events.len()
            invariant
                all == events.deep_view(),
                i <= events@.len(),
                res.wf(),
                res.tokens() == replay_spec(all.take(i as int)),
            decreases events@.len() - i,
        {
            assert(all.take(i + 1).drop_last() =~= all.take(i as int));
            res.apply_event(&events[i]);
            i = i + 1;
        }
        assert(all.take(i as int) =~= all);
        res
    }

    /// The store that the log at `path` describes, given what each of its
    /// records was parsed into; a log that cannot be read is an error.
    pub fn load_or_create(path: &str, parsed: Vec<(usize, Result<TokenEvent, String>)>) -> (res: Result<
        Self,
        EnrollmentTokenError,
    >)
        ensures
            match res {
                Ok(store) => {
                    &&& readable(parsed@)
                    &&& store.wf()
                    &&& store.tokens() == replay_spec(event_views(parsed@))
                },
                Err(EnrollmentTokenError::EventLog(error)) => {
                    &&& !readable(parsed@)
                    &&& first_corrupt(path@, parsed@, error)
                },
                Err(_) => false,
            },
    {
        match parsed_events(path, parsed) {
            Ok(events) => Ok(Self::replay(&events)),
            Err(error) => Err(EnrollmentTokenError::EventLog(error)),
        }
    }

    /// Applies one logged event.
    pub fn apply_event(&mut self, event: &TokenEvent)
        requires
            old(self).wf(),
        ensures
            final(self).wf(),
            final(self).tokens() == apply(old(self).tokens(), event.deep_view()),
    {
        match event {
            TokenEvent::Minted { token, created_at_unix, expires_at_unix, note } => {
                let fresh = EnrollmentToken {
                    token: token.clone(),
                    created_at_unix: *created_at_unix,
                    expires_at_unix: *expires_at_unix,
                    note: clone_text(note),
                    used: false,
                    used_by_common_name: None,
                    used_at_unix: None,
                    revoked: false,
                };
                self.tokens.insert(token.clone(), fresh);
            },
            TokenEvent::Consumed { token, common_name, at_unix } => {
                if let Some(found) = self.find(token) {
                    let consumed = EnrollmentToken {
                        used: true,
                        used_by_common_name: Some(common_name.clone()),
                        used_at_unix: Some(*at_unix),
                        ..found
                    };
                    self.tokens.insert(token.clone(), consumed);
                }
            },
            TokenEvent::Revoked { token } => {
                if let Some(found) = self.find(token) {
                    let revoked = EnrollmentToken { revoked: true, ..found };
                    self.tokens.insert(token.clone(), revoked);
                }
            },
        }
    }

    /// The token with this value.
    pub fn find(&self, token: &str) -> (res: Option<EnrollmentToken>)
        requires
            self.wf(),
        ensures
            res.deep_view() == self.tokens().get(token@),
    {
        match self.tokens.get(token) {
            Some(found) => Some(found.duplicate()),
            None => None,
        }
    }

    /// Applies `event` if it was logged; otherwise nothing changes and the
    /// log's error is handed on.
    pub fn commit(&mut self, event: &TokenEvent, logged: Result<(), EventLogError>) -> (res: Result<
        (),
        EnrollmentTokenError,
    >)
        requires
            old(self).wf(),
        ensures
            final(self).wf(),
            match logged {
                Ok(()) => res is Ok && final(self).tokens() == apply(
                    old(self).tokens(),
                    event.deep_view(),
                ),
                Err(error) => res == Err::<(), EnrollmentTokenError>(
                    EnrollmentTokenError::EventLog(error),
                ) && final(self).tokens() == old(self).tokens(),
            },
    {
        match logged {
            Ok(()) => {
                self.apply_event(event);
                Ok(())
            },
            Err(error) => Err(EnrollmentTokenError::EventLog(error)),
        }
    }

    /// The event that puts a token with this value into the store.
    pub fn propose_mint(
        token: &str,
        expires_in_secs: Option<i64>,
        note: Option<String>,
        now_unix: i64,
    ) -> (res: TokenEvent)
        requires
            expiry_fits(expires_in_secs, now_unix),
        ensures
            res.deep_view() == (TokenEventView::Minted {
                token: token@,
                created_at_unix: now_unix,
                expires_at_unix: expiry(expires_in_secs, now_unix),
                note: note.deep_view(),
            }),
    {
        let expires_at_unix: Option<i64> = match expires_in_secs {
            Some(secs) => Some(now_unix + secs),
            None => None,
        };
        TokenEvent::Minted {
            token: token.to_owned(),
            created_at_unix: now_unix,
            expires_at_unix,
            note,
        }
    }

    /// Mints a token and returns its value: random bytes in lower-case
    /// hexadecimal. Without random bytes nothing changes.
    pub fn mint(&mut self, expires_in_secs: Option<i64>, note: Option<String>, now_unix: i64) -> (res:
        Result<String, EnrollmentTokenError>)
        requires
            old(self).wf(),
            expiry_fits(expires_in_secs, now_unix),
        ensures
            final(self).wf(),
            match res {
                Ok(token) => {
                    &&& is_token_text(token@)
                    &&& final(self).tokens() == apply(
                        old(self).tokens(),
                        TokenEventView::Minted {
                            token: token@,
                            created_at_unix: now_unix,
                            expires_at_unix: expiry(expires_in_secs, now_unix),
                            note: note.deep_view(),
                        },
                    )
                },
                Err(error) => {
                    &&& error is NoRandomness
                    &&& final(self).tokens() == old(self).tokens()
                },
            },
    {
        match random_token() {
            Some(token) => {
                let event = Self::propose_mint(&token, expires_in_secs, note, now_unix);
                self.apply_event(&event);
                Ok(token)
            },
            None => Err(EnrollmentTokenError::NoRandomness),
        }
    }

    /// What to answer whoever presents `token`: the event that consumes it in
    /// the name of `common_name`, or why it is refused.
    pub fn propose_consume(&self, token: &str, common_name: &str, now_unix: i64) -> (res: Result<
        TokenEvent,
        EnrollmentTokenError,
    >)
        requires
            self.wf(),
        ensures
            match consume_answer(self.tokens(), token@, now_unix) {
                Ok(()) => res matches Ok(event) && event.deep_view() == (TokenEventView::Consumed {
                    token: token@,
                    common_name: common_name@,
                    at_unix: now_unix,
                }),
                Err(error) => res == Err::<TokenEvent, EnrollmentTokenError>(error),
            },
    {
        match self.tokens.get(token) {
            None => Err(EnrollmentTokenError::NotFound),
            Some(found) => match found.is_usable_at(now_unix) {
                Err(error) => Err(error),
                Ok(()) => Ok(
                    TokenEvent::Consumed {
                        token: token.to_owned(),
                        common_name: common_name.to_owned(),
                        at_unix: now_unix,
                    },
                ),
            },
        }
    }

    /// Consumes `token` if it is good; otherwise nothing changes.
    pub fn validate_and_consume(&mut self, token: &str, common_name: &str, now_unix: i64) -> (res:
        Result<(), EnrollmentTokenError>)
        requires
            old(self).wf(),
        ensures
            final(self).wf(),
            res == consume_answer(old(self).tokens(), token@, now_unix),
            final(self).tokens() == if res is Ok {
                apply(
                    old(self).tokens(),
                    TokenEventView::Consumed {
                        token: token@,
                        common_name: common_name@,
                        at_unix: now_unix,
                    },
                )
            } else {
                old(self).tokens()
            },
    {
        match self.propose_consume(token, common_name, now_unix) {
            Ok(event) => {
                self.apply_event(&event);
                Ok(())
            },
            Err(error) => Err(error),
        }
    }

    /// The event that revokes a token, if it is known.
    pub fn propose_revoke(&self, token: &str) -> (res: Result<TokenEvent, EnrollmentTokenError>)
        requires
            self.wf(),
        ensures
            match res {
                Ok(event) => {
                    &&& self.tokens().contains_key(token@)
                    &&& event.deep_view() == (TokenEventView::Revoked { token: token@ })
                },
                Err(error) => error is NotFound && !self.tokens().contains_key(token@),
            },
    {
        match self.tokens.get(token) {
            Some(_) => Ok(TokenEvent::Revoked { token: token.to_owned() }),
            None => Err(EnrollmentTokenError::NotFound),
        }
    }

    /// Revokes a token.
    pub fn revoke(&mut self, token: &str) -> (res: Result<(), EnrollmentTokenError>)
        requires
            old(self).wf(),
        ensures
            final(self).wf(),
            final(self).tokens() == apply(
                old(self).tokens(),
                TokenEventView::Revoked { token: token@ },
            ),
            match res {
                Ok(()) => old(self).tokens().contains_key(token@),
                Err(error) => error is NotFound && !old(self).tokens().contains_key(token@),
            },
    {
        match self.propose_revoke(token) {
            Ok(event) => {
                self.apply_event(&event);
                Ok(())
            },
            Err(error) => Err(error),
        }
    }

    /// All tokens, the earliest minted first.
    pub fn list(&self) -> (res: Vec<EnrollmentToken>)
        requires
            self.wf(),
        ensures
            in_order::<EnrollmentToken>(res.deep_view()),
            res.deep_view().to_multiset() == self.roll().map_values(
                |row: (Seq<char>, TokenView)| row.1,
            ).to_multiset(),
    {
        let ghost rows = self.tokens.rows();
        let ghost values = rows.map_values(|row: (Seq<char>, TokenView)| row.1);
        let mut res: Vec<EnrollmentToken> = Vec::new();
        let mut i: usize = 0;
        assert(res.deep_view() =~= values.take(0));
        while i < self.tokens.len()
            invariant
                rows == self.tokens.rows(),
                values == rows.map_values(|row: (Seq<char>, TokenView)| row.1),
                i <= rows.len(),
                in_order::<EnrollmentToken>(res.deep_view()),
                res.deep_view().to_multiset() == values.take(i as int).to_multiset(),
            decreases rows.len() - i,
        {
            insert_dated(&mut res, self.tokens.value_at(i).duplicate());
            proof {
                assert(values.take(i + 1) =~= values.take(i as int).push(values[i as int]));
                vstd::seq_lib::to_multiset_build(values.take(i as int), values[i as int]);
            }
            i = i + 1;
        }
        assert(values.take(i as int) =~= values);
        res
    }
}

/// The text of a token: `TOKEN_BYTES` bytes in lower-case hexadecimal.
pub open spec fn is_token_text(text: Seq<char>) -> bool {
    exists|bytes: Seq<u8>| bytes.len() == TOKEN_BYTES && text == #[trigger] hex_spec(bytes)
}

/// The text of a new token, if random bytes can be had.
pub fn random_token() -> (res: Option<String>)
    ensures
        res matches Some(token) ==> is_token_text(token@),
{
    secret_text(random_bytes(TOKEN_BYTES))
}

/// Appending an event to the log and applying it to the live state keep the
/// two in step: the state stays what a replay of the log gives.
pub proof fn law_live_state_is_the_replayed_log(events: Seq<TokenEventView>, event: TokenEventView)
    ensures
        replay_spec(events.push(event)) == apply(replay_spec(events), event),
{
    assert(events.push(event).drop_last() =~= events);
}

/// A fresh token is good until it expires, and never after.
pub proof fn law_fresh_token_is_good_until_it_expires(
    tokens: Tokens,
    token: Seq<char>,
    expires_in_secs: Option<i64>,
    note: Option<Seq<char>>,
    minted_at: i64,
    now_unix: i64,
)
    requires
        expiry_fits(expires_in_secs, minted_at),
    ensures
        ({
            let now = apply(
                tokens,
                TokenEventView::Minted {
                    token,
                    created_at_unix: minted_at,
                    expires_at_unix: expiry(expires_in_secs, minted_at),
                    note,
                },
            );
            consume_answer(now, token, now_unix) == if expires_in_secs matches Some(secs)
                && now_unix >= minted_at + secs {
                Err::<(), EnrollmentTokenError>(EnrollmentTokenError::Expired)
            } else {
                Ok(())
            }
        }),
{
}

/// An event after which the token of this value is still the same invitation.
pub open spec fn not_minted_again(event: TokenEventView, token: Seq<char>) -> bool {
    event matches TokenEventView::Minted { token: t, .. } ==> t != token
}

/// A used or revoked token is refused for good: no event but a mint of the
/// very same value makes it good again.
pub proof fn law_spent_tokens_stay_spent(
    tokens: Tokens,
    events: Seq<TokenEventView>,
    token: Seq<char>,
    now_unix: i64,
)
    requires
        tokens.contains_key(token),
        tokens[token].used || tokens[token].revoked,
        forall|i: int| 0 <= i < events.len() ==> not_minted_again(#[trigger] events[i], token),
    ensures
        ({
            let now = apply_all(tokens, events);
            &&& now.contains_key(token)
            &&& now[token].used || now[token].revoked
            &&& consume_answer(now, token, now_unix) is Err
        }),
    decreases events.len(),
{
    if events.len() > 0 {
        law_spent_tokens_stay_spent(tokens, events.drop_last(), token, now_unix);
        assert(not_minted_again(events[events.len() - 1], token));
    }
}

/// What `events` make of `tokens` in order.
pub open spec fn apply_all(tokens: Tokens, events: Seq<TokenEventView>) -> Tokens
    decreases events.len(),
{
    if events.len() == 0 {
        tokens
    } else {
        apply(apply_all(tokens, events.drop_last()), events.last())
    }
}

/// A token works once: whoever presents it again is told that it was used.
pub proof fn law_token_works_once(
    tokens: Tokens,
    token: Seq<char>,
    common_name: Seq<char>,
    at_unix: i64,
    later: i64,
)
    requires
        consume_answer(tokens, token, at_unix) is Ok,
    ensures
        consume_answer(
            apply(tokens, TokenEventView::Consumed { token, common_name, at_unix }),
            token,
            later,
        ) == Err::<(), EnrollmentTokenError>(EnrollmentTokenError::AlreadyUsed),
{
}

/// The text of a token has two hexadecimal digits for each of its bytes.
pub proof fn law_token_text_is_hex(text: Seq<char>)
    requires
        is_token_text(text),
    ensures
        text.len() == 2 * TOKEN_BYTES,
        forall|i: int| 0 <= i < text.len() ==> is_hex_digit(#[trigger] text[i]),
{
    let bytes = choose|bytes: Seq<u8>|
        bytes.len() == TOKEN_BYTES && text == #[trigger] hex_spec(bytes);
    law_hex_is_faithful(bytes, bytes);
}

/// An event changes nothing but the token it is about.
pub proof fn law_events_leave_other_tokens_alone(
    tokens: Tokens,
    event: TokenEventView,
    other: Seq<char>,
)
    requires
        event matches TokenEventView::Minted { token, .. } ==> token != other,
        event matches TokenEventView::Consumed { token, .. } ==> token != other,
        event matches TokenEventView::Revoked { token } ==> token != other,
    ensures
        apply(tokens, event).contains_key(other) == tokens.contains_key(other),
        apply(tokens, event)[other] == tokens[other],
{
}

/// A token is good exactly if it was minted, was neither revoked nor used, and
/// has not expired; of several reasons against it, a revocation is told before a
/// use, and a use before an expiry.
pub proof fn law_when_a_token_is_good(tokens: Tokens, token: Seq<char>, now_unix: i64)
    ensures
        ({
            let answer = consume_answer(tokens, token, now_unix);
            let found = tokens[token];
            let expired = found.expires_at_unix matches Some(at) && at <= now_unix;
            &&& answer is Ok <==> tokens.contains_key(token) && !found.revoked && !found.used
                && !expired
            &&& (answer matches Err(EnrollmentTokenError::NotFound)) <==> !tokens.contains_key(
                token,
            )
            &&& (answer matches Err(EnrollmentTokenError::Revoked)) <==> tokens.contains_key(token)
                && found.revoked
            &&& (answer matches Err(EnrollmentTokenError::AlreadyUsed)) <==> tokens.contains_key(
                token,
            ) && !found.revoked && found.used
            &&& (answer matches Err(EnrollmentTokenError::Expired)) <==> tokens.contains_key(token)
                && !found.revoked && !found.used && expired
        }),
{
}

/// A minted token is known by its value, with its times and its note, unused
/// and not revoked.
pub proof fn law_minting_makes_a_fresh_token(
    tokens: Tokens,
    token: Seq<char>,
    created_at_unix: i64,
    expires_at_unix: Option<i64>,
    note: Option<Seq<char>>,
)
    ensures
        ({
            let now = apply(
                tokens,
                TokenEventView::Minted { token, created_at_unix, expires_at_unix, note },
            );
            &&& now.contains_key(token)
            &&& now[token].token == token
            &&& now[token].created_at_unix == created_at_unix
            &&& now[token].expires_at_unix == expires_at_unix
            &&& now[token].note == note
            &&& !now[token].used
            &&& now[token].used_by_common_name is None
            &&& now[token].used_at_unix is None
            &&& !now[token].revoked
        }),
{
}

/// A lifetime is counted from the minting; a token without one never expires.
pub proof fn law_expiry_is_counted_from_now(secs: i64, now_unix: i64)
    requires
        i64::MIN <= now_unix + secs <= i64::MAX,
    ensures
        expiry(Some(secs), now_unix) matches Some(at) && at - now_unix == secs,
        expiry(None, now_unix) is None,
        expiry_fits(Some(secs), now_unix),
        expiry_fits(None, now_unix),
{
}

/// Consuming a known token marks it used and enters who used it and when;
/// nothing else about it changes. An unknown token stays unknown.
pub proof fn law_consuming_enters_who_and_when(
    tokens: Tokens,
    token: Seq<char>,
    common_name: Seq<char>,
    at_unix: i64,
)
    ensures
        ({
            let now = apply(tokens, TokenEventView::Consumed { token, common_name, at_unix });
            &&& !tokens.contains_key(token) ==> now == tokens
            &&& tokens.contains_key(token) ==> {
                &&& now.contains_key(token)
                &&& now[token].used
                &&& now[token].used_by_common_name == Some(common_name)
                &&& now[token].used_at_unix == Some(at_unix)
                &&& now[token].token == tokens[token].token
                &&& now[token].created_at_unix == tokens[token].created_at_unix
                &&& now[token].expires_at_unix == tokens[token].expires_at_unix
                &&& now[token].note == tokens[token].note
                &&& now[token].revoked == tokens[token].revoked
            }
        }),
{
}

/// Revoking a known token revokes it, used or not and expired or not, and
/// changes nothing else about it: whoever presents it is told so, at any time.
/// An unknown token stays unknown.
pub proof fn law_revoking_ends_a_token(tokens: Tokens, token: Seq<char>, later: i64)
    ensures
        ({
            let now = apply(tokens, TokenEventView::Revoked { token });
            &&& !tokens.contains_key(token) ==> now == tokens
            &&& tokens.contains_key(token) ==> {
                &&& now.contains_key(token)
                &&& now[token].revoked
                &&& now[token].token == tokens[token].token
                &&& now[token].created_at_unix == tokens[token].created_at_unix
                &&& now[token].expires_at_unix == tokens[token].expires_at_unix
                &&& now[token].note == tokens[token].note
                &&& now[token].used == tokens[token].used
                &&& now[token].used_by_common_name == tokens[token].used_by_common_name
                &&& now[token].used_at_unix == tokens[token].used_at_unix
                &&& consume_answer(now, token, later) matches Err(EnrollmentTokenError::Revoked)
            }
        }),
{
}

/// A list in order has the earliest minted tokens first, and tokens stand for
/// 32 bytes, in 64 digits.
pub proof fn law_lists_start_with_the_earliest_minted(
    list: Seq<TokenView>,
    i: int,
    j: int,
    text: Seq<char>,
)
    ensures
        in_order::<EnrollmentToken>(list) && 0 <= i <= j < list.len() ==> list[i].created_at_unix
            <= list[j].created_at_unix,
        is_token_text(text) ==> text.len() == 64,
{
    if in_order::<EnrollmentToken>(list) && 0 <= i <= j < list.len() {
        assert(EnrollmentToken::date_of(list[i]) <= EnrollmentToken::date_of(list[j]));
    }
    if is_token_text(text) {
        law_token_text_is_hex(text);
    }
}

} // verus!
