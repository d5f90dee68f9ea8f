//! Password logins: right credentials are answered with a token that names the
//! user. Nobody checks a token's signature, so its key is one that is made up
//! when the server starts and never kept.

use crate::digest::{hmac_sha256, hmac_spec};
use crate::encoding::{base64_url, base64_url_encode, json_object, object_text, Scalar, ScalarView};
use crate::random::random_bytes;
use crate::text::cat;
use crate::users::{right_login, UserStore};
use vstd::prelude::*;
use vstd::utf8::encode_utf8;

verus! {

/// How long a token is good, in seconds.
pub const TOKEN_LIFETIME: i64 = 3600;

/// How many bytes a signing key has.
pub const KEY_BYTES: usize = 32;

/// How many characters a token's signature has.
pub const SIGNATURE_CHARS: usize = 43;

/// A signing key out of random bytes, if they can be had.
pub fn session_key() -> (res: Option<Vec<u8>>)
    ensures
        res matches Some(key) ==> key@.len() == KEY_BYTES,
{
    random_bytes(KEY_BYTES)
}

/// The members of a token's header.
pub open spec fn header_members() -> Seq<(Seq<char>, ScalarView)> {
    seq![("alg"@, ScalarView::Text("HS256"@)), ("typ"@, ScalarView::Text("JWT"@))]
}

/// The members of a token's payload.
pub open spec fn payload_members(username: Seq<char>, now_unix: i64) -> Seq<
    (Seq<char>, ScalarView),
> {
    seq![
        ("sub"@, ScalarView::Text(username)),
        ("aud"@, ScalarView::Text("microtak-server"@)),
        ("iat"@, ScalarView::Number(now_unix)),
        ("nbf"@, ScalarView::Number(now_unix)),
        ("exp"@, ScalarView::Number((now_unix + TOKEN_LIFETIME) as i64)),
    ]
}

/// What a token's signature is of: header and payload, each encoded, with a
/// dot between them.
pub open spec fn signed_part(username: Seq<char>, now_unix: i64) -> Seq<char> {
    base64_url(encode_utf8(object_text(header_members()))) + "."@ + base64_url(
        encode_utf8(object_text(payload_members(username, now_unix))),
    )
}

/// A token: header, payload and signature, each encoded, with dots between
/// them.
pub open spec fn jwt(key: Seq<u8>, username: Seq<char>, now_unix: i64) -> Seq<char> {
    signed_part(username, now_unix) + "."@ + base64_url(
        hmac_spec(key, encode_utf8(signed_part(username, now_unix))),
    )
}

/// The token of a user as of `now_unix`, signed with `key`.
pub fn make_jwt(key: &[u8], username: &str, now_unix: i64) -> (res: String)
    requires
        now_unix + TOKEN_LIFETIME <= i64::MAX,
    ensures
        res@ == jwt(key@, username@, now_unix),
        res@.filter(|c: char| c == '.').len() == 2,
        base64_url(hmac_spec(key@, encode_utf8(signed_part(username@, now_unix)))).len()
            == SIGNATURE_CHARS,
        res@.len() == signed_part(username@, now_unix).len() + 1 + SIGNATURE_CHARS,
{
    let header: Vec<(String, Scalar)> = vec![
        ("alg".to_owned(), Scalar::Text("HS256".to_owned())),
        ("typ".to_owned(), Scalar::Text("JWT".to_owned())),
    ];
    assert(header.deep_view() =~= header_members());
    let payload: Vec<(String, Scalar)> = vec![
        ("sub".to_owned(), Scalar::Text(username.to_owned())),
        ("aud".to_owned(), Scalar::Text("microtak-server".to_owned())),
        ("iat".to_owned(), Scalar::Number(now_unix)),
        ("nbf".to_owned(), Scalar::Number(now_unix)),
        ("exp".to_owned(), Scalar::Number(now_unix + TOKEN_LIFETIME)),
    ];
    assert(payload.deep_view() =~= payload_members(username@, now_unix));
    let first = base64_url_encode(json_object(&header).as_str().as_bytes());
    let second = base64_url_encode(json_object(&payload).as_str().as_bytes());
    let signed = cat(&first, ".", &second);
    let third = base64_url_encode(&hmac_sha256(key, signed.as_str().as_bytes()));
    let res = cat(&signed, ".", &third);
    proof {
        reveal_strlit(".");
        lemma_two_dots(first@, second@, third@);
    }
    res
}

/// Three texts without a dot, with dots between them, hold two dots.
proof fn lemma_two_dots(a: Seq<char>, b: Seq<char>, c: Seq<char>)
    requires
        !a.contains('.'),
        !b.contains('.'),
        !c.contains('.'),
    ensures
        (a + "."@ + b + "."@ + c).filter(|c: char| c == '.').len() == 2,
{
    let dot = |c: char| c == '.';
    reveal_strlit(".");
    let one = seq!['.'];
    assert("."@ =~= one);
    lemma_no_dots(a);
    lemma_no_dots(b);
    lemma_no_dots(c);
    assert(one.filter(dot).len() == 1) by {
        reveal(Seq::filter);
        assert(one.drop_last() =~= seq![]);
        assert(one.drop_last().filter(dot) =~= seq![]);
        assert(one.filter(dot) =~= seq!['.']);
    }
    Seq::filter_distributes_over_add(a, one, dot);
    Seq::filter_distributes_over_add(a + one, b, dot);
    Seq::filter_distributes_over_add(a + one + b, one, dot);
    Seq::filter_distributes_over_add(a + one + b + one, c, dot);
}

/// A text without a dot has none among its characters.
proof fn lemma_no_dots(a: Seq<char>)
    requires
        !a.contains('.'),
    ensures
        a.filter(|c: char| c == '.').len() == 0,
    decreases a.len(),
{
    reveal(Seq::filter);
    if a.len() > 0 {
        assert(a[a.len() - 1] != '.');
        assert forall|i: int| 0 <= i < a.drop_last().len() implies a.drop_last()[i] != '.' by {
            assert(a[i] != '.');
        }
        lemma_no_dots(a.drop_last());
    }
}

/// What a login is answered.
#[derive(Debug, PartialEq)]
pub enum Grant {
    /// This token, with status 200.
    Token(String),
    /// This error and its description, with status 401.
    Refused { error: String, description: String },
}

impl Grant {
    /// The HTTP status.
    pub fn status(&self) -> (res: u16)
        ensures
            res == if *self is Token {
                200u16
            } else {
                401u16
            },
    {
        match self {
            Grant::Token(_) => 200,
            Grant::Refused { .. } => 401,
        }
    }
}

/// What a login is answered, given whether it is let in.
pub fn grant(key: &[u8], username: &str, admitted: bool, now_unix: i64) -> (res: Grant)
    requires
        now_unix + TOKEN_LIFETIME <= i64::MAX,
    ensures
        match res {
            Grant::Token(token) => admitted && token@ == jwt(key@, username@, now_unix),
            Grant::Refused { error, description } => {
                &&& !admitted
                &&& error@ == "invalid_grant"@
                &&& description@ == "Bad credentials"@
            },
        },
{
    if admitted {
        Grant::Token(make_jwt(key, username, now_unix))
    } else {
        Grant::Refused {
            error: "invalid_grant".to_owned(),
            description: "Bad credentials".to_owned(),
        }
    }
}

/// Takes in a login: a token only ever goes to whoever has the right password
/// of an account that may log in.
pub fn token(
    users: &UserStore,
    key: &[u8],
    username: &str,
    password: &str,
    now_unix: i64,
) -> (res: Grant)
    requires
        users.wf(),
        now_unix + TOKEN_LIFETIME <= i64::MAX,
    ensures
        match res {
            Grant::Token(token) => {
                &&& right_login(users.users(), username@, password@)
                &&& token@ == jwt(key@, username@, now_unix)
            },
            Grant::Refused { error, description } => {
                &&& error@ == "invalid_grant"@
                &&& description@ == "Bad credentials"@
            },
        },
{
    let admitted = users.authenticate(username, password);
    grant(key, username, admitted, now_unix)
}

/// A token has three parts, and its payload names the user first, is issued and
/// good from now on, and expires an hour later.
pub proof fn law_tokens_name_their_user_for_an_hour(
    key: Seq<u8>,
    username: Seq<char>,
    now_unix: i64,
)
    requires
        now_unix + TOKEN_LIFETIME <= i64::MAX,
    ensures
        ({
            let members = payload_members(username, now_unix);
            let head = base64_url(encode_utf8(object_text(header_members())));
            let payload = base64_url(encode_utf8(object_text(members)));
            &&& members.len() == 5
            &&& members[0] == ("sub"@, ScalarView::Text(username))
            &&& members[1] == ("aud"@, ScalarView::Text("microtak-server"@))
            &&& members[2] == ("iat"@, ScalarView::Number(now_unix))
            &&& members[3] == ("nbf"@, ScalarView::Number(now_unix))
            &&& members[4].0 == "exp"@
            &&& members[4].1 matches ScalarView::Number(end) && end - now_unix == 60 * 60
            &&& header_members().contains(("alg"@, ScalarView::Text("HS256"@)))
            &&& jwt(key, username, now_unix) == head + "."@ + payload + "."@ + base64_url(
                hmac_spec(key, encode_utf8(head + "."@ + payload)),
            )
        }),
{
    assert(header_members()[0] == ("alg"@, ScalarView::Text("HS256"@)));
}

} // verus!
