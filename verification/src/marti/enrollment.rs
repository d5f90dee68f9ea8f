//! Certificate enrollment: who gets a certificate, and in what form.
//!
//! A login takes priority over an invitation: where credentials are presented,
//! they decide, and wrong ones are refused even where enrollment is open.

use crate::app::EnrollmentMode;
use crate::encoding::{base64_bytes, base64_decode, json_object, object_text, Scalar, ScalarView};
use crate::enrollment_tokens::{consume_answer, EnrollmentTokenStore, TokenEvent, TokenEventView,
    Tokens};
use crate::eventlog::{is_line, lemma_written_lines, written, EventLogError};
use crate::pki::{certifies, law_certificate_shows_its_name, named_as_requested, nameable_time,
    shown_by, signing_answer, CertificateAuthority, PkiError, SignedCertificate};
use crate::registry::{DeviceRegistry, Devices, RegistryEvent, RegistryEventView};
use crate::search::absent;
use crate::text::{before, before_spec, cat, is_blank, is_white, join, join_spec,
    law_split_is_at_the_first_separator, law_trimming_takes_only_white_space, lines, lines_spec,
    same_text, split_once, split_once_spec, text_contains, text_of, text_starts_with, trim,
    trim_spec, utf8_text, chars_of};
use crate::users::{right_login, UserStore, Users};
use crate::views::lemma_view_push;
use vstd::prelude::*;
use vstd::utf8::{decode_utf8, valid_utf8};

verus! {

/// A body with its status and content type.
#[derive(Debug, PartialEq)]
pub struct TextReply {
    pub status: u16,
    pub content_type: String,
    pub body: String,
}

/// The model of a body with its status and content type.
pub struct TextView {
    pub status: u16,
    pub content_type: Seq<char>,
    pub body: Seq<char>,
}

impl DeepView for TextReply {
    type V = TextView;

    open spec fn deep_view(&self) -> TextView {
        TextView { status: self.status, content_type: self.content_type@, body: self.body@ }
    }
}

/// What a client is to put into its request's subject.
pub fn get_config() -> (res: TextReply)
    ensures
        res.deep_view() == (TextView {
            status: 200,
            content_type: "text/xml"@,
            body:
                "<ns2:certificateConfig><nameEntries><nameEntry name=\"O\" value=\"MicroTAK\"/><nameEntry name=\"OU\" value=\"MicroTAK\"/></nameEntries></ns2:certificateConfig>"@,
        }),
{
    TextReply {
        status: 200,
        content_type: "text/xml".to_owned(),
        body:
            "<ns2:certificateConfig><nameEntries><nameEntry name=\"O\" value=\"MicroTAK\"/><nameEntry name=\"OU\" value=\"MicroTAK\"/></nameEntries></ns2:certificateConfig>".to_owned(),
    }
}

/// The authority's certificate.
pub fn get_ca_pem(ca: &CertificateAuthority) -> (res: TextReply)
    ensures
        res.deep_view() == (TextView {
            status: 200,
            content_type: "application/x-pem-file"@,
            body: ca.cert_text(),
        }),
{
    TextReply {
        status: 200,
        content_type: "application/x-pem-file".to_owned(),
        body: ca.ca_cert_pem(),
    }
}

/// A content type without its parameters.
pub open spec fn media_type(content_type: Seq<char>) -> Seq<char> {
    trim_spec(before_spec(content_type, ';'))
}

/// Whether a request's body is taken as it is under this content type.
pub open spec fn acceptable(content_type: Seq<char>) -> bool {
    let base = media_type(content_type);
    ||| base == "application/octet-stream"@
    ||| base == "application/pkcs10"@
    ||| base == "text/plain"@
    ||| base == ""@
}

/// Whether a request's body is taken as it is under this content type.
pub fn is_acceptable_csr_content_type(content_type: &str) -> (res: bool)
    ensures
        res == acceptable(content_type@),
{
    let base = trim(&before(content_type, ';'));
    same_text(&base, "application/octet-stream") || same_text(&base, "application/pkcs10")
        || same_text(&base, "text/plain") || same_text(&base, "")
}

/// What a request starts with in PEM.
pub open spec fn armor_open() -> Seq<char> {
    "-----BEGIN CERTIFICATE REQUEST-----\n"@
}

/// What a request ends with in PEM.
pub open spec fn armor_close() -> Seq<char> {
    "\n-----END CERTIFICATE REQUEST-----\n"@
}

/// The PEM text of the request that a body holds: as it is where it is armored,
/// else with the armor put around it.
pub open spec fn normalized(body: Seq<u8>) -> Result<Seq<char>, Seq<char>> {
    if !valid_utf8(body) {
        Err("CSR body is not valid UTF-8 text"@)
    } else {
        let trimmed = trim_spec(decode_utf8(body));
        if trimmed.len() == 0 {
            Err("CSR body is empty"@)
        } else if !absent(trimmed, "BEGIN CERTIFICATE REQUEST"@) {
            Ok(trimmed)
        } else {
            Ok(armor_open() + trimmed + armor_close())
        }
    }
}

/// The PEM text of the request that a body holds.
pub fn normalize_csr_body(body: &[u8]) -> (res: Result<String, String>)
    ensures
        match res {
            Ok(pem) => normalized(body@) == Ok::<Seq<char>, Seq<char>>(pem@),
            Err(message) => normalized(body@) == Err::<Seq<char>, Seq<char>>(message@),
        },
{
    let text = match utf8_text(body) {
        Some(text) => text,
        None => {
            return Err("CSR body is not valid UTF-8 text".to_owned());
        },
    };
    let trimmed = trim(&text);
    if trimmed.as_str().is_empty() {
        return Err("CSR body is empty".to_owned());
    }
    if text_contains(&trimmed, "BEGIN CERTIFICATE REQUEST") {
        Ok(trimmed)
    } else {
        Ok(
            cat(
                "-----BEGIN CERTIFICATE REQUEST-----\n",
                &trimmed,
                "\n-----END CERTIFICATE REQUEST-----\n",
            ),
        )
    }
}

/// Whether a line belongs to the armor.
pub open spec fn is_armor(line: Seq<char>) -> bool {
    "-----"@.is_prefix_of(line)
}

/// The lines that are not armor.
pub open spec fn unarmored(lines: Seq<Seq<char>>) -> Seq<Seq<char>>
    decreases lines.len(),
{
    if lines.len() == 0 {
        seq![]
    } else {
        let head = unarmored(lines.drop_last());
        if is_armor(lines.last()) {
            head
        } else {
            head.push(lines.last())
        }
    }
}

/// A PEM text without its armor.
pub open spec fn bare(pem: Seq<char>) -> Seq<char> {
    join_spec(unarmored(lines_spec(pem)), "\n"@)
}

/// A PEM text without its armor.
pub fn strip_pem_armor(cert_pem: &str) -> (res: String)
    ensures
        res@ == bare(cert_pem@),
{
    let all = lines(cert_pem);
    let ghost texts = all.deep_view();
    let mut kept: Vec<String> = Vec::new();
    let mut i: usize = 0;
    assert(texts.take(0) =~= seq![]);
    assert(kept.deep_view() =~= seq![]);
    while i < all.len()
        invariant
            texts == all.deep_view(),
            texts.len() == all@.len(),
            i <= all@.len(),
            kept.deep_view() == unarmored(texts.take(i as int)),
        decreases all@.len() - i,
    {
        assert(texts.take(i + 1).drop_last() =~= texts.take(i as int));
        if !text_starts_with(&all[i], "-----") {
            let ghost earlier = kept;
            let line = all[i].clone();
            kept.push(line);
            proof {
                lemma_view_push(earlier, kept, line);
            }
        }
        i = i + 1;
    }
    assert(texts.take(i as int) =~= texts);
    join(&kept, "\n")
}

/// The credentials that decoded bytes hold: text with a colon in it.
pub open spec fn credentials_in(bytes: Option<Seq<u8>>) -> Option<(Seq<char>, Seq<char>)> {
    match bytes {
        None => None,
        Some(b) => if valid_utf8(b) {
            split_once_spec(decode_utf8(b), ':')
        } else {
            None
        },
    }
}

/// The encoded part of an authorization under the Basic scheme.
pub open spec fn basic_part(authorization: Seq<char>) -> Option<Seq<char>> {
    if "Basic "@.is_prefix_of(authorization) {
        Some(authorization.skip("Basic "@.len() as int))
    } else {
        None
    }
}

/// The user name and password that an authorization presents. One that is
/// missing, of another scheme or malformed presents none.
pub open spec fn credentials(authorization: Option<Seq<char>>) -> Option<(Seq<char>, Seq<char>)> {
    match authorization {
        None => None,
        Some(value) => match basic_part(value) {
            None => None,
            Some(encoded) => credentials_in(base64_bytes(encoded)),
        },
    }
}

/// The credentials that decoded bytes hold.
pub fn parse_credentials(bytes: Option<Vec<u8>>) -> (res: Option<(String, String)>)
    ensures
        res.deep_view() == credentials_in(
            match bytes {
                Some(b) => Some(b@),
                None => None,
            },
        ),
{
    match bytes {
        None => None,
        Some(b) => match utf8_text(&b) {
            Some(text) => split_once(&text, ':'),
            None => None,
        },
    }
}

/// The user name and password that an authorization presents.
pub fn basic_auth_credentials(authorization: &Option<String>) -> (res: Option<(String, String)>)
    ensures
        res.deep_view() == credentials(authorization.deep_view()),
{
    match authorization {
        None => None,
        Some(value) => {
            if !text_starts_with(value, "Basic ") {
                return None;
            }
            proof {
                reveal_strlit("Basic ");
            }
            let chars = chars_of(value);
            let encoded = text_of(&chars, 6, chars.len());
            assert(encoded@ =~= value@.skip(6));
            parse_credentials(base64_decode(&encoded))
        },
    }
}

/// The members of a successful answer.
pub open spec fn issued_members(cert: Seq<char>, ca: Seq<char>) -> Seq<(Seq<char>, ScalarView)> {
    seq![("signedCert"@, ScalarView::Text(cert)), ("ca0"@, ScalarView::Text(ca))]
}

/// The XML form of a successful answer.
pub open spec fn issued_xml(cert: Seq<char>, ca: Seq<char>) -> Seq<char> {
    "<enrollmentResponse><signedCert><![CDATA["@ + cert + ("]]></signedCert><ca0><![CDATA["@ + ca
        + "]]></ca0></enrollmentResponse>"@)
}

/// A successful answer in the form that the client accepts: JSON under
/// `text/plain` for one that asks for that, JSON for one that takes JSON or
/// anything, else XML.
pub open spec fn shaped(accept: Seq<char>, cert_pem: Seq<char>, ca_pem: Seq<char>) -> TextView {
    let cert = bare(cert_pem);
    let ca = bare(ca_pem);
    if !absent(accept, "text/plain"@) {
        TextView {
            status: 200,
            content_type: "text/plain"@,
            body: object_text(issued_members(cert, ca)),
        }
    } else if accept.len() == 0 || !absent(accept, "application/json"@) || !absent(accept, "*/*"@) {
        TextView {
            status: 200,
            content_type: "application/json"@,
            body: object_text(issued_members(cert, ca)),
        }
    } else {
        TextView { status: 200, content_type: "application/xml"@, body: issued_xml(cert, ca) }
    }
}

/// A successful answer in the form that the client accepts.
pub fn shaped_success_response(accept: &str, cert_pem: &str, ca_cert_pem: &str) -> (res: TextReply)
    ensures
        res.deep_view() == shaped(accept@, cert_pem@, ca_cert_pem@),
{
    let cert = strip_pem_armor(cert_pem);
    let ca = strip_pem_armor(ca_cert_pem);
    let plain = text_contains(accept, "text/plain");
    let json = accept.is_empty() || text_contains(accept, "application/json") || text_contains(
        accept,
        "*/*",
    );
    if plain || json {
        let members: Vec<(String, Scalar)> = vec![
            ("signedCert".to_owned(), Scalar::Text(cert)),
            ("ca0".to_owned(), Scalar::Text(ca)),
        ];
        assert(members.deep_view() =~= issued_members(bare(cert_pem@), bare(ca_cert_pem@)));
        let body = json_object(&members);
        let content_type = if plain {
            "text/plain".to_owned()
        } else {
            "application/json".to_owned()
        };
        TextReply { status: 200, content_type, body }
    } else {
        let tail = cat(
            "]]></signedCert><ca0><![CDATA[",
            &ca,
            "]]></ca0></enrollmentResponse>",
        );
        let body = cat("<enrollmentResponse><signedCert><![CDATA[", &cert, &tail);
        TextReply { status: 200, content_type: "application/xml".to_owned(), body }
    }
}

/// Keeping lines that are none of the armor's keeps them all.
proof fn lemma_unarmored_body(lines: Seq<Seq<char>>)
    requires
        forall|i: int| 0 <= i < lines.len() ==> !is_armor(#[trigger] lines[i]),
    ensures
        unarmored(lines) == lines,
    decreases lines.len(),
{
    if lines.len() > 0 {
        let head = lines.drop_last();
        assert forall|i: int| 0 <= i < head.len() implies !is_armor(#[trigger] head[i]) by {
            assert(!is_armor(lines[i]));
        }
        lemma_unarmored_body(head);
        assert(!is_armor(lines[lines.len() - 1]));
        assert(head.push(lines.last()) =~= lines);
    } else {
        assert(unarmored(lines) =~= lines);
    }
}

/// An armor line in front is dropped.
proof fn lemma_unarmored_front(first: Seq<char>, lines: Seq<Seq<char>>)
    requires
        is_armor(first),
    ensures
        unarmored(seq![first] + lines) == unarmored(lines),
    decreases lines.len(),
{
    let all = seq![first] + lines;
    if lines.len() == 0 {
        assert(all =~= seq![first]);
        assert(all.drop_last() =~= seq![]);
        assert(unarmored(all.drop_last()) =~= seq![]);
    } else {
        lemma_unarmored_front(first, lines.drop_last());
        assert(all.drop_last() =~= seq![first] + lines.drop_last());
        assert(all.last() == lines.last());
    }
}

/// Stripping undoes armoring: lines of text that were put between two armor
/// lines come back joined, and nothing else.
pub proof fn law_stripping_undoes_armoring(
    first: Seq<char>,
    body: Seq<Seq<char>>,
    last: Seq<char>,
)
    requires
        is_armor(first),
        is_armor(last),
        is_line(first),
        is_line(last),
        forall|i: int| 0 <= i < body.len() ==> is_line(#[trigger] body[i]) && !is_armor(body[i]),
    ensures
        bare(written(seq![first] + body + seq![last])) == join_spec(body, "\n"@),
{
    let all = seq![first] + body + seq![last];
    assert forall|i: int| 0 <= i < all.len() implies is_line(#[trigger] all[i]) by {
        if 0 < i < all.len() - 1 {
            assert(is_line(body[i - 1]));
        }
    }
    lemma_written_lines(all);
    assert(all.drop_last() =~= seq![first] + body);
    lemma_unarmored_front(first, body);
    assert forall|i: int| 0 <= i < body.len() implies !is_armor(#[trigger] body[i]) by {
        assert(is_line(body[i]));
    }
    lemma_unarmored_body(body);
}

/// Whether enrollment asks for an invitation now.
pub open spec fn locked_down(
    mode: EnrollmentMode,
    admin: Option<Seq<char>>,
    devices: Devices,
) -> bool {
    mode == EnrollmentMode::Auto && (admin matches Some(name) && devices.contains_key(name))
}

/// A request for a certificate, as it came in.
#[derive(Debug)]
pub struct SignRequest {
    /// The content type, empty where there is none.
    pub content_type: String,
    /// What the client accepts, empty where it does not say.
    pub accept: String,
    pub authorization: Option<String>,
    /// An invitation.
    pub token: Option<String>,
    pub body: Vec<u8>,
}

/// What decides whether a signed certificate is handed out.
pub enum Gate {
    /// It is not.
    Refuse(u16, Seq<char>),
    /// It is.
    Pass,
    /// It is, for this invitation.
    Spend(Seq<char>),
}

/// Whether a certificate for `common_name` is handed out. `login` is the user
/// name that was presented and whether its password was right.
pub open spec fn gate(
    locked: bool,
    tokens: Tokens,
    common_name: Seq<char>,
    login: Option<(Seq<char>, bool)>,
    token: Option<Seq<char>>,
    now_unix: i64,
) -> Gate {
    match login {
        Some((username, right)) => if !right {
            Gate::Refuse(401, "invalid username or password"@)
        } else if common_name != username {
            Gate::Refuse(403, "CSR Common Name must match the authenticated username"@)
        } else {
            Gate::Pass
        },
        None => if !locked {
            Gate::Pass
        } else {
            match token {
                None => Gate::Refuse(403, "a valid enrollment token is required"@),
                Some(t) => match consume_answer(tokens, t, now_unix) {
                    Ok(()) => Gate::Spend(t),
                    Err(error) => Gate::Refuse(
                        403,
                        "invalid enrollment token: "@ + error.message_spec() + ""@,
                    ),
                },
            }
        },
    }
}

/// What to do next about a request for a certificate.
#[derive(Debug)]
pub enum EnrollStep {
    /// Refuse it.
    Refuse { status: u16, message: String },
    /// Log that the invitation is spent, then that the device is enrolled.
    Spend { consumed: TokenEvent, signed: SignedCertificate },
    /// Log that the device is enrolled.
    Enroll { signed: SignedCertificate },
}

/// The step that a gate calls for.
pub open spec fn gated(
    g: Gate,
    signed: SignedCertificate,
    now_unix: i64,
    step: EnrollStep,
) -> bool {
    match g {
        Gate::Refuse(code, text) => step matches EnrollStep::Refuse { status, message } && status
            == code && message@ == text,
        Gate::Pass => step == (EnrollStep::Enroll { signed }),
        Gate::Spend(t) => step matches EnrollStep::Spend { consumed, signed: s } && s == signed
            && consumed.deep_view() == (TokenEventView::Consumed {
            token: t,
            common_name: signed.common_name@,
            at_unix: now_unix,
        }),
    }
}

/// What a request for a certificate is answered.
#[derive(Debug, PartialEq)]
pub enum SignReply {
    Issued(TextReply),
    Refused { status: u16, message: String },
}

/// What enrollment goes by, besides the stores.
pub struct EnrollmentState {
    pub ca: CertificateAuthority,
    /// How long issued certificates are valid.
    pub cert_validity_seconds: i64,
    pub enrollment_mode: EnrollmentMode,
    /// The administrator, whose enrollment locks enrollment down.
    pub admin_common_name: Option<String>,
}

/// The refusal that a request meets before anything is signed: for its content
/// type, then for its body.
pub open spec fn early_refusal(request: SignRequest) -> Option<Seq<char>> {
    if !acceptable(request.content_type@) {
        Some(
            "Content-Type must be application/octet-stream or application/pkcs10 (got '"@
                + request.content_type@ + "')"@,
        )
    } else {
        match normalized(request.body@) {
            Ok(_) => None,
            Err(message) => Some(message),
        }
    }
}

impl EnrollmentState {
    /// Whether enrollment asks for an invitation now.
    pub open spec fn locked(&self, devices: Devices) -> bool {
        locked_down(self.enrollment_mode, self.admin_common_name.deep_view(), devices)
    }

    /// Whether certificates that are issued now end in time.
    pub open spec fn can_issue_at(&self, now_unix: i64) -> bool {
        nameable_time(now_unix as int) && nameable_time(now_unix + self.cert_validity_seconds)
    }

    /// Whether enrollment asks for an invitation now: as soon as the configured
    /// administrator is enrolled, unless it is to stay open.
    pub fn is_locked_down(&self, registry: &DeviceRegistry) -> (res: bool)
        requires
            registry.wf(),
        ensures
            res == self.locked(registry.devices()),
    {
        match self.enrollment_mode {
            EnrollmentMode::Open => false,
            EnrollmentMode::Auto => match &self.admin_common_name {
                Some(admin) => registry.find(admin).is_some(),
                None => false,
            },
        }
    }

    /// The request's PEM text, or why it is refused.
    pub fn receive(&self, request: &SignRequest) -> (res: Result<String, String>)
        ensures
            match res {
                Ok(pem) => early_refusal(*request) is None && normalized(request.body@) == Ok::<
                    Seq<char>,
                    Seq<char>,
                >(pem@),
                Err(message) => early_refusal(*request) == Some(message@),
            },
    {
        if !is_acceptable_csr_content_type(&request.content_type) {
            return Err(
                cat(
                    "Content-Type must be application/octet-stream or application/pkcs10 (got '",
                    &request.content_type,
                    "')",
                ),
            );
        }
        normalize_csr_body(&request.body)
    }

    /// Whether a signed certificate is handed out, given the user name that was
    /// presented and whether its password was right.
    pub fn decide(
        &self,
        registry: &DeviceRegistry,
        tokens: &EnrollmentTokenStore,
        signed: SignedCertificate,
        login: Option<(String, bool)>,
        token: &Option<String>,
        now_unix: i64,
    ) -> (res: EnrollStep)
        requires
            registry.wf(),
            tokens.wf(),
        ensures
            gated(
                gate(
                    self.locked(registry.devices()),
                    tokens.tokens(),
                    signed.common_name@,
                    login.deep_view(),
                    token.deep_view(),
                    now_unix,
                ),
                signed,
                now_unix,
                res,
            ),
    {
        match login {
            Some((username, right)) => {
                if !right {
                    return EnrollStep::Refuse {
                        status: 401,
                        message: "invalid username or password".to_owned(),
                    };
                }
                if !same_text(&signed.common_name, &username) {
                    return EnrollStep::Refuse {
                        status: 403,
                        message: "CSR Common Name must match the authenticated username".to_owned(),
                    };
                }
                EnrollStep::Enroll { signed }
            },
            None => {
                if !self.is_locked_down(registry) {
                    return EnrollStep::Enroll { signed };
                }
                match token {
                    None => EnrollStep::Refuse {
                        status: 403,
                        message: "a valid enrollment token is required".to_owned(),
                    },
                    Some(t) => match tokens.propose_consume(t, &signed.common_name, now_unix) {
                        Ok(consumed) => EnrollStep::Spend { consumed, signed },
                        Err(error) => EnrollStep::Refuse {
                            status: 403,
                            message: cat("invalid enrollment token: ", &error.message(), ""),
                        },
                    },
                }
            },
        }
    }
}

/// The refusal of a request whose certificate could not be signed.
pub open spec fn signing_refusal(error: PkiError, message: Seq<char>) -> bool {
    ("failed to sign CSR: "@ + error.heading()).is_prefix_of(message)
}

/// What a request comes to, given what signing it gave and whether the login
/// it presents was right.
pub open spec fn enroll_answer(
    state: EnrollmentState,
    request: SignRequest,
    devices: Devices,
    tokens: Tokens,
    signed: Result<SignedCertificate, PkiError>,
    right: bool,
    now_unix: i64,
    step: EnrollStep,
) -> bool {
    match early_refusal(request) {
        Some(text) => step matches EnrollStep::Refuse { status, message } && status == 400
            && message@ == text,
        None => match signed {
            Err(error) => step matches EnrollStep::Refuse { status, message } && status == 400
                && signing_refusal(error, message@),
            Ok(certificate) => gated(
                gate(
                    state.locked(devices),
                    tokens,
                    certificate.common_name@,
                    match credentials(request.authorization.deep_view()) {
                        Some((username, _)) => Some((username, right)),
                        None => None,
                    },
                    request.token.deep_view(),
                    now_unix,
                ),
                certificate,
                now_unix,
                step,
            ),
        },
    }
}

/// What signing the request with the PEM text `csr` may give.
pub open spec fn may_sign(
    state: EnrollmentState,
    csr: Seq<char>,
    now_unix: i64,
    signed: Result<SignedCertificate, PkiError>,
) -> bool {
    &&& signing_answer(state.ca.cert_text(), csr, signed)
    &&& signed matches Ok(certificate) ==> {
        &&& certifies(
            certificate.cert_pem@,
            state.ca.cert_text(),
            state.ca.private_key(),
            csr,
            now_unix,
            (now_unix + state.cert_validity_seconds) as i64,
        )
        &&& named_as_requested(certificate.cert_pem@, state.ca.cert_text(), csr)
    }
}

/// What a look at the login that a request presents may find: a wrong login is
/// never found right.
pub open spec fn may_find(users: Users, request: SignRequest, right: bool) -> bool {
    right ==> (credentials(request.authorization.deep_view()) matches Some((username, password))
        && right_login(users, username, password))
}

/// What was done for a request before anything is decided: what signing it
/// gave, and who it says is asking, with whether the password was right.
#[derive(Debug)]
pub struct Prepared {
    pub signed: Result<SignedCertificate, PkiError>,
    pub login: Option<(String, bool)>,
}

impl Prepared {
    /// Whether the login was found right.
    pub open spec fn admitted(&self) -> bool {
        self.login matches Some((_, right)) && right
    }
}

impl EnrollmentState {
    /// Answers a request for which signing failed, or weighs whether its
    /// certificate is handed out.
    pub fn after_signing(
        &self,
        registry: &DeviceRegistry,
        tokens: &EnrollmentTokenStore,
        request: &SignRequest,
        signed: Result<SignedCertificate, PkiError>,
        login: Option<(String, bool)>,
        now_unix: i64,
    ) -> (res: EnrollStep)
        requires
            registry.wf(),
            tokens.wf(),
        ensures
            match signed {
                Err(error) => res matches EnrollStep::Refuse { status, message } && status == 400
                    && signing_refusal(error, message@),
                Ok(certificate) => gated(
                    gate(
                        self.locked(registry.devices()),
                        tokens.tokens(),
                        certificate.common_name@,
                        login.deep_view(),
                        request.token.deep_view(),
                        now_unix,
                    ),
                    certificate,
                    now_unix,
                    res,
                ),
            },
    {
        match signed {
            Err(error) => {
                let message = cat("failed to sign CSR: ", &error.message(), "");
                proof {
                    reveal_strlit("");
                    let head = "failed to sign CSR: "@;
                    let whole = head + error.heading();
                    assert(message@.subrange(0, whole.len() as int) =~= whole) by {
                        assert forall|i: int| 0 <= i < whole.len() implies message@[i]
                            == whole[i] by {
                            if i >= head.len() {
                                let words = message@.skip(head.len() as int);
                                assert(message@[i] == words[i - head.len()]);
                            }
                        }
                    }
                }
                EnrollStep::Refuse { status: 400, message }
            },
            Ok(certificate) => {
                self.decide(registry, tokens, certificate, login, &request.token, now_unix)
            },
        }
    }

    /// Does what a request takes before anything is decided: signs it, and looks
    /// at the login it presents. A request that is malformed is refused with a
    /// message.
    pub fn prepare(&self, users: &UserStore, request: &SignRequest, now_unix: i64) -> (res: Result<
        Prepared,
        String,
    >)
        requires
            users.wf(),
            early_refusal(*request) is None ==> self.can_issue_at(now_unix),
        ensures
            match res {
                Err(message) => early_refusal(*request) == Some(message@),
                Ok(prepared) => {
                    &&& early_refusal(*request) is None
                    &&& may_sign(*self, normalized(request.body@)->Ok_0, now_unix, prepared.signed)
                    &&& may_find(users.users(), *request, prepared.admitted())
                    &&& prepared.signed is Ok ==> prepared.login.deep_view() == match credentials(
                        request.authorization.deep_view(),
                    ) {
                        Some((username, _)) => Some((username, prepared.admitted())),
                        None => None,
                    }
                },
            },
    {
        let csr_pem = match self.receive(request) {
            Ok(pem) => pem,
            Err(message) => {
                return Err(message);
            },
        };
        let signed = self.ca.sign_csr(&csr_pem, self.cert_validity_seconds, now_unix);
        let mut login: Option<(String, bool)> = None;
        if signed.is_ok() {
            if let Some((username, password)) = basic_auth_credentials(&request.authorization) {
                let found = users.authenticate(&username, &password);
                login = Some((username, found));
            }
        }
        Ok(Prepared { signed, login })
    }

    /// Says what to do next about a request that was prepared. What is refused
    /// changes nothing.
    pub fn answer(
        &self,
        registry: &DeviceRegistry,
        tokens: &EnrollmentTokenStore,
        request: &SignRequest,
        prepared: Result<Prepared, String>,
        now_unix: i64,
    ) -> (res: EnrollStep)
        requires
            registry.wf(),
            tokens.wf(),
        ensures
            match prepared {
                Err(text) => res matches EnrollStep::Refuse { status, message } && status == 400
                    && message == text,
                Ok(p) => match p.signed {
                    Err(error) => res matches EnrollStep::Refuse { status, message } && status
                        == 400 && signing_refusal(error, message@),
                    Ok(certificate) => gated(
                        gate(
                            self.locked(registry.devices()),
                            tokens.tokens(),
                            certificate.common_name@,
                            p.login.deep_view(),
                            request.token.deep_view(),
                            now_unix,
                        ),
                        certificate,
                        now_unix,
                        res,
                    ),
                },
            },
    {
        match prepared {
            Err(message) => EnrollStep::Refuse { status: 400, message },
            Ok(p) => self.after_signing(registry, tokens, request, p.signed, p.login, now_unix),
        }
    }

    /// Takes in a request: signs it, looks at the login it presents, and says
    /// what to do next. What is refused changes nothing.
    pub fn begin(
        &self,
        registry: &DeviceRegistry,
        tokens: &EnrollmentTokenStore,
        users: &UserStore,
        request: &SignRequest,
        now_unix: i64,
    ) -> (res: EnrollStep)
        requires
            registry.wf(),
            tokens.wf(),
            users.wf(),
            early_refusal(*request) is None ==> self.can_issue_at(now_unix),
        ensures
            exists|signed: Result<SignedCertificate, PkiError>, right: bool|
                {
                    &&& early_refusal(*request) is None ==> may_sign(
                        *self,
                        normalized(request.body@)->Ok_0,
                        now_unix,
                        signed,
                    )
                    &&& may_find(users.users(), *request, right)
                    &&& #[trigger] enroll_answer(
                        *self,
                        *request,
                        registry.devices(),
                        tokens.tokens(),
                        signed,
                        right,
                        now_unix,
                        res,
                    )
                },
    {
        let prepared = self.prepare(users, request, now_unix);
        let ghost outcome = prepared;
        let ghost signed = if outcome is Ok {
            outcome->Ok_0.signed
        } else {
            Err(PkiError::MissingCommonName)
        };
        let ghost right = outcome is Ok && outcome->Ok_0.admitted();
        let step = self.answer(registry, tokens, request, prepared, now_unix);
        assert(may_find(users.users(), *request, right));
        assert(enroll_answer(
            *self,
            *request,
            registry.devices(),
            tokens.tokens(),
            signed,
            right,
            now_unix,
            step,
        ));
        step
    }

    /// Spends an invitation whose use was to be logged; if it could not be, the
    /// request is refused and nothing changes.
    pub fn spend(
        tokens: &mut EnrollmentTokenStore,
        consumed: &TokenEvent,
        logged: Result<(), EventLogError>,
    ) -> (res: Result<(), SignReply>)
        requires
            old(tokens).wf(),
        ensures
            final(tokens).wf(),
            match logged {
                Ok(()) => res is Ok && final(tokens).tokens() == crate::enrollment_tokens::apply(
                    old(tokens).tokens(),
                    consumed.deep_view(),
                ),
                Err(error) => {
                    &&& final(tokens).tokens() == old(tokens).tokens()
                    &&& res matches Err(SignReply::Refused { status, message })
                    &&& status == 403
                    &&& message@ == "invalid enrollment token: "@ + ("event log error: "@
                        + error.message_spec() + ""@) + ""@
                },
            },
    {
        match tokens.commit(consumed, logged) {
            Ok(()) => Ok(()),
            Err(error) => Err(
                SignReply::Refused {
                    status: 403,
                    message: cat("invalid enrollment token: ", &error.message(), ""),
                },
            ),
        }
    }

    /// The event that enrolls the holder of a certificate.
    pub fn enrollment_of(signed: &SignedCertificate, now_unix: i64) -> (res: RegistryEvent)
        ensures
            res.deep_view() == (RegistryEventView::Enrolled {
                common_name: signed.common_name@,
                cert_pem: signed.cert_pem@,
                at_unix: now_unix,
            }),
    {
        DeviceRegistry::propose_enroll(&signed.common_name, &signed.cert_pem, now_unix)
    }

    /// Enrolls the holder of a certificate, which was to be logged, and hands
    /// the certificate out; if it could not be logged, neither happens.
    pub fn finish(
        &self,
        registry: &mut DeviceRegistry,
        enrolled: &RegistryEvent,
        logged: Result<(), EventLogError>,
        signed: &SignedCertificate,
        accept: &str,
    ) -> (res: SignReply)
        requires
            old(registry).wf(),
        ensures
            final(registry).wf(),
            match logged {
                Ok(()) => {
                    &&& final(registry).devices() == crate::registry::apply(
                        old(registry).devices(),
                        enrolled.deep_view(),
                    )
                    &&& res matches SignReply::Issued(text)
                    &&& text.deep_view() == shaped(accept@, signed.cert_pem@, self.ca.cert_text())
                },
                Err(_) => {
                    &&& final(registry).devices() == old(registry).devices()
                    &&& res matches SignReply::Refused { status, message }
                    &&& status == 500
                    &&& message@ == "failed to record device"@
                },
            },
    {
        match registry.commit(enrolled, logged) {
            Ok(()) => SignReply::Issued(
                shaped_success_response(accept, &signed.cert_pem, &self.ca.ca_cert_pem()),
            ),
            Err(_) => SignReply::Refused {
                status: 500,
                message: "failed to record device".to_owned(),
            },
        }
    }

    /// Takes in a request and carries it through: a refusal changes nothing, a
    /// certificate that is handed out is recorded, and so is the invitation
    /// that was spent for it.
    pub fn sign_client_v2(
        &self,
        registry: &mut DeviceRegistry,
        tokens: &mut EnrollmentTokenStore,
        users: &UserStore,
        request: &SignRequest,
        now_unix: i64,
    ) -> (res: SignReply)
        requires
            old(registry).wf(),
            old(tokens).wf(),
            users.wf(),
            early_refusal(*request) is None ==> self.can_issue_at(now_unix),
        ensures
            final(registry).wf(),
            final(tokens).wf(),
            exists|signed: Result<SignedCertificate, PkiError>, right: bool, step: EnrollStep|
                {
                    &&& early_refusal(*request) is None ==> may_sign(
                        *self,
                        normalized(request.body@)->Ok_0,
                        now_unix,
                        signed,
                    )
                    &&& may_find(users.users(), *request, right)
                    &&& #[trigger] enroll_answer(
                        *self,
                        *request,
                        old(registry).devices(),
                        old(tokens).tokens(),
                        signed,
                        right,
                        now_unix,
                        step,
                    )
                    &&& carried_through(
                        *self,
                        *request,
                        step,
                        old(registry).devices(),
                        old(tokens).tokens(),
                        final(registry).devices(),
                        final(tokens).tokens(),
                        now_unix,
                        res,
                    )
                },
    {
        let step = self.begin(registry, tokens, users, request, now_unix);
        match step {
            EnrollStep::Refuse { status, message } => SignReply::Refused { status, message },
            EnrollStep::Spend { consumed, signed } => {
                tokens.apply_event(&consumed);
                let enrolled = Self::enrollment_of(&signed, now_unix);
                self.finish(registry, &enrolled, Ok(()), &signed, &request.accept)
            },
            EnrollStep::Enroll { signed } => {
                let enrolled = Self::enrollment_of(&signed, now_unix);
                self.finish(registry, &enrolled, Ok(()), &signed, &request.accept)
            },
        }
    }
}

/// A step was carried through: what the registry and the invitations then
/// hold, and what was answered.
pub open spec fn carried_through(
    state: EnrollmentState,
    request: SignRequest,
    step: EnrollStep,
    devices: Devices,
    tokens: Tokens,
    devices_now: Devices,
    tokens_now: Tokens,
    now_unix: i64,
    reply: SignReply,
) -> bool {
    match step {
        EnrollStep::Refuse { status, message } => {
            &&& devices_now == devices
            &&& tokens_now == tokens
            &&& reply == (SignReply::Refused { status, message })
        },
        EnrollStep::Spend { consumed, signed } => {
            &&& devices_now == crate::registry::apply(
                devices,
                RegistryEventView::Enrolled {
                    common_name: signed.common_name@,
                    cert_pem: signed.cert_pem@,
                    at_unix: now_unix,
                },
            )
            &&& tokens_now == crate::enrollment_tokens::apply(tokens, consumed.deep_view())
            &&& reply matches SignReply::Issued(text)
            &&& text.deep_view() == shaped(
                request.accept@,
                signed.cert_pem@,
                state.ca.cert_text(),
            )
        },
        EnrollStep::Enroll { signed } => {
            &&& devices_now == crate::registry::apply(
                devices,
                RegistryEventView::Enrolled {
                    common_name: signed.common_name@,
                    cert_pem: signed.cert_pem@,
                    at_unix: now_unix,
                },
            )
            &&& tokens_now == tokens
            &&& reply matches SignReply::Issued(text)
            &&& text.deep_view() == shaped(
                request.accept@,
                signed.cert_pem@,
                state.ca.cert_text(),
            )
        },
    }
}

/// Enrollment that is open never asks for an invitation. Otherwise it starts
/// to, for good, the moment the configured administrator is enrolled, and never
/// before.
pub proof fn law_enrollment_locks_when_the_admin_enrolls(
    admin: Seq<char>,
    devices: Devices,
    cert_pem: Seq<char>,
    at_unix: i64,
    later: RegistryEventView,
)
    ensures
        !locked_down(EnrollmentMode::Open, Some(admin), devices),
        !locked_down(EnrollmentMode::Auto, None, devices),
        !devices.contains_key(admin) ==> !locked_down(EnrollmentMode::Auto, Some(admin), devices),
        ({
            let now = crate::registry::apply(
                devices,
                RegistryEventView::Enrolled { common_name: admin, cert_pem, at_unix },
            );
            &&& locked_down(EnrollmentMode::Auto, Some(admin), now)
            &&& locked_down(
                EnrollmentMode::Auto,
                Some(admin),
                crate::registry::apply(now, later),
            )
        }),
{
}

/// Wrong credentials are refused, also where enrollment is open; right ones
/// pass without an invitation, for their own name and no other.
pub proof fn law_login_takes_priority(
    locked: bool,
    tokens: Tokens,
    common_name: Seq<char>,
    username: Seq<char>,
    token: Option<Seq<char>>,
    now_unix: i64,
)
    ensures
        gate(locked, tokens, common_name, Some((username, false)), token, now_unix) is Refuse,
        gate(locked, tokens, username, Some((username, true)), token, now_unix) is Pass,
        common_name != username ==> gate(
            locked,
            tokens,
            common_name,
            Some((username, true)),
            token,
            now_unix,
        ) is Refuse,
{
}

/// Once enrollment is locked, whoever does not log in needs an invitation that
/// is good, and it is spent.
pub proof fn law_locked_enrollment_spends_an_invitation(
    tokens: Tokens,
    common_name: Seq<char>,
    token: Seq<char>,
    now_unix: i64,
    later: i64,
)
    ensures
        gate(true, tokens, common_name, None, None, now_unix) is Refuse,
        gate(true, tokens, common_name, None, Some(token), now_unix) is Spend <==> consume_answer(
            tokens,
            token,
            now_unix,
        ) is Ok,
        consume_answer(tokens, token, now_unix) is Ok ==> gate(
            true,
            crate::enrollment_tokens::apply(
                tokens,
                TokenEventView::Consumed { token, common_name, at_unix: now_unix },
            ),
            common_name,
            None,
            Some(token),
            later,
        ) is Refuse,
{
}

/// A refused request changes nothing: no device is recorded and no invitation
/// is spent.
pub proof fn law_refused_requests_change_nothing(
    state: EnrollmentState,
    request: SignRequest,
    step: EnrollStep,
    devices: Devices,
    tokens: Tokens,
    devices_now: Devices,
    tokens_now: Tokens,
    now_unix: i64,
    reply: SignReply,
)
    requires
        carried_through(
            state,
            request,
            step,
            devices,
            tokens,
            devices_now,
            tokens_now,
            now_unix,
            reply,
        ),
        reply is Refused,
    ensures
        devices_now == devices,
        tokens_now == tokens,
{
}

/// A certificate is only ever handed out to a right login under its own name,
/// for an invitation that was good and is spent, or while enrollment is open.
pub proof fn law_certificates_go_to_the_admitted_only(
    state: EnrollmentState,
    request: SignRequest,
    devices: Devices,
    tokens: Tokens,
    signed: Result<SignedCertificate, PkiError>,
    right: bool,
    now_unix: i64,
    step: EnrollStep,
)
    requires
        enroll_answer(state, request, devices, tokens, signed, right, now_unix, step),
        !(step is Refuse),
    ensures
        signed is Ok,
        match credentials(request.authorization.deep_view()) {
            Some((username, _)) => right && signed->Ok_0.common_name@ == username,
            None => state.locked(devices) ==> step is Spend && request.token is Some
                && consume_answer(tokens, request.token.deep_view()->0, now_unix) is Ok,
        },
{
}

/// A device is known by the name that it shows: the certificate that an
/// enrollment records shows no name but the one that its record stands under.
pub proof fn law_devices_connect_as_they_enrolled(
    state: EnrollmentState,
    csr: Seq<char>,
    now_unix: i64,
    signed: SignedCertificate,
    devices: Devices,
)
    requires
        may_sign(state, csr, now_unix, Ok(signed)),
    ensures
        ({
            let enrolled = crate::registry::apply(
                devices,
                RegistryEventView::Enrolled {
                    common_name: signed.common_name@,
                    cert_pem: signed.cert_pem@,
                    at_unix: now_unix,
                },
            );
            shown_by(signed.cert_pem@) matches Some(name) ==> enrolled.contains_key(name)
                && enrolled[name].cert_pem == signed.cert_pem@
        }),
{
    law_certificate_shows_its_name(csr, state.ca.cert_text(), signed);
}

/// What a body comes to, whatever white space is around its text: a text that
/// is armored stays as it is, any other is put between the two armor lines
/// whole, with all its lines; a blank body and one that is not text are refused.
pub proof fn law_bodies_are_armored_whole(
    body: Seq<u8>,
    pre: Seq<char>,
    core: Seq<char>,
    post: Seq<char>,
)
    requires
        valid_utf8(body),
        decode_utf8(body) == pre + core + post,
        is_blank(pre),
        is_blank(post),
        core.len() > 0 ==> !is_white(core[0]) && !is_white(core.last()),
    ensures
        core.len() == 0 ==> normalized(body) is Err,
        core.len() > 0 && !absent(core, "BEGIN CERTIFICATE REQUEST"@) ==> normalized(body) == Ok::<
            Seq<char>,
            Seq<char>,
        >(core),
        core.len() > 0 && absent(core, "BEGIN CERTIFICATE REQUEST"@) ==> normalized(body) == Ok::<
            Seq<char>,
            Seq<char>,
        >(
            "-----BEGIN CERTIFICATE REQUEST-----\n"@ + core
                + "\n-----END CERTIFICATE REQUEST-----\n"@,
        ),
{
    law_trimming_takes_only_white_space(pre, core, post);
}

/// A body that is not text is refused.
pub proof fn law_bodies_are_text(body: Seq<u8>)
    requires
        !valid_utf8(body),
    ensures
        normalized(body) is Err,
{
}

/// Lines that are joined and end with a line feed are the lines written out.
proof fn lemma_written_is_joined(lines: Seq<Seq<char>>)
    requires
        lines.len() > 0,
    ensures
        written(lines) == join_spec(lines, "\n"@) + "\n"@,
    decreases lines.len(),
{
    reveal_strlit("\n");
    let head = lines.drop_last();
    if head.len() == 0 {
        assert(written(head) =~= seq![]);
        assert(written(lines) =~= lines[0].push('\n'));
    } else {
        lemma_written_is_joined(head);
    }
    assert(written(lines) =~= join_spec(lines, "\n"@) + "\n"@);
}

/// A line in front of written lines.
proof fn lemma_written_front(first: Seq<char>, lines: Seq<Seq<char>>)
    ensures
        written(seq![first] + lines) == first.push('\n') + written(lines),
    decreases lines.len(),
{
    let all = seq![first] + lines;
    if lines.len() == 0 {
        assert(all =~= seq![first]);
        assert(all.drop_last() =~= seq![]);
        assert(written(all.drop_last()) =~= seq![]);
        assert(written(all) =~= first.push('\n') + written(lines));
    } else {
        lemma_written_front(first, lines.drop_last());
        assert(all.drop_last() =~= seq![first] + lines.drop_last());
        assert(all.last() == lines.last());
        assert(written(all) =~= first.push('\n') + written(lines));
    }
}

/// Taking the armor off a body that was armored gives back every line of it.
pub proof fn law_normalizing_and_stripping_are_inverse(body: Seq<u8>, all: Seq<Seq<char>>)
    requires
        all.len() > 0,
        forall|i: int| 0 <= i < all.len() ==> is_line(#[trigger] all[i]) && !is_armor(all[i]),
        !is_white(all[0][0]),
        !is_white(all.last().last()),
        valid_utf8(body),
        decode_utf8(body) == join_spec(all, "\n"@),
        absent(join_spec(all, "\n"@), "BEGIN CERTIFICATE REQUEST"@),
    ensures
        normalized(body) matches Ok(pem) && bare(pem) == join_spec(all, "\n"@) && lines_spec(pem)
            == seq!["-----BEGIN CERTIFICATE REQUEST-----"@] + all
            + seq!["-----END CERTIFICATE REQUEST-----"@],
{
    let core = join_spec(all, "\n"@);
    let first = "-----BEGIN CERTIFICATE REQUEST-----"@;
    let last = "-----END CERTIFICATE REQUEST-----"@;
    reveal_strlit("\n");
    reveal_strlit("-----");
    reveal_strlit("-----BEGIN CERTIFICATE REQUEST-----");
    reveal_strlit("-----END CERTIFICATE REQUEST-----");
    reveal_strlit("-----BEGIN CERTIFICATE REQUEST-----\n");
    reveal_strlit("\n-----END CERTIFICATE REQUEST-----\n");
    assert(is_line(all[0]));
    assert(is_line(all[all.len() - 1]));
    lemma_join_ends(all);
    let none = Seq::<char>::empty();
    assert(none + core + none =~= core);
    law_bodies_are_armored_whole(body, none, core, none);
    let framed = seq![first] + all + seq![last];
    assert(framed =~= seq![first] + all.push(last));
    lemma_written_front(first, all.push(last));
    assert(all.push(last).drop_last() =~= all);
    lemma_written_is_joined(all);
    let pem = armor_open() + core + armor_close();
    assert(pem =~= written(framed));
    assert(first.subrange(0, 5) =~= "-----"@);
    assert(last.subrange(0, 5) =~= "-----"@);
    assert(!first.contains('\n'));
    assert(!last.contains('\n'));
    law_stripping_undoes_armoring(first, all, last);
    assert forall|i: int| 0 <= i < framed.len() implies is_line(#[trigger] framed[i]) by {
        if 0 < i < framed.len() - 1 {
            assert(is_line(all[i - 1]));
        }
    }
    lemma_written_lines(framed);
}

/// Joined lines start and end as the first and the last of them.
proof fn lemma_join_ends(all: Seq<Seq<char>>)
    requires
        all.len() > 0,
        all[0].len() > 0,
        all.last().len() > 0,
    ensures
        join_spec(all, "\n"@).len() > 0,
        join_spec(all, "\n"@)[0] == all[0][0],
        join_spec(all, "\n"@).last() == all.last().last(),
    decreases all.len(),
{
    if all.len() > 1 {
        let head = all.drop_last();
        if head.last().len() > 0 {
            lemma_join_ends(head);
        } else {
            lemma_join_start(head);
        }
    }
}

/// Joined lines start as the first of them.
proof fn lemma_join_start(all: Seq<Seq<char>>)
    requires
        all.len() > 0,
        all[0].len() > 0,
    ensures
        join_spec(all, "\n"@).len() > 0,
        join_spec(all, "\n"@)[0] == all[0][0],
    decreases all.len(),
{
    if all.len() > 1 {
        lemma_join_start(all.drop_last());
    }
}

/// A content type is judged by what stands in front of its parameters, white
/// space aside: the two types for requests, plain text and none are taken, and
/// nothing else is.
pub proof fn law_content_types_are_judged_without_parameters(
    pre: Seq<char>,
    kind: Seq<char>,
    post: Seq<char>,
    parameters: Seq<char>,
)
    requires
        is_blank(pre),
        is_blank(post),
        !kind.contains(';'),
        kind.len() > 0 ==> !is_white(kind[0]) && !is_white(kind.last()),
    ensures
        acceptable(pre + kind + post) <==> kind == "application/octet-stream"@ || kind
            == "application/pkcs10"@ || kind == "text/plain"@ || kind.len() == 0,
        acceptable(pre + kind + post + seq![';'] + parameters) <==> acceptable(pre + kind + post),
{
    reveal_strlit("");
    let head = pre + kind + post;
    assert(!head.contains(';')) by {
        if head.contains(';') {
            let i = head.index_of(';');
            if i < pre.len() {
                assert(is_white(pre[i]));
            } else if i < pre.len() + kind.len() {
                assert(kind[i - pre.len()] == ';');
            } else {
                assert(is_white(post[i - pre.len() - kind.len()]));
            }
        }
    }
    law_split_is_at_the_first_separator(head, ';', parameters);
    law_trimming_takes_only_white_space(pre, kind, post);
    if kind.len() == 0 {
        assert(kind =~= ""@);
    }
}

/// A login is presented as text under the Basic scheme, the user name up to the
/// first colon and the password behind it, which may hold more; anything else
/// presents none.
pub proof fn law_logins_are_read_as_presented(
    encoded: Seq<char>,
    bytes: Seq<u8>,
    username: Seq<char>,
    password: Seq<char>,
    other: Seq<char>,
)
    requires
        base64_bytes(encoded) == Some(bytes),
        valid_utf8(bytes),
        !username.contains(':'),
    ensures
        decode_utf8(bytes) == username + seq![':'] + password ==> credentials(
            Some("Basic "@ + encoded),
        ) == Some((username, password)),
        decode_utf8(bytes) == username ==> credentials(Some("Basic "@ + encoded)) is None,
        !"Basic "@.is_prefix_of(other) ==> credentials(Some(other)) is None,
        credentials(None) is None,
        credentials_in(None) is None,
{
    let head = "Basic "@;
    let value = head + encoded;
    assert(value.subrange(0, head.len() as int) =~= head);
    assert(value.skip(head.len() as int) =~= encoded);
    law_split_is_at_the_first_separator(username, ':', password);
}

/// Where enrollment is not locked, whoever presents no login is let through and
/// no invitation is spent; where it is, a good invitation is spent, and it is
/// the one that was presented. Refusals are told apart by their status.
pub proof fn law_open_enrollment_asks_for_nothing(
    tokens: Tokens,
    common_name: Seq<char>,
    username: Seq<char>,
    token: Option<Seq<char>>,
    presented: Seq<char>,
    now_unix: i64,
    locked: bool,
)
    ensures
        gate(false, tokens, common_name, None, token, now_unix) is Pass,
        gate(true, tokens, common_name, None, Some(presented), now_unix) matches Gate::Spend(t)
            ==> t == presented,
        consume_answer(tokens, presented, now_unix) is Err ==> (gate(
            true,
            tokens,
            common_name,
            None,
            Some(presented),
            now_unix,
        ) matches Gate::Refuse(status, _) && status == 403),
        gate(true, tokens, common_name, None, None, now_unix) matches Gate::Refuse(status, _)
            && status == 403,
        gate(locked, tokens, common_name, Some((username, false)), token, now_unix) matches Gate::Refuse(
            status,
            _,
        ) && status == 401,
        common_name != username ==> (gate(
            locked,
            tokens,
            common_name,
            Some((username, true)),
            token,
            now_unix,
        ) matches Gate::Refuse(status, _) && status == 403),
{
}

/// A certificate that is handed out is on record: the device of its name is
/// known with this certificate since now, as no other than it was before in its
/// uid and its revocation, and no other device changed. An invitation that was
/// spent for it is used, by that device and now; every other stays as it was.
pub proof fn law_issued_certificates_are_on_record(
    state: EnrollmentState,
    request: SignRequest,
    devices: Devices,
    tokens: Tokens,
    signed: SignedCertificate,
    right: bool,
    now_unix: i64,
    step: EnrollStep,
    devices_now: Devices,
    tokens_now: Tokens,
    reply: SignReply,
    other: Seq<char>,
)
    requires
        enroll_answer(state, request, devices, tokens, Ok(signed), right, now_unix, step),
        carried_through(
            state,
            request,
            step,
            devices,
            tokens,
            devices_now,
            tokens_now,
            now_unix,
            reply,
        ),
        reply is Issued,
    ensures
        devices_now.contains_key(signed.common_name@),
        devices_now[signed.common_name@].common_name == signed.common_name@,
        devices_now[signed.common_name@].cert_pem == signed.cert_pem@,
        devices_now[signed.common_name@].enrolled_at_unix == now_unix,
        devices.contains_key(signed.common_name@) ==> devices_now[signed.common_name@].uid
            == devices[signed.common_name@].uid && devices_now[signed.common_name@].revoked
            == devices[signed.common_name@].revoked,
        !devices.contains_key(signed.common_name@) ==> devices_now[signed.common_name@].uid is None
            && !devices_now[signed.common_name@].revoked,
        other != signed.common_name@ ==> devices_now.contains_key(other) == devices.contains_key(
            other,
        ) && devices_now[other] == devices[other],
        !(step is Spend) ==> tokens_now == tokens,
        step is Spend ==> {
            &&& request.token is Some
            &&& tokens_now.contains_key(request.token.deep_view()->0)
            &&& tokens_now[request.token.deep_view()->0].used
            &&& tokens_now[request.token.deep_view()->0].used_by_common_name == Some(
                signed.common_name@,
            )
            &&& tokens_now[request.token.deep_view()->0].used_at_unix == Some(now_unix)
            &&& other != request.token.deep_view()->0 ==> tokens_now.contains_key(other)
                == tokens.contains_key(other) && tokens_now[other] == tokens[other]
        },
{
}

/// A certificate is handed out in the form that the client takes, without its
/// armor, and the authority's behind it; a client that says nothing gets JSON.
pub proof fn law_answers_come_in_the_accepted_form(
    accept: Seq<char>,
    cert_pem: Seq<char>,
    ca_pem: Seq<char>,
)
    ensures
        ({
            let reply = shaped(accept, cert_pem, ca_pem);
            let plain = !absent(accept, "text/plain"@);
            let json = accept.len() == 0 || !absent(accept, "application/json"@) || !absent(
                accept,
                "*/*"@,
            );
            &&& reply.status == 200
            &&& plain || json ==> reply.body == object_text(
                seq![
                    ("signedCert"@, ScalarView::Text(bare(cert_pem))),
                    ("ca0"@, ScalarView::Text(bare(ca_pem))),
                ],
            )
            &&& plain ==> reply.content_type == "text/plain"@
            &&& !plain && json ==> reply.content_type == "application/json"@
            &&& !plain && !json ==> reply.content_type == "application/xml"@ && reply.body
                == "<enrollmentResponse><signedCert><![CDATA["@ + bare(cert_pem) + (
            "]]></signedCert><ca0><![CDATA["@ + bare(ca_pem) + "]]></ca0></enrollmentResponse>"@)
        }),
{
}

/// A request is refused before anything is signed exactly if its content type or
/// its body is not taken; the content type is told first, with what it was.
pub proof fn law_what_is_refused_at_the_door(request: SignRequest)
    ensures
        early_refusal(request) is None <==> acceptable(request.content_type@) && normalized(
            request.body@,
        ) is Ok,
        acceptable(request.content_type@) && normalized(request.body@) is Err ==> early_refusal(
            request,
        ) == Some(normalized(request.body@)->Err_0),
        !acceptable(request.content_type@) ==> early_refusal(request) == Some(
            "Content-Type must be application/octet-stream or application/pkcs10 (got '"@
                + request.content_type@ + "')"@,
        ),
{
}

/// Taking the armor off drops the lines that start with five dashes, and keeps
/// every other, in order, blank ones too.
pub proof fn law_only_armor_is_taken_off(lines: Seq<Seq<char>>, last: Seq<char>)
    ensures
        unarmored(seq![]).len() == 0,
        last.len() >= 5 && last.take(5) == seq!['-', '-', '-', '-', '-'] ==> unarmored(
            lines.push(last),
        ) == unarmored(lines),
        !(last.len() >= 5 && last.take(5) == seq!['-', '-', '-', '-', '-']) ==> unarmored(
            lines.push(last),
        ) == unarmored(lines).push(last),
{
    reveal_strlit("-----");
    assert("-----"@ =~= seq!['-', '-', '-', '-', '-']);
    assert(lines.push(last).drop_last() =~= lines);
    if last.len() >= 5 {
        assert(last.take(5) =~= last.subrange(0, 5));
    }
}

/// Whoever presents a login gets a certificate only with the right password of
/// an account that may log in, and only for its name.
pub proof fn law_logins_enroll_under_their_own_name(
    state: EnrollmentState,
    request: SignRequest,
    devices: Devices,
    tokens: Tokens,
    users: Users,
    signed: Result<SignedCertificate, PkiError>,
    right: bool,
    now_unix: i64,
    step: EnrollStep,
    username: Seq<char>,
    password: Seq<char>,
)
    requires
        enroll_answer(state, request, devices, tokens, signed, right, now_unix, step),
        may_find(users, request, right),
        credentials(request.authorization.deep_view()) == Some((username, password)),
        !(step is Refuse),
    ensures
        right_login(users, username, password),
        signed matches Ok(certificate) && certificate.common_name@ == username,
        step matches EnrollStep::Enroll { signed: handed_out } && Ok::<
            SignedCertificate,
            PkiError,
        >(handed_out) == signed,
{
}

} // verus!
