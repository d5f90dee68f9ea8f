//! How a server is set up.

use crate::backup::{BackupRunner, OffsiteTarget};
use crate::pki::{authority_profile, build_csr_with_san, cert_name, cert_pem_to_der, certifies,
    fits_certificate, key_text, nameable_time, pem_contents, requests, self_signed, writable_issuer,
    CertificateAuthority, PkiError, AUTHORITY_VALIDITY};
use crate::content_store::{addressed, found_under, is_hash_text, key_of, law_content_stays_found,
    law_stored_content_is_found, stored, stored_all, Files};
use crate::enrollment_tokens::{TokenEventView, Tokens};
use crate::missions::{MissionEventView, Missions};
use crate::registry::{Devices, RegistryEventView};
use crate::text::{ascii_uppercase, clone_texts, join_path, path_in};
use crate::users::{UserEventView, Users};
use vstd::prelude::*;
use vstd::utf8::is_ascii_chars;

verus! {

/// Whether enrollment asks for an invitation.
#[derive(Debug, Clone, Copy, PartialEq, Eq, Structural)]
pub enum EnrollmentMode {
    /// As soon as the configured administrator has enrolled.
    Auto,
    /// Never.
    Open,
}

impl Default for EnrollmentMode {
    fn default() -> (res: Self)
        ensures
            res == EnrollmentMode::Auto,
    {
        EnrollmentMode::Auto
    }
}

/// A length of time.
#[derive(Debug, Clone, Copy, PartialEq, Eq, Structural)]
pub struct Interval {
    pub seconds: u64,
    /// The part of a second, below 1,000,000,000.
    pub nanoseconds: u32,
}

/// An address to listen on.
#[derive(Debug, Clone, PartialEq, Eq)]
pub struct ListenAddr {
    /// The text of an IP address.
    pub host: String,
    pub port: u16,
}

/// When and where the data directory is backed up.
#[derive(Debug, Clone, PartialEq, Eq)]
pub struct BackupConfig {
    pub enabled: bool,
    pub interval: Interval,
    pub backup_dir: String,
    /// A command that ships the backup elsewhere; empty for none.
    pub offsite_command: Vec<String>,
}

/// The model of a backup configuration.
pub struct BackupConfigView {
    pub enabled: bool,
    pub interval: Interval,
    pub backup_dir: Seq<char>,
    pub offsite_command: Seq<Seq<char>>,
}

impl DeepView for BackupConfig {
    type V = BackupConfigView;

    open spec fn deep_view(&self) -> BackupConfigView {
        BackupConfigView {
            enabled: self.enabled,
            interval: self.interval,
            backup_dir: self.backup_dir@,
            offsite_command: self.offsite_command.deep_view(),
        }
    }
}

/// The backup configuration of a server that was told nothing.
pub open spec fn default_backup() -> BackupConfigView {
    BackupConfigView {
        enabled: false,
        interval: Interval { seconds: 3600, nanoseconds: 0 },
        backup_dir: "./backup"@,
        offsite_command: seq![],
    }
}

impl Default for BackupConfig {
    fn default() -> (res: Self)
        ensures
            res.deep_view() == default_backup(),
    {
        let offsite_command: Vec<String> = Vec::new();
        assert(offsite_command.deep_view() =~= seq![]);
        BackupConfig {
            enabled: false,
            interval: Interval { seconds: 3600, nanoseconds: 0 },
            backup_dir: "./backup".to_owned(),
            offsite_command,
        }
    }
}

/// Everything that a server is started with.
#[derive(Debug, Clone, PartialEq)]
pub struct AppConfig {
    /// Where enrollment is served.
    pub enrollment_addr: ListenAddr,
    /// Where the REST surface is served.
    pub marti_api_addr: ListenAddr,
    /// Where the unauthenticated relay listens.
    pub plain_tcp_addr: ListenAddr,
    /// Where the mutually authenticated relay listens.
    pub mtls_addr: ListenAddr,
    /// The common name of a new certificate authority.
    pub ca_common_name: String,
    /// The common name and DNS name of the server's own certificate.
    pub server_common_name: String,
    /// How long issued certificates are valid, in seconds.
    pub cert_validity_seconds: i64,
    /// Where state is kept.
    pub data_dir: String,
    pub backup: BackupConfig,
    /// Who may use the administration surface; nobody where it is `None`.
    pub admin_common_name: Option<String>,
    pub enrollment_mode: EnrollmentMode,
}

/// The model of a server's configuration.
pub struct AppConfigView {
    pub enrollment_addr: (Seq<char>, u16),
    pub marti_api_addr: (Seq<char>, u16),
    pub plain_tcp_addr: (Seq<char>, u16),
    pub mtls_addr: (Seq<char>, u16),
    pub ca_common_name: Seq<char>,
    pub server_common_name: Seq<char>,
    pub cert_validity_seconds: i64,
    pub data_dir: Seq<char>,
    pub backup: BackupConfigView,
    pub admin_common_name: Option<Seq<char>>,
    pub enrollment_mode: EnrollmentMode,
}

impl DeepView for ListenAddr {
    type V = (Seq<char>, u16);

    open spec fn deep_view(&self) -> (Seq<char>, u16) {
        (self.host@, self.port)
    }
}

impl DeepView for AppConfig {
    type V = AppConfigView;

    open spec fn deep_view(&self) -> AppConfigView {
        AppConfigView {
            enrollment_addr: self.enrollment_addr.deep_view(),
            marti_api_addr: self.marti_api_addr.deep_view(),
            plain_tcp_addr: self.plain_tcp_addr.deep_view(),
            mtls_addr: self.mtls_addr.deep_view(),
            ca_common_name: self.ca_common_name@,
            server_common_name: self.server_common_name@,
            cert_validity_seconds: self.cert_validity_seconds,
            data_dir: self.data_dir@,
            backup: self.backup.deep_view(),
            admin_common_name: self.admin_common_name.deep_view(),
            enrollment_mode: self.enrollment_mode,
        }
    }
}

/// The configuration of a server that was told nothing.
pub open spec fn default_config() -> AppConfigView {
    AppConfigView {
        enrollment_addr: ("0.0.0.0"@, 8446),
        marti_api_addr: ("0.0.0.0"@, 8443),
        plain_tcp_addr: ("0.0.0.0"@, 8087),
        mtls_addr: ("0.0.0.0"@, 8089),
        ca_common_name: "MicroTAK CA"@,
        server_common_name: "microtak-server"@,
        cert_validity_seconds: 31536000,
        data_dir: "./data"@,
        backup: default_backup(),
        admin_common_name: None,
        enrollment_mode: EnrollmentMode::Auto,
    }
}

impl Default for AppConfig {
    fn default() -> (res: Self)
        ensures
            res.deep_view() == default_config(),
    {
        AppConfig {
            enrollment_addr: ListenAddr { host: "0.0.0.0".to_owned(), port: 8446 },
            marti_api_addr: ListenAddr { host: "0.0.0.0".to_owned(), port: 8443 },
            plain_tcp_addr: ListenAddr { host: "0.0.0.0".to_owned(), port: 8087 },
            mtls_addr: ListenAddr { host: "0.0.0.0".to_owned(), port: 8089 },
            ca_common_name: "MicroTAK CA".to_owned(),
            server_common_name: "microtak-server".to_owned(),
            cert_validity_seconds: 31536000,
            data_dir: "./data".to_owned(),
            backup: BackupConfig::default(),
            admin_common_name: None,
            enrollment_mode: EnrollmentMode::default(),
        }
    }
}

/// What to do about the certificate authority at start.
#[derive(Debug, PartialEq, Eq)]
pub enum CaStart {
    /// Load it from this certificate and this key.
    Load { cert_pem: String, key_pem: String },
    /// Make a new one and keep it: one that is made anew each time would
    /// void every certificate that was issued.
    Generate,
}

/// What to do, given what the certificate file and the key file hold, `None`
/// for one that cannot be read.
pub fn ca_start(cert_pem: Option<String>, key_pem: Option<String>) -> (res: CaStart)
    ensures
        match (cert_pem, key_pem) {
            (Some(cert), Some(key)) => res == (CaStart::Load { cert_pem: cert, key_pem: key }),
            _ => res == CaStart::Generate,
        },
{
    match (cert_pem, key_pem) {
        (Some(cert_pem), Some(key_pem)) => CaStart::Load { cert_pem, key_pem },
        _ => CaStart::Generate,
    }
}

/// An authority, and whether it is new and has to be kept.
pub struct OpenedAuthority {
    pub ca: CertificateAuthority,
    pub is_new: bool,
}

/// Loads the authority, or makes a new one.
pub fn open_authority(start: CaStart, common_name: &str, now_unix: i64) -> (res: Result<
    OpenedAuthority,
    PkiError,
>)
    requires
        start is Generate ==> nameable_time(now_unix as int) && nameable_time(
            now_unix + AUTHORITY_VALIDITY,
        ),
    ensures
        match start {
            CaStart::Load { cert_pem, key_pem } => match res {
                Ok(opened) => {
                    &&& !opened.is_new
                    &&& opened.ca.wf()
                    &&& opened.ca.cert_text() == cert_pem@
                    &&& key_text(key_pem@) == Some(opened.ca.private_key())
                },
                Err(error) => error is Load,
            },
            CaStart::Generate => match res {
                Ok(opened) => {
                    &&& opened.is_new
                    &&& fits_certificate(common_name@) ==> opened.ca.wf() && writable_issuer(
                        opened.ca.cert_text(),
                    )
                    &&& key_text(opened.ca.private_key()) == Some(opened.ca.private_key())
                    &&& self_signed(
                        opened.ca.cert_text(),
                        opened.ca.private_key(),
                        authority_profile(common_name@, now_unix),
                    )
                },
                Err(error) => error is KeyGeneration || error is SelfSign,
            },
        },
{
    match start {
        CaStart::Load { cert_pem, key_pem } => {
            match CertificateAuthority::from_pem(&cert_pem, &key_pem) {
                Ok(ca) => Ok(OpenedAuthority { ca, is_new: false }),
                Err(error) => Err(error),
            }
        },
        CaStart::Generate => match CertificateAuthority::generate(common_name, now_unix) {
            Ok(ca) => Ok(OpenedAuthority { ca, is_new: true }),
            Err(error) => Err(error),
        },
    }
}

/// An authority that was kept and loads after a restart is the same: it has
/// the same certificate and the same key.
pub proof fn law_authority_survives_a_restart(
    ca: CertificateAuthority,
    again: OpenedAuthority,
    key_pem: Seq<char>,
)
    requires
        ca.wf(),
        key_pem == ca.private_key(),
        again.ca.cert_text() == ca.cert_text(),
        key_text(key_pem) == Some(again.ca.private_key()),
    ensures
        again.ca.wf(),
        again.ca.private_key() == ca.private_key(),
{
}

/// The server's own certificate, its key, and the authority's certificate.
#[derive(Debug)]
pub struct ServerIdentity {
    pub cert_der: Vec<u8>,
    pub key_pem: String,
    pub key_der: Vec<u8>,
    pub ca_cert_der: Vec<u8>,
}

/// A certificate for the server under its common name, issued by its own
/// authority for a new key.
pub fn server_identity(
    ca: &CertificateAuthority,
    server_common_name: &str,
    validity_seconds: i64,
    now_unix: i64,
) -> (res: Result<ServerIdentity, PkiError>)
    requires
        nameable_time(now_unix as int),
        nameable_time(now_unix + validity_seconds),
    ensures
        res matches Err(error) ==> match error {
            PkiError::KeyGeneration(_) => true,
            PkiError::Params(_) => !is_ascii_chars(server_common_name@),
            PkiError::CsrParse(_) => server_common_name@.len() >= 0x1_0000,
            PkiError::UnwritableIssuer => !writable_issuer(ca.cert_text()),
            PkiError::Signing(_) => true,
            PkiError::Pem(_) => pem_contents(ca.cert_text()) is None,
            _ => false,
        },
        res matches Ok(identity) ==> {
            &&& is_ascii_chars(server_common_name@)
            &&& key_text(identity.key_pem@) == Some(identity.key_pem@)
            &&& pem_contents(identity.key_pem@) == Some(identity.key_der@)
            &&& pem_contents(ca.cert_text()) == Some(identity.ca_cert_der@)
            &&& cert_name(identity.cert_der@) is Some ==> cert_name(identity.cert_der@) == Some(
                server_common_name@,
            )
            &&& exists|cert: Seq<char>, csr: Seq<char>|
                {
                    &&& pem_contents(cert) == Some(identity.cert_der@)
                    &&& requests(
                        csr,
                        identity.key_pem@,
                        server_common_name@,
                        seq![server_common_name@],
                    )
                    &&& #[trigger] certifies(
                        cert,
                        ca.cert_text(),
                        ca.private_key(),
                        csr,
                        now_unix,
                        (now_unix + validity_seconds) as i64,
                    )
                }
        },
{
    let names: Vec<String> = vec![server_common_name.to_owned()];
    assert(names.deep_view()[0] == server_common_name@);
    assert(names.deep_view() =~= seq![server_common_name@]);
    let (csr, key_pem) = match build_csr_with_san(server_common_name, names) {
        Ok(built) => built,
        Err(error) => {
            return Err(error);
        },
    };
    let signed = match ca.sign_csr(&csr, validity_seconds, now_unix) {
        Ok(signed) => signed,
        Err(error) => {
            return Err(error);
        },
    };
    let cert_der = match cert_pem_to_der(&signed.cert_pem) {
        Ok(der) => der,
        Err(error) => {
            return Err(error);
        },
    };
    let ca_cert_der = match cert_pem_to_der(&ca.ca_cert_pem()) {
        Ok(der) => der,
        Err(error) => {
            return Err(error);
        },
    };
    let key_der = match cert_pem_to_der(&key_pem) {
        Ok(der) => der,
        Err(error) => {
            return Err(error);
        },
    };
    Ok(ServerIdentity { cert_der, key_pem, key_der, ca_cert_der })
}

/// Where each part of a server's state is kept.
#[derive(Debug, PartialEq)]
pub struct DataPaths {
    pub ca_cert: String,
    pub ca_key: String,
    pub devices_log: String,
    pub missions_log: String,
    pub tokens_log: String,
    pub users_log: String,
    pub content_dir: String,
}

impl AppConfig {
    /// Where each part of the server's state is kept.
    pub fn data_paths(&self) -> (res: DataPaths)
        ensures
            res.ca_cert@ == path_in(self.data_dir@, "ca-cert.pem"@),
            res.ca_key@ == path_in(self.data_dir@, "ca-key.pem"@),
            res.devices_log@ == path_in(self.data_dir@, "devices.log"@),
            res.missions_log@ == path_in(self.data_dir@, "missions.log"@),
            res.tokens_log@ == path_in(self.data_dir@, "enrollment_tokens.log"@),
            res.users_log@ == path_in(self.data_dir@, "users.log"@),
            res.content_dir@ == path_in(self.data_dir@, "content"@),
    {
        DataPaths {
            ca_cert: join_path(&self.data_dir, "ca-cert.pem"),
            ca_key: join_path(&self.data_dir, "ca-key.pem"),
            devices_log: join_path(&self.data_dir, "devices.log"),
            missions_log: join_path(&self.data_dir, "missions.log"),
            tokens_log: join_path(&self.data_dir, "enrollment_tokens.log"),
            users_log: join_path(&self.data_dir, "users.log"),
            content_dir: join_path(&self.data_dir, "content"),
        }
    }

    /// What backs the data directory up, if that is enabled.
    pub fn backup_runner(&self) -> (res: Option<BackupRunner>)
        ensures
            match res {
                Some(runner) => {
                    &&& self.backup.enabled
                    &&& runner.source() == self.data_dir@
                    &&& runner.target() == self.backup.backup_dir@
                    &&& runner.offsite_command() == if self.backup.offsite_command@.len() == 0 {
                        None
                    } else {
                        Some(self.backup.offsite_command.deep_view())
                    }
                },
                None => !self.backup.enabled,
            },
    {
        if !self.backup.enabled {
            return None;
        }
        let offsite = OffsiteTarget::new(clone_texts(&self.backup.offsite_command));
        Some(
            BackupRunner::new(self.data_dir.clone(), self.backup.backup_dir.clone(), offsite),
        )
    }
}

/// Something that happens to a server: an event of one of its stores, or an
/// upload.
pub enum Happening {
    Device(RegistryEventView),
    Mission(MissionEventView),
    Token(TokenEventView),
    User(UserEventView),
    Upload(Seq<u8>),
}

/// What a running server knows.
pub struct Running {
    pub ca_cert: Seq<char>,
    pub ca_key: Seq<char>,
    pub devices: Devices,
    pub missions: Missions,
    pub tokens: Tokens,
    pub users: Users,
    pub content: Files,
}

/// What a server keeps on disk: the texts of its authority, the log of each
/// store, and its content.
pub struct Kept {
    pub ca_cert: Seq<char>,
    pub ca_key: Seq<char>,
    pub device_log: Seq<RegistryEventView>,
    pub mission_log: Seq<MissionEventView>,
    pub token_log: Seq<TokenEventView>,
    pub user_log: Seq<UserEventView>,
    pub content: Files,
}

/// What a server knows once it has started with this on disk: its authority is
/// loaded, each store is the replay of its log, and the content is there.
pub open spec fn started(kept: Kept) -> Running {
    Running {
        ca_cert: kept.ca_cert,
        ca_key: key_text(kept.ca_key)->0,
        devices: crate::registry::replay_spec(kept.device_log),
        missions: crate::missions::replay_spec(kept.mission_log),
        tokens: crate::enrollment_tokens::replay_spec(kept.token_log),
        users: crate::users::replay_spec(kept.user_log),
        content: kept.content,
    }
}

/// What a running server then knows: what could not be written down changes
/// nothing.
pub open spec fn after(server: Running, dir: Seq<char>, what: Happening, written: bool) -> Running {
    if !written {
        server
    } else {
        match what {
            Happening::Device(event) => Running {
                devices: crate::registry::apply(server.devices, event),
                ..server
            },
            Happening::Mission(event) => Running {
                missions: crate::missions::apply(server.missions, event),
                ..server
            },
            Happening::Token(event) => Running {
                tokens: crate::enrollment_tokens::apply(server.tokens, event),
                ..server
            },
            Happening::User(event) => Running {
                users: crate::users::apply(server.users, event),
                ..server
            },
            Happening::Upload(bytes) => Running {
                content: stored(server.content, dir, bytes),
                ..server
            },
        }
    }
}

/// What is then on disk.
pub open spec fn kept_after(kept: Kept, dir: Seq<char>, what: Happening, written: bool) -> Kept {
    if !written {
        kept
    } else {
        match what {
            Happening::Device(event) => Kept { device_log: kept.device_log.push(event), ..kept },
            Happening::Mission(event) => Kept { mission_log: kept.mission_log.push(event), ..kept },
            Happening::Token(event) => Kept { token_log: kept.token_log.push(event), ..kept },
            Happening::User(event) => Kept { user_log: kept.user_log.push(event), ..kept },
            Happening::Upload(bytes) => Kept { content: stored(kept.content, dir, bytes), ..kept },
        }
    }
}

/// What a running server knows after all of this, each with whether it could
/// be written down.
pub open spec fn after_all(
    server: Running,
    dir: Seq<char>,
    happenings: Seq<(Happening, bool)>,
) -> Running
    decreases happenings.len(),
{
    if happenings.len() == 0 {
        server
    } else {
        let last = happenings.last();
        after(after_all(server, dir, happenings.drop_last()), dir, last.0, last.1)
    }
}

/// What is on disk after all of this.
pub open spec fn kept_after_all(
    kept: Kept,
    dir: Seq<char>,
    happenings: Seq<(Happening, bool)>,
) -> Kept
    decreases happenings.len(),
{
    if happenings.len() == 0 {
        kept
    } else {
        let last = happenings.last();
        kept_after(kept_after_all(kept, dir, happenings.drop_last()), dir, last.0, last.1)
    }
}

/// A server is the same after a restart: whatever happened to it, one that
/// starts with what it left on disk has the same authority, devices, missions,
/// invitations, accounts and content.
pub proof fn law_server_survives_a_restart(
    kept: Kept,
    dir: Seq<char>,
    happenings: Seq<(Happening, bool)>,
)
    ensures
        started(kept_after_all(kept, dir, happenings)) == after_all(
            started(kept),
            dir,
            happenings,
        ),
        kept_after_all(kept, dir, happenings).ca_cert == kept.ca_cert,
        kept_after_all(kept, dir, happenings).ca_key == kept.ca_key,
    decreases happenings.len(),
{
    if happenings.len() > 0 {
        law_server_survives_a_restart(kept, dir, happenings.drop_last());
        let before = kept_after_all(kept, dir, happenings.drop_last());
        match happenings.last().0 {
            Happening::Device(event) => {
                crate::registry::law_live_state_is_the_replayed_log(before.device_log, event);
            },
            Happening::Mission(event) => {
                crate::missions::law_live_state_is_the_replayed_log(before.mission_log, event);
            },
            Happening::Token(event) => {
                crate::enrollment_tokens::law_live_state_is_the_replayed_log(
                    before.token_log,
                    event,
                );
            },
            Happening::User(event) => {
                crate::users::law_live_state_is_the_replayed_log(before.user_log, event);
            },
            Happening::Upload(_) => {},
        }
    }
}

/// The files after all of this are those that the uploads among it made.
proof fn lemma_content_after_all(
    kept: Kept,
    dir: Seq<char>,
    happenings: Seq<(Happening, bool)>,
    i: int,
    bytes: Seq<u8>,
)
    requires
        addressed(kept.content, dir),
        forall|j: int|
            0 <= j < happenings.len() ==> ((#[trigger] happenings[j]).0 matches Happening::Upload(b)
                ==> is_hash_text(key_of(b))),
        0 <= i < happenings.len() ==> happenings[i] == (Happening::Upload(bytes), true),
    ensures
        addressed(kept_after_all(kept, dir, happenings).content, dir),
        0 <= i < happenings.len() ==> kept_after_all(kept, dir, happenings).content.contains_key(
            path_in(dir, key_of(bytes)),
        ),
    decreases happenings.len(),
{
    if happenings.len() > 0 {
        let head = happenings.drop_last();
        let n = happenings.len() - 1;
        assert forall|j: int| 0 <= j < head.len() implies ((
        #[trigger] head[j]).0 matches Happening::Upload(b) ==> is_hash_text(key_of(b))) by {
            assert(head[j] == happenings[j]);
        }
        assert(0 <= i < head.len() ==> head[i] == happenings[i]);
        lemma_content_after_all(kept, dir, head, i, bytes);
        let last = happenings[n];
        let before = kept_after_all(kept, dir, head);
        if let Happening::Upload(b) = last.0 {
            law_stored_content_is_found(before.content, dir, b);
        }
    }
}

/// What was uploaded is still found after a restart, under its key in either
/// case.
pub proof fn law_uploads_survive_a_restart(
    kept: Kept,
    dir: Seq<char>,
    happenings: Seq<(Happening, bool)>,
    i: int,
    bytes: Seq<u8>,
)
    requires
        addressed(kept.content, dir),
        forall|j: int|
            0 <= j < happenings.len() ==> ((#[trigger] happenings[j]).0 matches Happening::Upload(b)
                ==> is_hash_text(key_of(b))),
        0 <= i < happenings.len(),
        happenings[i] == (Happening::Upload(bytes), true),
    ensures
        ({
            let content = started(kept_after_all(kept, dir, happenings)).content;
            let key = key_of(bytes);
            &&& found_under(content, dir, key) matches Some(found) && key_of(found) == key
            &&& found_under(content, dir, ascii_uppercase(key)) == found_under(content, dir, key)
        }),
{
    let content = kept_after_all(kept, dir, happenings).content;
    lemma_content_after_all(kept, dir, happenings, i, bytes);
    assert(is_hash_text(key_of(bytes))) by {
        assert(happenings[i].0 matches Happening::Upload(b) && b == bytes);
    }
    assert(stored(content, dir, bytes) == content);
    law_content_stays_found(content, dir, bytes, seq![]);
    assert(stored_all(content, dir, seq![]) == content);
}

} // verus!
