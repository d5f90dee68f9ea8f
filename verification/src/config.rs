//! The configuration file's settings and what they mean. What can be told to
//! be wrong is refused at start, not at first use.

use crate::app::{AppConfig, AppConfigView, BackupConfig, BackupConfigView, EnrollmentMode, Interval,
    ListenAddr};
use crate::text::{cat, clone_texts, signed, signed_spec};
use vstd::prelude::*;

verus! {

/// The settings; each has a default.
#[derive(Debug, Clone, PartialEq)]
pub struct Config {
    pub bind_host: String,
    pub enrollment_port: u16,
    pub marti_api_port: u16,
    pub plain_tcp_port: u16,
    pub mtls_port: u16,
    pub ca_common_name: String,
    pub server_common_name: String,
    pub cert_validity_days: i64,
    pub data_dir: String,
    pub backup_enabled: bool,
    pub backup_interval_seconds: u64,
    pub backup_dir: String,
    /// A command that ships the backup elsewhere; empty for none.
    pub backup_offsite_command: Vec<String>,
}

/// The model of the settings.
pub struct ConfigView {
    pub bind_host: Seq<char>,
    pub enrollment_port: u16,
    pub marti_api_port: u16,
    pub plain_tcp_port: u16,
    pub mtls_port: u16,
    pub ca_common_name: Seq<char>,
    pub server_common_name: Seq<char>,
    pub cert_validity_days: i64,
    pub data_dir: Seq<char>,
    pub backup_enabled: bool,
    pub backup_interval_seconds: u64,
    pub backup_dir: Seq<char>,
    pub backup_offsite_command: Seq<Seq<char>>,
}

impl DeepView for Config {
    type V = ConfigView;

    open spec fn deep_view(&self) -> ConfigView {
        ConfigView {
            bind_host: self.bind_host@,
            enrollment_port: self.enrollment_port,
            marti_api_port: self.marti_api_port,
            plain_tcp_port: self.plain_tcp_port,
            mtls_port: self.mtls_port,
            ca_common_name: self.ca_common_name@,
            server_common_name: self.server_common_name@,
            cert_validity_days: self.cert_validity_days,
            data_dir: self.data_dir@,
            backup_enabled: self.backup_enabled,
            backup_interval_seconds: self.backup_interval_seconds,
            backup_dir: self.backup_dir@,
            backup_offsite_command: self.backup_offsite_command.deep_view(),
        }
    }
}

/// The settings of an empty file.
pub open spec fn default_settings() -> ConfigView {
    ConfigView {
        bind_host: "0.0.0.0"@,
        enrollment_port: 8446,
        marti_api_port: 8443,
        plain_tcp_port: 8087,
        mtls_port: 8089,
        ca_common_name: "MicroTAK CA"@,
        server_common_name: "microtak-server"@,
        cert_validity_days: 365,
        data_dir: "./data"@,
        backup_enabled: false,
        backup_interval_seconds: 3600,
        backup_dir: "./backup"@,
        backup_offsite_command: seq![],
    }
}

impl Default for Config {
    fn default() -> (res: Self)
        ensures
            res.deep_view() == default_settings(),
    {
        let backup_offsite_command: Vec<String> = Vec::new();
        assert(backup_offsite_command.deep_view() =~= seq![]);
        Config {
            bind_host: "0.0.0.0".to_owned(),
            enrollment_port: 8446,
            marti_api_port: 8443,
            plain_tcp_port: 8087,
            mtls_port: 8089,
            ca_common_name: "MicroTAK CA".to_owned(),
            server_common_name: "microtak-server".to_owned(),
            cert_validity_days: 365,
            data_dir: "./data".to_owned(),
            backup_enabled: false,
            backup_interval_seconds: 3600,
            backup_dir: "./backup".to_owned(),
            backup_offsite_command,
        }
    }
}

/// Why a configuration is refused.
#[derive(Debug)]
pub enum ConfigError {
    Read { path: String, source: String },
    Parse { path: String, source: String },
    InvalidBindHost(String),
    InvalidCertValidity(i64),
}

impl ConfigError {
    /// What `message` says.
    pub open spec fn message_spec(&self) -> Seq<char> {
        match *self {
            ConfigError::Read { path, source } => "failed to read config file "@ + path@ + (": "@
                + source@ + ""@),
            ConfigError::Parse { path, source } => "failed to parse config file "@ + path@ + (": "@
                + source@ + ""@),
            ConfigError::InvalidBindHost(host) => "invalid bind_host '"@ + host@
                + "': not a valid IP address"@,
            ConfigError::InvalidCertValidity(days) => "invalid cert_validity_days "@ + signed_spec(
                days as int,
            ) + ": must be positive"@,
        }
    }

    /// The error in words.
    pub fn message(&self) -> (res: String)
        ensures
            res@ == self.message_spec(),
    {
        match self {
            ConfigError::Read { path, source } => {
                cat("failed to read config file ", path, &cat(": ", source, ""))
            },
            ConfigError::Parse { path, source } => {
                cat("failed to parse config file ", path, &cat(": ", source, ""))
            },
            ConfigError::InvalidBindHost(host) => {
                cat("invalid bind_host '", host, "': not a valid IP address")
            },
            ConfigError::InvalidCertValidity(days) => {
                cat("invalid cert_validity_days ", &signed(*days), ": must be positive")
            },
        }
    }
}

/// How many days are as many seconds as can be counted.
pub const MAX_VALIDITY_DAYS: i64 = 106751991167300;

/// What the settings mean for a server on the IP address `host`.
pub open spec fn meaning(settings: ConfigView, host: Seq<char>) -> AppConfigView {
    AppConfigView {
        enrollment_addr: (host, settings.enrollment_port),
        marti_api_addr: (host, settings.marti_api_port),
        plain_tcp_addr: (host, settings.plain_tcp_port),
        mtls_addr: (host, settings.mtls_port),
        ca_common_name: settings.ca_common_name,
        server_common_name: settings.server_common_name,
        cert_validity_seconds: (settings.cert_validity_days * 86400) as i64,
        data_dir: settings.data_dir,
        backup: BackupConfigView {
            enabled: settings.backup_enabled,
            interval: Interval {
                seconds: if settings.backup_interval_seconds == 0 {
                    1
                } else {
                    settings.backup_interval_seconds
                },
                nanoseconds: 0,
            },
            backup_dir: settings.backup_dir,
            offsite_command: settings.backup_offsite_command,
        },
        admin_common_name: None,
        enrollment_mode: EnrollmentMode::Auto,
    }
}

/// What reading the configuration file gave.
#[derive(Debug)]
pub enum SettingsFile {
    /// There is none.
    Missing,
    /// It could not be read, for this reason.
    Unreadable(String),
    /// It was read, and these are its settings, or why they cannot be told.
    Read(Result<Config, String>),
}

impl Config {
    /// The settings of the file at `path`. A missing file means the defaults;
    /// one that is there and cannot be read is an error.
    pub fn load_or_default(path: &str, file: SettingsFile) -> (res: Result<Config, ConfigError>)
        ensures
            match file {
                SettingsFile::Missing => res matches Ok(config) && config.deep_view()
                    == default_settings(),
                SettingsFile::Unreadable(reason) => res matches Err(
                    ConfigError::Read { path: p, source },
                ) && p@ == path@ && source == reason,
                SettingsFile::Read(Ok(config)) => res == Ok::<Config, ConfigError>(config),
                SettingsFile::Read(Err(reason)) => res matches Err(
                    ConfigError::Parse { path: p, source },
                ) && p@ == path@ && source == reason,
            },
    {
        match file {
            SettingsFile::Missing => Ok(Config::default()),
            SettingsFile::Unreadable(source) => {
                Err(ConfigError::Read { path: path.to_owned(), source })
            },
            SettingsFile::Read(Ok(config)) => Ok(config),
            SettingsFile::Read(Err(source)) => {
                Err(ConfigError::Parse { path: path.to_owned(), source })
            },
        }
    }

    /// The server that the settings describe. `bind_ip` is the IP address that
    /// `bind_host` stands for, `None` if it stands for none. A bad host is
    /// reported before a bad validity.
    pub fn to_app_config(&self, bind_ip: Option<String>) -> (res: Result<AppConfig, ConfigError>)
        requires
            bind_ip is Some ==> self.cert_validity_days <= MAX_VALIDITY_DAYS,
        ensures
            match res {
                Ok(config) => {
                    &&& bind_ip matches Some(ip) && config.deep_view() == meaning(
                        self.deep_view(),
                        ip@,
                    )
                    &&& self.cert_validity_days > 0
                },
                Err(ConfigError::InvalidBindHost(host)) => bind_ip is None && host@
                    == self.bind_host@,
                Err(ConfigError::InvalidCertValidity(days)) => {
                    &&& bind_ip is Some
                    &&& days == self.cert_validity_days
                    &&& days <= 0
                },
                Err(_) => false,
            },
    {
        let ip = match bind_ip {
            Some(ip) => ip,
            None => {
                return Err(ConfigError::InvalidBindHost(self.bind_host.clone()));
            },
        };
        if self.cert_validity_days <= 0 {
            return Err(ConfigError::InvalidCertValidity(self.cert_validity_days));
        }
        let seconds: u64 = if self.backup_interval_seconds == 0 {
            1
        } else {
            self.backup_interval_seconds
        };
        Ok(
            AppConfig {
                enrollment_addr: ListenAddr { host: ip.clone(), port: self.enrollment_port },
                marti_api_addr: ListenAddr { host: ip.clone(), port: self.marti_api_port },
                plain_tcp_addr: ListenAddr { host: ip.clone(), port: self.plain_tcp_port },
                mtls_addr: ListenAddr { host: ip, port: self.mtls_port },
                ca_common_name: self.ca_common_name.clone(),
                server_common_name: self.server_common_name.clone(),
                cert_validity_seconds: self.cert_validity_days * 86400,
                data_dir: self.data_dir.clone(),
                backup: BackupConfig {
                    enabled: self.backup_enabled,
                    interval: Interval { seconds, nanoseconds: 0 },
                    backup_dir: self.backup_dir.clone(),
                    offsite_command: clone_texts(&self.backup_offsite_command),
                },
                admin_common_name: None,
                enrollment_mode: EnrollmentMode::default(),
            },
        )
    }
}

/// An empty configuration file means the default server.
pub proof fn law_default_settings_mean_the_default_server()
    ensures
        meaning(default_settings(), "0.0.0.0"@) == crate::app::default_config(),
{
}

/// What the settings mean, one by one: every service listens on the host at its
/// own port, a day of validity has its seconds, backups run at the interval
/// that is set, and at least a second apart, and the rest is taken as it is.
/// The settings name no administrator and leave enrollment to lock by itself.
pub proof fn law_settings_mean_what_they_say(settings: ConfigView, host: Seq<char>)
    requires
        0 < settings.cert_validity_days <= MAX_VALIDITY_DAYS,
    ensures
        ({
            let server = meaning(settings, host);
            &&& server.enrollment_addr.0 == host
            &&& server.marti_api_addr.0 == host
            &&& server.plain_tcp_addr.0 == host
            &&& server.mtls_addr.0 == host
            &&& server.enrollment_addr.1 == settings.enrollment_port
            &&& server.marti_api_addr.1 == settings.marti_api_port
            &&& server.plain_tcp_addr.1 == settings.plain_tcp_port
            &&& server.mtls_addr.1 == settings.mtls_port
            &&& server.ca_common_name == settings.ca_common_name
            &&& server.server_common_name == settings.server_common_name
            &&& server.cert_validity_seconds == settings.cert_validity_days * 24 * 60 * 60
            &&& server.data_dir == settings.data_dir
            &&& server.backup.enabled == settings.backup_enabled
            &&& server.backup.interval.seconds >= 1
            &&& settings.backup_interval_seconds >= 1 ==> server.backup.interval.seconds
                == settings.backup_interval_seconds
            &&& server.backup.interval.seconds <= settings.backup_interval_seconds + 1
            &&& server.backup.interval.nanoseconds == 0
            &&& server.backup.backup_dir == settings.backup_dir
            &&& server.backup.offsite_command == settings.backup_offsite_command
            &&& server.admin_common_name is None
            &&& server.enrollment_mode == EnrollmentMode::Auto
        }),
{
}

} // verus!
