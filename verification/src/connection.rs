//! The two endpoints of the proxy as the settings describe them, and the
//! pause between two attempts to reach one.

use vstd::prelude::*;
use vstd::utf8::encode_utf8;
use ini::Ini;
use crate::text::{dec_number, parse_decimal};

verus! {

/// How an endpoint is reached.
#[derive(Debug, Clone)]
pub enum ConnectionType {
    Serial { port: String, baud_rate: u32 },
    TcpServer { port: String, timeout_enabled: bool },
    TcpClient { port: String, timeout_enabled: bool },
    MQTT { broker: String, port: u16, publish_topic_prefix: String },
}

/// The settings of one endpoint, each as the text that was written, or
/// `None` where the key is not set.
#[derive(Debug, Clone)]
pub struct EndpointSettings {
    pub kind: Option<String>,
    pub port: Option<String>,
    pub baud_rate: Option<String>,
    pub timeout_enabled: Option<String>,
    pub broker: Option<String>,
    pub publish_topic_prefix: Option<String>,
}

/// The settings of one endpoint as plain text.
pub struct Settings {
    pub kind: Option<Seq<char>>,
    pub port: Option<Seq<char>>,
    pub baud_rate: Option<Seq<char>>,
    pub timeout_enabled: Option<Seq<char>>,
    pub broker: Option<Seq<char>>,
    pub publish_topic_prefix: Option<Seq<char>>,
}

/// The text of a setting that may not be set.
pub open spec fn text_of(s: Option<String>) -> Option<Seq<char>> {
    match s {
        Some(t) => Some(t@),
        None => None,
    }
}

impl EndpointSettings {
    /// The settings as plain text.
    pub open spec fn model(&self) -> Settings {
        Settings {
            kind: text_of(self.kind),
            port: text_of(self.port),
            baud_rate: text_of(self.baud_rate),
            timeout_enabled: text_of(self.timeout_enabled),
            broker: text_of(self.broker),
            publish_topic_prefix: text_of(self.publish_topic_prefix),
        }
    }
}

/// A settings file, as the `ini` crate holds it.
#[verifier::external_type_specification]
#[verifier::external_body]
pub struct ExIni(Ini);

/// The names of the sections that settings hold.
pub uninterp spec fn ini_sections(conf: Ini) -> Set<Seq<char>>;

/// The values that settings hold: for a section and a key, the first value of
/// that key in the first section of that name.
pub uninterp spec fn ini_values(conf: Ini) -> Map<(Seq<char>, Seq<char>), Seq<char>>;

/// Asks `Ini::section` whether the settings hold a section of the given name.
#[verifier::external_body]
fn has_section(conf: &Ini, section: &str) -> (r: bool)
    ensures
        r == ini_sections(*conf).contains(section@),
{
    conf.section(Some(section)).is_some()
}

/// Asks `Ini::get_from` for the value of a key in a section: the first value
/// of the key in the first section of that name, `None` where there is none.
#[verifier::external_body]
fn value_of(conf: &Ini, section: &str, key: &str) -> (r: Option<String>)
    ensures
        r is Some <==> ini_values(*conf).contains_key((section@, key@)),
        r is Some ==> r.unwrap()@ == ini_values(*conf)[(section@, key@)],
{
    conf.get_from(Some(section), key).map(str::to_owned)
}

/// The value of a key in a section of the settings, where it is set.
pub open spec fn setting_at(conf: Ini, section: Seq<char>, key: Seq<char>) -> Option<Seq<char>> {
    if ini_values(conf).contains_key((section, key)) {
        Some(ini_values(conf)[(section, key)])
    } else {
        None
    }
}

/// What a section of the settings says of an endpoint.
pub open spec fn section_model(conf: Ini, section: Seq<char>) -> Settings {
    Settings {
        kind: setting_at(conf, section, "type"@),
        port: setting_at(conf, section, "port"@),
        baud_rate: setting_at(conf, section, "baud_rate"@),
        timeout_enabled: setting_at(conf, section, "timeout_enabled"@),
        broker: setting_at(conf, section, "broker"@),
        publish_topic_prefix: setting_at(conf, section, "publish_topic_prefix"@),
    }
}

/// Reads the settings of an endpoint out of its section; `None` where the
/// settings hold no such section.
pub fn endpoint_settings(conf: &Ini, section: &str) -> (r: Option<EndpointSettings>)
    ensures
        r is Some <==> ini_sections(*conf).contains(section@),
        r is Some ==> r.unwrap().model() == section_model(*conf, section@),
{
    if !has_section(conf, section) {
        return None;
    }
    Some(
        EndpointSettings {
            kind: value_of(conf, section, "type"),
            port: value_of(conf, section, "port"),
            baud_rate: value_of(conf, section, "baud_rate"),
            timeout_enabled: value_of(conf, section, "timeout_enabled"),
            broker: value_of(conf, section, "broker"),
            publish_topic_prefix: value_of(conf, section, "publish_topic_prefix"),
        },
    )
}

/// Which side of the proxy an endpoint is.
#[derive(Debug, Clone, Copy, PartialEq, Eq, Structural)]
pub enum Role {
    Gateway,
    Controller,
}

/// Why the settings of an endpoint are refused.
#[derive(Debug, Clone, Copy, PartialEq, Eq, Structural)]
pub enum ConfigError {
    /// The endpoint has no settings at all.
    MissingSection,
    /// A key that the kind of endpoint needs is not set.
    MissingKey,
    /// A value is not the number or the truth value that it should be.
    BadValue,
}

/// The baud rate of a controller whose setting is no number.
pub const DEFAULT_BAUD_RATE: u32 = 9600u32;

/// The text `Serial`.
pub open spec fn serial_text() -> Seq<u8> {
    seq![83u8, 101u8, 114u8, 105u8, 97u8, 108u8]
}

/// The text `TCP`.
pub open spec fn tcp_text() -> Seq<u8> {
    seq![84u8, 67u8, 80u8]
}

/// The text `true`.
pub open spec fn true_text() -> Seq<u8> {
    seq![116u8, 114u8, 117u8, 101u8]
}

/// The text `false`.
pub open spec fn false_text() -> Seq<u8> {
    seq![102u8, 97u8, 108u8, 115u8, 101u8]
}

/// The bytes of a setting.
pub open spec fn setting(s: Option<Seq<char>>) -> Seq<u8> {
    encode_utf8(s.unwrap())
}

/// A number text without the plus sign that may stand before it.
pub open spec fn unsigned_text(s: Seq<u8>) -> Seq<u8> {
    if s.len() > 0 && s[0] == 43 {
        s.skip(1)
    } else {
        s
    }
}

/// A text read as a number up to `max`: decimal digits, a plus sign before them allowed.
pub open spec fn text_number(s: Seq<u8>, max: int) -> Option<int> {
    dec_number(unsigned_text(s), max)
}

/// A text read as a truth value: `true` or `false`, nothing else.
pub open spec fn text_bool(s: Seq<u8>) -> Option<bool> {
    if s == true_text() {
        Some(true)
    } else if s == false_text() {
        Some(false)
    } else {
        None
    }
}

/// Reads a text as a number up to `max`.
pub fn parse_number(s: &[u8], max: u32) -> (r: Option<u32>)
    ensures
        match r {
            Some(v) => text_number(s@, max as int) == Some(v as int),
            None => text_number(s@, max as int) is None,
        },
{
    if s.len() > 0 && s[0] == 43 {
        let rest = vstd::slice::slice_subrange(s, 1, s.len());
        assert(rest@ =~= s@.skip(1));
        parse_decimal(rest, max)
    } else {
        parse_decimal(s, max)
    }
}

/// Reads a text as a truth value.
pub fn parse_bool(s: &[u8]) -> (r: Option<bool>)
    ensures
        r == text_bool(s@),
{
    if s.len() == 4 && s[0] == 116 && s[1] == 114 && s[2] == 117 && s[3] == 101 {
        assert(s@ =~= true_text());
        Some(true)
    } else if s.len() == 5 && s[0] == 102 && s[1] == 97 && s[2] == 108 && s[3] == 115 && s[4]
        == 101 {
        assert(s@ =~= false_text());
        Some(false)
    } else {
        None
    }
}

/// Whether a text is `Serial`.
fn is_serial(s: &[u8]) -> (r: bool)
    ensures
        r == (s@ == serial_text()),
{
    if s.len() == 6 && s[0] == 83 && s[1] == 101 && s[2] == 114 && s[3] == 105 && s[4] == 97
        && s[5] == 108 {
        assert(s@ =~= serial_text());
        true
    } else {
        false
    }
}

/// Whether a text is `TCP`.
fn is_tcp(s: &[u8]) -> (r: bool)
    ensures
        r == (s@ == tcp_text()),
{
    if s.len() == 3 && s[0] == 84 && s[1] == 67 && s[2] == 80 {
        assert(s@ =~= tcp_text());
        true
    } else {
        false
    }
}

/// Why the settings `c` of the endpoint on side `role` are refused, if they are.
/// Kind and port are always needed. A serial endpoint needs a baud rate,
/// which on the gateway's side must be a number. A TCP endpoint may say
/// whether it times out. Any other kind is MQTT and needs a broker, a port
/// that is a 16-bit number, and a topic prefix.
pub open spec fn endpoint_error(c: Settings, role: Role) -> Option<ConfigError> {
    if c.kind is None || c.port is None {
        Some(ConfigError::MissingKey)
    } else if setting(c.kind) == serial_text() {
        if c.baud_rate is None {
            Some(ConfigError::MissingKey)
        } else if role == Role::Gateway && text_number(setting(c.baud_rate), u32::MAX as int)
            is None {
            Some(ConfigError::BadValue)
        } else {
            None
        }
    } else if setting(c.kind) == tcp_text() {
        if c.timeout_enabled is Some && text_bool(setting(c.timeout_enabled)) is None {
            Some(ConfigError::BadValue)
        } else {
            None
        }
    } else if c.broker is None {
        Some(ConfigError::MissingKey)
    } else if text_number(setting(c.port), u16::MAX as int) is None {
        Some(ConfigError::BadValue)
    } else if c.publish_topic_prefix is None {
        Some(ConfigError::MissingKey)
    } else {
        None
    }
}

/// `conn` is the endpoint that the settings `c` describe on side `role`.
pub open spec fn is_endpoint(conn: ConnectionType, c: Settings, role: Role) -> bool {
    match conn {
        ConnectionType::Serial { port, baud_rate } => {
            &&& setting(c.kind) == serial_text()
            &&& port@ == c.port.unwrap()
            &&& baud_rate == match text_number(setting(c.baud_rate), u32::MAX as int) {
                Some(v) => v,
                None => DEFAULT_BAUD_RATE as int,
            }
        },
        ConnectionType::TcpServer { port, timeout_enabled } => {
            &&& setting(c.kind) == tcp_text()
            &&& role == Role::Controller
            &&& port@ == c.port.unwrap()
            &&& timeout_enabled == (c.timeout_enabled is Some && text_bool(
                setting(c.timeout_enabled),
            ) == Some(true))
        },
        ConnectionType::TcpClient { port, timeout_enabled } => {
            &&& setting(c.kind) == tcp_text()
            &&& role == Role::Gateway
            &&& port@ == c.port.unwrap()
            &&& timeout_enabled == (c.timeout_enabled is Some && text_bool(
                setting(c.timeout_enabled),
            ) == Some(true))
        },
        ConnectionType::MQTT { broker, port, publish_topic_prefix } => {
            &&& setting(c.kind) != serial_text()
            &&& setting(c.kind) != tcp_text()
            &&& broker@ == c.broker.unwrap()
            &&& Some(port as int) == text_number(setting(c.port), u16::MAX as int)
            &&& publish_topic_prefix@ == c.publish_topic_prefix.unwrap()
        },
    }
}

/// The endpoint that the settings describe on side `role`.
pub fn endpoint(c: &EndpointSettings, role: Role) -> (r: Result<ConnectionType, ConfigError>)
    ensures
        match r {
            Ok(conn) => endpoint_error(c.model(), role) is None && is_endpoint(
                conn,
                c.model(),
                role,
            ),
            Err(e) => endpoint_error(c.model(), role) == Some(e),
        },
{
    let kind = match &c.kind {
        Some(k) => k,
        None => {
            return Err(ConfigError::MissingKey);
        },
    };
    let port = match &c.port {
        Some(p) => p,
        None => {
            return Err(ConfigError::MissingKey);
        },
    };
    if is_serial(kind.as_str().as_bytes()) {
        let baud = match &c.baud_rate {
            Some(b) => b,
            None => {
                return Err(ConfigError::MissingKey);
            },
        };
        let baud_rate = match parse_number(baud.as_str().as_bytes(), u32::MAX) {
            Some(v) => v,
            None => match role {
                Role::Gateway => {
                    return Err(ConfigError::BadValue);
                },
                Role::Controller => DEFAULT_BAUD_RATE,
            },
        };
        Ok(ConnectionType::Serial { port: port.clone(), baud_rate })
    } else if is_tcp(kind.as_str().as_bytes()) {
        let timeout_enabled = match &c.timeout_enabled {
            Some(t) => match parse_bool(t.as_str().as_bytes()) {
                Some(v) => v,
                None => {
                    return Err(ConfigError::BadValue);
                },
            },
            None => false,
        };
        match role {
            Role::Gateway => Ok(ConnectionType::TcpClient { port: port.clone(), timeout_enabled }),
            Role::Controller => Ok(
                ConnectionType::TcpServer { port: port.clone(), timeout_enabled },
            ),
        }
    } else {
        let broker = match &c.broker {
            Some(b) => b,
            None => {
                return Err(ConfigError::MissingKey);
            },
        };
        let port_number = match parse_number(port.as_str().as_bytes(), 65535) {
            Some(v) => v as u16,
            None => {
                return Err(ConfigError::BadValue);
            },
        };
        let prefix = match &c.publish_topic_prefix {
            Some(p) => p,
            None => {
                return Err(ConfigError::MissingKey);
            },
        };
        Ok(
            ConnectionType::MQTT {
                broker: broker.clone(),
                port: port_number,
                publish_topic_prefix: prefix.clone(),
            },
        )
    }
}

/// The gateway's endpoint, out of the section `Gateway`, which must be there.
pub fn get_mys_gateway(config: &Ini) -> (r: Result<ConnectionType, ConfigError>)
    ensures
        match r {
            Ok(conn) => {
                &&& ini_sections(*config).contains("Gateway"@)
                &&& endpoint_error(section_model(*config, "Gateway"@), Role::Gateway) is None
                &&& is_endpoint(conn, section_model(*config, "Gateway"@), Role::Gateway)
            },
            Err(e) => if ini_sections(*config).contains("Gateway"@) {
                endpoint_error(section_model(*config, "Gateway"@), Role::Gateway) == Some(e)
            } else {
                e == ConfigError::MissingSection
            },
        },
{
    match endpoint_settings(config, "Gateway") {
        None => Err(ConfigError::MissingSection),
        Some(c) => endpoint(&c, Role::Gateway),
    }
}

/// The controller's endpoint, out of the section `Controller`; `None` where
/// the settings hold no such section.
pub fn get_mys_controller(config: &Ini) -> (r: Result<Option<ConnectionType>, ConfigError>)
    ensures
        match r {
            Ok(None) => !ini_sections(*config).contains("Controller"@),
            Ok(Some(conn)) => {
                &&& ini_sections(*config).contains("Controller"@)
                &&& endpoint_error(section_model(*config, "Controller"@), Role::Controller)
                    is None
                &&& is_endpoint(conn, section_model(*config, "Controller"@), Role::Controller)
            },
            Err(e) => {
                &&& ini_sections(*config).contains("Controller"@)
                &&& endpoint_error(section_model(*config, "Controller"@), Role::Controller)
                    == Some(e)
            },
        },
{
    match endpoint_settings(config, "Controller") {
        None => Ok(None),
        Some(c) => match endpoint(&c, Role::Controller) {
            Ok(conn) => Ok(Some(conn)),
            Err(e) => Err(e),
        },
    }
}

/// The log level where the settings name none.
pub open spec fn default_log_level() -> Seq<char> {
    "myscontroller_rs=info,actix_web=info"@
}

/// The log level: the one that the section `Server` sets, or the default one.
pub fn log_level(config: &Ini) -> (r: String)
    ensures
        r@ == match setting_at(*config, "Server"@, "log_level"@) {
            Some(v) => v,
            None => default_log_level(),
        },
{
    match value_of(config, "Server", "log_level") {
        Some(v) => v,
        None => "myscontroller_rs=info,actix_web=info".to_owned(),
    }
}

/// The location of the metadata store, as the section `Server` gives it
/// under `database_url`.
pub fn server_configs(config: &Ini) -> (r: Result<String, ConfigError>)
    ensures
        match r {
            Ok(url) => {
                &&& ini_sections(*config).contains("Server"@)
                &&& setting_at(*config, "Server"@, "database_url"@) == Some(url@)
            },
            Err(e) => if !ini_sections(*config).contains("Server"@) {
                e == ConfigError::MissingSection
            } else {
                e == ConfigError::MissingKey && setting_at(*config, "Server"@, "database_url"@)
                    is None
            },
        },
{
    if !has_section(config, "Server") {
        return Err(ConfigError::MissingSection);
    }
    match value_of(config, "Server", "database_url") {
        Some(url) => Ok(url),
        None => Err(ConfigError::MissingKey),
    }
}

/// The first pause after a failure, in milliseconds.
pub const BACKOFF_START_MS: u32 = 100u32;

/// The longest pause between two attempts, in milliseconds.
pub const BACKOFF_CAP_MS: u32 = 30000u32;

/// The pause before the next attempt: after a success the first pause
/// again; after a failure twice the last pause, up to the longest one.
pub open spec fn backoff_after(current_ms: u32, succeeded: bool) -> u32 {
    if succeeded {
        BACKOFF_START_MS
    } else if current_ms >= BACKOFF_CAP_MS / 2 {
        BACKOFF_CAP_MS
    } else if current_ms < BACKOFF_START_MS {
        BACKOFF_START_MS
    } else {
        (2 * current_ms) as u32
    }
}

/// The pause before the next attempt to reach an endpoint.
pub fn next_backoff(current_ms: u32, succeeded: bool) -> (r: u32)
    ensures
        r == backoff_after(current_ms, succeeded),
        BACKOFF_START_MS <= r <= BACKOFF_CAP_MS,
{
    if succeeded {
        BACKOFF_START_MS
    } else if current_ms >= BACKOFF_CAP_MS / 2 {
        BACKOFF_CAP_MS
    } else if current_ms < BACKOFF_START_MS {
        BACKOFF_START_MS
    } else {
        2 * current_ms
    }
}

} // verus!
