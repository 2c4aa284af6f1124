//! The HTTP port setting of the plugin: reading it from the plugin's configuration and
//! completing it into a `host:port` address.
use vstd::prelude::*;
use crate::number::{decimal_string, decimal_text, parse_u16, parsed_u16};
use crate::text::{chars_of, owned, position_of, push_char, push_str, same_text, lemma_count_before_bounds};

verus! {

/// The host that the server listens on when the setting names only a port.
pub open spec fn default_http_host() -> Seq<char> {
    "0.0.0.0"@
}

/// The port that the server listens on when the setting names only a host.
pub open spec fn default_http_port() -> Seq<char> {
    "8000"@
}

/// The listening address for the port setting `arg`: a setting with a `:` is kept as it is;
/// one that reads as a 16-bit port number is prefixed with the default host; any other is
/// taken as a host and given the default port.
pub open spec fn http_address(arg: Seq<char>) -> Seq<char> {
    if arg.contains(':') {
        arg
    } else if parsed_u16(arg) is Some {
        default_http_host() + seq![':'] + arg
    } else {
        arg + seq![':'] + default_http_port()
    }
}

/// Completes a port setting into the address that the server listens on.
pub fn parse_http_port(arg: &str) -> (addr: String)
    ensures
        addr@ == http_address(arg@),
{
    let v = chars_of(arg);
    let n = position_of(&v, ':');
    proof {
        lemma_count_before_bounds(v@, ':');
    }
    if n < v.len() {
        owned(arg)
    } else {
        match parse_u16(&v) {
            Some(_) => {
                let mut out = owned("0.0.0.0");
                push_char(&mut out, ':');
                push_str(&mut out, arg);
                out
            },
            None => {
                let mut out = owned(arg);
                push_char(&mut out, ':');
                push_str(&mut out, "8000");
                out
            },
        }
    }
}

/// Completing a port setting is idempotent: the address it yields always holds a `:`, so
/// completing it again leaves it unchanged.
pub proof fn lemma_http_address_idempotent(arg: Seq<char>)
    ensures
        http_address(arg).contains(':'),
        http_address(http_address(arg)) == http_address(arg),
{
    reveal_strlit("0.0.0.0");
    if !arg.contains(':') {
        if parsed_u16(arg) is Some {
            let a = default_http_host() + seq![':'] + arg;
            assert(a[7] == ':');
        } else {
            let a = arg + seq![':'] + default_http_port();
            assert(a[arg.len() as int] == ':');
        }
    }
}

/// A field of the plugin's configuration object, as far as the plugin reads it: the text of
/// a string, and for a number the value it has as a `u64` (`None` for a negative or
/// fractional number).
pub enum ConfigField {
    Null,
    Bool(bool),
    Number(Option<u64>),
    Text(String),
    Array,
    Object,
}

/// Why the plugin refuses to start.
#[derive(PartialEq, Eq, Structural, Debug, Clone, Copy)]
pub enum StartError {
    /// The configuration has no section for the plugin.
    NoConfiguration,
    /// The `port` field is neither a string nor a number.
    PortNotInteger,
    /// The `port` field is a number that is not a `u64`.
    PortNotPositive,
    /// The `port` field is absent.
    PortRequired,
}

/// The first field of `entries` named `key`.
pub open spec fn config_lookup(entries: Seq<(String, ConfigField)>, key: Seq<char>) -> Option<ConfigField>
    decreases entries.len(),
{
    if entries.len() == 0 {
        None
    } else if entries[0].0@ == key {
        Some(entries[0].1)
    } else {
        config_lookup(entries.drop_first(), key)
    }
}

/// The port setting that a configuration section yields, or why it yields none.
pub open spec fn port_setting_of(section: Option<Seq<(String, ConfigField)>>) -> Result<Seq<char>, StartError> {
    match section {
        None => Err(StartError::NoConfiguration),
        Some(entries) => match config_lookup(entries, "port"@) {
            None => Err(StartError::PortRequired),
            Some(ConfigField::Text(s)) => Ok(s@),
            Some(ConfigField::Number(Some(n))) => Ok(decimal_text(n as nat)),
            Some(ConfigField::Number(None)) => Err(StartError::PortNotPositive),
            Some(_) => Err(StartError::PortNotInteger),
        },
    }
}

/// The text of a start error, for the plugin named `name`.
pub open spec fn start_error_text(e: StartError, name: Seq<char>) -> Seq<char> {
    match e {
        StartError::NoConfiguration => "No configuration found for plugin '"@ + name + "'"@,
        StartError::PortNotInteger => "\"port\" option must be an integer"@,
        StartError::PortNotPositive => "\"port\" option must be a positive integer"@,
        StartError::PortRequired => "Plugin option \"port\" is required"@,
    }
}

impl StartError {
    /// The text of this error, for the plugin named `name`.
    pub fn message(&self, name: &str) -> (m: String)
        ensures
            m@ == start_error_text(*self, name@),
    {
        match self {
            StartError::NoConfiguration => {
                let mut m = owned("No configuration found for plugin '");
                push_str(&mut m, name);
                push_str(&mut m, "'");
                m
            },
            StartError::PortNotInteger => owned("\"port\" option must be an integer"),
            StartError::PortNotPositive => owned("\"port\" option must be a positive integer"),
            StartError::PortRequired => owned("Plugin option \"port\" is required"),
        }
    }
}

/// Finds the first field named `key`.
fn lookup_field<'a>(entries: &'a Vec<(String, ConfigField)>, key: &str) -> (r: Option<&'a ConfigField>)
    ensures
        match r {
            Some(f) => config_lookup(entries@, key@) == Some(*f),
            None => config_lookup(entries@, key@) is None,
        },
{
    let mut i: usize = 0;
    assert(entries@.skip(0) =~= entries@);
    while i < entries.len()
        invariant
            i <= entries.len(),
            config_lookup(entries@, key@) == config_lookup(entries@.skip(i as int), key@),
        decreases entries.len() - i,
    {
        assert(entries@.skip(i as int).drop_first() =~= entries@.skip(i + 1));
        assert(entries@.skip(i as int)[0] == entries@[i as int]);
        if same_text(entries[i].0.as_str(), key) {
            return Some(&entries[i].1);
        }
        i = i + 1;
    }
    assert(entries@.skip(i as int).len() == 0);
    None
}

/// The REST plugin: its names, and the setting it starts from.
pub struct RestPlugin {}

impl RestPlugin {
    /// The name under which the plugin is registered.
    pub fn static_name() -> (n: &'static str)
        ensures
            n@ == "rest"@,
    {
        "rest"
    }

    /// The identifier that the plugin's compatibility check compares.
    pub fn plugin_uid() -> (n: &'static str)
        ensures
            n@ == "zenoh-plugin-rest"@,
    {
        "zenoh-plugin-rest"
    }

    /// The port setting found in the plugin's configuration section (`None` when the
    /// configuration has no section for the plugin).
    pub fn port_setting(section: Option<&Vec<(String, ConfigField)>>) -> (r: Result<String, StartError>)
        ensures
            match r {
                Ok(s) => section is Some && port_setting_of(Some(section->0@)) == Ok::<Seq<char>, StartError>(s@),
                Err(e) => port_setting_of(match section {
                    Some(v) => Some(v@),
                    None => None,
                }) == Err::<Seq<char>, StartError>(e),
            },
            (r is Ok) == (port_setting_of(match section {
                Some(v) => Some(v@),
                None => None,
            }) is Ok),
    {
        match section {
            None => Err(StartError::NoConfiguration),
            Some(entries) => match lookup_field(entries, "port") {
                None => Err(StartError::PortRequired),
                Some(ConfigField::Text(s)) => Ok(s.clone()),
                Some(ConfigField::Number(Some(n))) => Ok(decimal_string(*n)),
                Some(ConfigField::Number(None)) => Err(StartError::PortNotPositive),
                Some(_) => Err(StartError::PortNotInteger),
            },
        }
    }
}

/// The running plugin, which accepts no change of its configuration.
pub struct RunningPlugin {}

/// The refusal that answers every configuration change.
pub open spec fn config_change_refusal() -> Seq<char> {
    "zenoh-plugin-rest doesn't accept any runtime configuration changes"@
}

impl RunningPlugin {
    /// Checks a change of the plugin's configuration: every change is refused.
    pub fn check_config_change(&self) -> (r: Result<(), String>)
        ensures
            r matches Err(m) && m@ == config_change_refusal(),
    {
        Err(owned("zenoh-plugin-rest doesn't accept any runtime configuration changes"))
    }
}

} // verus!
