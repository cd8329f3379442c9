use vstd::prelude::*;

use crate::text::{split_char, split_on, views};

verus! {

/// The settings the bridge runs with.
pub struct Config {
    pub name: String,
    pub about: String,
    pub picture_url: String,
    pub hello_message: String,
    pub secret: String,
    pub botpub: String,
    pub apik: String,
    pub web_port: u16,
    pub nitter_instance: String,
    pub domain: String,
    pub refresh_interval_secs: u64,
    pub relays: Vec<String>,
    pub max_follows: usize,
}

/// The settings as text, as read from the environment; an unset one is empty.
pub struct ConfigValues {
    pub name: String,
    pub about: String,
    pub picture_url: String,
    pub hello_message: String,
    pub secret: String,
    pub botpub: String,
    pub apik: String,
    pub web_port: String,
    pub nitter_instance: String,
    pub domain: String,
    pub refresh_interval_secs: String,
    pub relays: String,
    pub max_follows: String,
}

/// The first setting found missing or invalid.
#[derive(PartialEq, Eq, Structural, Clone, Copy, Debug)]
pub enum ConfigError {
    Name,
    About,
    PictureUrl,
    HelloMessage,
    Secret,
    Botpub,
    Apik,
    WebPort,
    NitterInstance,
    Domain,
    RefreshInterval,
    Relays,
    MaxFollows,
}

/// The value of a nonempty run of decimal digits.
pub open spec fn decimal(s: Seq<char>) -> int
    decreases s.len(),
{
    if s.len() == 0 {
        0
    } else {
        decimal(s.drop_last()) * 10 + (s.last() as int - '0' as int)
    }
}

/// A nonempty run of decimal digits.
pub open spec fn all_digits(s: Seq<char>) -> bool {
    s.len() > 0 && forall|i: int| 0 <= i < s.len() ==> '0' <= #[trigger] s[i] && s[i] <= '9'
}

/// The `u64` that `s` writes: an optional `+` and then decimal digits only,
/// with a value that fits.
pub open spec fn spec_parse_u64(s: Seq<char>) -> Option<u64> {
    let d = if s.len() > 0 && s[0] == '+' {
        s.drop_first()
    } else {
        s
    };
    if all_digits(d) && decimal(d) <= u64::MAX {
        Some(decimal(d) as u64)
    } else {
        None
    }
}

/// Relies on std's `str::parse::<u64>`, documented to accept an optional `+`
/// followed by decimal digits only, and to fail on anything else or on a value
/// that does not fit.
#[verifier::external_body]
pub(crate) fn parse_u64(s: &str) -> (r: Option<u64>)
    ensures
        r == spec_parse_u64(s@),
{
    s.parse::<u64>().ok()
}

/// A number setting: its value when it parses and is positive and at most
/// `max`, else 0 (which the checks refuse).
pub open spec fn positive_setting(s: Seq<char>, max: int) -> int {
    match spec_parse_u64(s) {
        Some(v) => if v <= max {
            v as int
        } else {
            0
        },
        None => 0,
    }
}

fn read_number(s: &str, max: u64) -> (r: u64)
    ensures
        r as int == positive_setting(s@, max as int),
{
    match parse_u64(s) {
        Some(v) => if v <= max {
            v
        } else {
            0
        },
        None => 0,
    }
}

/// Whether some piece is empty.
pub open spec fn has_empty_piece(p: Seq<Seq<char>>) -> bool {
    exists|i: int| 0 <= i < p.len() && (#[trigger] p[i]).len() == 0
}

/// Whether some string of `v` is empty.
fn any_empty(v: &Vec<String>) -> (r: bool)
    ensures
        r == has_empty_piece(views(v@)),
{
    let mut i: usize = 0;
    while i < v.len()
        invariant
            i <= v.len(),
            forall|j: int| 0 <= j < i ==> (#[trigger] v@[j])@.len() > 0,
        decreases v.len() - i,
    {
        if v[i].as_str().is_empty() {
            assert(views(v@)[i as int].len() == 0);
            return true;
        }
        i += 1;
    }
    proof {
        assert forall|j: int| 0 <= j < views(v@).len() implies (#[trigger] views(v@)[j]).len() > 0 by {
            assert(views(v@)[j] == v@[j]@);
        }
    }
    false
}

/// The first missing or invalid setting of `v`, in the order the settings are
/// listed; `None` when all are valid. Text settings must be nonempty, number
/// settings positive (and the port at most 65535), and the relay list a
/// comma-separated list of nonempty addresses.
pub open spec fn first_invalid(v: ConfigValues) -> Option<ConfigError> {
    if v.name@.len() == 0 {
        Some(ConfigError::Name)
    } else if v.about@.len() == 0 {
        Some(ConfigError::About)
    } else if v.picture_url@.len() == 0 {
        Some(ConfigError::PictureUrl)
    } else if v.hello_message@.len() == 0 {
        Some(ConfigError::HelloMessage)
    } else if v.secret@.len() == 0 {
        Some(ConfigError::Secret)
    } else if v.botpub@.len() == 0 {
        Some(ConfigError::Botpub)
    } else if v.apik@.len() == 0 {
        Some(ConfigError::Apik)
    } else if positive_setting(v.web_port@, u16::MAX as int) == 0 {
        Some(ConfigError::WebPort)
    } else if v.nitter_instance@.len() == 0 {
        Some(ConfigError::NitterInstance)
    } else if v.domain@.len() == 0 {
        Some(ConfigError::Domain)
    } else if positive_setting(v.refresh_interval_secs@, u64::MAX as int) == 0 {
        Some(ConfigError::RefreshInterval)
    } else if has_empty_piece(split_on(v.relays@, ',')) {
        Some(ConfigError::Relays)
    } else if positive_setting(v.max_follows@, usize::MAX as int) == 0 {
        Some(ConfigError::MaxFollows)
    } else {
        None
    }
}

impl Config {
    /// Checks the settings and builds the configuration; the relay list is
    /// split at commas.
    pub fn from_values(v: ConfigValues) -> (r: Result<Config, ConfigError>)
        ensures
            match r {
                Err(e) => first_invalid(v) == Some(e),
                Ok(c) => first_invalid(v) is None && c.name@ == v.name@ && c.about@ == v.about@
                    && c.picture_url@ == v.picture_url@ && c.hello_message@ == v.hello_message@
                    && c.secret@ == v.secret@ && c.botpub@ == v.botpub@ && c.apik@ == v.apik@
                    && c.web_port as int == positive_setting(v.web_port@, u16::MAX as int)
                    && c.nitter_instance@ == v.nitter_instance@ && c.domain@ == v.domain@
                    && c.refresh_interval_secs as int == positive_setting(
                    v.refresh_interval_secs@,
                    u64::MAX as int,
                ) && views(c.relays@) == split_on(v.relays@, ',') && c.max_follows as int
                    == positive_setting(v.max_follows@, usize::MAX as int),
            },
    {
        let web_port = read_number(v.web_port.as_str(), 65535);
        let refresh = read_number(v.refresh_interval_secs.as_str(), u64::MAX);
        let max_follows = read_number(v.max_follows.as_str(), usize::MAX as u64);
        let relays = split_char(v.relays.as_str(), ',');
        if v.name.as_str().is_empty() {
            Err(ConfigError::Name)
        } else if v.about.as_str().is_empty() {
            Err(ConfigError::About)
        } else if v.picture_url.as_str().is_empty() {
            Err(ConfigError::PictureUrl)
        } else if v.hello_message.as_str().is_empty() {
            Err(ConfigError::HelloMessage)
        } else if v.secret.as_str().is_empty() {
            Err(ConfigError::Secret)
        } else if v.botpub.as_str().is_empty() {
            Err(ConfigError::Botpub)
        } else if v.apik.as_str().is_empty() {
            Err(ConfigError::Apik)
        } else if web_port == 0 {
            Err(ConfigError::WebPort)
        } else if v.nitter_instance.as_str().is_empty() {
            Err(ConfigError::NitterInstance)
        } else if v.domain.as_str().is_empty() {
            Err(ConfigError::Domain)
        } else if refresh == 0 {
            Err(ConfigError::RefreshInterval)
        } else if any_empty(&relays) {
            Err(ConfigError::Relays)
        } else if max_follows == 0 {
            Err(ConfigError::MaxFollows)
        } else {
            Ok(
                Config {
                    name: v.name,
                    about: v.about,
                    picture_url: v.picture_url,
                    hello_message: v.hello_message,
                    secret: v.secret,
                    botpub: v.botpub,
                    apik: v.apik,
                    web_port: web_port as u16,
                    nitter_instance: v.nitter_instance,
                    domain: v.domain,
                    refresh_interval_secs: refresh,
                    relays,
                    max_follows: max_follows as usize,
                },
            )
        }
    }
}

impl ConfigError {
    /// The name of the environment variable at fault.
    pub fn variable(&self) -> (r: &'static str)
        ensures
            r@ == variable_name(*self),
    {
        match self {
            ConfigError::Name => "BOTNAME",
            ConfigError::About => "ABOUT",
            ConfigError::PictureUrl => "PICTURE_URL",
            ConfigError::HelloMessage => "HELLO_MESSAGE",
            ConfigError::Secret => "SECRET",
            ConfigError::Botpub => "BOTPUB",
            ConfigError::Apik => "APIK",
            ConfigError::WebPort => "WEB_PORT",
            ConfigError::NitterInstance => "NITTER_INSTANCE",
            ConfigError::Domain => "DOMAIN",
            ConfigError::RefreshInterval => "REFRESH_INTERVAL_SECS",
            ConfigError::Relays => "ADD_RELAY",
            ConfigError::MaxFollows => "MAX_FOLLOWS",
        }
    }
}

/// The environment variable that holds each setting.
pub open spec fn variable_name(e: ConfigError) -> Seq<char> {
    match e {
        ConfigError::Name => "BOTNAME"@,
        ConfigError::About => "ABOUT"@,
        ConfigError::PictureUrl => "PICTURE_URL"@,
        ConfigError::HelloMessage => "HELLO_MESSAGE"@,
        ConfigError::Secret => "SECRET"@,
        ConfigError::Botpub => "BOTPUB"@,
        ConfigError::Apik => "APIK"@,
        ConfigError::WebPort => "WEB_PORT"@,
        ConfigError::NitterInstance => "NITTER_INSTANCE"@,
        ConfigError::Domain => "DOMAIN"@,
        ConfigError::RefreshInterval => "REFRESH_INTERVAL_SECS"@,
        ConfigError::Relays => "ADD_RELAY"@,
        ConfigError::MaxFollows => "MAX_FOLLOWS"@,
    }
}

} // verus!
