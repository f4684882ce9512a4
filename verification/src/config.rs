//! The configuration of one run and the request address built from it.

use crate::escape::{percent_encode, percent_encoded};
use crate::query::param;
use crate::text::{decimal, decimal_string};
use vstd::prelude::*;
use vstd::string::*;

verus! {

/// Number of artists asked for when none is given.
pub const DEFAULT_LIMIT: u16 = 5;

/// Lookback period asked for when none is given.
pub const DEFAULT_PERIOD: &'static str = "7day";

/// The four parameters of a run. Nothing is checked when one is built:
/// `validate` tells whether a required text is empty, and the period code is
/// judged when the summary is written. Every limit is accepted; with a limit
/// of zero the header is still written and no entry is joined to the next.
#[derive(Debug, Clone, PartialEq, Eq)]
pub struct Config {
    api_key: String,
    username: String,
    limit: u16,
    period: String,
}

/// A `Config` as plain values.
pub struct ConfigView {
    pub api_key: Seq<char>,
    pub username: Seq<char>,
    pub limit: u16,
    pub period: Seq<char>,
}

/// A required text of the configuration.
#[derive(Debug, Clone, Copy, PartialEq, Eq, Structural)]
pub enum ConfigField {
    ApiKey,
    Username,
}

/// Why a configuration cannot be used.
#[derive(Debug, Clone, Copy, PartialEq, Eq, Structural)]
pub enum ConfigError {
    /// The required text is empty.
    MissingField(ConfigField),
}

impl View for Config {
    type V = ConfigView;

    closed spec fn view(&self) -> ConfigView {
        ConfigView {
            api_key: self.api_key@,
            username: self.username@,
            limit: self.limit,
            period: self.period@,
        }
    }
}

/// The address of the service, up to and without the `?`.
pub open spec fn endpoint() -> Seq<char> {
    "http://ws.audioscrobbler.com/"@ + "2.0"@ + "/"@
}

/// The query string of the request for `c`: six pairs, in this order. The
/// three texts of the configuration are percent-encoded.
pub open spec fn query_for(c: ConfigView) -> Seq<char> {
    param("method"@, "user.gettopartists"@) + "&"@ + param("user"@, percent_encoded(c.username))
        + "&"@ + param("api_key"@, percent_encoded(c.api_key)) + "&"@ + param(
        "format"@,
        "json"@,
    ) + "&"@ + param("period"@, percent_encoded(c.period)) + "&"@ + param(
        "limit"@,
        decimal(c.limit as nat),
    )
}

/// The request address for `c`.
pub open spec fn uri_for(c: ConfigView) -> Seq<char> {
    endpoint() + "?"@ + query_for(c)
}

/// The first required text of `c` that is empty, if any.
pub open spec fn first_missing(c: ConfigView) -> Option<ConfigField> {
    if c.api_key.len() == 0 {
        Some(ConfigField::ApiKey)
    } else if c.username.len() == 0 {
        Some(ConfigField::Username)
    } else {
        None
    }
}

/// What `Config::validate` returns.
pub open spec fn validity(c: ConfigView) -> Result<(), ConfigError> {
    match first_missing(c) {
        Some(field) => Err(ConfigError::MissingField(field)),
        None => Ok(()),
    }
}

/// The message that `ConfigError::message` gives.
pub open spec fn config_message_text(error: ConfigError) -> Seq<char> {
    match error {
        ConfigError::MissingField(field) => "Missing required field: "@ + field.name_text()
            + "."@,
    }
}

impl ConfigField {
    /// What `name` returns.
    pub open spec fn name_text(self) -> Seq<char> {
        match self {
            ConfigField::ApiKey => "api_key"@,
            ConfigField::Username => "username"@,
        }
    }

    /// The name by which the field is set.
    pub fn name(&self) -> (name: &'static str)
        ensures
            name@ == self.name_text(),
    {
        match self {
            ConfigField::ApiKey => "api_key",
            ConfigField::Username => "username",
        }
    }
}

impl ConfigError {
    /// One line for the user that names the missing field.
    pub fn message(&self) -> (text: String)
        ensures
            text@ == config_message_text(*self),
    {
        match self {
            ConfigError::MissingField(field) => {
                let mut text = String::from_str("Missing required field: ");
                text.append(field.name());
                text.append(".");
                text
            },
        }
    }
}

/// Where the file of settings of the user whose home directory is `home`
/// stands.
pub open spec fn env_file_for(home: Seq<char>) -> Seq<char> {
    home + "/.config/lfmc/.env"@
}

/// The file of settings that is read, if it is there, before the arguments
/// are.
pub fn env_file_path(home: &str) -> (path: String)
    ensures
        path@ == env_file_for(home@),
{
    let mut path = String::from_str(home);
    path.append("/.config/lfmc/.env");
    path
}

/// Appends `key=value` to `out`.
fn push_param(out: &mut String, key: &str, value: &str)
    ensures
        final(out)@ == old(out)@ + param(key@, value@),
{
    out.append(key);
    out.append("=");
    out.append(value);
}

impl Config {
    /// A configuration of the four values; none is checked or changed.
    pub fn new(api_key: String, username: String, limit: u16, period: String) -> (config: Self)
        ensures
            config@ == (ConfigView {
                api_key: api_key@,
                username: username@,
                limit,
                period: period@,
            }),
    {
        Config { api_key, username, limit, period }
    }

    /// The key that the service knows the caller by.
    pub fn api_key(&self) -> (text: &str)
        ensures
            text@ == self@.api_key,
    {
        self.api_key.as_str()
    }

    /// The user whose artists are asked for.
    pub fn username(&self) -> (text: &str)
        ensures
            text@ == self@.username,
    {
        self.username.as_str()
    }

    /// How many artists are asked for.
    pub fn limit(&self) -> (limit: u16)
        ensures
            limit == self@.limit,
    {
        self.limit
    }

    /// The code of the lookback period, valid or not.
    pub fn period(&self) -> (text: &str)
        ensures
            text@ == self@.period,
    {
        self.period.as_str()
    }

    /// Says whether both required texts are there: an empty API key is
    /// reported before an empty user name.
    pub fn validate(&self) -> (checked: Result<(), ConfigError>)
        ensures
            checked == validity(self@),
    {
        if self.api_key.as_str().is_empty() {
            Err(ConfigError::MissingField(ConfigField::ApiKey))
        } else if self.username.as_str().is_empty() {
            Err(ConfigError::MissingField(ConfigField::Username))
        } else {
            Ok(())
        }
    }

    /// The address of the one request that a run makes.
    pub fn get_uri(&self) -> (uri: String)
        ensures
            uri@ == uri_for(self@),
    {
        let user = percent_encode(self.username.as_str());
        let api_key = percent_encode(self.api_key.as_str());
        let period = percent_encode(self.period.as_str());
        let limit = decimal_string(self.limit);
        let mut uri = String::from_str("http://ws.audioscrobbler.com/");
        uri.append("2.0");
        uri.append("/");
        uri.append("?");
        push_param(&mut uri, "method", "user.gettopartists");
        uri.append("&");
        push_param(&mut uri, "user", user.as_str());
        uri.append("&");
        push_param(&mut uri, "api_key", api_key.as_str());
        uri.append("&");
        push_param(&mut uri, "format", "json");
        uri.append("&");
        push_param(&mut uri, "period", period.as_str());
        uri.append("&");
        push_param(&mut uri, "limit", limit.as_str());
        uri
    }
}

} // verus!
