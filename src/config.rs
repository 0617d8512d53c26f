//! Settings of the service, assembled from the values of its environment
//! variables (the caller reads the environment).

use vstd::prelude::*;
use vstd::string::*;

verus! {

pub struct Config {
    pub database_url: String,
    pub redis_url: String,
    pub server_host: String,
    pub server_port: u16,
}

#[derive(Clone, Debug, PartialEq, Eq)]
pub enum ConfigError {
    /// The named variable is required and was not set.
    MissingVar(String),
}

pub const DEFAULT_PORT: u16 = 3000;

pub open spec fn is_decimal_digit(c: char) -> bool {
    48 <= (c as u32) && (c as u32) <= 57
}

pub open spec fn decimal_value(s: Seq<char>) -> nat
    decreases s.len(),
{
    if s.len() == 0 {
        0
    } else {
        10 * decimal_value(s.drop_last()) + ((s.last() as u32) - 48) as nat
    }
}

/// What `u16`'s `FromStr` gives: an optional `+` followed by at least one
/// decimal digit and nothing else, of a value that fits.
pub open spec fn port_value(s: Seq<char>) -> Option<u16> {
    let digits = if s.len() > 0 && s[0] == '+' {
        s.drop_first()
    } else {
        s
    };
    if digits.len() > 0 && (forall|i: int| 0 <= i < digits.len() ==> is_decimal_digit(#[trigger] digits[i]))
        && decimal_value(digits) <= 65535 {
        Some(decimal_value(digits) as u16)
    } else {
        None
    }
}

/// Relies on `<u16 as core::str::FromStr>::from_str`, which takes an optional
/// `+` and decimal digits, and fails on anything else or on overflow.
#[verifier::external_body]
fn parse_port(s: &str) -> (r: Option<u16>)
    ensures
        r == port_value(s@),
{
    s.parse::<u16>().ok()
}

pub open spec fn message_of(e: ConfigError) -> Seq<char> {
    match e {
        ConfigError::MissingVar(var) => "Missing environment variable: "@ + var@,
    }
}

impl ConfigError {
    /// The human-readable text of the error.
    pub fn message(&self) -> (r: String)
        ensures
            r@ == message_of(*self),
    {
        match self {
            ConfigError::MissingVar(var) => {
                let r = String::from_str("Missing environment variable: ");
                r.concat(var.as_str())
            },
        }
    }
}

impl Config {
    /// Builds the settings from the variables `DATABASE_URL`, `REDIS_URL`,
    /// `SERVER_HOST` and `SERVER_PORT` (`None` where unset). The two URLs are
    /// required; the host defaults to `127.0.0.1` and the port to 3000, also
    /// when the port text is not a valid port.
    pub fn from_values(
        database_url: Option<String>,
        redis_url: Option<String>,
        server_host: Option<String>,
        server_port: Option<String>,
    ) -> (r: Result<Config, ConfigError>)
        ensures
            database_url is None ==> r is Err && r->Err_0->MissingVar_0@ == "DATABASE_URL"@,
            database_url is Some && redis_url is None ==> r is Err && r->Err_0->MissingVar_0@
                == "REDIS_URL"@,
            database_url is Some && redis_url is Some ==> r is Ok && r->Ok_0.database_url
                == database_url->0 && r->Ok_0.redis_url == redis_url->0 && r->Ok_0.server_host@
                == (match server_host {
                Some(h) => h@,
                None => "127.0.0.1"@,
            }) && r->Ok_0.server_port == (match server_port {
                Some(p) => match port_value(p@) {
                    Some(v) => v,
                    None => DEFAULT_PORT,
                },
                None => DEFAULT_PORT,
            }),
    {
        let database_url = match database_url {
            Some(v) => v,
            None => { return Err(ConfigError::MissingVar(String::from_str("DATABASE_URL"))); },
        };
        let redis_url = match redis_url {
            Some(v) => v,
            None => { return Err(ConfigError::MissingVar(String::from_str("REDIS_URL"))); },
        };
        let server_host = match server_host {
            Some(h) => h,
            None => String::from_str("127.0.0.1"),
        };
        let server_port = match server_port {
            Some(p) => match parse_port(p.as_str()) {
                Some(v) => v,
                None => DEFAULT_PORT,
            },
            None => DEFAULT_PORT,
        };
        Ok(Config { database_url, redis_url, server_host, server_port })
    }
}

} // verus!
