//! Configuration model and its validation rules.  Loading the layered
//! configuration files is a collaborator's job; what the library owns
//! is the shape of a configuration and the rules that make one valid.
//! A configuration fault is fatal at startup, so validation names the
//! first rule broken.

use vstd::prelude::*;
use vstd::string::StringSliceAdditionalSpecFns;

verus! {

/// Possible runtime environment of the application.
pub enum Env {
    Development,
    Production,
}

/// Why a configuration is rejected, first broken rule wins.
#[derive(Clone, Copy, PartialEq, Eq, Structural, Debug)]
pub enum ConfigError {
    UnknownEnvironment,
    EmptyDbUsername,
    EmptyDbPassword,
    ZeroDbPort,
    EmptyDbHost,
    EmptyDbName,
    EmptyBaseUrl,
    EmptyApiKey,
}

/// The lower-case image of an ASCII byte.
pub open spec fn ascii_lower(b: u8) -> u8 {
    if 65 <= b <= 90 {
        (b + 32) as u8
    } else {
        b
    }
}

/// Whether two byte strings are equal up to ASCII case.
pub open spec fn eq_ignore_case(a: Seq<u8>, b: Seq<u8>) -> bool {
    a.len() == b.len() && forall|i: int|
        0 <= i < a.len() ==> ascii_lower(#[trigger] a[i]) == ascii_lower(b[i])
}

fn bytes_eq_ignore_case(a: &[u8], b: &[u8]) -> (r: bool)
    ensures
        r == eq_ignore_case(a@, b@),
{
    if a.len() != b.len() {
        return false;
    }
    let mut i: usize = 0;
    while i < a.len()
        invariant
            i <= a@.len(),
            a@.len() == b@.len(),
            forall|k: int| 0 <= k < i ==> ascii_lower(#[trigger] a@[k]) == ascii_lower(b@[k]),
        decreases a@.len() - i,
    {
        let ca = a[i];
        let cb = b[i];
        let la: u8 = if ca >= 65 && ca <= 90 {
            ca + 32
        } else {
            ca
        };
        let lb: u8 = if cb >= 65 && cb <= 90 {
            cb + 32
        } else {
            cb
        };
        if la != lb {
            assert(ascii_lower(a@[i as int]) != ascii_lower(b@[i as int]));
            return false;
        }
        i += 1;
    }
    true
}

/// What parsing an environment name yields: `dev` or `prod`, compared
/// without regard to ASCII case; anything else is rejected.
pub open spec fn spec_parse_env(b: Seq<u8>) -> Result<Env, ConfigError> {
    if eq_ignore_case(b, "dev".spec_bytes()) {
        Ok(Env::Development)
    } else if eq_ignore_case(b, "prod".spec_bytes()) {
        Ok(Env::Production)
    } else {
        Err(ConfigError::UnknownEnvironment)
    }
}

impl Env {
    /// The canonical name of the environment.
    pub fn as_str(&self) -> (r: &'static str)
        ensures
            match self {
                Env::Development => r@ == "dev"@,
                Env::Production => r@ == "prod"@,
            },
    {
        match self {
            Env::Development => "dev",
            Env::Production => "prod",
        }
    }

    /// Reads an environment name, without regard to ASCII case.
    pub fn try_from(s: &str) -> (r: Result<Env, ConfigError>)
        ensures
            match r {
                Ok(e) => spec_parse_env(s.spec_bytes()) == Ok::<Env, ConfigError>(e),
                Err(e) => spec_parse_env(s.spec_bytes()) == Err::<Env, ConfigError>(e),
            },
    {
        let b = s.as_bytes();
        let dev = crate::bytes::lit("dev");
        if bytes_eq_ignore_case(b, dev.as_slice()) {
            return Ok(Env::Development);
        }
        let prod = crate::bytes::lit("prod");
        if bytes_eq_ignore_case(b, prod.as_slice()) {
            return Ok(Env::Production);
        }
        Err(ConfigError::UnknownEnvironment)
    }
}

/// Connection settings of the relational store.
pub struct DbConfig {
    pub username: String,
    pub password: String,
    pub port: u16,
    pub host: String,
    pub database_name: String,
}

/// Settings of the served application.
pub struct AppConfig {
    pub port: u16,
    pub host: String,
    pub base_url: String,
}

/// Settings of the market-data provider: where to fetch and the key
/// sent with every request.
pub struct CoinMarketConfig {
    pub base_url: String,
    pub api_key: String,
}

/// The whole configuration.
pub struct Configuration {
    pub database: DbConfig,
    pub application: AppConfig,
    pub coin_market: CoinMarketConfig,
}

/// The rules a database configuration must meet, first broken first.
pub open spec fn spec_validate_db(c: DbConfig) -> Result<(), ConfigError> {
    if c.username@.len() == 0 {
        Err(ConfigError::EmptyDbUsername)
    } else if c.password@.len() == 0 {
        Err(ConfigError::EmptyDbPassword)
    } else if c.port == 0 {
        Err(ConfigError::ZeroDbPort)
    } else if c.host@.len() == 0 {
        Err(ConfigError::EmptyDbHost)
    } else if c.database_name@.len() == 0 {
        Err(ConfigError::EmptyDbName)
    } else {
        Ok(())
    }
}

/// The rules the provider settings must meet.
pub open spec fn spec_validate_coin_market(c: CoinMarketConfig) -> Result<(), ConfigError> {
    if c.base_url@.len() == 0 {
        Err(ConfigError::EmptyBaseUrl)
    } else if c.api_key@.len() == 0 {
        Err(ConfigError::EmptyApiKey)
    } else {
        Ok(())
    }
}

impl DbConfig {
    /// Checks the database settings: every name non-empty and the
    /// port non-zero.
    pub fn validate(&self) -> (r: Result<(), ConfigError>)
        ensures
            r == spec_validate_db(*self),
    {
        if self.username.as_str().is_empty() {
            return Err(ConfigError::EmptyDbUsername);
        }
        if self.password.as_str().is_empty() {
            return Err(ConfigError::EmptyDbPassword);
        }
        if self.port == 0 {
            return Err(ConfigError::ZeroDbPort);
        }
        if self.host.as_str().is_empty() {
            return Err(ConfigError::EmptyDbHost);
        }
        if self.database_name.as_str().is_empty() {
            return Err(ConfigError::EmptyDbName);
        }
        Ok(())
    }
}

impl CoinMarketConfig {
    /// Checks the provider settings: base URL and key non-empty.
    pub fn validate(&self) -> (r: Result<(), ConfigError>)
        ensures
            r == spec_validate_coin_market(*self),
    {
        if self.base_url.as_str().is_empty() {
            return Err(ConfigError::EmptyBaseUrl);
        }
        if self.api_key.as_str().is_empty() {
            return Err(ConfigError::EmptyApiKey);
        }
        Ok(())
    }
}

/// What validating a whole configuration yields: the database rules,
/// then the provider rules.
pub open spec fn spec_validate_config(c: Configuration) -> Result<(), ConfigError> {
    match spec_validate_db(c.database) {
        Err(e) => Err(e),
        Ok(_) => spec_validate_coin_market(c.coin_market),
    }
}

impl Configuration {
    /// Checks a whole configuration, naming the first broken rule.
    pub fn validate(&self) -> (r: Result<(), ConfigError>)
        ensures
            r == spec_validate_config(*self),
    {
        match self.database.validate() {
            Err(e) => Err(e),
            Ok(_) => self.coin_market.validate(),
        }
    }
}

} // verus!
