//! The upload server's configuration: a configuration file's entries, if
//! there is a file, overridden by `BACKEND_`-prefixed environment variables,
//! decoded into typed fields.

use vstd::prelude::*;
use vstd::string::StrSliceExecFns;

verus! {

/// The configuration the upload server starts with.
#[derive(Clone, Debug)]
pub struct BackendConfig {
    pub bind_address: String,
    pub port: u16,
    pub database_connection_count: u32,
    pub database_url: String,
}

#[derive(Clone, Copy, Debug, PartialEq, Eq, Structural)]
pub enum ConfigKey {
    BindAddress,
    Port,
    DatabaseConnectionCount,
    DatabaseUrl,
}

#[derive(Clone, Copy, Debug, PartialEq, Eq, Structural)]
pub enum ConfigError {
    /// No layer gives the key a value.
    Missing(ConfigKey),
    /// The value is not a decimal number in the field's range.
    Invalid(ConfigKey),
}

/// The key's name in a configuration file.
pub open spec fn key_name(k: ConfigKey) -> Seq<char> {
    match k {
        ConfigKey::BindAddress => "bind_address"@,
        ConfigKey::Port => "port"@,
        ConfigKey::DatabaseConnectionCount => "database_connection_count"@,
        ConfigKey::DatabaseUrl => "database_url"@,
    }
}

/// The environment variable that overrides the key.
pub open spec fn env_name(k: ConfigKey) -> Seq<char> {
    match k {
        ConfigKey::BindAddress => "BACKEND_BIND_ADDRESS"@,
        ConfigKey::Port => "BACKEND_PORT"@,
        ConfigKey::DatabaseConnectionCount => "BACKEND_DATABASE_CONNECTION_COUNT"@,
        ConfigKey::DatabaseUrl => "BACKEND_DATABASE_URL"@,
    }
}

/// The value of the last entry named `name`, if any.
pub open spec fn lookup(entries: Seq<(String, String)>, name: Seq<char>) -> Option<Seq<char>>
    decreases entries.len(),
{
    if entries.len() == 0 {
        None
    } else if entries.last().0@ == name {
        Some(entries.last().1@)
    } else {
        lookup(entries.drop_last(), name)
    }
}

/// The key's value after layering: the environment first, then the file,
/// if there is one.
pub open spec fn layered(
    file: Option<Seq<(String, String)>>,
    env: Seq<(String, String)>,
    k: ConfigKey,
) -> Option<Seq<char>> {
    match lookup(env, env_name(k)) {
        Some(v) => Some(v),
        None => match file {
            Some(f) => lookup(f, key_name(k)),
            None => None,
        },
    }
}

pub open spec fn is_digit(c: char) -> bool {
    '0' <= c <= '9'
}

/// The number that a string of decimal digits denotes.
pub open spec fn decimal_value(s: Seq<char>) -> int
    decreases s.len(),
{
    if s.len() == 0 {
        0
    } else {
        decimal_value(s.drop_last()) * 10 + (s.last() as int - '0' as int)
    }
}

/// `s` is a non-empty string of decimal digits denoting at most `max`.
pub open spec fn is_decimal_at_most(s: Seq<char>, max: int) -> bool {
    &&& s.len() > 0
    &&& forall|i: int| 0 <= i < s.len() ==> is_digit(#[trigger] s[i])
    &&& decimal_value(s) <= max
}

/// The error, if any, that the key's layered value gives.
pub open spec fn key_error(v: Option<Seq<char>>, k: ConfigKey) -> Option<ConfigError> {
    match v {
        None => Some(ConfigError::Missing(k)),
        Some(s) => match k {
            ConfigKey::Port => if is_decimal_at_most(s, u16::MAX as int) {
                None
            } else {
                Some(ConfigError::Invalid(k))
            },
            ConfigKey::DatabaseConnectionCount => if is_decimal_at_most(s, u32::MAX as int) {
                None
            } else {
                Some(ConfigError::Invalid(k))
            },
            _ => None,
        },
    }
}

/// The first error, taking the keys in field order.
pub open spec fn first_error(
    file: Option<Seq<(String, String)>>,
    env: Seq<(String, String)>,
) -> Option<ConfigError> {
    let e0 = key_error(layered(file, env, ConfigKey::BindAddress), ConfigKey::BindAddress);
    let e1 = key_error(layered(file, env, ConfigKey::Port), ConfigKey::Port);
    let e2 = key_error(
        layered(file, env, ConfigKey::DatabaseConnectionCount),
        ConfigKey::DatabaseConnectionCount,
    );
    let e3 = key_error(layered(file, env, ConfigKey::DatabaseUrl), ConfigKey::DatabaseUrl);
    if e0 is Some {
        e0
    } else if e1 is Some {
        e1
    } else if e2 is Some {
        e2
    } else {
        e3
    }
}

pub open spec fn file_view(file: Option<&Vec<(String, String)>>) -> Option<Seq<(String, String)>> {
    match file {
        Some(f) => Some(f@),
        None => None,
    }
}

impl ConfigKey {
    pub fn name(&self) -> (s: String)
        ensures
            s@ == key_name(*self),
    {
        match self {
            ConfigKey::BindAddress => "bind_address".to_owned(),
            ConfigKey::Port => "port".to_owned(),
            ConfigKey::DatabaseConnectionCount => "database_connection_count".to_owned(),
            ConfigKey::DatabaseUrl => "database_url".to_owned(),
        }
    }

    pub fn env_name(&self) -> (s: String)
        ensures
            s@ == env_name(*self),
    {
        match self {
            ConfigKey::BindAddress => "BACKEND_BIND_ADDRESS".to_owned(),
            ConfigKey::Port => "BACKEND_PORT".to_owned(),
            ConfigKey::DatabaseConnectionCount => "BACKEND_DATABASE_CONNECTION_COUNT".to_owned(),
            ConfigKey::DatabaseUrl => "BACKEND_DATABASE_URL".to_owned(),
        }
    }
}

/// The value of the last entry named `name`.
pub fn find_entry(entries: &Vec<(String, String)>, name: &String) -> (r: Option<String>)
    ensures
        match r {
            Some(v) => lookup(entries@, name@) == Some(v@),
            None => lookup(entries@, name@) is None,
        },
{
    let mut found: Option<String> = None;
    let mut i: usize = 0;
    while i < entries.len()
        invariant
            i <= entries.len(),
            match found {
                Some(v) => lookup(entries@.take(i as int), name@) == Some(v@),
                None => lookup(entries@.take(i as int), name@) is None,
            },
        decreases entries.len() - i,
    {
        assert(entries@.take(i + 1).drop_last() =~= entries@.take(i as int));
        if entries[i].0 == *name {
            found = Some(entries[i].1.clone());
        }
        i = i + 1;
    }
    assert(entries@.take(entries.len() as int) =~= entries@);
    found
}

/// The value of `s` as a decimal number, if it is a non-empty string of
/// digits denoting at most `max`.
pub fn parse_decimal(s: &String, max: u64) -> (r: Option<u64>)
    ensures
        r is Some <==> is_decimal_at_most(s@, max as int),
        r matches Some(v) ==> v == decimal_value(s@),
{
    let text = s.as_str();
    let n = text.unicode_len();
    let mut value: u64 = 0;
    let mut over = false;
    let mut i: usize = 0;
    while i < n
        invariant
            n == s@.len(),
            text@ == s@,
            i <= n,
            forall|j: int| 0 <= j < i ==> is_digit(#[trigger] s@[j]),
            !over ==> value == decimal_value(s@.take(i as int)) && value <= max,
            over ==> decimal_value(s@.take(i as int)) > max,
        decreases n - i,
    {
        let c = text.get_char(i);
        if !('0' <= c && c <= '9') {
            return None;
        }
        let ghost before = decimal_value(s@.take(i as int));
        assert(s@.take(i + 1).drop_last() =~= s@.take(i as int));
        assert(decimal_value(s@.take(i + 1)) == before * 10 + (c as int - '0' as int));
        let d = (c as u32 - '0' as u32) as u64;
        if !over {
            if d > max || value > (max - d) / 10 {
                over = true;
                assert(value * 10 + d > max) by (nonlinear_arith)
                    requires
                        d > max || value > (max - d) / 10,
                        d <= 9,
                        value >= 0,
                ;
            } else {
                assert(value * 10 + d <= max) by (nonlinear_arith)
                    requires
                        value <= (max - d) / 10,
                        d <= max,
                ;
                value = value * 10 + d;
            }
        } else {
            assert(before * 10 + d > max) by (nonlinear_arith)
                requires
                    before > max,
                    d >= 0,
                    max >= 0,
            ;
        }
        i = i + 1;
    }
    assert(s@.take(n as int) =~= s@);
    if n == 0 || over {
        None
    } else {
        Some(value)
    }
}

/// The key's value after layering the environment over the file, if any.
pub fn layered_value(
    custom_file: Option<&Vec<(String, String)>>,
    environment: &Vec<(String, String)>,
    k: ConfigKey,
) -> (r: Option<String>)
    ensures
        match r {
            Some(v) => layered(file_view(custom_file), environment@, k) == Some(v@),
            None => layered(file_view(custom_file), environment@, k) is None,
        },
{
    match find_entry(environment, &k.env_name()) {
        Some(v) => Some(v),
        None => match custom_file {
            Some(f) => find_entry(f, &k.name()),
            None => None,
        },
    }
}

/// Reads the configuration from its layers: a configuration file's entries
/// (`None`: no file) under the process environment's entries. Fails with the first key, in field order, that is missing or
/// does not decode.
pub fn read_config(
    custom_file: Option<&Vec<(String, String)>>,
    environment: &Vec<(String, String)>,
) -> (r: Result<BackendConfig, ConfigError>)
    ensures
        r is Err <==> first_error(file_view(custom_file), environment@) is Some,
        r matches Err(e) ==> first_error(file_view(custom_file), environment@) == Some(e),
        r matches Ok(c) ==> {
            let file = file_view(custom_file);
            let env = environment@;
            &&& layered(file, env, ConfigKey::BindAddress) == Some(c.bind_address@)
            &&& layered(file, env, ConfigKey::Port) matches Some(p) && decimal_value(p)
                == c.port
            &&& layered(file, env, ConfigKey::DatabaseConnectionCount) matches Some(n)
                && decimal_value(n) == c.database_connection_count
            &&& layered(file, env, ConfigKey::DatabaseUrl) == Some(c.database_url@)
        },
{
    let bind_address = match layered_value(custom_file, environment, ConfigKey::BindAddress) {
        Some(v) => v,
        None => {
            return Err(ConfigError::Missing(ConfigKey::BindAddress));
        },
    };
    let port = match layered_value(custom_file, environment, ConfigKey::Port) {
        Some(v) => match parse_decimal(&v, 65535) {
            Some(n) => n as u16,
            None => {
                return Err(ConfigError::Invalid(ConfigKey::Port));
            },
        },
        None => {
            return Err(ConfigError::Missing(ConfigKey::Port));
        },
    };
    let database_connection_count = match layered_value(
        custom_file,
        environment,
        ConfigKey::DatabaseConnectionCount,
    ) {
        Some(v) => match parse_decimal(&v, 4294967295) {
            Some(n) => n as u32,
            None => {
                return Err(ConfigError::Invalid(ConfigKey::DatabaseConnectionCount));
            },
        },
        None => {
            return Err(ConfigError::Missing(ConfigKey::DatabaseConnectionCount));
        },
    };
    let database_url = match layered_value(custom_file, environment, ConfigKey::DatabaseUrl) {
        Some(v) => v,
        None => {
            return Err(ConfigError::Missing(ConfigKey::DatabaseUrl));
        },
    };
    Ok(BackendConfig { bind_address, port, database_connection_count, database_url })
}

} // verus!
