//! Typed domain errors with their exit codes and messages.
use vstd::prelude::*;

verus! {

/// A domain error. Outside errors are carried as the plain facts the
/// library reads from them.
#[derive(Debug)]
pub enum YammmError {
    InvalidArgs(String),
    ModNotFound(String),
    DownloadFailed(String),
    HashMismatch { name: String, expected: String, actual: String },
    ConfigError(String),
    NetworkError(String),
    /// A failed HTTP request, by what kind of failure it was.
    NetworkRequest { timeout: bool, connect: bool, request: bool, message: String },
    IoError(String),
    /// An API client error, by the exit code and retry advice it carries.
    Api { exit_code: i32, retryable: bool, message: String },
    VersionConflict(String),
    CircularDependency { mod_id: String, chain: String },
    General(String),
}

/// The process exit code for an error.
pub open spec fn exit_code_spec(e: YammmError) -> i32 {
    match e {
        YammmError::General(_) => 1,
        YammmError::InvalidArgs(_) => 2,
        YammmError::ModNotFound(_) => 3,
        YammmError::DownloadFailed(_) | YammmError::HashMismatch { .. } => 4,
        YammmError::ConfigError(_) => 5,
        YammmError::NetworkError(_) | YammmError::NetworkRequest { .. } => 6,
        YammmError::IoError(_) => 7,
        YammmError::Api { exit_code, .. } => exit_code,
        YammmError::VersionConflict(_) => 9,
        YammmError::CircularDependency { .. } => 10,
    }
}

/// Whether retrying may help.
pub open spec fn is_retryable_spec(e: YammmError) -> bool {
    match e {
        YammmError::NetworkError(_) | YammmError::HashMismatch { .. } => true,
        YammmError::NetworkRequest { timeout, connect, request, .. } => timeout || connect
            || request,
        YammmError::Api { retryable, .. } => retryable,
        _ => false,
    }
}

impl YammmError {
    pub fn exit_code(&self) -> (c: i32)
        ensures
            c == exit_code_spec(*self),
    {
        match self {
            YammmError::General(_) => 1,
            YammmError::InvalidArgs(_) => 2,
            YammmError::ModNotFound(_) => 3,
            YammmError::DownloadFailed(_) | YammmError::HashMismatch { .. } => 4,
            YammmError::ConfigError(_) => 5,
            YammmError::NetworkError(_) | YammmError::NetworkRequest { .. } => 6,
            YammmError::IoError(_) => 7,
            YammmError::Api { exit_code, .. } => *exit_code,
            YammmError::VersionConflict(_) => 9,
            YammmError::CircularDependency { .. } => 10,
        }
    }

    pub fn is_retryable(&self) -> (b: bool)
        ensures
            b == is_retryable_spec(*self),
    {
        match self {
            YammmError::NetworkError(_) | YammmError::HashMismatch { .. } => true,
            YammmError::NetworkRequest { timeout, connect, request, .. } => *timeout || *connect
                || *request,
            YammmError::Api { retryable, .. } => *retryable,
            _ => false,
        }
    }

    pub fn invalid_args(msg: &str) -> (e: Self)
        ensures
            e matches YammmError::InvalidArgs(m) && m@ == msg@,
    {
        YammmError::InvalidArgs(String::from_str(msg))
    }

    pub fn mod_not_found(msg: &str) -> (e: Self)
        ensures
            e matches YammmError::ModNotFound(m) && m@ == msg@,
    {
        YammmError::ModNotFound(String::from_str(msg))
    }

    pub fn download_failed(msg: &str) -> (e: Self)
        ensures
            e matches YammmError::DownloadFailed(m) && m@ == msg@,
    {
        YammmError::DownloadFailed(String::from_str(msg))
    }

    pub fn config_error(msg: &str) -> (e: Self)
        ensures
            e matches YammmError::ConfigError(m) && m@ == msg@,
    {
        YammmError::ConfigError(String::from_str(msg))
    }

    pub fn network_error(msg: &str) -> (e: Self)
        ensures
            e matches YammmError::NetworkError(m) && m@ == msg@,
    {
        YammmError::NetworkError(String::from_str(msg))
    }

    pub fn version_conflict(msg: &str) -> (e: Self)
        ensures
            e matches YammmError::VersionConflict(m) && m@ == msg@,
    {
        YammmError::VersionConflict(String::from_str(msg))
    }

    pub fn circular_dep(mod_id: &str, chain: &str) -> (e: Self)
        ensures
            e matches YammmError::CircularDependency { mod_id: m, chain: c } && m@ == mod_id@
                && c@ == chain@,
    {
        YammmError::CircularDependency {
            mod_id: String::from_str(mod_id),
            chain: String::from_str(chain),
        }
    }

    pub fn general(msg: &str) -> (e: Self)
        ensures
            e matches YammmError::General(m) && m@ == msg@,
    {
        YammmError::General(String::from_str(msg))
    }

    pub fn hash_mismatch(name: &str, expected: &str, actual: &str) -> (e: Self)
        ensures
            e matches YammmError::HashMismatch { name: n, expected: x, actual: a } && n@ == name@
                && x@ == expected@ && a@ == actual@,
    {
        YammmError::HashMismatch {
            name: String::from_str(name),
            expected: String::from_str(expected),
            actual: String::from_str(actual),
        }
    }
}

/// The user-facing message of an error.
pub open spec fn error_message(e: YammmError) -> Seq<char> {
    match e {
        YammmError::InvalidArgs(m) => "invalid arguments: "@ + m@,
        YammmError::ModNotFound(m) => "mod not found: "@ + m@,
        YammmError::DownloadFailed(m) => "download failed: "@ + m@,
        YammmError::HashMismatch { name, expected, actual } => "hash mismatch for "@ + name@
            + ": expected "@ + expected@ + ", got "@ + actual@,
        YammmError::ConfigError(m) => "config error: "@ + m@,
        YammmError::NetworkError(m) => "network error: "@ + m@,
        YammmError::NetworkRequest { message, .. } => message@,
        YammmError::IoError(m) => "I/O error: "@ + m@,
        YammmError::Api { message, .. } => message@,
        YammmError::VersionConflict(m) => "version conflict: "@ + m@,
        YammmError::CircularDependency { mod_id, chain } => "circular dependency: "@ + mod_id@
            + " -> "@ + chain@,
        YammmError::General(m) => "error: "@ + m@,
    }
}

fn prefixed(prefix: &str, m: &String) -> (s: String)
    ensures
        s@ == prefix@ + m@,
{
    let mut s = String::from_str(prefix);
    s.append(m.as_str());
    s
}

impl YammmError {
    /// The user-facing message.
    pub fn to_string(&self) -> (s: String)
        ensures
            s@ == error_message(*self),
    {
        match self {
            YammmError::InvalidArgs(m) => prefixed("invalid arguments: ", m),
            YammmError::ModNotFound(m) => prefixed("mod not found: ", m),
            YammmError::DownloadFailed(m) => prefixed("download failed: ", m),
            YammmError::HashMismatch { name, expected, actual } => {
                let mut s = prefixed("hash mismatch for ", name);
                s.append(": expected ");
                s.append(expected.as_str());
                s.append(", got ");
                s.append(actual.as_str());
                s
            },
            YammmError::ConfigError(m) => prefixed("config error: ", m),
            YammmError::NetworkError(m) => prefixed("network error: ", m),
            YammmError::NetworkRequest { message, .. } => message.clone(),
            YammmError::IoError(m) => prefixed("I/O error: ", m),
            YammmError::Api { message, .. } => message.clone(),
            YammmError::VersionConflict(m) => prefixed("version conflict: ", m),
            YammmError::CircularDependency { mod_id, chain } => {
                let mut s = prefixed("circular dependency: ", mod_id);
                s.append(" -> ");
                s.append(chain.as_str());
                s
            },
            YammmError::General(m) => prefixed("error: ", m),
        }
    }
}

/// One cause in an error's chain, as the exit code reads it: a structured
/// error of this crate, a bare API client error with its exit code, a failed
/// HTTP request (whether it timed out or could not connect), or anything
/// else.
pub enum ChainCause {
    Structured(YammmError),
    Api { exit_code: i32 },
    Request { timeout_or_connect: bool },
    Other,
}

/// The exit code of the first structured cause (a crate error or a bare
/// API error), looking from the outermost cause inwards.
pub open spec fn first_structured_code(cs: Seq<ChainCause>) -> Option<i32>
    decreases cs.len(),
{
    if cs.len() == 0 {
        None
    } else {
        match cs[0] {
            ChainCause::Structured(e) => Some(exit_code_spec(e)),
            ChainCause::Api { exit_code } => Some(exit_code),
            _ => first_structured_code(cs.drop_first()),
        }
    }
}

/// Some cause is a request that timed out or could not connect.
pub open spec fn has_network_failure(cs: Seq<ChainCause>) -> bool {
    exists|i: int| 0 <= i < cs.len() && (#[trigger] cs[i]) matches ChainCause::Request { timeout_or_connect: true }
}

/// The process exit code for an error chain: the first structured cause
/// decides it; else a request that timed out or could not connect gives 6;
/// else 1.
pub fn chain_exit_code(causes: &[ChainCause]) -> (c: i32)
    ensures
        c == match first_structured_code(causes@) {
            Some(k) => k,
            None => if has_network_failure(causes@) {
                6i32
            } else {
                1i32
            },
        },
{
    let mut i: usize = 0;
    assert(causes@.skip(0) =~= causes@);
    while i < causes.len()
        invariant
            i <= causes@.len(),
            first_structured_code(causes@) == first_structured_code(causes@.skip(i as int)),
        decreases causes@.len() - i,
    {
        assert(causes@.skip(i as int)[0] == causes@[i as int]);
        assert(causes@.skip(i as int).drop_first() =~= causes@.skip(i as int + 1));
        match &causes[i] {
            ChainCause::Structured(e) => {
                return e.exit_code();
            },
            ChainCause::Api { exit_code } => {
                return *exit_code;
            },
            _ => {},
        }
        i += 1;
    }
    assert(causes@.skip(causes@.len() as int).len() == 0);
    let mut j: usize = 0;
    while j < causes.len()
        invariant
            j <= causes@.len(),
            first_structured_code(causes@) is None,
            forall|k: int| 0 <= k < j ==> !((#[trigger] causes@[k]) matches ChainCause::Request { timeout_or_connect: true }),
        decreases causes@.len() - j,
    {
        match &causes[j] {
            ChainCause::Request { timeout_or_connect } => {
                if *timeout_or_connect {
                    assert(causes@[j as int] matches ChainCause::Request { timeout_or_connect: true });
                    return 6;
                }
            },
            _ => {},
        }
        j += 1;
    }
    1
}

} // verus!
