//! `cache`: the size the cache is cleaned down to, and which HTTP metadata
//! entries `cache clear-http-meta` removes.
use vstd::prelude::*;
use crate::config::GlobalConfig;
use crate::errors::YammmError;
use crate::text::{chars_of, decimal, parse_u64_spec, u64_to_decimal};

verus! {

/// Metadata entries older than this many seconds count as stale (24 hours).
pub const DEFAULT_MAX_AGE_SECS: u64 = 86400;

/// The cache size, in bytes, that `cache clean` trims the cache down to: the
/// configured limit in megabytes (5000 by default). `None` when the limit
/// does not fit in 64 bits as bytes.
pub fn clean_threshold_bytes(config: &GlobalConfig) -> (r: Option<u64>)
    ensures
        ({
            let mb: int = match config.cache_max_size_mb {
                Some(v) => v as int,
                None => 5000,
            };
            match r {
                Some(b) => b == mb * 1048576,
                None => mb * 1048576 > u64::MAX,
            }
        }),
{
    let mb = config.cache_max_size_mb();
    mb.checked_mul(1048576)
}

/// The seconds a duration suffix stands for.
pub open spec fn unit_secs(c: char) -> int {
    if c == 's' {
        1
    } else if c == 'm' {
        60
    } else if c == 'h' {
        3600
    } else if c == 'd' {
        86400
    } else {
        0
    }
}

/// A duration: a positive whole number (as `u64::from_str` reads it) with
/// an optional `s`, `m`, `h` or `d` suffix (seconds when there is none), in
/// seconds, when it fits in 64 bits.
pub open spec fn duration_spec(s: Seq<char>) -> Option<u64> {
    let (digits, mult) = if s.len() > 0 && unit_secs(s.last()) > 0 {
        (s.drop_last(), unit_secs(s.last()))
    } else {
        (s, 1int)
    };
    match parse_u64_spec(digits) {
        Some(v) => if v == 0 || v * mult > u64::MAX {
            None
        } else {
            Some((v * mult) as u64)
        },
        None => None,
    }
}

/// The message for a duration that does not parse.
pub open spec fn bad_duration_message(s: Seq<char>) -> Seq<char> {
    "invalid --max-age '"@ + s + "': expected a positive number with an optional s, m, h or d suffix"@
}

/// Parses a duration such as `30s`, `5m`, `2h` or `7d` (see [`duration_spec`]).
pub fn parse_duration_secs(s: &str) -> (r: Option<u64>)
    ensures
        r == duration_spec(s@),
{
    let c = chars_of(s);
    let mut end = c.len();
    let mut mult: u64 = 1;
    if c.len() > 0 {
        let last = c[c.len() - 1];
        if last == 's' || last == 'm' || last == 'h' || last == 'd' {
            end = c.len() - 1;
            mult = if last == 's' {
                1
            } else if last == 'm' {
                60
            } else if last == 'h' {
                3600
            } else {
                86400
            };
        }
    }
    let digits = crate::text::sub_chars(&c, 0, end);
    assert(end < c.len() ==> digits@ =~= c@.drop_last());
    assert(end == c.len() ==> digits@ =~= c@);
    match crate::text::parse_u64(&digits) {
        None => None,
        Some(v) => {
            if v == 0 {
                return None;
            }
            v.checked_mul(mult)
        },
    }
}

/// What `cache clear-http-meta` removes.
#[derive(Clone, Copy, Debug, PartialEq, Eq, Structural)]
pub enum HttpMetaClear {
    /// Every entry.
    All,
    /// Entries past the default age.
    Stale,
    /// Entries older than this many seconds.
    OlderThan(u64),
}

/// The entries to remove: older than `--max-age` when it is given (it must
/// parse), the stale ones with `--stale`, else all of them.
pub fn http_meta_clear_plan(stale: bool, max_age: &Option<String>) -> (r: Result<HttpMetaClear, YammmError>)
    ensures
        match max_age {
            Some(s) => match duration_spec(s@) {
                Some(secs) => r == Ok::<HttpMetaClear, YammmError>(HttpMetaClear::OlderThan(secs)),
                None => r matches Err(YammmError::InvalidArgs(m)) && m@ == bad_duration_message(s@),
            },
            None => r == Ok::<HttpMetaClear, YammmError>(if stale {
                HttpMetaClear::Stale
            } else {
                HttpMetaClear::All
            }),
        },
{
    match max_age {
        Some(s) => match parse_duration_secs(s.as_str()) {
            Some(secs) => Ok(HttpMetaClear::OlderThan(secs)),
            None => {
                let mut m = String::from_str("invalid --max-age '");
                m.append(s.as_str());
                m.append("': expected a positive number with an optional s, m, h or d suffix");
                Err(YammmError::InvalidArgs(m))
            },
        },
        None => Ok(if stale {
            HttpMetaClear::Stale
        } else {
            HttpMetaClear::All
        }),
    }
}

/// How a pruning threshold is described.
pub open spec fn threshold_label(plan: HttpMetaClear) -> Seq<char> {
    match plan {
        HttpMetaClear::OlderThan(secs) => "older than "@ + decimal(secs as nat) + "s"@,
        _ => "stale (default 24h)"@,
    }
}

/// The message after pruning: the count with `entry`/`entries` and the threshold.
pub open spec fn pruned_message_spec(removed: u64, plan: HttpMetaClear) -> Seq<char> {
    "Pruned "@ + decimal(removed as nat) + " HTTP metadata entr"@ + (if removed == 1 {
        "y"@
    } else {
        "ies"@
    }) + " ("@ + threshold_label(plan) + ")."@
}

/// The message after pruning metadata entries.
pub fn pruned_message(removed: u64, plan: HttpMetaClear) -> (s: String)
    ensures
        s@ == pruned_message_spec(removed, plan),
{
    let mut s = String::from_str("Pruned ");
    let n = u64_to_decimal(removed);
    s.append(n.as_str());
    s.append(" HTTP metadata entr");
    s.append(if removed == 1 {
        "y"
    } else {
        "ies"
    });
    s.append(" (");
    match plan {
        HttpMetaClear::OlderThan(secs) => {
            s.append("older than ");
            let d = u64_to_decimal(secs);
            s.append(d.as_str());
            s.append("s");
        },
        _ => s.append("stale (default 24h)"),
    }
    s.append(").");
    s
}

} // verus!
