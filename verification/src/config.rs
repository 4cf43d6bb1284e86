//! Server configuration from its settings (`PORT`, `MAX_BODY_MB`,
//! `MAX_CONCURRENT`, `QUEUE_TIMEOUT_SECS`), with the defaults applied.
use vstd::prelude::*;
use crate::text::{chars_of, parse_unsigned, parse_unsigned_spec};

verus! {

/// Server configuration.
#[derive(Debug, Clone)]
pub struct Config {
    /// TCP port to listen on (default: 3000).
    pub port: u16,
    /// Maximum request body size in bytes (default: 100 MiB).
    pub max_body_bytes: usize,
    /// Max number of PDFs processed concurrently, at least 1 (default: number of CPUs).
    pub max_concurrent: usize,
    /// Seconds to wait for a processing slot (default: 60). When the server is
    /// at capacity, requests wait up to this long before being refused as busy.
    pub queue_timeout_secs: u64,
}

pub const DEFAULT_PORT: u16 = 3000;

pub const DEFAULT_MAX_BODY_MB: usize = 100;

pub const DEFAULT_QUEUE_TIMEOUT_SECS: u64 = 60;

/// Bytes in one MiB.
pub const MIB: usize = 1048576;

/// The value of a setting: its text read as an unsigned number no larger than
/// `max`, or `default` when the setting is absent or does not read that way.
pub open spec fn setting_value(raw: Option<String>, max: int, default: int) -> int {
    match raw {
        Some(s) => match parse_unsigned_spec(s@, max) {
            Some(v) => v,
            None => default,
        },
        None => default,
    }
}

/// Reads a setting as an unsigned number no larger than `max`.
fn read_setting(raw: &Option<String>, max: u64) -> (r: Option<u64>)
    ensures
        match r {
            Some(v) => raw matches Some(s) && parse_unsigned_spec(s@, max as int) == Some(
                v as int,
            ),
            None => raw is None || (raw matches Some(s) && parse_unsigned_spec(
                s@,
                max as int,
            ) is None),
        },
{
    match raw {
        Some(s) => {
            let chars = chars_of(s.as_str());
            assert(chars@.subrange(0, chars@.len() as int) =~= s@);
            parse_unsigned(&chars, 0, chars.len(), max)
        },
        None => None,
    }
}

impl Config {
    /// A configuration is usable when at least one document can be processed at a time.
    pub open spec fn wf(self) -> bool {
        self.max_concurrent >= 1
    }

    /// The configuration that the settings give, with `cpus` the number of CPUs.
    /// A `MAX_CONCURRENT` of `0`, or one that does not read as a number, means the
    /// number of CPUs; the body limit saturates at the largest `usize`.
    pub fn from_settings(
        port: Option<String>,
        max_body_mb: Option<String>,
        max_concurrent: Option<String>,
        queue_timeout_secs: Option<String>,
        cpus: usize,
    ) -> (config: Config)
        requires
            cpus >= 1,
        ensures
            config.wf(),
            config.port == setting_value(port, u16::MAX as int, DEFAULT_PORT as int),
            config.max_body_bytes == ({
                let mb: int = setting_value(max_body_mb, usize::MAX as int, DEFAULT_MAX_BODY_MB as int);
                if mb * MIB > usize::MAX {
                    usize::MAX as int
                } else {
                    mb * MIB
                }
            }),
            config.max_concurrent == ({
                let n: int = setting_value(max_concurrent, usize::MAX as int, 0);
                if n == 0 {
                    cpus as int
                } else {
                    n
                }
            }),
            config.queue_timeout_secs == setting_value(
                queue_timeout_secs,
                u64::MAX as int,
                DEFAULT_QUEUE_TIMEOUT_SECS as int,
            ),
    {
        let port: u16 = match read_setting(&port, 0xffff) {
            Some(v) => v as u16,
            None => DEFAULT_PORT,
        };
        let mb: usize = match read_setting(&max_body_mb, usize::MAX as u64) {
            Some(v) => v as usize,
            None => DEFAULT_MAX_BODY_MB,
        };
        let max_body_bytes: usize = match mb.checked_mul(MIB) {
            Some(b) => b,
            None => usize::MAX,
        };
        let max_concurrent: usize = match read_setting(&max_concurrent, usize::MAX as u64) {
            Some(v) => {
                if v == 0 {
                    cpus
                } else {
                    v as usize
                }
            },
            None => cpus,
        };
        let queue_timeout_secs: u64 = match read_setting(&queue_timeout_secs, u64::MAX) {
            Some(v) => v,
            None => DEFAULT_QUEUE_TIMEOUT_SECS,
        };
        Config { port, max_body_bytes, max_concurrent, queue_timeout_secs }
    }
}

} // verus!
