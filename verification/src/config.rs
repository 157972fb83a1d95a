//! The settings of the two programs, from the option values given on their
//! command lines.
use vstd::prelude::*;
use crate::direction::quot;
use crate::numparse::{
    lemma_signed_in_range, lemma_unsigned_in_range, parse_i64, parse_i64_spec, parse_u64,
    parse_unsigned_spec, parse_usize,
};

verus! {

/// Sender threads when none are asked for.
pub const DEFAULT_THREADS: usize = 4;

/// Nodes to wait for when no number is asked for.
pub const DEFAULT_NUM_NODES: usize = 1;

/// Transactions per batch when no number is asked for.
pub const DEFAULT_TX_COUNT: i64 = 500_000;

/// Seconds between two samples of a node's transaction count.
pub const SAMPLE_PERIOD_SECS: u64 = 1;

/// The option whose value could not be read as a number.
#[derive(PartialEq, Eq, Structural, Debug, Clone, Copy)]
pub enum ConfigError {
    Threads,
    NumNodes,
    Duration,
    TxCount,
    Slice,
    Cap,
}

/// The benchmark's settings.
#[derive(PartialEq, Eq, Structural, Debug, Clone, Copy)]
pub struct BenchConfig {
    pub threads: usize,
    pub num_nodes: usize,
    /// How long to run, in seconds; `u64::MAX` when no duration is asked for.
    pub duration_secs: u64,
    pub tx_count: i64,
    pub sustained: bool,
    pub reject_extra_nodes: bool,
    pub converge_only: bool,
}

/// The token service's settings: the length of a rate-limit interval and
/// the number of requests allowed in one.
#[derive(PartialEq, Eq, Structural, Debug, Clone, Copy)]
pub struct DroneConfig {
    pub time_slice_secs: Option<u64>,
    pub request_cap: Option<u64>,
}

pub open spec fn opt_view(text: Option<&[u8]>) -> Option<Seq<u8>> {
    match text {
        Some(t) => Some(t@),
        None => None,
    }
}

/// An unsigned setting: its default when the option is absent, else its value
/// read as a number no larger than `max` (`None` when that fails).
pub open spec fn unsigned_setting(text: Option<Seq<u8>>, max: int, default: int) -> Option<int> {
    match text {
        None => Some(default),
        Some(t) => parse_unsigned_spec(t, max),
    }
}

/// The signed setting of the batch size.
pub open spec fn tx_count_setting(text: Option<Seq<u8>>) -> Option<int> {
    match text {
        None => Some(DEFAULT_TX_COUNT as int),
        Some(t) => parse_i64_spec(t),
    }
}

/// The benchmark's settings, or the first option (in the order threads,
/// nodes, duration, batch size) whose value is not a number of its type.
pub open spec fn bench_config_spec(
    threads: Option<Seq<u8>>,
    num_nodes: Option<Seq<u8>>,
    duration: Option<Seq<u8>>,
    tx_count: Option<Seq<u8>>,
    sustained: bool,
    reject_extra_nodes: bool,
    converge_only: bool,
) -> Result<BenchConfig, ConfigError> {
    let t = unsigned_setting(threads, usize::MAX as int, DEFAULT_THREADS as int);
    let n = unsigned_setting(num_nodes, usize::MAX as int, DEFAULT_NUM_NODES as int);
    let d = unsigned_setting(duration, u64::MAX as int, u64::MAX as int);
    let c = tx_count_setting(tx_count);
    if t is None {
        Err(ConfigError::Threads)
    } else if n is None {
        Err(ConfigError::NumNodes)
    } else if d is None {
        Err(ConfigError::Duration)
    } else if c is None {
        Err(ConfigError::TxCount)
    } else {
        Ok(
            BenchConfig {
                threads: t->0 as usize,
                num_nodes: n->0 as usize,
                duration_secs: d->0 as u64,
                tx_count: c->0 as i64,
                sustained,
                reject_extra_nodes,
                converge_only,
            },
        )
    }
}

fn usize_setting(text: Option<&[u8]>, default: usize) -> (value: Option<usize>)
    ensures
        value is Some <==> unsigned_setting(opt_view(text), usize::MAX as int, default as int) is Some,
        value matches Some(v) ==> v == unsigned_setting(
            opt_view(text),
            usize::MAX as int,
            default as int,
        )->0,
{
    match text {
        None => Some(default),
        Some(t) => parse_usize(t),
    }
}

fn u64_setting(text: Option<&[u8]>, default: u64) -> (value: Option<u64>)
    ensures
        value is Some <==> unsigned_setting(opt_view(text), u64::MAX as int, default as int) is Some,
        value matches Some(v) ==> v == unsigned_setting(
            opt_view(text),
            u64::MAX as int,
            default as int,
        )->0,
{
    match text {
        None => Some(default),
        Some(t) => parse_u64(t),
    }
}

/// Reads the benchmark's options: the number of sender threads (default 4),
/// of nodes to wait for (default 1), the seconds to run (default unlimited)
/// and the batch size (default 500000), beside three flags.
pub fn bench_config(
    threads: Option<&[u8]>,
    num_nodes: Option<&[u8]>,
    duration: Option<&[u8]>,
    tx_count: Option<&[u8]>,
    sustained: bool,
    reject_extra_nodes: bool,
    converge_only: bool,
) -> (config: Result<BenchConfig, ConfigError>)
    ensures
        config == bench_config_spec(
            opt_view(threads),
            opt_view(num_nodes),
            opt_view(duration),
            opt_view(tx_count),
            sustained,
            reject_extra_nodes,
            converge_only,
        ),
{
    let t = match usize_setting(threads, DEFAULT_THREADS) {
        Some(v) => v,
        None => return Err(ConfigError::Threads),
    };
    let n = match usize_setting(num_nodes, DEFAULT_NUM_NODES) {
        Some(v) => v,
        None => return Err(ConfigError::NumNodes),
    };
    let d = match u64_setting(duration, u64::MAX) {
        Some(v) => v,
        None => return Err(ConfigError::Duration),
    };
    let c = match tx_count {
        None => DEFAULT_TX_COUNT,
        Some(text) => match parse_i64(text) {
            Some(v) => v,
            None => return Err(ConfigError::TxCount),
        },
    };
    Ok(
        BenchConfig {
            threads: t,
            num_nodes: n,
            duration_secs: d,
            tx_count: c,
            sustained,
            reject_extra_nodes,
            converge_only,
        },
    )
}

impl BenchConfig {
    /// How many accounts the benchmark generates: half the batch size,
    /// rounded toward zero.
    pub fn keypair_count(&self) -> (count: i64)
        ensures
            count == quot(self.tx_count as int, 2),
            self.tx_count >= 0 ==> count == self.tx_count / 2,
            self.tx_count < 0 ==> count == -((-self.tx_count) / 2),
    {
        self.tx_count / 2
    }
}

/// The token service's settings, or the first option (interval, then cap)
/// whose value is not a `u64`.
pub open spec fn drone_config_spec(slice: Option<Seq<u8>>, cap: Option<Seq<u8>>) -> Result<
    DroneConfig,
    ConfigError,
> {
    let s = match slice {
        None => Some(None::<int>),
        Some(t) => match parse_unsigned_spec(t, u64::MAX as int) {
            Some(v) => Some(Some(v)),
            None => None,
        },
    };
    let c = match cap {
        None => Some(None::<int>),
        Some(t) => match parse_unsigned_spec(t, u64::MAX as int) {
            Some(v) => Some(Some(v)),
            None => None,
        },
    };
    if s is None {
        Err(ConfigError::Slice)
    } else if c is None {
        Err(ConfigError::Cap)
    } else {
        Ok(
            DroneConfig {
                time_slice_secs: match s->0 {
                    Some(v) => Some(v as u64),
                    None => None,
                },
                request_cap: match c->0 {
                    Some(v) => Some(v as u64),
                    None => None,
                },
            },
        )
    }
}

/// Reads the token service's optional interval (seconds) and request cap.
pub fn drone_config(slice: Option<&[u8]>, cap: Option<&[u8]>) -> (config: Result<
    DroneConfig,
    ConfigError,
>)
    ensures
        config == drone_config_spec(opt_view(slice), opt_view(cap)),
{
    let time_slice_secs = match slice {
        None => None,
        Some(t) => match parse_u64(t) {
            Some(v) => Some(v),
            None => return Err(ConfigError::Slice),
        },
    };
    let request_cap = match cap {
        None => None,
        Some(t) => match parse_u64(t) {
            Some(v) => Some(v),
            None => return Err(ConfigError::Cap),
        },
    };
    Ok(DroneConfig { time_slice_secs, request_cap })
}

/// What the value of an unsigned option is: the option's text read as a
/// number of the type, or the default where the option is absent.
pub open spec fn option_value(text: Option<Seq<u8>>, max: int, default: int) -> Option<int> {
    match text {
        None => Some(default),
        Some(t) => parse_unsigned_spec(t, max),
    }
}

/// Each setting of the benchmark comes from its own option alone: the
/// settings are read when every option reads as a number, each field is its
/// option's number or default, and each flag is the flag passed in.
pub proof fn lemma_bench_settings_are_independent(
    threads: Option<Seq<u8>>,
    num_nodes: Option<Seq<u8>>,
    duration: Option<Seq<u8>>,
    tx_count: Option<Seq<u8>>,
    sustained: bool,
    reject_extra_nodes: bool,
    converge_only: bool,
)
    ensures
        ({
            let r = bench_config_spec(
                threads,
                num_nodes,
                duration,
                tx_count,
                sustained,
                reject_extra_nodes,
                converge_only,
            );
            let t = option_value(threads, usize::MAX as int, 4);
            let n = option_value(num_nodes, usize::MAX as int, 1);
            let d = option_value(duration, u64::MAX as int, u64::MAX as int);
            let c = match tx_count {
                None => Some(500_000int),
                Some(x) => parse_i64_spec(x),
            };
            &&& r is Ok <==> (t is Some && n is Some && d is Some && c is Some)
            &&& r matches Ok(cfg) ==> {
                &&& cfg.threads as int == t->0
                &&& cfg.num_nodes as int == n->0
                &&& cfg.duration_secs as int == d->0
                &&& cfg.tx_count as int == c->0
                &&& cfg.sustained == sustained
                &&& cfg.reject_extra_nodes == reject_extra_nodes
                &&& cfg.converge_only == converge_only
            }
        }),
{
    match threads {
        Some(x) => lemma_unsigned_in_range(x, usize::MAX as int),
        None => {},
    }
    match num_nodes {
        Some(x) => lemma_unsigned_in_range(x, usize::MAX as int),
        None => {},
    }
    match duration {
        Some(x) => lemma_unsigned_in_range(x, u64::MAX as int),
        None => {},
    }
    match tx_count {
        Some(x) => lemma_signed_in_range(x),
        None => {},
    }
}

/// The token service's interval and request cap each come from their own
/// option alone: absent gives none, present gives its number; the settings
/// are read when every given option reads as a `u64`.
pub proof fn lemma_drone_settings_are_independent(slice: Option<Seq<u8>>, cap: Option<Seq<u8>>)
    ensures
        ({
            let r = drone_config_spec(slice, cap);
            let s_ok = match slice {
                None => true,
                Some(t) => parse_unsigned_spec(t, u64::MAX as int) is Some,
            };
            let c_ok = match cap {
                None => true,
                Some(t) => parse_unsigned_spec(t, u64::MAX as int) is Some,
            };
            &&& r is Ok <==> (s_ok && c_ok)
            &&& r matches Ok(cfg) ==> {
                &&& (slice is None ==> cfg.time_slice_secs is None)
                &&& (cap is None ==> cfg.request_cap is None)
                &&& (slice matches Some(t) ==> cfg.time_slice_secs is Some
                    && cfg.time_slice_secs->0 as int == parse_unsigned_spec(t, u64::MAX as int)->0)
                &&& (cap matches Some(t) ==> cfg.request_cap is Some
                    && cfg.request_cap->0 as int == parse_unsigned_spec(t, u64::MAX as int)->0)
            }
        }),
{
    match slice {
        Some(x) => lemma_unsigned_in_range(x, u64::MAX as int),
        None => {},
    }
    match cap {
        Some(x) => lemma_unsigned_in_range(x, u64::MAX as int),
        None => {},
    }
}

} // verus!
