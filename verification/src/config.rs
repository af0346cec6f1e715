//! Application configuration, built from name/value pairs (the host
//! program reads them from the environment).  In dev mode every option
//! has a default; in production the port, base URL and origin URL are
//! required.

use vstd::prelude::*;
use crate::errors::RitcherError;
use crate::num::{all_digits, dec_ms_opt, dec_val};
use crate::text::{str_eq, str_eq_ignore_case, eq_ignore_case, lower_seq};

verus! {

/// Ad provider selection.
#[derive(Clone, Copy, Debug, PartialEq, Eq, Structural)]
pub enum AdProviderType {
    /// Static ad provider using pre-configured segments.
    Static,
    /// VAST-based ad provider fetching from an ad server.
    Vast,
}

/// Manifest stitching strategy.
#[derive(Clone, Copy, Debug, PartialEq, Eq, Structural)]
pub enum StitchingMode {
    /// Replace content segments with ad segments.
    Ssai,
    /// Signal ad opportunities with interstitial DateRange tags.
    Sgai,
}

/// Session store backend selection.
#[derive(Clone, Copy, Debug, PartialEq, Eq, Structural)]
pub enum SessionStoreType {
    /// The in-memory concurrent map.
    Memory,
    /// A remote key-value store with native TTL.
    Remote,
}

/// Application configuration.  Durations are integer milliseconds.
#[derive(Clone, Debug)]
pub struct Config {
    pub port: u16,
    pub base_url: String,
    pub origin_url: String,
    pub is_dev: bool,
    pub stitching_mode: StitchingMode,
    pub ad_provider_type: AdProviderType,
    pub ad_source_url: String,
    pub ad_segment_duration_ms: u64,
    pub vast_endpoint: Option<String>,
    pub slate_url: Option<String>,
    pub slate_segment_duration_ms: u64,
    pub session_store: SessionStoreType,
    pub remote_store_url: Option<String>,
    pub session_ttl_secs: u64,
}

/// The value of the first pair with the given name, if any.
pub open spec fn var_of(vars: Seq<(Seq<char>, Seq<char>)>, name: Seq<char>) -> Option<Seq<char>>
    decreases vars.len(),
{
    if vars.len() == 0 {
        None
    } else if vars.first().0 == name {
        Some(vars.first().1)
    } else {
        var_of(vars.drop_first(), name)
    }
}

/// Dev mode: the DEV_MODE variable reads exactly `true`.
pub open spec fn dev_mode_of(vars: Seq<(Seq<char>, Seq<char>)>) -> bool {
    var_of(vars, "DEV_MODE"@) == Some("true"@)
}

/// The configured port: the PORT variable when it parses as a `u16`,
/// 3000 in dev mode when absent, an error otherwise.
pub open spec fn port_of(vars: Seq<(Seq<char>, Seq<char>)>, dev: bool) -> Option<u16> {
    match var_of(vars, "PORT"@) {
        Some(v) => if v.len() > 0 && all_digits(v) && dec_val(v) <= u16::MAX as nat {
            Some(dec_val(v) as u16)
        } else {
            None
        },
        None => if dev {
            Some(3000u16)
        } else {
            None
        },
    }
}

/// A string variable with a dev default: required in production.
pub open spec fn required_of(
    vars: Seq<(Seq<char>, Seq<char>)>,
    name: Seq<char>,
    dev: bool,
    default: Seq<char>,
) -> Option<Seq<char>> {
    match var_of(vars, name) {
        Some(v) => Some(v),
        None => if dev {
            Some(default)
        } else {
            None
        },
    }
}

/// A millisecond duration variable: its decimal-seconds value when it
/// parses and fits, else one second.
pub open spec fn duration_of(vars: Seq<(Seq<char>, Seq<char>)>, name: Seq<char>) -> u64 {
    match var_of(vars, name) {
        Some(v) => match dec_ms_opt(v) {
            Some(ms) => if ms <= u64::MAX as nat {
                ms as u64
            } else {
                1000u64
            },
            None => 1000u64,
        },
        None => 1000u64,
    }
}

/// The stitching mode: `sgai` (case-insensitively) selects SGAI,
/// anything else SSAI.
pub open spec fn mode_of(vars: Seq<(Seq<char>, Seq<char>)>) -> StitchingMode {
    match var_of(vars, "STITCHING_MODE"@) {
        Some(v) => if eq_ignore_case(v, "sgai"@) {
            StitchingMode::Sgai
        } else {
            StitchingMode::Ssai
        },
        None => StitchingMode::Ssai,
    }
}

/// The ad provider type: an explicit `vast` or `static` wins; anything
/// else auto-detects from the presence of a VAST endpoint.
pub open spec fn provider_of(vars: Seq<(Seq<char>, Seq<char>)>) -> AdProviderType {
    let auto = if var_of(vars, "VAST_ENDPOINT"@) is Some {
        AdProviderType::Vast
    } else {
        AdProviderType::Static
    };
    match var_of(vars, "AD_PROVIDER_TYPE"@) {
        Some(v) => if eq_ignore_case(v, "vast"@) {
            AdProviderType::Vast
        } else if eq_ignore_case(v, "static"@) {
            AdProviderType::Static
        } else {
            auto
        },
        None => auto,
    }
}

/// The session store: `remote` (case-insensitively) selects the remote
/// backend, anything else the in-memory one.
pub open spec fn store_of(vars: Seq<(Seq<char>, Seq<char>)>) -> SessionStoreType {
    match var_of(vars, "SESSION_STORE"@) {
        Some(v) => if eq_ignore_case(v, "remote"@) {
            SessionStoreType::Remote
        } else {
            SessionStoreType::Memory
        },
        None => SessionStoreType::Memory,
    }
}

/// The session TTL in seconds: the variable when it parses, else 300.
pub open spec fn ttl_of(vars: Seq<(Seq<char>, Seq<char>)>) -> u64 {
    match var_of(vars, "SESSION_TTL_SECS"@) {
        Some(v) => if v.len() > 0 && all_digits(v) && dec_val(v) <= u64::MAX as nat {
            dec_val(v) as u64
        } else {
            300u64
        },
        None => 300u64,
    }
}

/// The view of a variable list.
pub open spec fn vars_view(vars: Seq<(String, String)>) -> Seq<(Seq<char>, Seq<char>)> {
    vars.map_values(|p: (String, String)| (p.0@, p.1@))
}

impl Config {
    /// Build the configuration from name/value pairs.
    ///
    /// Fails with a `ConfigError` exactly when, outside dev mode, the
    /// port, base URL or origin URL is missing, or when a present PORT
    /// does not read as a 16-bit number.
    pub fn from_vars(vars: &Vec<(String, String)>) -> (r: Result<Config, RitcherError>)
        ensures
            match r {
                Ok(c) => {
                    let vs = vars_view(vars@);
                    let dev = dev_mode_of(vs);
                    &&& c.is_dev == dev
                    &&& Some(c.port) == port_of(vs, dev)
                    &&& Some(c.base_url@) == required_of(vs, "BASE_URL"@, dev,
                        "http://localhost:3000"@)
                    &&& Some(c.origin_url@) == required_of(vs, "ORIGIN_URL"@, dev,
                        "https://example.com"@)
                    &&& c.stitching_mode == mode_of(vs)
                    &&& c.ad_provider_type == provider_of(vs)
                    &&& (match c.vast_endpoint {
                        Some(v) => var_of(vs, "VAST_ENDPOINT"@) == Some(v@),
                        None => var_of(vs, "VAST_ENDPOINT"@) is None,
                    })
                    &&& (match var_of(vs, "AD_SOURCE_URL"@) {
                        Some(v) => c.ad_source_url@ == v,
                        None => c.ad_source_url@
                            == "https://hls.src.tedm.io/content/ts_h264_480p_1s"@,
                    })
                    &&& c.ad_segment_duration_ms == duration_of(vs, "AD_SEGMENT_DURATION"@)
                    &&& (match c.slate_url {
                        Some(v) => var_of(vs, "SLATE_URL"@) == Some(v@),
                        None => var_of(vs, "SLATE_URL"@) is None,
                    })
                    &&& c.slate_segment_duration_ms == duration_of(vs, "SLATE_SEGMENT_DURATION"@)
                    &&& c.session_store == store_of(vs)
                    &&& (match c.remote_store_url {
                        Some(v) => var_of(vs, "REMOTE_STORE_URL"@) == Some(v@),
                        None => var_of(vs, "REMOTE_STORE_URL"@) is None,
                    })
                    &&& c.session_ttl_secs == ttl_of(vs)
                    &&& c.ad_segment_duration_ms > 0
                    &&& c.slate_segment_duration_ms > 0
                },
                Err(e) => {
                    let vs = vars_view(vars@);
                    let dev = dev_mode_of(vs);
                    &&& e is ConfigError
                    &&& (port_of(vs, dev) is None || required_of(vs, "BASE_URL"@, dev,
                        "http://localhost:3000"@) is None || required_of(vs, "ORIGIN_URL"@, dev,
                        "https://example.com"@) is None || duration_of(vs, "AD_SEGMENT_DURATION"@)
                        == 0 || duration_of(vs, "SLATE_SEGMENT_DURATION"@) == 0)
                },
            },
    {
        let is_dev = match lookup(vars, "DEV_MODE") {
            Some(v) => str_eq(v.as_str(), "true"),
            None => false,
        };
        let port: u16 = match lookup(vars, "PORT") {
            Some(v) => match crate::num::parse_u64(v.as_str()) {
                Some(n) => {
                    if n <= u16::MAX as u64 {
                        n as u16
                    } else {
                        return Err(
                            RitcherError::ConfigError("PORT is not a valid port number".to_owned()),
                        );
                    }
                },
                None => {
                    return Err(
                        RitcherError::ConfigError("PORT is not a valid port number".to_owned()),
                    );
                },
            },
            None => {
                if is_dev {
                    3000
                } else {
                    return Err(
                        RitcherError::ConfigError("PORT is required in production".to_owned()),
                    );
                }
            },
        };
        let base_url: String = match lookup(vars, "BASE_URL") {
            Some(v) => v,
            None => {
                if is_dev {
                    "http://localhost:3000".to_owned()
                } else {
                    return Err(
                        RitcherError::ConfigError("BASE_URL is required in production".to_owned()),
                    );
                }
            },
        };
        let origin_url: String = match lookup(vars, "ORIGIN_URL") {
            Some(v) => v,
            None => {
                if is_dev {
                    "https://example.com".to_owned()
                } else {
                    return Err(
                        RitcherError::ConfigError(
                            "ORIGIN_URL is required in production".to_owned(),
                        ),
                    );
                }
            },
        };
        let stitching_mode = match lookup(vars, "STITCHING_MODE") {
            Some(v) => {
                if str_eq_ignore_case(v.as_str(), "sgai") {
                    StitchingMode::Sgai
                } else {
                    StitchingMode::Ssai
                }
            },
            None => StitchingMode::Ssai,
        };
        let vast_endpoint = lookup(vars, "VAST_ENDPOINT");
        let ad_provider_type = match lookup(vars, "AD_PROVIDER_TYPE") {
            Some(v) => {
                if str_eq_ignore_case(v.as_str(), "vast") {
                    AdProviderType::Vast
                } else if str_eq_ignore_case(v.as_str(), "static") {
                    AdProviderType::Static
                } else if vast_endpoint.is_some() {
                    AdProviderType::Vast
                } else {
                    AdProviderType::Static
                }
            },
            None => {
                if vast_endpoint.is_some() {
                    AdProviderType::Vast
                } else {
                    AdProviderType::Static
                }
            },
        };
        let ad_source_url = match lookup(vars, "AD_SOURCE_URL") {
            Some(v) => v,
            None => "https://hls.src.tedm.io/content/ts_h264_480p_1s".to_owned(),
        };
        let ad_segment_duration_ms = duration_var(vars, "AD_SEGMENT_DURATION");
        if ad_segment_duration_ms == 0 {
            return Err(
                RitcherError::ConfigError("AD_SEGMENT_DURATION must be positive".to_owned()),
            );
        }
        let slate_url = lookup(vars, "SLATE_URL");
        let slate_segment_duration_ms = duration_var(vars, "SLATE_SEGMENT_DURATION");
        if slate_segment_duration_ms == 0 {
            return Err(
                RitcherError::ConfigError("SLATE_SEGMENT_DURATION must be positive".to_owned()),
            );
        }
        let session_store = match lookup(vars, "SESSION_STORE") {
            Some(v) => {
                if str_eq_ignore_case(v.as_str(), "remote") {
                    SessionStoreType::Remote
                } else {
                    SessionStoreType::Memory
                }
            },
            None => SessionStoreType::Memory,
        };
        let remote_store_url = lookup(vars, "REMOTE_STORE_URL");
        let session_ttl_secs = match lookup(vars, "SESSION_TTL_SECS") {
            Some(v) => match crate::num::parse_u64(v.as_str()) {
                Some(n) => n,
                None => 300,
            },
            None => 300,
        };
        Ok(
            Config {
                port,
                base_url,
                origin_url,
                is_dev,
                stitching_mode,
                ad_provider_type,
                ad_source_url,
                ad_segment_duration_ms,
                vast_endpoint,
                slate_url,
                slate_segment_duration_ms,
                session_store,
                remote_store_url,
                session_ttl_secs,
            },
        )
    }
}

/// Look a variable up by name (first match).
fn lookup(vars: &Vec<(String, String)>, name: &str) -> (r: Option<String>)
    ensures
        match r {
            Some(v) => var_of(vars_view(vars@), name@) == Some(v@),
            None => var_of(vars_view(vars@), name@) is None,
        },
{
    let ghost vs = vars_view(vars@);
    let n = vars.len();
    let mut i: usize = 0;
    proof {
        assert(vs.subrange(0, n as int) =~= vs);
    }
    while i < n
        invariant
            n == vs.len(),
            vs == vars_view(vars@),
            0 <= i <= n,
            var_of(vs, name@) == var_of(vs.subrange(i as int, n as int), name@),
        decreases n - i,
    {
        proof {
            assert(vs[i as int] == (vars@[i as int].0@, vars@[i as int].1@));
            assert(vs.subrange(i as int, n as int).first() == vs[i as int]);
            assert(vs.subrange(i as int, n as int).drop_first() =~= vs.subrange(i + 1, n as int));
        }
        if str_eq(vars[i].0.as_str(), name) {
            return Some(vars[i].1.clone());
        }
        i += 1;
    }
    proof {
        assert(vs.subrange(n as int, n as int) =~= Seq::<(Seq<char>, Seq<char>)>::empty());
    }
    None
}

/// Read a duration variable as milliseconds, defaulting to one second.
fn duration_var(vars: &Vec<(String, String)>, name: &str) -> (r: u64)
    ensures
        r == duration_of(vars_view(vars@), name@),
{
    match lookup(vars, name) {
        Some(v) => match crate::num::parse_decimal_ms(v.as_str()) {
            Some(ms) => ms,
            None => 1000,
        },
        None => 1000,
    }
}

} // verus!
