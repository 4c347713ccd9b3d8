//! The process configuration surface: which services are switched on, and the
//! addresses and ports they use.

use log::LevelFilter;
use vstd::prelude::*;

verus! {

/// The verbosity filter of the `log` crate: an enum of six plain variants,
/// from `Off` to `Trace`.
#[verifier::external_type_specification]
pub struct ExLevelFilter(log::LevelFilter);

/// The whole configuration. A section that is absent is treated as disabled.
#[derive(Debug, Clone)]
pub struct XiuConfig {
    pub rtmp: Option<RtmpConfig>,
    pub httpflv: Option<HttpFlvConfig>,
    pub hls: Option<HlsConfig>,
    pub log: Option<LogConfig>,
}

/// The inbound RTMP listener with its static relay targets.
#[derive(Debug, Clone)]
pub struct RtmpConfig {
    pub enabled: bool,
    pub port: Option<u32>,
    pub pull: Option<RtmpPullConfig>,
    pub push: Option<Vec<RtmpPushConfig>>,
}

/// The one remote server that streams may be pulled from.
#[derive(Debug, Clone)]
pub struct RtmpPullConfig {
    pub enabled: bool,
    pub address: String,
    pub port: u16,
}

/// A remote server that every published stream is pushed to.
#[derive(Debug, Clone)]
pub struct RtmpPushConfig {
    pub enabled: bool,
    pub address: String,
    pub port: u16,
}

#[derive(Debug, Clone)]
pub struct HttpFlvConfig {
    pub enabled: bool,
    pub port: Option<u32>,
}

#[derive(Debug, Clone)]
pub struct HlsConfig {
    pub enabled: bool,
    pub port: u32,
}

#[derive(Debug, Clone)]
pub struct LogConfig {
    pub level: LogLevel,
}

/// Log verbosity, from silent to most verbose.
#[derive(Debug, Copy, Clone, PartialEq, Eq, Structural)]
pub enum LogLevel {
    Off,
    Error,
    Warn,
    Info,
    Debug,
    Trace,
}

impl LogLevel {
    /// The filter of the `log` crate that lets through what this level
    /// asks for: the variant of the same name.
    pub open spec fn level_filter(self) -> LevelFilter {
        match self {
            LogLevel::Off => LevelFilter::Off,
            LogLevel::Error => LevelFilter::Error,
            LogLevel::Warn => LevelFilter::Warn,
            LogLevel::Info => LevelFilter::Info,
            LogLevel::Debug => LevelFilter::Debug,
            LogLevel::Trace => LevelFilter::Trace,
        }
    }

    /// Converts the level into the filter of the `log` crate.
    pub fn into(self) -> (filter: LevelFilter)
        ensures
            filter == self.level_filter(),
    {
        match self {
            LogLevel::Off => LevelFilter::Off,
            LogLevel::Error => LevelFilter::Error,
            LogLevel::Warn => LevelFilter::Warn,
            LogLevel::Info => LevelFilter::Info,
            LogLevel::Debug => LevelFilter::Debug,
            LogLevel::Trace => LevelFilter::Trace,
        }
    }
}

/// The port the RTMP listener binds when the configuration names none.
pub const DEFAULT_RTMP_PORT: u32 = 1935;

/// The port the HTTP-FLV responder binds when the configuration names none.
pub const DEFAULT_HTTPFLV_PORT: u32 = 8081;

impl RtmpConfig {
    /// The port that the listener binds.
    pub open spec fn spec_listen_port(self) -> u32 {
        match self.port {
            Some(p) => p,
            None => DEFAULT_RTMP_PORT,
        }
    }

    /// The port that the listener binds: the configured one, else 1935.
    pub fn listen_port(&self) -> (port: u32)
        ensures
            port == self.spec_listen_port(),
    {
        match self.port {
            Some(p) => p,
            None => DEFAULT_RTMP_PORT,
        }
    }
}

impl HttpFlvConfig {
    pub open spec fn spec_listen_port(self) -> u32 {
        match self.port {
            Some(p) => p,
            None => DEFAULT_HTTPFLV_PORT,
        }
    }

    /// The port that the responder binds: the configured one, else 8081.
    pub fn listen_port(&self) -> (port: u32)
        ensures
            port == self.spec_listen_port(),
    {
        match self.port {
            Some(p) => p,
            None => DEFAULT_HTTPFLV_PORT,
        }
    }
}

} // verus!
