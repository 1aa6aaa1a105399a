//! The settings of the proxy, as read from the values given to it.

use crate::text::{decimal_up_to, parse_u128};
use crate::tracing::option_bytes;
use vstd::prelude::*;
use vstd::string::*;

verus! {

/// Slots sampled of every hundred where nothing is set.
pub const DEFAULT_SAMPLING_PERCENTAGE: usize = 0;

/// Seconds to wait for a connection where nothing is set.
pub const DEFAULT_CONNECT_TIMEOUT: usize = 30;

/// Seconds to keep an idle connection where nothing is set.
pub const DEFAULT_KEEPALIVE_TIMEOUT: usize = 60;

/// What the command line sets.
#[derive(Clone, Debug, PartialEq, Eq)]
pub struct App {
    /// How much is logged.
    pub level: String,
    /// The number of threads asked for.
    pub worker_thread: usize,
    /// The port the proxy listens on.
    pub port: u16,
}

impl Default for App {
    /// What holds where the command line sets nothing.
    fn default() -> (app: Self)
        ensures
            app.level@ == "INFO"@,
            app.worker_thread == 6,
            app.port == 80,
    {
        App { level: String::from_str("INFO"), worker_thread: 6, port: 80 }
    }
}

/// The settings of the proxy.
#[derive(Clone, Debug, PartialEq, Eq)]
pub struct Config {
    /// Where spans are reported to, if anywhere.
    pub tracing_udp: Option<String>,
    pub sampling_percentage: usize,
    /// The environment the proxy runs in.
    pub env_code: String,
    pub connect_timeout: usize,
    pub keepalive_timeout: usize,
}

/// The number that a setting gives: the number it writes in decimal, or the
/// default where it is not set or writes no number of the machine's size.
pub open spec fn setting_of(value: Option<Seq<u8>>, default: usize) -> usize {
    match value {
        Some(text) => match decimal_up_to(text, usize::MAX as nat) {
            Some(n) => n as usize,
            None => default,
        },
        None => default,
    }
}

/// The number that a setting gives, or the default.
pub fn parse_env_num(value: &Option<Vec<u8>>, default: usize) -> (n: usize)
    ensures
        n == setting_of(option_bytes(*value), default),
{
    match value {
        Some(text) => match parse_u128(text.as_slice()) {
            Some(n) => if n <= usize::MAX as u128 {
                n as usize
            } else {
                default
            },
            None => default,
        },
        None => default,
    }
}

impl Config {
    /// The settings that the given values make, with the defaults in place
    /// of the numbers that are not set.
    pub fn init(
        tracing_udp: Option<String>,
        sampling_percentage: &Option<Vec<u8>>,
        connect_timeout: &Option<Vec<u8>>,
        keepalive_timeout: &Option<Vec<u8>>,
        env_code: String,
    ) -> (config: Self)
        ensures
            config.tracing_udp == tracing_udp,
            config.env_code == env_code,
            config.sampling_percentage == setting_of(
                option_bytes(*sampling_percentage),
                DEFAULT_SAMPLING_PERCENTAGE,
            ),
            config.connect_timeout == setting_of(
                option_bytes(*connect_timeout),
                DEFAULT_CONNECT_TIMEOUT,
            ),
            config.keepalive_timeout == setting_of(
                option_bytes(*keepalive_timeout),
                DEFAULT_KEEPALIVE_TIMEOUT,
            ),
    {
        Config {
            tracing_udp,
            sampling_percentage: parse_env_num(sampling_percentage, DEFAULT_SAMPLING_PERCENTAGE),
            env_code,
            connect_timeout: parse_env_num(connect_timeout, DEFAULT_CONNECT_TIMEOUT),
            keepalive_timeout: parse_env_num(keepalive_timeout, DEFAULT_KEEPALIVE_TIMEOUT),
        }
    }
}

} // verus!
