//! The configuration of a bot.

use vstd::prelude::*;
use vstd::string::StringExecFns;

verus! {

/// The delay between keepalive probes of a new configuration, in
/// milliseconds.
pub const DEFAULT_PING_DELAY: u64 = 30_000;

/// The name and token that a bot registers with, and the time without
/// traffic after which it probes the connection.
#[non_exhaustive]
#[derive(Debug, Clone)]
pub struct Config {
    pub name: String,
    pub token: String,
    /// The delay between keepalive probes, in milliseconds.
    pub ping_delay: u64,
}

impl Config {
    /// A configuration with the default delay of 30 seconds.
    pub fn new(name: &str, token: &str) -> (r: Config)
        ensures
            r.name@ == name@,
            r.token@ == token@,
            r.ping_delay == DEFAULT_PING_DELAY,
    {
        Config {
            name: String::from_str(name),
            token: String::from_str(token),
            ping_delay: DEFAULT_PING_DELAY,
        }
    }

    /// The same configuration with another delay, in milliseconds.
    pub fn with_ping_delay(self, delay: u64) -> (r: Config)
        ensures
            r.name == self.name,
            r.token == self.token,
            r.ping_delay == delay,
    {
        Config { name: self.name, token: self.token, ping_delay: delay }
    }
}

} // verus!
