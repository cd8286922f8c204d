//! Server configuration.

use vstd::prelude::*;
use vstd::std_specs::convert::FromSpecImpl;

verus! {

/// The command line of the server, as parsed.
#[derive(Debug, Clone, PartialEq, Eq)]
pub struct Args {
    /// Host address to bind to.
    pub host: String,
    /// Port to listen on.
    pub port: u16,
    /// Language that recognition assumes where a request names none.
    pub default_language: String,
    /// Largest upload accepted, in bytes.
    pub max_file_size: usize,
    /// Directory of the training data, if given.
    pub tessdata_path: Option<String>,
    /// Log level.
    pub log_level: String,
}

/// What the server runs with.
#[derive(Debug, Clone, PartialEq, Eq)]
pub struct Config {
    /// Host address to bind to.
    pub host: String,
    /// Port to listen on.
    pub port: u16,
    /// Language that recognition assumes where a request names none.
    pub default_language: String,
    /// Largest upload accepted, in bytes.
    pub max_file_size: usize,
    /// Directory of the training data, if given.
    pub tessdata_path: Option<String>,
}

impl From<Args> for Config {
    fn from(args: Args) -> (config: Config) {
        Config {
            host: args.host,
            port: args.port,
            default_language: args.default_language,
            max_file_size: args.max_file_size,
            tessdata_path: args.tessdata_path,
        }
    }
}

impl FromSpecImpl<Args> for Config {
    open spec fn obeys_from_spec() -> bool {
        true
    }

    open spec fn from_spec(args: Args) -> Config {
        Config {
            host: args.host,
            port: args.port,
            default_language: args.default_language,
            max_file_size: args.max_file_size,
            tessdata_path: args.tessdata_path,
        }
    }
}

impl Config {
    /// The address that the server binds to: host, a colon and the port.
    pub fn address(&self) -> (address: String)
        ensures
            address@ == self.host@ + ":"@ + crate::text::decimal_digits(self.port as nat),
    {
        crate::text::concat3(
            self.host.as_str(),
            ":",
            crate::text::decimal(self.port as usize).as_str(),
        )
    }
}

} // verus!
