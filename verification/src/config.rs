use vstd::prelude::*;

verus! {

/// The server's settings: the port it listens on, how much it logs,
/// whether it logs to the console, and the origin it is reached at.
#[derive(Debug, Clone)]
pub struct Config {
    pub port: u16,
    pub log_level: u8,
    pub console: bool,
    pub origin: String,
}

impl Config {
    /// The port the server listens on.
    pub fn port(&self) -> (r: u16)
        ensures
            r == self.port,
    {
        self.port
    }

    /// How much the server logs, from 0 (nothing) to 5 (everything).
    pub fn log_level(&self) -> (r: u8)
        ensures
            r == self.log_level,
    {
        self.log_level
    }

    /// Whether the log goes to the console rather than to a file.
    pub fn console(&self) -> (r: bool)
        ensures
            r == self.console,
    {
        self.console
    }
}

} // verus!
