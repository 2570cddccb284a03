//! Settings of a build, passed along explicitly.

use vstd::prelude::*;
use vstd::string::*;

verus! {

broadcast use vstd::string::group_string_axioms;

/// What the user asked for on the command line.
#[derive(Debug)]
pub struct Config {
    pub debug: bool,
}

impl Default for Config {
    fn default() -> (config: Config)
        ensures
            !config.debug,
    {
        Config { debug: false }
    }
}

impl Config {
    /// Settings with debug output switched on or off.
    pub fn new(debug: bool) -> (config: Config)
        ensures
            config.debug == debug,
    {
        Config { debug }
    }

    /// The line to print for a debug message: `DEBUG: ` and the message
    /// where debug output is on, nothing where it is off.
    pub fn debug_line(&self, msg: &str) -> (line: Option<String>)
        ensures
            crate::text::opt_string_view(line) == (if self.debug {
                Some("DEBUG: "@ + msg@)
            } else {
                None
            }),
    {
        if self.debug {
            Some(String::from_str("DEBUG: ").concat(msg))
        } else {
            None
        }
    }
}

} // verus!
