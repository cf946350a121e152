//! How a file-backed store lays out and formats what it writes.
use vstd::prelude::*;

verus! {

#[derive(Clone, Copy, Debug, PartialEq, Eq, Structural)]
pub struct Config {
    /// Write indented JSON rather than compact JSON.
    pub pretty: bool,
    /// Spaces per level of indentation when `pretty` is set.
    pub indent: usize,
    /// Keep every record in one JSON object file rather than one file per record.
    pub single: bool,
}

impl Default for Config {
    fn default() -> (r: Config)
        ensures
            r == (Config { pretty: false, indent: 2, single: false }),
    {
        Config { pretty: false, indent: 2, single: false }
    }
}

} // verus!
