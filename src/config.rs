//! The library's configuration.
use vstd::prelude::*;

verus! {

/// The file name the configuration is read from by default.
pub const DEFAULT_CONFIG_FILE: &'static str = "raco.toml";

/// The configuration.
#[derive(Debug, Clone)]
pub struct CoreConfig {
    /// The directory that holds the library's data.
    pub data_dir: String,
}

impl CoreConfig {
    /// A configuration whose data directory is `data_dir`.
    pub fn new(data_dir: String) -> (r: CoreConfig)
        ensures
            r.data_dir == data_dir,
    {
        CoreConfig { data_dir }
    }
}

} // verus!
