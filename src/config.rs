//! Settings kept between runs.

use vstd::prelude::*;

verus! {

/// Persisted settings.
#[derive(Debug, Clone, PartialEq, Eq)]
pub struct Config {
    /// The entries file used when a command names none.
    pub file: String,
}

impl Config {
    /// The entries file to use: the one a command names, else the configured one.
    pub fn resolve(&self, file: Option<String>) -> (r: String)
        ensures
            r@ == match file {
                Some(path) => path@,
                None => self.file@,
            },
    {
        match file {
            Some(path) => path,
            None => self.file.clone(),
        }
    }
}

} // verus!
