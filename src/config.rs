//! Where the rate table is kept.
use vstd::prelude::*;
use std::path::PathBuf;

verus! {

#[verifier::external_type_specification]
#[verifier::external_body]
pub struct ExPathBuf(PathBuf);

/// Knows the location of the rate-table file.
pub struct ConfigManager {
    config_path: PathBuf,
}

impl ConfigManager {
    pub closed spec fn path(&self) -> PathBuf {
        self.config_path
    }

    /// A manager for the rate-table file at `config_path`.
    pub fn from_path(config_path: PathBuf) -> (r: ConfigManager)
        ensures
            r.path() == config_path,
    {
        ConfigManager { config_path }
    }

    /// The location of the rate-table file.
    pub fn config_path(&self) -> (r: &PathBuf)
        ensures
            *r == self.path(),
    {
        &self.config_path
    }
}

} // verus!
