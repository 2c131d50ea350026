//! What the user has chosen: a release channel and feature flags.

use std::collections::HashMap;
use vstd::prelude::*;

verus! {

/// The user's choices.
#[derive(Clone, Debug)]
pub struct AppConfig {
    /// The release channel whose version is installed and launched.
    pub channel: String,
    /// Feature flags, by name.
    pub fflags: HashMap<String, bool>,
}

impl Default for AppConfig {
    /// The choices of a user who has made none: the channel `LIVE` and no
    /// flags.
    fn default() -> (config: AppConfig)
        ensures
            config.channel@ == "LIVE"@,
            config.fflags@ == Map::<String, bool>::empty(),
    {
        AppConfig { channel: "LIVE".to_owned(), fflags: HashMap::new() }
    }
}

} // verus!
