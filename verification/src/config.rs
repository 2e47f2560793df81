//! Configuration rules: the default settings, and the check every
//! operation starts with.
//!
//! The caller reads and writes the configuration file; this module decides
//! what a fresh configuration holds and which configurations are usable.

use vstd::prelude::*;
use crate::error::Error;
use crate::schemas::Config;

verus! {

/// The configuration written when none exists yet: the collection lives in
/// "mods" beside the tool, and no web API key is set.
pub fn default_config() -> (c: Config)
    ensures
        c@.collection_path == "mods"@,
        c@.steam_webapi_key.len() == 0,
{
    Config { collection_path: "mods".to_owned(), steam_webapi_key: String::new() }
}

/// A configuration is usable exactly when its web API key is non-empty;
/// without one, no operation may start.
pub fn validate_config(config: Config) -> (r: Result<Config, Error>)
    ensures
        config.steam_webapi_key@.len() > 0 ==> (r matches Ok(c) && c@ == config@),
        config.steam_webapi_key@.len() == 0 ==> r matches Err(Error::MissingWebApiKey()),
{
    if !config.steam_webapi_key.as_str().is_empty() {
        Ok(config)
    } else {
        Err(Error::MissingWebApiKey())
    }
}

} // verus!
