//! Process-wide configuration: the ordered list of mirror sources to race,
//! and the endpoints and credentials of the collaborating services. Loaded
//! once at process start by the surrounding binary and never mutated.

use vstd::prelude::*;

verus! {

/// One upstream mirror: its base URL and an optional forward proxy to route
/// requests through. Mirrors have no identity beyond their position in the
/// configured list.
pub struct SourceConfig {
    pub url: String,
    pub proxy: Option<String>,
}

impl Clone for SourceConfig {
    /// A field-for-field copy of the mirror description.
    fn clone(&self) -> (r: Self)
        ensures
            r == *self,
    {
        let proxy = match &self.proxy {
            Some(p) => Some(p.clone()),
            None => None,
        };
        SourceConfig { url: self.url.clone(), proxy }
    }
}

/// Everything the gateway needs from its environment: the ingress bearer
/// credential, the mirrors to race, the catalog service endpoint and
/// credential, and the conversion service endpoint and credential.
pub struct Config {
    pub api_key: String,
    pub fl_sources: Vec<SourceConfig>,
    pub book_library_api_key: String,
    pub book_library_url: String,
    pub converter_url: String,
    pub converter_api_key: String,
    pub sentry_dsn: String,
}

} // verus!
