//! Value-level pieces of the apex log sink: its configuration and
//! batching defaults.

use vstd::prelude::*;

verus! {

/// The configuration of the apex sink.
#[derive(Debug)]
pub struct ApexSinkConfig {
    pub uri: String,
    pub project_id: String,
    pub auth_token: Option<String>,
}

impl ApexSinkConfig {
    /// The example configuration shown to users.
    pub fn generate_config() -> (c: ApexSinkConfig)
        ensures
            c.uri@ == "https://10.22.212.22:9000/endpoint"@,
            c.project_id@ == Seq::<char>::empty(),
            c.auth_token is None,
    {
        ApexSinkConfig {
            uri: String::from_str("https://10.22.212.22:9000/endpoint"),
            project_id: String::new(),
            auth_token: None,
        }
    }
}

/// The default batching limits of the apex sink.
#[derive(Clone, Copy, PartialEq, Eq, Structural, Debug)]
pub struct ApexDefaultBatchSettings;

impl ApexDefaultBatchSettings {
    /// No limit on the number of events per batch.
    pub fn max_events() -> (r: Option<usize>)
        ensures
            r is None,
    {
        None
    }

    /// At most one hundred thousand bytes per batch.
    pub fn max_bytes() -> (r: Option<usize>)
        ensures
            r == Some(100000usize),
    {
        Some(100000)
    }

    /// Batches are flushed after five seconds.
    pub fn timeout_secs() -> (r: u64)
        ensures
            r == 5,
    {
        5
    }
}

} // verus!
