//! Synchronizes video clip metadata and content from a network video
//! recorder (NVR) into a local store, then derives preview thumbnails.
//!
//! The verified core is the four-stage pipeline: reconciliation of managed
//! files against the store, incremental time-windowed discovery of remote
//! clips, idempotent content download with identity assignment, and
//! thumbnail generation gated on download completion. Network, filesystem
//! and database plumbing live outside the library and feed it plain values.
use vstd::prelude::*;

pub mod cleanup;
pub mod discovery;
pub mod download;
pub mod errors;
pub mod isapi;
pub mod store;
pub mod text;
pub mod thumbnails;
pub mod token;

verus! {

/// Connection settings for the remote NVR: base URL and the credentials
/// used for digest authentication.
pub struct HiwatchConfig {
    pub url: String,
    pub user: String,
    pub password: String,
}

impl Clone for HiwatchConfig {
    fn clone(&self) -> (r: Self)
        ensures
            r.url@ == self.url@,
            r.user@ == self.user@,
            r.password@ == self.password@,
    {
        HiwatchConfig { url: self.url.clone(), user: self.user.clone(), password: self.password.clone() }
    }
}

} // verus!
