//! Where the components of the cluster find the API server.

use vstd::prelude::*;

verus! {

/// The addresses of the API server.
#[derive(Clone, Debug, PartialEq)]
pub struct ClusterConfig {
    /// API server URL
    pub api_server_url: String,
    /// API server watch URL
    pub api_server_watch_url: String,
}

impl ClusterConfig {
    /// The API server on this machine, port 8080.
    pub fn default() -> (r: ClusterConfig)
        ensures
            r.api_server_url@ == "http://localhost:8080"@,
            r.api_server_watch_url@ == "ws://localhost:8080"@,
    {
        ClusterConfig {
            api_server_url: crate::text::to_owned_string("http://localhost:8080"),
            api_server_watch_url: crate::text::to_owned_string("ws://localhost:8080"),
        }
    }

    /// Where the objects under `path` (a plural such as `pods`) are listed.
    pub fn list_url(&self, path: &str) -> (r: String)
        ensures
            r@ == self.api_server_url@ + "/api/v1/"@ + path@,
    {
        let mut r = self.api_server_url.clone();
        crate::text::push_str(&mut r, "/api/v1/");
        crate::text::push_str(&mut r, path);
        r
    }

    /// Where the objects under `path` (a plural such as `pods`) are watched.
    pub fn watch_url(&self, path: &str) -> (r: String)
        ensures
            r@ == self.api_server_watch_url@ + "/api/v1/watch/"@ + path@,
    {
        let mut r = self.api_server_watch_url.clone();
        crate::text::push_str(&mut r, "/api/v1/watch/");
        crate::text::push_str(&mut r, path);
        r
    }
}

} // verus!
