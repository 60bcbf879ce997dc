//! Process configuration as a plain value: listen addresses, log verbosity,
//! and the optional comma-separated allow-list of base58 public keys.

use vstd::prelude::*;

verus! {

/// Read-only configuration consumed by the core at startup.
///
/// `authorized_keys` holds a comma-separated list of base58-encoded public
/// keys; an empty string means open mode (see [`crate::auth`]).
#[derive(Clone, Debug)]
pub struct Settings {
    /// `RUST_LOG`-compatible verbosity string.
    pub log: String,
    /// Listen address for HTTP ingress requests.
    pub http_listen: String,
    /// Listen address for streaming RPC registrations.
    pub grpc_listen: String,
    /// Listen address for metrics scrapes.
    pub metrics_listen: String,
    /// Comma-separated base58 public keys; empty selects open mode.
    pub authorized_keys: String,
}

/// Default log verbosity.
pub fn default_log() -> (r: String)
    ensures
        r@ == "INFO"@,
{
    "INFO".to_owned()
}

/// Default HTTP ingress listen address.
pub fn default_http_listen_addr() -> (r: String)
    ensures
        r@ == "0.0.0.0:80"@,
{
    "0.0.0.0:80".to_owned()
}

/// Default streaming RPC listen address.
pub fn default_grpc_listen_addr() -> (r: String)
    ensures
        r@ == "0.0.0.0:50051"@,
{
    "0.0.0.0:50051".to_owned()
}

/// Default metrics listen address.
pub fn default_metrics_listen_addr() -> (r: String)
    ensures
        r@ == "0.0.0.0:9000"@,
{
    "0.0.0.0:9000".to_owned()
}

/// Default allow-list: empty, which selects open mode.
pub fn default_authorized_keys() -> (r: String)
    ensures
        r@ == ""@,
{
    "".to_owned()
}

impl Settings {
    /// A settings value made entirely of the defaults above.
    pub fn defaulted() -> (s: Settings)
        ensures
            s.log@ == "INFO"@,
            s.http_listen@ == "0.0.0.0:80"@,
            s.grpc_listen@ == "0.0.0.0:50051"@,
            s.metrics_listen@ == "0.0.0.0:9000"@,
            s.authorized_keys@ == ""@,
    {
        Settings {
            log: default_log(),
            http_listen: default_http_listen_addr(),
            grpc_listen: default_grpc_listen_addr(),
            metrics_listen: default_metrics_listen_addr(),
            authorized_keys: default_authorized_keys(),
        }
    }
}

} // verus!
