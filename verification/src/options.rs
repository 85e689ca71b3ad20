//! The options of a connection.
use vstd::prelude::*;

verus! {

/// Options for a signal stream connection.
#[derive(Debug)]
pub struct SignalStreamOptions {
    /// Skip TLS certificate verification.
    /// Useful for corporate networks with self-signed certificates.
    /// WARNING: this should only be used in trusted networks.
    pub skip_cert_verify: bool,
}

impl Default for SignalStreamOptions {
    /// The options that a plain `connect` uses: certificates are not verified.
    fn default() -> (options: Self)
        ensures
            options.skip_cert_verify,
    {
        SignalStreamOptions { skip_cert_verify: true }
    }
}

impl Clone for SignalStreamOptions {
    fn clone(&self) -> (options: Self)
        ensures
            options == *self,
    {
        SignalStreamOptions { skip_cert_verify: self.skip_cert_verify }
    }
}

impl SignalStreamOptions {
    /// Creates new options with certificate verification enabled.
    pub fn new() -> (options: Self)
        ensures
            !options.skip_cert_verify,
    {
        SignalStreamOptions { skip_cert_verify: false }
    }

    /// Sets whether to skip certificate verification.
    pub fn with_skip_cert_verify(self, skip: bool) -> (options: Self)
        ensures
            options.skip_cert_verify == skip,
    {
        SignalStreamOptions { skip_cert_verify: skip }
    }
}

} // verus!
