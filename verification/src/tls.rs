//! When the TLS certificate of the gateway is to be loaded anew.
//!
//! Times are seconds on one clock; reading the clock and the files is the
//! caller's part.

use vstd::prelude::*;

verus! {

/// The TLS certificate and key files of the gateway, and the time up to
/// which their changes have been taken in.
#[derive(Debug)]
pub struct TlsConfig {
    pub cert: String,
    pub key: String,
    pub last_modified: u64,
}

/// The later of two times.
pub open spec fn later(one: u64, other: u64) -> u64 {
    if one >= other {
        one
    } else {
        other
    }
}

impl TlsConfig {
    /// A configuration that has taken in every change up to now.
    pub fn new(cert: String, key: String, now: u64) -> (config: TlsConfig)
        ensures
            config.cert == cert,
            config.key == key,
            config.last_modified == now,
    {
        TlsConfig { cert, key, last_modified: now }
    }

    /// Tells whether the files are to be loaded anew: they are when both
    /// could be looked at and the later of their changes is later than what
    /// has been taken in, which then moves up to it. The files' names stay.
    pub fn update_if_changed(
        &mut self,
        cert_modified: Option<u64>,
        key_modified: Option<u64>,
    ) -> (changed: bool)
        ensures
            final(self).cert == old(self).cert,
            final(self).key == old(self).key,
            changed == (cert_modified is Some && key_modified is Some && later(
                cert_modified->0,
                key_modified->0,
            ) > old(self).last_modified),
            final(self).last_modified == if changed {
                later(cert_modified->0, key_modified->0)
            } else {
                old(self).last_modified
            },
    {
        match (cert_modified, key_modified) {
            (Some(cert_time), Some(key_time)) => {
                let max_time = if cert_time >= key_time {
                    cert_time
                } else {
                    key_time
                };
                if max_time > self.last_modified {
                    self.last_modified = max_time;
                    true
                } else {
                    false
                }
            },
            _ => false,
        }
    }
}

} // verus!
