//! Configuration the core consumes. It is supplied externally at process
//! start and handed to components at construction.

use vstd::prelude::*;

verus! {

/// Timeouts applied to each pooled outbound transport at creation time,
/// in milliseconds. Later configuration changes do not retroactively
/// affect already-pooled transports.
#[derive(Clone, Copy, PartialEq, Eq, Structural, Debug)]
pub struct ClientConfig {
    pub connect_timeout: u64,
    pub request_timeout: u64,
    pub keep_alive_timeout: u64,
}

impl Default for ClientConfig {
    fn default() -> (r: Self)
        ensures
            r.connect_timeout == 0,
            r.request_timeout == 0,
            r.keep_alive_timeout == 0,
    {
        ClientConfig { connect_timeout: 0, request_timeout: 0, keep_alive_timeout: 0 }
    }
}

} // verus!
