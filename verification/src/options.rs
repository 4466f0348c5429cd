use vstd::prelude::*;

verus! {

/// Options for configuring the HTTP client.
///
/// All durations are plain millisecond counts so that the engine's decisions
/// stay independent of any particular timer implementation; a surrounding
/// driver converts them into its own duration type.
#[derive(Clone, Copy, Debug, PartialEq, Eq, Structural)]
pub struct HttpClientOptions {
    /// Maximum number of retries for read operations.
    pub max_retries: usize,
    /// Timeout for socket operations, in milliseconds.
    pub socket_timeout_ms: u64,
    /// Delay between retry attempts, in milliseconds.
    pub retry_delay_ms: u64,
    /// Delay after closing a socket before proceeding, in milliseconds.
    pub socket_close_delay_ms: u64,
}

impl HttpClientOptions {
    /// The documented defaults: 5 retries, a 60 s socket timeout, a 200 ms
    /// retry delay and a 100 ms post-close delay.
    pub open spec fn spec_default() -> HttpClientOptions {
        HttpClientOptions {
            max_retries: 5,
            socket_timeout_ms: 60000,
            retry_delay_ms: 200,
            socket_close_delay_ms: 100,
        }
    }
}

impl Default for HttpClientOptions {
    /// Returns the documented default configuration.
    fn default() -> (r: Self)
        ensures
            r == HttpClientOptions::spec_default(),
    {
        HttpClientOptions {
            max_retries: 5,
            socket_timeout_ms: 60000,
            retry_delay_ms: 200,
            socket_close_delay_ms: 100,
        }
    }
}

/// Buffer sizes for read and write operations.
#[derive(Clone, Copy, Debug, PartialEq, Eq, Structural)]
pub struct BufferSize {
    /// Size of the read buffer.
    pub read: usize,
    /// Size of the write buffer.
    pub write: usize,
}

} // verus!
