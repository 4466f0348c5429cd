//! The response accumulation state machine and the request preparation step.
//!
//! A surrounding driver owns the transport; the engine owns every decision.
//! The driver reads into the unfilled suffix of the response buffer, reports
//! each outcome as a [`ReadEvent`], and performs the [`AccumAction`] handed
//! back: read again, wait out the retry delay and read again, or stop.
//!
//! Retry policy: a failed read consumes one retry; once retries are
//! exhausted the loop stops and keeps whatever was accumulated (it does not
//! surface a transport error), and a run that accumulated nothing at all
//! fails with `NoResponse`.  The same policy applies over plain and secured
//! transports.

use crate::complete::{is_response_complete, spec_is_complete};
use crate::error::Error;
use crate::header::{spec_pairs, HttpHeader};
use crate::method::HttpMethod;
use crate::request::{
    build_http_request, buffer_bytes, spec_request_bytes, spec_request_capacity, RequestBuffer,
};
use crate::url::{parse_url, spec_parse_url, Endpoint};
use vstd::prelude::*;
use vstd::slice::slice_subrange;
use vstd::string::StringSliceAdditionalSpecFns;

verus! {

/// What one read attempt on the transport produced.
#[derive(Clone, Copy, Debug)]
pub enum ReadEvent {
    /// A read of zero bytes: the peer closed.
    Closed,
    /// This many bytes arrived into the unfilled suffix of the buffer.
    Data(usize),
    /// The read failed.
    Failed,
}

/// What the driver must do next.
#[derive(Clone, Copy, Debug, PartialEq, Eq, Structural)]
pub enum AccumAction {
    /// Attempt another read into the unfilled suffix.
    Proceed,
    /// Wait the configured retry delay, then read again.
    Wait,
    /// Stop reading and keep what was accumulated.
    Stop,
}

/// The accumulation state after an event: how many bytes are valid, how many
/// retries remain, and what to do next.
#[derive(Clone, Copy, Debug, PartialEq, Eq, Structural)]
pub struct AccumStep {
    /// The number of valid bytes at the front of the response buffer.
    pub filled: usize,
    /// The number of retries that remain for failed reads.
    pub retries: usize,
    /// What the driver must do next.
    pub action: AccumAction,
}

/// Whether another read should be attempted at all: only while the buffer
/// has room and retries remain.
pub fn accum_should_read(filled: usize, retries: usize, capacity: usize) -> (r: bool)
    ensures
        r == (filled < capacity && retries > 0),
{
    filled < capacity && retries > 0
}

/// Advances the accumulation state by one read event.
///
/// A close stops the loop and keeps what was accumulated.  Arrived data
/// extends the filled prefix and stops the loop exactly when that prefix is
/// a complete response.  A failure consumes one retry; the driver waits and
/// retries while any remain, and stops otherwise.
pub fn accum_on_event(buffer: &[u8], filled: usize, retries: usize, event: ReadEvent) -> (r:
    AccumStep)
    requires
        filled <= buffer@.len(),
        retries >= 1,
        event matches ReadEvent::Data(n) ==> filled + n <= buffer@.len(),
    ensures
        match event {
            ReadEvent::Closed => r == (AccumStep { filled, retries, action: AccumAction::Stop }),
            ReadEvent::Data(n) => {
                &&& r.filled == filled + n
                &&& r.retries == retries
                &&& r.action == if spec_is_complete(buffer@.subrange(0, filled + n)) {
                    AccumAction::Stop
                } else {
                    AccumAction::Proceed
                }
            },
            ReadEvent::Failed => {
                &&& r.filled == filled
                &&& r.retries == (retries - 1) as usize
                &&& r.action == if retries > 1 {
                    AccumAction::Wait
                } else {
                    AccumAction::Stop
                }
            },
        },
{
    let _cap = buffer.len();
    match event {
        ReadEvent::Closed => AccumStep { filled, retries, action: AccumAction::Stop },
        ReadEvent::Data(n) => {
            let new_filled = filled + n;
            let complete = is_response_complete(slice_subrange(buffer, 0, new_filled));
            AccumStep {
                filled: new_filled,
                retries,
                action: if complete {
                    AccumAction::Stop
                } else {
                    AccumAction::Proceed
                },
            }
        },
        ReadEvent::Failed => AccumStep {
            filled,
            retries: retries - 1,
            action: if retries > 1 {
                AccumAction::Wait
            } else {
                AccumAction::Stop
            },
        },
    }
}

/// Concludes accumulation: a run that accumulated nothing fails with
/// `NoResponse`; otherwise the filled length stands.
pub fn finish_accumulation(filled: usize) -> (r: Result<usize, Error>)
    ensures
        r == if filled == 0 {
            Err::<usize, Error>(Error::NoResponse)
        } else {
            Ok::<usize, Error>(filled)
        },
{
    if filled == 0 {
        Err(Error::NoResponse)
    } else {
        Ok(filled)
    }
}

/// Everything the engine decides before any I/O: the parsed endpoint and
/// the serialized request head.
pub struct PreparedRequest<'a> {
    /// The parsed endpoint: scheme kind, host, port and path.
    pub endpoint: Endpoint<'a>,
    /// The serialized request head, ready to be written to the transport.
    pub head: RequestBuffer,
}

/// Parses the endpoint, refuses schemes the driver cannot serve, and
/// serializes the request head — all before any name resolution or
/// connection could be attempted.
///
/// Fails with `InvalidUrl` exactly on an unrecognized scheme prefix, with
/// `UnsupportedScheme` exactly when the endpoint is secure and the driver
/// has no secure transport, and with `BufferOverflow` exactly when the head
/// exceeds the fixed request capacity.
pub fn prepare_request<'a>(
    method: HttpMethod,
    endpoint: &'a str,
    headers: &[HttpHeader<'_>],
    body: Option<&[u8]>,
    tls_enabled: bool,
) -> (r: Result<PreparedRequest<'a>, Error>)
    ensures
        ({
            let parsed = spec_parse_url(endpoint.spec_bytes());
            let blen = match body {
                Some(b) => Some(b@.len() as int),
                None => None::<int>,
            };
            match r {
                Ok(p) => {
                    &&& parsed == Some(
                        (
                            p.endpoint.secure,
                            p.endpoint.host.spec_bytes(),
                            p.endpoint.port,
                            p.endpoint.path.spec_bytes(),
                        ),
                    )
                    &&& (p.endpoint.secure ==> tls_enabled)
                    &&& ({
                        let wire = spec_request_bytes(
                            method,
                            p.endpoint.host.spec_bytes(),
                            p.endpoint.path.spec_bytes(),
                            spec_pairs(headers@),
                            blen,
                        );
                        buffer_bytes(p.head) == wire && wire.len() <= spec_request_capacity()
                    })
                },
                Err(e) => match parsed {
                    None => e == Error::InvalidUrl,
                    Some((secure, host, port, path)) => {
                        if secure && !tls_enabled {
                            e matches Error::UnsupportedScheme(m) && m@
                                == "https (TLS support not enabled)"@
                        } else {
                            e == Error::BufferOverflow && spec_request_bytes(
                                method,
                                host,
                                path,
                                spec_pairs(headers@),
                                blen,
                            ).len() > spec_request_capacity()
                        }
                    },
                },
            }
        }),
{
    let endpoint_parts = parse_url(endpoint)?;
    if endpoint_parts.secure && !tls_enabled {
        return Err(Error::UnsupportedScheme("https (TLS support not enabled)"));
    }
    let head = build_http_request(method, endpoint_parts.host, endpoint_parts.path, headers, body)?;
    Ok(PreparedRequest { endpoint: endpoint_parts, head })
}

} // verus!
