//! Request/response transports between the daemon's parts: their settings,
//! their errors, the length check of a frame, and the rule that a responder
//! answers each request once before it takes the next.
//!
//! The channels and sockets are the program's; it asks these functions
//! before each step.
use vstd::prelude::*;
use crate::ipc::le32;
use crate::number::{dec, usize_to_string};
use crate::text::concat;

verus! {

/// The largest frame a transport carries by default: 64 MiB.
pub const DEFAULT_MAX_FRAME_SIZE: usize = 67108864;

/// Makes transports of a kind from their settings.
pub trait TransportProvider: Sized {
    type Config;

    fn new(config: Self::Config) -> Self;
}

/// The entry point to the transports.
pub struct Transport;

impl Transport {
    /// The provider of kind `P` with the settings `config`.
    pub fn provide<P: TransportProvider>(config: P::Config) -> (r: P) {
        P::new(config)
    }
}

/// Settings of the in-process transport.
#[derive(Debug, Clone, Copy, PartialEq, Eq, Structural)]
pub struct InProcTransportConfig {
    pub channel_capacity: usize,
}

/// Makes in-process requester and responder pairs.
#[derive(Debug, Clone, Copy, PartialEq, Eq, Structural)]
pub struct InProcTransportProvider {
    config: InProcTransportConfig,
}

impl InProcTransportProvider {
    pub closed spec fn settings(&self) -> InProcTransportConfig {
        self.config
    }

    /// The settings this provider was made with.
    pub fn config(&self) -> (r: InProcTransportConfig)
        ensures
            r == self.settings(),
    {
        self.config
    }
}

impl TransportProvider for InProcTransportProvider {
    type Config = InProcTransportConfig;

    fn new(config: InProcTransportConfig) -> (r: Self)
        ensures
            r.settings() == config,
    {
        InProcTransportProvider { config }
    }
}

/// How frames are read and written: their largest size and the timeouts,
/// in milliseconds, where there are any.
#[derive(Debug, Clone, Copy, PartialEq, Eq, Structural)]
pub struct TransportConfig {
    pub max_frame_size: usize,
    pub read_timeout_millis: Option<u64>,
    pub write_timeout_millis: Option<u64>,
}

impl Default for TransportConfig {
    fn default() -> (r: Self)
        ensures
            r.max_frame_size == DEFAULT_MAX_FRAME_SIZE,
            r.read_timeout_millis is None,
            r.write_timeout_millis is None,
    {
        TransportConfig { max_frame_size: DEFAULT_MAX_FRAME_SIZE, read_timeout_millis: None, write_timeout_millis: None }
    }
}

/// Settings of the Unix-socket transport; times are in milliseconds.
#[derive(Debug, Clone, Copy, PartialEq, Eq, Structural)]
pub struct UdsTransportConfig {
    pub framing: TransportConfig,
    pub connect_timeout_millis: u64,
    pub request_timeout_millis: Option<u64>,
    pub request_queue_capacity: usize,
}

impl Default for UdsTransportConfig {
    fn default() -> (r: Self)
        ensures
            r.framing.max_frame_size == DEFAULT_MAX_FRAME_SIZE,
            r.framing.read_timeout_millis is None,
            r.framing.write_timeout_millis is None,
            r.connect_timeout_millis == 10000,
            r.request_timeout_millis == Some(10000u64),
            r.request_queue_capacity == 64,
    {
        UdsTransportConfig {
            framing: TransportConfig::default(),
            connect_timeout_millis: 10000,
            request_timeout_millis: Some(10000),
            request_queue_capacity: 64,
        }
    }
}

/// Makes Unix-socket requesters and responders.
#[derive(Debug, Clone, Copy, PartialEq, Eq, Structural)]
pub struct UdsTransportProvider {
    config: UdsTransportConfig,
}

impl UdsTransportProvider {
    pub closed spec fn settings(&self) -> UdsTransportConfig {
        self.config
    }

    /// The settings this provider was made with.
    pub fn config(&self) -> (r: UdsTransportConfig)
        ensures
            r == self.settings(),
    {
        self.config
    }
}

impl TransportProvider for UdsTransportProvider {
    type Config = UdsTransportConfig;

    fn new(config: UdsTransportConfig) -> (r: Self)
        ensures
            r.settings() == config,
    {
        UdsTransportProvider { config }
    }
}

/// Why a transport step failed. The texts of I/O, encoding and decoding
/// failures are those of the underlying errors.
#[derive(Debug, Clone, PartialEq, Eq)]
pub enum TransportError {
    FrameTooLarge { len: usize, max: usize },
    InvalidFrameLength,
    ConnectTimeout { path: String },
    Io(String),
    Encode(String),
    Decode(String),
    Timeout,
    Stopped,
    ResponseDropped,
    ResponsePending,
    NoPendingRequest,
}

impl TransportError {
    pub open spec fn spec_text(self) -> Seq<char> {
        match self {
            TransportError::FrameTooLarge { len, max } => "frame length "@ + dec(len as nat) + " exceeds max "@ + dec(max as nat),
            TransportError::InvalidFrameLength => "frame length is invalid"@,
            TransportError::ConnectTimeout { path } => "timed out connecting to UDS "@ + path@,
            TransportError::Io(e) => "transport I/O error: "@ + e@,
            TransportError::Encode(e) => "failed to encode transport frame: "@ + e@,
            TransportError::Decode(e) => "failed to decode transport frame: "@ + e@,
            TransportError::Timeout => "transport operation timed out"@,
            TransportError::Stopped => "transport is stopped"@,
            TransportError::ResponseDropped => "transport response was dropped"@,
            TransportError::ResponsePending => "previous request has not been answered"@,
            TransportError::NoPendingRequest => "there is no pending request"@,
        }
    }

    /// The error as text.
    pub fn describe(&self) -> (r: String)
        ensures
            r@ == self.spec_text(),
    {
        match self {
            TransportError::FrameTooLarge { len, max } => {
                let a = concat("frame length ", usize_to_string(*len).as_str());
                let b = concat(a.as_str(), " exceeds max ");
                let r = concat(b.as_str(), usize_to_string(*max).as_str());
                assert(r@ =~= self.spec_text());
                r
            },
            TransportError::InvalidFrameLength => "frame length is invalid".to_string(),
            TransportError::ConnectTimeout { path } => concat("timed out connecting to UDS ", path.as_str()),
            TransportError::Io(e) => concat("transport I/O error: ", e.as_str()),
            TransportError::Encode(e) => concat("failed to encode transport frame: ", e.as_str()),
            TransportError::Decode(e) => concat("failed to decode transport frame: ", e.as_str()),
            TransportError::Timeout => "transport operation timed out".to_string(),
            TransportError::Stopped => "transport is stopped".to_string(),
            TransportError::ResponseDropped => "transport response was dropped".to_string(),
            TransportError::ResponsePending => "previous request has not been answered".to_string(),
            TransportError::NoPendingRequest => "there is no pending request".to_string(),
        }
    }
}

/// Refuses a frame longer than `max`.
pub fn validate_length(len: usize, max: usize) -> (r: Result<(), TransportError>)
    ensures
        match r {
            Ok(()) => len <= max,
            Err(e) => len > max && e == (TransportError::FrameTooLarge { len, max }),
        },
{
    if len > max {
        return Err(TransportError::FrameTooLarge { len, max });
    }
    Ok(())
}

/// The length prefix of a message of `len` bytes under `config`: refused
/// where it exceeds the largest frame or does not fit in 32 bits.
pub fn frame_header(len: usize, config: &TransportConfig) -> (r: Result<Vec<u8>, TransportError>)
    ensures
        match r {
            Ok(h) => len <= config.max_frame_size && len <= u32::MAX && h@ == le32(len as u32),
            Err(e) => if len > config.max_frame_size {
                e == (TransportError::FrameTooLarge { len, max: config.max_frame_size })
            } else {
                len > u32::MAX && e == TransportError::InvalidFrameLength
            },
        },
{
    validate_length(len, config.max_frame_size)?;
    if len > 4294967295 {
        return Err(TransportError::InvalidFrameLength);
    }
    let mut h: Vec<u8> = Vec::new();
    crate::ipc::push_le32(&mut h, len as u32);
    Ok(h)
}

/// The length that a received frame header announces, checked against the
/// largest frame.
pub fn received_length(header: [u8; 4], config: &TransportConfig) -> (r: Result<usize, TransportError>)
    ensures
        match r {
            Ok(n) => n == crate::codec::le32_value(header@) && n <= config.max_frame_size,
            Err(e) => crate::codec::le32_value(header@) > config.max_frame_size && e == (TransportError::FrameTooLarge {
                len: crate::codec::le32_value(header@) as usize,
                max: config.max_frame_size,
            }),
        },
{
    let len: u64 = header[0] as u64 + 256 * (header[1] as u64) + 65536 * (header[2] as u64)
        + 16777216 * (header[3] as u64);
    if len > config.max_frame_size as u64 {
        return Err(TransportError::FrameTooLarge { len: len as usize, max: config.max_frame_size });
    }
    Ok(len as usize)
}

/// Whether a responder holds a request that it has not answered yet.
#[derive(Debug, Clone, Copy, PartialEq, Eq, Structural)]
pub struct ResponderState {
    pub pending: bool,
}

impl ResponderState {
    /// A responder with nothing to answer.
    pub fn new() -> (r: Self)
        ensures
            !r.pending,
    {
        ResponderState { pending: false }
    }

    /// Before taking a request: refused while the last one is unanswered.
    pub fn begin_receive(&self) -> (r: Result<(), TransportError>)
        ensures
            match r {
                Ok(()) => !self.pending,
                Err(e) => self.pending && e == TransportError::ResponsePending,
            },
    {
        if self.pending {
            return Err(TransportError::ResponsePending);
        }
        Ok(())
    }

    /// A request was taken: it awaits its answer.
    pub fn received(&mut self)
        ensures
            final(self).pending,
    {
        self.pending = true;
    }

    /// Before answering: refused where no request awaits an answer; the
    /// request counts as answered from here on.
    pub fn begin_respond(&mut self) -> (r: Result<(), TransportError>)
        ensures
            !final(self).pending,
            match r {
                Ok(()) => old(self).pending,
                Err(e) => !old(self).pending && e == TransportError::NoPendingRequest,
            },
    {
        if !self.pending {
            return Err(TransportError::NoPendingRequest);
        }
        self.pending = false;
        Ok(())
    }

    /// The connection was dropped: nothing awaits an answer.
    pub fn disconnect(&mut self)
        ensures
            !final(self).pending,
    {
        self.pending = false;
    }
}

} // verus!
