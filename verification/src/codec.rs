//! Length-prefixed frames: a little-endian `u32` length, then that many
//! bytes of an encoded message.
//!
//! The message itself is encoded and decoded by the program; the library
//! frames encoded bytes and takes them out of a frame.
use vstd::prelude::*;
use crate::ipc::{batch_body, framed, le32, push_bytes, push_le32, IpcMessage};
use crate::number::{dec, usize_to_string};
use crate::text::concat;

verus! {

/// The largest message a frame may carry: 64 MiB.
pub const MAX_FRAME_LEN: usize = 67108864;

/// Why a frame could not be made or read.
#[derive(Debug, Clone, PartialEq, Eq)]
pub enum CodecError {
    FrameTooLarge { len: usize, max: usize },
    IncompleteFrame,
    Decode(String),
}

impl CodecError {
    pub open spec fn spec_text(self) -> Seq<char> {
        match self {
            CodecError::FrameTooLarge { len, max } => "frame length "@ + dec(len as nat) + " exceeds max "@ + dec(max as nat),
            CodecError::IncompleteFrame => "incomplete frame"@,
            CodecError::Decode(e) => "failed to decode frame: "@ + e@,
        }
    }

    /// The error as text.
    pub fn describe(&self) -> (r: String)
        ensures
            r@ == self.spec_text(),
    {
        match self {
            CodecError::FrameTooLarge { len, max } => {
                let a = concat("frame length ", usize_to_string(*len).as_str());
                let b = concat(a.as_str(), " exceeds max ");
                let r = concat(b.as_str(), usize_to_string(*max).as_str());
                assert(r@ =~= self.spec_text());
                r
            },
            CodecError::IncompleteFrame => "incomplete frame".to_string(),
            CodecError::Decode(e) => concat("failed to decode frame: ", e.as_str()),
        }
    }
}

/// The frame of an encoded message.
pub fn encode_frame(message: &[u8]) -> (r: Result<Vec<u8>, CodecError>)
    ensures
        match r {
            Ok(frame) => message@.len() <= MAX_FRAME_LEN && frame@ == le32(message@.len() as u32) + message@,
            Err(e) => message@.len() > MAX_FRAME_LEN
                && e == (CodecError::FrameTooLarge { len: message@.len() as usize, max: MAX_FRAME_LEN }),
        },
{
    let len = message.len();
    if len > MAX_FRAME_LEN {
        return Err(CodecError::FrameTooLarge { len, max: MAX_FRAME_LEN });
    }
    let mut frame: Vec<u8> = Vec::new();
    push_le32(&mut frame, len as u32);
    push_bytes(&mut frame, message);
    Ok(frame)
}

/// The number that four little-endian bytes write.
pub open spec fn le32_value(b: Seq<u8>) -> int {
    b[0] + 256 * b[1] + 65536 * b[2] + 16777216 * b[3]
}

/// What reading `frame` gives: the message's bytes, or why there are none.
pub open spec fn frame_payload(frame: Seq<u8>) -> Result<Seq<u8>, CodecError> {
    if frame.len() < 4 {
        Err(CodecError::IncompleteFrame)
    } else if le32_value(frame) > MAX_FRAME_LEN {
        Err(CodecError::FrameTooLarge { len: le32_value(frame) as usize, max: MAX_FRAME_LEN })
    } else if frame.len() < 4 + le32_value(frame) {
        Err(CodecError::IncompleteFrame)
    } else {
        Ok(frame.subrange(4, 4 + le32_value(frame)))
    }
}

/// The encoded message in `frame`; bytes after it are ignored.
pub fn decode_frame(frame: &[u8]) -> (r: Result<Vec<u8>, CodecError>)
    ensures
        match r {
            Ok(p) => frame_payload(frame@) == Ok::<Seq<u8>, CodecError>(p@),
            Err(e) => frame_payload(frame@) == Err::<Seq<u8>, CodecError>(e),
        },
{
    if frame.len() < 4 {
        return Err(CodecError::IncompleteFrame);
    }
    let len: usize = frame[0] as usize + 256 * (frame[1] as usize) + 65536 * (frame[2] as usize)
        + 16777216 * (frame[3] as usize);
    if len > MAX_FRAME_LEN {
        return Err(CodecError::FrameTooLarge { len, max: MAX_FRAME_LEN });
    }
    if frame.len() < 4 + len {
        return Err(CodecError::IncompleteFrame);
    }
    let mut out: Vec<u8> = Vec::new();
    let mut i: usize = 4;
    while i < 4 + len
        invariant
            len <= MAX_FRAME_LEN,
            4 <= i <= 4 + len,
            4 + len <= frame@.len(),
            out@ == frame@.subrange(4, i as int),
        decreases 4 + len - i,
    {
        out.push(frame[i]);
        assert(frame@.subrange(4, i + 1) =~= frame@.subrange(4, i as int).push(frame@[i as int]));
        i = i + 1;
    }
    Ok(out)
}

/// Reading back the frame of a message gives the message.
pub proof fn law_frame_round_trip(message: Seq<u8>)
    requires
        message.len() <= MAX_FRAME_LEN,
    ensures
        frame_payload(le32(message.len() as u32) + message) == Ok::<Seq<u8>, CodecError>(message),
{
    let frame = le32(message.len() as u32) + message;
    let n = message.len() as u32;
    assert(frame[0] == (n % 256) as u8);
    assert(frame[1] == ((n / 256) % 256) as u8);
    assert(frame[2] == ((n / 65536) % 256) as u8);
    assert(frame[3] == (n / 16777216) as u8);
    assert(le32_value(frame) == message.len()) by (nonlinear_arith)
        requires
            n == message.len(),
            n <= 67108864,
            frame[0] == n % 256,
            frame[1] == (n / 256) % 256,
            frame[2] == (n / 65536) % 256,
            frame[3] == n / 16777216,
            le32_value(frame) == frame[0] + 256 * frame[1] + 65536 * frame[2] + 16777216 * frame[3];
    assert(frame.subrange(4, 4 + message.len() as int) =~= message);
}


/// A batch frame of the IPC sink is a frame in this sense: reading it gives
/// back the batch's body, as long as the body fits in a frame.
pub proof fn law_batch_frame_reads_back(messages: Seq<IpcMessage>)
    requires
        batch_body(messages).len() <= MAX_FRAME_LEN,
    ensures
        frame_payload(framed(batch_body(messages))) == Ok::<Seq<u8>, CodecError>(batch_body(messages)),
{
    law_frame_round_trip(batch_body(messages));
}

} // verus!
