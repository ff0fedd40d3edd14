use crate::data_frame::{
    decode_frame, decode_header, decoded_frame, decoded_header, frame_error, header_error,
    header_length, remaining_header_length, stated_length, wire_length_field, DataFrameError,
    DataFrameInfo, FrameView, ReadFrom,
};
use crate::text::append_bytes;
use crate::transport::{expect_block, TransportError};
use vstd::prelude::*;

verus! {

/// Why no frame could be read.
#[derive(Copy, Clone, Debug, PartialEq, Eq, Structural)]
pub enum FrameReadError {
    /// The bytes are no frame.
    Frame(DataFrameError),
    /// The bytes did not come as they should.
    Transport(TransportError),
}

/// How many bytes a frame still lacks, given the bytes of it that have come:
/// first the two bytes that every header has, then the rest of the header,
/// then the payload. Nothing, when the frame is whole.
pub open spec fn missing_bytes(collected: Seq<u8>) -> Result<nat, DataFrameError> {
    if collected.len() < 2 {
        Ok((2 - collected.len()) as nat)
    } else if collected.len() < header_length(collected[1]) {
        Ok((header_length(collected[1]) - collected.len()) as nat)
    } else if header_error(collected) is Some {
        Err(header_error(collected)->Some_0)
    } else {
        let total = header_length(collected[1]) + stated_length(
            wire_length_field(collected[1]),
            collected,
        );
        if total > usize::MAX {
            Err(DataFrameError::PayloadTooLarge)
        } else if collected.len() < total {
            Ok((total - collected.len()) as nat)
        } else {
            Ok(0)
        }
    }
}

/// Bytes that lack nothing hold a whole frame.
pub proof fn lemma_nothing_missing_is_a_frame(collected: Seq<u8>)
    ensures
        missing_bytes(collected) == Ok::<nat, DataFrameError>(0) ==> frame_error(collected) is None,
{
}

/// Reads frames from a socket: gathers the bytes of one frame over as many
/// reads as it takes, and hands the frame over when it is whole.
pub struct SocketFrameReader {
    collected: Vec<u8>,
}

impl SocketFrameReader {
    /// The bytes of the frame that have come so far.
    pub closed spec fn view(&self) -> Seq<u8> {
        self.collected@
    }

    pub fn new() -> (reader: SocketFrameReader)
        ensures
            reader@ == Seq::<u8>::empty(),
    {
        SocketFrameReader { collected: Vec::new() }
    }

    /// How many bytes the frame still lacks: the size of the next read.
    pub fn missing(&self) -> (res: Result<usize, DataFrameError>)
        ensures
            match res {
                Ok(n) => missing_bytes(self@) == Ok::<nat, DataFrameError>(n as nat),
                Err(e) => missing_bytes(self@) == Err::<nat, DataFrameError>(e),
            },
    {
        let len: usize = self.collected.len();
        if len < 2 {
            return Ok(2 - len);
        }
        let rest: usize = remaining_header_length(self.collected[1]);
        if len - 2 < rest {
            return Ok(rest - (len - 2));
        }
        let header = match decode_header(self.collected.as_slice(), ReadFrom::Socket) {
            Ok(header) => header,
            Err(e) => {
                return Err(e);
            },
        };
        let header_len: usize = 2 + rest;
        if header.payload_length > usize::MAX - header_len {
            return Err(DataFrameError::PayloadTooLarge);
        }
        let total: usize = header_len + header.payload_length;
        if len < total {
            Ok(total - len)
        } else {
            Ok(0)
        }
    }

    /// Takes what one read returned. Hands over the frame if it is whole
    /// now, and starts on the next one. A read that returns nothing means
    /// that the connection is closed.
    pub fn accept(&mut self, chunk: &[u8]) -> (res: Result<Option<DataFrameInfo>, FrameReadError>)
        ensures
            match res {
                Ok(Some(frame)) => {
                    &&& missing_bytes(old(self)@) is Ok
                    &&& 0 < chunk@.len() <= missing_bytes(old(self)@)->Ok_0
                    &&& missing_bytes(old(self)@ + chunk@) == Ok::<nat, DataFrameError>(0)
                    &&& frame@ == decoded_frame(old(self)@ + chunk@, ReadFrom::Socket)
                    &&& final(self)@ == Seq::<u8>::empty()
                },
                Ok(None) => {
                    &&& missing_bytes(old(self)@) is Ok
                    &&& 0 < chunk@.len() <= missing_bytes(old(self)@)->Ok_0
                    &&& missing_bytes(old(self)@ + chunk@) is Ok
                    &&& missing_bytes(old(self)@ + chunk@)->Ok_0 > 0
                    &&& final(self)@ == old(self)@ + chunk@
                },
                Err(FrameReadError::Transport(e)) => {
                    &&& missing_bytes(old(self)@) is Ok
                    &&& final(self)@ == old(self)@
                    &&& e == TransportError::Closed <==> chunk@.len() == 0
                    &&& e == TransportError::Overrun <==> chunk@.len() > missing_bytes(
                        old(self)@,
                    )->Ok_0
                    &&& e != TransportError::BlockLength
                },
                Err(FrameReadError::Frame(e)) => {
                    ||| missing_bytes(old(self)@) == Err::<nat, DataFrameError>(e) && final(self)@
                        == old(self)@
                    ||| missing_bytes(old(self)@) is Ok && 0 < chunk@.len() <= missing_bytes(
                        old(self)@,
                    )->Ok_0 && missing_bytes(old(self)@ + chunk@) == Err::<nat, DataFrameError>(e)
                        && final(self)@ == old(self)@ + chunk@
                },
            },
    {
        let need: usize = match self.missing() {
            Ok(need) => need,
            Err(e) => {
                return Err(FrameReadError::Frame(e));
            },
        };
        if chunk.len() == 0 {
            return Err(FrameReadError::Transport(TransportError::Closed));
        }
        if chunk.len() > need {
            return Err(FrameReadError::Transport(TransportError::Overrun));
        }
        append_bytes(&mut self.collected, chunk);
        match self.missing() {
            Err(e) => Err(FrameReadError::Frame(e)),
            Ok(left) => {
                if left > 0 {
                    return Ok(None);
                }
                proof {
                    lemma_nothing_missing_is_a_frame(self@);
                }
                match decode_frame(self.collected.as_slice(), ReadFrom::Socket) {
                    Ok(frame) => {
                        self.collected = Vec::new();
                        Ok(Some(frame))
                    },
                    Err(e) => Err(FrameReadError::Frame(e)),
                }
            },
        }
    }
}

/// The header that a channel reader waits for a payload for, if it does.
pub open spec fn pending_view(pending: Option<DataFrameInfo>) -> Option<FrameView> {
    match pending {
        Some(header) => Some(header@),
        None => None,
    }
}

/// Whether a block is exactly one frame header that can be decoded.
pub open spec fn is_header_block(block: Seq<u8>) -> bool {
    header_error(block) is None && block.len() == header_length(block[1])
}

/// Reads frames from a session's inbound channel, where each frame comes as
/// two blocks: the header, then the payload.
pub struct ChannelFrameReader {
    pending: Option<DataFrameInfo>,
}

impl ChannelFrameReader {
    /// The header whose payload is still to come, if any.
    pub closed spec fn view(&self) -> Option<FrameView> {
        pending_view(self.pending)
    }

    pub fn new() -> (reader: ChannelFrameReader)
        ensures
            reader@ is None,
    {
        ChannelFrameReader { pending: None }
    }

    /// Whether the reader holds a header and waits for its payload.
    pub fn awaits_payload(&self) -> (waiting: bool)
        ensures
            waiting == (self@ is Some),
    {
        self.pending.is_some()
    }

    /// Takes the next block from the channel. A first block must be exactly
    /// a header; the block after it must have the length that the header
    /// states, and completes the frame.
    pub fn accept_block(&mut self, block: Vec<u8>) -> (res: Result<
        Option<DataFrameInfo>,
        FrameReadError,
    >)
        ensures
            match old(self)@ {
                None => match res {
                    Ok(Some(_)) => false,
                    Ok(None) => is_header_block(block@) && final(self)@ == Some(
                        decoded_header(block@, ReadFrom::Channel),
                    ),
                    Err(FrameReadError::Frame(e)) => header_error(block@) == Some(e) && final(self)@ is None,
                    Err(FrameReadError::Transport(e)) => header_error(block@) is None
                        && !is_header_block(block@) && e == TransportError::BlockLength && final(self)@ is None,
                },
                Some(header) => final(self)@ is None && match res {
                    Ok(Some(frame)) => block@.len() == header.payload_length && frame@ == (
                    FrameView { payload_data: block@, ..header }),
                    Ok(None) => false,
                    Err(e) => block@.len() != header.payload_length && e
                        == FrameReadError::Transport(TransportError::BlockLength),
                },
            },
    {
        match self.pending.take() {
            None => {
                let header = match decode_header(block.as_slice(), ReadFrom::Channel) {
                    Ok(header) => header,
                    Err(e) => {
                        return Err(FrameReadError::Frame(e));
                    },
                };
                if header.raw_bytes.len() != block.len() {
                    return Err(FrameReadError::Transport(TransportError::BlockLength));
                }
                self.pending = Some(header);
                Ok(None)
            },
            Some(header) => {
                let mut frame = header;
                match expect_block(block, frame.payload_length) {
                    Ok(payload) => {
                        frame.payload_data = payload;
                        Ok(Some(frame))
                    },
                    Err(e) => Err(FrameReadError::Transport(e)),
                }
            },
        }
    }
}

} // verus!
