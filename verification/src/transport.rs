use crate::text::append_bytes;
use vstd::prelude::*;

verus! {

/// Why a transport could not hand over the bytes that were asked for.
#[derive(Copy, Clone, Debug, PartialEq, Eq, Structural)]
pub enum TransportError {
    /// The other side closed the connection before all bytes had come.
    Closed,
    /// More bytes came than were asked for.
    Overrun,
    /// A block from the channel has not the length that was asked for.
    BlockLength,
}

/// The channel's way to read exactly `wanted` bytes: the next block is the
/// answer, if it has that length.
pub fn expect_block(block: Vec<u8>, wanted: usize) -> (res: Result<Vec<u8>, TransportError>)
    ensures
        match res {
            Ok(bytes) => block@.len() == wanted && bytes@ == block@,
            Err(e) => block@.len() != wanted && e == TransportError::BlockLength,
        },
{
    if block.len() == wanted {
        Ok(block)
    } else {
        Err(TransportError::BlockLength)
    }
}

/// The socket's way to read exactly `wanted` bytes: what has come so far,
/// while reads of whatever is still missing are made.
pub struct ExactReader {
    wanted: usize,
    data: Vec<u8>,
}

impl ExactReader {
    /// No more bytes were taken than were asked for.
    pub closed spec fn wf(&self) -> bool {
        self.data@.len() <= self.wanted
    }

    /// How many bytes were asked for.
    pub closed spec fn wanted(&self) -> nat {
        self.wanted as nat
    }

    /// The bytes that have come so far.
    pub closed spec fn view(&self) -> Seq<u8> {
        self.data@
    }

    /// A reader that waits for `wanted` bytes.
    pub fn new(wanted: usize) -> (reader: ExactReader)
        ensures
            reader.wf(),
            reader.wanted() == wanted,
            reader@ == Seq::<u8>::empty(),
    {
        ExactReader { wanted, data: Vec::new() }
    }

    /// How many bytes are still missing: the size of the next read.
    pub fn remaining(&self) -> (left: usize)
        requires
            self.wf(),
        ensures
            left == self.wanted() - self@.len(),
    {
        self.wanted - self.data.len()
    }

    /// Whether all bytes have come.
    pub fn is_complete(&self) -> (complete: bool)
        requires
            self.wf(),
        ensures
            complete == (self@.len() == self.wanted()),
    {
        self.data.len() == self.wanted
    }

    /// Takes what one read returned. Says whether all bytes have come now.
    /// A read that returns nothing while bytes are missing means that the
    /// connection is closed.
    pub fn accept(&mut self, chunk: &[u8]) -> (res: Result<bool, TransportError>)
        requires
            old(self).wf(),
        ensures
            final(self).wf(),
            final(self).wanted() == old(self).wanted(),
            match res {
                Ok(complete) => {
                    &&& old(self)@.len() + chunk@.len() <= old(self).wanted()
                    &&& chunk@.len() > 0 || old(self)@.len() == old(self).wanted()
                    &&& final(self)@ == old(self)@ + chunk@
                    &&& complete == (final(self)@.len() == final(self).wanted())
                },
                Err(e) => {
                    &&& final(self)@ == old(self)@
                    &&& e == TransportError::Overrun <==> old(self)@.len() + chunk@.len() > old(self).wanted()
                    &&& e == TransportError::Closed <==> chunk@.len() == 0 && old(self)@.len()
                        < old(self).wanted()
                    &&& e != TransportError::BlockLength
                },
            },
    {
        let left: usize = self.wanted - self.data.len();
        if chunk.len() > left {
            return Err(TransportError::Overrun);
        }
        if chunk.len() == 0 && left > 0 {
            return Err(TransportError::Closed);
        }
        append_bytes(&mut self.data, chunk);
        Ok(self.data.len() == self.wanted)
    }

    /// The bytes that have come.
    pub fn into_bytes(self) -> (bytes: Vec<u8>)
        ensures
            bytes@ == self@,
    {
        self.data
    }
}

/// How many bytes of a request head are read at most.
pub const REQUEST_LIMIT: usize = 4096;

/// How many bytes one read of a request head asks for.
pub const REQUEST_CHUNK: usize = 256;

/// What is kept of a request head when one more read has returned `chunk`:
/// the bytes so far and as many of the new ones as the limit leaves room
/// for.
pub open spec fn burst_after(so_far: Seq<u8>, chunk: Seq<u8>) -> Seq<u8> {
    if so_far.len() + chunk.len() <= REQUEST_LIMIT {
        so_far + chunk
    } else {
        so_far + chunk.take(REQUEST_LIMIT - so_far.len())
    }
}

/// Whether another read is due after one that returned `chunk`: a read that
/// fills its buffer may have left bytes behind, as long as the limit is not
/// reached.
pub open spec fn burst_goes_on(so_far: Seq<u8>, chunk: Seq<u8>) -> bool {
    chunk.len() >= REQUEST_CHUNK && so_far.len() + chunk.len() < REQUEST_LIMIT
}

/// Takes what one read of a request head returned, and says whether another
/// read is due.
pub fn accept_burst(so_far: &mut Vec<u8>, chunk: &[u8]) -> (more: bool)
    requires
        old(so_far)@.len() <= REQUEST_LIMIT,
    ensures
        final(so_far)@.len() <= REQUEST_LIMIT,
        final(so_far)@ == burst_after(old(so_far)@, chunk@),
        more == burst_goes_on(old(so_far)@, chunk@),
{
    let room: usize = REQUEST_LIMIT - so_far.len();
    if chunk.len() <= room {
        let filled = chunk.len() == room;
        append_bytes(so_far, chunk);
        chunk.len() >= REQUEST_CHUNK && !filled
    } else {
        let part = crate::text::copy_range(chunk, 0, room);
        append_bytes(so_far, part.as_slice());
        assert(part@ =~= chunk@.take(room as int));
        false
    }
}

} // verus!
