//! Pieces of a torrent, the chunks that they are requested in, and what is written to a peer.

use vstd::prelude::*;

verus! {

/// The index of a piece that the torrent has.
#[derive(Clone, Copy, Debug, PartialEq, Eq, Structural)]
pub struct ValidPieceIndex {
    pub index: u32,
}

impl ValidPieceIndex {
    /// The index as a number.
    pub fn get(&self) -> (res: u32)
        ensures
            res == self.index,
    {
        self.index
    }
}

/// A chunk: the unit in which the data of a piece is requested.
#[derive(Clone, Copy, Debug, PartialEq, Eq, Structural)]
pub struct ChunkInfo {
    /// The piece that the chunk belongs to.
    pub piece_index: ValidPieceIndex,
    /// Which chunk of the piece it is.
    pub chunk_index: u32,
    /// Which chunk of the torrent it is.
    pub absolute_index: u32,
    /// How many bytes it has.
    pub size: u32,
    /// Where in the piece it begins.
    pub offset: u32,
}

/// A stretch of a piece, as peers name it to each other.
#[derive(Clone, Copy, Debug, PartialEq, Eq, Structural)]
pub struct Request {
    pub index: u32,
    pub begin: u32,
    pub length: u32,
}

/// A message to a peer.
#[derive(Debug, PartialEq, Eq)]
pub enum Message {
    KeepAlive,
    /// What the peer requests will not be answered.
    Choke,
    /// What the peer requests will be answered.
    Unchoke,
    Interested,
    NotInterested,
    /// The piece with this index is here now.
    Have(u32),
    /// The pieces that are here, one bit for each, the highest bit of a byte first.
    Bitfield(Vec<u8>),
    /// The data is wanted.
    Request(Request),
    /// The request is withdrawn: its data is no longer wanted.
    Cancel(Request),
    /// A message of the extension with this number.
    Extended(u8, Vec<u8>),
}

/// What the task that writes to a peer is asked to do.
#[derive(Debug, PartialEq, Eq)]
pub enum WriterRequest {
    /// Write the message.
    Message(Message),
    /// Read the chunk from disk and write its data.
    ReadChunkRequest(ChunkInfo),
    /// Close the connection.
    Disconnect,
}

impl ChunkInfo {
    /// The message that withdraws the request for this chunk.
    pub open spec fn cancel_message(self) -> WriterRequest {
        WriterRequest::Message(
            Message::Cancel(
                Request {
                    index: self.piece_index.index,
                    begin: self.offset,
                    length: self.size,
                },
            ),
        )
    }

    /// Builds the message that withdraws the request for this chunk.
    pub fn to_cancel_message(&self) -> (res: WriterRequest)
        ensures
            res == self.cancel_message(),
            res matches WriterRequest::Message(Message::Cancel(request)) && request.index
                == self.piece_index.index && request.begin == self.offset && request.length
                == self.size,
    {
        WriterRequest::Message(
            Message::Cancel(
                Request {
                    index: self.piece_index.get(),
                    begin: self.offset,
                    length: self.size,
                },
            ),
        )
    }
}

/// The message that withdraws a request is a cancel that names the piece by its index, and in it the
/// stretch of the chunk. Nothing else of the chunk is in it: two chunks of which these agree are
/// withdrawn by the same message, and two of which they do not are not.
pub proof fn law_cancel_message_names_the_stretch(chunk: ChunkInfo, other: ChunkInfo)
    ensures
        chunk.cancel_message() matches WriterRequest::Message(Message::Cancel(request))
            && request.index == chunk.piece_index.index && request.begin == chunk.offset
            && request.length == chunk.size,
        chunk.cancel_message() == other.cancel_message() <==> chunk.piece_index == other.piece_index
            && chunk.offset == other.offset && chunk.size == other.size,
{
}

} // verus!
