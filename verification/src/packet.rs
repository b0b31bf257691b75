//! Control packets and their frames.
//!
//! A frame is one tag byte, the eight bytes of a stream id in little-endian
//! order, and for `Data` the payload up to the end of the frame.

use vstd::bytes::*;
use vstd::prelude::*;
use vstd::slice::*;

verus! {

/// Identifies one visitor connection for the lifetime of the process.
#[derive(Clone, Copy, Debug, PartialEq, Eq, Structural, Hash)]
pub struct StreamId(pub u64);

/// What a client sends back for a stream, as handed to the visitor's writer.
#[derive(Clone, Debug, PartialEq, Eq)]
pub enum StreamMessage {
    Data(Vec<u8>),
    TunnelRefused,
}

/// One message on a client's control link.
#[derive(Clone, Debug, PartialEq, Eq)]
pub enum ControlPacket {
    Init(StreamId),
    Data(StreamId, Vec<u8>),
    Refused(StreamId),
    End(StreamId),
    Ping,
}

/// Why a frame is not a packet.
#[derive(Clone, Copy, Debug, PartialEq, Eq, Structural)]
pub enum DecodeError {
    /// The frame is shorter than a tag and a stream id.
    MissingStreamId,
    /// The tag byte names no packet kind.
    InvalidControlByte,
}

/// The mathematical value of a `StreamMessage`.
pub enum MessageModel {
    Data(Seq<u8>),
    TunnelRefused,
}

/// The mathematical value of a `ControlPacket`.
pub enum PacketModel {
    Init(u64),
    Data(u64, Seq<u8>),
    Refused(u64),
    End(u64),
    Ping,
}

impl View for StreamMessage {
    type V = MessageModel;

    open spec fn view(&self) -> MessageModel {
        match self {
            StreamMessage::Data(bytes) => MessageModel::Data(bytes@),
            StreamMessage::TunnelRefused => MessageModel::TunnelRefused,
        }
    }
}

impl View for ControlPacket {
    type V = PacketModel;

    open spec fn view(&self) -> PacketModel {
        match self {
            ControlPacket::Init(id) => PacketModel::Init(id.0),
            ControlPacket::Data(id, bytes) => PacketModel::Data(id.0, bytes@),
            ControlPacket::Refused(id) => PacketModel::Refused(id.0),
            ControlPacket::End(id) => PacketModel::End(id.0),
            ControlPacket::Ping => PacketModel::Ping,
        }
    }
}

pub const TAG_INIT: u8 = 0x01;

pub const TAG_DATA: u8 = 0x02;

pub const TAG_REFUSED: u8 = 0x03;

pub const TAG_END: u8 = 0x04;

pub const TAG_PING: u8 = 0x05;

/// Length of the tag and the stream id that open every frame.
pub const HEADER_LEN: usize = 9;

/// A tag, a stream id and a payload laid out as one frame.
pub open spec fn frame(tag: u8, id: u64, payload: Seq<u8>) -> Seq<u8> {
    seq![tag] + spec_u64_to_le_bytes(id) + payload
}

/// The frame of a packet. `Ping` carries the id zero.
pub open spec fn encoding(p: PacketModel) -> Seq<u8> {
    match p {
        PacketModel::Init(id) => frame(TAG_INIT, id, Seq::empty()),
        PacketModel::Data(id, bytes) => frame(TAG_DATA, id, bytes),
        PacketModel::Refused(id) => frame(TAG_REFUSED, id, Seq::empty()),
        PacketModel::End(id) => frame(TAG_END, id, Seq::empty()),
        PacketModel::Ping => frame(TAG_PING, 0, Seq::empty()),
    }
}

/// The packet of a frame, or why it has none. Bytes after the header are
/// the payload of `Data` and are ignored by the other kinds.
pub open spec fn decoding(bytes: Seq<u8>) -> Result<PacketModel, DecodeError> {
    if bytes.len() < HEADER_LEN {
        Err(DecodeError::MissingStreamId)
    } else {
        let id = spec_u64_from_le_bytes(bytes.subrange(1, HEADER_LEN as int));
        if bytes[0] == TAG_INIT {
            Ok(PacketModel::Init(id))
        } else if bytes[0] == TAG_DATA {
            Ok(PacketModel::Data(id, bytes.subrange(HEADER_LEN as int, bytes.len() as int)))
        } else if bytes[0] == TAG_REFUSED {
            Ok(PacketModel::Refused(id))
        } else if bytes[0] == TAG_END {
            Ok(PacketModel::End(id))
        } else if bytes[0] == TAG_PING {
            Ok(PacketModel::Ping)
        } else {
            Err(DecodeError::InvalidControlByte)
        }
    }
}

/// Whether a decoding outcome is the value of an executable one.
pub open spec fn decoded_as(
    out: Result<ControlPacket, DecodeError>,
    model: Result<PacketModel, DecodeError>,
) -> bool {
    match out {
        Ok(p) => model == Ok::<PacketModel, DecodeError>(p@),
        Err(e) => model == Err::<PacketModel, DecodeError>(e),
    }
}

fn build_frame(tag: u8, id: StreamId, payload: &Vec<u8>) -> (out: Vec<u8>)
    ensures
        out@ == frame(tag, id.0, payload@),
{
    let mut out: Vec<u8> = Vec::new();
    out.push(tag);
    let mut id_bytes = u64_to_le_bytes(id.0);
    out.append(&mut id_bytes);
    out.extend_from_slice(payload.as_slice());
    assert(out@ =~= frame(tag, id.0, payload@));
    out
}

impl ControlPacket {
    /// Lays the packet out as one frame.
    pub fn serialize(self) -> (out: Vec<u8>)
        ensures
            out@ == encoding(self@),
    {
        let empty: Vec<u8> = Vec::new();
        match self {
            ControlPacket::Init(id) => build_frame(TAG_INIT, id, &empty),
            ControlPacket::Data(id, bytes) => build_frame(TAG_DATA, id, &bytes),
            ControlPacket::Refused(id) => build_frame(TAG_REFUSED, id, &empty),
            ControlPacket::End(id) => build_frame(TAG_END, id, &empty),
            ControlPacket::Ping => build_frame(TAG_PING, StreamId(0), &empty),
        }
    }

    /// Reads one frame. Never fails on a frame that `serialize` produced.
    pub fn deserialize(data: &[u8]) -> (out: Result<ControlPacket, DecodeError>)
        ensures
            decoded_as(out, decoding(data@)),
    {
        if data.len() < HEADER_LEN {
            return Err(DecodeError::MissingStreamId);
        }
        let id = StreamId(u64_from_le_bytes(slice_subrange(data, 1, HEADER_LEN)));
        let tag: u8 = data[0];
        if tag == TAG_INIT {
            Ok(ControlPacket::Init(id))
        } else if tag == TAG_DATA {
            let payload = slice_to_vec(slice_subrange(data, HEADER_LEN, data.len()));
            Ok(ControlPacket::Data(id, payload))
        } else if tag == TAG_REFUSED {
            Ok(ControlPacket::Refused(id))
        } else if tag == TAG_END {
            Ok(ControlPacket::End(id))
        } else if tag == TAG_PING {
            Ok(ControlPacket::Ping)
        } else {
            Err(DecodeError::InvalidControlByte)
        }
    }
}

/// Decoding undoes encoding: every packet, an empty `Data` included, comes
/// back from its own frame unchanged.
pub proof fn lemma_decode_encode(p: PacketModel)
    ensures
        decoding(encoding(p)) == Ok::<PacketModel, DecodeError>(p),
{
    lemma_auto_spec_u64_to_from_le_bytes();
    match p {
        PacketModel::Init(id) => lemma_frame_parts(TAG_INIT, id, Seq::empty()),
        PacketModel::Data(id, bytes) => lemma_frame_parts(TAG_DATA, id, bytes),
        PacketModel::Refused(id) => lemma_frame_parts(TAG_REFUSED, id, Seq::empty()),
        PacketModel::End(id) => lemma_frame_parts(TAG_END, id, Seq::empty()),
        PacketModel::Ping => lemma_frame_parts(TAG_PING, 0, Seq::empty()),
    }
}

/// A frame gives back the tag, the id and the payload it was built from.
pub proof fn lemma_frame_parts(tag: u8, id: u64, payload: Seq<u8>)
    ensures
        frame(tag, id, payload).len() == HEADER_LEN + payload.len(),
        frame(tag, id, payload)[0] == tag,
        spec_u64_from_le_bytes(frame(tag, id, payload).subrange(1, HEADER_LEN as int)) == id,
        frame(tag, id, payload).subrange(
            HEADER_LEN as int,
            frame(tag, id, payload).len() as int,
        ) == payload,
{
    lemma_auto_spec_u64_to_from_le_bytes();
    let f = frame(tag, id, payload);
    assert(f.subrange(1, HEADER_LEN as int) =~= spec_u64_to_le_bytes(id));
    assert(f.subrange(HEADER_LEN as int, f.len() as int) =~= payload);
}

} // verus!
