//! The steps of the visitor side: opening a stream for a new visitor, and
//! what the two pumps of a stream do with each chunk and each message.

use crate::active_stream::{ActiveStream, ActiveStreams, StreamModel};
use crate::channel::offer;
use crate::connected_clients::{ConnectedClient, Connections};
use crate::control_server::after_offer;
use crate::packet::{ControlPacket, MessageModel, PacketModel, StreamId, StreamMessage};
use crate::random::random_u64;
use crate::text::push_char;
use futures::channel::mpsc::UnboundedSender;
use vstd::prelude::*;
use vstd::string::*;

verus! {

/// What a visitor reads when no client serves the host it asked for.
pub const HTTP_NOT_FOUND_RESPONSE: &'static str =
    "HTTP/1.1 404\r\nContent-Length: 23\r\n\r\nError: Tunnel Not Found";

/// What a visitor reads when the client refuses its stream.
pub const HTTP_TUNNEL_REFUSED_RESPONSE: &'static str =
    "HTTP/1.1 502\r\nContent-Length: 32\r\n\r\nTunnel says: connection refused.";

/// How often a stream id is drawn before a visitor is turned away.
pub const ID_ATTEMPTS: usize = 4;

/// Why a visitor gets no stream.
#[derive(Debug, Clone, Copy, PartialEq, Eq, Structural)]
pub enum AcceptError {
    /// No connected client serves the host.
    NotFound,
    /// Every stream id that was drawn is in use.
    NoStreamId,
}

/// The character that separates the labels of a host name.
pub const LABEL_SEPARATOR: char = '.';

/// `i` is where the first label of `host` ends: at its first dot.
pub open spec fn is_first_dot(host: Seq<char>, i: int) -> bool {
    &&& 0 <= i < host.len()
    &&& host[i] == LABEL_SEPARATOR
    &&& forall|j: int| 0 <= j < i ==> host[j] != LABEL_SEPARATOR
}

/// `name` is one of the allowed host suffixes.
pub open spec fn is_allowed(name: Seq<char>, allowed: Seq<String>) -> bool {
    exists|k: int| 0 <= k < allowed.len() && (#[trigger] allowed[k])@ == name
}

/// Whether `out` is the subdomain that `host` asks for: its first label,
/// where what follows the first dot is an allowed suffix, and none where it
/// is not or where the host has no dot.
pub open spec fn is_sub_domain_for(
    out: Option<Seq<char>>,
    host: Seq<char>,
    allowed: Seq<String>,
) -> bool {
    match out {
        Some(label) => exists|i: int| #[trigger]
            is_first_dot(host, i) && label == host.subrange(0, i) && is_allowed(
                host.subrange(i + 1, host.len() as int),
                allowed,
            ),
        None => forall|i: int| #[trigger]
            is_first_dot(host, i) ==> !is_allowed(host.subrange(i + 1, host.len() as int), allowed),
    }
}

/// The view of an optional string.
pub open spec fn label_of(s: Option<String>) -> Option<Seq<char>> {
    match s {
        Some(label) => Some(label@),
        None => None,
    }
}

/// The subdomain that a visitor asks for by naming `host`, given the host
/// suffixes on which tunnels are allowed: with `baz.com` allowed, the host
/// `demo.baz.com` asks for `demo`.
pub fn sub_domain_for_host(host: &str, allowed: &Vec<String>) -> (out: Option<String>)
    ensures
        is_sub_domain_for(label_of(out), host@, allowed@),
{
    let n = host.unicode_len();
    let mut label = String::new();
    let mut i: usize = 0;
    while i < n && host.get_char(i) != LABEL_SEPARATOR
        invariant
            i <= n,
            n == host@.len(),
            label@ == host@.subrange(0, i as int),
            forall|j: int| 0 <= j < i ==> host@[j] != LABEL_SEPARATOR,
        decreases n - i,
    {
        let c = host.get_char(i);
        push_char(&mut label, c);
        assert(host@.subrange(0, i as int).push(c) =~= host@.subrange(0, i as int + 1));
        i += 1;
    }
    if i == n {
        assert forall|k: int| #[trigger] is_first_dot(host@, k) implies false by {}
        return None;
    }
    assert(is_first_dot(host@, i as int));
    let dot = i;
    let mut rest = String::new();
    i += 1;
    while i < n
        invariant
            dot < i <= n,
            n == host@.len(),
            rest@ == host@.subrange(dot + 1, i as int),
        decreases n - i,
    {
        let c = host.get_char(i);
        push_char(&mut rest, c);
        assert(host@.subrange(dot + 1, i as int).push(c) =~= host@.subrange(
            dot + 1,
            i as int + 1,
        ));
        i += 1;
    }
    let mut k: usize = 0;
    while k < allowed.len()
        invariant
            k <= allowed.len(),
            is_first_dot(host@, dot as int),
            label@ == host@.subrange(0, dot as int),
            rest@ == host@.subrange(dot + 1, host@.len() as int),
            forall|j: int| 0 <= j < k ==> (#[trigger] allowed@[j])@ != rest@,
        decreases allowed.len() - k,
    {
        if allowed[k] == rest {
            assert(is_allowed(rest@, allowed@));
            return Some(label);
        }
        k += 1;
    }
    assert(!is_allowed(rest@, allowed@));
    assert forall|j: int| #[trigger] is_first_dot(host@, j) implies !is_allowed(
        host@.subrange(j + 1, host@.len() as int),
        allowed@,
    ) by {
        assert(j == dot);
    }
    None
}

/// Draws a stream id that no stream in flight has. After `ID_ATTEMPTS`
/// draws that all hit a stream in flight it gives up.
pub fn fresh_stream_id(streams: &ActiveStreams) -> (out: Option<StreamId>)
    requires
        streams.wf(),
    ensures
        out matches Some(id) ==> !streams@.contains_key(id.0),
        out is None ==> exists|id: u64| streams@.contains_key(id),
{
    let mut attempt: usize = 0;
    while attempt < ID_ATTEMPTS
        invariant
            streams.wf(),
            attempt > 0 ==> exists|id: u64| streams@.contains_key(id),
        decreases ID_ATTEMPTS - attempt,
    {
        let id = StreamId(random_u64());
        if !streams.contains(&id) {
            return Some(id);
        }
        attempt += 1;
    }
    None
}

/// Whether `s` is a stream with the id `id`, to `client`, with the queue
/// `tx`.
pub open spec fn is_stream_of(
    s: StreamModel,
    id: u64,
    client: ConnectedClient,
    tx: UnboundedSender<StreamMessage>,
) -> bool {
    &&& s.id == id
    &&& s.client.id == client.id@
    &&& s.client.host == client.host@
    &&& s.tx == tx
}

/// Files a stream to `client` under `id` and hands back a handle to it,
/// unless a stream in flight has that id: then nothing changes.
pub fn open_stream(
    streams: &mut ActiveStreams,
    client: &ConnectedClient,
    id: StreamId,
    tx: UnboundedSender<StreamMessage>,
) -> (out: Option<ActiveStream>)
    requires
        old(streams).wf(),
    ensures
        final(streams).wf(),
        out is None <==> old(streams)@.contains_key(id.0),
        out is None ==> final(streams)@ == old(streams)@,
        out matches Some(handle) ==> {
            &&& handle.id == id
            &&& handle.client.id@ == client.id@
            &&& handle.client.host@ == client.host@
            &&& final(streams)@.contains_key(id.0)
            &&& is_stream_of(final(streams)@[id.0], id.0, *client, tx)
            &&& final(streams)@ == old(streams)@.insert(id.0, final(streams)@[id.0])
        },
{
    if streams.contains(&id) {
        return None;
    }
    let stream = ActiveStream { id: id, client: client.clone(), tx: tx };
    let handle = stream.clone();
    streams.insert(stream);
    Some(handle)
}

/// Opens a stream for a visitor of `host`.
///
/// A host that no connected client serves gives `NotFound`, and the visitor
/// is owed `HTTP_NOT_FOUND_RESPONSE`. Otherwise the stream is filed under
/// an id that no stream in flight has, to the client that serves the host;
/// `Init` is then due to that client.
pub fn accept_connection(
    host: &String,
    connections: &Connections,
    streams: &mut ActiveStreams,
    tx: UnboundedSender<StreamMessage>,
) -> (out: Result<ActiveStream, AcceptError>)
    requires
        connections.wf(),
        old(streams).wf(),
    ensures
        final(streams).wf(),
        out == Err::<ActiveStream, AcceptError>(AcceptError::NotFound)
            <==> connections@.find_by_host(host@).is_none(),
        out is Err ==> final(streams)@ == old(streams)@,
        out == Err::<ActiveStream, AcceptError>(AcceptError::NoStreamId) ==> exists|id: u64|
            old(streams)@.contains_key(id),
        out matches Ok(handle) ==> {
            &&& connections@.find_by_host(host@) matches Some(client)
            &&& handle.client.id@ == client.id
            &&& handle.client.host@ == client.host
            &&& !old(streams)@.contains_key(handle.id.0)
            &&& final(streams)@.contains_key(handle.id.0)
            &&& final(streams)@[handle.id.0].id == handle.id.0
            &&& final(streams)@[handle.id.0].client.id == client.id
            &&& final(streams)@[handle.id.0].tx == tx
            &&& final(streams)@ == old(streams)@.insert(
                handle.id.0,
                final(streams)@[handle.id.0],
            )
        },
{
    let client = match connections.find_by_host(host) {
        Some(client) => client,
        None => {
            return Err(AcceptError::NotFound);
        },
    };
    let id = match fresh_stream_id(streams) {
        Some(id) => id,
        None => {
            return Err(AcceptError::NoStreamId);
        },
    };
    match open_stream(streams, client, id, tx) {
        Some(handle) => Ok(handle),
        None => Err(AcceptError::NoStreamId),
    }
}

/// The packet that one read of a visitor's socket puts on the client's
/// queue: `Data` for bytes, `End` once the socket is at its end or failed
/// (`None`), and nothing for a read that brought no bytes.
pub open spec fn visitor_packet(id: u64, chunk: Option<Seq<u8>>) -> Option<PacketModel> {
    match chunk {
        None => Some(PacketModel::End(id)),
        Some(bytes) => if bytes.len() == 0 {
            None
        } else {
            Some(PacketModel::Data(id, bytes))
        },
    }
}

/// The bytes of an optional chunk.
pub open spec fn chunk_bytes(chunk: Option<Vec<u8>>) -> Option<Seq<u8>> {
    match chunk {
        Some(bytes) => Some(bytes@),
        None => None,
    }
}

/// Whether a packet, or none, is the value of an executable one.
pub open spec fn packet_is(out: Option<ControlPacket>, model: Option<PacketModel>) -> bool {
    match out {
        Some(p) => model == Some(p@),
        None => model.is_none(),
    }
}

/// The packet that one read of a visitor's socket puts on the client's
/// queue.
pub fn packet_for_chunk(id: StreamId, chunk: Option<Vec<u8>>) -> (out: Option<ControlPacket>)
    ensures
        packet_is(out, visitor_packet(id.0, chunk_bytes(chunk))),
{
    match chunk {
        None => Some(ControlPacket::End(id)),
        Some(bytes) => {
            if bytes.len() == 0 {
                None
            } else {
                Some(ControlPacket::Data(id, bytes))
            }
        },
    }
}

/// What the pump from visitor to client does after one read.
#[derive(Debug, Clone, Copy, PartialEq, Eq, Structural)]
pub enum VisitorStep {
    /// Read the next chunk.
    Continue,
    /// The visitor is done and the stream is closed.
    Finished,
    /// The client is gone, and the stream with it.
    ClientGone,
}

/// The step after a packet was offered to the client's queue: a client
/// that did not take it is gone, `End` finishes the stream, `Data` lets it
/// go on.
pub open spec fn step_after(ended: bool, taken: bool) -> VisitorStep {
    if !taken {
        VisitorStep::ClientGone
    } else if ended {
        VisitorStep::Finished
    } else {
        VisitorStep::Continue
    }
}

/// The step after one read, given whether the client's queue took the
/// packet that the read called for, if it called for one.
pub open spec fn visitor_step(chunk: Option<Seq<u8>>, taken: bool) -> VisitorStep {
    match visitor_packet(0, chunk) {
        None => VisitorStep::Continue,
        Some(packet) => step_after(packet is End, taken),
    }
}

/// The stream index after a step of the pump: a stream that does not go on
/// is dropped.
pub open spec fn streams_after(
    streams: Map<u64, StreamModel>,
    id: u64,
    step: VisitorStep,
) -> Map<u64, StreamModel> {
    if step == VisitorStep::Continue {
        streams
    } else {
        streams.remove(id)
    }
}

/// The entry of a stream stays as it is while its own pump goes on, and
/// whatever the pumps of other streams do; it is gone once its pump is.
pub proof fn lemma_stream_entry_outlives_steps(
    streams: Map<u64, StreamModel>,
    id: u64,
    other: u64,
    step: VisitorStep,
)
    requires
        streams.contains_key(id),
    ensures
        streams_after(streams, id, VisitorStep::Continue) == streams,
        other != id ==> streams_after(streams, other, step).contains_key(id) && streams_after(
            streams,
            other,
            step,
        )[id] == streams[id],
        step != VisitorStep::Continue ==> !streams_after(streams, id, step).contains_key(id),
{
}

/// Records how a packet of `stream` fared on the client's queue, and tells
/// the pump what to do next. A client whose queue did not take the packet
/// is removed; a stream that does not go on is dropped from the index.
pub fn visitor_packet_outcome(
    stream: &ActiveStream,
    ended: bool,
    taken: bool,
    connections: &mut Connections,
    streams: &mut ActiveStreams,
) -> (out: VisitorStep)
    requires
        old(connections).wf(),
        old(streams).wf(),
    ensures
        final(connections).wf(),
        final(streams).wf(),
        out == step_after(ended, taken),
        final(connections)@ == after_offer(old(connections)@, stream.client@, taken),
        final(streams)@ == streams_after(old(streams)@, stream.id.0, out),
{
    if !taken {
        connections.remove(&stream.client);
        let _ = streams.remove(&stream.id);
        VisitorStep::ClientGone
    } else if ended {
        let _ = streams.remove(&stream.id);
        VisitorStep::Finished
    } else {
        VisitorStep::Continue
    }
}

/// Handles one read of the visitor's socket of `stream`; `None` stands for
/// a socket at its end or in error.
///
/// Bytes go to the client as `Data`, the end as `End`, in the order of the
/// reads. What comes back depends on the read and on whether the client's
/// queue took the packet; the two indices follow from it.
pub fn forward_visitor_chunk(
    stream: &ActiveStream,
    chunk: Option<Vec<u8>>,
    connections: &mut Connections,
    streams: &mut ActiveStreams,
) -> (out: VisitorStep)
    requires
        old(connections).wf(),
        old(streams).wf(),
    ensures
        final(connections).wf(),
        final(streams).wf(),
        out == visitor_step(chunk_bytes(chunk), out != VisitorStep::ClientGone),
        final(connections)@ == after_offer(
            old(connections)@,
            stream.client@,
            out != VisitorStep::ClientGone,
        ),
        final(streams)@ == streams_after(old(streams)@, stream.id.0, out),
{
    match packet_for_chunk(stream.id, chunk) {
        None => VisitorStep::Continue,
        Some(packet) => {
            let ended = match &packet {
                ControlPacket::End(_) => true,
                _ => false,
            };
            let taken = offer(&stream.client.tx, packet);
            visitor_packet_outcome(stream, ended, taken, connections, streams)
        },
    }
}

/// What the pump from client to visitor writes for one message, and
/// whether it closes the socket afterwards.
#[derive(Debug, Clone, PartialEq, Eq)]
pub struct VisitorWrite {
    pub bytes: Vec<u8>,
    pub close: bool,
}

/// The bytes that a visitor is owed for a message: the payload of `Data`,
/// and a refusal in the client's name for `TunnelRefused`.
pub open spec fn visitor_bytes(message: MessageModel) -> Seq<u8> {
    match message {
        MessageModel::Data(bytes) => bytes,
        MessageModel::TunnelRefused => HTTP_TUNNEL_REFUSED_RESPONSE.spec_bytes(),
    }
}

/// What the pump from client to visitor does with one message: `Data` is
/// written as it is, `TunnelRefused` is answered with
/// `HTTP_TUNNEL_REFUSED_RESPONSE` and ends the connection.
pub fn write_for_message(message: StreamMessage) -> (out: VisitorWrite)
    ensures
        out.bytes@ == visitor_bytes(message@),
        out.close == (message@ is TunnelRefused),
{
    match message {
        StreamMessage::Data(bytes) => VisitorWrite { bytes: bytes, close: false },
        StreamMessage::TunnelRefused => VisitorWrite {
            bytes: HTTP_TUNNEL_REFUSED_RESPONSE.as_bytes_vec(),
            close: true,
        },
    }
}

/// The packets that the reads of one visitor put on the client's queue, in
/// the order of the reads.
pub open spec fn stream_packets(id: u64, chunks: Seq<Seq<u8>>) -> Seq<PacketModel>
    decreases chunks.len(),
{
    if chunks.len() == 0 {
        Seq::empty()
    } else {
        let before = stream_packets(id, chunks.drop_last());
        match visitor_packet(id, Some(chunks.last())) {
            Some(packet) => before.push(packet),
            None => before,
        }
    }
}

/// The bytes that a sequence of packets carries for the stream `id`.
pub open spec fn stream_payload(id: u64, packets: Seq<PacketModel>) -> Seq<u8>
    decreases packets.len(),
{
    if packets.len() == 0 {
        Seq::empty()
    } else {
        let before = stream_payload(id, packets.drop_last());
        match packets.last() {
            PacketModel::Data(of, bytes) => if of == id {
                before + bytes
            } else {
                before
            },
            _ => before,
        }
    }
}

/// The chunks of a visitor laid end to end.
pub open spec fn joined(chunks: Seq<Seq<u8>>) -> Seq<u8>
    decreases chunks.len(),
{
    if chunks.len() == 0 {
        Seq::empty()
    } else {
        joined(chunks.drop_last()) + chunks.last()
    }
}

/// The packets of a stream carry the visitor's bytes in the order in which
/// they were read, whatever the chunks were.
pub proof fn lemma_stream_carries_bytes_in_order(id: u64, chunks: Seq<Seq<u8>>)
    ensures
        stream_payload(id, stream_packets(id, chunks)) == joined(chunks),
    decreases chunks.len(),
{
    if chunks.len() > 0 {
        lemma_stream_carries_bytes_in_order(id, chunks.drop_last());
        let before = stream_packets(id, chunks.drop_last());
        if chunks.last().len() == 0 {
            assert(joined(chunks) =~= joined(chunks.drop_last()));
        } else {
            let packet = PacketModel::Data(id, chunks.last());
            assert(before.push(packet).drop_last() =~= before);
        }
    }
}

/// What a queue carries for a stream is what its first part carries,
/// followed by what the rest carries: packets of other streams in between
/// change nothing.
pub proof fn lemma_payload_of_joined_queues(
    id: u64,
    first: Seq<PacketModel>,
    rest: Seq<PacketModel>,
)
    ensures
        stream_payload(id, first + rest) == stream_payload(id, first) + stream_payload(id, rest),
    decreases rest.len(),
{
    if rest.len() == 0 {
        assert(first + rest =~= first);
        assert(stream_payload(id, first) + stream_payload(id, rest) =~= stream_payload(id, first));
    } else {
        lemma_payload_of_joined_queues(id, first, rest.drop_last());
        assert((first + rest).drop_last() =~= first + rest.drop_last());
        assert((first + rest).last() == rest.last());
        let before = stream_payload(id, first + rest.drop_last());
        match rest.last() {
            PacketModel::Data(of, bytes) => {
                if of == id {
                    assert(before + bytes =~= stream_payload(id, first) + (stream_payload(
                        id,
                        rest.drop_last(),
                    ) + bytes));
                }
            },
            _ => {},
        }
    }
}

} // verus!
