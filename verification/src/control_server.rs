//! The steps of the control side: the handshake, and what the two tasks of
//! a connected client do with each frame and each queued packet.
//!
//! The program around this library owns the links and the timers. It hands
//! every event to one of these functions and carries out what comes back.

use crate::active_stream::{ActiveStream, ActiveStreams};
use crate::channel::offer;
use crate::connected_clients::{ClientId, ClientModel, ConnectedClient, Connections, Registry};
use crate::hello::{
    FirstFrame, FirstFrameModel, Handshake, HandshakeError, HandshakeModel, HelloModel,
};
use crate::packet::{
    decoding, encoding, ControlPacket, DecodeError, MessageModel, PacketModel, StreamId,
    StreamMessage,
};
use crate::sub_domain::{
    is_sub_domain, is_token, is_valid_sub_domain, join_prefix, lemma_token_exists, prefixed,
    random_domain,
};
use crate::text::{lowercase_of, to_lowercase};
use futures::channel::mpsc::UnboundedSender;
use vstd::prelude::*;

verus! {

/// Seconds between a client's ping and the ping that answers it.
pub const PING_INTERVAL: u64 = 30;

/// The subdomain that a client gets, or why it gets none.
///
/// `requested` is the subdomain of the hello in lower case, `token` the
/// random part for a made-up subdomain. A client that names none gets the
/// token. A name that is not legal is refused. An anonymous client gets its
/// name only as a prefix of a made-up one. Any other client gets its name,
/// unless a client with another id serves it.
pub open spec fn resolution(
    id: Seq<char>,
    requested: Option<Seq<char>>,
    is_anonymous: bool,
    token: Seq<char>,
    registry: Registry,
) -> Result<Seq<char>, HandshakeError> {
    match requested {
        None => Ok(token),
        Some(name) => if !is_sub_domain(name) {
            Err(HandshakeError::InvalidSubDomain)
        } else if is_anonymous {
            Ok(prefixed(name, token))
        } else {
            match registry.client_for_host(name) {
                Some(owner) => if owner == id {
                    Ok(name)
                } else {
                    Err(HandshakeError::SubDomainInUse)
                },
                None => Ok(name),
            }
        },
    }
}

/// Whether a resolved subdomain, or an error, is the value of an executable
/// one.
pub open spec fn resolved_as(
    out: Result<String, HandshakeError>,
    model: Result<Seq<char>, HandshakeError>,
) -> bool {
    match out {
        Ok(name) => model == Ok::<Seq<char>, HandshakeError>(name@),
        Err(e) => model == Err::<Seq<char>, HandshakeError>(e),
    }
}

/// The view of an optional string.
pub open spec fn name_of(s: Option<String>) -> Option<Seq<char>> {
    match s {
        Some(name) => Some(name@),
        None => None,
    }
}

/// Resolves the subdomain of a client from the lower-case form of what it
/// asked for and a random part to use if one is needed.
pub fn resolve_sub_domain(
    id: &ClientId,
    requested: Option<String>,
    is_anonymous: bool,
    token: String,
    connections: &Connections,
) -> (out: Result<String, HandshakeError>)
    requires
        connections.wf(),
    ensures
        resolved_as(out, resolution(id@, name_of(requested), is_anonymous, token@, connections@)),
{
    match requested {
        None => Ok(token),
        Some(name) => {
            if !is_valid_sub_domain(name.as_str()) {
                Err(HandshakeError::InvalidSubDomain)
            } else if is_anonymous {
                Ok(join_prefix(name.as_str(), token.as_str()))
            } else {
                match connections.client_for_host(&name) {
                    Some(owner) => {
                        if owner.same(id) {
                            Ok(name)
                        } else {
                            Err(HandshakeError::SubDomainInUse)
                        }
                    },
                    None => Ok(name),
                }
            }
        },
    }
}

/// The lower-case form of an optional name.
pub open spec fn lowered(requested: Option<Seq<char>>) -> Option<Seq<char>> {
    match requested {
        Some(name) => Some(lowercase_of(name)),
        None => None,
    }
}

/// How the handshake ends for what came first on the link, given the
/// random part that was drawn for it.
pub open spec fn handshake(
    first: FirstFrameModel,
    token: Seq<char>,
    registry: Registry,
) -> HandshakeModel {
    match first {
        FirstFrameModel::Missing => HandshakeModel::Refused(HandshakeError::Transport),
        FirstFrameModel::Forged => HandshakeModel::Refused(HandshakeError::AuthFailed),
        FirstFrameModel::Hello(hello) => match resolution(
            hello.id,
            lowered(hello.sub_domain),
            hello.is_anonymous,
            token,
            registry,
        ) {
            Ok(name) => HandshakeModel::Accepted { id: hello.id, sub_domain: name },
            Err(e) => HandshakeModel::Refused(e),
        },
    }
}

/// Decides the handshake for what came first on a fresh link. The registry
/// is read, never written.
///
/// The result is `handshake` of the frame for some random part; where no
/// random part is needed it is the same for all of them.
pub fn try_client_handshake(first: FirstFrame, connections: &Connections) -> (out: Handshake)
    requires
        connections.wf(),
    ensures
        exists|token: Seq<char>| is_token(token) && out@ == handshake(first@, token, connections@),
{
    match first {
        FirstFrame::Missing => {
            proof {
                lemma_token_exists();
            }
            Handshake::Refused(HandshakeError::Transport)
        },
        FirstFrame::Forged => {
            proof {
                lemma_token_exists();
            }
            Handshake::Refused(HandshakeError::AuthFailed)
        },
        FirstFrame::Hello(hello) => {
            let requested = match &hello.sub_domain {
                Some(name) => Some(to_lowercase(name.as_str())),
                None => None,
            };
            let token = random_domain();
            let ghost t = token@;
            let resolved = resolve_sub_domain(
                &hello.id,
                requested,
                hello.is_anonymous,
                token,
                connections,
            );
            let out = match resolved {
                Ok(name) => Handshake::Accepted { id: hello.id, sub_domain: name },
                Err(e) => Handshake::Refused(e),
            };
            assert(is_token(t) && out@ == handshake(first@, t, connections@));
            out
        },
    }
}

/// The registry after a handshake: the client is added once it was
/// accepted and the answer went out, and not otherwise.
pub open spec fn registered(
    registry: Registry,
    handshake: HandshakeModel,
    reply_sent: bool,
    tx: UnboundedSender<ControlPacket>,
) -> Registry {
    match handshake {
        HandshakeModel::Accepted { id, sub_domain } => if reply_sent {
            registry.with_client(ClientModel { id: id, host: sub_domain, tx: tx })
        } else {
            registry
        },
        HandshakeModel::Refused(_) => registry,
    }
}

/// Finishes a handshake once its answer was written, or could not be.
///
/// An accepted client whose answer went out is registered with `tx` as its
/// queue, and a handle to it comes back for the two tasks of the client.
/// In every other case nothing is registered.
pub fn handle_new_connection(
    connections: &mut Connections,
    handshake: Handshake,
    reply_sent: bool,
    tx: UnboundedSender<ControlPacket>,
) -> (out: Option<ConnectedClient>)
    requires
        old(connections).wf(),
    ensures
        final(connections).wf(),
        final(connections)@ == registered(old(connections)@, handshake@, reply_sent, tx),
        match out {
            Some(client) => handshake@ == (HandshakeModel::Accepted {
                id: client.id@,
                sub_domain: client.host@,
            }) && reply_sent,
            None => !reply_sent || handshake is Refused,
        },
{
    match handshake {
        Handshake::Accepted { id, sub_domain } => {
            if reply_sent {
                let client = ConnectedClient { id: id, host: sub_domain, tx: tx };
                let handle = client.clone();
                connections.add(client);
                Some(handle)
            } else {
                None
            }
        },
        Handshake::Refused(_) => None,
    }
}

/// A hello that asks for a name with anything but letters and digits in it
/// is refused, whatever the registry holds, and leaves the registry as it
/// was.
pub proof fn lemma_invalid_sub_domain_changes_nothing(
    hello: HelloModel,
    token: Seq<char>,
    registry: Registry,
    reply_sent: bool,
    tx: UnboundedSender<ControlPacket>,
)
    requires
        hello.sub_domain matches Some(name) && !is_sub_domain(lowercase_of(name)),
    ensures
        handshake(FirstFrameModel::Hello(hello), token, registry) == HandshakeModel::Refused(
            HandshakeError::InvalidSubDomain,
        ),
        registered(
            registry,
            handshake(FirstFrameModel::Hello(hello), token, registry),
            reply_sent,
            tx,
        ) == registry,
{
}

/// A subdomain that the handshake grants is a legal name, or a legal name,
/// a hyphen and a random part.
pub proof fn lemma_granted_sub_domain_is_legal(
    first: FirstFrameModel,
    token: Seq<char>,
    registry: Registry,
)
    requires
        is_token(token),
    ensures
        handshake(first, token, registry) matches HandshakeModel::Accepted { id, sub_domain }
            ==> is_sub_domain(sub_domain) || exists|name: Seq<char>|
            is_sub_domain(name) && sub_domain == prefixed(name, token),
{
    match first {
        FirstFrameModel::Hello(hello) => {
            match lowered(hello.sub_domain) {
                Some(name) => {
                    if is_sub_domain(name) && hello.is_anonymous {
                        assert(is_sub_domain(name) && prefixed(name, token) == prefixed(
                            name,
                            token,
                        ));
                    }
                },
                None => {},
            }
        },
        _ => {},
    }
}

/// The registry after a packet was offered to the queue of `client`: a
/// client whose queue no longer takes packets is gone and is removed.
pub open spec fn after_offer(registry: Registry, client: ClientModel, taken: bool) -> Registry {
    if taken {
        registry
    } else {
        registry.without_client(client)
    }
}

/// Records how an offer to the queue of `client` went, and tells whether
/// the client is still there.
pub fn client_offer_outcome(
    connections: &mut Connections,
    client: &ConnectedClient,
    taken: bool,
) -> (alive: bool)
    requires
        old(connections).wf(),
    ensures
        final(connections).wf(),
        alive == taken,
        final(connections)@ == after_offer(old(connections)@, client@, taken),
{
    if !taken {
        connections.remove(client);
    }
    taken
}

/// The packet that announces a stream to its client.
pub fn stream_init_packet(stream: &ActiveStream) -> (out: ControlPacket)
    ensures
        out@ == PacketModel::Init(stream.id.0),
{
    ControlPacket::Init(stream.id)
}

/// Announces a stream to its client by queueing `Init`, and removes the
/// client if its queue does not take the packet. Tells whether it did.
pub fn send_client_stream_init(stream: &ActiveStream, connections: &mut Connections) -> (sent:
    bool)
    requires
        old(connections).wf(),
    ensures
        final(connections).wf(),
        final(connections)@ == after_offer(old(connections)@, stream.client@, sent),
{
    let taken = offer(&stream.client.tx, stream_init_packet(stream));
    client_offer_outcome(connections, &stream.client, taken)
}

/// What the reader of a control link makes of one read.
#[derive(Debug, Clone, PartialEq, Eq)]
pub enum Dispatch {
    /// The link is over: it ended, failed, or carried an empty frame.
    Goodbye,
    /// The frame is no packet.
    Malformed(DecodeError),
    /// The frame is a packet that a client may not send.
    Unexpected,
    /// The frame carries a message for a visitor.
    Forward(StreamId, StreamMessage),
    /// The client pinged.
    Pong,
}

/// The mathematical value of a `Dispatch`.
pub enum DispatchModel {
    Goodbye,
    Malformed(DecodeError),
    Unexpected,
    Forward(u64, MessageModel),
    Pong,
}

impl View for Dispatch {
    type V = DispatchModel;

    open spec fn view(&self) -> DispatchModel {
        match self {
            Dispatch::Goodbye => DispatchModel::Goodbye,
            Dispatch::Malformed(e) => DispatchModel::Malformed(*e),
            Dispatch::Unexpected => DispatchModel::Unexpected,
            Dispatch::Forward(id, message) => DispatchModel::Forward(id.0, message@),
            Dispatch::Pong => DispatchModel::Pong,
        }
    }
}

/// What one read of a control link means. `None` stands for a link that
/// ended or failed.
///
/// `Data` and `Refused` go to the visitor of their stream. `Init` and `End`
/// are not for a client to send, and a frame that does not decode is
/// skipped: neither ends the link.
pub open spec fn dispatch(frame: Option<Seq<u8>>) -> DispatchModel {
    match frame {
        None => DispatchModel::Goodbye,
        Some(bytes) => if bytes.len() == 0 {
            DispatchModel::Goodbye
        } else {
            match decoding(bytes) {
                Ok(PacketModel::Data(id, data)) => DispatchModel::Forward(
                    id,
                    MessageModel::Data(data),
                ),
                Ok(PacketModel::Refused(id)) => DispatchModel::Forward(
                    id,
                    MessageModel::TunnelRefused,
                ),
                Ok(PacketModel::Ping) => DispatchModel::Pong,
                Ok(PacketModel::Init(_)) => DispatchModel::Unexpected,
                Ok(PacketModel::End(_)) => DispatchModel::Unexpected,
                Err(e) => DispatchModel::Malformed(e),
            }
        },
    }
}

/// The bytes of an optional frame.
pub open spec fn frame_bytes(frame: Option<&[u8]>) -> Option<Seq<u8>> {
    match frame {
        Some(bytes) => Some(bytes@),
        None => None,
    }
}

/// Reads what one read of a control link means.
pub fn classify_frame(frame: Option<&[u8]>) -> (out: Dispatch)
    ensures
        out@ == dispatch(frame_bytes(frame)),
{
    match frame {
        None => Dispatch::Goodbye,
        Some(bytes) => {
            if bytes.len() == 0 {
                return Dispatch::Goodbye;
            }
            match ControlPacket::deserialize(bytes) {
                Ok(ControlPacket::Data(id, data)) => Dispatch::Forward(
                    id,
                    StreamMessage::Data(data),
                ),
                Ok(ControlPacket::Refused(id)) => Dispatch::Forward(
                    id,
                    StreamMessage::TunnelRefused,
                ),
                Ok(ControlPacket::Ping) => Dispatch::Pong,
                Ok(ControlPacket::Init(_)) => Dispatch::Unexpected,
                Ok(ControlPacket::End(_)) => Dispatch::Unexpected,
                Err(e) => Dispatch::Malformed(e),
            }
        },
    }
}

/// What the reader task does after one read.
#[derive(Debug, Clone, PartialEq, Eq)]
pub enum ReaderStep {
    /// Read the next frame.
    Continue,
    /// Queue `packet` for the client once `after_secs` seconds have passed,
    /// and read the next frame meanwhile.
    Reply { after_secs: u64, packet: ControlPacket },
    /// The client is gone: stop reading.
    Stop,
}

/// The mathematical value of a `ReaderStep`.
pub enum ReaderStepModel {
    Continue,
    Reply { after_secs: u64, packet: PacketModel },
    Stop,
}

impl View for ReaderStep {
    type V = ReaderStepModel;

    open spec fn view(&self) -> ReaderStepModel {
        match self {
            ReaderStep::Continue => ReaderStepModel::Continue,
            ReaderStep::Reply { after_secs, packet } => ReaderStepModel::Reply {
                after_secs: *after_secs,
                packet: packet@,
            },
            ReaderStep::Stop => ReaderStepModel::Stop,
        }
    }
}

/// The step that follows a read: a ping is answered by a ping after
/// `PING_INTERVAL`, the end of the link stops the reader, everything else
/// lets it go on.
pub open spec fn reader_step(d: DispatchModel) -> ReaderStepModel {
    match d {
        DispatchModel::Goodbye => ReaderStepModel::Stop,
        DispatchModel::Pong => ReaderStepModel::Reply {
            after_secs: PING_INTERVAL,
            packet: PacketModel::Ping,
        },
        _ => ReaderStepModel::Continue,
    }
}

/// Hands a message from a client to the visitor of its stream. A stream
/// that is not in flight, or whose visitor no longer listens, lets the
/// message drop. Tells whether the visitor's queue took it.
pub fn forward_to_stream(streams: &ActiveStreams, id: &StreamId, message: StreamMessage) -> (taken:
    bool)
    requires
        streams.wf(),
    ensures
        taken ==> streams@.contains_key(id.0),
{
    match streams.get(id) {
        Some(stream) => offer(&stream.tx, message),
        None => false,
    }
}

/// Handles one read of the control link of `client`.
///
/// The end of the link removes the client. A message for a visitor is
/// handed to its stream. The registry changes in no other case, and the
/// step that comes back depends on the frame alone.
pub fn process_client_messages(
    client: &ConnectedClient,
    frame: Option<&[u8]>,
    connections: &mut Connections,
    streams: &ActiveStreams,
) -> (out: ReaderStep)
    requires
        old(connections).wf(),
        streams.wf(),
    ensures
        final(connections).wf(),
        out@ == reader_step(dispatch(frame_bytes(frame))),
        final(connections)@ == if dispatch(frame_bytes(frame)) is Goodbye {
            old(connections)@.without_client(client@)
        } else {
            old(connections)@
        },
{
    match classify_frame(frame) {
        Dispatch::Goodbye => {
            connections.remove(client);
            ReaderStep::Stop
        },
        Dispatch::Malformed(_) => ReaderStep::Continue,
        Dispatch::Unexpected => ReaderStep::Continue,
        Dispatch::Forward(id, message) => {
            let _ = forward_to_stream(streams, &id, message);
            ReaderStep::Continue
        },
        Dispatch::Pong => ReaderStep::Reply { after_secs: PING_INTERVAL, packet: ControlPacket::Ping },
    }
}

/// The frame of an optional packet.
pub open spec fn next_frame(queued: Option<ControlPacket>) -> Option<Seq<u8>> {
    match queued {
        Some(packet) => Some(encoding(packet@)),
        None => None,
    }
}

/// What the tunnel task writes next: the frame of the packet that came off
/// the client's queue, or nothing once the queue is closed, which ends the
/// task.
pub fn tunnel_client(queued: Option<ControlPacket>) -> (out: Option<Vec<u8>>)
    ensures
        match out {
            Some(bytes) => next_frame(queued) == Some(bytes@),
            None => next_frame(queued).is_none(),
        },
{
    match queued {
        Some(packet) => Some(packet.serialize()),
        None => None,
    }
}

/// Records how the write of a frame to the link of `client` went, and
/// tells whether the tunnel task goes on. A client whose link does not take
/// the frame is removed.
pub fn tunnel_client_written(
    client: &ConnectedClient,
    written: bool,
    connections: &mut Connections,
) -> (go_on: bool)
    requires
        old(connections).wf(),
    ensures
        final(connections).wf(),
        go_on == written,
        final(connections)@ == after_offer(old(connections)@, client@, written),
{
    client_offer_outcome(connections, client, written)
}

} // verus!
