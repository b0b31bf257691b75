//! The two messages of the handshake.

use crate::connected_clients::ClientId;
use vstd::prelude::*;

verus! {

/// What a client asks for when it opens its control link. A hello reaches
/// this library only after its signature was checked.
#[derive(Debug, Clone, PartialEq, Eq)]
pub struct ClientHello {
    pub id: ClientId,
    pub sub_domain: Option<String>,
    pub is_anonymous: bool,
}

/// The mathematical value of a `ClientHello`.
pub struct HelloModel {
    pub id: Seq<char>,
    pub sub_domain: Option<Seq<char>>,
    pub is_anonymous: bool,
}

impl View for ClientHello {
    type V = HelloModel;

    open spec fn view(&self) -> HelloModel {
        HelloModel {
            id: self.id@,
            sub_domain: match self.sub_domain {
                Some(s) => Some(s@),
                None => None,
            },
            is_anonymous: self.is_anonymous,
        }
    }
}

/// The server's answer to a hello.
#[derive(Debug, Clone, PartialEq, Eq)]
pub enum ServerHello {
    Success { sub_domain: String },
    SubDomainInUse,
    InvalidSubDomain,
    AuthFailed,
}

/// The mathematical value of a `ServerHello`.
pub enum ReplyModel {
    Success(Seq<char>),
    SubDomainInUse,
    InvalidSubDomain,
    AuthFailed,
}

impl View for ServerHello {
    type V = ReplyModel;

    open spec fn view(&self) -> ReplyModel {
        match self {
            ServerHello::Success { sub_domain } => ReplyModel::Success(sub_domain@),
            ServerHello::SubDomainInUse => ReplyModel::SubDomainInUse,
            ServerHello::InvalidSubDomain => ReplyModel::InvalidSubDomain,
            ServerHello::AuthFailed => ReplyModel::AuthFailed,
        }
    }
}

/// Why a handshake ends without a client.
#[derive(Debug, Clone, Copy, PartialEq, Eq, Structural)]
pub enum HandshakeError {
    /// The hello's signature did not hold.
    AuthFailed,
    /// The requested subdomain is not made of letters and digits.
    InvalidSubDomain,
    /// The requested subdomain is served by another client.
    SubDomainInUse,
    /// No hello arrived.
    Transport,
}

impl HandshakeError {
    /// The answer that the client is owed; a link that carried no hello
    /// gets none.
    pub open spec fn reply_model(self) -> Option<ReplyModel> {
        match self {
            HandshakeError::AuthFailed => Some(ReplyModel::AuthFailed),
            HandshakeError::InvalidSubDomain => Some(ReplyModel::InvalidSubDomain),
            HandshakeError::SubDomainInUse => Some(ReplyModel::SubDomainInUse),
            HandshakeError::Transport => None,
        }
    }
}

/// How a handshake ended.
#[derive(Debug, Clone, PartialEq, Eq)]
pub enum Handshake {
    /// The client is welcome under `sub_domain`.
    Accepted { id: ClientId, sub_domain: String },
    Refused(HandshakeError),
}

/// The mathematical value of a `Handshake`.
pub enum HandshakeModel {
    Accepted { id: Seq<char>, sub_domain: Seq<char> },
    Refused(HandshakeError),
}

impl HandshakeModel {
    /// The answer that goes out before the link is used or closed.
    pub open spec fn reply(self) -> Option<ReplyModel> {
        match self {
            HandshakeModel::Accepted { id, sub_domain } => Some(ReplyModel::Success(sub_domain)),
            HandshakeModel::Refused(e) => e.reply_model(),
        }
    }
}

impl View for Handshake {
    type V = HandshakeModel;

    open spec fn view(&self) -> HandshakeModel {
        match self {
            Handshake::Accepted { id, sub_domain } => HandshakeModel::Accepted {
                id: id@,
                sub_domain: sub_domain@,
            },
            Handshake::Refused(e) => HandshakeModel::Refused(*e),
        }
    }
}

/// Whether an answer, or none, is the value of an executable one.
pub open spec fn reply_is(out: Option<ServerHello>, model: Option<ReplyModel>) -> bool {
    match out {
        Some(r) => model == Some(r@),
        None => model.is_none(),
    }
}

impl Handshake {
    /// The answer that goes out before the link is used or closed.
    pub fn reply(&self) -> (out: Option<ServerHello>)
        ensures
            reply_is(out, self@.reply()),
    {
        match self {
            Handshake::Accepted { id, sub_domain } => Some(
                ServerHello::Success { sub_domain: sub_domain.clone() },
            ),
            Handshake::Refused(HandshakeError::AuthFailed) => Some(ServerHello::AuthFailed),
            Handshake::Refused(HandshakeError::InvalidSubDomain) => Some(
                ServerHello::InvalidSubDomain,
            ),
            Handshake::Refused(HandshakeError::SubDomainInUse) => Some(ServerHello::SubDomainInUse),
            Handshake::Refused(HandshakeError::Transport) => None,
        }
    }
}

/// What came first on a fresh control link.
#[derive(Debug, Clone, PartialEq, Eq)]
pub enum FirstFrame {
    /// Nothing, or an error, within the time allowed.
    Missing,
    /// A frame that is no hello signed with the server's secret.
    Forged,
    /// A hello whose signature holds.
    Hello(ClientHello),
}

/// The mathematical value of a `FirstFrame`.
pub enum FirstFrameModel {
    Missing,
    Forged,
    Hello(HelloModel),
}

impl View for FirstFrame {
    type V = FirstFrameModel;

    open spec fn view(&self) -> FirstFrameModel {
        match self {
            FirstFrame::Missing => FirstFrameModel::Missing,
            FirstFrame::Forged => FirstFrameModel::Forged,
            FirstFrame::Hello(h) => FirstFrameModel::Hello(h@),
        }
    }
}

} // verus!
