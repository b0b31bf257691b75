//! The visitor connections in flight, indexed by stream id.

use crate::connected_clients::{ClientModel, ConnectedClient};
use crate::packet::{StreamId, StreamMessage};
use futures::channel::mpsc::UnboundedSender;
use std::collections::HashMap;
use vstd::prelude::*;

verus! {

broadcast use vstd::std_specs::hash::group_hash_axioms;

/// One visitor connection: its id, the client it is tunnelled to, and the
/// queue that the visitor's writer drains.
#[derive(Debug)]
pub struct ActiveStream {
    pub id: StreamId,
    pub client: ConnectedClient,
    pub tx: UnboundedSender<StreamMessage>,
}

/// The mathematical value of an `ActiveStream`.
pub struct StreamModel {
    pub id: u64,
    pub client: ClientModel,
    pub tx: UnboundedSender<StreamMessage>,
}

impl View for ActiveStream {
    type V = StreamModel;

    open spec fn view(&self) -> StreamModel {
        StreamModel { id: self.id.0, client: self.client@, tx: self.tx }
    }
}

impl Clone for ActiveStream {
    /// A second handle to the same stream. The queue handles are fresh ones
    /// of which nothing is known here.
    fn clone(&self) -> (out: ActiveStream)
        ensures
            out.id == self.id,
            out.client.id@ == self.client.id@,
            out.client.host@ == self.client.host@,
    {
        ActiveStream { id: self.id, client: self.client.clone(), tx: self.tx.clone() }
    }
}

/// The routing index for streams.
pub struct ActiveStreams {
    streams: HashMap<u64, ActiveStream>,
}

impl View for ActiveStreams {
    type V = Map<u64, StreamModel>;

    closed spec fn view(&self) -> Map<u64, StreamModel> {
        self.streams@.map_values(|s: ActiveStream| s@)
    }
}

impl ActiveStreams {
    /// Every stream is filed under its own id.
    pub closed spec fn wf(&self) -> bool {
        forall|id: u64| #[trigger] self.streams@.contains_key(id) ==> self.streams@[id].id.0 == id
    }

    /// An index that holds no stream.
    pub fn new() -> (out: ActiveStreams)
        ensures
            out.wf(),
            out@ == Map::<u64, StreamModel>::empty(),
    {
        let out = ActiveStreams { streams: HashMap::new() };
        assert(out@ =~= Map::<u64, StreamModel>::empty());
        out
    }

    /// Files `stream` under its id, in place of a stream that had it.
    pub fn insert(&mut self, stream: ActiveStream)
        requires
            old(self).wf(),
        ensures
            final(self).wf(),
            final(self)@ == old(self)@.insert(stream.id.0, stream@),
    {
        let id: u64 = stream.id.0;
        self.streams.insert(id, stream);
        assert(self@ =~= old(self)@.insert(stream.id.0, stream@));
    }

    /// The stream with the id `id`.
    pub fn get(&self, id: &StreamId) -> (out: Option<&ActiveStream>)
        requires
            self.wf(),
        ensures
            match out {
                Some(s) => self@.contains_key(id.0) && self@[id.0] == s@ && s.id == *id,
                None => !self@.contains_key(id.0),
            },
    {
        self.streams.get(&id.0)
    }

    /// Whether a stream with the id `id` is in flight.
    pub fn contains(&self, id: &StreamId) -> (out: bool)
        requires
            self.wf(),
        ensures
            out == self@.contains_key(id.0),
    {
        self.streams.contains_key(&id.0)
    }

    /// Drops the stream with the id `id` and hands it back, if there was
    /// one.
    pub fn remove(&mut self, id: &StreamId) -> (out: Option<ActiveStream>)
        requires
            old(self).wf(),
        ensures
            final(self).wf(),
            final(self)@ == old(self)@.remove(id.0),
            match out {
                Some(s) => old(self)@.contains_key(id.0) && old(self)@[id.0] == s@ && s.id == *id,
                None => !old(self)@.contains_key(id.0),
            },
    {
        let out = self.streams.remove(&id.0);
        assert(self@ =~= old(self)@.remove(id.0));
        out
    }

    /// Number of streams in flight.
    pub fn len(&self) -> (out: usize)
        requires
            self.wf(),
        ensures
            self@.dom().finite(),
            out == self@.dom().len(),
    {
        assert(self@.dom() =~= self.streams@.dom());
        self.streams.len()
    }
}

/// A stream that was filed is the one entry under its id, and stays so
/// while streams with other ids come and go; removing it leaves none.
pub proof fn lemma_stream_entry_holds_until_removed(
    streams: Map<u64, StreamModel>,
    s: StreamModel,
    other: StreamModel,
)
    ensures
        streams.insert(s.id, s).contains_key(s.id),
        streams.insert(s.id, s)[s.id] == s,
        other.id != s.id ==> streams.insert(s.id, s).insert(other.id, other)[s.id] == s,
        other.id != s.id ==> streams.insert(s.id, s).remove(other.id).contains_key(s.id)
            && streams.insert(s.id, s).remove(other.id)[s.id] == s,
        !streams.insert(s.id, s).remove(s.id).contains_key(s.id),
{
}

} // verus!
