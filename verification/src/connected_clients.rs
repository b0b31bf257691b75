//! The clients that hold a control link, indexed by id and by subdomain.

use crate::packet::ControlPacket;
use crate::table::Table;
use futures::channel::mpsc::UnboundedSender;
use vstd::prelude::*;

verus! {

/// Identifies a client across reconnects.
#[derive(Debug, PartialEq, Eq, Hash)]
pub struct ClientId(pub String);

impl View for ClientId {
    type V = Seq<char>;

    open spec fn view(&self) -> Seq<char> {
        self.0@
    }
}

impl Clone for ClientId {
    fn clone(&self) -> (out: ClientId)
        ensures
            out@ == self@,
    {
        ClientId(self.0.clone())
    }
}

impl ClientId {
    /// Whether two ids name the same client.
    pub fn same(&self, other: &ClientId) -> (out: bool)
        ensures
            out == (self@ == other@),
    {
        self.0 == other.0
    }
}

/// A client with an open control link: its id, the subdomain it serves and
/// the queue that its tunnel task drains into the link.
#[derive(Debug)]
pub struct ConnectedClient {
    pub id: ClientId,
    pub host: String,
    pub tx: UnboundedSender<ControlPacket>,
}

/// The mathematical value of a `ConnectedClient`.
pub struct ClientModel {
    pub id: Seq<char>,
    pub host: Seq<char>,
    pub tx: UnboundedSender<ControlPacket>,
}

impl View for ConnectedClient {
    type V = ClientModel;

    open spec fn view(&self) -> ClientModel {
        ClientModel { id: self.id@, host: self.host@, tx: self.tx }
    }
}

impl Clone for ConnectedClient {
    /// A second handle to the same client. The queue handle is a fresh one
    /// of which nothing is known here.
    fn clone(&self) -> (out: ConnectedClient)
        ensures
            out.id@ == self.id@,
            out.host@ == self.host@,
    {
        ConnectedClient { id: self.id.clone(), host: self.host.clone(), tx: self.tx.clone() }
    }
}

/// What the two indices hold: the clients by id, and for each subdomain the
/// id of the client that serves it.
pub struct Registry {
    pub clients: Map<Seq<char>, ClientModel>,
    pub hosts: Map<Seq<char>, Seq<char>>,
}

impl Registry {
    /// The registry of a server that no client has reached yet.
    pub open spec fn empty() -> Registry {
        Registry { clients: Map::empty(), hosts: Map::empty() }
    }

    /// The registry after `c` was added: `c` takes the place of a client
    /// with its id, and its subdomain now leads to it.
    pub open spec fn with_client(self, c: ClientModel) -> Registry {
        Registry { clients: self.clients.insert(c.id, c), hosts: self.hosts.insert(c.host, c.id) }
    }

    /// The registry after `c` was removed: no client has its id, and its
    /// subdomain is dropped if it led to that id. A subdomain that another
    /// client has taken since stays.
    pub open spec fn without_client(self, c: ClientModel) -> Registry {
        Registry {
            clients: self.clients.remove(c.id),
            hosts: if self.client_for_host(c.host) == Some(c.id) {
                self.hosts.remove(c.host)
            } else {
                self.hosts
            },
        }
    }

    /// The id that a subdomain leads to.
    pub open spec fn client_for_host(self, host: Seq<char>) -> Option<Seq<char>> {
        if self.hosts.contains_key(host) {
            Some(self.hosts[host])
        } else {
            None
        }
    }

    /// The client with a given id.
    pub open spec fn get(self, id: Seq<char>) -> Option<ClientModel> {
        if self.clients.contains_key(id) {
            Some(self.clients[id])
        } else {
            None
        }
    }

    /// The client that a subdomain leads to, if it is still connected.
    pub open spec fn find_by_host(self, host: Seq<char>) -> Option<ClientModel> {
        match self.client_for_host(host) {
            Some(id) => self.get(id),
            None => None,
        }
    }

    /// Every client is filed under its own id.
    pub open spec fn filed(self) -> bool {
        forall|id: Seq<char>| #[trigger] self.clients.contains_key(id) ==> self.clients[id].id == id
    }

    /// Every subdomain leads to a connected client that serves it.
    pub open spec fn tidy(self) -> bool {
        forall|host: Seq<char>| #[trigger]
            self.hosts.contains_key(host) ==> self.clients.contains_key(self.hosts[host])
                && self.clients[self.hosts[host]].host == host
    }

    /// `c` may be added or removed without leaving a subdomain behind: no
    /// client with its id is connected under another subdomain.
    pub open spec fn keeps_host(self, c: ClientModel) -> bool {
        self.clients.contains_key(c.id) ==> self.clients[c.id].host == c.host
    }
}

/// The routing indices for clients.
pub struct Connections {
    clients: Table<ConnectedClient>,
    hosts: Table<ClientId>,
}

impl View for Connections {
    type V = Registry;

    closed spec fn view(&self) -> Registry {
        Registry { clients: self.clients@, hosts: self.hosts@ }
    }
}

impl Connections {
    /// The two tables are in order and every client is filed under its id.
    pub closed spec fn wf(&self) -> bool {
        &&& self.clients.wf()
        &&& self.hosts.wf()
        &&& self@.filed()
    }

    /// Indices that hold no client.
    pub fn new() -> (out: Connections)
        ensures
            out.wf(),
            out@ == Registry::empty(),
    {
        Connections { clients: Table::new(), hosts: Table::new() }
    }

    /// Registers `client`. A client with the same id is superseded, and the
    /// subdomain leads to `client` from now on.
    pub fn add(&mut self, client: ConnectedClient)
        requires
            old(self).wf(),
        ensures
            final(self).wf(),
            final(self)@ == old(self)@.with_client(client@),
    {
        let id = client.id.clone();
        self.hosts.insert(client.host.clone(), id);
        self.clients.insert(client.id.0.clone(), client);
        proof {
            assert forall|k: Seq<char>| #[trigger] self@.clients.contains_key(k) implies 
                self@.clients[k].id == k by {
                if k != client@.id {
                    assert(old(self)@.clients.contains_key(k));
                }
            }
        }
    }

    /// Forgets the client with the id of `client`, and its subdomain unless
    /// that leads to another client by now. Removing twice is removing once.
    pub fn remove(&mut self, client: &ConnectedClient)
        requires
            old(self).wf(),
        ensures
            final(self).wf(),
            final(self)@ == old(self)@.without_client(client@),
    {
        let held = match self.hosts.get(&client.host) {
            Some(id) => id.same(&client.id),
            None => false,
        };
        if held {
            self.hosts.remove(&client.host);
        }
        self.clients.remove(&client.id.0);
        proof {
            assert forall|k: Seq<char>| #[trigger] self@.clients.contains_key(k) implies 
                self@.clients[k].id == k by {
                assert(old(self)@.clients.contains_key(k));
            }
        }
    }

    /// The id of the client that serves `host`.
    pub fn client_for_host(&self, host: &String) -> (out: Option<ClientId>)
        requires
            self.wf(),
        ensures
            match out {
                Some(id) => self@.client_for_host(host@) == Some(id@),
                None => self@.client_for_host(host@).is_none(),
            },
    {
        match self.hosts.get(host) {
            Some(id) => Some(id.clone()),
            None => None,
        }
    }

    /// The client with the id `id`.
    pub fn get(&self, id: &ClientId) -> (out: Option<&ConnectedClient>)
        requires
            self.wf(),
        ensures
            match out {
                Some(c) => self@.get(id@) == Some(c@),
                None => self@.get(id@).is_none(),
            },
    {
        self.clients.get(&id.0)
    }

    /// The connected client that serves `host`.
    pub fn find_by_host(&self, host: &String) -> (out: Option<&ConnectedClient>)
        requires
            self.wf(),
        ensures
            match out {
                Some(c) => self@.find_by_host(host@) == Some(c@),
                None => self@.find_by_host(host@).is_none(),
            },
    {
        match self.hosts.get(host) {
            Some(id) => self.clients.get(&id.0),
            None => None,
        }
    }

    /// Number of connected clients.
    pub fn len(&self) -> (out: usize)
        requires
            self.wf(),
        ensures
            self@.clients.dom().finite(),
            out == self@.clients.dom().len(),
    {
        self.clients.len()
    }
}

/// A client that was added is found under its id and under its subdomain.
pub proof fn lemma_added_client_is_routed(r: Registry, c: ClientModel)
    ensures
        r.with_client(c).get(c.id) == Some(c),
        r.with_client(c).client_for_host(c.host) == Some(c.id),
        r.with_client(c).find_by_host(c.host) == Some(c),
{
}

/// A subdomain that leads to `c` keeps doing so while other clients come
/// under other subdomains and while clients with other ids go: only another
/// client on the same subdomain, or the removal of `c`, ends it.
pub proof fn lemma_route_holds_until_removed(r: Registry, c: ClientModel, other: ClientModel)
    requires
        r.client_for_host(c.host) == Some(c.id),
    ensures
        other.host != c.host ==> r.with_client(other).client_for_host(c.host) == Some(c.id),
        other.id != c.id ==> r.without_client(other).client_for_host(c.host) == Some(c.id),
{
}

/// After a client was removed no client has its id and its subdomain does
/// not lead to it; the subdomain leads nowhere unless it led to another
/// client before.
pub proof fn lemma_removed_client_is_gone(r: Registry, c: ClientModel)
    ensures
        r.without_client(c).get(c.id).is_none(),
        r.without_client(c).client_for_host(c.host) != Some(c.id),
        r.without_client(c).client_for_host(c.host) == if r.client_for_host(c.host) == Some(c.id) {
            None
        } else {
            r.client_for_host(c.host)
        },
        r.without_client(c).without_client(c) == r.without_client(c),
{
    assert(r.without_client(c).clients.remove(c.id) =~= r.without_client(c).clients);
}

/// In a registry where every subdomain leads to a connected client that
/// serves it, no subdomain at all names a client after its removal.
pub proof fn lemma_removed_client_is_unnamed(r: Registry, c: ClientModel)
    requires
        r.tidy(),
        r.keeps_host(c),
    ensures
        forall|host: Seq<char>| r.without_client(c).client_for_host(host) != Some(c.id),
        r.without_client(c).tidy(),
{
}

/// Adding keeps every subdomain leading to a connected client that serves
/// it, as long as the client does not change its subdomain on the way.
pub proof fn lemma_add_keeps_tidy(r: Registry, c: ClientModel)
    requires
        r.tidy(),
        r.filed(),
        r.keeps_host(c),
    ensures
        r.with_client(c).tidy(),
        r.with_client(c).filed(),
{
    let after = r.with_client(c);
    assert forall|host: Seq<char>| #[trigger] after.hosts.contains_key(host) implies 
        after.clients.contains_key(after.hosts[host]) && after.clients[after.hosts[host]].host
        == host by {
        if host != c.host {
            assert(r.hosts.contains_key(host));
        }
    }
}

/// Adding and then removing a client leaves its subdomain free.
pub proof fn lemma_add_then_remove(r: Registry, c: ClientModel)
    ensures
        r.with_client(c).without_client(c).client_for_host(c.host).is_none(),
        r.with_client(c).without_client(c).get(c.id).is_none(),
{
}

/// A client that is added again under the same id and subdomain takes the
/// place of the first: the registry is as if only the second had been
/// added, with one entry for the id, equal to the second.
pub proof fn lemma_add_twice(r: Registry, first: ClientModel, second: ClientModel)
    requires
        first.id == second.id,
        first.host == second.host,
    ensures
        r.with_client(first).with_client(second) == r.with_client(second),
        r.with_client(first).with_client(second).get(second.id) == Some(second),
        r.with_client(first).with_client(second).clients.dom() == r.with_client(first).clients.dom(),
{
    let twice = r.with_client(first).with_client(second);
    let once = r.with_client(second);
    assert(twice.clients =~= once.clients);
    assert(twice.hosts =~= once.hosts);
    assert(twice.clients.dom() =~= r.with_client(first).clients.dom());
}

} // verus!
