//! The connection bookkeeping of the persistent message server: each client
//! announces itself over TCP and then over UDP; the first client that connects
//! becomes the authoritative one, and every other message is acknowledged.
use vstd::prelude::*;
use std::collections::HashMap;

verus! {

broadcast use vstd::std_specs::hash::group_hash_axioms;

/// The messages exchanged between the persistent clients and the server.
#[derive(Clone, Copy, PartialEq, Eq, Structural, Debug)]
pub enum Message {
    /// A client with the given id opens its TCP connection.
    ConnectTcp(u64),
    /// A client with the given id opens its UDP connection.
    ConnectUdp(u64),
    /// Acknowledges a message.
    Okay,
    /// Acknowledges a UDP connection.
    OkUdp,
}

/// The endpoints of a client: its TCP endpoint, and its UDP endpoint once known.
#[derive(Debug)]
pub struct Connection<E> {
    pub tcp: E,
    pub udp: Option<E>,
}

/// What the network layer reports to the server.
#[derive(Debug)]
pub enum NetEvent<E> {
    /// An outgoing connection was established; the server makes none.
    Connected(E),
    /// A listener accepted a connection.
    Accepted(E),
    /// A message arrived from an endpoint: the message, or `None` where its
    /// bytes do not decode as one.
    Message(E, Option<Message>),
    /// A connection was lost.
    Disconnected(E),
}

/// The ways in which an event stops the server.
#[derive(Clone, Copy, PartialEq, Eq, Structural, Debug)]
pub enum ServerFault {
    /// A `Connected` event, which the server never causes.
    UnexpectedConnect,
    /// A message whose bytes do not decode.
    UndecodableMessage,
    /// A second TCP connection under an id that is already connected.
    DoubleTcp,
    /// A second UDP connection under an id.
    DoubleUdp,
    /// A UDP connection under an id that has no TCP connection.
    UnknownUdp,
}

/// The id that marks that no client is authoritative yet.
pub const NO_AUTH: u64 = 0xffff_ffff_ffff_ffff;

/// The abstract state of the server.
pub struct ServerView<E> {
    pub port: u16,
    /// The id of the authoritative client, or `NO_AUTH`.
    pub auth: u64,
    pub connections: Map<u64, Connection<E>>,
}

/// The outcome of an event: the reply to send, if any, or the fault that stops the server.
pub type Outcome<E> = Result<Option<(E, Message)>, ServerFault>;

/// The state after `ev`, and its outcome. A fault leaves the state unchanged,
/// except a second TCP connection under a connected id, whose new endpoint is
/// recorded (with no UDP endpoint) before the fault is reported.
pub open spec fn step<E>(s: ServerView<E>, ev: NetEvent<E>) -> (ServerView<E>, Outcome<E>) {
    match ev {
        NetEvent::Connected(_) => (s, Err(ServerFault::UnexpectedConnect)),
        NetEvent::Accepted(_) => (s, Ok(None)),
        NetEvent::Disconnected(_) => (s, Ok(None)),
        NetEvent::Message(_, None) => (s, Err(ServerFault::UndecodableMessage)),
        NetEvent::Message(ep, Some(Message::ConnectTcp(id))) => {
            if s.connections.contains_key(id) {
                (
                    ServerView {
                        port: s.port,
                        auth: s.auth,
                        connections: s.connections.insert(id, Connection { tcp: ep, udp: None }),
                    },
                    Err(ServerFault::DoubleTcp),
                )
            } else {
                (
                    ServerView {
                        port: s.port,
                        auth: if s.auth == NO_AUTH {
                            id
                        } else {
                            s.auth
                        },
                        connections: s.connections.insert(id, Connection { tcp: ep, udp: None }),
                    },
                    Ok(None),
                )
            }
        },
        NetEvent::Message(ep, Some(Message::ConnectUdp(id))) => {
            if !s.connections.contains_key(id) {
                (s, Err(ServerFault::UnknownUdp))
            } else if s.connections[id].udp is Some {
                (s, Err(ServerFault::DoubleUdp))
            } else {
                let tcp = s.connections[id].tcp;
                (
                    ServerView {
                        port: s.port,
                        auth: s.auth,
                        connections: s.connections.insert(id, Connection { tcp, udp: Some(ep) }),
                    },
                    Ok(Some((tcp, Message::OkUdp))),
                )
            }
        },
        NetEvent::Message(ep, Some(_)) => (s, Ok(Some((ep, Message::Okay)))),
    }
}

/// The server's invariant: an authoritative client is a connected one.
pub open spec fn server_wf<E>(s: ServerView<E>) -> bool {
    s.auth == NO_AUTH || s.connections.contains_key(s.auth)
}

/// The state of the persistent message server.
pub struct ServerState<E> {
    port: u16,
    auth: u64,
    connections: HashMap<u64, Connection<E>>,
}

impl<E> View for ServerState<E> {
    type V = ServerView<E>;

    closed spec fn view(&self) -> ServerView<E> {
        ServerView { port: self.port, auth: self.auth, connections: self.connections@ }
    }
}

impl<E: Copy> ServerState<E> {
    /// A server on `port` without clients and without an authoritative client.
    pub fn new(port: u16) -> (r: Self)
        ensures
            r@ == (ServerView::<E> { port, auth: NO_AUTH, connections: Map::empty() }),
            server_wf(r@),
    {
        ServerState { port, auth: NO_AUTH, connections: HashMap::new() }
    }

    /// The port that the server listens on.
    pub fn port(&self) -> (p: u16)
        ensures
            p == self@.port,
    {
        self.port
    }

    /// The id of the authoritative client, or `NO_AUTH`.
    pub fn auth(&self) -> (a: u64)
        ensures
            a == self@.auth,
    {
        self.auth
    }

    /// Handles one event of the network layer.
    pub fn handle_event(&mut self, ev: NetEvent<E>) -> (r: Outcome<E>)
        ensures
            (final(self)@, r) == step(old(self)@, ev),
            final(self)@.port == old(self)@.port,
            ev matches NetEvent::Message(ep, Some(m)) ==> (!(m is ConnectTcp) && !(m is ConnectUdp)
                ==> r == Ok::<Option<(E, Message)>, ServerFault>(Some((ep, Message::Okay)))
                && final(self)@ == old(self)@),
            ev matches NetEvent::Message(ep, Some(Message::ConnectTcp(id))) ==> (
            !old(self)@.connections.contains_key(id) ==> {
                &&& r == Ok::<Option<(E, Message)>, ServerFault>(None)
                &&& final(self)@.connections == old(self)@.connections.insert(
                    id,
                    Connection { tcp: ep, udp: None },
                )
                &&& final(self)@.auth == (if old(self)@.auth == NO_AUTH {
                    id
                } else {
                    old(self)@.auth
                })
            }),
            ev matches NetEvent::Message(ep, Some(Message::ConnectTcp(id))) ==> (
            old(self)@.connections.contains_key(id) ==> {
                &&& r == Err::<Option<(E, Message)>, ServerFault>(ServerFault::DoubleTcp)
                &&& final(self)@.connections == old(self)@.connections.insert(
                    id,
                    Connection { tcp: ep, udp: None },
                )
                &&& final(self)@.auth == old(self)@.auth
            }),
            ev matches NetEvent::Message(ep, Some(Message::ConnectUdp(id))) ==> {
                &&& !old(self)@.connections.contains_key(id) ==> r == Err::<
                    Option<(E, Message)>,
                    ServerFault,
                >(ServerFault::UnknownUdp) && final(self)@ == old(self)@
                &&& old(self)@.connections.contains_key(id) && old(self)@.connections[id].udp is Some
                    ==> r == Err::<Option<(E, Message)>, ServerFault>(ServerFault::DoubleUdp)
                    && final(self)@ == old(self)@
                &&& old(self)@.connections.contains_key(id) && old(self)@.connections[id].udp is None
                    ==> {
                    &&& r == Ok::<Option<(E, Message)>, ServerFault>(
                        Some((old(self)@.connections[id].tcp, Message::OkUdp)),
                    )
                    &&& final(self)@.connections == old(self)@.connections.insert(
                        id,
                        Connection { tcp: old(self)@.connections[id].tcp, udp: Some(ep) },
                    )
                    &&& final(self)@.auth == old(self)@.auth
                }
            },
            ev matches NetEvent::Message(_, None) ==> r == Err::<Option<(E, Message)>, ServerFault>(
                ServerFault::UndecodableMessage,
            ) && final(self)@ == old(self)@,
            ev is Connected ==> r == Err::<Option<(E, Message)>, ServerFault>(
                ServerFault::UnexpectedConnect,
            ) && final(self)@ == old(self)@,
            ev is Accepted || ev is Disconnected ==> r == Ok::<Option<(E, Message)>, ServerFault>(None)
                && final(self)@ == old(self)@,
    {
        match ev {
            NetEvent::Connected(_) => Err(ServerFault::UnexpectedConnect),
            NetEvent::Accepted(_) => Ok(None),
            NetEvent::Disconnected(_) => Ok(None),
            NetEvent::Message(_, None) => Err(ServerFault::UndecodableMessage),
            NetEvent::Message(ep, Some(Message::ConnectTcp(id))) => {
                match self.connections.insert(id, Connection { tcp: ep, udp: None }) {
                    Some(_) => Err(ServerFault::DoubleTcp),
                    None => {
                        if self.auth == NO_AUTH {
                            self.auth = id;
                        }
                        Ok(None)
                    },
                }
            },
            NetEvent::Message(ep, Some(Message::ConnectUdp(id))) => {
                match self.connections.get(&id) {
                    None => Err(ServerFault::UnknownUdp),
                    Some(c) => {
                        if c.udp.is_some() {
                            Err(ServerFault::DoubleUdp)
                        } else {
                            let tcp = c.tcp;
                            self.connections.insert(id, Connection { tcp, udp: Some(ep) });
                            Ok(Some((tcp, Message::OkUdp)))
                        }
                    },
                }
            },
            NetEvent::Message(ep, Some(_)) => Ok(Some((ep, Message::Okay))),
        }
    }
}

/// Every event keeps the invariant: an authoritative client is a connected one.
pub proof fn lemma_step_keeps_wf<E>(s: ServerView<E>, ev: NetEvent<E>)
    requires
        server_wf(s),
    ensures
        server_wf(step(s, ev).0),
{
}

/// Once a client is authoritative it stays so, whatever happens next.
pub proof fn lemma_auth_is_kept<E>(s: ServerView<E>, ev: NetEvent<E>)
    requires
        s.auth != NO_AUTH,
    ensures
        step(s, ev).0.auth == s.auth,
{
}

/// The first client that opens a TCP connection becomes the authoritative one.
pub proof fn lemma_first_tcp_becomes_auth<E>(s: ServerView<E>, ep: E, id: u64)
    requires
        s.auth == NO_AUTH,
        !s.connections.contains_key(id),
    ensures
        step(s, NetEvent::Message(ep, Some(Message::ConnectTcp(id)))).0.auth == id,
        step(s, NetEvent::Message(ep, Some(Message::ConnectTcp(id)))).1 == Ok::<
            Option<(E, Message)>,
            ServerFault,
        >(None),
{
}

/// Connections are never dropped; and unless the event stops the server, a
/// client's TCP endpoint never changes, and a UDP endpoint, once recorded,
/// never changes.
pub proof fn lemma_connections_are_kept<E>(s: ServerView<E>, ev: NetEvent<E>, id: u64)
    requires
        s.connections.contains_key(id),
    ensures
        step(s, ev).0.connections.contains_key(id),
        step(s, ev).1 is Ok ==> step(s, ev).0.connections[id].tcp == s.connections[id].tcp,
        step(s, ev).1 is Ok && s.connections[id].udp is Some ==> step(s, ev).0.connections[id].udp
            == s.connections[id].udp,
{
}

/// An event that stops the server leaves its state as it was, except a second
/// TCP connection under a connected id, which replaces that client's endpoints.
pub proof fn lemma_fault_changes_nothing<E>(s: ServerView<E>, ev: NetEvent<E>)
    ensures
        step(s, ev).1 is Err && step(s, ev).1 != Err::<Option<(E, Message)>, ServerFault>(
            ServerFault::DoubleTcp,
        ) ==> step(s, ev).0 == s,
        step(s, ev).1 == Err::<Option<(E, Message)>, ServerFault>(ServerFault::DoubleTcp) ==> {
            &&& ev matches NetEvent::Message(ep, Some(Message::ConnectTcp(id)))
            &&& step(s, ev).0 == (ServerView {
                port: s.port,
                auth: s.auth,
                connections: s.connections.insert(id, Connection { tcp: ep, udp: None }),
            })
        },
{
}

/// A UDP connection of a client connected over TCP is acknowledged on that
/// client's TCP endpoint, and recorded.
pub proof fn lemma_udp_acknowledged<E>(s: ServerView<E>, ep: E, id: u64)
    requires
        s.connections.contains_key(id),
        s.connections[id].udp is None,
    ensures
        step(s, NetEvent::Message(ep, Some(Message::ConnectUdp(id)))).1 == Ok::<
            Option<(E, Message)>,
            ServerFault,
        >(Some((s.connections[id].tcp, Message::OkUdp))),
        step(s, NetEvent::Message(ep, Some(Message::ConnectUdp(id)))).0.connections[id].udp
            == Some(ep),
{
}

/// Every message other than a connection request is acknowledged with `Okay`
/// on the endpoint it came from, whatever the state, and changes nothing.
pub proof fn lemma_other_messages_acknowledged<E>(s: ServerView<E>, ep: E, m: Message)
    requires
        !(m is ConnectTcp),
        !(m is ConnectUdp),
    ensures
        step(s, NetEvent::Message(ep, Some(m))) == (s, Ok::<Option<(E, Message)>, ServerFault>(
            Some((ep, Message::Okay)),
        )),
{
}

/// A TCP connection under an id that is not connected records that id with
/// the sending endpoint and no UDP endpoint, whatever the id; it makes the id
/// authoritative exactly when no client is, and is not answered.
pub proof fn lemma_new_tcp_connection<E>(s: ServerView<E>, ep: E, id: u64)
    requires
        !s.connections.contains_key(id),
    ensures
        ({
            let (n, r) = step(s, NetEvent::Message(ep, Some(Message::ConnectTcp(id))));
            &&& r == Ok::<Option<(E, Message)>, ServerFault>(None)
            &&& n.port == s.port
            &&& n.connections == s.connections.insert(id, Connection { tcp: ep, udp: None })
            &&& n.connections[id].udp is None
            &&& n.auth == (if s.auth == NO_AUTH {
                id
            } else {
                s.auth
            })
        }),
{
}

/// A new client's first UDP connection, right after its TCP connection, is
/// acknowledged with `OkUdp` on its TCP endpoint and recorded.
pub proof fn lemma_tcp_then_udp<E>(s: ServerView<E>, tcp: E, udp: E, id: u64)
    requires
        !s.connections.contains_key(id),
    ensures
        ({
            let (n, _) = step(s, NetEvent::Message(tcp, Some(Message::ConnectTcp(id))));
            let (n2, r2) = step(n, NetEvent::Message(udp, Some(Message::ConnectUdp(id))));
            &&& r2 == Ok::<Option<(E, Message)>, ServerFault>(Some((tcp, Message::OkUdp)))
            &&& n2.connections[id] == (Connection { tcp, udp: Some(udp) })
        }),
{
}

/// The state of a server that has just started on `port`.
pub open spec fn initial<E>(port: u16) -> ServerView<E> {
    ServerView { port, auth: NO_AUTH, connections: Map::empty() }
}

/// The state after the events `evs` in order, and whether the server is still
/// running: after the first event that stops it, no further event is handled.
pub open spec fn run<E>(s: ServerView<E>, evs: Seq<NetEvent<E>>) -> (ServerView<E>, bool)
    decreases evs.len(),
{
    if evs.len() == 0 {
        (s, true)
    } else {
        let (p, running) = run(s, evs.drop_last());
        if !running {
            (p, false)
        } else {
            let (n, r) = step(p, evs.last());
            (n, r is Ok)
        }
    }
}

/// The ids of the TCP connections that `ev` opens: its id if it is one.
pub open spec fn tcp_id<E>(ev: NetEvent<E>) -> Option<u64> {
    match ev {
        NetEvent::Message(_, Some(Message::ConnectTcp(id))) => Some(id),
        _ => None,
    }
}

/// The ids of the TCP connections that `evs` open, in order.
pub open spec fn tcp_ids<E>(evs: Seq<NetEvent<E>>) -> Seq<u64> {
    evs.filter_map(|ev: NetEvent<E>| tcp_id(ev))
}

/// Over any run of a server started on `port` that no event has stopped: the
/// port is unchanged; the TCP ids seen are pairwise distinct; the connections
/// are exactly those ids, each with the endpoint that opened it over TCP; no
/// client is authoritative before the first TCP connection, and the first TCP
/// client (unless its id is the `NO_AUTH` marker itself) stays authoritative.
pub proof fn lemma_run_from_start<E>(port: u16, evs: Seq<NetEvent<E>>)
    requires
        run(initial::<E>(port), evs).1,
    ensures
        ({
            let s = run(initial::<E>(port), evs).0;
            let ids = tcp_ids(evs);
            &&& s.port == port
            &&& ids.no_duplicates()
            &&& s.connections.dom() == ids.to_set()
            &&& forall|i: int|
                0 <= i < evs.len() ==> (#[trigger] evs[i] matches NetEvent::Message(
                    ep,
                    Some(Message::ConnectTcp(id)),
                ) ==> s.connections[id].tcp == ep)
            &&& ids.len() == 0 ==> s.auth == NO_AUTH
            &&& ids.len() > 0 && ids[0] != NO_AUTH ==> s.auth == ids[0]
        }),
    decreases evs.len(),
{
    broadcast use vstd::seq_lib::group_seq_properties;

    if evs.len() == 0 {
        assert(tcp_ids(evs) =~= Seq::<u64>::empty());
        assert(run(initial::<E>(port), evs).0.connections.dom() =~= tcp_ids(evs).to_set());
    } else {
        let pre = evs.drop_last();
        let e = evs.last();
        lemma_run_from_start::<E>(port, pre);
        let p = run(initial::<E>(port), pre).0;
        let s = run(initial::<E>(port), evs).0;
        let pids = tcp_ids(pre);
        let ids = tcp_ids(evs);
        assert(evs.drop_last() == pre);
        match tcp_id(e) {
            Some(id) => {
                assert(ids == pids + seq![id]);
                assert(!p.connections.contains_key(id));
                assert(!pids.contains(id));
                assert(ids.no_duplicates()) by {
                    assert forall|a: int, b: int| 0 <= a < b < ids.len() implies ids[a] != ids[b] by {
                        if b == ids.len() - 1 {
                            assert(pids.contains(ids[a]));
                        } else {
                            assert(ids[a] == pids[a] && ids[b] == pids[b]);
                        }
                    }
                }
                assert(s.connections.dom() =~= ids.to_set()) by {
                    assert forall|x: u64| s.connections.dom().contains(x) <==> ids.to_set().contains(x) by {
                        if x == id {
                            assert(ids[ids.len() - 1] == id);
                        } else if pids.contains(x) {
                            let k = choose|k: int| 0 <= k < pids.len() && pids[k] == x;
                            assert(ids[k] == x);
                        } else if ids.contains(x) {
                            let k = choose|k: int| 0 <= k < ids.len() && ids[k] == x;
                            if k < pids.len() {
                                assert(pids[k] == x);
                            }
                        }
                    }
                }
                assert forall|i: int|
                    0 <= i < evs.len() implies (#[trigger] evs[i] matches NetEvent::Message(
                        ep,
                        Some(Message::ConnectTcp(id2)),
                    ) ==> s.connections[id2].tcp == ep) by {
                    if i < evs.len() - 1 {
                        assert(evs[i] == pre[i]);
                        if let NetEvent::Message(ep, Some(Message::ConnectTcp(id2))) = evs[i] {
                            assert(p.connections.dom().contains(id2)) by {
                                lemma_tcp_id_seen(pre, i);
                            }
                        }
                    }
                }
                if pids.len() > 0 {
                    assert(ids[0] == pids[0]);
                }
            },
            None => {
                assert(ids == pids);
                assert forall|i: int|
                    0 <= i < evs.len() implies (#[trigger] evs[i] matches NetEvent::Message(
                        ep,
                        Some(Message::ConnectTcp(id2)),
                    ) ==> s.connections[id2].tcp == ep) by {
                    if i < evs.len() - 1 {
                        assert(evs[i] == pre[i]);
                        if let NetEvent::Message(ep, Some(Message::ConnectTcp(id2))) = evs[i] {
                            lemma_tcp_id_seen(pre, i);
                        }
                    }
                }
                assert(s.connections.dom() =~= p.connections.dom());
            },
        }
    }
}

/// The id of every TCP connection that an event of `evs` opens is among `tcp_ids(evs)`.
pub proof fn lemma_tcp_id_seen<E>(evs: Seq<NetEvent<E>>, i: int)
    requires
        0 <= i < evs.len(),
        tcp_id(evs[i]) is Some,
    ensures
        tcp_ids(evs).contains(tcp_id(evs[i])->0),
    decreases evs.len(),
{
    broadcast use vstd::seq_lib::group_seq_properties;

    let pre = evs.drop_last();
    if i == evs.len() - 1 {
        assert(tcp_ids(evs) == tcp_ids(pre) + seq![tcp_id(evs[i])->0]);
        assert(tcp_ids(evs)[tcp_ids(pre).len() as int] == tcp_id(evs[i])->0);
    } else {
        assert(pre[i] == evs[i]);
        lemma_tcp_id_seen(pre, i);
        let k = choose|k: int| 0 <= k < tcp_ids(pre).len() && tcp_ids(pre)[k] == tcp_id(evs[i])->0;
        match tcp_id(evs.last()) {
            Some(x) => {
                assert(tcp_ids(evs) == tcp_ids(pre) + seq![x]);
                assert(tcp_ids(evs)[k] == tcp_ids(pre)[k]);
            },
            None => {},
        }
    }
}

} // verus!
