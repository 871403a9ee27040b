//! The router: the ports of this node, its pool of connections, and the
//! step that routes the next packet of the global queue.
use crate::connection::{Connection, ConnectionState, ConnectionType, ConnectionView};
use crate::id::{zero_id, CspId};
use crate::interfaces::{counted, hop_result, Hop, Interface, InterfaceView, NextHop};
use crate::port::{Port, PortState, PortView, Socket, SocketType, SocketView};
use crate::qfifo::CspQfifo;
use crate::types::{CspError, CspResult, Packet};
use vstd::prelude::*;

verus! {

/// The number of ports a socket can be bound to.
pub const CSP_PORTS: usize = 16;

/// The port that stands for any port.
pub const PORT_ANY: u8 = 255;

/// The number of connections in the pool.
pub const CSP_CONNECTIONS: usize = 16;

/// The router as mathematical values.
pub struct RouterView {
    pub ports: Seq<PortView>,
    pub conns: Seq<ConnectionView>,
}

/// Ports and connections of this node.
pub struct Router {
    ports: Vec<Port>,
    connections: Vec<Connection>,
}

/// Where a routed packet went.
#[derive(Debug)]
pub enum Routed {
    /// Not addressed to this node: sent back out on the interface it came from.
    Forwarded(Hop),
    /// Queued on the connectionless socket bound to this port.
    ToSocket(u8),
    /// Queued on this connection of the pool.
    ToConnection(usize),
}

impl View for Router {
    type V = RouterView;

    closed spec fn view(&self) -> RouterView {
        RouterView {
            ports: self.ports@.map_values(|p: Port| p@),
            conns: self.connections@.map_values(|c: Connection| c@),
        }
    }
}

/// The views of a list of interfaces.
pub open spec fn iface_views(v: Seq<Interface>) -> Seq<InterfaceView> {
    v.map_values(|i: Interface| i@)
}

/// Whether an incoming packet with identifier `id` belongs to connection `c`:
/// a client connection is matched by destination port, a server connection
/// by destination port, source port and source address.
pub open spec fn conn_matches(c: ConnectionView, id: CspId) -> bool {
    match c.conn_type {
        ConnectionType::Client => c.id_in.dport == id.dport,
        ConnectionType::Server => c.id_in.dport == id.dport && c.id_in.sport == id.sport
            && c.id_in.source == id.source,
    }
}

/// `i` is the first connection of `conns` that `id` belongs to.
pub open spec fn is_first_match(conns: Seq<ConnectionView>, id: CspId, i: int) -> bool {
    &&& 0 <= i < conns.len()
    &&& conn_matches(conns[i], id)
    &&& forall|j: int| 0 <= j < i ==> !conn_matches(#[trigger] conns[j], id)
}

/// The first connection of `conns` that `id` belongs to, if any.
pub open spec fn first_match(conns: Seq<ConnectionView>, id: CspId) -> Option<int> {
    if exists|i: int| is_first_match(conns, id, i) {
        Some(choose|i: int| is_first_match(conns, id, i))
    } else {
        None
    }
}

/// `i` is the first closed connection of `conns`.
pub open spec fn is_first_closed(conns: Seq<ConnectionView>, i: int) -> bool {
    &&& 0 <= i < conns.len()
    &&& conns[i].conn_state == ConnectionState::Closed
    &&& forall|j: int| 0 <= j < i ==> (#[trigger] conns[j]).conn_state == ConnectionState::Open
}

/// The first closed connection of `conns`, if any.
pub open spec fn first_closed(conns: Seq<ConnectionView>) -> Option<int> {
    if exists|i: int| is_first_closed(conns, i) {
        Some(choose|i: int| is_first_closed(conns, i))
    } else {
        None
    }
}

/// The identifier of the reply to a packet with identifier `id`: source and
/// destination swapped, ports swapped.
pub open spec fn reply_id(id: CspId) -> CspId {
    CspId {
        priority: id.priority,
        flags: id.flags,
        source: id.destination,
        destination: id.source,
        dport: id.sport,
        sport: id.dport,
    }
}

/// The socket that packets to `port` go to: the one of an open port.
pub open spec fn bound_socket(r: RouterView, port: u8) -> Option<SocketView> {
    if (port as int) < r.ports.len() && r.ports[port as int].state == PortState::Open {
        r.ports[port as int].socket
    } else {
        None
    }
}

/// `r` with the socket of `port` replaced by `s`.
pub open spec fn with_socket(r: RouterView, port: u8, s: SocketView) -> RouterView {
    RouterView {
        ports: r.ports.update(port as int, PortView { socket: Some(s), ..r.ports[port as int] }),
        ..r
    }
}

/// The connection that an incoming packet with identifier `id` is queued on:
/// the first it belongs to, else the first closed one, which becomes a
/// server connection for it.
pub open spec fn target_connection(r: RouterView, id: CspId) -> Option<int> {
    if first_match(r.conns, id) is Some {
        first_match(r.conns, id)
    } else {
        first_closed(r.conns)
    }
}

/// What the router becomes, and answers, when packet `p` addressed to this
/// node is delivered.
pub open spec fn deliver_spec(r: RouterView, p: Packet) -> (RouterView, CspResult<Routed>) {
    let id = p.spec_id();
    let sock = bound_socket(r, id.dport);
    if sock is Some && sock->Some_0.socket_type == SocketType::Connectionless {
        let s = sock->Some_0;
        (with_socket(r, id.dport, SocketView { queue: s.queue.push(p), ..s }), Ok(Routed::ToSocket(id.dport)))
    } else if target_connection(r, id) is Some {
        let i = target_connection(r, id)->Some_0;
        let c = r.conns[i];
        let c1 = if first_match(r.conns, id) is Some {
            c
        } else {
            c.with_type(ConnectionType::Server).with_ids(id, reply_id(id))
        };
        let r1 = RouterView { conns: r.conns.update(i, c1.with_rx(c1.rx.push(p))), ..r };
        let r2 = if sock is Some {
            let s = sock->Some_0;
            with_socket(r1, id.dport, SocketView { inc_connection: Some(i as usize), ..s })
        } else {
            r1
        };
        (r2, Ok(Routed::ToConnection(i as usize)))
    } else {
        (r, Err(CspError::ClosedConnection))
    }
}

/// What `route_work` leaves and answers, given the router, queue and
/// interfaces before (`r0`, `q0`, `i0`) and after (`r1`, `q1`, `i1`).
pub open spec fn route_spec(
    r0: RouterView,
    q0: Seq<crate::qfifo::QfifoElement>,
    i0: Seq<InterfaceView>,
    r1: RouterView,
    q1: Seq<crate::qfifo::QfifoElement>,
    i1: Seq<InterfaceView>,
    res: CspResult<Routed>,
) -> bool {
    if q0.len() == 0 {
        &&& res == Err::<Routed, CspError>(CspError::EmptyQfifo)
        &&& r1 == r0
        &&& q1 == q0
        &&& i1 == i0
    } else {
        let e = q0[0];
        let k = e.interface as int;
        let iface = i0[k];
        &&& i1 == i0.update(k, counted(iface))
        &&& if e.packet.spec_id().destination != iface.state.address {
            &&& r1 == r0
            &&& res matches Ok(Routed::Forwarded(h)) && hop_result(
                iface.kind,
                e.interface,
                e.packet,
                q0.drop_first(),
                q1,
                h,
            )
        } else {
            &&& q1 == q0.drop_first()
            &&& (r1, res) == deliver_spec(r0, e.packet)
        }
    }
}

impl Router {
    /// Exactly `CSP_PORTS` ports and `CSP_CONNECTIONS` connections.
    pub open spec fn wf(&self) -> bool {
        &&& self@.ports.len() == CSP_PORTS
        &&& self@.conns.len() == CSP_CONNECTIONS
    }

    /// A router whose ports are all closed and whose connections are those
    /// of `populate_connections`.
    pub fn new() -> (r: Self)
        ensures
            r.wf(),
            forall|i: int|
                0 <= i < CSP_PORTS ==> #[trigger] r@.ports[i] == (PortView {
                    state: PortState::Closed,
                    socket: None,
                }),
            forall|i: int| 0 <= i < CSP_CONNECTIONS ==> #[trigger] r@.conns[i] == initial_connection(i),
    {
        let mut ports: Vec<Port> = Vec::with_capacity(16);
        let mut i: usize = 0;
        while i < 16
            invariant
                i <= 16,
                ports@.len() == i,
                forall|j: int|
                    0 <= j < i ==> #[trigger] ports@[j]@ == (PortView {
                        state: PortState::Closed,
                        socket: None,
                    }),
            decreases 16 - i,
        {
            ports.push(Port::closed());
            i = i + 1;
        }
        let router = Router { ports, connections: Router::populate_connections() };
        router
    }

    /// Binds `socket` to port `index`, opening it; a port beyond the last is
    /// refused.
    pub fn bind(&mut self, socket: Socket, index: u8) -> (r: CspResult<usize>)
        requires
            old(self).wf(),
            index != CSP_PORTS,
        ensures
            final(self).wf(),
            index < CSP_PORTS ==> r == Ok::<usize, CspError>(index as usize) && final(self)@ == (
            RouterView {
                ports: old(self)@.ports.update(
                    index as int,
                    PortView { state: PortState::Open, socket: Some(socket@) },
                ),
                ..old(self)@
            }),
            index > CSP_PORTS ==> r == Err::<usize, CspError>(CspError::InvalidPort)
                && final(self)@ == old(self)@,
    {
        if index <= 16 {
            let ghost sv = socket@;
            self.ports.set(index as usize, Port::bind(socket));
            assert(self@.ports =~= old(self)@.ports.update(
                index as int,
                PortView { state: PortState::Open, socket: Some(sv) },
            ));
            Ok(index as usize)
        } else {
            return Err(CspError::InvalidPort);
        }
    }

    /// The pool of connections: client connection `i` listens on destination
    /// port `i` and sends from source port `i`.
    fn populate_connections() -> (r: Vec<Connection>)
        ensures
            r@.len() == CSP_CONNECTIONS,
            forall|i: int| 0 <= i < CSP_CONNECTIONS ==> #[trigger] r@[i]@ == initial_connection(i),
    {
        let mut connections: Vec<Connection> = Vec::with_capacity(16);
        let mut i: u8 = 0;
        while i < 16
            invariant
                i <= 16,
                connections@.len() == i,
                forall|j: int| 0 <= j < i ==> #[trigger] connections@[j]@ == initial_connection(j),
            decreases 16 - i,
        {
            let sid = CspId { dport: i, ..CspId::default() };
            let did = CspId { sport: i, ..CspId::default() };
            let conn = Connection::new(sid, did, ConnectionType::Client, i);
            connections.push(conn);
            i = i + 1;
        }
        connections
    }
}


/// The identifiers of a connection this node opens, as connection `conn` of
/// the pool, to port `dport` of `destination`: incoming, then outgoing. Each
/// connection of the pool has its own port, its index.
pub open spec fn connect_ids(priority: u8, destination: u16, dport: u8, conn: int) -> (CspId, CspId) {
    (
        CspId { priority, flags: 0, source: destination, destination: 0, dport: conn as u8, sport: dport },
        CspId { priority, flags: 0, source: 0, destination, dport, sport: conn as u8 },
    )
}

/// `i` is the first client connection of `conns` listening on `dport`.
pub open spec fn is_first_client_on(conns: Seq<ConnectionView>, dport: u8, i: int) -> bool {
    &&& 0 <= i < conns.len()
    &&& conns[i].id_in.dport == dport && conns[i].conn_type == ConnectionType::Client
    &&& forall|j: int|
        0 <= j < i ==> !((#[trigger] conns[j]).id_in.dport == dport && conns[j].conn_type
            == ConnectionType::Client)
}

/// Queues `packet` on the socket that `port` holds.
fn push_to_socket(port: &mut Port, packet: Packet)
    requires
        old(port).socket is Some,
    ensures
        final(port)@ == (PortView {
            socket: Some(SocketView { queue: old(port)@.socket->Some_0.queue.push(packet), ..old(port)@.socket->Some_0 }),
            ..old(port)@
        }),
{
    let mut s = port.socket.take().unwrap();
    s.push(packet);
    port.socket = Some(s);
}

/// Offers connection `conn` on the socket that `port` holds.
fn offer_to_socket(port: &mut Port, conn: usize)
    requires
        old(port).socket is Some,
    ensures
        final(port)@ == (PortView {
            socket: Some(SocketView { inc_connection: Some(conn), ..old(port)@.socket->Some_0 }),
            ..old(port)@
        }),
{
    let mut s = port.socket.take().unwrap();
    s.set_conn(conn);
    port.socket = Some(s);
}

impl Router {
    /// The first connection that a packet with identifier `id` belongs to.
    fn find_existing(&self, id: &CspId) -> (r: Option<usize>)
        ensures
            match r {
                Some(i) => first_match(self@.conns, *id) == Some(i as int),
                None => first_match(self@.conns, *id) is None,
            },
    {
        let n = self.connections.len();
        let mut i: usize = 0;
        while i < n
            invariant
                n == self@.conns.len(),
                i <= n,
                forall|j: int| 0 <= j < i ==> !conn_matches(#[trigger] self@.conns[j], *id),
            decreases n - i,
        {
            let conn = &self.connections[i];
            assert(conn@ == self@.conns[i as int]);
            let found = match conn.conn_type() {
                ConnectionType::Client => conn.id_in().dport == id.dport,
                ConnectionType::Server => conn.id_in().dport == id.dport && conn.id_in().sport
                    == id.sport && conn.id_in().source == id.source,
            };
            if found {
                assert(is_first_match(self@.conns, *id, i as int));
                proof {
                    let k = choose|k: int| is_first_match(self@.conns, *id, k);
                    if k < i {
                        assert(!conn_matches(self@.conns[k], *id));
                    }
                    if k > i {
                        assert(!conn_matches(self@.conns[i as int], *id));
                    }
                }
                return Some(i);
            }
            i = i + 1;
        }
        proof {
            if exists|k: int| is_first_match(self@.conns, *id, k) {
                let k = choose|k: int| is_first_match(self@.conns, *id, k);
                assert(!conn_matches(self@.conns[k], *id));
            }
        }
        None
    }

    /// The first closed connection of the pool.
    fn find_connection(&self) -> (r: Option<usize>)
        ensures
            match r {
                Some(i) => first_closed(self@.conns) == Some(i as int),
                None => first_closed(self@.conns) is None,
            },
    {
        let n = self.connections.len();
        let mut i: usize = 0;
        while i < n
            invariant
                n == self@.conns.len(),
                i <= n,
                forall|j: int|
                    0 <= j < i ==> (#[trigger] self@.conns[j]).conn_state == ConnectionState::Open,
            decreases n - i,
        {
            assert(self.connections@[i as int]@ == self@.conns[i as int]);
            match self.connections[i].conn_state() {
                ConnectionState::Closed => {
                    assert(is_first_closed(self@.conns, i as int));
                    proof {
                        let k = choose|k: int| is_first_closed(self@.conns, k);
                        if k < i {
                            assert(self@.conns[k].conn_state == ConnectionState::Open);
                        }
                        if k > i {
                            assert(self@.conns[i as int].conn_state == ConnectionState::Open);
                        }
                    }
                    return Some(i);
                },
                ConnectionState::Open => {},
            }
            i = i + 1;
        }
        proof {
            if exists|k: int| is_first_closed(self@.conns, k) {
                let k = choose|k: int| is_first_closed(self@.conns, k);
                assert(self@.conns[k].conn_state == ConnectionState::Open);
            }
        }
        None
    }

    /// Placeholder for the check that an incoming connection is allowed; it
    /// allows every one.
    fn route_security_check() {
    }

    /// Opens the first closed connection of the pool towards port
    /// `destination_port` of `destination`, and returns its index; the index
    /// is also the connection's own port (incoming destination port, outgoing
    /// source port).
    pub fn connect(&mut self, priority: u8, destination: u16, destination_port: u8) -> (r:
        CspResult<usize>)
        requires
            old(self).wf(),
        ensures
            final(self).wf(),
            match first_closed(old(self)@.conns) {
                Some(i) => {
                    let (id_in, id_out) = connect_ids(priority, destination, destination_port, i);
                    &&& r == Ok::<usize, CspError>(i as usize)
                    &&& final(self)@ == (RouterView {
                        conns: old(self)@.conns.update(
                            i,
                            old(self)@.conns[i].with_state(ConnectionState::Open).with_ids(id_in, id_out),
                        ),
                        ..old(self)@
                    })
                },
                None => r == Err::<usize, CspError>(CspError::ClosedConnection) && final(self)@
                    == old(self)@,
            },
            r matches Ok(i) ==> {
                let c = final(self)@.conns[i as int];
                &&& c.conn_state == ConnectionState::Open
                &&& c.id_out.destination == destination
                &&& c.id_out.dport == destination_port
                &&& c.id_out.priority == priority
                &&& c.id_out.sport == i
                &&& c.id_in.source == destination
                &&& c.id_in.sport == destination_port
                &&& c.id_in.priority == priority
                &&& c.id_in.dport == i
            },
    {
        let mut incoming_id = CspId {
            priority,
            flags: 0,
            source: destination,
            destination: 0,
            dport: 0,
            sport: destination_port,
        };
        let mut outgoing_id = CspId {
            priority,
            flags: 0,
            source: 0,
            destination: destination,
            dport: destination_port,
            sport: 0,
        };
        if let Some(i) = self.find_connection() {
            // The connection's own port is its index in the pool.
            let sport_outgoing: u8 = i as u8;
            outgoing_id.sport = sport_outgoing;
            incoming_id.dport = sport_outgoing;
            self.connections[i].open();
            self.connections[i].set_ids(incoming_id, outgoing_id);
            let ghost (a, b) = connect_ids(priority, destination, destination_port, i as int);
            assert(self@.conns =~= old(self)@.conns.update(
                i as int,
                old(self)@.conns[i as int].with_state(ConnectionState::Open).with_ids(a, b),
            ));
            Ok(i)
        } else {
            Err(CspError::ClosedConnection)
        }
    }

    /// The first client connection listening on destination port `dport`.
    pub fn connection_find_dport(&self, dport: u8) -> (r: Option<usize>)
        ensures
            match r {
                Some(i) => is_first_client_on(self@.conns, dport, i as int),
                None => forall|j: int|
                    0 <= j < self@.conns.len() ==> !((#[trigger] self@.conns[j]).id_in.dport == dport
                        && self@.conns[j].conn_type == ConnectionType::Client),
            },
    {
        let n = self.connections.len();
        let mut i: usize = 0;
        while i < n
            invariant
                n == self@.conns.len(),
                i <= n,
                forall|j: int|
                    0 <= j < i ==> !((#[trigger] self@.conns[j]).id_in.dport == dport
                        && self@.conns[j].conn_type == ConnectionType::Client),
            decreases n - i,
        {
            let conn = &self.connections[i];
            assert(conn@ == self@.conns[i as int]);
            if conn.id_in().dport != dport {
                i = i + 1;
                continue;
            }
            if let ConnectionType::Server = conn.conn_type() {
                i = i + 1;
                continue;
            }
            if conn.id_in().dport != dport {
                i = i + 1;
                continue;
            }
            return Some(i);
        }
        None
    }

    /// Connection `i` of the pool.
    pub fn connection(&self, i: usize) -> (r: &Connection)
        requires
            i < self@.conns.len(),
        ensures
            r@ == self@.conns[i as int],
    {
        &self.connections[i]
    }

    /// Takes the oldest packet received on connection `i`.
    pub fn conn_read(&mut self, i: usize) -> (r: Option<Packet>)
        requires
            old(self).wf(),
            i < CSP_CONNECTIONS,
        ensures
            final(self).wf(),
            old(self)@.conns[i as int].rx.len() == 0 ==> r is None && final(self)@ == old(self)@,
            old(self)@.conns[i as int].rx.len() > 0 ==> r == Some(old(self)@.conns[i as int].rx[0])
                && final(self)@ == (RouterView {
                conns: old(self)@.conns.update(
                    i as int,
                    old(self)@.conns[i as int].with_rx(old(self)@.conns[i as int].rx.drop_first()),
                ),
                ..old(self)@
            }),
    {
        let r = self.connections[i].read();
        assert(self@.conns =~= old(self)@.conns.update(i as int, self@.conns[i as int]));
        proof {
            if old(self)@.conns[i as int].rx.len() == 0 {
                assert(self@.conns =~= old(self)@.conns);
            }
        }
        r
    }

    /// Closes connection `i`.
    pub fn conn_close(&mut self, i: usize)
        requires
            old(self).wf(),
            i < CSP_CONNECTIONS,
        ensures
            final(self).wf(),
            final(self)@ == (RouterView {
                conns: old(self)@.conns.update(
                    i as int,
                    old(self)@.conns[i as int].with_state(ConnectionState::Closed),
                ),
                ..old(self)@
            }),
    {
        self.connections[i].close();
        assert(self@.conns =~= old(self)@.conns.update(
            i as int,
            old(self)@.conns[i as int].with_state(ConnectionState::Closed),
        ));
    }

    /// Routes the next packet of the global queue. A packet not addressed to
    /// this node (its destination is not the address of the interface it
    /// came in on) goes back out on that interface. One addressed to this
    /// node goes to the connectionless socket bound to its destination port,
    /// or else is queued on the connection it belongs to (or on the first
    /// closed connection, made a server connection for it), which is then
    /// offered on the connection-oriented socket bound to that port.
    pub fn route_work(&mut self, qfifo: &mut CspQfifo, interfaces: &mut Vec<Interface>) -> (r:
        CspResult<Routed>)
        requires
            old(self).wf(),
            forall|j: int|
                0 <= j < old(qfifo)@.len() ==> (#[trigger] old(qfifo)@[j]).interface
                    < old(interfaces)@.len(),
            old(qfifo)@.len() > 0 ==> old(interfaces)@[old(qfifo)@[0].interface as int]@.state.rx
                < u32::MAX,
        ensures
            final(self).wf(),
            final(interfaces)@.len() == old(interfaces)@.len(),
            route_spec(
                old(self)@,
                old(qfifo)@,
                iface_views(old(interfaces)@),
                final(self)@,
                final(qfifo)@,
                iface_views(final(interfaces)@),
                r,
            ),
    {
        let ghost i0 = iface_views(interfaces@);
        // Get the packet to route, either outgoing or inbound
        let (packet, iface) = match qfifo.pop() {
            Some((packet, iface)) => (packet, iface),
            None => return Err(CspError::EmptyQfifo),
        };
        interfaces[iface].increment_rx();
        proof {
            let k = iface as int;
            assert(iface_views(interfaces@) =~= i0.update(k, counted(i0[k])));
        }
        let is_to_me: bool = packet.id().destination == interfaces[iface].get_state().address();
        if !is_to_me {
            let hop = interfaces[iface].nexthop(iface, packet, qfifo);
            return Ok(Routed::Forwarded(hop));
        }
        self.deliver(packet)
    }

    /// Delivers a packet addressed to this node.
    fn deliver(&mut self, packet: Packet) -> (r: CspResult<Routed>)
        requires
            old(self).wf(),
        ensures
            final(self).wf(),
            (final(self)@, r) == deliver_spec(old(self)@, packet),
    {
        let ghost r0 = self@;
        let ghost id = packet.spec_id();
        let dport = packet.id().dport;
        let d = dport as usize;
        let mut has_socket = false;
        if d < self.ports.len() && self.ports[d].is_open() {
            assert(self.ports@[d as int]@ == r0.ports[d as int]);
            match &self.ports[d].socket {
                Some(socket) => {
                    if socket.is_conn_less() {
                        push_to_socket(&mut self.ports[d], packet);
                        assert(self@.ports =~= with_socket(
                            r0,
                            dport,
                            SocketView {
                                queue: bound_socket(r0, dport)->Some_0.queue.push(packet),
                                ..bound_socket(r0, dport)->Some_0
                            },
                        ).ports);
                        return Ok(Routed::ToSocket(dport));
                    }
                    has_socket = true;
                },
                None => {},
            }
        }
        assert(has_socket <==> bound_socket(r0, dport) is Some);
        // Find an existing connection, or accept a new incoming one
        let conn: usize = match self.find_existing(packet.id()) {
            Some(i) => i,
            None => {
                Router::route_security_check();
                let sid = *packet.id();
                let did = CspId {
                    priority: sid.priority,
                    flags: sid.flags,
                    source: sid.destination,
                    destination: sid.source,
                    dport: sid.sport,
                    sport: sid.dport,
                };
                if let Some(i) = self.find_connection() {
                    self.connections[i].into_server();
                    self.connections[i].set_ids(sid, did);
                    i
                } else {
                    return Err(CspError::ClosedConnection);
                }
            },
        };
        let ghost c1 = self@.conns[conn as int];
        // Queue the packet on the connection
        self.connections[conn].push(packet);
        let ghost rv1 = RouterView { conns: r0.conns.update(conn as int, c1.with_rx(c1.rx.push(packet))), ..r0 };
        assert(self@.conns =~= rv1.conns);
        assert(self@.ports =~= rv1.ports);
        // Offer the connection on the socket
        if has_socket {
            offer_to_socket(&mut self.ports[d], conn);
            assert(self@.ports =~= with_socket(
                rv1,
                dport,
                SocketView { inc_connection: Some(conn), ..bound_socket(r0, dport)->Some_0 },
            ).ports);
        }
        Ok(Routed::ToConnection(conn))
    }

    /// Takes the connection offered on the socket bound to `port`, if any.
    pub fn accept(&mut self, port: u8) -> (r: Option<usize>)
        requires
            old(self).wf(),
        ensures
            final(self).wf(),
            match bound_socket(old(self)@, port) {
                Some(s) => r == s.inc_connection && final(self)@ == with_socket(
                    old(self)@,
                    port,
                    SocketView { inc_connection: None, ..s },
                ),
                None => r is None && final(self)@ == old(self)@,
            },
    {
        let d = port as usize;
        if d < self.ports.len() && self.ports[d].is_open() && self.ports[d].socket.is_some() {
            let ghost r0 = self@;
            let mut s = self.ports[d].socket.take().unwrap();
            let r = s.accept();
            self.ports[d].socket = Some(s);
            assert(self@.ports =~= with_socket(
                r0,
                port,
                SocketView { inc_connection: None, ..bound_socket(r0, port)->Some_0 },
            ).ports);
            r
        } else {
            None
        }
    }

    /// Takes the oldest packet queued on the socket bound to `port`, if any.
    pub fn receive(&mut self, port: u8) -> (r: Option<Packet>)
        requires
            old(self).wf(),
        ensures
            final(self).wf(),
            match bound_socket(old(self)@, port) {
                Some(s) => if s.queue.len() > 0 {
                    r == Some(s.queue[0]) && final(self)@ == with_socket(
                        old(self)@,
                        port,
                        SocketView { queue: s.queue.drop_first(), ..s },
                    )
                } else {
                    r is None && final(self)@ == old(self)@
                },
                None => r is None && final(self)@ == old(self)@,
            },
    {
        let d = port as usize;
        if d < self.ports.len() && self.ports[d].is_open() && self.ports[d].socket.is_some() {
            let ghost r0 = self@;
            let mut s = self.ports[d].socket.take().unwrap();
            let r = s.receive();
            self.ports[d].socket = Some(s);
            proof {
                let sv = bound_socket(r0, port)->Some_0;
                if sv.queue.len() > 0 {
                    assert(self@.ports =~= with_socket(
                        r0,
                        port,
                        SocketView { queue: sv.queue.drop_first(), ..sv },
                    ).ports);
                } else {
                    assert(self@.ports =~= r0.ports);
                }
            }
            r
        } else {
            None
        }
    }
}

/// Connection `i` of a new router's pool.
pub open spec fn initial_connection(i: int) -> ConnectionView {
    ConnectionView {
        conn_type: ConnectionType::Client,
        conn_state: ConnectionState::Closed,
        rx: Seq::empty(),
        id_out: CspId { sport: i as u8, ..zero_id() },
        id_in: CspId { dport: i as u8, ..zero_id() },
        dest_socket: None,
        sport_outgoing: 0,
    }
}

/// Law: replying to a reply gives back the original identifier.
pub proof fn lemma_reply_involution(id: CspId)
    ensures
        reply_id(reply_id(id)) == id,
{
}

/// Law: the incoming identifier of a connection this node opens is the reply
/// to its outgoing one, and its incoming port is its index in the pool.
pub proof fn lemma_connect_ids_mirror(priority: u8, destination: u16, dport: u8, conn: int)
    requires
        0 <= conn < CSP_CONNECTIONS,
    ensures
        connect_ids(priority, destination, dport, conn).0 == reply_id(
            connect_ids(priority, destination, dport, conn).1,
        ),
        connect_ids(priority, destination, dport, conn).0.dport == conn,
{
}

/// Law: a packet addressed to this node is queued, at the back, on the first
/// connection it belongs to, unless a connectionless socket is bound to its
/// port; that connection is otherwise left as it was.
pub proof fn lemma_delivered_to_matching_connection(r: RouterView, p: Packet, i: int)
    requires
        is_first_match(r.conns, p.spec_id(), i),
        !(bound_socket(r, p.spec_id().dport) matches Some(s) && s.socket_type
            == SocketType::Connectionless),
    ensures
        deliver_spec(r, p).1 == Ok::<Routed, CspError>(Routed::ToConnection(i as usize)),
        deliver_spec(r, p).0.conns == r.conns.update(i, r.conns[i].with_rx(r.conns[i].rx.push(p))),
{
    let id = p.spec_id();
    let k = choose|k: int| is_first_match(r.conns, id, k);
    if k < i {
        assert(!conn_matches(r.conns[k], id));
    }
    if k > i {
        assert(!conn_matches(r.conns[i], id));
    }
    assert(first_match(r.conns, id) == Some(i));
}

/// Law: a packet that no connection claims opens a server connection, the
/// first closed one, whose incoming identifier is the packet's and whose
/// outgoing identifier is the reply to it.
pub proof fn lemma_new_server_connection(r: RouterView, p: Packet, i: int)
    requires
        first_match(r.conns, p.spec_id()) is None,
        is_first_closed(r.conns, i),
        !(bound_socket(r, p.spec_id().dport) matches Some(s) && s.socket_type
            == SocketType::Connectionless),
    ensures
        deliver_spec(r, p).1 == Ok::<Routed, CspError>(Routed::ToConnection(i as usize)),
        deliver_spec(r, p).0.conns[i].conn_type == ConnectionType::Server,
        deliver_spec(r, p).0.conns[i].id_in == p.spec_id(),
        deliver_spec(r, p).0.conns[i].id_out == reply_id(p.spec_id()),
        deliver_spec(r, p).0.conns[i].rx == r.conns[i].rx.push(p),
{
    let k = choose|k: int| is_first_closed(r.conns, k);
    if k < i {
        assert(r.conns[k].conn_state == ConnectionState::Open);
    }
    if k > i {
        assert(r.conns[i].conn_state == ConnectionState::Open);
    }
    assert(first_closed(r.conns) == Some(i));
}

/// Law: after a packet is queued on a connection, the connection-oriented
/// socket bound to the packet's port offers that connection, so the next
/// `accept` on the port gives it.
pub proof fn lemma_delivery_offers_connection(r: RouterView, p: Packet)
    requires
        r.ports.len() == CSP_PORTS,
        bound_socket(r, p.spec_id().dport) matches Some(s) && s.socket_type
            == SocketType::ConnectionOriented,
        deliver_spec(r, p).1 matches Ok(Routed::ToConnection(_)),
    ensures
        deliver_spec(r, p).1 matches Ok(Routed::ToConnection(i)) && bound_socket(
            deliver_spec(r, p).0,
            p.spec_id().dport,
        ) matches Some(s2) && s2.inc_connection == Some(i),
{
}

/// Law: a packet that is not addressed to this node leaves ports and
/// connections untouched, and goes back out on the interface it came in on.
pub proof fn lemma_forward_keeps_router(
    r0: RouterView,
    q0: Seq<crate::qfifo::QfifoElement>,
    i0: Seq<InterfaceView>,
    r1: RouterView,
    q1: Seq<crate::qfifo::QfifoElement>,
    i1: Seq<InterfaceView>,
    res: CspResult<Routed>,
)
    requires
        route_spec(r0, q0, i0, r1, q1, i1, res),
        q0.len() > 0,
        q0[0].packet.spec_id().destination != i0[q0[0].interface as int].state.address,
    ensures
        r1 == r0,
        res matches Ok(Routed::Forwarded(h)) && hop_result(
            i0[q0[0].interface as int].kind,
            q0[0].interface,
            q0[0].packet,
            q0.drop_first(),
            q1,
            h,
        ),
{
}

/// Law: a packet addressed to this node is only ever queued on a connection
/// whose incoming identifier, afterwards, agrees with the packet: on the
/// destination port for a client connection; on the destination port, the
/// source port and the source address for a server connection. So a server
/// connection set up for one peer never receives a packet from another
/// address. The packet is the last one queued on that connection, and the
/// connection exists.
pub proof fn lemma_delivery_agrees_with_connection(r: RouterView, p: Packet)
    requires
        r.conns.len() == CSP_CONNECTIONS,
        deliver_spec(r, p).1 matches Ok(Routed::ToConnection(_)),
    ensures
        deliver_spec(r, p).1 matches Ok(Routed::ToConnection(i)) && {
            let c = deliver_spec(r, p).0.conns[i as int];
            &&& 0 <= i < r.conns.len()
            &&& deliver_spec(r, p).0.conns.len() == r.conns.len()
            &&& c.id_in.dport == p.spec_id().dport
            &&& c.conn_type == ConnectionType::Server ==> c.id_in.sport == p.spec_id().sport
                && c.id_in.source == p.spec_id().source
            &&& c.rx.len() > 0 && c.rx.last() == p
        },
{
    let id = p.spec_id();
    let t = if first_match(r.conns, id) is Some {
        let i = choose|i: int| is_first_match(r.conns, id, i);
        assert(is_first_match(r.conns, id, i));
        i
    } else {
        let i = choose|i: int| is_first_closed(r.conns, i);
        assert(is_first_closed(r.conns, i));
        i
    };
    assert(target_connection(r, id) == Some(t));
    assert(0 <= t < r.conns.len());
    assert((t as usize) as int == t);
    let c = deliver_spec(r, p).0.conns[t];
    assert(c.rx.last() == p);
}

/// Law: a server connection whose incoming identifier has source address `a`
/// never claims a packet from another source address: delivering such a
/// packet never queues it on that connection while keeping the connection's
/// identifier.
pub proof fn lemma_server_connection_keeps_its_peer(r: RouterView, p: Packet, i: int)
    requires
        r.conns.len() == CSP_CONNECTIONS,
        0 <= i < r.conns.len(),
        r.conns[i].conn_type == ConnectionType::Server,
        r.conns[i].id_in.source != p.spec_id().source,
        deliver_spec(r, p).1 == Ok::<Routed, CspError>(Routed::ToConnection(i as usize)),
    ensures
        deliver_spec(r, p).0.conns[i].id_in == p.spec_id(),
        deliver_spec(r, p).0.conns[i].id_out == reply_id(p.spec_id()),
        r.conns[i].conn_state == ConnectionState::Closed,
{
    let id = p.spec_id();
    lemma_delivery_agrees_with_connection(r, p);
    if first_match(r.conns, id) is Some {
        let k = choose|k: int| is_first_match(r.conns, id, k);
        assert(is_first_match(r.conns, id, k));
        assert(k == i);
        assert(conn_matches(r.conns[i], id));
    } else {
        let k = choose|k: int| is_first_closed(r.conns, k);
        assert(is_first_closed(r.conns, k));
        assert(k == i);
    }
}

/// Law: a connection opened to port `dport` of `destination` sends to that
/// address and port and listens for that address and port, with the
/// caller's priority, for every address; its own port, on both sides, is its
/// index in the pool.
pub proof fn lemma_connect_ids_fields(priority: u8, destination: u16, dport: u8, conn: int)
    requires
        0 <= conn < CSP_CONNECTIONS,
    ensures
        connect_ids(priority, destination, dport, conn).1.destination == destination,
        connect_ids(priority, destination, dport, conn).1.dport == dport,
        connect_ids(priority, destination, dport, conn).1.priority == priority,
        connect_ids(priority, destination, dport, conn).1.sport == conn,
        connect_ids(priority, destination, dport, conn).0.source == destination,
        connect_ids(priority, destination, dport, conn).0.sport == dport,
        connect_ids(priority, destination, dport, conn).0.priority == priority,
        connect_ids(priority, destination, dport, conn).0.dport == conn,
{
}

/// Law: when connection `i` is the first connection of the pool listening
/// on the packet's destination port, and it is a client connection, or a
/// server connection set up for the packet's source port and source address,
/// a packet addressed to this node (with no connectionless socket on that
/// port) is queued on connection `i`, behind what it already held.
pub proof fn lemma_first_listener_gets_packet(r: RouterView, p: Packet, i: int)
    requires
        r.conns.len() == CSP_CONNECTIONS,
        0 <= i < r.conns.len(),
        r.conns[i].id_in.dport == p.spec_id().dport,
        r.conns[i].conn_type == ConnectionType::Server ==> r.conns[i].id_in.sport
            == p.spec_id().sport && r.conns[i].id_in.source == p.spec_id().source,
        forall|j: int| 0 <= j < i ==> (#[trigger] r.conns[j]).id_in.dport != p.spec_id().dport,
        !(bound_socket(r, p.spec_id().dport) matches Some(s) && s.socket_type
            == SocketType::Connectionless),
    ensures
        deliver_spec(r, p).1 == Ok::<Routed, CspError>(Routed::ToConnection(i as usize)),
        deliver_spec(r, p).0.conns[i].rx == r.conns[i].rx.push(p),
        deliver_spec(r, p).0.conns[i].id_in == r.conns[i].id_in,
{
    let id = p.spec_id();
    assert forall|j: int| 0 <= j < i implies !conn_matches(#[trigger] r.conns[j], id) by {
        assert(r.conns[j].id_in.dport != id.dport);
    }
    assert(is_first_match(r.conns, id, i));
    lemma_delivered_to_matching_connection(r, p, i);
}

/// Law: a reply goes to where the packet came from: its destination address
/// is the packet's source address and its destination port the packet's
/// source port, its source address and port are the packet's destination
/// address and port; priority and flags are kept.
pub proof fn lemma_reply_fields(id: CspId)
    ensures
        reply_id(id).destination == id.source,
        reply_id(id).dport == id.sport,
        reply_id(id).source == id.destination,
        reply_id(id).sport == id.dport,
        reply_id(id).priority == id.priority,
        reply_id(id).flags == id.flags,
{
}

} // verus!

