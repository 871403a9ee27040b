//! A CSP node: the global packet queue, the interface list and the router.
use crate::config::{parse_interface, spec_parse_interface, InterfaceType};
use crate::connection::{Connection, ConnectionState};
use crate::id::{spec_prepend_id, CspId};
use crate::interfaces::{
    fresh_state, hop_result, CspInterfaceState, DrainInterface, Hop, Interface, InterfaceKind,
    InterfaceView, LoopbackInterface, NextHop, UdpInterface,
};
use crate::port::Socket;
use crate::qfifo::CspQfifo;
use crate::router::{
    bound_socket, connect_ids, first_closed, iface_views, initial_connection, route_spec,
    with_socket, Routed, Router, RouterView, CSP_CONNECTIONS, CSP_PORTS,
};
use crate::types::{CspError, CspResult, Packet};
use vstd::prelude::*;

verus! {

/// A node of the network.
pub struct Csp {
    pub qfifo: CspQfifo,
    pub interfaces: Vec<Interface>,
    pub num_interfaces: usize,
    pub router: Router,
}

/// The service that a destination port stands for.
#[derive(Debug, Clone, Copy, PartialEq, Eq, Structural)]
pub enum ServicePort {
    Port(u8),
    Compare,
    Ping,
    Reboot,
    Uptime,
}

/// The service of each destination port.
pub open spec fn spec_service_port(port: u8) -> ServicePort {
    if port == 0 {
        ServicePort::Compare
    } else if port == 1 {
        ServicePort::Ping
    } else if port == 4 {
        ServicePort::Reboot
    } else if port == 6 {
        ServicePort::Uptime
    } else {
        ServicePort::Port(port)
    }
}

/// The interface that a description creates at position `index`.
pub open spec fn new_interface(t: InterfaceType, index: usize) -> InterfaceView {
    match t {
        InterfaceType::Loopback => InterfaceView {
            kind: InterfaceKind::Loopback { index },
            state: fresh_state(Seq::empty()),
        },
        InterfaceType::Drain => InterfaceView {
            kind: InterfaceKind::Drain,
            state: fresh_state(seq!['D', 'r', 'a', 'i', 'n']),
        },
        InterfaceType::Udp { lport, rport } => InterfaceView {
            kind: InterfaceKind::Udp { lport, rport },
            state: fresh_state(Seq::empty()),
        },
    }
}

/// `q` is `p` with identifier `id` (and the header bytes that encode it).
pub open spec fn with_new_id(p: Packet, q: Packet, id: CspId) -> bool {
    &&& q.spec_id() == id
    &&& q.spec_header() == spec_prepend_id(id)
    &&& q.spec_len() == p.spec_len()
    &&& q.spec_data() == p.spec_data()
}

/// The identifier that `sendto` gives a packet whose flags are `flags`.
pub open spec fn sendto_id(priority: u8, destination: u16, dport: u8, sport: u8, flags: u8) -> CspId {
    CspId { flags, destination, dport, source: 0, sport, priority }
}

impl Csp {
    /// The router, as mathematical values.
    pub open spec fn router_view(&self) -> RouterView {
        self.router@
    }

    /// The interface count is right, every queued packet names an existing
    /// interface, and the router has its full set of ports and connections.
    pub open spec fn wf(&self) -> bool {
        &&& self.num_interfaces == self.interfaces@.len()
        &&& forall|j: int|
            0 <= j < self.qfifo@.len() ==> (#[trigger] self.qfifo@[j]).interface
                < self.interfaces@.len()
        &&& self.router_view().ports.len() == CSP_PORTS
        &&& self.router_view().conns.len() == CSP_CONNECTIONS
    }

    /// The interfaces, as mathematical values.
    pub open spec fn ifaces(&self) -> Seq<InterfaceView> {
        iface_views(self.interfaces@)
    }

    /// Adds the interface that `iface_type` describes (see `config`) at the end
    /// of the interface list.
    pub fn add_interface(&mut self, iface_type: &str)
        requires
            old(self).wf(),
            spec_parse_interface(iface_type@) is Some,
            old(self).num_interfaces < usize::MAX,
        ensures
            final(self).wf(),
            final(self).ifaces() == old(self).ifaces().push(
                new_interface(spec_parse_interface(iface_type@)->Some_0, old(self).num_interfaces),
            ),
            final(self).num_interfaces == old(self).num_interfaces + 1,
            final(self).interfaces@.len() == old(self).interfaces@.len() + 1,
            forall|j: int|
                0 <= j < old(self).interfaces@.len() ==> #[trigger] final(self).ifaces()[j]
                    == old(self).ifaces()[j],
            final(self).ifaces()[old(self).num_interfaces as int] == new_interface(
                spec_parse_interface(iface_type@)->Some_0,
                old(self).num_interfaces,
            ),
            final(self).qfifo@ == old(self).qfifo@,
            final(self).router_view() == old(self).router_view(),
    {
        let t = parse_interface(iface_type).unwrap();
        let iface = match t {
            InterfaceType::Loopback => Interface::Loopback(LoopbackInterface::init(self.num_interfaces)),
            InterfaceType::Drain => Interface::Drain(DrainInterface::new()),
            InterfaceType::Udp { lport, rport } => Interface::Udp(
                UdpInterface::from(lport, rport, CspInterfaceState::default()),
            ),
        };
        assert(iface@ == new_interface(t, self.num_interfaces));
        self.interfaces.push(iface);
        self.num_interfaces = self.num_interfaces + 1;
        assert(self.ifaces() =~= old(self).ifaces().push(new_interface(t, old(self).num_interfaces)));
    }

    /// Sends a packet on an open connection, with the connection's outgoing
    /// identifier; a closed connection refuses it.
    pub fn send(&mut self, conn: usize, packet: Packet) -> (r: CspResult<Hop>)
        requires
            old(self).wf(),
            conn < CSP_CONNECTIONS,
            old(self).router_view().conns[conn as int].conn_state == ConnectionState::Open
                ==> old(self).interfaces@.len() > 0,
        ensures
            final(self).wf(),
            final(self).ifaces() == old(self).ifaces(),
            final(self).router_view() == old(self).router_view(),
            old(self).router_view().conns[conn as int].conn_state == ConnectionState::Closed ==> r
                == Err::<Hop, CspError>(CspError::ClosedConnection)
                && final(self).qfifo@ == old(self).qfifo@,
            old(self).router_view().conns[conn as int].conn_state == ConnectionState::Open ==> (r
                matches Ok(h) && exists|p: Packet|
                with_new_id(packet, p, old(self).router_view().conns[conn as int].id_out)
                    && #[trigger] hop_result(
                    old(self).ifaces()[0].kind,
                    0,
                    p,
                    old(self).qfifo@,
                    final(self).qfifo@,
                    h,
                )),
    {
        let c = self.router.connection(conn);
        match c.conn_state() {
            ConnectionState::Open => {
                let id = *c.id_out();
                self.send_direct(id, packet, None)
            },
            ConnectionState::Closed => Err(CspError::ClosedConnection),
        }
    }

    /// Sends a packet to port `destination_port` of `destination`, from port
    /// `source_port`; the packet keeps its flags, its source address becomes
    /// zero.
    pub fn sendto(
        &mut self,
        priority: u8,
        destination: u16,
        destination_port: u8,
        source_port: u8,
        packet: Packet,
    ) -> (r: CspResult<Hop>)
        requires
            old(self).wf(),
            old(self).interfaces@.len() > 0,
        ensures
            final(self).wf(),
            final(self).ifaces() == old(self).ifaces(),
            final(self).router_view() == old(self).router_view(),
            r matches Ok(h) && exists|p: Packet|
                with_new_id(
                    packet,
                    p,
                    sendto_id(priority, destination, destination_port, source_port, packet.spec_id().flags),
                ) && #[trigger] hop_result(
                    old(self).ifaces()[0].kind,
                    0,
                    p,
                    old(self).qfifo@,
                    final(self).qfifo@,
                    h,
                ),
    {
        let mut packet = packet;
        let id = CspId {
            flags: packet.id().flags,
            destination,
            dport: destination_port,
            source: 0,
            sport: source_port,
            priority,
        };
        packet.set_id(id);
        let idout = *packet.id();
        self.send_direct(idout, packet, None)
    }

    /// Sends a packet with identifier `idout` on the first interface.
    pub fn send_direct(&mut self, idout: CspId, packet: Packet, routed_from: Option<usize>) -> (r:
        CspResult<Hop>)
        requires
            old(self).wf(),
            old(self).interfaces@.len() > 0,
        ensures
            final(self).wf(),
            final(self).ifaces() == old(self).ifaces(),
            final(self).router_view() == old(self).router_view(),
            r matches Ok(h) && exists|p: Packet|
                with_new_id(packet, p, idout) && #[trigger] hop_result(
                    old(self).ifaces()[0].kind,
                    0,
                    p,
                    old(self).qfifo@,
                    final(self).qfifo@,
                    h,
                ),
    {
        let mut packet = packet;
        packet.set_id(idout);
        let ghost sent = packet;
        let h = self.send_direct_iface(0, packet);
        assert(with_new_id(packet, sent, idout));
        Ok(h)
    }

    /// Hands a packet to the interface at position `iface`.
    pub fn send_direct_iface(&mut self, iface: usize, packet: Packet) -> (r: Hop)
        requires
            old(self).wf(),
            iface < old(self).interfaces@.len(),
        ensures
            final(self).wf(),
            final(self).ifaces() == old(self).ifaces(),
            final(self).router_view() == old(self).router_view(),
            hop_result(old(self).ifaces()[iface as int].kind, iface, packet, old(self).qfifo@, final(self).qfifo@, r),
    {
        self.interfaces[iface].nexthop(iface, packet, &mut self.qfifo)
    }

    /// Sends a packet, as it is, on the interface at position `index`.
    pub fn send_from_list(&mut self, index: usize, packet: Packet) -> (r: Hop)
        requires
            old(self).wf(),
            index < old(self).interfaces@.len(),
        ensures
            final(self).wf(),
            final(self).ifaces() == old(self).ifaces(),
            final(self).router_view() == old(self).router_view(),
            hop_result(old(self).ifaces()[index as int].kind, index, packet, old(self).qfifo@, final(self).qfifo@, r),
    {
        self.send_direct_iface(index, packet)
    }

    /// Closes connection `conn`.
    pub fn conn_close(&mut self, conn: usize)
        requires
            old(self).wf(),
            conn < CSP_CONNECTIONS,
        ensures
            final(self).wf(),
            final(self).ifaces() == old(self).ifaces(),
            final(self).qfifo@ == old(self).qfifo@,
            final(self).router_view() == (RouterView {
                conns: old(self).router_view().conns.update(
                    conn as int,
                    old(self).router_view().conns[conn as int].with_state(ConnectionState::Closed),
                ),
                ..old(self).router_view()
            }),
    {
        self.router.conn_close(conn);
    }

    /// Takes the packet at the front of the global queue.
    pub fn read(&mut self) -> (r: Packet)
        requires
            old(self).wf(),
            old(self).qfifo@.len() > 0,
        ensures
            final(self).wf(),
            r == old(self).qfifo@[0].packet,
            final(self).qfifo@ == old(self).qfifo@.drop_first(),
            final(self).ifaces() == old(self).ifaces(),
            final(self).router_view() == old(self).router_view(),
    {
        let (packet, _) = self.qfifo.pop().unwrap();
        packet
    }

    /// Routes the next packet of the global queue (see `Router::route_work`).
    pub fn route_work(&mut self) -> (r: CspResult<Routed>)
        requires
            old(self).wf(),
            old(self).qfifo@.len() > 0 ==> old(self).ifaces()[old(self).qfifo@[0].interface as int].state.rx
                < u32::MAX,
        ensures
            final(self).wf(),
            route_spec(
                old(self).router_view(),
                old(self).qfifo@,
                old(self).ifaces(),
                final(self).router_view(),
                final(self).qfifo@,
                final(self).ifaces(),
                r,
            ),
    {
        let r = self.router.route_work(&mut self.qfifo, &mut self.interfaces);
        assert(self.ifaces().len() == self.interfaces@.len());
        proof {
            // Whatever the router put back on the queue came from an existing interface.
            assert forall|j: int| 0 <= j < self.qfifo@.len() implies (#[trigger] self.qfifo@[j]).interface
                < self.interfaces@.len() by {
                if old(self).qfifo@.len() > 0 && j < old(self).qfifo@.len() - 1 {
                    assert(old(self).qfifo@.drop_first()[j] == old(self).qfifo@[j + 1]);
                }
            }
        }
        r
    }

    /// Binds a socket to a port, and returns the port index; a port beyond
    /// the last is refused.
    pub fn bind(&mut self, socket: Socket, port: u8) -> (r: CspResult<usize>)
        requires
            old(self).wf(),
            port != CSP_PORTS,
        ensures
            final(self).wf(),
            final(self).ifaces() == old(self).ifaces(),
            final(self).qfifo@ == old(self).qfifo@,
            port < CSP_PORTS ==> r == Ok::<usize, CspError>(port as usize)
                && final(self).router_view() == (RouterView {
                ports: old(self).router_view().ports.update(
                    port as int,
                    crate::port::PortView { state: crate::port::PortState::Open, socket: Some(socket@) },
                ),
                ..old(self).router_view()
            }),
            port > CSP_PORTS ==> r == Err::<usize, CspError>(CspError::InvalidPort)
                && final(self).router_view() == old(self).router_view(),
    {
        self.router.bind(socket, port)
    }

    /// Opens a connection to port `destination_port` of `destination` (see
    /// `Router::connect`), and returns its index.
    pub fn connect(&mut self, priority: u8, destination: u16, destination_port: u8) -> (r:
        CspResult<usize>)
        requires
            old(self).wf(),
        ensures
            final(self).wf(),
            final(self).ifaces() == old(self).ifaces(),
            final(self).qfifo@ == old(self).qfifo@,
            match first_closed(old(self).router_view().conns) {
                Some(i) => {
                    let (id_in, id_out) = connect_ids(priority, destination, destination_port, i);
                    &&& r == Ok::<usize, CspError>(i as usize)
                    &&& final(self).router_view() == (RouterView {
                        conns: old(self).router_view().conns.update(
                            i,
                            old(self).router_view().conns[i].with_state(ConnectionState::Open).with_ids(
                                id_in,
                                id_out,
                            ),
                        ),
                        ..old(self).router_view()
                    })
                },
                None => r == Err::<usize, CspError>(CspError::ClosedConnection)
                    && final(self).router_view() == old(self).router_view(),
            },
            r matches Ok(i) ==> {
                let c = final(self).router_view().conns[i as int];
                &&& c.conn_state == ConnectionState::Open
                &&& c.id_out.destination == destination
                &&& c.id_out.dport == destination_port
                &&& c.id_out.priority == priority
                &&& c.id_out.sport == i
                &&& c.id_in.source == destination
                &&& c.id_in.sport == destination_port
                &&& c.id_in.priority == priority
                &&& c.id_in.dport == i
            },
    {
        self.router.connect(priority, destination, destination_port)
    }

    /// Connection `conn` of the pool.
    pub fn connection(&self, conn: usize) -> (r: &Connection)
        requires
            self.wf(),
            conn < CSP_CONNECTIONS,
        ensures
            r@ == self.router_view().conns[conn as int],
    {
        self.router.connection(conn)
    }

    /// Takes the oldest packet received on connection `conn`.
    pub fn conn_read(&mut self, conn: usize) -> (r: Option<Packet>)
        requires
            old(self).wf(),
            conn < CSP_CONNECTIONS,
        ensures
            final(self).wf(),
            final(self).ifaces() == old(self).ifaces(),
            final(self).qfifo@ == old(self).qfifo@,
            old(self).router_view().conns[conn as int].rx.len() == 0 ==> r is None
                && final(self).router_view() == old(self).router_view(),
            old(self).router_view().conns[conn as int].rx.len() > 0 ==> r == Some(
                old(self).router_view().conns[conn as int].rx[0],
            ) && final(self).router_view() == (RouterView {
                conns: old(self).router_view().conns.update(
                    conn as int,
                    old(self).router_view().conns[conn as int].with_rx(
                        old(self).router_view().conns[conn as int].rx.drop_first(),
                    ),
                ),
                ..old(self).router_view()
            }),
    {
        self.router.conn_read(conn)
    }

    /// Takes the connection offered on the socket bound to `port`, if any.
    pub fn accept(&mut self, port: u8) -> (r: Option<usize>)
        requires
            old(self).wf(),
        ensures
            final(self).wf(),
            final(self).ifaces() == old(self).ifaces(),
            final(self).qfifo@ == old(self).qfifo@,
            match bound_socket(old(self).router_view(), port) {
                Some(s) => r == s.inc_connection && final(self).router_view() == with_socket(
                    old(self).router_view(),
                    port,
                    crate::port::SocketView { inc_connection: None, ..s },
                ),
                None => r is None && final(self).router_view() == old(self).router_view(),
            },
    {
        self.router.accept(port)
    }

    /// The service that a destination port stands for.
    pub fn check_service_port(port: u8) -> (r: ServicePort)
        ensures
            r == spec_service_port(port),
            port == 0 <==> r == ServicePort::Compare,
            port == 1 <==> r == ServicePort::Ping,
            port == 4 <==> r == ServicePort::Reboot,
            port == 6 <==> r == ServicePort::Uptime,
            (port != 0 && port != 1 && port != 4 && port != 6) <==> r == ServicePort::Port(port),
    {
        match port {
            0 => ServicePort::Compare,
            1 => ServicePort::Ping,
            4 => ServicePort::Reboot,
            6 => ServicePort::Uptime,
            _ => ServicePort::Port(port),
        }
    }

    /// Sends a packet back to where it came from: to its source address and
    /// source port, from its destination port.
    pub fn echo(&mut self, packet: Packet) -> (r: CspResult<Hop>)
        requires
            old(self).wf(),
            old(self).interfaces@.len() > 0,
        ensures
            final(self).wf(),
            final(self).ifaces() == old(self).ifaces(),
            final(self).router_view() == old(self).router_view(),
            r matches Ok(h) && exists|p: Packet|
                with_new_id(
                    packet,
                    p,
                    sendto_id(
                        packet.spec_id().priority,
                        packet.spec_id().source,
                        packet.spec_id().sport,
                        packet.spec_id().dport,
                        packet.spec_id().flags,
                    ),
                ) && #[trigger] hop_result(
                    old(self).ifaces()[0].kind,
                    0,
                    p,
                    old(self).qfifo@,
                    final(self).qfifo@,
                    h,
                ),
    {
        let id = *packet.id();
        self.sendto(id.priority, id.source, id.sport, id.dport(), packet)
    }
}

impl Default for Csp {
    /// A node without interfaces, with an empty queue and a new router.
    fn default() -> (r: Self)
        ensures
            r.wf(),
            r.qfifo@ == Seq::<crate::qfifo::QfifoElement>::empty(),
            r.interfaces@ == Seq::<Interface>::empty(),
            forall|i: int|
                0 <= i < CSP_PORTS ==> #[trigger] r.router_view().ports[i] == (crate::port::PortView {
                    state: crate::port::PortState::Closed,
                    socket: None,
                }),
            forall|i: int|
                0 <= i < CSP_CONNECTIONS ==> #[trigger] r.router_view().conns[i]
                    == initial_connection(i),
    {
        Csp {
            qfifo: CspQfifo::new(),
            interfaces: Vec::new(),
            num_interfaces: 0,
            router: Router::new(),
        }
    }
}

/// Law: a packet sent on a loopback interface of a node with an empty queue,
/// addressed to this node on the incoming port of a connection that is the
/// first to claim it (with no connectionless socket on that port), is queued
/// on that connection by the next `route_work`, which leaves the queue empty.
pub proof fn lemma_loopback_delivery(
    r0: RouterView,
    i0: Seq<InterfaceView>,
    p: Packet,
    h: Hop,
    q1: Seq<crate::qfifo::QfifoElement>,
    r1: RouterView,
    q2: Seq<crate::qfifo::QfifoElement>,
    i1: Seq<InterfaceView>,
    res: CspResult<Routed>,
    i: int,
)
    requires
        i0.len() > 0,
        i0[0].kind is Loopback,
        i0[0].state.address == p.spec_id().destination,
        hop_result(i0[0].kind, 0, p, Seq::empty(), q1, h),
        route_spec(r0, q1, i0, r1, q2, i1, res),
        crate::router::is_first_match(r0.conns, p.spec_id(), i),
        !(bound_socket(r0, p.spec_id().dport) matches Some(s) && s.socket_type
            == crate::port::SocketType::Connectionless),
    ensures
        res == Ok::<Routed, CspError>(Routed::ToConnection(i as usize)),
        r1.conns[i].rx == r0.conns[i].rx.push(p),
        q2.len() == 0,
{
    assert(q1[0].packet == p && q1[0].interface == 0);
    crate::router::lemma_delivered_to_matching_connection(r0, p, i);
}

/// Law: only ports 0, 1, 4 and 6 stand for a service (compare, ping,
/// reboot, uptime, each on its own port); every other port stands for
/// itself, and a port that stands for itself is that port.
pub proof fn lemma_service_ports(p: u8)
    ensures
        (p != 0 && p != 1 && p != 4 && p != 6) <==> spec_service_port(p) == ServicePort::Port(p),
        spec_service_port(p) is Port ==> spec_service_port(p) == ServicePort::Port(p),
        spec_service_port(p) == ServicePort::Compare <==> p == 0,
        spec_service_port(p) == ServicePort::Ping <==> p == 1,
        spec_service_port(p) == ServicePort::Reboot <==> p == 4,
        spec_service_port(p) == ServicePort::Uptime <==> p == 6,
{
}

/// Law: `sendto` addresses the packet to the given address and port, from
/// the given port and from source address 0, with the given priority,
/// keeping the packet's flags.
pub proof fn lemma_sendto_id_fields(priority: u8, destination: u16, dport: u8, sport: u8, flags: u8)
    ensures
        sendto_id(priority, destination, dport, sport, flags).destination == destination,
        sendto_id(priority, destination, dport, sport, flags).dport == dport,
        sendto_id(priority, destination, dport, sport, flags).sport == sport,
        sendto_id(priority, destination, dport, sport, flags).source == 0,
        sendto_id(priority, destination, dport, sport, flags).priority == priority,
        sendto_id(priority, destination, dport, sport, flags).flags == flags,
{
}

} // verus!

