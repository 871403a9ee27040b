//! Interfaces: the ways a packet leaves this node.
//!
//! A loopback interface hands the packet back to the node's own queue, a
//! drain interface consumes it (the caller shows it), and a UDP interface
//! turns it into a frame that the caller sends as a datagram.
use crate::qfifo::{CspQfifo, QfifoElement};
use crate::types::Packet;
use vstd::prelude::*;

verus! {

/// The counters and addressing of an interface, as mathematical values.
pub struct InterfaceStateView {
    pub address: u16,
    pub netmask: u16,
    pub name: Seq<char>,
    pub tx: u32,
    pub rx: u32,
    pub tx_bytes: u32,
    pub rx_bytes: u32,
}

/// Common metadata for each interface.
#[derive(Debug)]
pub struct CspInterfaceState {
    address: u16,
    netmask: u16,
    name: String,
    tx: u32,
    rx: u32,
    tx_bytes: u32,
    rx_bytes: u32,
}

impl View for CspInterfaceState {
    type V = InterfaceStateView;

    closed spec fn view(&self) -> InterfaceStateView {
        InterfaceStateView {
            address: self.address,
            netmask: self.netmask,
            name: self.name@,
            tx: self.tx,
            rx: self.rx,
            tx_bytes: self.tx_bytes,
            rx_bytes: self.rx_bytes,
        }
    }
}

/// The state of a fresh interface named `name`: everything else zero.
pub open spec fn fresh_state(name: Seq<char>) -> InterfaceStateView {
    InterfaceStateView {
        address: 0,
        netmask: 0,
        name,
        tx: 0,
        rx: 0,
        tx_bytes: 0,
        rx_bytes: 0,
    }
}

impl Default for CspInterfaceState {
    fn default() -> (r: Self)
        ensures
            r@ == fresh_state(Seq::empty()),
    {
        CspInterfaceState {
            address: 0,
            netmask: 0,
            name: String::new(),
            tx: 0,
            rx: 0,
            tx_bytes: 0,
            rx_bytes: 0,
        }
    }
}

impl CspInterfaceState {
    /// Counts one transmitted packet.
    pub fn increment_tx(&mut self)
        requires
            old(self)@.tx < u32::MAX,
        ensures
            final(self)@ == (InterfaceStateView { tx: (old(self)@.tx + 1) as u32, ..old(self)@ }),
    {
        self.tx = self.tx + 1;
    }

    /// Counts one received packet.
    pub fn increment_rx(&mut self)
        requires
            old(self)@.rx < u32::MAX,
        ensures
            final(self)@ == (InterfaceStateView { rx: (old(self)@.rx + 1) as u32, ..old(self)@ }),
    {
        self.rx = self.rx + 1;
    }

    /// The address of this node on the interface's subnet.
    pub fn address(&self) -> (r: u16)
        ensures
            r == self@.address,
    {
        self.address
    }

    /// The number of packets received so far.
    pub fn rx(&self) -> (r: u32)
        ensures
            r == self@.rx,
    {
        self.rx
    }

    pub fn from_name(name: &str) -> (r: Self)
        ensures
            r@ == fresh_state(name@),
    {
        CspInterfaceState {
            address: 0,
            netmask: 0,
            name: name.to_owned(),
            tx: 0,
            rx: 0,
            tx_bytes: 0,
            rx_bytes: 0,
        }
    }
}

/// An interface whose transmissions come back into this node's queue.
#[derive(Debug)]
pub struct LoopbackInterface {
    iface: CspInterfaceState,
    index: usize,
}

impl LoopbackInterface {
    pub closed spec fn spec_state(&self) -> InterfaceStateView {
        self.iface@
    }

    pub closed spec fn spec_index(&self) -> usize {
        self.index
    }

    /// A loopback interface at position `index` of the interface list.
    pub fn init(index: usize) -> (r: Self)
        ensures
            r.spec_state() == fresh_state(Seq::empty()),
            r.spec_index() == index,
    {
        LoopbackInterface { iface: CspInterfaceState::default(), index }
    }
}

/// An interface that consumes every packet sent on it.
#[derive(Debug)]
pub struct DrainInterface {
    iface: CspInterfaceState,
}

impl DrainInterface {
    pub closed spec fn spec_state(&self) -> InterfaceStateView {
        self.iface@
    }

    pub fn new() -> (r: Self)
        ensures
            r.spec_state() == fresh_state(seq!['D', 'r', 'a', 'i', 'n']),
    {
        proof {
            reveal_strlit("Drain");
        }
        let r = DrainInterface { iface: CspInterfaceState::from_name("Drain") };
        assert(r.iface@.name =~= seq!['D', 'r', 'a', 'i', 'n']);
        r
    }
}

/// An interface that sends packets as UDP datagrams from local port `lport`
/// to remote port `rport` (the sockets themselves are kept by the caller).
#[derive(Debug)]
pub struct UdpInterface {
    iface: CspInterfaceState,
    lport: u16,
    rport: u16,
}

impl UdpInterface {
    pub closed spec fn spec_state(&self) -> InterfaceStateView {
        self.iface@
    }

    pub closed spec fn spec_ports(&self) -> (u16, u16) {
        (self.lport, self.rport)
    }

    pub fn from(lport: u16, rport: u16, iface: CspInterfaceState) -> (r: Self)
        ensures
            r.spec_state() == iface@,
            r.spec_ports() == (lport, rport),
    {
        UdpInterface { iface, lport, rport }
    }

    /// The local and remote UDP ports.
    pub fn ports(&self) -> (r: (u16, u16))
        ensures
            r == self.spec_ports(),
    {
        (self.lport, self.rport)
    }
}

/// What kind of interface it is, with what distinguishes one of its kind.
#[derive(Debug, Clone, Copy, PartialEq, Eq, Structural)]
pub enum InterfaceKind {
    Loopback { index: usize },
    Drain,
    Udp { lport: u16, rport: u16 },
}

/// An interface as mathematical values.
pub struct InterfaceView {
    pub kind: InterfaceKind,
    pub state: InterfaceStateView,
}

/// The interface `v` with one more packet received.
pub open spec fn counted(v: InterfaceView) -> InterfaceView {
    InterfaceView {
        state: InterfaceStateView { rx: (v.state.rx + 1) as u32, ..v.state },
        ..v
    }
}

/// One of the interfaces of this node.
#[derive(Debug)]
pub enum Interface {
    Loopback(LoopbackInterface),
    Drain(DrainInterface),
    Udp(UdpInterface),
}

impl View for Interface {
    type V = InterfaceView;

    open spec fn view(&self) -> InterfaceView {
        match self {
            Interface::Loopback(l) => InterfaceView {
                kind: InterfaceKind::Loopback { index: l.spec_index() },
                state: l.spec_state(),
            },
            Interface::Drain(d) => InterfaceView { kind: InterfaceKind::Drain, state: d.spec_state() },
            Interface::Udp(u) => InterfaceView {
                kind: InterfaceKind::Udp { lport: u.spec_ports().0, rport: u.spec_ports().1 },
                state: u.spec_state(),
            },
        }
    }
}

/// What became of a packet handed to an interface.
#[derive(Debug)]
pub enum Hop {
    /// Put back on this node's queue (loopback); the count is what the queue
    /// reported.
    Queued(usize),
    /// Consumed by a drain interface; the caller shows it.
    Drained(Packet),
    /// To be sent as one datagram by the UDP interface at position `iface`.
    Transmit { iface: usize, frame: Vec<u8> },
}

/// `r` and `q1` are what handing `packet` to an interface of kind `kind`, at
/// position `me`, gives and leaves of the queue `q0`.
pub open spec fn hop_result(
    kind: InterfaceKind,
    me: usize,
    packet: Packet,
    q0: Seq<QfifoElement>,
    q1: Seq<QfifoElement>,
    r: Hop,
) -> bool {
    match kind {
        InterfaceKind::Loopback { .. } => {
            &&& r == Hop::Queued(0)
            &&& q1 == q0.push(QfifoElement { packet, interface: me })
        },
        InterfaceKind::Drain => {
            &&& r == Hop::Drained(packet)
            &&& q1 == q0
        },
        InterfaceKind::Udp { .. } => {
            &&& r matches Hop::Transmit { iface, frame } && iface == me && frame@
                == packet.spec_header() + packet.spec_data()
            &&& q1 == q0
        },
    }
}

/// An interface that can transmit packets.
pub trait NextHop {
    /// What kind of interface it is.
    spec fn hop_kind(&self) -> InterfaceKind;

    /// Its metadata, as mathematical values.
    spec fn hop_state(&self) -> InterfaceStateView;

    /// Transmits `packet` on this interface, which stands at position `me` of
    /// the node's interface list.
    fn nexthop(&self, me: usize, packet: Packet, qfifo: &mut CspQfifo) -> (r: Hop)
        ensures
            hop_result(self.hop_kind(), me, packet, old(qfifo)@, final(qfifo)@, r),
    ;

    /// The interface's metadata.
    fn get_state(&self) -> (r: &CspInterfaceState)
        ensures
            r@ == self.hop_state(),
    ;
}

impl NextHop for LoopbackInterface {
    open spec fn hop_kind(&self) -> InterfaceKind {
        InterfaceKind::Loopback { index: self.spec_index() }
    }

    open spec fn hop_state(&self) -> InterfaceStateView {
        self.spec_state()
    }

    /// Puts the packet back on the node's queue.
    fn nexthop(&self, me: usize, packet: Packet, qfifo: &mut CspQfifo) -> (r: Hop) {
        Hop::Queued(qfifo.push(packet, me))
    }

    fn get_state(&self) -> (r: &CspInterfaceState) {
        &self.iface
    }
}

impl NextHop for DrainInterface {
    open spec fn hop_kind(&self) -> InterfaceKind {
        InterfaceKind::Drain
    }

    open spec fn hop_state(&self) -> InterfaceStateView {
        self.spec_state()
    }

    /// Consumes the packet; the caller shows it.
    fn nexthop(&self, me: usize, packet: Packet, qfifo: &mut CspQfifo) -> (r: Hop) {
        Hop::Drained(packet)
    }

    fn get_state(&self) -> (r: &CspInterfaceState) {
        &self.iface
    }
}

impl NextHop for UdpInterface {
    open spec fn hop_kind(&self) -> InterfaceKind {
        InterfaceKind::Udp { lport: self.spec_ports().0, rport: self.spec_ports().1 }
    }

    open spec fn hop_state(&self) -> InterfaceStateView {
        self.spec_state()
    }

    /// Turns the packet into the frame to send as one datagram.
    fn nexthop(&self, me: usize, packet: Packet, qfifo: &mut CspQfifo) -> (r: Hop) {
        Hop::Transmit { iface: me, frame: packet.make_buffer() }
    }

    fn get_state(&self) -> (r: &CspInterfaceState) {
        &self.iface
    }
}

impl Interface {
    pub fn kind(&self) -> (r: InterfaceKind)
        ensures
            r == self@.kind,
    {
        match self {
            Interface::Loopback(l) => InterfaceKind::Loopback { index: l.index },
            Interface::Drain(_) => InterfaceKind::Drain,
            Interface::Udp(u) => InterfaceKind::Udp { lport: u.lport, rport: u.rport },
        }
    }

    /// Counts one received packet on the interface.
    pub fn increment_rx(&mut self)
        requires
            old(self)@.state.rx < u32::MAX,
        ensures
            final(self)@ == counted(old(self)@),
    {
        match self {
            Interface::Loopback(l) => l.iface.increment_rx(),
            Interface::Drain(d) => d.iface.increment_rx(),
            Interface::Udp(u) => u.iface.increment_rx(),
        }
    }
}

impl NextHop for Interface {
    open spec fn hop_kind(&self) -> InterfaceKind {
        self@.kind
    }

    open spec fn hop_state(&self) -> InterfaceStateView {
        self@.state
    }

    fn nexthop(&self, me: usize, packet: Packet, qfifo: &mut CspQfifo) -> (r: Hop) {
        match self {
            Interface::Loopback(l) => l.nexthop(me, packet, qfifo),
            Interface::Drain(d) => d.nexthop(me, packet, qfifo),
            Interface::Udp(u) => u.nexthop(me, packet, qfifo),
        }
    }

    fn get_state(&self) -> (r: &CspInterfaceState) {
        match self {
            Interface::Loopback(l) => l.get_state(),
            Interface::Drain(d) => d.get_state(),
            Interface::Udp(u) => u.get_state(),
        }
    }
}

/// Law: a packet handed to a loopback interface comes back at the back of the
/// queue, unchanged and marked with that interface, behind everything
/// already queued.
pub proof fn lemma_loopback_returns(
    index: usize,
    me: usize,
    packet: Packet,
    q0: Seq<QfifoElement>,
    q1: Seq<QfifoElement>,
    r: Hop,
)
    requires
        hop_result(InterfaceKind::Loopback { index }, me, packet, q0, q1, r),
    ensures
        q1.len() == q0.len() + 1,
        q1.subrange(0, q0.len() as int) == q0,
        q1[q0.len() as int].packet == packet,
        q1[q0.len() as int].interface == me,
{
    assert(q1.subrange(0, q0.len() as int) =~= q0);
}

/// Law: an interface reports its own state: after `increment_rx`,
/// `get_state` reports the state from before with one more packet received,
/// and the kind of the interface is unchanged.
pub proof fn lemma_increment_seen(before: Interface, after: Interface)
    requires
        after@ == counted(before@),
    ensures
        after.hop_state() == (InterfaceStateView {
            rx: (before.hop_state().rx + 1) as u32,
            ..before.hop_state()
        }),
        after.hop_kind() == before.hop_kind(),
{
}

} // verus!

