//! Connections: a pair of identifiers (incoming and outgoing), a state and a
//! queue of received packets.
use crate::fifo::{lemma_fifo_run, push_all, take_n};
use crate::id::CspId;
use crate::types::Packet;
use std::collections::VecDeque;
use vstd::prelude::*;

verus! {

#[derive(Debug, Clone, Copy, PartialEq, Eq, Structural)]
pub enum ConnectionType {
    Client,
    Server,
}

#[derive(Debug, Clone, Copy, PartialEq, Eq, Structural)]
pub enum ConnectionState {
    Open,
    Closed,
}

/// What a connection holds, as mathematical values.
pub struct ConnectionView {
    pub conn_type: ConnectionType,
    pub conn_state: ConnectionState,
    /// Received packets, oldest first.
    pub rx: Seq<Packet>,
    pub id_out: CspId,
    pub id_in: CspId,
    /// The port of the socket that the connection is attached to, if any.
    pub dest_socket: Option<usize>,
    pub sport_outgoing: u8,
}

/// A connection between this node and a peer.
#[derive(Debug)]
pub struct Connection {
    conn_type: ConnectionType,
    conn_state: ConnectionState,
    rx_queue: VecDeque<Packet>,
    id_out: CspId,
    id_in: CspId,
    dest_socket: Option<usize>,
    sport_outgoing: u8,
}

impl View for Connection {
    type V = ConnectionView;

    closed spec fn view(&self) -> ConnectionView {
        ConnectionView {
            conn_type: self.conn_type,
            conn_state: self.conn_state,
            rx: self.rx_queue@,
            id_out: self.id_out,
            id_in: self.id_in,
            dest_socket: self.dest_socket,
            sport_outgoing: self.sport_outgoing,
        }
    }
}

impl ConnectionView {
    pub open spec fn with_rx(self, rx: Seq<Packet>) -> ConnectionView {
        ConnectionView { rx, ..self }
    }

    pub open spec fn with_ids(self, id_in: CspId, id_out: CspId) -> ConnectionView {
        ConnectionView { id_in, id_out, ..self }
    }

    pub open spec fn with_state(self, conn_state: ConnectionState) -> ConnectionView {
        ConnectionView { conn_state, ..self }
    }

    pub open spec fn with_type(self, conn_type: ConnectionType) -> ConnectionView {
        ConnectionView { conn_type, ..self }
    }
}

impl Default for Connection {
    fn default() -> (r: Self)
        ensures
            r@ == (ConnectionView {
                conn_type: ConnectionType::Client,
                conn_state: ConnectionState::Closed,
                rx: Seq::empty(),
                id_out: crate::id::zero_id(),
                id_in: crate::id::zero_id(),
                dest_socket: None,
                sport_outgoing: 0,
            }),
    {
        Self {
            conn_type: ConnectionType::Client,
            conn_state: ConnectionState::Closed,
            rx_queue: VecDeque::new(),
            id_out: CspId::default(),
            id_in: CspId::default(),
            dest_socket: None,
            sport_outgoing: 0,
        }
    }
}

impl Connection {
    /// A closed connection with incoming identifier `sid` and outgoing
    /// identifier `did`; the outgoing source port is left at zero.
    pub fn new(sid: CspId, did: CspId, status: ConnectionType, sport_outgoing: u8) -> (r: Self)
        ensures
            r@ == (ConnectionView {
                conn_type: status,
                conn_state: ConnectionState::Closed,
                rx: Seq::empty(),
                id_out: did,
                id_in: sid,
                dest_socket: None,
                sport_outgoing: 0,
            }),
    {
        Connection {
            conn_type: status,
            conn_state: ConnectionState::Closed,
            rx_queue: VecDeque::new(),
            id_out: did,
            id_in: sid,
            dest_socket: None,
            sport_outgoing: 0,
        }
    }

    pub fn id_out(&self) -> (r: &CspId)
        ensures
            *r == self@.id_out,
    {
        &self.id_out
    }

    pub fn id_in(&self) -> (r: &CspId)
        ensures
            *r == self@.id_in,
    {
        &self.id_in
    }

    pub fn set_ids(&mut self, id_in: CspId, id_out: CspId)
        ensures
            final(self)@ == old(self)@.with_ids(id_in, id_out),
    {
        self.id_in = id_in;
        self.id_out = id_out;
    }

    pub fn conn_type(&self) -> (r: ConnectionType)
        ensures
            r == self@.conn_type,
    {
        self.conn_type
    }

    pub fn conn_state(&self) -> (r: ConnectionState)
        ensures
            r == self@.conn_state,
    {
        self.conn_state
    }

    /// Queues a received packet.
    pub fn push(&mut self, packet: Packet)
        ensures
            final(self)@ == old(self)@.with_rx(old(self)@.rx.push(packet)),
    {
        self.rx_queue.push_back(packet);
    }

    /// Takes the oldest received packet, if any.
    pub fn read(&mut self) -> (r: Option<Packet>)
        ensures
            old(self)@.rx.len() == 0 ==> r is None && final(self)@ == old(self)@,
            old(self)@.rx.len() > 0 ==> r == Some(old(self)@.rx[0])
                && final(self)@ == old(self)@.with_rx(old(self)@.rx.drop_first()),
    {
        let r = self.rx_queue.pop_front();
        proof {
            if old(self)@.rx.len() > 0 {
                assert(self.rx_queue@ =~= old(self)@.rx.drop_first());
            }
        }
        r
    }

    pub fn close(&mut self)
        ensures
            final(self)@ == old(self)@.with_state(ConnectionState::Closed),
    {
        self.conn_state = ConnectionState::Closed;
    }

    pub fn open(&mut self)
        ensures
            final(self)@ == old(self)@.with_state(ConnectionState::Open),
    {
        self.conn_state = ConnectionState::Open;
    }

    /// Attaches the connection to the socket bound on port `socket`.
    pub fn set_destination_socket(&mut self, socket: usize)
        ensures
            final(self)@ == (ConnectionView { dest_socket: Some(socket), ..old(self)@ }),
    {
        self.dest_socket = Some(socket);
    }

    pub fn get_destination_socket(&mut self) -> (r: Option<usize>)
        ensures
            r == old(self)@.dest_socket,
            final(self)@ == old(self)@,
    {
        match &self.dest_socket {
            Some(socket) => Some(*socket),
            None => None,
        }
    }

    /// The destination port of incoming packets.
    pub fn dport(&self) -> (r: u8)
        ensures
            r == self@.id_in.dport,
    {
        self.id_in().dport
    }

    pub fn into_server(&mut self)
        ensures
            final(self)@ == old(self)@.with_type(ConnectionType::Server),
    {
        self.conn_type = ConnectionType::Server;
    }

    pub fn into_client(&mut self)
        ensures
            final(self)@ == old(self)@.with_type(ConnectionType::Client),
    {
        self.conn_type = ConnectionType::Client;
    }
}

/// The connection after `push` of each packet of `ps` in turn (by `push`'s
/// contract).
pub open spec fn conn_pushed_all(c: ConnectionView, ps: Seq<Packet>) -> ConnectionView
    decreases ps.len(),
{
    if ps.len() == 0 {
        c
    } else {
        let d = conn_pushed_all(c, ps.drop_last());
        d.with_rx(d.rx.push(ps.last()))
    }
}

/// The connection after `k` calls of `read` (by `read`'s contract).
pub open spec fn conn_read_n(c: ConnectionView, k: nat) -> ConnectionView
    decreases k,
{
    if k == 0 {
        c
    } else {
        let d = conn_read_n(c, (k - 1) as nat);
        if d.rx.len() > 0 {
            d.with_rx(d.rx.drop_first())
        } else {
            d
        }
    }
}

proof fn lemma_conn_pushed_all(c: ConnectionView, ps: Seq<Packet>)
    ensures
        conn_pushed_all(c, ps) == c.with_rx(push_all(c.rx, ps)),
    decreases ps.len(),
{
    if ps.len() > 0 {
        lemma_conn_pushed_all(c, ps.drop_last());
    }
}

proof fn lemma_conn_read_n(c: ConnectionView, k: nat)
    ensures
        conn_read_n(c, k) == c.with_rx(take_n(c.rx, k)),
    decreases k,
{
    if k > 0 {
        lemma_conn_read_n(c, (k - 1) as nat);
    }
}

/// Law: the packets pushed onto a connection with an empty queue come out of
/// successive reads in the order they were pushed, and once they are all out
/// the connection is as it was (the next read gives `None`); pushes and
/// reads change nothing but the queue.
pub proof fn lemma_connection_fifo_run(c: ConnectionView, ps: Seq<Packet>)
    requires
        c.rx.len() == 0,
    ensures
        conn_pushed_all(c, ps) == c.with_rx(ps),
        forall|k: nat|
            k < ps.len() ==> #[trigger] conn_read_n(conn_pushed_all(c, ps), k).rx.len() > 0
                && conn_read_n(conn_pushed_all(c, ps), k).rx[0] == ps[k as int],
        conn_read_n(conn_pushed_all(c, ps), ps.len()) == c,
{
    assert(c.rx =~= Seq::<Packet>::empty());
    lemma_fifo_run(ps);
    lemma_conn_pushed_all(c, ps);
    let d = c.with_rx(ps);
    assert forall|k: nat| k < ps.len() implies #[trigger] conn_read_n(conn_pushed_all(c, ps), k).rx.len() > 0
        && conn_read_n(conn_pushed_all(c, ps), k).rx[0] == ps[k as int] by {
        lemma_conn_read_n(d, k);
        assert(take_n(ps, k).len() > 0 && take_n(ps, k)[0] == ps[k as int]);
    }
    lemma_conn_read_n(d, ps.len());
    assert(take_n(ps, ps.len()) =~= c.rx);
}

} // verus!

