//! Ports and the sockets bound to them.
use crate::fifo::{lemma_fifo_run, push_all, take_n};
use crate::types::Packet;
use std::collections::VecDeque;
use vstd::prelude::*;

verus! {

#[derive(Debug, Clone, Copy, PartialEq, Eq, Structural)]
pub enum PortState {
    Closed,
    Open,
}

#[derive(Debug, Clone, Copy, PartialEq, Eq, Structural)]
pub enum SocketType {
    Connectionless,
    ConnectionOriented,
}

/// What a socket holds, as mathematical values.
pub struct SocketView {
    /// Packets queued on a connectionless socket, oldest first.
    pub queue: Seq<Packet>,
    pub socket_type: SocketType,
    /// The incoming connection waiting to be accepted, if any.
    pub inc_connection: Option<usize>,
}

/// A socket: connectionless sockets queue packets, connection-oriented ones
/// hand out incoming connections.
#[derive(Debug)]
pub struct Socket {
    queue: VecDeque<Packet>,
    socket_type: SocketType,
    inc_connection: Option<usize>,
}

impl View for Socket {
    type V = SocketView;

    closed spec fn view(&self) -> SocketView {
        SocketView {
            queue: self.queue@,
            socket_type: self.socket_type,
            inc_connection: self.inc_connection,
        }
    }
}

/// What a port holds, as mathematical values.
pub struct PortView {
    pub state: PortState,
    pub socket: Option<SocketView>,
}

/// A port of this node; an open port holds the socket bound to it.
#[derive(Debug)]
pub struct Port {
    pub state: PortState,
    pub socket: Option<Socket>,
}

impl View for Port {
    type V = PortView;

    open spec fn view(&self) -> PortView {
        PortView {
            state: self.state,
            socket: match self.socket {
                Some(s) => Some(s@),
                None => None,
            },
        }
    }
}

impl Port {
    /// An open port holding `socket`.
    pub fn bind(socket: Socket) -> (r: Port)
        ensures
            r@ == (PortView { state: PortState::Open, socket: Some(socket@) }),
    {
        Port { state: PortState::Open, socket: Some(socket) }
    }

    /// A closed port without a socket.
    pub fn closed() -> (r: Port)
        ensures
            r@ == (PortView { state: PortState::Closed, socket: None }),
    {
        Port { state: PortState::Closed, socket: None }
    }

    pub fn close(&mut self)
        ensures
            final(self)@ == (PortView { state: PortState::Closed, ..old(self)@ }),
    {
        self.state = PortState::Closed;
    }

    pub fn is_open(&self) -> (r: bool)
        ensures
            r == (self.state == PortState::Open),
    {
        match self.state {
            PortState::Closed => false,
            PortState::Open => true,
        }
    }
}

impl Socket {
    pub fn conn_less() -> (r: Socket)
        ensures
            r@ == (SocketView {
                queue: Seq::empty(),
                socket_type: SocketType::Connectionless,
                inc_connection: None,
            }),
    {
        Socket {
            queue: VecDeque::new(),
            socket_type: SocketType::Connectionless,
            inc_connection: None,
        }
    }

    pub fn conn() -> (r: Socket)
        ensures
            r@ == (SocketView {
                queue: Seq::empty(),
                socket_type: SocketType::ConnectionOriented,
                inc_connection: None,
            }),
    {
        Socket {
            queue: VecDeque::new(),
            socket_type: SocketType::ConnectionOriented,
            inc_connection: None,
        }
    }

    pub fn is_conn_less(&self) -> (r: bool)
        ensures
            r == (self@.socket_type == SocketType::Connectionless),
    {
        match self.socket_type {
            SocketType::Connectionless => true,
            SocketType::ConnectionOriented => false,
        }
    }

    /// Offers connection `conn` to be accepted, replacing any earlier offer.
    pub fn set_conn(&mut self, conn: usize)
        ensures
            final(self)@ == (SocketView { inc_connection: Some(conn), ..old(self)@ }),
    {
        self.inc_connection = Some(conn);
    }

    /// Takes the offered connection, if any, leaving none.
    pub fn accept(&mut self) -> (r: Option<usize>)
        ensures
            r == old(self)@.inc_connection,
            final(self)@ == (SocketView { inc_connection: None, ..old(self)@ }),
    {
        self.inc_connection.take()
    }

    /// Queues a packet on the socket.
    pub fn push(&mut self, packet: Packet)
        ensures
            final(self)@ == (SocketView { queue: old(self)@.queue.push(packet), ..old(self)@ }),
    {
        self.queue.push_back(packet);
    }

    /// Takes the oldest queued packet, if any.
    pub fn receive(&mut self) -> (r: Option<Packet>)
        ensures
            old(self)@.queue.len() == 0 ==> r is None && final(self)@ == old(self)@,
            old(self)@.queue.len() > 0 ==> r == Some(old(self)@.queue[0]) && final(self)@ == (
            SocketView { queue: old(self)@.queue.drop_first(), ..old(self)@ }),
    {
        let r = self.queue.pop_front();
        proof {
            if old(self)@.queue.len() > 0 {
                assert(self.queue@ =~= old(self)@.queue.drop_first());
            }
        }
        r
    }
}

/// The socket after `push` of each packet of `ps` in turn (by `push`'s
/// contract).
pub open spec fn socket_pushed_all(s: SocketView, ps: Seq<Packet>) -> SocketView
    decreases ps.len(),
{
    if ps.len() == 0 {
        s
    } else {
        let d = socket_pushed_all(s, ps.drop_last());
        SocketView { queue: d.queue.push(ps.last()), ..d }
    }
}

/// The socket after `k` calls of `receive` (by `receive`'s contract).
pub open spec fn socket_received_n(s: SocketView, k: nat) -> SocketView
    decreases k,
{
    if k == 0 {
        s
    } else {
        let d = socket_received_n(s, (k - 1) as nat);
        if d.queue.len() > 0 {
            SocketView { queue: d.queue.drop_first(), ..d }
        } else {
            d
        }
    }
}

proof fn lemma_socket_pushed_all(s: SocketView, ps: Seq<Packet>)
    ensures
        socket_pushed_all(s, ps) == (SocketView { queue: push_all(s.queue, ps), ..s }),
    decreases ps.len(),
{
    if ps.len() > 0 {
        lemma_socket_pushed_all(s, ps.drop_last());
    }
}

proof fn lemma_socket_received_n(s: SocketView, k: nat)
    ensures
        socket_received_n(s, k) == (SocketView { queue: take_n(s.queue, k), ..s }),
    decreases k,
{
    if k > 0 {
        lemma_socket_received_n(s, (k - 1) as nat);
    }
}

/// Law: the packets pushed onto a socket with an empty queue come out of
/// successive receives in the order they were pushed, and once they are all
/// out the socket is as it was (the next receive gives `None`).
pub proof fn lemma_socket_fifo_run(s: SocketView, ps: Seq<Packet>)
    requires
        s.queue.len() == 0,
    ensures
        socket_pushed_all(s, ps) == (SocketView { queue: ps, ..s }),
        forall|k: nat|
            k < ps.len() ==> #[trigger] socket_received_n(socket_pushed_all(s, ps), k).queue.len() > 0
                && socket_received_n(socket_pushed_all(s, ps), k).queue[0] == ps[k as int],
        socket_received_n(socket_pushed_all(s, ps), ps.len()) == s,
{
    assert(s.queue =~= Seq::<Packet>::empty());
    lemma_fifo_run(ps);
    lemma_socket_pushed_all(s, ps);
    let d = SocketView { queue: ps, ..s };
    assert forall|k: nat| k < ps.len() implies #[trigger] socket_received_n(socket_pushed_all(s, ps), k).queue.len() > 0
        && socket_received_n(socket_pushed_all(s, ps), k).queue[0] == ps[k as int] by {
        lemma_socket_received_n(d, k);
        assert(take_n(ps, k).len() > 0 && take_n(ps, k)[0] == ps[k as int]);
    }
    lemma_socket_received_n(d, ps.len());
    assert(take_n(ps, ps.len()) =~= s.queue);
}

} // verus!

