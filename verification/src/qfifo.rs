//! The global packet queue: packets waiting to be routed, each with the
//! interface it arrived on.
use crate::fifo::{lemma_fifo_run, push_all, take_n};
use crate::types::CspPacket;
use std::collections::VecDeque;
use vstd::prelude::*;

verus! {

/// A queued packet and the index of the interface it came from.
#[derive(Debug)]
pub struct QfifoElement {
    pub packet: CspPacket,
    pub interface: usize,
}

/// First in, first out queue of packets.
#[derive(Debug)]
pub struct CspQfifo {
    qfifo: VecDeque<QfifoElement>,
}

impl View for CspQfifo {
    type V = Seq<QfifoElement>;

    closed spec fn view(&self) -> Seq<QfifoElement> {
        self.qfifo@
    }
}

impl CspQfifo {
    /// The contents of a new queue.
    pub open spec fn empty_view() -> Seq<QfifoElement> {
        Seq::empty()
    }

    pub fn new() -> (r: Self)
        ensures
            r@ == Self::empty_view(),
    {
        CspQfifo { qfifo: VecDeque::new() }
    }

    /// Appends a packet at the back of the queue.
    pub fn push(&mut self, packet: CspPacket, interface: usize) -> (r: usize)
        ensures
            final(self)@ == old(self)@.push(QfifoElement { packet, interface }),
            r == 0,
    {
        let qfifo_element = QfifoElement { packet, interface };
        self.qfifo.push_back(qfifo_element);
        0
    }

    /// Removes the packet at the front of the queue, with its interface.
    pub fn pop(&mut self) -> (r: Option<(CspPacket, usize)>)
        ensures
            old(self)@.len() == 0 ==> r is None && final(self)@ == old(self)@,
            old(self)@.len() > 0 ==> r == Some((old(self)@[0].packet, old(self)@[0].interface))
                && final(self)@ == old(self)@.drop_first(),
    {
        match self.qfifo.pop_front() {
            Some(qfifo_element) => Some((qfifo_element.packet, qfifo_element.interface)),
            None => None,
        }
    }

    /// The interface of the packet at the front of the queue, if any.
    pub fn front_interface(&self) -> (r: Option<usize>)
        ensures
            self@.len() == 0 ==> r is None,
            self@.len() > 0 ==> r == Some(self@[0].interface),
    {
        if self.qfifo.len() == 0 {
            None
        } else {
            Some(self.qfifo[0].interface)
        }
    }

    /// The number of queued packets.
    pub fn len(&self) -> (r: usize)
        ensures
            r == self@.len(),
    {
        self.qfifo.len()
    }
}

/// Law: the queue is first in, first out: after pushing onto a queue, popping
/// gives the front of the old queue if there was one, else what was pushed.
pub proof fn lemma_qfifo_order(q: Seq<QfifoElement>, e: QfifoElement)
    ensures
        q.len() > 0 ==> q.push(e)[0] == q[0] && q.push(e).drop_first() == q.drop_first().push(e),
        q.len() == 0 ==> q.push(e)[0] == e && q.push(e).drop_first() == q,
{
    if q.len() > 0 {
        assert(q.push(e).drop_first() =~= q.drop_first().push(e));
    } else {
        assert(q.push(e).drop_first() =~= q);
    }
}

/// Law: the packets pushed onto a new queue come out of successive pops in
/// the order they were pushed, each with its interface, and once they are all
/// out the queue is empty (the next pop gives `None`). `push_all` and
/// `take_n` are what successive `push` and `pop` calls do to the queue's
/// view by their contracts.
pub proof fn lemma_qfifo_run(es: Seq<QfifoElement>)
    ensures
        push_all(CspQfifo::empty_view(), es) == es,
        forall|k: nat|
            k < es.len() ==> #[trigger] take_n(es, k).len() > 0 && take_n(es, k)[0] == es[k as int],
        take_n(es, es.len()).len() == 0,
{
    lemma_fifo_run(es);
}

} // verus!

