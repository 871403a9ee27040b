//! Packets and the library's error type.
use crate::id::{read_u64_be, spec_prepend_id, spec_strip_id, CspId};
use vstd::prelude::*;

verus! {

/// A packet: its total length on the wire, its identifier, the six header
/// bytes it carries and its payload.
#[derive(Debug, Clone, PartialEq)]
pub struct CspPacket {
    length: u16,
    id: CspId,
    header: [u8; 6],
    data: Vec<u8>,
}

pub type Packet = CspPacket;

impl CspPacket {
    /// The length recorded in the packet (header and payload).
    pub closed spec fn spec_len(self) -> u16 {
        self.length
    }

    pub closed spec fn spec_id(self) -> CspId {
        self.id
    }

    /// The six header bytes.
    pub closed spec fn spec_header(self) -> Seq<u8> {
        self.header@
    }

    /// The payload.
    pub closed spec fn spec_data(self) -> Seq<u8> {
        self.data@
    }

    /// Builds a packet from the first `length` bytes of a frame: the first six
    /// are the header, the rest the payload; the identifier is given apart.
    pub fn new(length: usize, data: [u8; 256], id: CspId) -> (r: Self)
        requires
            6 <= length <= 256,
        ensures
            r.spec_len() == length,
            r.spec_id() == id,
            r.spec_header() == data@.subrange(0, 6),
            r.spec_data() == data@.subrange(6, length as int),
    {
        let header: [u8; 6] = [data[0], data[1], data[2], data[3], data[4], data[5]];
        let mut payload: Vec<u8> = Vec::new();
        let mut i: usize = 6;
        while i < length
            invariant
                6 <= i <= length <= 256,
                payload@ == data@.subrange(6, i as int),
            decreases length - i,
        {
            payload.push(data[i]);
            i = i + 1;
            assert(payload@ =~= data@.subrange(6, i as int));
        }
        assert(header@ =~= data@.subrange(0, 6));
        CspPacket { length: length as u16, id, header, data: payload }
    }

    /// Builds a packet from the first `length` bytes of a received frame; the
    /// identifier is decoded from its header.
    pub fn from(length: usize, data: [u8; 256]) -> (r: Self)
        requires
            6 <= length <= 256,
        ensures
            r.spec_len() == length,
            r.spec_id() == spec_strip_id(seq![0u8, 0u8] + data@.subrange(0, 6)),
            r.spec_header() == data@.subrange(0, 6),
            r.spec_data() == data@.subrange(6, length as int),
    {
        let raw: [u8; 8] = [0u8, 0u8, data[0], data[1], data[2], data[3], data[4], data[5]];
        assert(raw@ =~= seq![0u8, 0u8] + data@.subrange(0, 6));
        let id = Self::strip_id(raw);
        Self::new(length, data, id)
    }

    pub fn len(&self) -> (r: u16)
        ensures
            r == self.spec_len(),
    {
        self.length
    }

    /// The frame that goes on the wire: the header bytes, then the payload.
    pub fn make_buffer(self) -> (r: Vec<u8>)
        ensures
            r@ == self.spec_header() + self.spec_data(),
    {
        let mut header: Vec<u8> = Vec::new();
        let mut i: usize = 0;
        while i < 6
            invariant
                i <= 6,
                header@ == self.header@.subrange(0, i as int),
            decreases 6 - i,
        {
            header.push(self.header[i]);
            i = i + 1;
            assert(header@ =~= self.header@.subrange(0, i as int));
        }
        let mut data = self.data;
        header.append(&mut data);
        assert(header@ =~= self.header@ + self.data@);
        header
    }

    pub fn id(&self) -> (r: &CspId)
        ensures
            *r == self.spec_id(),
    {
        &self.id
    }

    /// The six header bytes.
    pub fn header(&self) -> (r: &[u8; 6])
        ensures
            r@ == self.spec_header(),
    {
        &self.header
    }

    pub fn data(&self) -> (r: &[u8])
        ensures
            r@ == self.spec_data(),
    {
        self.data.as_slice()
    }

    /// Gives the packet a new identifier, and the header bytes that encode it.
    pub fn set_id(&mut self, id: CspId)
        ensures
            final(self).spec_id() == id,
            final(self).spec_header() == spec_prepend_id(id),
            final(self).spec_len() == old(self).spec_len(),
            final(self).spec_data() == old(self).spec_data(),
    {
        let h = Self::prepend_id(&id);
        self.header = [h[0], h[1], h[2], h[3], h[4], h[5]];
        self.id = id;
        assert(self.header@ =~= spec_prepend_id(id));
    }

    /// Decodes an identifier from eight bytes in network order; the header is
    /// in the last six, the first two are ignored.
    pub fn strip_id(id: [u8; 8]) -> (r: CspId)
        ensures
            r == spec_strip_id(id@),
    {
        let v = read_u64_be(&id);
        CspId {
            priority: ((v >> 46u64) & 0x3u64) as u8,
            destination: ((v >> 32u64) & 0x3fffu64) as u16,
            source: ((v >> 18u64) & 0x3fffu64) as u16,
            dport: ((v >> 12u64) & 0x3fu64) as u8,
            sport: ((v >> 6u64) & 0x3fu64) as u8,
            flags: (v & 0x3fu64) as u8,
        }
    }

    /// Encodes an identifier as the six bytes of its wire header.
    pub fn prepend_id(id: &CspId) -> (r: Vec<u8>)
        ensures
            r@ == spec_prepend_id(*id),
    {
        let v: u64 = (((id.priority as u64) & 0x3u64) << 46u64) | (((id.destination as u64)
            & 0x3fffu64) << 32u64) | (((id.source as u64) & 0x3fffu64) << 18u64) | (((id.dport
            as u64) & 0x3fu64) << 12u64) | (((id.sport as u64) & 0x3fu64) << 6u64) | ((id.flags
            as u64) & 0x3fu64);
        let mut r: Vec<u8> = Vec::new();
        r.push(((v >> 40u64) & 0xffu64) as u8);
        r.push(((v >> 32u64) & 0xffu64) as u8);
        r.push(((v >> 24u64) & 0xffu64) as u8);
        r.push(((v >> 16u64) & 0xffu64) as u8);
        r.push(((v >> 8u64) & 0xffu64) as u8);
        r.push((v & 0xffu64) as u8);
        assert(r@ =~= spec_prepend_id(*id));
        r
    }
}

/// Law: the frame of a packet built from the first `length` bytes of a buffer
/// is exactly those bytes.
pub proof fn lemma_frame_roundtrip(p: CspPacket, length: int, data: Seq<u8>)
    requires
        6 <= length <= data.len(),
        p.spec_header() == data.subrange(0, 6),
        p.spec_data() == data.subrange(6, length),
    ensures
        p.spec_header() + p.spec_data() == data.subrange(0, length),
{
    assert(p.spec_header() + p.spec_data() =~= data.subrange(0, length));
}

/// Errors of the library's operations.
#[derive(Debug, Clone, Copy, PartialEq, Eq, Structural)]
pub enum CspError {
    OutOfPorts,
    EmptyQfifo,
    ClosedConnection,
    InterfaceSendFailed,
    InvalidPort,
}

pub type CspResult<T> = Result<T, CspError>;

} // verus!
