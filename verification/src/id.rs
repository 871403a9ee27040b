//! The CSP identifier and its 48-bit big-endian wire header.
//!
//! From the most significant bit of the header down: priority (2 bits),
//! destination (14), source (14), destination port (6), source port (6),
//! flags (6).
use byteorder::{BigEndian, ByteOrder};
use vstd::prelude::*;

verus! {

/// The addressing fields of a packet.
#[derive(Debug, Copy, Clone, PartialEq, Eq, Structural, PartialOrd, Ord)]
pub struct CspId {
    pub priority: u8,
    pub flags: u8,
    pub source: u16,
    pub destination: u16,
    pub dport: u8,
    pub sport: u8,
}

/// The identifier whose fields are all zero.
pub open spec fn zero_id() -> CspId {
    CspId { priority: 0, flags: 0, source: 0, destination: 0, dport: 0, sport: 0 }
}

impl Default for CspId {
    fn default() -> (r: Self)
        ensures
            r == zero_id(),
    {
        CspId { priority: 0, flags: 0, source: 0, destination: 0, dport: 0, sport: 0 }
    }
}

impl CspId {
    /// Every field fits the width that the wire header gives it.
    pub open spec fn fits_header(self) -> bool {
        &&& self.priority < 4
        &&& self.destination < 0x4000
        &&& self.source < 0x4000
        &&& self.dport < 0x40
        &&& self.sport < 0x40
        &&& self.flags < 0x40
    }

    /// Overwrites this identifier with `other`.
    pub fn copy_from(&mut self, other: CspId)
        ensures
            *final(self) == other,
    {
        *self = other;
    }

    pub fn dport(&self) -> (r: u8)
        ensures
            r == self.dport,
    {
        self.dport
    }
}

/// Eight bytes read as a big-endian integer.
pub open spec fn be_u64(b: Seq<u8>) -> u64 {
    ((b[0] as u64) << 56u64) | ((b[1] as u64) << 48u64) | ((b[2] as u64) << 40u64) | ((b[3]
        as u64) << 32u64) | ((b[4] as u64) << 24u64) | ((b[5] as u64) << 16u64) | ((b[6] as u64)
        << 8u64) | (b[7] as u64)
}

/// The identifier that the low 48 bits of `v` encode.
pub open spec fn id_from_bits(v: u64) -> CspId {
    CspId {
        priority: ((v >> 46u64) & 0x3u64) as u8,
        destination: ((v >> 32u64) & 0x3fffu64) as u16,
        source: ((v >> 18u64) & 0x3fffu64) as u16,
        dport: ((v >> 12u64) & 0x3fu64) as u8,
        sport: ((v >> 6u64) & 0x3fu64) as u8,
        flags: (v & 0x3fu64) as u8,
    }
}

/// The 48-bit header value of an identifier; each field is cut to its width.
pub open spec fn id_bits(id: CspId) -> u64 {
    (((id.priority as u64) & 0x3u64) << 46u64) | (((id.destination as u64) & 0x3fffu64)
        << 32u64) | (((id.source as u64) & 0x3fffu64) << 18u64) | (((id.dport as u64) & 0x3fu64)
        << 12u64) | (((id.sport as u64) & 0x3fu64) << 6u64) | ((id.flags as u64) & 0x3fu64)
}

/// The low 48 bits of `v` as six big-endian bytes.
pub open spec fn u48_be_bytes(v: u64) -> Seq<u8> {
    seq![
        ((v >> 40u64) & 0xffu64) as u8,
        ((v >> 32u64) & 0xffu64) as u8,
        ((v >> 24u64) & 0xffu64) as u8,
        ((v >> 16u64) & 0xffu64) as u8,
        ((v >> 8u64) & 0xffu64) as u8,
        (v & 0xffu64) as u8,
    ]
}

/// What `strip_id` decodes from eight bytes (the header in the last six).
pub open spec fn spec_strip_id(b: Seq<u8>) -> CspId {
    id_from_bits(be_u64(b))
}

/// The six header bytes that `prepend_id` writes for an identifier.
pub open spec fn spec_prepend_id(id: CspId) -> Seq<u8> {
    u48_be_bytes(id_bits(id))
}

/// `byteorder::BigEndian::read_u64`: the eight bytes of `bytes` read as a
/// big-endian `u64` (it panics only on fewer than eight bytes).
#[verifier::external_body]
pub(crate) fn read_u64_be(bytes: &[u8; 8]) -> (r: u64)
    ensures
        r == be_u64(bytes@),
{
    BigEndian::read_u64(bytes)
}

/// Law: decoding the header that `prepend_id` writes, behind two leading
/// bytes of zero, gives back the identifier, for every identifier whose
/// fields fit their header widths.
pub proof fn lemma_header_roundtrip(id: CspId)
    requires
        id.fits_header(),
    ensures
        spec_strip_id(seq![0u8, 0u8] + spec_prepend_id(id)) == id,
{
    let v = id_bits(id);
    let b = seq![0u8, 0u8] + spec_prepend_id(id);
    assert(b.len() == 8);
    assert(b[2] == ((v >> 40u64) & 0xffu64) as u8);
    assert(b[3] == ((v >> 32u64) & 0xffu64) as u8);
    assert(b[4] == ((v >> 24u64) & 0xffu64) as u8);
    assert(b[5] == ((v >> 16u64) & 0xffu64) as u8);
    assert(b[6] == ((v >> 8u64) & 0xffu64) as u8);
    assert(b[7] == (v & 0xffu64) as u8);
    let (b2, b3, b4, b5, b6, b7) = (b[2], b[3], b[4], b[5], b[6], b[7]);
    let w = be_u64(b);
    assert(w == ((0u8 as u64) << 56u64) | ((0u8 as u64) << 48u64) | ((b2 as u64) << 40u64) | ((b3
        as u64) << 32u64) | ((b4 as u64) << 24u64) | ((b5 as u64) << 16u64) | ((b6 as u64) << 8u64)
        | (b7 as u64));
    assert(w == v & 0xffff_ffff_ffffu64) by (bit_vector)
        requires
            w == ((0u8 as u64) << 56u64) | ((0u8 as u64) << 48u64) | ((b2 as u64) << 40u64) | ((b3
                as u64) << 32u64) | ((b4 as u64) << 24u64) | ((b5 as u64) << 16u64) | ((b6 as u64)
                << 8u64) | (b7 as u64),
            b2 == ((v >> 40u64) & 0xffu64) as u8,
            b3 == ((v >> 32u64) & 0xffu64) as u8,
            b4 == ((v >> 24u64) & 0xffu64) as u8,
            b5 == ((v >> 16u64) & 0xffu64) as u8,
            b6 == ((v >> 8u64) & 0xffu64) as u8,
            b7 == (v & 0xffu64) as u8,
    ;
    let (p, d, s, dp, sp, f) = (id.priority, id.destination, id.source, id.dport, id.sport, id.flags);
    assert(id_from_bits(w) == id) by {
        assert(((w >> 46u64) & 0x3u64) as u8 == p && ((w >> 32u64) & 0x3fffu64) as u16 == d && ((w
            >> 18u64) & 0x3fffu64) as u16 == s && ((w >> 12u64) & 0x3fu64) as u8 == dp && ((w
            >> 6u64) & 0x3fu64) as u8 == sp && (w & 0x3fu64) as u8 == f) by (bit_vector)
            requires
                w == v & 0xffff_ffff_ffffu64,
                v == (((p as u64) & 0x3u64) << 46u64) | (((d as u64) & 0x3fffu64) << 32u64) | (((
                s as u64) & 0x3fffu64) << 18u64) | (((dp as u64) & 0x3fu64) << 12u64) | (((sp
                    as u64) & 0x3fu64) << 6u64) | ((f as u64) & 0x3fu64),
                p < 4,
                d < 0x4000,
                s < 0x4000,
                dp < 0x40,
                sp < 0x40,
                f < 0x40,
        ;
    }
}

/// Law: re-encoding a decoded identifier gives back the six header bytes it
/// was decoded from, whatever they held.
pub proof fn lemma_header_bytes_roundtrip(b: Seq<u8>)
    requires
        b.len() == 8,
    ensures
        spec_prepend_id(spec_strip_id(b)) == b.subrange(2, 8),
{
    let w = be_u64(b);
    let id = id_from_bits(w);
    let v = id_bits(id);
    let (b0, b1, b2, b3, b4, b5, b6, b7) = (b[0], b[1], b[2], b[3], b[4], b[5], b[6], b[7]);
    let (p, d, s, dp, sp, f) = (id.priority, id.destination, id.source, id.dport, id.sport, id.flags);
    assert(v == w & 0xffff_ffff_ffffu64) by (bit_vector)
        requires
            p == ((w >> 46u64) & 0x3u64) as u8,
            d == ((w >> 32u64) & 0x3fffu64) as u16,
            s == ((w >> 18u64) & 0x3fffu64) as u16,
            dp == ((w >> 12u64) & 0x3fu64) as u8,
            sp == ((w >> 6u64) & 0x3fu64) as u8,
            f == (w & 0x3fu64) as u8,
            v == (((p as u64) & 0x3u64) << 46u64) | (((d as u64) & 0x3fffu64) << 32u64) | (((s
                as u64) & 0x3fffu64) << 18u64) | (((dp as u64) & 0x3fu64) << 12u64) | (((sp
                as u64) & 0x3fu64) << 6u64) | ((f as u64) & 0x3fu64),
    ;
    assert(((v >> 40u64) & 0xffu64) as u8 == b2 && ((v >> 32u64) & 0xffu64) as u8 == b3 && ((v
        >> 24u64) & 0xffu64) as u8 == b4 && ((v >> 16u64) & 0xffu64) as u8 == b5 && ((v >> 8u64)
        & 0xffu64) as u8 == b6 && (v & 0xffu64) as u8 == b7) by (bit_vector)
        requires
            v == w & 0xffff_ffff_ffffu64,
            w == ((b0 as u64) << 56u64) | ((b1 as u64) << 48u64) | ((b2 as u64) << 40u64) | ((b3
                as u64) << 32u64) | ((b4 as u64) << 24u64) | ((b5 as u64) << 16u64) | ((b6 as u64)
                << 8u64) | (b7 as u64),
    ;
    assert(spec_prepend_id(id) =~= b.subrange(2, 8));
}

/// Law: where each field of a decoded identifier lies in the eight bytes
/// read, the header being the last six: priority in the top two bits of byte
/// 2; destination in the low six bits of byte 2 and byte 3; source in byte 4
/// and the top six bits of byte 5; destination port in the low two bits of
/// byte 5 and the top four of byte 6; source port in the low four bits of
/// byte 6 and the top two of byte 7; flags in the low six bits of byte 7.
pub proof fn lemma_strip_id_fields(b: Seq<u8>)
    requires
        b.len() == 8,
    ensures
        spec_strip_id(b).priority == b[2] / 64,
        spec_strip_id(b).destination == (b[2] % 64) * 256 + b[3],
        spec_strip_id(b).source == b[4] * 64 + b[5] / 4,
        spec_strip_id(b).dport == (b[5] % 4) * 16 + b[6] / 16,
        spec_strip_id(b).sport == (b[6] % 16) * 4 + b[7] / 64,
        spec_strip_id(b).flags == b[7] % 64,
{
    let (b0, b1, b2, b3, b4, b5, b6, b7) = (b[0], b[1], b[2], b[3], b[4], b[5], b[6], b[7]);
    let w = be_u64(b);
    assert(
        ((w >> 46u64) & 0x3u64) == b2 / 64
        && ((w >> 32u64) & 0x3fffu64) == (b2 % 64) * 256 + b3
        && ((w >> 18u64) & 0x3fffu64) == b4 * 64 + b5 / 4
        && ((w >> 12u64) & 0x3fu64) == (b5 % 4) * 16 + b6 / 16
        && ((w >> 6u64) & 0x3fu64) == (b6 % 16) * 4 + b7 / 64
        && (w & 0x3fu64) == b7 % 64
    ) by (bit_vector)
        requires
            w == ((b0 as u64) << 56u64) | ((b1 as u64) << 48u64) | ((b2 as u64) << 40u64) | ((b3
                as u64) << 32u64) | ((b4 as u64) << 24u64) | ((b5 as u64) << 16u64) | ((b6 as u64)
                << 8u64) | (b7 as u64),
    ;
}

/// Law: the six header bytes of an identifier, each written from the fields
/// it carries (fields cut to their widths): priority and the top six bits of
/// the destination; the low byte of the destination; the top eight bits of
/// the source; the low six bits of the source and the top two of the
/// destination port; the low four bits of the destination port and the top
/// four of the source port; the low two bits of the source port and the
/// flags.
pub proof fn lemma_prepend_id_bytes(id: CspId)
    ensures
        spec_prepend_id(id).len() == 6,
        spec_prepend_id(id)[0] == (id.priority % 4) * 64 + (id.destination % 16384) / 256,
        spec_prepend_id(id)[1] == id.destination % 256,
        spec_prepend_id(id)[2] == (id.source % 16384) / 64,
        spec_prepend_id(id)[3] == (id.source % 64) * 4 + (id.dport % 64) / 16,
        spec_prepend_id(id)[4] == (id.dport % 16) * 16 + (id.sport % 64) / 4,
        spec_prepend_id(id)[5] == (id.sport % 4) * 64 + id.flags % 64,
{
    let (p, d, s, dp, sp, f) = (id.priority, id.destination, id.source, id.dport, id.sport, id.flags);
    let v = id_bits(id);
    assert(
        ((v >> 40u64) & 0xffu64) == (p % 4) * 64 + (d % 16384) / 256
        && ((v >> 32u64) & 0xffu64) == d % 256
        && ((v >> 24u64) & 0xffu64) == (s % 16384) / 64
        && ((v >> 16u64) & 0xffu64) == (s % 64) * 4 + (dp % 64) / 16
        && ((v >> 8u64) & 0xffu64) == (dp % 16) * 16 + (sp % 64) / 4
        && (v & 0xffu64) == (sp % 4) * 64 + f % 64
    ) by (bit_vector)
        requires
            v == (((p as u64) & 0x3u64) << 46u64) | (((d as u64) & 0x3fffu64) << 32u64) | (((s
                as u64) & 0x3fffu64) << 18u64) | (((dp as u64) & 0x3fu64) << 12u64) | (((sp
                as u64) & 0x3fu64) << 6u64) | ((f as u64) & 0x3fu64),
    ;
}

} // verus!

