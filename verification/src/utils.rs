//! A sample frame for exercising the stack.
use vstd::prelude::*;

verus! {

/// Byte `i` of the sample frame: six header bytes of `0xFF`, then a counter
/// that starts at zero.
pub open spec fn test_buffer_byte(i: int) -> u8 {
    if i < 6 {
        0xFFu8
    } else {
        (i - 6) as u8
    }
}

/// A 256-byte frame whose header is all ones and whose payload counts up
/// from zero (wrapping after `0xFF`).
pub fn test_buffer() -> (r: [u8; 256])
    ensures
        forall|i: int| 0 <= i < 256 ==> r@[i] == test_buffer_byte(i),
{
    let mut buffer: [u8; 256] = [0u8; 256];
    let mut i: usize = 0;
    while i < 6
        invariant
            i <= 6,
            forall|j: int| 0 <= j < i ==> buffer@[j] == test_buffer_byte(j),
        decreases 6 - i,
    {
        buffer[i] = 0xFFu8;
        i = i + 1;
    }
    let mut counter: u8 = 0x00;
    while i < 256
        invariant
            6 <= i <= 256,
            counter == i - 6,
            forall|j: int| 0 <= j < i ==> buffer@[j] == test_buffer_byte(j),
        decreases 256 - i,
    {
        buffer[i] = counter;
        if counter == 0xFFu8 {
            counter = 0x00;
        } else {
            counter = counter + 1;
        }
        i = i + 1;
    }
    buffer
}

/// The upper-case hexadecimal digit of a value below sixteen.
pub open spec fn hex_digit(d: u8) -> char {
    if d < 10 {
        (d + 48) as char
    } else {
        (d + 55) as char
    }
}

/// A byte as two upper-case hexadecimal digits and a space.
pub open spec fn hex_byte(b: u8) -> Seq<char> {
    seq![hex_digit(b / 16), hex_digit(b % 16), ' ']
}

/// The hexadecimal column of a dump row for `b`.
pub open spec fn row_hex(b: Seq<u8>) -> Seq<char>
    decreases b.len(),
{
    if b.len() == 0 {
        Seq::empty()
    } else {
        row_hex(b.drop_last()) + hex_byte(b.last())
    }
}

/// A byte as shown in the text column: itself if it is a visible ASCII
/// character, else a space.
pub open spec fn ascii_char(b: u8) -> char {
    if 0x21 <= b && b <= 0x7e {
        b as char
    } else {
        ' '
    }
}

/// The text column of a dump row for `b`.
pub open spec fn row_ascii(b: Seq<u8>) -> Seq<char> {
    b.map_values(|x: u8| ascii_char(x))
}

/// `n` placeholders `XX `.
pub open spec fn xx_pad(n: nat) -> Seq<char>
    decreases n,
{
    if n == 0 {
        Seq::empty()
    } else {
        xx_pad((n - 1) as nat) + seq!['X', 'X', ' ']
    }
}

/// One line of a hex dump: the offset shown, the hexadecimal column and the
/// text column.
#[derive(Debug)]
pub struct DumpRow {
    pub offset: usize,
    pub hex: Vec<char>,
    pub ascii: Vec<char>,
}

/// The number of lines that dumping the first `len` bytes gives.
pub open spec fn dump_row_count(len: nat) -> nat {
    if len == 0 {
        0
    } else {
        ((len - 1) as nat / 8) + 1
    }
}

/// Row `k` of the dump of the first `len` bytes of `buf`: eight bytes per row;
/// the last row (at most eight bytes) shows the buffer's length as its offset
/// and is padded with `8 - len % 8` placeholders.
pub open spec fn dump_row_ok(buf: Seq<u8>, len: nat, k: nat, row: DumpRow) -> bool {
    let last = dump_row_count(len) - 1;
    if k < last {
        &&& row.offset == 8 * k
        &&& row.hex@ == row_hex(buf.subrange(8 * k as int, 8 * k as int + 8))
        &&& row.ascii@ == row_ascii(buf.subrange(8 * k as int, 8 * k as int + 8))
    } else {
        &&& row.offset == buf.len()
        &&& row.hex@ == row_hex(buf.subrange(8 * k as int, len as int)) + xx_pad((8 - len % 8) as nat)
        &&& row.ascii@ == row_ascii(buf.subrange(8 * k as int, len as int))
    }
}

fn hex_digit_of(d: u8) -> (r: char)
    requires
        d < 16,
    ensures
        r == hex_digit(d),
{
    if d < 10 {
        (d + 48) as char
    } else {
        (d + 55) as char
    }
}

/// The lines of a hex dump of the first `len` bytes of `buffer`.
pub fn dump_rows(buffer: &[u8], len: usize) -> (r: Vec<DumpRow>)
    requires
        len <= buffer@.len(),
    ensures
        r@.len() == dump_row_count(len as nat),
        forall|k: int| 0 <= k < r@.len() ==> dump_row_ok(buffer@, len as nat, k as nat, #[trigger] r@[k]),
        r@.len() == (len + 7) / 8,
        forall|k: int| 0 <= k < r@.len() - 1 ==> (#[trigger] r@[k]).offset == 8 * k,
        r@.len() > 0 ==> r@[r@.len() - 1].offset == buffer@.len(),
{
    let mut rows: Vec<DumpRow> = Vec::new();
    let mut hex_row: Vec<char> = Vec::new();
    let mut ascii_row: Vec<char> = Vec::new();
    let mut row_start: usize = 0;
    let mut i: usize = 0;
    while i < len
        invariant
            len <= buffer@.len(),
            i <= len,
            row_start <= i,
            i == 0 ==> row_start == 0,
            i > 0 ==> row_start == 8 * ((i - 1) as int / 8),
            rows@.len() == row_start / 8,
            row_start % 8 == 0,
            hex_row@ == row_hex(buffer@.subrange(row_start as int, i as int)),
            ascii_row@ == row_ascii(buffer@.subrange(row_start as int, i as int)),
            forall|k: int|
                0 <= k < rows@.len() ==> {
                    &&& (#[trigger] rows@[k]).offset == 8 * k
                    &&& rows@[k].hex@ == row_hex(buffer@.subrange(8 * k, 8 * k + 8))
                    &&& rows@[k].ascii@ == row_ascii(buffer@.subrange(8 * k, 8 * k + 8))
                },
        decreases len - i,
    {
        if i > 0 && i % 8 == 0 {
            let address_offset = i - 8;
            let row = DumpRow { offset: address_offset, hex: hex_row, ascii: ascii_row };
            rows.push(row);
            hex_row = Vec::new();
            ascii_row = Vec::new();
            row_start = i;
            assert(buffer@.subrange(i as int, i as int) =~= Seq::<u8>::empty());
            assert(row_ascii(Seq::<u8>::empty()) =~= Seq::<char>::empty());
        }
        let byte = buffer[i];
        let ghost old_hex = hex_row@;
        let ghost old_ascii = ascii_row@;
        hex_row.push(hex_digit_of(byte / 16));
        hex_row.push(hex_digit_of(byte % 16));
        hex_row.push(' ');
        ascii_row.push(if 0x21u8 <= byte && byte <= 0x7eu8 { byte as char } else { ' ' });
        let ghost seg = buffer@.subrange(row_start as int, i as int + 1);
        assert(seg.drop_last() =~= buffer@.subrange(row_start as int, i as int));
        assert(seg.last() == byte);
        assert(row_hex(seg) == row_hex(seg.drop_last()) + hex_byte(byte));
        assert(hex_row@ =~= old_hex + hex_byte(byte));
        assert(hex_row@ =~= row_hex(seg));
        assert(ascii_row@ =~= row_ascii(seg));
        i = i + 1;
    }
    if hex_row.len() > 0 {
        let address_offset = buffer.len();
        let remaining = 8 - (len % 8);
        let mut j: usize = 0;
        let ghost base = hex_row@;
        assert(base + xx_pad(0) =~= base);
        while j < remaining
            invariant
                j <= remaining,
                hex_row@ == base + xx_pad(j as nat),
            decreases remaining - j,
        {
            hex_row.push('X');
            hex_row.push('X');
            hex_row.push(' ');
            j = j + 1;
            assert(hex_row@ =~= base + xx_pad(j as nat));
        }
        let row = DumpRow { offset: address_offset, hex: hex_row, ascii: ascii_row };
        rows.push(row);
    } else {
        assert(len == 0) by {
            if len > 0 {
                assert(row_start < len);
            }
        }
    }
    rows
}

/// The value of an upper-case hexadecimal digit.
pub open spec fn hex_value(c: char) -> int {
    if '0' <= c && c <= '9' {
        c as int - '0' as int
    } else {
        c as int - 'A' as int + 10
    }
}

/// An upper-case hexadecimal digit.
pub open spec fn is_upper_hex(c: char) -> bool {
    ('0' <= c && c <= '9') || ('A' <= c && c <= 'F')
}

/// Law: the hexadecimal column shows each byte as three characters: two
/// upper-case hexadecimal digits whose value is the byte, then a space.
pub proof fn lemma_row_hex_shows_bytes(b: Seq<u8>)
    ensures
        row_hex(b).len() == 3 * b.len(),
        forall|i: int|
            0 <= i < b.len() ==> {
                &&& is_upper_hex(#[trigger] row_hex(b)[3 * i])
                &&& is_upper_hex(row_hex(b)[3 * i + 1])
                &&& hex_value(row_hex(b)[3 * i]) * 16 + hex_value(row_hex(b)[3 * i + 1]) == b[i]
                &&& row_hex(b)[3 * i + 2] == ' '
            },
    decreases b.len(),
{
    if b.len() > 0 {
        let p = b.drop_last();
        lemma_row_hex_shows_bytes(p);
        let x = b.last();
        let hi = x / 16;
        let lo = x % 16;
        assert(hi < 16 && lo < 16 && hi * 16 + lo == x) by (nonlinear_arith)
            requires
                hi == x / 16,
                lo == x % 16,
        ;
        assert forall|i: int| 0 <= i < b.len() implies {
            &&& is_upper_hex(#[trigger] row_hex(b)[3 * i])
            &&& is_upper_hex(row_hex(b)[3 * i + 1])
            &&& hex_value(row_hex(b)[3 * i]) * 16 + hex_value(row_hex(b)[3 * i + 1]) == b[i]
            &&& row_hex(b)[3 * i + 2] == ' '
        } by {
            if i < p.len() {
                assert(row_hex(b)[3 * i] == row_hex(p)[3 * i]);
                assert(row_hex(b)[3 * i + 1] == row_hex(p)[3 * i + 1]);
                assert(row_hex(b)[3 * i + 2] == row_hex(p)[3 * i + 2]);
                assert(p[i] == b[i]);
            } else {
                assert(row_hex(b)[3 * i] == hex_digit(hi));
                assert(row_hex(b)[3 * i + 1] == hex_digit(lo));
            }
        }
    }
}

} // verus!

