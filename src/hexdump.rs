//! A hex and ASCII rendering of bytes, sixteen to a line.
use vstd::prelude::*;

use crate::commands::push_bytes;

verus! {

/// The lower-case hex digit of `n`.
pub open spec fn hex_char(n: u8) -> u8 {
    if n < 10 {
        (0x30 + n) as u8
    } else {
        (0x61 + n - 10) as u8
    }
}

/// The two hex digits of `b`.
pub open spec fn byte_hex(b: u8) -> Seq<u8> {
    seq![hex_char(b / 16), hex_char(b % 16)]
}

/// The eight hex digits of `o`, most significant first.
pub open spec fn offset_hex(o: u32) -> Seq<u8> {
    Seq::new(8, |i: int| hex_char(((o as int / pow16(7 - i)) % 16) as u8))
}

pub open spec fn pow16(e: int) -> int
    decreases e,
{
    if e <= 0 {
        1
    } else {
        16 * pow16(e - 1)
    }
}

/// A byte as shown in the ASCII column: itself if printable, else a dot.
pub open spec fn ascii_of(b: u8) -> u8 {
    if 0x20 <= b <= 0x7E {
        b
    } else {
        0x2E
    }
}

/// The hex column of a line: each byte as two digits and a space, padded
/// with three spaces per missing byte up to sixteen.
pub open spec fn hex_column(line: Seq<u8>, i: nat) -> Seq<u8>
    decreases i,
{
    if i == 0 {
        Seq::empty()
    } else {
        hex_column(line, (i - 1) as nat) + if i - 1 < line.len() {
            byte_hex(line[i - 1]) + seq![0x20u8]
        } else {
            seq![0x20u8, 0x20u8, 0x20u8]
        }
    }
}

/// The ASCII column of a line.
pub open spec fn ascii_column(line: Seq<u8>) -> Seq<u8> {
    line.map_values(|b: u8| ascii_of(b))
}

/// One line: offset, colon, hex column, then the ASCII column between bars.
pub open spec fn hexdump_line(line: Seq<u8>, offset: u32) -> Seq<u8> {
    offset_hex(offset) + seq![0x3Au8, 0x20u8] + hex_column(line, 16) + seq![0x20u8, 0x7Cu8] + ascii_column(line)
        + seq![0x7Cu8, 0x0Au8]
}

/// The dump of the first `n` lines of `data`.
pub open spec fn hexdump_spec(data: Seq<u8>, n: nat) -> Seq<u8>
    decreases n,
{
    if n == 0 {
        Seq::empty()
    } else {
        let start = 16 * (n - 1);
        let end: int = if 16 * n < data.len() {
            16 * n as int
        } else {
            data.len() as int
        };
        hexdump_spec(data, (n - 1) as nat) + hexdump_line(data.subrange(start, end), start as u32)
    }
}

/// Number of lines the dump of `len` bytes has.
pub open spec fn line_count(len: nat) -> nat {
    ((len + 15) / 16) as nat
}

fn hex_digit(n: u8) -> (r: u8)
    requires
        n < 16,
    ensures
        r == hex_char(n),
{
    if n < 10 {
        0x30 + n
    } else {
        0x61 + n - 10
    }
}

fn push_offset(v: &mut Vec<u8>, o: u32)
    ensures
        final(v)@ == old(v)@ + offset_hex(o),
{
    let ghost start = v@;
    let mut i: usize = 0;
    let mut div: u32 = 0x1000_0000;
    proof {
        reveal_with_fuel(pow16, 8);
    }
    while i < 8
        invariant
            0 <= i <= 8,
            div as int == pow16(7 - i as int),
            i < 8 ==> div >= 1,
            v@ == start + offset_hex(o).subrange(0, i as int),
        decreases 8 - i,
    {
        proof {
            reveal_with_fuel(pow16, 8);
        }
        let d = ((o / div) % 16) as u8;
        v.push(hex_digit(d));
        i = i + 1;
        if i < 8 {
            div = div / 16;
        }
        assert(v@ =~= start + offset_hex(o).subrange(0, i as int));
    }
    assert(offset_hex(o).subrange(0, 8) =~= offset_hex(o));
}

/// Renders `data` as lines of sixteen bytes: the offset in eight hex digits,
/// each byte in hex, then the bytes as ASCII with unprintable ones as dots.
pub fn hexdump(data: &[u8]) -> (r: Vec<u8>)
    requires
        data@.len() < 0x1_0000_0000,
    ensures
        r@ == hexdump_spec(data@, line_count(data@.len())),
{
    let mut out: Vec<u8> = Vec::new();
    let mut offset: usize = 0;
    let ghost mut n: nat = 0;
    while offset < data.len()
        invariant
            data@.len() < 0x1_0000_0000,
            offset as int == (if 16 * n < data@.len() { 16 * n as int } else { data@.len() as int }),
            n <= line_count(data@.len()),
            out@ == hexdump_spec(data@, n),
        decreases data@.len() - offset,
    {
        let end = if data.len() - offset > 16 {
            offset + 16
        } else {
            data.len()
        };
        let line = vstd::slice::slice_subrange(data, offset, end);
        let ghost before = out@;
        push_offset(&mut out, offset as u32);
        push_bytes(&mut out, &[0x3A, 0x20]);
        let ghost hex_start = out@;
        let mut i: usize = 0;
        while i < 16
            invariant
                0 <= i <= 16,
                line@.len() <= 16,
                out@ == hex_start + hex_column(line@, i as nat),
            decreases 16 - i,
        {
            if i < line.len() {
                let b = line[i];
                out.push(hex_digit(b / 16));
                out.push(hex_digit(b % 16));
                out.push(0x20);
            } else {
                out.push(0x20);
                out.push(0x20);
                out.push(0x20);
            }
            i = i + 1;
            assert(out@ =~= hex_start + hex_column(line@, i as nat));
        }
        push_bytes(&mut out, &[0x20, 0x7C]);
        let ghost ascii_start = out@;
        let mut j: usize = 0;
        while j < line.len()
            invariant
                0 <= j <= line@.len(),
                out@ == ascii_start + ascii_column(line@).subrange(0, j as int),
            decreases line@.len() - j,
        {
            let b = line[j];
            out.push(if 0x20 <= b && b <= 0x7E {
                b
            } else {
                0x2E
            });
            j = j + 1;
            assert(out@ =~= ascii_start + ascii_column(line@).subrange(0, j as int));
        }
        push_bytes(&mut out, &[0x7C, 0x0A]);
        proof {
            assert(ascii_column(line@).subrange(0, line@.len() as int) =~= ascii_column(line@));
            n = n + 1;
            assert(out@ =~= before + hexdump_line(line@, (16 * (n - 1)) as u32));
        }
        offset = end;
    }
    out
}

} // verus!
