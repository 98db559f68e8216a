//! Integers and byte strings as the MySQL protocol writes them.
use vstd::prelude::*;

verus! {

/// The lowest `width` bytes of `v`, least significant byte first.
pub open spec fn uint_le(v: nat, width: nat) -> Seq<u8>
    decreases width,
{
    if width == 0 {
        Seq::empty()
    } else {
        seq![(v % 256) as u8] + uint_le(v / 256, (width - 1) as nat)
    }
}

/// A length-encoded integer: values below 251 are one byte; larger ones are a marker byte
/// and then two, three or eight bytes, least significant byte first.
pub open spec fn uint_lenenc(v: nat) -> Seq<u8> {
    if v < 251 {
        seq![v as u8]
    } else if v < 0x1_0000 {
        seq![0xfcu8] + uint_le(v, 2)
    } else if v < 0x100_0000 {
        seq![0xfdu8] + uint_le(v, 3)
    } else {
        seq![0xfeu8] + uint_le(v, 8)
    }
}

/// A length-encoded string: the number of bytes as a length-encoded integer, then the bytes.
pub open spec fn bytes_lenenc(bytes: Seq<u8>) -> Seq<u8> {
    uint_lenenc(bytes.len()) + bytes
}

/// Appends the lowest `width` bytes of `v` to `buf`, least significant byte first.
pub fn put_uint_le(buf: &mut Vec<u8>, v: u64, width: usize)
    ensures
        final(buf)@ == old(buf)@ + uint_le(v as nat, width as nat),
{
    let mut rest: u64 = v;
    let mut done: usize = 0;
    while done < width
        invariant
            done <= width,
            buf@ + uint_le(rest as nat, (width - done) as nat) == old(buf)@ + uint_le(
                v as nat,
                width as nat,
            ),
        decreases width - done,
    {
        let byte: u8 = (rest % 256) as u8;
        buf.push(byte);
        rest = rest / 256;
        done = done + 1;
    }
}

/// Appends `v` to `buf` as a length-encoded integer.
pub fn put_uint_lenenc(buf: &mut Vec<u8>, v: u64)
    ensures
        final(buf)@ == old(buf)@ + uint_lenenc(v as nat),
{
    if v < 251 {
        buf.push(v as u8);
    } else if v < 0x1_0000 {
        buf.push(0xfc);
        put_uint_le(buf, v, 2);
    } else if v < 0x100_0000 {
        buf.push(0xfd);
        put_uint_le(buf, v, 3);
    } else {
        buf.push(0xfe);
        put_uint_le(buf, v, 8);
    }
}

/// Appends `bytes` to `buf` as a length-encoded string.
pub fn put_bytes_lenenc(buf: &mut Vec<u8>, bytes: &[u8])
    ensures
        final(buf)@ == old(buf)@ + bytes_lenenc(bytes@),
{
    put_uint_lenenc(buf, bytes.len() as u64);
    buf.extend_from_slice(bytes);
}

} // verus!
