//! Identifiers and the byte encodings that keys are made of.

use vstd::prelude::*;
use vstd::string::StringSliceAdditionalSpecFns;

verus! {

/// A UUID, held as its sixteen bytes.
#[derive(Debug, Clone, Copy, PartialEq, Eq)]
pub struct Uuid {
    pub bytes: [u8; 16],
}

/// The big-endian bytes of `x`, most significant first.
pub open spec fn be_u64(x: u64) -> Seq<u8> {
    seq![
        (x / 0x100000000000000 % 256) as u8,
        (x / 0x1000000000000 % 256) as u8,
        (x / 0x10000000000 % 256) as u8,
        (x / 0x100000000 % 256) as u8,
        (x / 0x1000000 % 256) as u8,
        (x / 0x10000 % 256) as u8,
        (x / 0x100 % 256) as u8,
        (x % 256) as u8,
    ]
}

/// The big-endian bytes of `x`, most significant first.
pub open spec fn be_u32(x: u32) -> Seq<u8> {
    seq![
        (x / 0x1000000 % 256) as u8,
        (x / 0x10000 % 256) as u8,
        (x / 0x100 % 256) as u8,
        (x % 256) as u8,
    ]
}

/// The big-endian two's-complement bytes of `x`, as `i64::to_be_bytes` gives them.
pub open spec fn be_i64(x: i64) -> Seq<u8> {
    be_u64(x as u64)
}

/// Appends the big-endian bytes of `x`.
pub fn push_be_u64(v: &mut Vec<u8>, x: u64)
    ensures
        final(v)@ == old(v)@ + be_u64(x),
{
    v.push((x / 0x100000000000000 % 256) as u8);
    v.push((x / 0x1000000000000 % 256) as u8);
    v.push((x / 0x10000000000 % 256) as u8);
    v.push((x / 0x100000000 % 256) as u8);
    v.push((x / 0x1000000 % 256) as u8);
    v.push((x / 0x10000 % 256) as u8);
    v.push((x / 0x100 % 256) as u8);
    v.push((x % 256) as u8);
    assert(final(v)@ =~= old(v)@ + be_u64(x));
}

/// Appends the big-endian bytes of `x`.
pub fn push_be_u32(v: &mut Vec<u8>, x: u32)
    ensures
        final(v)@ == old(v)@ + be_u32(x),
{
    v.push((x / 0x1000000 % 256) as u8);
    v.push((x / 0x10000 % 256) as u8);
    v.push((x / 0x100 % 256) as u8);
    v.push((x % 256) as u8);
    assert(final(v)@ =~= old(v)@ + be_u32(x));
}

/// Appends the big-endian two's-complement bytes of `x`.
pub fn push_be_i64(v: &mut Vec<u8>, x: i64)
    ensures
        final(v)@ == old(v)@ + be_i64(x),
{
    push_be_u64(v, x as u64);
}

/// Appends every byte of `bytes`.
pub fn push_all(v: &mut Vec<u8>, bytes: &[u8])
    ensures
        final(v)@ == old(v)@ + bytes@,
{
    let mut i: usize = 0;
    while i < bytes.len()
        invariant
            i <= bytes@.len(),
            v@ == old(v)@ + bytes@.take(i as int),
        decreases bytes.len() - i,
    {
        v.push(bytes[i]);
        assert(bytes@.take(i + 1) =~= bytes@.take(i as int).push(bytes@[i as int]));
        i = i + 1;
    }
    assert(bytes@.take(i as int) =~= bytes@);
}

/// The bytes of the UTF-8 encoding of `s`.
pub fn push_str_bytes(v: &mut Vec<u8>, s: &str)
    ensures
        final(v)@ == old(v)@ + s.spec_bytes(),
{
    let b = s.as_bytes();
    push_all(v, b);
}

/// The lower-case hexadecimal digit for `d`.
pub open spec fn hex_digit(d: int) -> char {
    if d < 10 {
        ('0' as int + d) as char
    } else {
        ('a' as int + d - 10) as char
    }
}

/// The two hexadecimal digits of a byte.
pub open spec fn hex_byte(b: u8) -> Seq<char> {
    seq![hex_digit((b / 16) as int), hex_digit((b % 16) as int)]
}

/// The hexadecimal digits of `bytes`, in order.
pub open spec fn hex_bytes(bytes: Seq<u8>) -> Seq<char>
    decreases bytes.len(),
{
    if bytes.len() == 0 {
        seq![]
    } else {
        hex_bytes(bytes.drop_last()) + hex_byte(bytes.last())
    }
}

/// The hyphenated form `xxxxxxxx-xxxx-xxxx-xxxx-xxxxxxxxxxxx` of a UUID, as
/// its `Display` writes it: lower-case hex in groups of 4, 2, 2, 2 and 6 bytes.
pub open spec fn hyphenated(b: Seq<u8>) -> Seq<char> {
    hex_bytes(b.subrange(0, 4)) + seq!['-'] + hex_bytes(b.subrange(4, 6)) + seq!['-'] + hex_bytes(
        b.subrange(6, 8),
    ) + seq!['-'] + hex_bytes(b.subrange(8, 10)) + seq!['-'] + hex_bytes(b.subrange(10, 16))
}

fn hex_char(d: u8) -> (c: char)
    requires
        d < 16,
    ensures
        c == hex_digit(d as int),
{
    if d < 10 {
        ((48 + d) as char)
    } else {
        ((97 + d - 10) as char)
    }
}

/// Appends the hex digits of `bytes[from..to]`.
fn push_hex(s: &mut String, bytes: &[u8; 16], from: usize, to: usize)
    requires
        from <= to <= 16,
    ensures
        final(s)@ == old(s)@ + hex_bytes(bytes@.subrange(from as int, to as int)),
{
    let mut i = from;
    while i < to
        invariant
            from <= i <= to <= 16,
            bytes@.len() == 16,
            s@ == old(s)@ + hex_bytes(bytes@.subrange(from as int, i as int)),
        decreases to - i,
    {
        let b = bytes[i];
        s.push(hex_char(b / 16));
        s.push(hex_char(b % 16));
        assert(bytes@.subrange(from as int, i + 1).drop_last() =~= bytes@.subrange(
            from as int,
            i as int,
        ));
        i = i + 1;
    }
}

impl Uuid {
    /// The hyphenated lower-case text of the UUID, as `to_string` writes it.
    pub fn to_hyphenated(&self) -> (r: String)
        ensures
            r@ == hyphenated(self.bytes@),
    {
        let mut s = String::new();
        push_hex(&mut s, &self.bytes, 0, 4);
        s.push('-');
        push_hex(&mut s, &self.bytes, 4, 6);
        s.push('-');
        push_hex(&mut s, &self.bytes, 6, 8);
        s.push('-');
        push_hex(&mut s, &self.bytes, 8, 10);
        s.push('-');
        push_hex(&mut s, &self.bytes, 10, 16);
        s
    }
}

}

verus! {

/// The bytes of a random (version 4) UUID of the RFC variant: the high
/// half of byte 6 holds the version 4, the two high bits of byte 8 are `10`.
pub open spec fn is_random_v4(bytes: Seq<u8>) -> bool {
    &&& bytes[6] & 0xf0u8 == 0x40u8
    &&& bytes[8] & 0xc0u8 == 0x80u8
}

/// A fresh random UUID from `uuid::Uuid::new_v4()`, held as its bytes.
/// Claimed, as the crate documents (`get_version()` is `Version::Random`)
/// and its source does (it masks random bits and sets version and variant):
/// the bytes are those of a version 4 UUID of the RFC variant. Which random
/// bits the rest hold is not claimed.
#[verifier::external_body]
pub(crate) fn new_v4() -> (r: Uuid)
    ensures
        is_random_v4(r.bytes@),
{
    Uuid { bytes: *uuid::Uuid::new_v4().as_bytes() }
}

}
