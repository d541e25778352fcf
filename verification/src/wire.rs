//! The building blocks of the binary encoding: little-endian integers of
//! fixed width, byte strings preceded by their length as a `u64`, and fields
//! of a fixed size written without a length.
//!
//! Every reader takes the bytes that are left and hands back the value it read
//! together with the bytes behind it, so readers chain the way the fields
//! follow each other on the wire.

use vstd::prelude::*;
use vstd::slice::slice_subrange;

verus! {

/// The two bytes of a `u16`, least significant first.
///
/// The definitions of the integers' bytes are opaque, to keep their
/// arithmetic out of the proofs that do not need it: reveal them to compute
/// with them.
#[verifier::opaque]
pub open spec fn ser_u16(x: u16) -> Seq<u8> {
    seq![(x % 0x100) as u8, (x / 0x100) as u8]
}

/// The four bytes of a `u32`, least significant first: the lower half, then
/// the upper half.
#[verifier::opaque]
pub open spec fn ser_u32(x: u32) -> Seq<u8> {
    ser_u16((x % 0x1_0000) as u16) + ser_u16((x / 0x1_0000) as u16)
}

/// The eight bytes of a `u64`, least significant first: the lower half, then
/// the upper half.
#[verifier::opaque]
pub open spec fn ser_u64(x: u64) -> Seq<u8> {
    ser_u32((x % 0x1_0000_0000) as u32) + ser_u32((x / 0x1_0000_0000) as u32)
}

/// The `u16` that two bytes stand for, least significant first.
#[verifier::opaque]
pub open spec fn val_u16(s: Seq<u8>) -> u16 {
    (s[0] + 0x100 * s[1]) as u16
}

/// The `u32` that four bytes stand for, least significant first.
#[verifier::opaque]
pub open spec fn val_u32(s: Seq<u8>) -> u32 {
    (val_u16(s.subrange(0, 2)) + 0x1_0000 * val_u16(s.subrange(2, 4))) as u32
}

/// The `u64` that eight bytes stand for, least significant first.
#[verifier::opaque]
pub open spec fn val_u64(s: Seq<u8>) -> u64 {
    (val_u32(s.subrange(0, 4)) + 0x1_0000_0000 * val_u32(s.subrange(4, 8))) as u64
}

/// The bytes of a `u16` are two, and they stand for it.
pub proof fn lemma_ser_u16(x: u16)
    ensures
        ser_u16(x).len() == 2,
        val_u16(ser_u16(x)) == x,
{
    reveal(ser_u16);
    reveal(val_u16);
}

/// Two bytes are the bytes of the `u16` that they stand for.
pub proof fn lemma_val_u16(s: Seq<u8>)
    requires
        s.len() == 2,
    ensures
        ser_u16(val_u16(s)) == s,
{
    reveal(ser_u16);
    reveal(val_u16);
    assert(ser_u16(val_u16(s)) =~= s);
}

/// The bytes of a `u32` are four, and they stand for it.
pub proof fn lemma_ser_u32(x: u32)
    ensures
        ser_u32(x).len() == 4,
        val_u32(ser_u32(x)) == x,
{
    reveal(ser_u32);
    reveal(val_u32);
    let lo = (x % 0x1_0000) as u16;
    let hi = (x / 0x1_0000) as u16;
    lemma_ser_u16(lo);
    lemma_ser_u16(hi);
    assert(ser_u32(x).subrange(0, 2) =~= ser_u16(lo));
    assert(ser_u32(x).subrange(2, 4) =~= ser_u16(hi));
}

/// Four bytes are the bytes of the `u32` that they stand for.
pub proof fn lemma_val_u32(s: Seq<u8>)
    requires
        s.len() == 4,
    ensures
        ser_u32(val_u32(s)) == s,
{
    reveal(ser_u32);
    reveal(val_u32);
    let lo = val_u16(s.subrange(0, 2));
    let hi = val_u16(s.subrange(2, 4));
    lemma_val_u16(s.subrange(0, 2));
    lemma_val_u16(s.subrange(2, 4));
    assert(ser_u16(lo) + ser_u16(hi) =~= s);
}

/// The bytes of a `u64` are eight, and they stand for it.
pub proof fn lemma_ser_u64(x: u64)
    ensures
        ser_u64(x).len() == 8,
        val_u64(ser_u64(x)) == x,
{
    reveal(ser_u64);
    reveal(val_u64);
    let lo = (x % 0x1_0000_0000) as u32;
    let hi = (x / 0x1_0000_0000) as u32;
    lemma_ser_u32(lo);
    lemma_ser_u32(hi);
    assert(ser_u64(x).subrange(0, 4) =~= ser_u32(lo));
    assert(ser_u64(x).subrange(4, 8) =~= ser_u32(hi));
}

/// Eight bytes are the bytes of the `u64` that they stand for.
pub proof fn lemma_val_u64(s: Seq<u8>)
    requires
        s.len() == 8,
    ensures
        ser_u64(val_u64(s)) == s,
{
    reveal(ser_u64);
    reveal(val_u64);
    let lo = val_u32(s.subrange(0, 4));
    let hi = val_u32(s.subrange(4, 8));
    lemma_val_u32(s.subrange(0, 4));
    lemma_val_u32(s.subrange(4, 8));
    assert(ser_u32(lo) + ser_u32(hi) =~= s);
}

/// A byte string on the wire: its length as a `u64`, then its bytes.
pub open spec fn ser_bytes(s: Seq<u8>) -> Seq<u8> {
    ser_u64(s.len() as u64) + s
}

/// Reads the first `n` bytes.
pub open spec fn parse_fixed(s: Seq<u8>, n: nat) -> Option<(Seq<u8>, Seq<u8>)> {
    if s.len() >= n {
        Some((s.subrange(0, n as int), s.subrange(n as int, s.len() as int)))
    } else {
        None
    }
}

/// Reads a little-endian `u16`.
pub open spec fn parse_u16(s: Seq<u8>) -> Option<(u16, Seq<u8>)> {
    match parse_fixed(s, 2) {
        Some((head, rest)) => Some((val_u16(head), rest)),
        None => None,
    }
}

/// Reads a little-endian `u32`.
pub open spec fn parse_u32(s: Seq<u8>) -> Option<(u32, Seq<u8>)> {
    match parse_fixed(s, 4) {
        Some((head, rest)) => Some((val_u32(head), rest)),
        None => None,
    }
}

/// Reads a little-endian `u64`.
pub open spec fn parse_u64(s: Seq<u8>) -> Option<(u64, Seq<u8>)> {
    match parse_fixed(s, 8) {
        Some((head, rest)) => Some((val_u64(head), rest)),
        None => None,
    }
}

/// Reads a byte string: a `u64` length, then that many bytes.
pub open spec fn parse_bytes(s: Seq<u8>) -> Option<(Seq<u8>, Seq<u8>)> {
    match parse_u64(s) {
        Some((n, rest)) => parse_fixed(rest, n as nat),
        None => None,
    }
}

/// Reading `n` bytes off `head + tail` gives `head` back when `head` has `n` bytes.
pub proof fn lemma_parse_fixed(head: Seq<u8>, tail: Seq<u8>)
    ensures
        parse_fixed(head + tail, head.len()) == Some((head, tail)),
{
    let s = head + tail;
    assert(s.subrange(0, head.len() as int) =~= head);
    assert(s.subrange(head.len() as int, s.len() as int) =~= tail);
}

/// A `u16` that was written is read back, and what follows it is untouched.
pub proof fn lemma_parse_u16(x: u16, tail: Seq<u8>)
    ensures
        ser_u16(x).len() == 2,
        parse_u16(ser_u16(x) + tail) == Some((x, tail)),
{
    lemma_ser_u16(x);
    lemma_parse_fixed(ser_u16(x), tail);
}

/// A `u32` that was written is read back, and what follows it is untouched.
pub proof fn lemma_parse_u32(x: u32, tail: Seq<u8>)
    ensures
        ser_u32(x).len() == 4,
        parse_u32(ser_u32(x) + tail) == Some((x, tail)),
{
    lemma_ser_u32(x);
    lemma_parse_fixed(ser_u32(x), tail);
}

/// A `u64` that was written is read back, and what follows it is untouched.
pub proof fn lemma_parse_u64(x: u64, tail: Seq<u8>)
    ensures
        ser_u64(x).len() == 8,
        parse_u64(ser_u64(x) + tail) == Some((x, tail)),
{
    lemma_ser_u64(x);
    lemma_parse_fixed(ser_u64(x), tail);
}

/// A byte string that was written is read back, and what follows it is
/// untouched, as long as its length fits the `u64` in front of it.
pub proof fn lemma_parse_bytes(s: Seq<u8>, tail: Seq<u8>)
    requires
        s.len() <= u64::MAX,
    ensures
        ser_bytes(s).len() == 8 + s.len(),
        parse_bytes(ser_bytes(s) + tail) == Some((s, tail)),
{
    let n = s.len() as u64;
    lemma_parse_u64(n, s + tail);
    assert(ser_bytes(s) + tail =~= ser_u64(n) + (s + tail));
    lemma_parse_fixed(s, tail);
}

/// A byte string takes eight bytes more on the wire than it has.
pub proof fn lemma_ser_bytes_len(s: Seq<u8>)
    ensures
        ser_bytes(s).len() == 8 + s.len(),
{
    lemma_ser_u64(s.len() as u64);
}

/// What a reader consumed and what it left make up what it was given.
pub proof fn lemma_parse_fixed_splits(s: Seq<u8>, n: nat)
    requires
        parse_fixed(s, n) is Some,
    ensures
        parse_fixed(s, n).unwrap().0.len() == n,
        parse_fixed(s, n).unwrap().0 + parse_fixed(s, n).unwrap().1 == s,
{
    let (head, rest) = parse_fixed(s, n).unwrap();
    assert(head + rest =~= s);
}

/// What was read as a `u16`, written again, gives the bytes that were read.
pub proof fn lemma_parse_u16_canonical(s: Seq<u8>)
    requires
        parse_u16(s) is Some,
    ensures
        ser_u16(parse_u16(s).unwrap().0) + parse_u16(s).unwrap().1 == s,
{
    lemma_parse_fixed_splits(s, 2);
    lemma_val_u16(parse_fixed(s, 2).unwrap().0);
}

/// What was read as a `u32`, written again, gives the bytes that were read.
pub proof fn lemma_parse_u32_canonical(s: Seq<u8>)
    requires
        parse_u32(s) is Some,
    ensures
        ser_u32(parse_u32(s).unwrap().0) + parse_u32(s).unwrap().1 == s,
{
    lemma_parse_fixed_splits(s, 4);
    lemma_val_u32(parse_fixed(s, 4).unwrap().0);
}

/// What was read as a `u64`, written again, gives the bytes that were read.
pub proof fn lemma_parse_u64_canonical(s: Seq<u8>)
    requires
        parse_u64(s) is Some,
    ensures
        ser_u64(parse_u64(s).unwrap().0) + parse_u64(s).unwrap().1 == s,
{
    lemma_parse_fixed_splits(s, 8);
    lemma_val_u64(parse_fixed(s, 8).unwrap().0);
}

/// What was read as a byte string, written again, gives the bytes that were
/// read.
pub proof fn lemma_parse_bytes_canonical(s: Seq<u8>)
    requires
        parse_bytes(s) is Some,
    ensures
        parse_bytes(s).unwrap().0.len() <= u64::MAX,
        ser_bytes(parse_bytes(s).unwrap().0) + parse_bytes(s).unwrap().1 == s,
{
    let (n, rest) = parse_u64(s).unwrap();
    let (bytes, tail) = parse_fixed(rest, n as nat).unwrap();
    lemma_parse_u64_canonical(s);
    lemma_parse_fixed_splits(rest, n as nat);
    assert(ser_bytes(bytes) + tail =~= ser_u64(n) + (bytes + tail));
}

/// The bytes of an optional vector.
pub open spec fn view_opt(r: Option<Vec<u8>>) -> Option<Seq<u8>> {
    match r {
        Some(v) => Some(v@),
        None => None,
    }
}

/// Appends `bytes` to `out`.
pub fn put_slice(out: &mut Vec<u8>, bytes: &[u8])
    ensures
        final(out)@ == old(out)@ + bytes@,
{
    let mut i: usize = 0;
    while i < bytes.len()
        invariant
            i <= bytes@.len(),
            out@ == old(out)@ + bytes@.subrange(0, i as int),
        decreases bytes@.len() - i,
    {
        out.push(bytes[i]);
        i += 1;
        assert(bytes@.subrange(0, i as int) =~= bytes@.subrange(0, i - 1) + seq![bytes@[i - 1]]);
        assert(out@ =~= old(out)@ + bytes@.subrange(0, i as int));
    }
    assert(bytes@.subrange(0, i as int) =~= bytes@);
}

/// Appends a `u16`, least significant byte first.
pub fn put_u16(out: &mut Vec<u8>, x: u16)
    ensures
        final(out)@ == old(out)@ + ser_u16(x),
{
    out.push((x % 0x100) as u8);
    out.push((x / 0x100) as u8);
    proof {
        reveal(ser_u16);
    }
    assert(out@ =~= old(out)@ + ser_u16(x));
}

/// Appends a `u32`, least significant byte first.
pub fn put_u32(out: &mut Vec<u8>, x: u32)
    ensures
        final(out)@ == old(out)@ + ser_u32(x),
{
    put_u16(out, (x % 0x1_0000) as u16);
    put_u16(out, (x / 0x1_0000) as u16);
    proof {
        reveal(ser_u32);
    }
    assert(out@ =~= old(out)@ + ser_u32(x));
}

/// Appends a `u64`, least significant byte first.
pub fn put_u64(out: &mut Vec<u8>, x: u64)
    ensures
        final(out)@ == old(out)@ + ser_u64(x),
{
    put_u32(out, (x % 0x1_0000_0000) as u32);
    put_u32(out, (x / 0x1_0000_0000) as u32);
    proof {
        reveal(ser_u64);
    }
    assert(out@ =~= old(out)@ + ser_u64(x));
}

/// Appends a byte string: its length as a `u64`, then its bytes.
pub fn put_bytes(out: &mut Vec<u8>, bytes: &[u8])
    ensures
        final(out)@ == old(out)@ + ser_bytes(bytes@),
{
    let n = bytes.len() as u64;
    put_u64(out, n);
    put_slice(out, bytes);
    assert(out@ =~= old(out)@ + ser_bytes(bytes@));
}

/// Splits the first `n` bytes off, or reports that fewer are left.
pub fn take_fixed(bytes: &[u8], n: usize) -> (r: Option<(&[u8], &[u8])>)
    ensures
        match r {
            Some((head, rest)) => parse_fixed(bytes@, n as nat) == Some((head@, rest@)),
            None => parse_fixed(bytes@, n as nat) is None,
        },
{
    if bytes.len() < n {
        None
    } else {
        let head = slice_subrange(bytes, 0, n);
        let rest = slice_subrange(bytes, n, bytes.len());
        Some((head, rest))
    }
}

/// The `u16` that two bytes stand for.
fn val16(bytes: &[u8]) -> (x: u16)
    requires
        bytes@.len() == 2,
    ensures
        x == val_u16(bytes@),
{
    proof {
        reveal(val_u16);
    }
    bytes[0] as u16 + 0x100 * (bytes[1] as u16)
}

/// The `u32` that four bytes stand for.
fn val32(bytes: &[u8]) -> (x: u32)
    requires
        bytes@.len() == 4,
    ensures
        x == val_u32(bytes@),
{
    proof {
        reveal(val_u32);
    }
    let lo = val16(slice_subrange(bytes, 0, 2));
    let hi = val16(slice_subrange(bytes, 2, 4));
    lo as u32 + 0x1_0000 * (hi as u32)
}

/// Reads a little-endian `u16`.
pub fn take_u16(bytes: &[u8]) -> (r: Option<(u16, &[u8])>)
    ensures
        match r {
            Some((x, rest)) => parse_u16(bytes@) == Some((x, rest@)),
            None => parse_u16(bytes@) is None,
        },
{
    match take_fixed(bytes, 2) {
        Some((head, rest)) => Some((val16(head), rest)),
        None => None,
    }
}

/// Reads a little-endian `u32`.
pub fn take_u32(bytes: &[u8]) -> (r: Option<(u32, &[u8])>)
    ensures
        match r {
            Some((x, rest)) => parse_u32(bytes@) == Some((x, rest@)),
            None => parse_u32(bytes@) is None,
        },
{
    match take_fixed(bytes, 4) {
        Some((head, rest)) => Some((val32(head), rest)),
        None => None,
    }
}

/// Reads a little-endian `u64`.
pub fn take_u64(bytes: &[u8]) -> (r: Option<(u64, &[u8])>)
    ensures
        match r {
            Some((x, rest)) => parse_u64(bytes@) == Some((x, rest@)),
            None => parse_u64(bytes@) is None,
        },
{
    match take_fixed(bytes, 8) {
        Some((head, rest)) => {
            proof {
                reveal(val_u64);
            }
            let lo = val32(slice_subrange(head, 0, 4));
            let hi = val32(slice_subrange(head, 4, 8));
            Some((lo as u64 + 0x1_0000_0000 * (hi as u64), rest))
        },
        None => None,
    }
}

/// Reads a byte string: a `u64` length, then that many bytes.
pub fn take_bytes(bytes: &[u8]) -> (r: Option<(&[u8], &[u8])>)
    ensures
        match r {
            Some((s, rest)) => parse_bytes(bytes@) == Some((s@, rest@)),
            None => parse_bytes(bytes@) is None,
        },
{
    match take_u64(bytes) {
        Some((n, rest)) => {
            if n > rest.len() as u64 {
                None
            } else {
                take_fixed(rest, n as usize)
            }
        },
        None => None,
    }
}

/// Copies a slice into a vector.
pub fn to_vec(bytes: &[u8]) -> (v: Vec<u8>)
    ensures
        v@ == bytes@,
{
    let mut v: Vec<u8> = Vec::new();
    put_slice(&mut v, bytes);
    assert(v@ =~= bytes@);
    v
}

/// Copies sixteen bytes into an array.
pub(crate) fn to_array16(bytes: &[u8]) -> (a: [u8; 16])
    requires
        bytes@.len() == 16,
    ensures
        a@ == bytes@,
{
    let mut a = [0u8; 16];
    let mut i: usize = 0;
    while i < 16
        invariant
            i <= 16,
            bytes@.len() == 16,
            forall|j: int| 0 <= j < i ==> a@[j] == bytes@[j],
        decreases 16 - i,
    {
        a[i] = bytes[i];
        i += 1;
    }
    assert(a@ =~= bytes@);
    a
}

/// Copies twelve bytes into an array.
pub(crate) fn to_array12(bytes: &[u8]) -> (a: [u8; 12])
    requires
        bytes@.len() == 12,
    ensures
        a@ == bytes@,
{
    let mut a = [0u8; 12];
    let mut i: usize = 0;
    while i < 12
        invariant
            i <= 12,
            bytes@.len() == 12,
            forall|j: int| 0 <= j < i ==> a@[j] == bytes@[j],
        decreases 12 - i,
    {
        a[i] = bytes[i];
        i += 1;
    }
    assert(a@ =~= bytes@);
    a
}

} // verus!
