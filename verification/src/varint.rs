//! Base-128 variable-length integers, as the protocol buffers wire format
//! defines them, and the two readers and two writers of the `protobuf` crate
//! that the codec calls.

use vstd::prelude::*;

verus! {

/// The encoding of `v`: seven bits per byte, lowest group first, the high bit
/// set on every byte but the last.
pub open spec fn varint_bytes(v: nat) -> Seq<u8>
    decreases v,
{
    if v < 128 {
        seq![v as u8]
    } else {
        seq![(v % 128 + 128) as u8] + varint_bytes(v / 128)
    }
}

/// What a reader finds at the front of `s` when it accepts at most `max_len`
/// bytes and, in the last of them, no value above `last_max`: the number read
/// and how many bytes it took. `None` where `s` ends before the number does,
/// or where the number does not end within those limits.
pub open spec fn parse_varint(s: Seq<u8>, max_len: nat, last_max: u8) -> Option<(nat, nat)>
    decreases max_len,
{
    if s.len() == 0 || max_len == 0 {
        None
    } else if max_len == 1 {
        if s[0] <= last_max {
            Some((s[0] as nat, 1nat))
        } else {
            None
        }
    } else if s[0] < 0x80 {
        Some((s[0] as nat, 1nat))
    } else {
        match parse_varint(s.skip(1), (max_len - 1) as nat, last_max) {
            Some((v, n)) => Some(((s[0] - 0x80) as nat + 128 * v, n + 1)),
            None => None,
        }
    }
}

/// A number of at most 32 bits at the front of `s`.
pub open spec fn parse_varint32(s: Seq<u8>) -> Option<(nat, nat)> {
    parse_varint(s, 5, 0x0f)
}

/// A number of at most 64 bits at the front of `s`.
pub open spec fn parse_varint64(s: Seq<u8>) -> Option<(nat, nat)> {
    parse_varint(s, 10, 0x01)
}

/// `s` stops inside a number: it is shorter than `max_len` and every byte
/// announces another one.
pub open spec fn cut_short(s: Seq<u8>, max_len: nat) -> bool {
    s.len() < max_len && forall|i: int| 0 <= i < s.len() ==> s[i] >= 0x80
}

/// `v` is a number that a reader with these limits accepts.
pub open spec fn fits(v: nat, max_len: nat, last_max: u8) -> bool
    decreases max_len,
{
    if max_len == 0 {
        false
    } else if max_len == 1 {
        v <= last_max
    } else {
        v < 128 || fits(v / 128, (max_len - 1) as nat, last_max)
    }
}

/// Every 32-bit value fits the 32-bit reader, every 64-bit value the 64-bit one.
pub proof fn lemma_fits(v: nat)
    ensures
        v <= u32::MAX ==> fits(v, 5, 0x0f),
        v <= u64::MAX ==> fits(v, 10, 0x01),
{
    reveal_with_fuel(fits, 11);
}

/// An encoding has between one byte and as many as the value's width allows.
pub proof fn lemma_varint_len(v: nat)
    ensures
        1 <= varint_bytes(v).len(),
        v <= u32::MAX ==> varint_bytes(v).len() <= 5,
        v <= u64::MAX ==> varint_bytes(v).len() <= 10,
{
    lemma_fits(v);
    if v <= u32::MAX {
        lemma_fits_len(v, 5, 0x0f);
    }
    if v <= u64::MAX {
        lemma_fits_len(v, 10, 0x01);
    }
}

proof fn lemma_fits_len(v: nat, max_len: nat, last_max: u8)
    requires
        fits(v, max_len, last_max),
        last_max < 0x80,
    ensures
        1 <= varint_bytes(v).len() <= max_len,
    decreases max_len,
{
    if max_len > 1 && v >= 128 {
        lemma_fits_len(v / 128, (max_len - 1) as nat, last_max);
    }
}

/// Reading an encoding gives back the value and the encoding's length,
/// whatever follows it.
pub proof fn lemma_parse_encoded(v: nat, rest: Seq<u8>, max_len: nat, last_max: u8)
    requires
        fits(v, max_len, last_max),
        last_max < 0x80,
    ensures
        parse_varint(varint_bytes(v) + rest, max_len, last_max) == Some(
            (v, varint_bytes(v).len()),
        ),
    decreases max_len,
{
    let s = varint_bytes(v) + rest;
    if v < 128 {
        assert(s[0] == v as u8);
    } else {
        let tail = varint_bytes(v / 128);
        assert(s[0] == (v % 128 + 128) as u8);
        assert(s.skip(1) =~= tail + rest);
        lemma_parse_encoded(v / 128, rest, (max_len - 1) as nat, last_max);
    }
}

/// A number that was read took at least one byte, no more than the reader
/// accepts or `s` holds, and is no greater than the limits allow.
pub proof fn lemma_parse_bounds(s: Seq<u8>, max_len: nat, last_max: u8)
    ensures
        parse_varint(s, max_len, last_max) matches Some((v, n)) ==> 1 <= n <= max_len && n
            <= s.len() && fits(v, max_len, last_max),
    decreases max_len,
{
    if s.len() > 0 && max_len > 1 && s[0] >= 0x80 {
        lemma_parse_bounds(s.skip(1), (max_len - 1) as nat, last_max);
    }
}

/// What the 32-bit reader returns is a 32-bit value; likewise for 64 bits.
pub proof fn lemma_parse_width(s: Seq<u8>)
    ensures
        parse_varint32(s) matches Some((v, n)) ==> v <= u32::MAX && 1 <= n <= 5 && n <= s.len(),
        parse_varint64(s) matches Some((v, n)) ==> v <= u64::MAX && 1 <= n <= 10 && n <= s.len(),
{
    lemma_parse_bounds(s, 5, 0x0f);
    lemma_parse_bounds(s, 10, 0x01);
    if let Some((v, n)) = parse_varint32(s) {
        lemma_fits_width(v, 5, 0x0f);
    }
    if let Some((v, n)) = parse_varint64(s) {
        lemma_fits_width(v, 10, 0x01);
    }
}

proof fn lemma_fits_width(v: nat, max_len: nat, last_max: u8)
    requires
        fits(v, max_len, last_max),
        max_len == 5 && last_max == 0x0f || max_len == 10 && last_max == 0x01,
    ensures
        max_len == 5 ==> v <= u32::MAX,
        max_len == 10 ==> v <= u64::MAX,
{
    reveal_with_fuel(fits, 11);
}

/// Where the bytes stop inside a number, nothing is read.
pub proof fn lemma_cut_short_parses_nothing(s: Seq<u8>, max_len: nat, last_max: u8)
    requires
        cut_short(s, max_len),
    ensures
        parse_varint(s, max_len, last_max) is None,
    decreases max_len,
{
    if s.len() > 0 && max_len > 1 {
        assert(s[0] >= 0x80);
        lemma_cut_short_parses_nothing(s.skip(1), (max_len - 1) as nat, last_max);
    }
}

/// Every proper prefix of an encoding stops inside the number.
pub proof fn lemma_prefix_cut_short(v: nat, k: int, max_len: nat, last_max: u8)
    requires
        fits(v, max_len, last_max),
        last_max < 0x80,
        0 <= k < varint_bytes(v).len(),
    ensures
        cut_short(varint_bytes(v).take(k), max_len),
    decreases max_len,
{
    lemma_fits_len(v, max_len, last_max);
    let p = varint_bytes(v).take(k);
    if v >= 128 && k > 0 {
        lemma_prefix_cut_short(v / 128, k - 1, (max_len - 1) as nat, last_max);
        let q = varint_bytes(v / 128).take(k - 1);
        assert forall|i: int| 0 <= i < p.len() implies p[i] >= 0x80 by {
            if i > 0 {
                assert(p[i] == q[i - 1]);
            }
        }
    }
}

/// Reads a number of at most 32 bits from the front of `data`.
///
/// Trusted: calls `protobuf::CodedInputStream::from_bytes` and
/// `read_raw_varint32`, and reports the stream's `pos` as the bytes taken. The
/// contract claims that the call succeeds exactly where [`parse_varint32`]
/// finds a number, with that value and that length.
#[verifier::external_body]
pub(crate) fn read_varint32(data: &[u8]) -> (r: Option<(u32, usize)>)
    ensures
        r is Some <==> parse_varint32(data@) is Some,
        r matches Some((v, n)) ==> parse_varint32(data@) == Some((v as nat, n as nat)),
{
    let mut input = protobuf::CodedInputStream::from_bytes(data);
    match input.read_raw_varint32() {
        Ok(v) => Some((v, input.pos() as usize)),
        Err(_) => None,
    }
}

/// Reads a number of at most 64 bits from the front of `data`.
///
/// Trusted: calls `protobuf::CodedInputStream::from_bytes` and
/// `read_raw_varint64`, and reports the stream's `pos` as the bytes taken. The
/// contract claims that the call succeeds exactly where [`parse_varint64`]
/// finds a number, with that value and that length.
#[verifier::external_body]
pub(crate) fn read_varint64(data: &[u8]) -> (r: Option<(u64, usize)>)
    ensures
        r is Some <==> parse_varint64(data@) is Some,
        r matches Some((v, n)) ==> parse_varint64(data@) == Some((v as nat, n as nat)),
{
    let mut input = protobuf::CodedInputStream::from_bytes(data);
    match input.read_raw_varint64() {
        Ok(v) => Some((v, input.pos() as usize)),
        Err(_) => None,
    }
}

/// Appends the encoding of `value` to `buf`.
///
/// Trusted: calls `protobuf::CodedOutputStream::vec`, `write_raw_varint32` and
/// `flush`. The contract claims that `buf` keeps what it held and gains
/// exactly [`varint_bytes`] of the value. Writing to a `Vec` does not fail.
#[verifier::external_body]
pub(crate) fn put_varint32(buf: &mut Vec<u8>, value: u32)
    ensures
        final(buf)@ == old(buf)@ + varint_bytes(value as nat),
{
    let mut output = protobuf::CodedOutputStream::vec(buf);
    let _ = output.write_raw_varint32(value);
    let _ = output.flush();
}

/// Appends the encoding of `value` to `buf`.
///
/// Trusted: calls `protobuf::CodedOutputStream::vec`, `write_raw_varint64` and
/// `flush`. The contract claims that `buf` keeps what it held and gains
/// exactly [`varint_bytes`] of the value. Writing to a `Vec` does not fail.
#[verifier::external_body]
pub(crate) fn put_varint64(buf: &mut Vec<u8>, value: u64)
    ensures
        final(buf)@ == old(buf)@ + varint_bytes(value as nat),
{
    let mut output = protobuf::CodedOutputStream::vec(buf);
    let _ = output.write_raw_varint64(value);
    let _ = output.flush();
}

} // verus!
