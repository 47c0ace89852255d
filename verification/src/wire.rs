//! The wire's integers: every multi-byte field is big-endian, with no
//! padding between fields.

use crate::error::DecodeError;
use byteorder::BigEndian;
use byteorder::ByteOrder;
use vstd::prelude::*;

verus! {

/// What a decoder makes of the bytes at some offset: a value and the number
/// of bytes that it takes, or an error and the number of bytes that are read
/// when it is found.
pub type Decoding<T> = Result<(T, nat), (DecodeError, nat)>;

/// The decoding that gives `v` and takes `n` bytes.
pub open spec fn taken<T>(v: T, n: nat) -> Decoding<T> {
    Ok((v, n))
}

/// The decoding that finds the error `e` after `n` bytes.
pub open spec fn failed<T>(e: DecodeError, n: int) -> Decoding<T> {
    Err((e, n as nat))
}

/// The decoding from `at` on that finds `s` at its end before a field is
/// whole. A read that cannot be met takes what is left, so the stream is
/// read to its end.
pub open spec fn truncated<T>(s: Seq<u8>, at: int) -> Decoding<T> {
    Err((DecodeError::Truncated, (s.len() - at) as nat))
}

/// A decoding that starts `n` bytes behind the place from which the bytes
/// are counted.
pub open spec fn behind<T>(n: int, r: Decoding<T>) -> Decoding<T> {
    match r {
        Ok((v, m)) => Ok((v, (n + m) as nat)),
        Err((e, k)) => Err((e, (n + k) as nat)),
    }
}

/// Whether `n` bytes of `s` lie at offset `at`.
pub open spec fn available(s: Seq<u8>, at: int, n: int) -> bool {
    0 <= at && 0 <= n && at + n <= s.len()
}

/// The 16-bit big-endian integer whose two bytes start at `at`.
pub open spec fn be_u16(s: Seq<u8>, at: int) -> u16 {
    (s[at] as int * 0x100 + s[at + 1] as int) as u16
}

/// The 32-bit big-endian integer whose four bytes start at `at`.
pub open spec fn be_u32(s: Seq<u8>, at: int) -> u32 {
    (be_u16(s, at) as int * 0x1_0000 + be_u16(s, at + 2) as int) as u32
}

/// The 64-bit big-endian integer whose eight bytes start at `at`.
pub open spec fn be_u64(s: Seq<u8>, at: int) -> u64 {
    (be_u32(s, at) as int * 0x1_0000_0000 + be_u32(s, at + 4) as int) as u64
}

/// The 128-bit big-endian integer whose sixteen bytes start at `at`.
pub open spec fn be_u128(s: Seq<u8>, at: int) -> u128 {
    (be_u64(s, at) as int * 0x1_0000_0000_0000_0000 + be_u64(s, at + 8) as int) as u128
}

/// The two bytes that stand for `v`, most significant first.
pub open spec fn u16_bytes(v: u16) -> Seq<u8> {
    seq![(v / 0x100) as u8, (v % 0x100) as u8]
}

/// The four bytes that stand for `v`, most significant first.
#[verifier::opaque]
pub open spec fn u32_bytes(v: u32) -> Seq<u8> {
    u16_bytes((v / 0x1_0000) as u16) + u16_bytes((v % 0x1_0000) as u16)
}

/// The eight bytes that stand for `v`, most significant first.
#[verifier::opaque]
pub open spec fn u64_bytes(v: u64) -> Seq<u8> {
    u32_bytes((v / 0x1_0000_0000) as u32) + u32_bytes((v % 0x1_0000_0000) as u32)
}

/// The sixteen bytes that stand for `v`, most significant first.
#[verifier::opaque]
pub open spec fn u128_bytes(v: u128) -> Seq<u8> {
    u64_bytes((v / 0x1_0000_0000_0000_0000) as u64) + u64_bytes(
        (v % 0x1_0000_0000_0000_0000) as u64,
    )
}

/// The width in bytes of an AS number: 4 where AS numbers have 32 bits, else 2.
pub open spec fn asn_width(as4: bool) -> int {
    if as4 {
        4
    } else {
        2
    }
}

/// The AS number whose bytes start at `at`.
pub open spec fn asn_at(s: Seq<u8>, at: int, as4: bool) -> u32 {
    if as4 {
        be_u32(s, at)
    } else {
        be_u16(s, at) as u32
    }
}

/// The bytes that stand for an AS number.
pub open spec fn asn_bytes(v: u32, as4: bool) -> Seq<u8> {
    if as4 {
        u32_bytes(v)
    } else {
        u16_bytes(v as u16)
    }
}

/// The decoded value put through `f`, the bytes taken and the error as they
/// are.
pub open spec fn map_decoded<T, U>(
    r: Decoding<T>,
    f: spec_fn(T) -> U,
) -> Decoding<U> {
    match r {
        Ok((v, n)) => Ok((f(v), n)),
        Err(e) => Err(e),
    }
}

/// The number of bytes that hold a prefix of `bits` bits: the bit length
/// rounded up to whole bytes.
pub open spec fn prefix_bytes(bits: u8) -> int {
    (bits + 7) / 8
}

/// Whether no byte of `s` is NUL.
pub open spec fn nul_free(s: Seq<u8>) -> bool {
    forall|i: int| 0 <= i < s.len() ==> s[i] != 0
}

/// The number of bytes between `at` and the first NUL at or after it; `None`
/// where `s` has no NUL from `at` on.
pub open spec fn nul_distance(s: Seq<u8>, at: int) -> Option<nat>
    decreases s.len() - at,
{
    if at < 0 || at >= s.len() {
        None
    } else if s[at] == 0 {
        Some(0nat)
    } else {
        match nul_distance(s, at + 1) {
            Some(n) => Some(n + 1),
            None => None,
        }
    }
}

/// The first NUL is where the bytes before it are not NUL.
pub proof fn lemma_nul_distance_some(s: Seq<u8>, at: int, n: nat)
    requires
        available(s, at, n as int + 1),
        nul_free(s.subrange(at, at + n)),
        s[at + n] == 0,
    ensures
        nul_distance(s, at) == Some(n),
    decreases n,
{
    if n > 0 {
        let from_at = s.subrange(at, at + n);
        let after_at = s.subrange(at + 1, at + n);
        assert(from_at[0] != 0);
        assert forall|i: int| 0 <= i < after_at.len() implies after_at[i] != 0 by {
            assert(from_at[i + 1] != 0);
        }
        lemma_nul_distance_some(s, at + 1, (n - 1) as nat);
    }
}

/// Without a NUL there is no distance to one.
pub proof fn lemma_nul_distance_none(s: Seq<u8>, at: int)
    requires
        0 <= at <= s.len(),
        nul_free(s.subrange(at, s.len() as int)),
    ensures
        nul_distance(s, at) is None,
    decreases s.len() - at,
{
    if at < s.len() {
        let from_at = s.subrange(at, s.len() as int);
        let after_at = s.subrange(at + 1, s.len() as int);
        assert(from_at[0] != 0);
        assert forall|i: int| 0 <= i < after_at.len() implies after_at[i] != 0 by {
            assert(from_at[i + 1] != 0);
        }
        lemma_nul_distance_none(s, at + 1);
    }
}

/// What a distance to the first NUL says of the bytes.
pub proof fn lemma_nul_distance_is_first(s: Seq<u8>, at: int)
    requires
        nul_distance(s, at) is Some,
    ensures
        available(s, at, nul_distance(s, at)->Some_0 as int + 1),
        nul_free(s.subrange(at, at + nul_distance(s, at)->Some_0)),
        s[at + nul_distance(s, at)->Some_0] == 0,
    decreases s.len() - at,
{
    if s[at] != 0 {
        lemma_nul_distance_is_first(s, at + 1);
        let n = nul_distance(s, at)->Some_0;
        let from_at = s.subrange(at, at + n);
        let after_at = s.subrange(at + 1, at + n);
        assert forall|i: int| 0 <= i < from_at.len() implies from_at[i] != 0 by {
            if i > 0 {
                assert(after_at[i - 1] != 0);
            }
        }
    }
}

/// Whether the bytes `part` stand in `s` from offset `at` on.
pub open spec fn holds(s: Seq<u8>, at: int, part: Seq<u8>) -> bool {
    available(s, at, part.len() as int) && s.subrange(at, at + part.len()) == part
}

/// Where a concatenation stands, its two halves stand one after the other.
pub proof fn lemma_holds_split(s: Seq<u8>, at: int, a: Seq<u8>, b: Seq<u8>)
    requires
        holds(s, at, a + b),
    ensures
        holds(s, at, a),
        holds(s, at + a.len(), b),
{
    let ab = a + b;
    assert(s.subrange(at, at + a.len()) =~= a) by {
        assert forall|i: int| 0 <= i < a.len() implies s.subrange(at, at + a.len())[i] == a[i] by {
            assert(s.subrange(at, at + ab.len())[i] == ab[i]);
        }
    }
    assert(s.subrange(at + a.len(), at + a.len() + b.len()) =~= b) by {
        assert forall|i: int| 0 <= i < b.len() implies s.subrange(
            at + a.len(),
            at + a.len() + b.len(),
        )[i] == b[i] by {
            assert(s.subrange(at, at + ab.len())[a.len() + i] == ab[a.len() + i]);
        }
    }
}

/// Every byte sequence stands in itself at offset 0, and at the end of
/// whatever is put before it.
pub proof fn lemma_holds_after(prefix: Seq<u8>, part: Seq<u8>, rest: Seq<u8>)
    ensures
        holds(prefix + part + rest, prefix.len() as int, part),
{
    let s = prefix + part + rest;
    assert(s.subrange(prefix.len() as int, prefix.len() as int + part.len()) =~= part);
}

/// How many bytes each integer takes.
pub proof fn lemma_int_bytes_len()
    ensures
        forall|v: u16| #[trigger] u16_bytes(v).len() == 2,
        forall|v: u32| #[trigger] u32_bytes(v).len() == 4,
        forall|v: u64| #[trigger] u64_bytes(v).len() == 8,
        forall|v: u128| #[trigger] u128_bytes(v).len() == 16,
{
    assert forall|v: u32| #[trigger] u32_bytes(v).len() == 4 by {
        reveal(u32_bytes);
    }
    assert forall|v: u64| #[trigger] u64_bytes(v).len() == 8 by {
        reveal(u64_bytes);
    }
    assert forall|v: u128| #[trigger] u128_bytes(v).len() == 16 by {
        reveal(u128_bytes);
    }
}

/// Reading back a single byte gives it.
pub proof fn lemma_u8_holds(s: Seq<u8>, at: int, v: u8)
    requires
        holds(s, at, seq![v]),
    ensures
        s[at] == v,
{
    assert(s.subrange(at, at + 1)[0] == seq![v][0]);
}

/// Reading back the two bytes of `v` gives `v`.
pub proof fn lemma_be_u16_holds(s: Seq<u8>, at: int, v: u16)
    requires
        holds(s, at, u16_bytes(v)),
    ensures
        be_u16(s, at) == v,
{
    let b = u16_bytes(v);
    assert(s.subrange(at, at + 2)[0] == b[0]);
    assert(s.subrange(at, at + 2)[1] == b[1]);
}

/// Reading back the four bytes of `v` gives `v`.
pub proof fn lemma_be_u32_holds(s: Seq<u8>, at: int, v: u32)
    requires
        holds(s, at, u32_bytes(v)),
    ensures
        be_u32(s, at) == v,
{
    reveal(u32_bytes);
    let hi = (v / 0x1_0000) as u16;
    let lo = (v % 0x1_0000) as u16;
    lemma_holds_split(s, at, u16_bytes(hi), u16_bytes(lo));
    lemma_be_u16_holds(s, at, hi);
    lemma_be_u16_holds(s, at + 2, lo);
}

/// Reading back the eight bytes of `v` gives `v`.
pub proof fn lemma_be_u64_holds(s: Seq<u8>, at: int, v: u64)
    requires
        holds(s, at, u64_bytes(v)),
    ensures
        be_u64(s, at) == v,
{
    reveal(u64_bytes);
    lemma_int_bytes_len();
    let hi = (v / 0x1_0000_0000) as u32;
    let lo = (v % 0x1_0000_0000) as u32;
    lemma_holds_split(s, at, u32_bytes(hi), u32_bytes(lo));
    lemma_be_u32_holds(s, at, hi);
    lemma_be_u32_holds(s, at + 4, lo);
}

/// Reading back the sixteen bytes of `v` gives `v`.
pub proof fn lemma_be_u128_holds(s: Seq<u8>, at: int, v: u128)
    requires
        holds(s, at, u128_bytes(v)),
    ensures
        be_u128(s, at) == v,
{
    reveal(u128_bytes);
    lemma_int_bytes_len();
    let hi = (v / 0x1_0000_0000_0000_0000) as u64;
    let lo = (v % 0x1_0000_0000_0000_0000) as u64;
    lemma_holds_split(s, at, u64_bytes(hi), u64_bytes(lo));
    lemma_be_u64_holds(s, at, hi);
    lemma_be_u64_holds(s, at + 8, lo);
}

/// `byteorder::BigEndian::read_u16` (of the trait `ByteOrder`): the first
/// two bytes of `buf` read as a big-endian integer. The outside function
/// panics on a shorter slice, which `requires` leaves out.
#[verifier::external_body]
pub(crate) fn big_endian_u16(buf: &[u8]) -> (r: u16)
    requires
        buf@.len() >= 2,
    ensures
        r == be_u16(buf@, 0),
{
    BigEndian::read_u16(buf)
}

/// `byteorder::BigEndian::read_u32`: the first four bytes of `buf` read as a
/// big-endian integer. The outside function panics on a shorter slice.
#[verifier::external_body]
pub(crate) fn big_endian_u32(buf: &[u8]) -> (r: u32)
    requires
        buf@.len() >= 4,
    ensures
        r == be_u32(buf@, 0),
{
    BigEndian::read_u32(buf)
}

/// `byteorder::BigEndian::read_u128`: the first sixteen bytes of `buf` read
/// as a big-endian integer. The outside function panics on a shorter slice.
#[verifier::external_body]
pub(crate) fn big_endian_u128(buf: &[u8]) -> (r: u128)
    requires
        buf@.len() >= 16,
    ensures
        r == be_u128(buf@, 0),
{
    BigEndian::read_u128(buf)
}

} // verus!
