//! The byte formats of the engine: variable-length integers, content
//! identifiers, and the tuple that an actor record is stored as.

use vstd::prelude::*;
use vstd::slice::slice_subrange;
use crate::bytes::{be_value, bytes_copy};
use crate::ipld::{Cid, CidView, MAX_DIGEST_LEN};
use crate::state_tree::{ActorState, ActorStateView};

verus! {

/// The variable-length encoding of a number: seven bits in each byte, the
/// lowest first, and the top bit set in every byte but the last.
pub open spec fn varint(n: nat) -> Seq<u8>
    decreases n,
{
    if n < 128 {
        seq![n as u8]
    } else {
        seq![(n % 128 + 128) as u8] + varint(n / 128)
    }
}

/// Reads a variable-length number from the start of `s`: the number and the
/// count of bytes that spell it. Only the shortest encoding of a number
/// that fits in 64 bits is read.
pub open spec fn parse_varint(s: Seq<u8>) -> Option<(u64, nat)>
    decreases s.len(),
{
    if s.len() == 0 {
        None
    } else if s[0] < 128 {
        Some((s[0] as u64, 1nat))
    } else {
        match parse_varint(s.skip(1)) {
            Some((high, used)) => if high == 0 || high * 128 + (s[0] - 128) > u64::MAX {
                None
            } else {
                Some(((high * 128 + (s[0] - 128)) as u64, used + 1))
            },
            None => None,
        }
    }
}

/// An encoded number is at least one and at most ten bytes long.
pub proof fn lemma_varint_len(n: nat)
    requires
        n <= u64::MAX,
    ensures
        1 <= varint(n).len() <= 10,
{
    assert(pow128(10) > u64::MAX) by {
        reveal_with_fuel(pow128, 11);
    }
    lemma_varint_len_bound(n, 10);
}

proof fn lemma_varint_len_bound(n: nat, k: nat)
    requires
        k >= 1,
        n < pow128(k),
    ensures
        1 <= varint(n).len() <= k,
    decreases n,
{
    reveal_with_fuel(pow128, 2);
    if n >= 128 {
        assert(k >= 2) by {
            if k == 1 {
                assert(pow128(1) == 128);
            }
        }
        assert(n / 128 < pow128((k - 1) as nat)) by {
            assert(pow128(k) == 128 * pow128((k - 1) as nat));
        }
        lemma_varint_len_bound(n / 128, (k - 1) as nat);
    }
}

spec fn pow128(k: nat) -> nat
    decreases k,
{
    if k == 0 {
        1
    } else {
        128 * pow128((k - 1) as nat)
    }
}

/// Reading an encoded number gives the number back, whatever follows it.
pub proof fn lemma_parse_varint(n: u64, rest: Seq<u8>)
    ensures
        parse_varint(varint(n as nat) + rest) == Some((n, varint(n as nat).len())),
    decreases n,
{
    let s = varint(n as nat) + rest;
    if n < 128 {
        assert(s[0] == n as u8);
    } else {
        let high = (n / 128) as u64;
        assert(s[0] == (n % 128 + 128) as u8);
        assert(s.skip(1) =~= varint(high as nat) + rest);
        lemma_parse_varint(high, rest);
    }
}

/// What `parse_varint` reads is the encoding of the number it gives.
pub proof fn lemma_parse_varint_sound(s: Seq<u8>)
    ensures
        parse_varint(s) matches Some((n, used)) ==> used <= s.len() && s.subrange(0, used as int)
            == varint(n as nat),
    decreases s.len(),
{
    if s.len() > 0 && s[0] >= 128 {
        lemma_parse_varint_sound(s.skip(1));
        match parse_varint(s.skip(1)) {
            Some((high, used)) => {
                if !(high == 0 || high * 128 + (s[0] - 128) > u64::MAX) {
                    let n = (high * 128 + (s[0] - 128)) as nat;
                    assert(n / 128 == high);
                    assert(n % 128 + 128 == s[0]);
                    assert(s.subrange(0, used as int + 1) =~= seq![s[0]] + s.skip(1).subrange(
                        0,
                        used as int,
                    ));
                }
            },
            None => {},
        }
    } else if s.len() > 0 {
        assert(s.subrange(0, 1) =~= seq![s[0]]);
    }
}

/// Appends the encoding of `n` to `out`.
pub fn write_varint(out: &mut Vec<u8>, n: u64)
    ensures
        final(out)@ == old(out)@ + varint(n as nat),
{
    let mut rest = n;
    while rest >= 128
        invariant
            out@ + varint(rest as nat) == old(out)@ + varint(n as nat),
        decreases rest,
    {
        let ghost before = out@;
        out.push((rest % 128 + 128) as u8);
        assert(before + varint(rest as nat) =~= out@ + varint((rest / 128) as nat));
        rest = rest / 128;
    }
    let ghost before = out@;
    out.push(rest as u8);
    assert(before + varint(rest as nat) =~= out@);
}

/// Reads a variable-length number at `pos`: the number and the position
/// after it.
pub fn read_varint(bytes: &[u8], pos: usize) -> (r: Option<(u64, usize)>)
    requires
        pos <= bytes@.len(),
    ensures
        match r {
            Some((n, next)) => parse_varint(bytes@.skip(pos as int)) == Some(
                (n, (next - pos) as nat),
            ) && pos < next <= bytes@.len(),
            None => parse_varint(bytes@.skip(pos as int)) is None,
        },
    decreases bytes@.len() - pos,
{
    if pos >= bytes.len() {
        return None;
    }
    let first = bytes[pos];
    proof {
        assert(bytes@.skip(pos as int)[0] == first);
        assert(bytes@.skip(pos as int).skip(1) =~= bytes@.skip(pos + 1));
        lemma_parse_varint_sound(bytes@.skip(pos + 1));
    }
    if first < 128 {
        return Some((first as u64, pos + 1));
    }
    match read_varint(bytes, pos + 1) {
        Some((high, next)) => {
            if high == 0 || high > (u64::MAX - (first - 128) as u64) / 128 {
                None
            } else {
                Some((high * 128 + (first - 128) as u64, next))
            }
        },
        None => None,
    }
}

/// The version of the content identifiers that the engine reads and writes.
pub const CID_VERSION: u64 = 1;

/// The bytes of a content identifier: its version, its codec, the code of
/// its hash function and the length of its digest, each as a
/// variable-length number, and then the digest.
pub open spec fn cid_bytes(c: CidView) -> Seq<u8> {
    varint(CID_VERSION as nat) + varint(c.codec as nat) + varint(c.hash_code as nat) + varint(
        c.digest.len(),
    ) + c.digest
}

/// Reads a content identifier from the start of `s`: the identifier and the
/// count of bytes that spell it. The version has to be 1, and the digest at
/// most 64 bytes long.
#[verifier::opaque]
pub open spec fn parse_cid(s: Seq<u8>) -> Option<(CidView, nat)> {
    match parse_varint(s) {
        Some((version, a)) => match parse_varint(s.skip(a as int)) {
            Some((codec, b)) => match parse_varint(s.skip((a + b) as int)) {
                Some((hash_code, c)) => match parse_varint(s.skip((a + b + c) as int)) {
                    Some((len, d)) => if version == CID_VERSION && len <= MAX_DIGEST_LEN && a + b
                        + c + d + len <= s.len() {
                        Some(
                            (
                                CidView {
                                    codec,
                                    hash_code,
                                    digest: s.subrange(
                                        (a + b + c + d) as int,
                                        (a + b + c + d + len) as int,
                                    ),
                                },
                                (a + b + c + d + len) as nat,
                            ),
                        )
                    } else {
                        None
                    },
                    None => None,
                },
                None => None,
            },
            None => None,
        },
        None => None,
    }
}

/// Reading the bytes of a content identifier gives the identifier back,
/// whatever follows them.
pub proof fn lemma_parse_cid(c: CidView, rest: Seq<u8>)
    requires
        c.digest.len() <= MAX_DIGEST_LEN,
    ensures
        parse_cid(cid_bytes(c) + rest) == Some((c, cid_bytes(c).len())),
{
    reveal(parse_cid);
    let v = varint(CID_VERSION as nat);
    let k = varint(c.codec as nat);
    let h = varint(c.hash_code as nat);
    let l = varint(c.digest.len());
    let s = cid_bytes(c) + rest;
    let a = v.len() as int;
    let b = k.len() as int;
    let cc = h.len() as int;
    let d = l.len() as int;
    assert(s =~= v + (k + h + l + c.digest + rest));
    lemma_parse_varint(CID_VERSION, k + h + l + c.digest + rest);
    assert(s.skip(a) =~= k + (h + l + c.digest + rest));
    lemma_parse_varint(c.codec, h + l + c.digest + rest);
    assert(s.skip(a + b) =~= h + (l + c.digest + rest));
    lemma_parse_varint(c.hash_code, l + c.digest + rest);
    assert(s.skip(a + b + cc) =~= l + (c.digest + rest));
    lemma_parse_varint(c.digest.len() as u64, c.digest + rest);
    assert(s.subrange(a + b + cc + d, a + b + cc + d + c.digest.len()) =~= c.digest);
}

/// What `parse_cid` reads is the bytes of the identifier it gives.
pub proof fn lemma_parse_cid_sound(s: Seq<u8>)
    ensures
        parse_cid(s) matches Some((c, used)) ==> used <= s.len() && s.subrange(0, used as int)
            == cid_bytes(c) && c.digest.len() <= MAX_DIGEST_LEN,
{
    reveal(parse_cid);
    if parse_cid(s) is Some {
        let a = (parse_varint(s)->0).1 as int;
        let b = (parse_varint(s.skip(a))->0).1 as int;
        let c = (parse_varint(s.skip(a + b))->0).1 as int;
        let len = (parse_varint(s.skip(a + b + c))->0).0 as int;
        let d = (parse_varint(s.skip(a + b + c))->0).1 as int;
        lemma_parse_varint_sound(s);
        lemma_parse_varint_sound(s.skip(a));
        lemma_parse_varint_sound(s.skip(a + b));
        lemma_parse_varint_sound(s.skip(a + b + c));
        let used = a + b + c + d + len;
        assert(s.subrange(0, used) =~= s.subrange(0, a) + s.skip(a).subrange(0, b) + s.skip(
            a + b,
        ).subrange(0, c) + s.skip(a + b + c).subrange(0, d) + s.subrange(
            a + b + c + d,
            a + b + c + d + len,
        ));
    }
}

/// Appends the bytes of `cid` to `out`.
pub fn write_cid(out: &mut Vec<u8>, cid: &Cid)
    ensures
        final(out)@ == old(out)@ + cid_bytes(cid@),
{
    write_varint(out, CID_VERSION);
    write_varint(out, cid.codec());
    write_varint(out, cid.hash_code());
    let digest = cid.digest();
    write_varint(out, digest.len() as u64);
    let mut i: usize = 0;
    while i < digest.len()
        invariant
            i <= digest@.len(),
            digest@ == cid@.digest,
            out@ == old(out)@ + varint(CID_VERSION as nat) + varint(cid@.codec as nat) + varint(
                cid@.hash_code as nat,
            ) + varint(cid@.digest.len()) + digest@.subrange(0, i as int),
        decreases digest@.len() - i,
    {
        let ghost before = out@;
        out.push(digest[i]);
        assert(digest@.subrange(0, i + 1) =~= digest@.subrange(0, i as int).push(digest@[i as int]));
        assert(out@ =~= old(out)@ + varint(CID_VERSION as nat) + varint(cid@.codec as nat) + varint(
            cid@.hash_code as nat,
        ) + varint(cid@.digest.len()) + digest@.subrange(0, i + 1));
        i = i + 1;
    }
    assert(digest@.subrange(0, digest@.len() as int) =~= digest@);
    assert(out@ =~= old(out)@ + cid_bytes(cid@));
}

/// The bytes of `cid`.
pub fn cid_to_bytes(cid: &Cid) -> (out: Vec<u8>)
    ensures
        out@ == cid_bytes(cid@),
{
    let mut out: Vec<u8> = Vec::new();
    write_cid(&mut out, cid);
    assert(Seq::<u8>::empty() + cid_bytes(cid@) =~= cid_bytes(cid@));
    out
}

/// Reads a content identifier at `pos`: the identifier and the position
/// after it.
pub fn read_cid(bytes: &[u8], pos: usize) -> (r: Option<(Cid, usize)>)
    requires
        pos <= bytes@.len(),
    ensures
        match r {
            Some((cid, next)) => parse_cid(bytes@.skip(pos as int)) == Some(
                (cid@, (next - pos) as nat),
            ) && pos < next <= bytes@.len(),
            None => parse_cid(bytes@.skip(pos as int)) is None,
        },
{
    proof {
        reveal(parse_cid);
    }
    let ghost s = bytes@.skip(pos as int);
    let (version, at1) = match read_varint(bytes, pos) {
        Some(found) => found,
        None => {
            return None;
        },
    };
    assert(s.skip(at1 - pos) =~= bytes@.skip(at1 as int));
    let (codec, at2) = match read_varint(bytes, at1) {
        Some(found) => found,
        None => {
            return None;
        },
    };
    assert(s.skip((at1 - pos) + (at2 - at1)) =~= bytes@.skip(at2 as int));
    let (hash_code, at3) = match read_varint(bytes, at2) {
        Some(found) => found,
        None => {
            return None;
        },
    };
    assert(s.skip((at1 - pos) + (at2 - at1) + (at3 - at2)) =~= bytes@.skip(at3 as int));
    let (len, at4) = match read_varint(bytes, at3) {
        Some(found) => found,
        None => {
            return None;
        },
    };
    if version != CID_VERSION || len > MAX_DIGEST_LEN as u64 || len as usize > bytes.len() - at4 {
        return None;
    }
    let end = at4 + len as usize;
    let digest = bytes_copy(slice_subrange(bytes, at4, end));
    assert(s.subrange(at4 - pos, end - pos) =~= bytes@.subrange(at4 as int, end as int));
    Some((Cid::new_v1(codec, hash_code, digest), end))
}

/// Reads a content identifier from bytes that hold the identifier and
/// nothing else.
pub open spec fn decode_cid(s: Seq<u8>) -> Option<CidView> {
    match parse_cid(s) {
        Some((c, used)) => if used == s.len() {
            Some(c)
        } else {
            None
        },
        None => None,
    }
}

/// Reads a content identifier that fills `bytes`.
pub fn cid_from_bytes(bytes: &[u8]) -> (r: Option<Cid>)
    ensures
        match r {
            Some(cid) => bytes@ == cid_bytes(cid@) && cid@.digest.len() <= MAX_DIGEST_LEN
                && decode_cid(bytes@) == Some(cid@),
            None => decode_cid(bytes@) is None && forall|c: CidView|
                c.digest.len() <= MAX_DIGEST_LEN ==> bytes@ != cid_bytes(c),
        },
{
    proof {
        assert(bytes@.skip(0) =~= bytes@);
        lemma_parse_cid_sound(bytes@);
        assert forall|c: CidView| c.digest.len() <= MAX_DIGEST_LEN && bytes@ == cid_bytes(
            c,
        ) implies parse_cid(bytes@) == Some((c, bytes@.len())) by {
            lemma_parse_cid(c, Seq::empty());
            assert(cid_bytes(c) + Seq::<u8>::empty() =~= cid_bytes(c));
        }
    }
    match read_cid(bytes, 0) {
        Some((cid, next)) => {
            if next == bytes.len() {
                assert(bytes@.subrange(0, next as int) =~= bytes@);
                Some(cid)
            } else {
                None
            }
        },
        None => None,
    }
}

/// Writing a content identifier and reading the bytes gives the identifier
/// back.
pub proof fn lemma_cid_round_trip(c: CidView)
    requires
        c.digest.len() <= MAX_DIGEST_LEN,
    ensures
        parse_cid(cid_bytes(c)) == Some((c, cid_bytes(c).len())),
{
    lemma_parse_cid(c, Seq::empty());
    assert(cid_bytes(c) + Seq::<u8>::empty() =~= cid_bytes(c));
}

/// Major type of an unsigned number in CBOR.
pub const MAJOR_UNSIGNED: u8 = 0;

/// Major type of a byte string in CBOR.
pub const MAJOR_BYTES: u8 = 2;

/// Major type of an array in CBOR.
pub const MAJOR_ARRAY: u8 = 4;

/// Major type of a tag in CBOR.
pub const MAJOR_TAG: u8 = 6;

/// A number below 2^16 as two bytes, the higher first.
pub open spec fn be2(n: u64) -> Seq<u8> {
    seq![(n / 0x100) as u8, (n % 0x100) as u8]
}

/// A number below 2^32 as four bytes, the highest first.
pub open spec fn be4(n: u64) -> Seq<u8> {
    be2(n / 0x1_0000) + be2(n % 0x1_0000)
}

/// A number as eight bytes, the highest first.
pub open spec fn be8(n: u64) -> Seq<u8> {
    be4(n / 0x1_0000_0000) + be4(n % 0x1_0000_0000)
}

/// The number that two bytes spell, the higher first.
pub open spec fn value2(s: Seq<u8>) -> u64 {
    (s[0] * 0x100 + s[1]) as u64
}

/// The number that four bytes spell, the highest first.
pub open spec fn value4(s: Seq<u8>) -> u64 {
    (value2(s.subrange(0, 2)) * 0x1_0000 + value2(s.subrange(2, 4))) as u64
}

/// The number that eight bytes spell, the highest first.
pub open spec fn value8(s: Seq<u8>) -> u64 {
    (value4(s.subrange(0, 4)) * 0x1_0000_0000 + value4(s.subrange(4, 8))) as u64
}

proof fn lemma_be2(n: u64, s: Seq<u8>)
    ensures
        n < 0x1_0000 ==> value2(be2(n)) == n && be2(n).len() == 2,
        s.len() == 2 ==> be2(value2(s)) == s && value2(s) < 0x1_0000,
{
    if s.len() == 2 {
        assert(be2(value2(s)) =~= s);
    }
}

proof fn lemma_be4(n: u64, s: Seq<u8>)
    ensures
        n < 0x1_0000_0000 ==> value4(be4(n)) == n && be4(n).len() == 4,
        s.len() == 4 ==> be4(value4(s)) == s && value4(s) < 0x1_0000_0000,
{
    if n < 0x1_0000_0000 {
        let hi = (n / 0x1_0000) as u64;
        let lo = (n % 0x1_0000) as u64;
        lemma_be2(hi, Seq::empty());
        lemma_be2(lo, Seq::empty());
        assert(be4(n).subrange(0, 2) =~= be2(hi));
        assert(be4(n).subrange(2, 4) =~= be2(lo));
    }
    if s.len() == 4 {
        let hi = value2(s.subrange(0, 2));
        let lo = value2(s.subrange(2, 4));
        lemma_be2(0, s.subrange(0, 2));
        lemma_be2(0, s.subrange(2, 4));
        let v = value4(s);
        assert(v == hi * 0x1_0000 + lo);
        assert(v / 0x1_0000 == hi && v % 0x1_0000 == lo);
        assert(be4(v) =~= s.subrange(0, 2) + s.subrange(2, 4));
        assert(s.subrange(0, 2) + s.subrange(2, 4) =~= s);
    }
}

proof fn lemma_be8(n: u64, s: Seq<u8>)
    ensures
        value8(be8(n)) == n && be8(n).len() == 8,
        s.len() == 8 ==> be8(value8(s)) == s,
{
    let hi = (n / 0x1_0000_0000) as u64;
    let lo = (n % 0x1_0000_0000) as u64;
    lemma_be4(hi, Seq::empty());
    lemma_be4(lo, Seq::empty());
    assert(be8(n).subrange(0, 4) =~= be4(hi));
    assert(be8(n).subrange(4, 8) =~= be4(lo));
    if s.len() == 8 {
        let h = value4(s.subrange(0, 4));
        let l = value4(s.subrange(4, 8));
        lemma_be4(0, s.subrange(0, 4));
        lemma_be4(0, s.subrange(4, 8));
        let v = value8(s);
        assert(v == h * 0x1_0000_0000 + l);
        assert(v / 0x1_0000_0000 == h && v % 0x1_0000_0000 == l);
        assert(be8(v) =~= s.subrange(0, 4) + s.subrange(4, 8));
        assert(s.subrange(0, 4) + s.subrange(4, 8) =~= s);
    }
}

fn write_be2(out: &mut Vec<u8>, n: u64)
    requires
        n < 0x1_0000,
    ensures
        final(out)@ == old(out)@ + be2(n),
{
    out.push((n / 0x100) as u8);
    out.push((n % 0x100) as u8);
    assert(out@ =~= old(out)@ + be2(n));
}

fn write_be4(out: &mut Vec<u8>, n: u64)
    requires
        n < 0x1_0000_0000,
    ensures
        final(out)@ == old(out)@ + be4(n),
{
    write_be2(out, n / 0x1_0000);
    write_be2(out, n % 0x1_0000);
    assert(out@ =~= old(out)@ + be4(n));
}

fn write_be8(out: &mut Vec<u8>, n: u64)
    ensures
        final(out)@ == old(out)@ + be8(n),
{
    write_be4(out, n / 0x1_0000_0000);
    write_be4(out, n % 0x1_0000_0000);
    assert(out@ =~= old(out)@ + be8(n));
}

fn read_be2(bytes: &[u8], pos: usize) -> (n: u64)
    requires
        pos + 2 <= bytes@.len(),
    ensures
        n == value2(bytes@.subrange(pos as int, pos + 2)),
        n < 0x1_0000,
{
    bytes[pos] as u64 * 0x100 + bytes[pos + 1] as u64
}

fn read_be4(bytes: &[u8], pos: usize) -> (n: u64)
    requires
        pos + 4 <= bytes@.len(),
    ensures
        n == value4(bytes@.subrange(pos as int, pos + 4)),
        n < 0x1_0000_0000,
{
    let ghost s = bytes@.subrange(pos as int, pos + 4);
    // The length is a machine number, which bounds the positions below.
    let _total = bytes.len();
    assert(s.subrange(0, 2) =~= bytes@.subrange(pos as int, pos + 2));
    assert(s.subrange(2, 4) =~= bytes@.subrange(pos + 2, pos + 4));
    read_be2(bytes, pos) * 0x1_0000 + read_be2(bytes, pos + 2)
}

fn read_be8(bytes: &[u8], pos: usize) -> (n: u64)
    requires
        pos + 8 <= bytes@.len(),
    ensures
        n == value8(bytes@.subrange(pos as int, pos + 8)),
{
    let ghost s = bytes@.subrange(pos as int, pos + 8);
    // The length is a machine number, which bounds the positions below.
    let _total = bytes.len();
    assert(s.subrange(0, 4) =~= bytes@.subrange(pos as int, pos + 4));
    assert(s.subrange(4, 8) =~= bytes@.subrange(pos + 4, pos + 8));
    read_be4(bytes, pos) * 0x1_0000_0000 + read_be4(bytes, pos + 4)
}

/// The head of a CBOR item: the major type in the top three bits of the
/// first byte, and the argument in the shortest of the five forms.
#[verifier::opaque]
pub open spec fn cbor_head(major: u8, arg: u64) -> Seq<u8> {
    if arg < 24 {
        seq![(major * 32 + arg) as u8]
    } else if arg < 0x100 {
        seq![(major * 32 + 24) as u8, arg as u8]
    } else if arg < 0x1_0000 {
        seq![(major * 32 + 25) as u8] + be2(arg)
    } else if arg < 0x1_0000_0000 {
        seq![(major * 32 + 26) as u8] + be4(arg)
    } else {
        seq![(major * 32 + 27) as u8] + be8(arg)
    }
}

/// Reads the head of a CBOR item from the start of `s`: the major type, the
/// argument, and the count of bytes of the head. Only the shortest form of
/// an argument is read.
#[verifier::opaque]
pub open spec fn parse_head(s: Seq<u8>) -> Option<(u8, u64, nat)> {
    if s.len() == 0 {
        None
    } else {
        let major = s[0] / 32;
        let info = s[0] % 32;
        if info < 24 {
            Some((major, info as u64, 1nat))
        } else if info == 24 {
            if s.len() >= 2 && s[1] >= 24 {
                Some((major, s[1] as u64, 2nat))
            } else {
                None
            }
        } else if info == 25 {
            if s.len() >= 3 && value2(s.subrange(1, 3)) >= 0x100 {
                Some((major, value2(s.subrange(1, 3)), 3nat))
            } else {
                None
            }
        } else if info == 26 {
            if s.len() >= 5 && value4(s.subrange(1, 5)) >= 0x1_0000 {
                Some((major, value4(s.subrange(1, 5)), 5nat))
            } else {
                None
            }
        } else if info == 27 {
            if s.len() >= 9 && value8(s.subrange(1, 9)) >= 0x1_0000_0000 {
                Some((major, value8(s.subrange(1, 9)), 9nat))
            } else {
                None
            }
        } else {
            None
        }
    }
}

/// Reading the head of a CBOR item gives the major type and the argument
/// back, whatever follows the head.
pub proof fn lemma_parse_head(major: u8, arg: u64, rest: Seq<u8>)
    requires
        major < 8,
    ensures
        parse_head(cbor_head(major, arg) + rest) == Some((major, arg, cbor_head(major, arg).len())),
{
    reveal(cbor_head);
    reveal(parse_head);
    let h = cbor_head(major, arg);
    let s = h + rest;
    lemma_be2(arg, Seq::empty());
    lemma_be4(arg, Seq::empty());
    lemma_be8(arg, Seq::empty());
    assert(s[0] == h[0]);
    if arg < 24 {
    } else if arg < 0x100 {
        assert(s[1] == h[1]);
    } else if arg < 0x1_0000 {
        assert(s.subrange(1, 3) =~= be2(arg));
    } else if arg < 0x1_0000_0000 {
        assert(s.subrange(1, 5) =~= be4(arg));
    } else {
        assert(s.subrange(1, 9) =~= be8(arg));
    }
}

/// What `parse_head` reads is the head of the item it gives.
pub proof fn lemma_parse_head_sound(s: Seq<u8>)
    ensures
        parse_head(s) matches Some((major, arg, used)) ==> major < 8 && used <= s.len()
            && s.subrange(0, used as int) == cbor_head(major, arg),
{
    reveal(cbor_head);
    reveal(parse_head);
    match parse_head(s) {
        Some((major, arg, used)) => {
            let info = s[0] % 32;
            assert(s[0] == major * 32 + info);
            if info < 24 {
                assert(s.subrange(0, 1) =~= cbor_head(major, arg));
            } else if info == 24 {
                assert(s.subrange(0, 2) =~= cbor_head(major, arg));
            } else if info == 25 {
                lemma_be2(0, s.subrange(1, 3));
                assert(s.subrange(0, 3) =~= seq![s[0]] + s.subrange(1, 3));
            } else if info == 26 {
                lemma_be4(0, s.subrange(1, 5));
                assert(s.subrange(0, 5) =~= seq![s[0]] + s.subrange(1, 5));
            } else {
                lemma_be8(0, s.subrange(1, 9));
                assert(s.subrange(0, 9) =~= seq![s[0]] + s.subrange(1, 9));
            }
        },
        None => {},
    }
}

/// Appends the head of a CBOR item to `out`.
pub fn write_head(out: &mut Vec<u8>, major: u8, arg: u64)
    requires
        major < 8,
    ensures
        final(out)@ == old(out)@ + cbor_head(major, arg),
{
    proof {
        reveal(cbor_head);
    }
    let first = major * 32;
    if arg < 24 {
        out.push(first + arg as u8);
    } else if arg < 0x100 {
        out.push(first + 24);
        out.push(arg as u8);
    } else if arg < 0x1_0000 {
        out.push(first + 25);
        write_be2(out, arg);
    } else if arg < 0x1_0000_0000 {
        out.push(first + 26);
        write_be4(out, arg);
    } else {
        out.push(first + 27);
        write_be8(out, arg);
    }
    assert(out@ =~= old(out)@ + cbor_head(major, arg));
}

/// Reads the head of a CBOR item at `pos`: the major type, the argument,
/// and the position after the head.
pub fn read_head(bytes: &[u8], pos: usize) -> (r: Option<(u8, u64, usize)>)
    requires
        pos <= bytes@.len(),
    ensures
        match r {
            Some((major, arg, next)) => parse_head(bytes@.skip(pos as int)) == Some(
                (major, arg, (next - pos) as nat),
            ) && pos < next <= bytes@.len() && major < 8,
            None => parse_head(bytes@.skip(pos as int)) is None,
        },
{
    proof {
        reveal(parse_head);
    }
    let ghost s = bytes@.skip(pos as int);
    if pos >= bytes.len() {
        return None;
    }
    let left = bytes.len() - pos;
    let first = bytes[pos];
    let major = first / 32;
    let info = first % 32;
    assert(s[0] == first);
    if info < 24 {
        Some((major, info as u64, pos + 1))
    } else if info == 24 {
        if left >= 2 && bytes[pos + 1] >= 24 {
            assert(s[1] == bytes@[pos + 1]);
            Some((major, bytes[pos + 1] as u64, pos + 2))
        } else {
            assert(left >= 2 ==> s[1] == bytes@[pos + 1]);
            None
        }
    } else if info == 25 {
        if left < 3 {
            return None;
        }
        assert(s.subrange(1, 3) =~= bytes@.subrange(pos + 1, pos + 3));
        let arg = read_be2(bytes, pos + 1);
        if arg >= 0x100 {
            Some((major, arg, pos + 3))
        } else {
            None
        }
    } else if info == 26 {
        if left < 5 {
            return None;
        }
        assert(s.subrange(1, 5) =~= bytes@.subrange(pos + 1, pos + 5));
        let arg = read_be4(bytes, pos + 1);
        if arg >= 0x1_0000 {
            Some((major, arg, pos + 5))
        } else {
            None
        }
    } else if info == 27 {
        if left < 9 {
            return None;
        }
        assert(s.subrange(1, 9) =~= bytes@.subrange(pos + 1, pos + 9));
        let arg = read_be8(bytes, pos + 1);
        if arg >= 0x1_0000_0000 {
            Some((major, arg, pos + 9))
        } else {
            None
        }
    } else {
        None
    }
}

/// The bytes of a number, the highest first, with no zero byte in front:
/// no byte at all for zero.
pub open spec fn be_minimal(n: nat) -> Seq<u8>
    decreases n,
{
    if n == 0 {
        Seq::empty()
    } else {
        be_minimal(n / 256).push((n % 256) as u8)
    }
}

/// The bytes of a balance: none for zero; else a zero byte, which says that
/// the number is not negative, and the bytes of the number.
pub open spec fn balance_bytes(balance: u128) -> Seq<u8> {
    if balance == 0 {
        Seq::empty()
    } else {
        seq![0u8] + be_minimal(balance as nat)
    }
}

/// Reads a balance from its bytes. Only the bytes that `balance_bytes`
/// gives for a balance are read.
#[verifier::opaque]
pub open spec fn parse_balance(s: Seq<u8>) -> Option<u128> {
    if s.len() == 0 {
        Some(0u128)
    } else if s[0] != 0 || s.len() < 2 || s[1] == 0 || be_value(s.skip(1)) > u128::MAX {
        None
    } else {
        Some(be_value(s.skip(1)) as u128)
    }
}

proof fn lemma_be_minimal(n: nat)
    ensures
        be_value(be_minimal(n)) == n,
        n > 0 ==> be_minimal(n).len() >= 1 && be_minimal(n)[0] != 0,
    decreases n,
{
    if n > 0 {
        lemma_be_minimal(n / 256);
        let s = be_minimal(n);
        assert(s.drop_last() =~= be_minimal(n / 256));
        assert(s.last() == (n % 256) as u8);
        if n / 256 > 0 {
            assert(s[0] == be_minimal(n / 256)[0]);
        }
    }
}

proof fn lemma_be_value_positive(s: Seq<u8>)
    requires
        s.len() >= 1,
        s[0] != 0,
    ensures
        be_value(s) > 0,
        be_minimal(be_value(s)) == s,
    decreases s.len(),
{
    let front = s.drop_last();
    if front.len() == 0 {
        assert(be_value(front) == 0);
        assert(be_value(s) == s[0]);
        assert(be_minimal(be_value(s)) =~= s) by {
            reveal_with_fuel(be_minimal, 2);
        }
    } else {
        assert(front[0] == s[0]);
        lemma_be_value_positive(front);
        let n = be_value(s);
        assert(n == be_value(front) * 256 + s.last());
        assert(n / 256 == be_value(front) && n % 256 == s.last());
        assert(be_minimal(n) =~= front.push(s.last()));
        assert(front.push(s.last()) =~= s);
    }
}

proof fn lemma_be_value_prefix(s: Seq<u8>, i: int)
    requires
        0 <= i <= s.len(),
    ensures
        be_value(s.subrange(0, i)) <= be_value(s),
    decreases s.len(),
{
    if i < s.len() {
        lemma_be_value_prefix(s.drop_last(), i);
        assert(s.drop_last().subrange(0, i) =~= s.subrange(0, i));
    } else {
        assert(s.subrange(0, i) =~= s);
    }
}

/// Reading the bytes of a balance gives the balance back.
pub proof fn lemma_parse_balance(balance: u128)
    ensures
        parse_balance(balance_bytes(balance)) == Some(balance),
{
    reveal(parse_balance);
    if balance > 0 {
        let s = balance_bytes(balance);
        lemma_be_minimal(balance as nat);
        assert(s.skip(1) =~= be_minimal(balance as nat));
        assert(s[1] == be_minimal(balance as nat)[0]);
    }
}

/// What `parse_balance` reads is the bytes of the balance it gives.
pub proof fn lemma_parse_balance_sound(s: Seq<u8>)
    ensures
        parse_balance(s) matches Some(balance) ==> balance_bytes(balance) == s,
{
    reveal(parse_balance);
    if s.len() == 0 {
        assert(balance_bytes(0) =~= s);
    } else if parse_balance(s) is Some {
        let body = s.skip(1);
        assert(body[0] == s[1]);
        lemma_be_value_positive(body);
        assert(seq![0u8] + body =~= s);
    }
}

fn write_be_minimal(out: &mut Vec<u8>, n: u128)
    ensures
        final(out)@ == old(out)@ + be_minimal(n as nat),
    decreases n,
{
    if n > 0 {
        write_be_minimal(out, n / 256);
        out.push((n % 256) as u8);
        assert(out@ =~= old(out)@ + be_minimal(n as nat));
    } else {
        assert(out@ =~= old(out)@ + be_minimal(n as nat));
    }
}

/// The bytes of a balance.
pub fn balance_to_bytes(balance: u128) -> (out: Vec<u8>)
    ensures
        out@ == balance_bytes(balance),
{
    let mut out: Vec<u8> = Vec::new();
    if balance > 0 {
        out.push(0u8);
        write_be_minimal(&mut out, balance);
        assert(out@ =~= balance_bytes(balance));
    }
    out
}

/// Reads a balance from its bytes.
pub fn balance_from_bytes(bytes: &[u8]) -> (r: Option<u128>)
    ensures
        r == parse_balance(bytes@),
{
    proof {
        reveal(parse_balance);
    }
    if bytes.len() == 0 {
        return Some(0);
    }
    if bytes[0] != 0 || bytes.len() < 2 || bytes[1] == 0 {
        return None;
    }
    let ghost body = bytes@.skip(1);
    let mut value: u128 = 0;
    let mut i: usize = 1;
    while i < bytes.len()
        invariant
            1 <= i <= bytes@.len(),
            body == bytes@.skip(1),
            value == be_value(body.subrange(0, i - 1)),
        decreases bytes@.len() - i,
    {
        let byte = bytes[i];
        proof {
            reveal(parse_balance);
            assert(body.subrange(0, i as int).drop_last() =~= body.subrange(0, i - 1));
            assert(body.subrange(0, i as int).last() == byte);
            assert(be_value(body.subrange(0, i as int)) == value * 256 + byte);
            lemma_be_value_prefix(body, i as int);
        }
        if value > (u128::MAX - byte as u128) / 256 {
            return None;
        }
        value = value * 256 + byte as u128;
        i = i + 1;
    }
    proof {
        reveal(parse_balance);
        assert(body.subrange(0, body.len() as int) =~= body);
    }
    Some(value)
}

/// A byte string as a CBOR item: its head, then the bytes.
pub open spec fn cbor_bytes(data: Seq<u8>) -> Seq<u8> {
    cbor_head(MAJOR_BYTES, data.len() as u64) + data
}

/// Reads a byte string from the start of `s`: the bytes, and the count of
/// bytes of the whole item.
pub open spec fn parse_bytes(s: Seq<u8>) -> Option<(Seq<u8>, nat)> {
    match parse_head(s) {
        Some((major, len, used)) => if major == MAJOR_BYTES && used + len <= s.len() {
            Some((s.subrange(used as int, used + len), (used + len) as nat))
        } else {
            None
        },
        None => None,
    }
}

/// Reading a byte string gives the bytes back, whatever follows the item.
pub proof fn lemma_parse_bytes(data: Seq<u8>, rest: Seq<u8>)
    requires
        data.len() <= u64::MAX,
    ensures
        parse_bytes(cbor_bytes(data) + rest) == Some((data, cbor_bytes(data).len())),
{
    let head = cbor_head(MAJOR_BYTES, data.len() as u64);
    let s = cbor_bytes(data) + rest;
    assert(s =~= head + (data + rest));
    lemma_parse_head(MAJOR_BYTES, data.len() as u64, data + rest);
    assert(s.subrange(head.len() as int, (head.len() + data.len()) as int) =~= data);
}

/// What `parse_bytes` reads is the item of the bytes it gives.
pub proof fn lemma_parse_bytes_sound(s: Seq<u8>)
    ensures
        parse_bytes(s) matches Some((data, used)) ==> used <= s.len() && s.subrange(0, used as int)
            == cbor_bytes(data) && data.len() <= u64::MAX,
{
    match parse_bytes(s) {
        Some((data, used)) => {
            lemma_parse_head_sound(s);
            let h = (parse_head(s)->0).2 as int;
            assert(s.subrange(0, used as int) =~= s.subrange(0, h) + data);
        },
        None => {},
    }
}

/// Appends a byte string as a CBOR item to `out`.
pub fn write_bytes(out: &mut Vec<u8>, data: &[u8])
    ensures
        final(out)@ == old(out)@ + cbor_bytes(data@),
{
    write_head(out, MAJOR_BYTES, data.len() as u64);
    let ghost headed = out@;
    let mut i: usize = 0;
    while i < data.len()
        invariant
            i <= data@.len(),
            out@ == headed + data@.subrange(0, i as int),
        decreases data@.len() - i,
    {
        out.push(data[i]);
        assert(data@.subrange(0, i + 1) =~= data@.subrange(0, i as int).push(data@[i as int]));
        assert(out@ =~= headed + data@.subrange(0, i + 1));
        i = i + 1;
    }
    assert(data@.subrange(0, data@.len() as int) =~= data@);
    assert(out@ =~= old(out)@ + cbor_bytes(data@));
}

/// Reads a byte string at `pos`: where its bytes start and where they end.
pub fn read_bytes(bytes: &[u8], pos: usize) -> (r: Option<(usize, usize)>)
    requires
        pos <= bytes@.len(),
    ensures
        match r {
            Some((start, end)) => pos < start <= end <= bytes@.len() && parse_bytes(
                bytes@.skip(pos as int),
            ) == Some((bytes@.subrange(start as int, end as int), (end - pos) as nat)),
            None => parse_bytes(bytes@.skip(pos as int)) is None,
        },
{
    match read_head(bytes, pos) {
        Some((major, len, start)) => {
            if major != MAJOR_BYTES || len > (bytes.len() - start) as u64 {
                return None;
            }
            let end = start + len as usize;
            assert(bytes@.skip(pos as int).subrange(start - pos, end - pos) =~= bytes@.subrange(
                start as int,
                end as int,
            ));
            Some((start, end))
        },
        None => None,
    }
}

/// The tag that marks a content identifier in CBOR.
pub const CID_TAG: u64 = 42;

/// A content identifier as a CBOR item: the tag, then a byte string that
/// holds a zero byte and the bytes of the identifier.
pub open spec fn cbor_cid(c: CidView) -> Seq<u8> {
    cbor_head(MAJOR_TAG, CID_TAG) + cbor_bytes(seq![0u8] + cid_bytes(c))
}

/// Reads a content identifier as a CBOR item from the start of `s`: the
/// identifier, and the count of bytes of the item.
#[verifier::opaque]
pub open spec fn parse_cbor_cid(s: Seq<u8>) -> Option<(CidView, nat)> {
    match parse_head(s) {
        Some((major, tag, t)) => match parse_bytes(s.skip(t as int)) {
            Some((payload, u)) => if major == MAJOR_TAG && tag == CID_TAG && payload.len() >= 1
                && payload[0] == 0 {
                match parse_cid(payload.skip(1)) {
                    Some((c, used)) => if used + 1 == payload.len() {
                        Some((c, (t + u) as nat))
                    } else {
                        None
                    },
                    None => None,
                }
            } else {
                None
            },
            None => None,
        },
        None => None,
    }
}

/// The bytes of a content identifier are at most 104 long.
pub proof fn lemma_cid_bytes_len(c: CidView)
    requires
        c.digest.len() <= MAX_DIGEST_LEN,
    ensures
        cid_bytes(c).len() <= 104,
{
    lemma_varint_len(CID_VERSION as nat);
    lemma_varint_len(c.codec as nat);
    lemma_varint_len(c.hash_code as nat);
    lemma_varint_len(c.digest.len());
}

/// Reading a content identifier as a CBOR item gives the identifier back,
/// whatever follows the item.
pub proof fn lemma_parse_cbor_cid(c: CidView, rest: Seq<u8>)
    requires
        c.digest.len() <= MAX_DIGEST_LEN,
    ensures
        parse_cbor_cid(cbor_cid(c) + rest) == Some((c, cbor_cid(c).len())),
{
    reveal(parse_cbor_cid);
    let tag = cbor_head(MAJOR_TAG, CID_TAG);
    let payload = seq![0u8] + cid_bytes(c);
    let s = cbor_cid(c) + rest;
    lemma_cid_bytes_len(c);
    assert(s =~= tag + (cbor_bytes(payload) + rest));
    lemma_parse_head(MAJOR_TAG, CID_TAG, cbor_bytes(payload) + rest);
    assert(s.skip(tag.len() as int) =~= cbor_bytes(payload) + rest);
    lemma_parse_bytes(payload, rest);
    assert(payload.skip(1) =~= cid_bytes(c));
    lemma_cid_round_trip(c);
}

/// What `parse_cbor_cid` reads is the item of the identifier it gives.
pub proof fn lemma_parse_cbor_cid_sound(s: Seq<u8>)
    ensures
        parse_cbor_cid(s) matches Some((c, used)) ==> used <= s.len() && s.subrange(0, used as int)
            == cbor_cid(c) && c.digest.len() <= MAX_DIGEST_LEN,
{
    reveal(parse_cbor_cid);
    match parse_cbor_cid(s) {
        Some((c, used)) => {
            lemma_parse_head_sound(s);
            let t = (parse_head(s)->0).2 as int;
            lemma_parse_bytes_sound(s.skip(t));
            let payload = (parse_bytes(s.skip(t))->0).0;
            let u = (parse_bytes(s.skip(t))->0).1 as int;
            lemma_parse_cid_sound(payload.skip(1));
            assert(payload.skip(1).subrange(0, payload.len() - 1) =~= payload.skip(1));
            assert(payload =~= seq![0u8] + cid_bytes(c));
            assert(s.subrange(0, used as int) =~= s.subrange(0, t) + s.skip(t).subrange(0, u));
        },
        None => {},
    }
}

/// Appends a content identifier as a CBOR item to `out`.
pub fn write_cbor_cid(out: &mut Vec<u8>, cid: &Cid)
    ensures
        final(out)@ == old(out)@ + cbor_cid(cid@),
{
    write_head(out, MAJOR_TAG, CID_TAG);
    let mut payload: Vec<u8> = Vec::new();
    payload.push(0u8);
    write_cid(&mut payload, cid);
    assert(payload@ =~= seq![0u8] + cid_bytes(cid@));
    write_bytes(out, payload.as_slice());
    assert(out@ =~= old(out)@ + cbor_cid(cid@));
}

/// Reads a content identifier as a CBOR item at `pos`: the identifier and
/// the position after the item.
pub fn read_cbor_cid(bytes: &[u8], pos: usize) -> (r: Option<(Cid, usize)>)
    requires
        pos <= bytes@.len(),
    ensures
        match r {
            Some((cid, next)) => parse_cbor_cid(bytes@.skip(pos as int)) == Some(
                (cid@, (next - pos) as nat),
            ) && pos < next <= bytes@.len(),
            None => parse_cbor_cid(bytes@.skip(pos as int)) is None,
        },
{
    proof {
        reveal(parse_cbor_cid);
    }
    let ghost s = bytes@.skip(pos as int);
    let (major, tag, at1) = match read_head(bytes, pos) {
        Some(found) => found,
        None => {
            return None;
        },
    };
    assert(s.skip(at1 - pos) =~= bytes@.skip(at1 as int));
    let (start, end) = match read_bytes(bytes, at1) {
        Some(found) => found,
        None => {
            return None;
        },
    };
    if major != MAJOR_TAG || tag != CID_TAG || start == end || bytes[start] != 0 {
        return None;
    }
    let payload = slice_subrange(bytes, start, end);
    assert(payload@.skip(0) =~= payload@);
    proof {
        assert(payload@.skip(1) =~= bytes@.subrange(start + 1, end as int));
    }
    match read_cid(payload, 1) {
        Some((cid, used)) => {
            if used == payload.len() {
                Some((cid, end))
            } else {
                None
            }
        },
        None => None,
    }
}

/// The bytes that an actor record is stored as: a CBOR array of four items
/// in this order: the code, the state, the sequence number, the balance.
pub open spec fn actor_state_bytes(a: ActorStateView) -> Seq<u8> {
    cbor_head(MAJOR_ARRAY, 4) + cbor_cid(a.code) + cbor_cid(a.state) + cbor_head(
        MAJOR_UNSIGNED,
        a.sequence,
    ) + cbor_bytes(balance_bytes(a.balance))
}

/// Reads an actor record from bytes that hold the record and nothing else.
pub open spec fn parse_actor_state(s: Seq<u8>) -> Option<ActorStateView> {
    match parse_head(s) {
        Some((major, count, a)) => match parse_cbor_cid(s.skip(a as int)) {
            Some((code, b)) => match parse_cbor_cid(s.skip((a + b) as int)) {
                Some((state, c)) => match parse_head(s.skip((a + b + c) as int)) {
                    Some((kind, sequence, d)) => match parse_bytes(s.skip((a + b + c + d) as int)) {
                        Some((raw, e)) => match parse_balance(raw) {
                            Some(balance) => if major == MAJOR_ARRAY && count == 4 && kind
                                == MAJOR_UNSIGNED && a + b + c + d + e == s.len() {
                                Some(ActorStateView { code, state, sequence, balance })
                            } else {
                                None
                            },
                            None => None,
                        },
                        None => None,
                    },
                    None => None,
                },
                None => None,
            },
            None => None,
        },
        None => None,
    }
}

/// An actor record can be stored when the digests of its two identifiers
/// are no longer than an identifier can hold.
pub open spec fn storable(a: ActorStateView) -> bool {
    a.code.digest.len() <= MAX_DIGEST_LEN && a.state.digest.len() <= MAX_DIGEST_LEN
}

/// The bytes of a balance are at most 17 long.
pub proof fn lemma_balance_bytes_len(balance: u128)
    ensures
        balance_bytes(balance).len() <= 17,
{
    assert(pow256(16) > u128::MAX) by {
        reveal_with_fuel(pow256, 17);
    }
    lemma_be_minimal_len(balance as nat, 16);
}

proof fn lemma_be_minimal_len(n: nat, k: nat)
    requires
        n < pow256(k),
    ensures
        be_minimal(n).len() <= k,
    decreases n,
{
    reveal_with_fuel(pow256, 2);
    if n > 0 {
        assert(k >= 1);
        assert(pow256(k) == 256 * pow256((k - 1) as nat));
        lemma_be_minimal_len(n / 256, (k - 1) as nat);
    }
}

spec fn pow256(k: nat) -> nat
    decreases k,
{
    if k == 0 {
        1
    } else {
        256 * pow256((k - 1) as nat)
    }
}

/// Writing an actor record and reading the bytes gives the record back,
/// whatever its fields hold: a balance of zero and a sequence number of
/// zero as well as the largest ones.
pub proof fn lemma_actor_state_round_trip(a: ActorStateView)
    requires
        storable(a),
    ensures
        parse_actor_state(actor_state_bytes(a)) == Some(a),
{
    let h = cbor_head(MAJOR_ARRAY, 4);
    let code = cbor_cid(a.code);
    let state = cbor_cid(a.state);
    let seq = cbor_head(MAJOR_UNSIGNED, a.sequence);
    let raw = balance_bytes(a.balance);
    let bal = cbor_bytes(raw);
    let s = actor_state_bytes(a);
    lemma_balance_bytes_len(a.balance);
    assert(s =~= h + (code + state + seq + bal));
    lemma_parse_head(MAJOR_ARRAY, 4, code + state + seq + bal);
    let at1 = h.len() as int;
    assert(s.skip(at1) =~= code + (state + seq + bal));
    lemma_parse_cbor_cid(a.code, state + seq + bal);
    let at2 = at1 + code.len();
    assert(s.skip(at2) =~= state + (seq + bal));
    lemma_parse_cbor_cid(a.state, seq + bal);
    let at3 = at2 + state.len();
    assert(s.skip(at3) =~= seq + bal);
    lemma_parse_head(MAJOR_UNSIGNED, a.sequence, bal);
    let at4 = at3 + seq.len();
    assert(s.skip(at4) =~= bal + Seq::<u8>::empty());
    lemma_parse_bytes(raw, Seq::empty());
    lemma_parse_balance(a.balance);
}

/// What `parse_actor_state` reads is the bytes of the record it gives: no
/// two byte strings are read as the same record.
pub proof fn lemma_parse_actor_state_sound(s: Seq<u8>)
    ensures
        parse_actor_state(s) matches Some(a) ==> actor_state_bytes(a) == s && storable(a),
{
    match parse_actor_state(s) {
        Some(record) => {
            lemma_parse_head_sound(s);
            let a = (parse_head(s)->0).2 as int;
            lemma_parse_cbor_cid_sound(s.skip(a));
            let b = (parse_cbor_cid(s.skip(a))->0).1 as int;
            lemma_parse_cbor_cid_sound(s.skip(a + b));
            let c = (parse_cbor_cid(s.skip(a + b))->0).1 as int;
            lemma_parse_head_sound(s.skip(a + b + c));
            let d = (parse_head(s.skip(a + b + c))->0).2 as int;
            lemma_parse_bytes_sound(s.skip(a + b + c + d));
            let raw = (parse_bytes(s.skip(a + b + c + d))->0).0;
            let e = (parse_bytes(s.skip(a + b + c + d))->0).1 as int;
            lemma_parse_balance_sound(raw);
            assert(s =~= s.subrange(0, a) + s.skip(a).subrange(0, b) + s.skip(a + b).subrange(0, c)
                + s.skip(a + b + c).subrange(0, d) + s.skip(a + b + c + d).subrange(0, e));
        },
        None => {},
    }
}

/// The bytes that an actor record is stored as.
pub fn encode_actor_state(record: &ActorState) -> (out: Vec<u8>)
    ensures
        out@ == actor_state_bytes(record@),
{
    let mut out: Vec<u8> = Vec::new();
    write_head(&mut out, MAJOR_ARRAY, 4);
    write_cbor_cid(&mut out, &record.code);
    write_cbor_cid(&mut out, &record.state);
    write_head(&mut out, MAJOR_UNSIGNED, record.sequence);
    let raw = balance_to_bytes(record.balance);
    write_bytes(&mut out, raw.as_slice());
    assert(out@ =~= actor_state_bytes(record@));
    out
}

/// Reads an actor record from the bytes that it is stored as. Bytes that
/// are not exactly what `encode_actor_state` gives for a record are refused.
pub fn decode_actor_state(bytes: &[u8]) -> (r: Option<ActorState>)
    ensures
        match r {
            Some(record) => parse_actor_state(bytes@) == Some(record@) && actor_state_bytes(
                record@,
            ) == bytes@,
            None => parse_actor_state(bytes@) is None,
        },
        forall|a: ActorStateView|
            storable(a) && bytes@ == #[trigger] actor_state_bytes(a) ==> (r matches Some(record)
                && record@ == a),
{
    proof {
        lemma_parse_actor_state_sound(bytes@);
        assert forall|a: ActorStateView|
            storable(a) && bytes@ == #[trigger] actor_state_bytes(a) implies parse_actor_state(
            bytes@,
        ) == Some(a) by {
            lemma_actor_state_round_trip(a);
        }
        assert(bytes@.skip(0) =~= bytes@);
    }
    let (major, count, at1) = match read_head(bytes, 0) {
        Some(found) => found,
        None => {
            return None;
        },
    };
    let (code, at2) = match read_cbor_cid(bytes, at1) {
        Some(found) => found,
        None => {
            return None;
        },
    };
    let (state, at3) = match read_cbor_cid(bytes, at2) {
        Some(found) => found,
        None => {
            return None;
        },
    };
    let (kind, sequence, at4) = match read_head(bytes, at3) {
        Some(found) => found,
        None => {
            return None;
        },
    };
    let (start, end) = match read_bytes(bytes, at4) {
        Some(found) => found,
        None => {
            return None;
        },
    };
    let balance = match balance_from_bytes(slice_subrange(bytes, start, end)) {
        Some(found) => found,
        None => {
            return None;
        },
    };
    if major != MAJOR_ARRAY || count != 4 || kind != MAJOR_UNSIGNED || end != bytes.len() {
        return None;
    }
    Some(ActorState::new(code, state, sequence, balance))
}

/// Major type of a negative number in CBOR.
pub const MAJOR_NEGATIVE: u8 = 1;

/// A signed number as a CBOR item.
pub open spec fn cbor_int(n: i64) -> Seq<u8> {
    if n >= 0 {
        cbor_head(MAJOR_UNSIGNED, n as u64)
    } else {
        cbor_head(MAJOR_NEGATIVE, (-1 - n) as u64)
    }
}

/// Appends a signed number as a CBOR item to `out`.
pub fn write_int(out: &mut Vec<u8>, n: i64)
    ensures
        final(out)@ == old(out)@ + cbor_int(n),
{
    if n >= 0 {
        write_head(out, MAJOR_UNSIGNED, n as u64);
    } else {
        write_head(out, MAJOR_NEGATIVE, (-1 - n) as u64);
    }
}

/// Unsigned numbers as CBOR items, one after the other.
pub open spec fn cbor_uints(items: Seq<u64>) -> Seq<u8>
    decreases items.len(),
{
    if items.len() == 0 {
        Seq::empty()
    } else {
        cbor_uints(items.drop_last()) + cbor_head(MAJOR_UNSIGNED, items.last())
    }
}

/// A list of unsigned numbers as a CBOR array.
pub open spec fn cbor_uint_array(items: Seq<u64>) -> Seq<u8> {
    cbor_head(MAJOR_ARRAY, items.len() as u64) + cbor_uints(items)
}

/// Appends a list of unsigned numbers as a CBOR array to `out`.
pub fn write_uint_array(out: &mut Vec<u8>, items: &[u64])
    ensures
        final(out)@ == old(out)@ + cbor_uint_array(items@),
{
    write_head(out, MAJOR_ARRAY, items.len() as u64);
    let ghost headed = out@;
    let mut i: usize = 0;
    while i < items.len()
        invariant
            i <= items@.len(),
            out@ == headed + cbor_uints(items@.subrange(0, i as int)),
        decreases items@.len() - i,
    {
        let ghost before = out@;
        write_head(out, MAJOR_UNSIGNED, items[i]);
        proof {
            let next = items@.subrange(0, i + 1);
            assert(next.drop_last() =~= items@.subrange(0, i as int));
            assert(out@ =~= headed + cbor_uints(next));
        }
        i = i + 1;
    }
    assert(items@.subrange(0, items@.len() as int) =~= items@);
    assert(out@ =~= old(out)@ + cbor_uint_array(items@));
}

/// Byte strings as CBOR items, one after the other.
pub open spec fn cbor_byte_strings(items: Seq<Seq<u8>>) -> Seq<u8>
    decreases items.len(),
{
    if items.len() == 0 {
        Seq::empty()
    } else {
        cbor_byte_strings(items.drop_last()) + cbor_bytes(items.last())
    }
}

/// A list of byte strings as a CBOR array.
pub open spec fn cbor_bytes_array(items: Seq<Seq<u8>>) -> Seq<u8> {
    cbor_head(MAJOR_ARRAY, items.len() as u64) + cbor_byte_strings(items)
}

/// What a list of byte strings holds.
pub open spec fn byte_string_views(items: Seq<Vec<u8>>) -> Seq<Seq<u8>> {
    items.map_values(|b: Vec<u8>| b@)
}

/// Appends a list of byte strings as a CBOR array to `out`.
pub fn write_bytes_array(out: &mut Vec<u8>, items: &Vec<Vec<u8>>)
    ensures
        final(out)@ == old(out)@ + cbor_bytes_array(byte_string_views(items@)),
{
    write_head(out, MAJOR_ARRAY, items.len() as u64);
    let ghost headed = out@;
    let ghost views = byte_string_views(items@);
    let mut i: usize = 0;
    while i < items.len()
        invariant
            i <= items@.len(),
            views == byte_string_views(items@),
            out@ == headed + cbor_byte_strings(views.subrange(0, i as int)),
        decreases items@.len() - i,
    {
        write_bytes(out, items[i].as_slice());
        proof {
            let next = views.subrange(0, i + 1);
            assert(next.drop_last() =~= views.subrange(0, i as int));
            assert(next.last() == items@[i as int]@);
            assert(out@ =~= headed + cbor_byte_strings(next));
        }
        i = i + 1;
    }
    assert(views.subrange(0, views.len() as int) =~= views);
    assert(out@ =~= old(out)@ + cbor_bytes_array(byte_string_views(items@)));
}

} // verus!
