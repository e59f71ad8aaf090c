//! Byte-level encodings: the order on byte strings, fixed-width and
//! variable-width integers, and the order-preserving encoding of user keys.

use vstd::prelude::*;

verus! {

/// Why a byte string could not be decoded.
#[derive(Clone, Copy, Debug, PartialEq, Eq, Structural)]
pub enum CodecError {
    /// A versioned key is shorter than a timestamp suffix.
    KeyLength,
    /// A group of an encoded user key is cut short, has a marker out of
    /// range, or has padding that is not zero.
    KeyPadding,
    /// The input ended inside a number or a length-prefixed string.
    UnexpectedEof,
    /// A variable-width number does not fit in 64 bits.
    VarintOverflow,
}

/// How one byte string stands to another in lexicographic order.
#[derive(Clone, Copy, Debug, PartialEq, Eq, Structural)]
pub enum ByteOrder {
    Less,
    Equal,
    Greater,
}

/// Lexicographic "less than" on the parts of `a` and `b` from index `i` on,
/// given that the two agree before `i`.
pub open spec fn lt_from(a: Seq<u8>, b: Seq<u8>, i: int) -> bool
    decreases a.len() - i,
{
    if i >= b.len() {
        false
    } else if i >= a.len() {
        true
    } else if a[i] != b[i] {
        a[i] < b[i]
    } else {
        lt_from(a, b, i + 1)
    }
}

/// Lexicographic "less than" on byte strings: at the first index where the two
/// differ `a` holds the smaller byte, or `a` is a proper prefix of `b`.
pub open spec fn bytes_lt(a: Seq<u8>, b: Seq<u8>) -> bool {
    lt_from(a, b, 0)
}

/// `a` is less than or equal to `b` in lexicographic order.
pub open spec fn bytes_le(a: Seq<u8>, b: Seq<u8>) -> bool {
    a == b || bytes_lt(a, b)
}

/// Two strings that agree before `i` and are neither less than the other from
/// `i` on are equal.
pub proof fn lemma_lt_from_total(a: Seq<u8>, b: Seq<u8>, i: int)
    requires
        0 <= i <= a.len(),
        i <= b.len(),
        forall|j: int| 0 <= j < i ==> a[j] == b[j],
    ensures
        lt_from(a, b, i) || lt_from(b, a, i) || a == b,
        !(lt_from(a, b, i) && lt_from(b, a, i)),
        a == b ==> !lt_from(a, b, i),
    decreases a.len() - i,
{
    if i >= b.len() || i >= a.len() {
        if i >= b.len() && i >= a.len() {
            assert(a =~= b);
        }
    } else if a[i] != b[i] {
    } else {
        lemma_lt_from_total(a, b, i + 1);
    }
}

/// The lexicographic order is total and strict: of `a < b`, `a == b` and
/// `b < a` exactly one holds.
pub proof fn lemma_bytes_order_total(a: Seq<u8>, b: Seq<u8>)
    ensures
        bytes_lt(a, b) || bytes_lt(b, a) || a == b,
        !(bytes_lt(a, b) && bytes_lt(b, a)),
        !bytes_lt(a, a),
        a == b ==> !bytes_lt(a, b),
{
    lemma_lt_from_total(a, b, 0);
    lemma_lt_from_total(a, a, 0);
}

proof fn lemma_lt_from_trans(a: Seq<u8>, b: Seq<u8>, c: Seq<u8>, i: int)
    requires
        0 <= i,
        lt_from(a, b, i),
        lt_from(b, c, i),
    ensures
        lt_from(a, c, i),
    decreases b.len() - i,
{
    if i < a.len() && i < b.len() && i < c.len() && a[i] == b[i] && b[i] == c[i] {
        lemma_lt_from_trans(a, b, c, i + 1);
    }
}

/// The lexicographic order is transitive.
pub proof fn lemma_bytes_lt_trans(a: Seq<u8>, b: Seq<u8>, c: Seq<u8>)
    requires
        bytes_lt(a, b),
        bytes_lt(b, c),
    ensures
        bytes_lt(a, c),
{
    lemma_lt_from_trans(a, b, c, 0);
}

/// Where two strings agree before `d` and differ at `d`, the byte at `d`
/// decides their order, whatever follows.
pub proof fn lemma_lt_decided_at(a: Seq<u8>, b: Seq<u8>, d: int, i: int)
    requires
        0 <= i <= d < a.len(),
        d < b.len(),
        forall|j: int| i <= j < d ==> a[j] == b[j],
        a[d] != b[d],
    ensures
        lt_from(a, b, i) == (a[d] < b[d]),
    decreases d - i,
{
    if i < d {
        lemma_lt_decided_at(a, b, d, i + 1);
    }
}

/// A common prefix does not change the order of what follows it.
pub proof fn lemma_lt_common_prefix(p: Seq<u8>, x: Seq<u8>, y: Seq<u8>)
    ensures
        bytes_lt(p + x, p + y) == bytes_lt(x, y),
{
    lemma_lt_shift(p, x, y, 0);
    lemma_lt_skip_prefix(p, x, y, 0);
}

proof fn lemma_lt_skip_prefix(p: Seq<u8>, x: Seq<u8>, y: Seq<u8>, i: int)
    requires
        0 <= i <= p.len(),
    ensures
        lt_from(p + x, p + y, i) == lt_from(p + x, p + y, p.len() as int),
    decreases p.len() - i,
{
    if i < p.len() {
        assert((p + x)[i] == (p + y)[i]);
        lemma_lt_skip_prefix(p, x, y, i + 1);
    }
}

proof fn lemma_lt_shift(p: Seq<u8>, x: Seq<u8>, y: Seq<u8>, i: int)
    requires
        0 <= i,
    ensures
        lt_from(p + x, p + y, p.len() + i) == lt_from(x, y, i),
    decreases x.len() - i,
{
    if i < x.len() && i < y.len() {
        assert((p + x)[p.len() + i] == x[i]);
        assert((p + y)[p.len() + i] == y[i]);
        if x[i] == y[i] {
            lemma_lt_shift(p, x, y, i + 1);
        }
    }
}

/// Compares two byte strings in lexicographic order.
pub fn compare(a: &[u8], b: &[u8]) -> (r: ByteOrder)
    ensures
        r is Less <==> bytes_lt(a@, b@),
        r is Equal <==> a@ == b@,
        r is Greater <==> bytes_lt(b@, a@),
{
    let mut i: usize = 0;
    while i < a.len() && i < b.len()
        invariant
            i <= a.len(),
            i <= b.len(),
            forall|j: int| 0 <= j < i ==> a@[j] == b@[j],
            lt_from(a@, b@, 0) == lt_from(a@, b@, i as int),
            lt_from(b@, a@, 0) == lt_from(b@, a@, i as int),
        decreases a.len() - i,
    {
        if a[i] < b[i] {
            proof {
                lemma_lt_from_total(a@, b@, i as int);
            }
            return ByteOrder::Less;
        }
        if a[i] > b[i] {
            proof {
                lemma_lt_from_total(a@, b@, i as int);
            }
            return ByteOrder::Greater;
        }
        i += 1;
    }
    proof {
        lemma_lt_from_total(a@, b@, i as int);
    }
    if i < b.len() {
        ByteOrder::Less
    } else if i < a.len() {
        ByteOrder::Greater
    } else {
        ByteOrder::Equal
    }
}

/// Whether two byte strings are the same.
pub fn bytes_eq(a: &[u8], b: &[u8]) -> (r: bool)
    ensures
        r == (a@ == b@),
{
    if a.len() != b.len() {
        return false;
    }
    let mut i: usize = 0;
    while i < a.len()
        invariant
            i <= a.len(),
            a.len() == b.len(),
            forall|j: int| 0 <= j < i ==> a@[j] == b@[j],
        decreases a.len() - i,
    {
        if a[i] != b[i] {
            return false;
        }
        i += 1;
    }
    assert(a@ =~= b@);
    true
}

/// A copy of a byte string.
pub fn copy_bytes(a: &[u8]) -> (r: Vec<u8>)
    ensures
        r@ == a@,
{
    let mut out: Vec<u8> = Vec::new();
    let mut i: usize = 0;
    while i < a.len()
        invariant
            i <= a.len(),
            out@ == a@.take(i as int),
        decreases a.len() - i,
    {
        out.push(a[i]);
        assert(a@.take(i as int).push(a@[i as int]) =~= a@.take(i + 1));
        i += 1;
    }
    assert(a@.take(a.len() as int) =~= a@);
    out
}

/// Appends the bytes of `a` to `out`.
pub fn append_bytes(out: &mut Vec<u8>, a: &[u8])
    ensures
        final(out)@ == old(out)@ + a@,
{
    let mut i: usize = 0;
    while i < a.len()
        invariant
            i <= a.len(),
            out@ == old(out)@ + a@.take(i as int),
        decreases a.len() - i,
    {
        out.push(a[i]);
        assert((old(out)@ + a@.take(i as int)).push(a@[i as int]) =~= old(out)@ + a@.take(i + 1));
        i += 1;
    }
    assert(a@.take(a.len() as int) =~= a@);
}

/// The eight bytes of `v`, most significant first.
pub open spec fn be_bytes(v: u64) -> Seq<u8> {
    seq![
        (v >> 56) as u8,
        (v >> 48) as u8,
        (v >> 40) as u8,
        (v >> 32) as u8,
        (v >> 24) as u8,
        (v >> 16) as u8,
        (v >> 8) as u8,
        v as u8,
    ]
}

/// The number whose eight bytes, most significant first, are `s[at..at + 8]`.
pub open spec fn be_value(s: Seq<u8>, at: int) -> u64 {
    ((s[at] as u64) << 56) | ((s[at + 1] as u64) << 48) | ((s[at + 2] as u64) << 40) | ((s[at
        + 3] as u64) << 32) | ((s[at + 4] as u64) << 24) | ((s[at + 5] as u64) << 16) | ((s[at
        + 6] as u64) << 8) | (s[at + 7] as u64)
}

/// Reading back the eight bytes of a number gives the number.
pub proof fn lemma_be_round_trip(v: u64)
    ensures
        be_bytes(v).len() == 8,
        be_value(be_bytes(v), 0) == v,
{
    assert(((((v >> 56) as u8) as u64) << 56) | ((((v >> 48) as u8) as u64) << 48) | ((((v
        >> 40) as u8) as u64) << 40) | ((((v >> 32) as u8) as u64) << 32) | ((((v >> 24) as u8) as u64)
        << 24) | ((((v >> 16) as u8) as u64) << 16) | ((((v >> 8) as u8) as u64) << 8) | ((v as u8) as u64)
        == v) by (bit_vector);
}

/// Writing the number that eight bytes stand for gives the bytes back.
pub proof fn lemma_be_value_round_trip(s: Seq<u8>, at: int)
    requires
        0 <= at,
        at + 8 <= s.len(),
    ensures
        be_bytes(be_value(s, at)) == s.subrange(at, at + 8),
{
    let b0 = s[at];
    let b1 = s[at + 1];
    let b2 = s[at + 2];
    let b3 = s[at + 3];
    let b4 = s[at + 4];
    let b5 = s[at + 5];
    let b6 = s[at + 6];
    let b7 = s[at + 7];
    let v = be_value(s, at);
    assert(v == ((b0 as u64) << 56) | ((b1 as u64) << 48) | ((b2 as u64) << 40) | ((b3 as u64)
        << 32) | ((b4 as u64) << 24) | ((b5 as u64) << 16) | ((b6 as u64) << 8) | (b7 as u64));
    assert((v >> 56) as u8 == b0 && (v >> 48) as u8 == b1 && (v >> 40) as u8 == b2 && (v >> 32) as u8
        == b3 && (v >> 24) as u8 == b4 && (v >> 16) as u8 == b5 && (v >> 8) as u8 == b6 && v as u8
        == b7) by (bit_vector)
        requires
            v == ((b0 as u64) << 56) | ((b1 as u64) << 48) | ((b2 as u64) << 40) | ((b3 as u64)
                << 32) | ((b4 as u64) << 24) | ((b5 as u64) << 16) | ((b6 as u64) << 8) | (b7 as u64),
    ;
    assert(be_bytes(v) =~= s.subrange(at, at + 8));
}

/// The big-endian bytes order as the numbers do.
pub proof fn lemma_be_order(x: u64, y: u64)
    ensures
        bytes_lt(be_bytes(x), be_bytes(y)) == (x < y),
        (be_bytes(x) == be_bytes(y)) == (x == y),
{
    let a = be_bytes(x);
    let b = be_bytes(y);
    lemma_be_round_trip(x);
    lemma_be_round_trip(y);
    if x == y {
        lemma_bytes_order_total(a, b);
    } else {
        assert(a != b);
        if x < y {
            lemma_be_lt(x, y);
        } else {
            lemma_be_lt(y, x);
            lemma_bytes_order_total(a, b);
        }
    }
}

proof fn lemma_be_lt(x: u64, y: u64)
    requires
        x < y,
    ensures
        bytes_lt(be_bytes(x), be_bytes(y)),
{
    assert(x < y ==> {
        ||| ((x >> 56) as u8) < ((y >> 56) as u8)
        ||| ((x >> 56) as u8) == ((y >> 56) as u8) && {
            ||| ((x >> 48) as u8) < ((y >> 48) as u8)
            ||| ((x >> 48) as u8) == ((y >> 48) as u8) && {
                ||| ((x >> 40) as u8) < ((y >> 40) as u8)
                ||| ((x >> 40) as u8) == ((y >> 40) as u8) && {
                    ||| ((x >> 32) as u8) < ((y >> 32) as u8)
                    ||| ((x >> 32) as u8) == ((y >> 32) as u8) && {
                        ||| ((x >> 24) as u8) < ((y >> 24) as u8)
                        ||| ((x >> 24) as u8) == ((y >> 24) as u8) && {
                            ||| ((x >> 16) as u8) < ((y >> 16) as u8)
                            ||| ((x >> 16) as u8) == ((y >> 16) as u8) && {
                                ||| ((x >> 8) as u8) < ((y >> 8) as u8)
                                ||| ((x >> 8) as u8) == ((y >> 8) as u8) && (x as u8) < (y as u8)
                            }
                        }
                    }
                }
            }
        }
    }) by (bit_vector);
    reveal_with_fuel(lt_from, 9);
}

/// Appends the eight bytes of `v`, most significant first.
pub fn encode_u64(out: &mut Vec<u8>, v: u64)
    ensures
        final(out)@ == old(out)@ + be_bytes(v),
{
    out.push((v >> 56) as u8);
    out.push((v >> 48) as u8);
    out.push((v >> 40) as u8);
    out.push((v >> 32) as u8);
    out.push((v >> 24) as u8);
    out.push((v >> 16) as u8);
    out.push((v >> 8) as u8);
    out.push(v as u8);
    assert(out@ =~= old(out)@ + be_bytes(v));
}

/// Reads the number whose eight bytes, most significant first, start at
/// `at`.
pub fn decode_u64(b: &[u8], at: usize) -> (r: u64)
    requires
        at + 8 <= b.len(),
    ensures
        r == be_value(b@, at as int),
{
    ((b[at] as u64) << 56) | ((b[at + 1] as u64) << 48) | ((b[at + 2] as u64) << 40) | ((b[at
        + 3] as u64) << 32) | ((b[at + 4] as u64) << 24) | ((b[at + 5] as u64) << 16) | ((b[at
        + 6] as u64) << 8) | (b[at + 7] as u64)
}


/// Bytes of user data in one group of an encoded user key.
pub const ENC_GROUP_SIZE: usize = 8;

/// The marker that follows a full group which is not the last.
pub const ENC_MARKER: u8 = 0xFF;

/// `n` zero bytes.
pub open spec fn zeros(n: int) -> Seq<u8> {
    Seq::new(n as nat, |i: int| 0u8)
}

/// The order-preserving encoding of a user key. The key is cut into groups
/// of eight bytes. A full group that is followed by more is written with the
/// marker `0xFF`. The rest, between no and seven bytes, is filled up with
/// zeros and written with the marker `0xF7` plus its length, so that no
/// encoding is a prefix of another.
pub open spec fn encode_bytes_spec(raw: Seq<u8>) -> Seq<u8>
    decreases raw.len(),
{
    if raw.len() >= 8 {
        raw.take(8) + seq![0xFFu8] + encode_bytes_spec(raw.skip(8))
    } else {
        raw + zeros(8 - raw.len()) + seq![(0xF7 + raw.len()) as u8]
    }
}

/// The user key at the start of `enc`, where there is one: the groups up to
/// the first whose marker is not `0xFF`, without their padding. What follows
/// that group is not read.
pub open spec fn decode_bytes_spec(enc: Seq<u8>) -> Option<Seq<u8>>
    decreases enc.len(),
{
    if enc.len() < 9 {
        None
    } else if enc[8] == 0xFF {
        match decode_bytes_spec(enc.skip(9)) {
            Some(rest) => Some(enc.take(8) + rest),
            None => None,
        }
    } else if enc[8] < 0xF7 {
        None
    } else if forall|j: int| enc[8] - 0xF7 <= j < 8 ==> enc[j] == 0 {
        Some(enc.take(enc[8] - 0xF7))
    } else {
        None
    }
}

/// `e` is made of groups of nine bytes, of which the last, and only the
/// last, has a marker other than `0xFF`.
pub open spec fn well_grouped(e: Seq<u8>) -> bool {
    &&& e.len() >= 9
    &&& e.len() % 9 == 0
    &&& e[e.len() - 1] != 0xFF
    &&& forall|g: int| 0 <= g && 9 * g + 9 < e.len() ==> #[trigger] e[9 * g + 8] == 0xFF
}

/// The encoding of a user key is well grouped and nine bytes long for every
/// eight bytes of the key, begun or not.
pub proof fn lemma_encode_well_grouped(raw: Seq<u8>)
    ensures
        well_grouped(encode_bytes_spec(raw)),
        encode_bytes_spec(raw).len() == (raw.len() / 8 + 1) * 9,
    decreases raw.len(),
{
    let e = encode_bytes_spec(raw);
    if raw.len() >= 8 {
        let rest = encode_bytes_spec(raw.skip(8));
        lemma_encode_well_grouped(raw.skip(8));
        assert(e.len() == 9 + rest.len());
        assert forall|g: int| 0 <= g && 9 * g + 9 < e.len() implies #[trigger] e[9 * g + 8]
            == 0xFF by {
            if g > 0 {
                assert(e[9 * g + 8] == rest[9 * (g - 1) + 8]);
            }
        }
        assert(e[e.len() - 1] == rest[rest.len() - 1]);
    } else {
        assert(e.len() == 9);
        assert(e[8] == (0xF7 + raw.len()) as u8);
    }
}

/// Decoding what was encoded gives the user key back, whatever follows the
/// encoding.
pub proof fn lemma_decode_encode(raw: Seq<u8>, tail: Seq<u8>)
    ensures
        decode_bytes_spec(encode_bytes_spec(raw) + tail) == Some(raw),
    decreases raw.len(),
{
    let e = encode_bytes_spec(raw) + tail;
    if raw.len() >= 8 {
        let rest = encode_bytes_spec(raw.skip(8));
        lemma_decode_encode(raw.skip(8), tail);
        assert(e.skip(9) =~= rest + tail);
        assert(e.take(8) =~= raw.take(8));
        assert(e[8] == 0xFF);
        assert(raw.take(8) + raw.skip(8) =~= raw);
    } else {
        assert(e[8] == (0xF7 + raw.len()) as u8);
        assert(e.take(raw.len() as int) =~= raw);
    }
}

/// Different user keys have different encodings.
pub proof fn lemma_encode_injective(a: Seq<u8>, b: Seq<u8>)
    requires
        encode_bytes_spec(a) == encode_bytes_spec(b),
    ensures
        a == b,
{
    lemma_decode_encode(a, Seq::empty());
    lemma_decode_encode(b, Seq::empty());
}

/// The first index from `i` on at which `a` and `b` differ, given that they
/// differ at `k`.
proof fn lemma_first_difference(a: Seq<u8>, b: Seq<u8>, i: int, k: int) -> (d: int)
    requires
        0 <= i <= k < a.len(),
        k < b.len(),
        a[k] != b[k],
        forall|j: int| 0 <= j < i ==> a[j] == b[j],
    ensures
        i <= d <= k,
        a[d] != b[d],
        forall|j: int| 0 <= j < d ==> a[j] == b[j],
    decreases k - i,
{
    if a[i] != b[i] {
        i
    } else {
        lemma_first_difference(a, b, i + 1, k)
    }
}

/// Two well-grouped strings that are not the same differ at an index that
/// both have: neither is a prefix of the other.
pub proof fn lemma_well_grouped_diverge(a: Seq<u8>, b: Seq<u8>) -> (d: int)
    requires
        well_grouped(a),
        well_grouped(b),
        a != b,
    ensures
        0 <= d < a.len(),
        d < b.len(),
        a[d] != b[d],
        forall|j: int| 0 <= j < d ==> a[j] == b[j],
{
    let n = if a.len() <= b.len() { a.len() as int } else { b.len() as int };
    if exists|k: int| 0 <= k < n && a[k] != b[k] {
        let k = choose|k: int| 0 <= k < n && a[k] != b[k];
        lemma_first_difference(a, b, 0, k)
    } else {
        if a.len() == b.len() {
            assert(a =~= b);
        } else if a.len() < b.len() {
            let g = (a.len() - 9) / 9;
            assert(9 * g + 8 == a.len() - 1);
            assert(b[9 * g + 8] == 0xFF);
            assert(a[a.len() - 1] == b[a.len() - 1]);
        } else {
            let g = (b.len() - 9) / 9;
            assert(9 * g + 8 == b.len() - 1);
            assert(a[9 * g + 8] == 0xFF);
            assert(a[b.len() - 1] == b[b.len() - 1]);
        }
        0
    }
}

/// What is appended to two different well-grouped strings changes neither
/// their order nor that they differ.
pub proof fn lemma_well_grouped_order(a: Seq<u8>, b: Seq<u8>, x: Seq<u8>, y: Seq<u8>)
    requires
        well_grouped(a),
        well_grouped(b),
        a != b,
    ensures
        bytes_lt(a + x, b + y) == bytes_lt(a, b),
        a + x != b + y,
{
    let d = lemma_well_grouped_diverge(a, b);
    assert((a + x)[d] == a[d]);
    assert((b + y)[d] == b[d]);
    assert forall|j: int| 0 <= j < d implies (a + x)[j] == (b + y)[j] by {
        assert((a + x)[j] == a[j]);
        assert((b + y)[j] == b[j]);
    }
    lemma_lt_decided_at(a, b, d, 0);
    lemma_lt_decided_at(a + x, b + y, d, 0);
}

/// Encodes a user key so that encoded keys order as the user keys do and
/// none is a prefix of another.
pub fn encode_bytes(raw: &[u8]) -> (r: Vec<u8>)
    ensures
        r@ == encode_bytes_spec(raw@),
        well_grouped(r@),
{
    let mut out: Vec<u8> = Vec::new();
    let mut i: usize = 0;
    assert(raw@.skip(0) =~= raw@);
    assert(out@ + encode_bytes_spec(raw@) =~= encode_bytes_spec(raw@));
    while raw.len() - i >= 8
        invariant
            i <= raw.len(),
            out@ + encode_bytes_spec(raw@.skip(i as int)) == encode_bytes_spec(raw@),
        decreases raw.len() - i,
    {
        let ghost before = out@;
        let ghost rest = raw@.skip(i as int);
        let mut j: usize = 0;
        while j < 8
            invariant
                j <= 8,
                i + 8 <= raw.len(),
                rest == raw@.skip(i as int),
                out@ == before + rest.take(j as int),
            decreases 8 - j,
        {
            out.push(raw[i + j]);
            assert(rest.take(j as int).push(rest[j as int]) =~= rest.take(j + 1));
            assert(out@ =~= before + rest.take(j + 1));
            j += 1;
        }
        out.push(0xFF);
        proof {
            assert(rest.skip(8) =~= raw@.skip(i + 8));
            assert(out@ + encode_bytes_spec(raw@.skip(i + 8)) =~= before + encode_bytes_spec(
                rest,
            ));
        }
        i += 8;
    }
    let n = raw.len() - i;
    let ghost before = out@;
    let ghost rest = raw@.skip(i as int);
    let mut j: usize = 0;
    while j < 8
        invariant
            j <= 8,
            n < 8,
            i + n == raw.len(),
            rest == raw@.skip(i as int),
            out@ == before + (rest + zeros(8 - n)).take(j as int),
        decreases 8 - j,
    {
        let ghost padded = rest + zeros(8 - n);
        if j < n {
            out.push(raw[i + j]);
        } else {
            out.push(0);
        }
        assert(padded.take(j as int).push(padded[j as int]) =~= padded.take(j + 1));
        assert(out@ =~= before + padded.take(j + 1));
        j += 1;
    }
    out.push(0xF7 + (n as u8));
    proof {
        let padded = rest + zeros(8 - n);
        assert(padded.take(8) =~= padded);
        assert(out@ =~= before + encode_bytes_spec(rest));
        lemma_encode_well_grouped(raw@);
    }
    out
}

/// Decodes the user key at the start of `enc`. What follows the key's last
/// group is not read.
pub fn decode_bytes(enc: &[u8]) -> (r: Result<Vec<u8>, CodecError>)
    ensures
        match r {
            Ok(raw) => decode_bytes_spec(enc@) == Some(raw@),
            Err(e) => decode_bytes_spec(enc@) is None && e == CodecError::KeyPadding,
        },
{
    let mut out: Vec<u8> = Vec::new();
    let mut pos: usize = 0;
    proof {
        assert(enc@.skip(0) =~= enc@);
        assert forall|rest: Seq<u8>| #[trigger] (out@ + rest) == rest by {
            assert(out@ + rest =~= rest);
        }
    }
    loop
        invariant
            pos <= enc.len(),
            decode_bytes_spec(enc@) == (match decode_bytes_spec(enc@.skip(pos as int)) {
                Some(rest) => Some(out@ + rest),
                None => None,
            }),
        decreases enc.len() - pos,
    {
        let ghost cur = enc@.skip(pos as int);
        if enc.len() - pos < 9 {
            return Err(CodecError::KeyPadding);
        }
        let marker = enc[pos + 8];
        assert(cur[8] == marker);
        if marker == 0xFF {
            let ghost before = out@;
            let mut j: usize = 0;
            while j < 8
                invariant
                    j <= 8,
                    pos + 9 <= enc.len(),
                    cur == enc@.skip(pos as int),
                    out@ == before + cur.take(j as int),
                decreases 8 - j,
            {
                out.push(enc[pos + j]);
                assert(cur.take(j as int).push(cur[j as int]) =~= cur.take(j + 1));
                assert(out@ =~= before + cur.take(j + 1));
                j += 1;
            }
            proof {
                assert(cur.skip(9) =~= enc@.skip(pos + 9));
                assert forall|rest: Seq<u8>| #[trigger] (out@ + rest) == before + (cur.take(8) + rest) by {
                    assert(out@ + rest =~= before + (cur.take(8) + rest));
                }
            }
            pos += 9;
        } else if marker < 0xF7 {
            return Err(CodecError::KeyPadding);
        } else {
            let n: usize = (marker - 0xF7) as usize;
            let mut padded = true;
            let mut j: usize = n;
            while j < 8
                invariant
                    n <= j <= 8,
                    pos + 9 <= enc.len(),
                    cur == enc@.skip(pos as int),
                    padded == (forall|k: int| n <= k < j ==> cur[k] == 0),
                decreases 8 - j,
            {
                if enc[pos + j] != 0 {
                    assert(cur[j as int] != 0);
                    padded = false;
                }
                j += 1;
            }
            if !padded {
                return Err(CodecError::KeyPadding);
            }
            let ghost before = out@;
            let mut j: usize = 0;
            while j < n
                invariant
                    j <= n <= 8,
                    pos + 9 <= enc.len(),
                    cur == enc@.skip(pos as int),
                    out@ == before + cur.take(j as int),
                decreases n - j,
            {
                out.push(enc[pos + j]);
                assert(cur.take(j as int).push(cur[j as int]) =~= cur.take(j + 1));
                assert(out@ =~= before + cur.take(j + 1));
                j += 1;
            }
            return Ok(out);
        }
    }
}


/// The most bytes a variable-width number may take.
pub const MAX_VAR_U64_LEN: u8 = 10;

/// The variable-width encoding of a number: seven bits to a byte, the least
/// significant first, each byte but the last with its high bit set.
pub open spec fn var_bytes(v: nat) -> Seq<u8>
    decreases v,
{
    if v < 128 {
        seq![v as u8]
    } else {
        seq![(v % 128 + 128) as u8] + var_bytes(v / 128)
    }
}

/// The variable-width number that starts at `at`, and where it ends, given
/// that `depth` of its bytes were read before. A number of more than ten
/// bytes, or one over 64 bits, is an overflow.
pub open spec fn var_u64_at(s: Seq<u8>, at: int, depth: int) -> Result<(u64, int), CodecError>
    decreases 10 - depth,
{
    if depth >= 10 {
        Err(CodecError::VarintOverflow)
    } else if at < 0 || at >= s.len() {
        Err(CodecError::UnexpectedEof)
    } else if s[at] < 128 {
        Ok((s[at] as u64, at + 1))
    } else {
        match var_u64_at(s, at + 1, depth + 1) {
            Ok((rest, end)) => if (s[at] - 128) + 128 * rest <= u64::MAX {
                Ok((((s[at] - 128) + 128 * rest) as u64, end))
            } else {
                Err(CodecError::VarintOverflow)
            },
            Err(e) => Err(e),
        }
    }
}

/// The length-prefixed string that starts at `at`, and where it ends. The
/// prefix is twice the length as a variable-width number; an odd prefix
/// stands for a negative length, which no string has.
pub open spec fn compact_bytes_at(s: Seq<u8>, at: int) -> Result<(Seq<u8>, int), CodecError> {
    match var_u64_at(s, at, 0) {
        Ok((prefix, start)) => if prefix % 2 == 1 || start + prefix / 2 > s.len() {
            Err(CodecError::UnexpectedEof)
        } else {
            Ok((s.subrange(start, start + prefix / 2), start + prefix / 2))
        },
        Err(e) => Err(e),
    }
}

/// The length-prefixed encoding of a string.
pub open spec fn compact_bytes(data: Seq<u8>) -> Seq<u8> {
    var_bytes(2 * data.len()) + data
}

/// The number of values that fit in `n` bytes of a variable-width number.
pub open spec fn var_capacity(n: nat) -> nat
    decreases n,
{
    if n == 0 {
        1
    } else {
        128 * var_capacity((n - 1) as nat)
    }
}

proof fn lemma_var_bytes_len_within(v: nat, n: nat)
    requires
        n >= 1,
        v < var_capacity(n),
    ensures
        1 <= var_bytes(v).len() <= n,
    decreases n,
{
    if v >= 128 {
        if n == 1 {
            assert(var_capacity(1) == 128 * var_capacity(0));
        } else {
            lemma_var_bytes_len_within(v / 128, (n - 1) as nat);
        }
    }
}

/// A number of 64 bits takes between one and ten bytes.
pub proof fn lemma_var_bytes_len(v: u64)
    ensures
        1 <= var_bytes(v as nat).len() <= 10,
{
    reveal_with_fuel(var_capacity, 11);
    assert(var_capacity(10) == 1180591620717411303424);
    lemma_var_bytes_len_within(v as nat, 10);
}

/// Reading a variable-width number where it was written gives the number
/// and the place behind it, whatever stands before and behind.
pub proof fn lemma_var_u64_round_trip(before: Seq<u8>, v: u64, after: Seq<u8>, depth: int)
    requires
        0 <= depth,
        depth + var_bytes(v as nat).len() <= 10,
    ensures
        var_u64_at(before + var_bytes(v as nat) + after, before.len() as int, depth) == Ok::<
            (u64, int),
            CodecError,
        >((v, (before.len() + var_bytes(v as nat).len()) as int)),
    decreases v,
{
    let b = before + var_bytes(v as nat) + after;
    let at = before.len() as int;
    assert(b[at] == var_bytes(v as nat)[0]);
    if v >= 128 {
        let first = (v % 128 + 128) as u8;
        let rest = (v / 128) as u64;
        assert(b =~= before.push(first) + var_bytes(rest as nat) + after);
        lemma_var_u64_round_trip(before.push(first), rest, after, depth + 1);
        assert((first - 128) + 128 * rest == v);
    }
}

/// Reading a length-prefixed string where it was written gives the string
/// and the place behind it.
pub proof fn lemma_compact_bytes_round_trip(before: Seq<u8>, data: Seq<u8>, after: Seq<u8>)
    requires
        2 * data.len() <= u64::MAX,
    ensures
        compact_bytes_at(before + compact_bytes(data) + after, before.len() as int) == Ok::<
            (Seq<u8>, int),
            CodecError,
        >((data, (before.len() + compact_bytes(data).len()) as int)),
{
    let prefix = (2 * data.len()) as u64;
    lemma_var_bytes_len(prefix);
    lemma_var_u64_round_trip(before, prefix, data + after, 0);
    let b = before + compact_bytes(data) + after;
    assert(b =~= before + var_bytes(prefix as nat) + (data + after));
    let start = (before.len() + var_bytes(prefix as nat).len()) as int;
    assert(b.subrange(start, start + data.len()) =~= data);
}

fn encode_var_u128(out: &mut Vec<u8>, v: u128)
    ensures
        final(out)@ == old(out)@ + var_bytes(v as nat),
{
    let mut rest: u128 = v;
    while rest >= 128
        invariant
            out@ + var_bytes(rest as nat) == old(out)@ + var_bytes(v as nat),
        decreases rest,
    {
        let ghost before = out@;
        out.push((rest % 128) as u8 + 128);
        assert(out@ + var_bytes((rest / 128) as nat) =~= before + var_bytes(rest as nat));
        rest = rest / 128;
    }
    let ghost before = out@;
    out.push(rest as u8);
    assert(out@ =~= before + var_bytes(rest as nat));
}

/// Appends the variable-width encoding of `v`.
pub fn encode_var_u64(out: &mut Vec<u8>, v: u64)
    ensures
        final(out)@ == old(out)@ + var_bytes(v as nat),
{
    encode_var_u128(out, v as u128)
}

/// Appends the length-prefixed encoding of `data`.
pub fn encode_compact_bytes(out: &mut Vec<u8>, data: &[u8])
    ensures
        final(out)@ == old(out)@ + compact_bytes(data@),
{
    let ghost before = out@;
    encode_var_u128(out, 2 * (data.len() as u128));
    append_bytes(out, data);
    assert(out@ =~= before + compact_bytes(data@));
}

fn decode_var_u64_from(b: &[u8], at: usize, depth: u8) -> (r: Result<(u64, usize), CodecError>)
    requires
        at <= b.len(),
        depth <= 10,
    ensures
        match r {
            Ok((v, end)) => var_u64_at(b@, at as int, depth as int) == Ok::<(u64, int), CodecError>((v, end as int))
                && at < end <= b.len(),
            Err(e) => var_u64_at(b@, at as int, depth as int) == Err::<(u64, int), CodecError>(e),
        },
    decreases 10 - depth,
{
    if depth >= 10 {
        return Err(CodecError::VarintOverflow);
    }
    if at >= b.len() {
        return Err(CodecError::UnexpectedEof);
    }
    let byte = b[at];
    if byte < 128 {
        return Ok((byte as u64, at + 1));
    }
    match decode_var_u64_from(b, at + 1, depth + 1) {
        Ok((rest, end)) => {
            if rest <= 0x01FF_FFFF_FFFF_FFFF {
                Ok((((byte - 128) as u64) + 128 * rest, end))
            } else {
                Err(CodecError::VarintOverflow)
            }
        },
        Err(e) => Err(e),
    }
}

/// Reads the variable-width number that starts at `at`; gives it with the
/// index after its last byte.
pub fn decode_var_u64(b: &[u8], at: usize) -> (r: Result<(u64, usize), CodecError>)
    requires
        at <= b.len(),
    ensures
        match r {
            Ok((v, end)) => var_u64_at(b@, at as int, 0) == Ok::<(u64, int), CodecError>((v, end as int))
                && at < end <= b.len(),
            Err(e) => var_u64_at(b@, at as int, 0) == Err::<(u64, int), CodecError>(e),
        },
{
    decode_var_u64_from(b, at, 0)
}

/// Reads the length-prefixed string that starts at `at`; gives it with the
/// index after its last byte.
pub fn decode_compact_bytes(b: &[u8], at: usize) -> (r: Result<(Vec<u8>, usize), CodecError>)
    requires
        at <= b.len(),
    ensures
        match r {
            Ok((data, end)) => compact_bytes_at(b@, at as int) == Ok::<(Seq<u8>, int), CodecError>((data@, end as int))
                && at < end <= b.len(),
            Err(e) => compact_bytes_at(b@, at as int) == Err::<(Seq<u8>, int), CodecError>(e),
        },
{
    match decode_var_u64(b, at) {
        Ok((prefix, start)) => {
            if prefix % 2 == 1 {
                return Err(CodecError::UnexpectedEof);
            }
            let n = prefix / 2;
            if n > (b.len() - start) as u64 {
                return Err(CodecError::UnexpectedEof);
            }
            let end = start + n as usize;
            let mut out: Vec<u8> = Vec::new();
            let mut i: usize = start;
            while i < end
                invariant
                    start <= i <= end <= b.len(),
                    out@ == b@.subrange(start as int, i as int),
                decreases end - i,
            {
                out.push(b[i]);
                assert(b@.subrange(start as int, i as int).push(b@[i as int]) =~= b@.subrange(
                    start as int,
                    i + 1,
                ));
                i += 1;
            }
            Ok((out, end))
        },
        Err(e) => Err(e),
    }
}

} // verus!
