//! Keys of the store: an encoded user key, with or without the suffix that
//! holds the timestamp of one version of it.

use vstd::prelude::*;
use crate::codec::{
    be_bytes, be_value, bytes_eq, bytes_lt, compare, copy_bytes, decode_bytes, decode_bytes_spec,
    decode_u64, encode_bytes, encode_bytes_spec, encode_u64, lemma_be_order, lemma_be_round_trip,
    lemma_lt_common_prefix, lemma_well_grouped_order, well_grouped, ByteOrder, CodecError,
};
use crate::timestamp::TimeStamp;

verus! {

/// Bytes in the timestamp suffix of a versioned key.
pub const U64_SIZE: usize = 8;

/// The suffix that stands for `ts` in a versioned key: the eight bytes of
/// the complement of `ts`, most significant first, so that a later version
/// sorts before an earlier one.
pub open spec fn ts_suffix(ts: u64) -> Seq<u8> {
    be_bytes(!ts)
}

/// The key of the version of `key` at `ts`.
pub open spec fn append_ts_spec(key: Seq<u8>, ts: u64) -> Seq<u8> {
    key + ts_suffix(ts)
}

/// The timestamp in the suffix of a versioned key; none where the key is
/// shorter than a suffix.
pub open spec fn decode_ts_spec(enc: Seq<u8>) -> Option<u64> {
    if enc.len() < 8 {
        None
    } else {
        Some(!be_value(enc, enc.len() - 8))
    }
}

/// A versioned key without its suffix; none where the key is shorter than a
/// suffix.
pub open spec fn truncate_ts_spec(enc: Seq<u8>) -> Option<Seq<u8>> {
    if enc.len() < 8 {
        None
    } else {
        Some(enc.take(enc.len() - 8))
    }
}

/// Whether the versioned key `enc` is a version of `user_key`.
pub open spec fn is_user_key_eq_spec(enc: Seq<u8>, user_key: Seq<u8>) -> bool {
    enc.len() == user_key.len() + 8 && enc.take(user_key.len() as int) == user_key
}

/// `enc` is the key of a version of some encoded user key.
pub open spec fn is_versioned_key(enc: Seq<u8>) -> bool {
    enc.len() >= 8 && well_grouped(enc.take(enc.len() - 8))
}

/// Taking a versioned key apart gives back the key and the timestamp it was
/// made of.
pub proof fn lemma_ts_round_trip(key: Seq<u8>, ts: u64)
    ensures
        decode_ts_spec(append_ts_spec(key, ts)) == Some(ts),
        truncate_ts_spec(append_ts_spec(key, ts)) == Some(key),
        is_user_key_eq_spec(append_ts_spec(key, ts), key),
{
    let enc = append_ts_spec(key, ts);
    let v = !ts;
    lemma_be_round_trip(v);
    assert(enc.len() == key.len() + 8);
    assert(enc.take(key.len() as int) =~= key);
    assert(forall|i: int| 0 <= i < 8 ==> enc[key.len() + i] == be_bytes(v)[i]);
    assert(be_value(enc, enc.len() - 8) == be_value(be_bytes(v), 0));
    assert(!v == ts) by (bit_vector)
        requires
            v == !ts,
    ;
}

/// A key that is long enough to hold a suffix is the version, at the
/// timestamp in its suffix, of what stands before the suffix.
pub proof fn lemma_versioned_key_parts(enc: Seq<u8>)
    requires
        enc.len() >= 8,
    ensures
        enc == append_ts_spec(enc.take(enc.len() - 8), decode_ts_spec(enc).unwrap()),
        is_user_key_eq_spec(enc, enc.take(enc.len() - 8)),
        forall|k: Seq<u8>| is_user_key_eq_spec(enc, k) <==> k == enc.take(enc.len() - 8),
{
    let at = enc.len() - 8;
    let v = be_value(enc, at);
    let ts = !v;
    crate::codec::lemma_be_value_round_trip(enc, at);
    assert(!ts == v) by (bit_vector)
        requires
            ts == !v,
    ;
    assert(enc.take(at) + enc.subrange(at, at + 8) =~= enc);
    assert(enc.take(at).len() == at);
    assert(enc.take(enc.take(at).len() as int) =~= enc.take(at));
}

/// The versions of one key sort by descending timestamp, and two of them are
/// the same only at the same timestamp.
pub proof fn lemma_append_ts_order(key: Seq<u8>, ts1: u64, ts2: u64)
    ensures
        bytes_lt(append_ts_spec(key, ts1), append_ts_spec(key, ts2)) == (ts1 > ts2),
        (append_ts_spec(key, ts1) == append_ts_spec(key, ts2)) == (ts1 == ts2),
{
    let v1 = !ts1;
    let v2 = !ts2;
    lemma_lt_common_prefix(key, ts_suffix(ts1), ts_suffix(ts2));
    lemma_be_order(v1, v2);
    assert((v1 < v2) == (ts1 > ts2)) by (bit_vector)
        requires
            v1 == !ts1,
            v2 == !ts2,
    ;
    assert((v1 == v2) == (ts1 == ts2)) by (bit_vector)
        requires
            v1 == !ts1,
            v2 == !ts2,
    ;
    lemma_ts_round_trip(key, ts1);
    lemma_ts_round_trip(key, ts2);
}

/// The versions of two different encoded user keys order as the two keys do,
/// whatever their timestamps: the versions of one key lie side by side.
pub proof fn lemma_versions_of_other_key(a: Seq<u8>, b: Seq<u8>, ts1: u64, ts2: u64)
    requires
        well_grouped(a),
        well_grouped(b),
        a != b,
    ensures
        bytes_lt(append_ts_spec(a, ts1), append_ts_spec(b, ts2)) == bytes_lt(a, b),
        append_ts_spec(a, ts1) != append_ts_spec(b, ts2),
{
    lemma_well_grouped_order(a, b, ts_suffix(ts1), ts_suffix(ts2));
}

/// A key of the store. It holds an encoded user key, followed or not by a
/// timestamp suffix.
#[derive(Debug, PartialEq, Eq, PartialOrd, Ord, Hash)]
pub struct Key(Vec<u8>);

impl View for Key {
    type V = Seq<u8>;

    closed spec fn view(&self) -> Seq<u8> {
        self.0@
    }
}

impl Clone for Key {
    fn clone(&self) -> (r: Self)
        ensures
            r@ == self@,
    {
        Key(copy_bytes(self.0.as_slice()))
    }
}

impl Key {
    /// The key of the user key `raw`.
    pub fn from_cocauset(raw: &[u8]) -> (r: Key)
        ensures
            r@ == encode_bytes_spec(raw@),
            well_grouped(r@),
    {
        Key(encode_bytes(raw))
    }

    /// The user key that this key holds; an error where the key does not
    /// start with an encoded user key. A timestamp suffix is not read.
    pub fn to_cocauset(&self) -> (r: Result<Vec<u8>, CodecError>)
        ensures
            match r {
                Ok(raw) => decode_bytes_spec(self@) == Some(raw@),
                Err(e) => decode_bytes_spec(self@) is None && e == CodecError::KeyPadding,
            },
    {
        decode_bytes(self.0.as_slice())
    }

    /// As `to_cocauset`, giving up the key.
    pub fn into_cocauset(self) -> (r: Result<Vec<u8>, CodecError>)
        ensures
            match r {
                Ok(raw) => decode_bytes_spec(self@) == Some(raw@),
                Err(e) => decode_bytes_spec(self@) is None && e == CodecError::KeyPadding,
            },
    {
        decode_bytes(self.0.as_slice())
    }

    /// The key that holds the given bytes as they are.
    pub fn from_encoded(encoded: Vec<u8>) -> (r: Key)
        ensures
            r@ == encoded@,
    {
        Key(encoded)
    }

    /// The key that holds a copy of the given bytes.
    pub fn from_encoded_slice(encoded: &[u8]) -> (r: Key)
        ensures
            r@ == encoded@,
    {
        Key(copy_bytes(encoded))
    }

    /// The bytes of the key.
    pub fn as_encoded(&self) -> (r: &Vec<u8>)
        ensures
            r@ == self@,
    {
        &self.0
    }

    /// The bytes of the key, giving up the key.
    pub fn into_encoded(self) -> (r: Vec<u8>)
        ensures
            r@ == self@,
    {
        self.0
    }

    /// The number of bytes in the key.
    pub fn len(&self) -> (r: usize)
        ensures
            r == self@.len(),
    {
        self.0.len()
    }

    /// The key of the version of this key at `ts`.
    pub fn append_ts(self, ts: TimeStamp) -> (r: Key)
        ensures
            r@ == append_ts_spec(self@, ts@),
    {
        let mut bytes = self.0;
        encode_u64(&mut bytes, !ts.into_inner());
        Key(bytes)
    }

    /// The timestamp in the suffix of this key.
    pub fn decode_ts(&self) -> (r: Result<TimeStamp, CodecError>)
        ensures
            match r {
                Ok(ts) => decode_ts_spec(self@) == Some(ts@),
                Err(e) => decode_ts_spec(self@) is None && e == CodecError::KeyLength,
            },
    {
        Key::decode_ts_from(self.0.as_slice())
    }

    /// This key without its timestamp suffix.
    pub fn truncate_ts(self) -> (r: Result<Key, CodecError>)
        ensures
            match r {
                Ok(k) => truncate_ts_spec(self@) == Some(k@),
                Err(e) => truncate_ts_spec(self@) is None && e == CodecError::KeyLength,
            },
    {
        let mut bytes = self.0;
        let len = bytes.len();
        if len < U64_SIZE {
            return Err(CodecError::KeyLength);
        }
        bytes.truncate(len - U64_SIZE);
        assert(bytes@ =~= self.0@.take(len - 8));
        Ok(Key(bytes))
    }

    /// The user part and the timestamp of a versioned key.
    pub fn split_on_ts_for(key: &[u8]) -> (r: Result<(Vec<u8>, TimeStamp), CodecError>)
        ensures
            match r {
                Ok((user, ts)) => truncate_ts_spec(key@) == Some(user@) && decode_ts_spec(key@)
                    == Some(ts@),
                Err(e) => key@.len() < 8 && e == CodecError::KeyLength,
            },
    {
        let len = key.len();
        if len < U64_SIZE {
            return Err(CodecError::KeyLength);
        }
        let ts = !decode_u64(key, len - U64_SIZE);
        let mut user: Vec<u8> = Vec::new();
        let mut i: usize = 0;
        while i < len - U64_SIZE
            invariant
                i <= len - 8,
                len == key.len(),
                user@ == key@.take(i as int),
            decreases len - i,
        {
            user.push(key[i]);
            assert(key@.take(i as int).push(key@[i as int]) =~= key@.take(i + 1));
            i += 1;
        }
        Ok((user, TimeStamp::new(ts)))
    }

    /// The timestamp in the suffix of the versioned key `key`.
    pub fn decode_ts_from(key: &[u8]) -> (r: Result<TimeStamp, CodecError>)
        ensures
            match r {
                Ok(ts) => decode_ts_spec(key@) == Some(ts@),
                Err(e) => decode_ts_spec(key@) is None && e == CodecError::KeyLength,
            },
    {
        let len = key.len();
        if len < U64_SIZE {
            return Err(CodecError::KeyLength);
        }
        let v = decode_u64(key, len - U64_SIZE);
        Ok(TimeStamp::new(!v))
    }

    /// Whether the versioned key `ts_encoded_key` is a version of
    /// `user_key`: the two are the same but for the timestamp suffix.
    pub fn is_user_key_eq(ts_encoded_key: &[u8], user_key: &[u8]) -> (r: bool)
        ensures
            r == is_user_key_eq_spec(ts_encoded_key@, user_key@),
    {
        let n = user_key.len();
        if ts_encoded_key.len() < U64_SIZE || ts_encoded_key.len() - U64_SIZE != n {
            return false;
        }
        let mut i: usize = 0;
        while i < n
            invariant
                i <= n,
                n == user_key.len(),
                ts_encoded_key.len() == n + 8,
                forall|j: int| 0 <= j < i ==> ts_encoded_key@[j] == user_key@[j],
            decreases n - i,
        {
            if ts_encoded_key[i] != user_key[i] {
                assert(ts_encoded_key@.take(n as int)[i as int] != user_key@[i as int]);
                return false;
            }
            i += 1;
        }
        assert(ts_encoded_key@.take(n as int) =~= user_key@);
        true
    }

    /// Whether this key is the key of the user key `raw`.
    pub fn is_encoded_from(&self, raw: &[u8]) -> (r: bool)
        ensures
            r == (self@ == encode_bytes_spec(raw@)),
    {
        let encoded = encode_bytes(raw);
        bytes_eq(self.0.as_slice(), encoded.as_slice())
    }

    /// Whether the two keys hold the same bytes.
    pub fn same(&self, other: &Key) -> (r: bool)
        ensures
            r == (self@ == other@),
    {
        bytes_eq(self.0.as_slice(), other.0.as_slice())
    }

    /// How this key stands to `other` in the order of the store.
    pub fn order(&self, other: &Key) -> (r: ByteOrder)
        ensures
            r is Less <==> bytes_lt(self@, other@),
            r is Equal <==> self@ == other@,
            r is Greater <==> bytes_lt(other@, self@),
    {
        compare(self.0.as_slice(), other.0.as_slice())
    }
}

} // verus!
