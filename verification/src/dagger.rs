//! Daggers: the locks that pending transactions hold on keys.

use vstd::prelude::*;
use crate::codec::{
    append_bytes, be_bytes, be_value, compact_bytes, compact_bytes_at, copy_bytes,
    decode_compact_bytes, decode_u64, decode_var_u64, encode_compact_bytes, encode_u64,
    encode_var_u64, var_bytes, var_u64_at, CodecError,
};
use crate::error::Error;
use crate::timestamp::TimeStamp;
use crate::write::{copy_opt_bytes, opt_bytes_view, SHORT_VALUE_PREFIX};

verus! {

/// The byte that stands for `DaggerType::Put`.
pub const DAGGER_FLAG_PUT: u8 = 80;

/// The byte that stands for `DaggerType::Delete`.
pub const DAGGER_FLAG_DELETE: u8 = 68;

/// The byte that stands for `DaggerType::Dagger`.
pub const DAGGER_FLAG_DAGGER: u8 = 76;

/// The byte that stands for `DaggerType::Pessimistic`.
pub const DAGGER_FLAG_PESSIMISTIC: u8 = 83;

/// The byte that introduces the timestamp of a pessimistic dagger.
pub const FOR_UPDATE_TS_PREFIX: u8 = 102;

/// The byte that introduces the size of the transaction.
pub const TXN_SIZE_PREFIX: u8 = 116;

/// The byte that introduces the least commit timestamp.
pub const MIN_COMMIT_TS_PREFIX: u8 = 99;

/// The byte that introduces the secondary keys of an async-commit dagger.
pub const ASYNC_COMMIT_PREFIX: u8 = 97;

/// The byte that introduces the rollbacks recorded on a dagger.
pub const ROLLBACK_TS_PREFIX: u8 = 114;

/// What a transaction is about to do with the key it holds a dagger on.
#[derive(Clone, Copy, Debug, PartialEq, Eq, Structural)]
pub enum DaggerType {
    Put,
    Delete,
    /// The key is locked and left as it is.
    Dagger,
    /// The key is locked ahead of the prewrite, at a timestamp of its own.
    Pessimistic,
}

/// The dagger type that the byte `b` stands for.
pub open spec fn dagger_type_of(b: u8) -> Option<DaggerType> {
    if b == DAGGER_FLAG_PUT {
        Some(DaggerType::Put)
    } else if b == DAGGER_FLAG_DELETE {
        Some(DaggerType::Delete)
    } else if b == DAGGER_FLAG_DAGGER {
        Some(DaggerType::Dagger)
    } else if b == DAGGER_FLAG_PESSIMISTIC {
        Some(DaggerType::Pessimistic)
    } else {
        None
    }
}

/// The byte that stands for the dagger type `t`.
pub open spec fn dagger_type_flag(t: DaggerType) -> u8 {
    match t {
        DaggerType::Put => DAGGER_FLAG_PUT,
        DaggerType::Delete => DAGGER_FLAG_DELETE,
        DaggerType::Dagger => DAGGER_FLAG_DAGGER,
        DaggerType::Pessimistic => DAGGER_FLAG_PESSIMISTIC,
    }
}

impl DaggerType {
    pub fn from_u8(b: u8) -> (r: Option<DaggerType>)
        ensures
            r == dagger_type_of(b),
    {
        if b == DAGGER_FLAG_PUT {
            Some(DaggerType::Put)
        } else if b == DAGGER_FLAG_DELETE {
            Some(DaggerType::Delete)
        } else if b == DAGGER_FLAG_DAGGER {
            Some(DaggerType::Dagger)
        } else if b == DAGGER_FLAG_PESSIMISTIC {
            Some(DaggerType::Pessimistic)
        } else {
            None
        }
    }

    pub fn to_u8(self) -> (r: u8)
        ensures
            r == dagger_type_flag(self),
            dagger_type_of(r) == Some(self),
    {
        match self {
            DaggerType::Put => DAGGER_FLAG_PUT,
            DaggerType::Delete => DAGGER_FLAG_DELETE,
            DaggerType::Dagger => DAGGER_FLAG_DAGGER,
            DaggerType::Pessimistic => DAGGER_FLAG_PESSIMISTIC,
        }
    }
}

/// What a list of byte strings holds.
pub open spec fn byte_strings_view(v: Vec<Vec<u8>>) -> Seq<Seq<u8>> {
    Seq::new(v@.len(), |i: int| v@[i]@)
}

/// A copy of a list of byte strings.
pub fn copy_byte_strings(v: &Vec<Vec<u8>>) -> (r: Vec<Vec<u8>>)
    ensures
        byte_strings_view(r) == byte_strings_view(*v),
{
    let mut out: Vec<Vec<u8>> = Vec::new();
    let mut i: usize = 0;
    while i < v.len()
        invariant
            i <= v.len(),
            out@.len() == i,
            forall|j: int| 0 <= j < i ==> out@[j]@ == v@[j]@,
        decreases v.len() - i,
    {
        out.push(copy_bytes(v[i].as_slice()));
        i += 1;
    }
    assert(byte_strings_view(out) =~= byte_strings_view(*v));
    out
}

/// A copy of a list of timestamps.
pub fn copy_timestamps(v: &Vec<TimeStamp>) -> (r: Vec<TimeStamp>)
    ensures
        r@ == v@,
{
    let mut out: Vec<TimeStamp> = Vec::new();
    let mut i: usize = 0;
    while i < v.len()
        invariant
            i <= v.len(),
            out@ == v@.take(i as int),
        decreases v.len() - i,
    {
        out.push(v[i]);
        assert(v@.take(i as int).push(v@[i as int]) =~= v@.take(i + 1));
        i += 1;
    }
    assert(v@.take(v.len() as int) =~= v@);
    out
}

/// The dagger that a pending transaction holds on a key. While it stands,
/// reads and writes of other transactions that it conflicts with are turned
/// away. It is made at prewrite, or when a pessimistic transaction locks the
/// key, and removed at commit or rollback.
#[derive(Debug, PartialEq, Eq)]
pub struct Dagger {
    pub dagger_type: DaggerType,
    /// The user key of the transaction's primary dagger.
    pub primary: Vec<u8>,
    /// The start timestamp of the transaction.
    pub ts: TimeStamp,
    /// How long the dagger lives, in milliseconds.
    pub ttl: u64,
    pub short_value: Option<Vec<u8>>,
    /// The timestamp at which a pessimistic transaction locked the key; zero
    /// for an optimistic transaction.
    pub for_update_ts: TimeStamp,
    /// How many keys the transaction involves.
    pub solitontxn_size: u64,
    /// The transaction commits at no timestamp before this one.
    pub min_commit_ts: TimeStamp,
    /// Whether the transaction commits by async commit.
    pub use_async_commit: bool,
    /// On the primary dagger of an async-commit transaction, the user keys
    /// of all its other daggers.
    pub secondaries: Vec<Vec<u8>>,
    /// The start timestamps of transactions rolled back at this key while
    /// the dagger stood, which the commit of the dagger must not hide.
    pub rollback_ts: Vec<TimeStamp>,
}

/// What a dagger holds.
pub struct DaggerView {
    pub dagger_type: DaggerType,
    pub primary: Seq<u8>,
    pub ts: TimeStamp,
    pub ttl: u64,
    pub short_value: Option<Seq<u8>>,
    pub for_update_ts: TimeStamp,
    pub solitontxn_size: u64,
    pub min_commit_ts: TimeStamp,
    pub use_async_commit: bool,
    pub secondaries: Seq<Seq<u8>>,
    pub rollback_ts: Seq<TimeStamp>,
}

impl View for Dagger {
    type V = DaggerView;

    open spec fn view(&self) -> DaggerView {
        DaggerView {
            dagger_type: self.dagger_type,
            primary: self.primary@,
            ts: self.ts,
            ttl: self.ttl,
            short_value: opt_bytes_view(self.short_value),
            for_update_ts: self.for_update_ts,
            solitontxn_size: self.solitontxn_size,
            min_commit_ts: self.min_commit_ts,
            use_async_commit: self.use_async_commit,
            secondaries: byte_strings_view(self.secondaries),
            rollback_ts: self.rollback_ts@,
        }
    }
}

impl Clone for Dagger {
    fn clone(&self) -> (r: Self)
        ensures
            r@ == self@,
    {
        Dagger {
            dagger_type: self.dagger_type,
            primary: copy_bytes(self.primary.as_slice()),
            ts: self.ts,
            ttl: self.ttl,
            short_value: copy_opt_bytes(&self.short_value),
            for_update_ts: self.for_update_ts,
            solitontxn_size: self.solitontxn_size,
            min_commit_ts: self.min_commit_ts,
            use_async_commit: self.use_async_commit,
            secondaries: copy_byte_strings(&self.secondaries),
            rollback_ts: copy_timestamps(&self.rollback_ts),
        }
    }
}

/// The length-prefixed encodings of the strings of `xs`, one after another.
pub open spec fn compact_list_bytes(xs: Seq<Seq<u8>>) -> Seq<u8>
    decreases xs.len(),
{
    if xs.len() == 0 {
        Seq::empty()
    } else {
        compact_list_bytes(xs.drop_last()) + compact_bytes(xs.last())
    }
}

/// The eight-byte encodings of the timestamps of `xs`, one after another.
pub open spec fn ts_list_bytes(xs: Seq<TimeStamp>) -> Seq<u8>
    decreases xs.len(),
{
    if xs.len() == 0 {
        Seq::empty()
    } else {
        ts_list_bytes(xs.drop_last()) + be_bytes(xs.last()@)
    }
}

/// The `n` length-prefixed strings that start at `at`, and where they end.
pub open spec fn compact_list_at(b: Seq<u8>, at: int, n: nat) -> Result<
    (Seq<Seq<u8>>, int),
    CodecError,
>
    decreases n,
{
    if n == 0 {
        Ok((Seq::empty(), at))
    } else {
        match compact_bytes_at(b, at) {
            Ok((x, next)) => match compact_list_at(b, next, (n - 1) as nat) {
                Ok((xs, end)) => Ok((seq![x] + xs, end)),
                Err(e) => Err(e),
            },
            Err(e) => Err(e),
        }
    }
}

/// The `n` timestamps of eight bytes each that start at `at`; none where
/// `b` ends before them.
pub open spec fn ts_list_at(b: Seq<u8>, at: int, n: nat) -> Option<Seq<TimeStamp>> {
    if at + 8 * n > b.len() {
        None
    } else {
        Some(Seq::new(n, |i: int| TimeStamp(be_value(b, at + 8 * i))))
    }
}

impl DaggerView {
    /// A dagger that is not of an async-commit transaction and has no
    /// rollback recorded on it.
    pub open spec fn plain(
        dagger_type: DaggerType,
        primary: Seq<u8>,
        ts: TimeStamp,
        ttl: u64,
        short_value: Option<Seq<u8>>,
        for_update_ts: TimeStamp,
        solitontxn_size: u64,
        min_commit_ts: TimeStamp,
    ) -> DaggerView {
        DaggerView {
            dagger_type,
            primary,
            ts,
            ttl,
            short_value,
            for_update_ts,
            solitontxn_size,
            min_commit_ts,
            use_async_commit: false,
            secondaries: Seq::empty(),
            rollback_ts: Seq::empty(),
        }
    }

    /// Whether the dagger belongs to a pessimistic transaction.
    pub open spec fn is_pessimistic_solitontxn(self) -> bool {
        self.for_update_ts@ != 0
    }

    /// The first part of the stored bytes: the type, the primary key with
    /// its length, and the start timestamp and the time to live as
    /// variable-width numbers.
    pub open spec fn head_bytes(self) -> Seq<u8> {
        seq![dagger_type_flag(self.dagger_type)] + compact_bytes(self.primary) + var_bytes(
            self.ts@ as nat,
        ) + var_bytes(self.ttl as nat)
    }

    /// The bytes of the short value, where there is one: the prefix, the
    /// length in one byte, and the value.
    pub open spec fn short_value_bytes(self) -> Seq<u8> {
        match self.short_value {
            Some(v) => seq![SHORT_VALUE_PREFIX, (v.len() % 256) as u8] + v,
            None => Seq::empty(),
        }
    }

    /// The head and the short value.
    pub open spec fn base_bytes(self) -> Seq<u8> {
        self.head_bytes() + self.short_value_bytes()
    }

    /// The bytes of the timestamp of the pessimistic dagger, where it is
    /// not zero.
    pub open spec fn for_update_ts_bytes(self) -> Seq<u8> {
        if self.for_update_ts@ != 0 {
            seq![FOR_UPDATE_TS_PREFIX] + be_bytes(self.for_update_ts@)
        } else {
            Seq::empty()
        }
    }

    /// The bytes of the transaction's size, where it is not zero.
    pub open spec fn size_bytes(self) -> Seq<u8> {
        if self.solitontxn_size > 0 {
            seq![TXN_SIZE_PREFIX] + be_bytes(self.solitontxn_size)
        } else {
            Seq::empty()
        }
    }

    /// The bytes of the least commit timestamp, where it is not zero.
    pub open spec fn min_commit_ts_bytes(self) -> Seq<u8> {
        if self.min_commit_ts@ != 0 {
            seq![MIN_COMMIT_TS_PREFIX] + be_bytes(self.min_commit_ts@)
        } else {
            Seq::empty()
        }
    }

    /// The second part: the timestamp of the pessimistic dagger, the
    /// transaction's size and the least commit timestamp, each behind its
    /// prefix and only where it is not zero.
    pub open spec fn number_bytes(self) -> Seq<u8> {
        self.for_update_ts_bytes() + self.size_bytes() + self.min_commit_ts_bytes()
    }

    /// The third part, of an async-commit dagger only: the prefix, the
    /// number of secondary keys, and the keys with their lengths.
    pub open spec fn async_commit_bytes(self) -> Seq<u8> {
        if self.use_async_commit {
            seq![ASYNC_COMMIT_PREFIX] + var_bytes(self.secondaries.len()) + compact_list_bytes(
                self.secondaries,
            )
        } else {
            Seq::empty()
        }
    }

    /// The last part, where rollbacks are recorded on the dagger: the
    /// prefix, their number, and their timestamps.
    pub open spec fn rollback_bytes(self) -> Seq<u8> {
        if self.rollback_ts.len() > 0 {
            seq![ROLLBACK_TS_PREFIX] + var_bytes(self.rollback_ts.len()) + ts_list_bytes(
                self.rollback_ts,
            )
        } else {
            Seq::empty()
        }
    }

    /// The bytes under which the dagger is stored.
    pub open spec fn to_bytes(self) -> Seq<u8> {
        self.base_bytes() + self.number_bytes() + self.async_commit_bytes() + self.rollback_bytes()
    }
}

/// The dagger read from the fields of `b` from `at` on, given what was read
/// before. Reading ends at the end of `b`; a field that is cut short, or a
/// byte that introduces no known field, makes the dagger malformed.
pub open spec fn parse_dagger_fields(b: Seq<u8>, at: int, acc: DaggerView) -> Option<DaggerView>
    decreases b.len() - at,
{
    if at < 0 || at >= b.len() {
        Some(acc)
    } else if b[at] == SHORT_VALUE_PREFIX {
        if at + 1 >= b.len() || at + 2 + b[at + 1] > b.len() {
            None
        } else {
            parse_dagger_fields(
                b,
                at + 2 + b[at + 1],
                DaggerView { short_value: Some(b.subrange(at + 2, at + 2 + b[at + 1])), ..acc },
            )
        }
    } else if b[at] == FOR_UPDATE_TS_PREFIX {
        if at + 9 > b.len() {
            None
        } else {
            parse_dagger_fields(
                b,
                at + 9,
                DaggerView { for_update_ts: TimeStamp(be_value(b, at + 1)), ..acc },
            )
        }
    } else if b[at] == TXN_SIZE_PREFIX {
        if at + 9 > b.len() {
            None
        } else {
            parse_dagger_fields(
                b,
                at + 9,
                DaggerView { solitontxn_size: be_value(b, at + 1), ..acc },
            )
        }
    } else if b[at] == MIN_COMMIT_TS_PREFIX {
        if at + 9 > b.len() {
            None
        } else {
            parse_dagger_fields(
                b,
                at + 9,
                DaggerView { min_commit_ts: TimeStamp(be_value(b, at + 1)), ..acc },
            )
        }
    } else if b[at] == ASYNC_COMMIT_PREFIX {
        match var_u64_at(b, at + 1, 0) {
            Ok((n, start)) => match compact_list_at(b, start, n as nat) {
                Ok((secondaries, end)) => if end <= at || end > b.len() {
                    None
                } else {
                    parse_dagger_fields(
                        b,
                        end,
                        DaggerView { use_async_commit: true, secondaries, ..acc },
                    )
                },
                Err(_) => None,
            },
            Err(_) => None,
        }
    } else if b[at] == ROLLBACK_TS_PREFIX {
        match var_u64_at(b, at + 1, 0) {
            Ok((n, start)) => match ts_list_at(b, start, n as nat) {
                Some(rollback_ts) => if start + 8 * n <= at {
                    None
                } else {
                    parse_dagger_fields(b, start + 8 * n, DaggerView { rollback_ts, ..acc })
                },
                None => None,
            },
            Err(_) => None,
        }
    } else {
        None
    }
}

/// The dagger that the bytes `b` hold; none where they are malformed. The
/// time to live may be left out at the end, and is then zero.
pub open spec fn parse_dagger_spec(b: Seq<u8>) -> Option<DaggerView> {
    if b.len() == 0 {
        None
    } else {
        match (dagger_type_of(b[0]), compact_bytes_at(b, 1)) {
            (Some(dagger_type), Ok((primary, p1))) => match var_u64_at(b, p1, 0) {
                Ok((ts, p2)) => {
                    let base = DaggerView::plain(
                        dagger_type,
                        primary,
                        TimeStamp(ts),
                        0,
                        None,
                        TimeStamp(0),
                        0,
                        TimeStamp(0),
                    );
                    if p2 >= b.len() {
                        Some(base)
                    } else {
                        match var_u64_at(b, p2, 0) {
                            Ok((ttl, p3)) => parse_dagger_fields(
                                b,
                                p3,
                                DaggerView { ttl, ..base },
                            ),
                            Err(_) => None,
                        }
                    }
                },
                Err(_) => None,
            },
            _ => None,
        }
    }
}

/// The encodings of a list of strings begin with that of the first.
pub proof fn lemma_compact_list_bytes_first(x: Seq<u8>, xs: Seq<Seq<u8>>)
    ensures
        compact_list_bytes(seq![x] + xs) == compact_bytes(x) + compact_list_bytes(xs),
    decreases xs.len(),
{
    let all = seq![x] + xs;
    assert(all.len() == xs.len() + 1);
    if xs.len() == 0 {
        assert(all.drop_last() =~= Seq::<Seq<u8>>::empty());
        assert(all.last() == x);
        assert(compact_list_bytes(all.drop_last()) =~= Seq::<u8>::empty());
        assert(compact_list_bytes(xs) =~= Seq::<u8>::empty());
        assert(compact_list_bytes(all) == compact_list_bytes(all.drop_last()) + compact_bytes(
            all.last(),
        ));
        assert(compact_list_bytes(all) =~= compact_bytes(x) + compact_list_bytes(xs));
    } else {
        assert(all.drop_last() =~= seq![x] + xs.drop_last());
        assert(all.last() == xs.last());
        lemma_compact_list_bytes_first(x, xs.drop_last());
        assert(compact_list_bytes(all) == compact_list_bytes(all.drop_last()) + compact_bytes(
            all.last(),
        ));
        assert(compact_list_bytes(xs) == compact_list_bytes(xs.drop_last()) + compact_bytes(
            xs.last(),
        ));
        assert(compact_list_bytes(all) =~= compact_bytes(x) + compact_list_bytes(xs));
    }
}

/// Reading a list of strings where it was written gives the list and the
/// place behind it.
pub proof fn lemma_compact_list_round_trip(before: Seq<u8>, xs: Seq<Seq<u8>>, after: Seq<u8>)
    requires
        forall|i: int| 0 <= i < xs.len() ==> 2 * (#[trigger] xs[i]).len() <= u64::MAX,
    ensures
        compact_list_at(before + compact_list_bytes(xs) + after, before.len() as int, xs.len())
            == Ok::<(Seq<Seq<u8>>, int), CodecError>(
            (xs, (before.len() + compact_list_bytes(xs).len()) as int),
        ),
    decreases xs.len(),
{
    let b = before + compact_list_bytes(xs) + after;
    let at = before.len() as int;
    if xs.len() > 0 {
        let x = xs[0];
        let rest = xs.subrange(1, xs.len() as int);
        assert(xs =~= seq![x] + rest);
        lemma_compact_list_bytes_first(x, rest);
        let tail = compact_list_bytes(rest) + after;
        assert(b =~= before + compact_bytes(x) + tail);
        crate::codec::lemma_compact_bytes_round_trip(before, x, tail);
        let next = before + compact_bytes(x);
        assert(b =~= next + compact_list_bytes(rest) + after);
        assert forall|i: int| 0 <= i < rest.len() implies 2 * (#[trigger] rest[i]).len()
            <= u64::MAX by {
            assert(rest[i] == xs[i + 1]);
        }
        lemma_compact_list_round_trip(next, rest, after);
        assert(compact_bytes_at(b, at) == Ok::<(Seq<u8>, int), CodecError>((x, next.len() as int)));
        assert((xs.len() - 1) as nat == rest.len());
        assert(compact_list_at(b, next.len() as int, rest.len()) == Ok::<
            (Seq<Seq<u8>>, int),
            CodecError,
        >((rest, (next.len() + compact_list_bytes(rest).len()) as int)));
        assert(compact_list_bytes(xs).len() == compact_bytes(x).len() + compact_list_bytes(
            rest,
        ).len());
    } else {
        assert(xs =~= Seq::<Seq<u8>>::empty());
        assert(compact_list_bytes(xs) =~= Seq::<u8>::empty());
    }
}

/// The encodings of a list of timestamps take eight bytes each, and each
/// stands at its place.
pub proof fn lemma_ts_list_bytes(xs: Seq<TimeStamp>)
    ensures
        ts_list_bytes(xs).len() == 8 * xs.len(),
        forall|i: int, j: int|
            0 <= i < xs.len() && 0 <= j < 8 ==> #[trigger] ts_list_bytes(xs)[8 * i + j] == be_bytes(
                xs[i]@,
            )[j],
    decreases xs.len(),
{
    if xs.len() > 0 {
        lemma_ts_list_bytes(xs.drop_last());
        let front = ts_list_bytes(xs.drop_last());
        assert forall|i: int, j: int| 0 <= i < xs.len() && 0 <= j < 8 implies #[trigger] ts_list_bytes(
            xs,
        )[8 * i + j] == be_bytes(xs[i]@)[j] by {
            if i < xs.len() - 1 {
                assert(ts_list_bytes(xs)[8 * i + j] == front[8 * i + j]);
                assert(xs.drop_last()[i] == xs[i]);
            } else {
                assert(ts_list_bytes(xs)[8 * i + j] == be_bytes(xs.last()@)[8 * i + j - front.len()]);
            }
        }
    }
}

/// Reading a list of timestamps where it was written gives the list.
pub proof fn lemma_ts_list_round_trip(before: Seq<u8>, xs: Seq<TimeStamp>, after: Seq<u8>)
    ensures
        ts_list_at(before + ts_list_bytes(xs) + after, before.len() as int, xs.len()) == Some(xs),
{
    let b = before + ts_list_bytes(xs) + after;
    let at = before.len() as int;
    lemma_ts_list_bytes(xs);
    let read = Seq::new(xs.len(), |i: int| TimeStamp(be_value(b, at + 8 * i)));
    assert forall|i: int| 0 <= i < xs.len() implies read[i] == xs[i] by {
        crate::codec::lemma_be_round_trip(xs[i]@);
        assert forall|j: int| 0 <= j < 8 implies b[at + 8 * i + j] == be_bytes(xs[i]@)[j] by {
            assert(b[at + 8 * i + j] == ts_list_bytes(xs)[8 * i + j]);
        }
        assert(be_value(b, at + 8 * i) == be_value(be_bytes(xs[i]@), 0));
    }
    assert(read =~= xs);
}

impl DaggerView {
    /// Whether the dagger can be stored and read back: its strings are
    /// short enough for their lengths to be written, its lists for their
    /// numbers, its short value for the dagger, and only an async-commit
    /// dagger has secondary keys.
    pub open spec fn storable(self) -> bool {
        &&& 2 * self.primary.len() <= u64::MAX
        &&& (self.short_value matches Some(v) ==> v.len() <= 255)
        &&& self.secondaries.len() <= u64::MAX
        &&& self.rollback_ts.len() <= u64::MAX
        &&& forall|i: int|
            0 <= i < self.secondaries.len() ==> 2 * (#[trigger] self.secondaries[i]).len()
                <= u64::MAX
        &&& (!self.use_async_commit ==> self.secondaries.len() == 0)
    }
}

#[verifier::rlimit(60)]
#[verifier::spinoff_prover]
proof fn lemma_parse_rollbacks(before: Seq<u8>, d: DaggerView)
    requires
        d.rollback_ts.len() <= u64::MAX,
    ensures
        parse_dagger_fields(
            before + d.rollback_bytes(),
            before.len() as int,
            DaggerView { rollback_ts: Seq::empty(), ..d },
        ) == Some(d),
{
    let b = before + d.rollback_bytes();
    let at = before.len() as int;
    if d.rollback_ts.len() > 0 {
        let n = d.rollback_ts.len() as u64;
        let head = before.push(ROLLBACK_TS_PREFIX);
        let list = ts_list_bytes(d.rollback_ts);
        assert(b =~= head + var_bytes(n as nat) + list);
        assert(b[at] == ROLLBACK_TS_PREFIX);
        crate::codec::lemma_var_bytes_len(n);
        crate::codec::lemma_var_u64_round_trip(head, n, list, 0);
        let start = head + var_bytes(n as nat);
        assert(b =~= start + list + Seq::<u8>::empty());
        lemma_ts_list_round_trip(start, d.rollback_ts, Seq::empty());
        lemma_ts_list_bytes(d.rollback_ts);
        assert(start.len() + 8 * n == b.len());
        reveal_with_fuel(parse_dagger_fields, 2);
    } else {
        assert(b =~= before);
        assert(d.rollback_ts =~= Seq::empty());
    }
}

#[verifier::rlimit(60)]
#[verifier::spinoff_prover]
proof fn lemma_parse_async_commit(before: Seq<u8>, d: DaggerView)
    requires
        d.storable(),
    ensures
        parse_dagger_fields(
            before + d.async_commit_bytes() + d.rollback_bytes(),
            before.len() as int,
            DaggerView {
                use_async_commit: false,
                secondaries: Seq::empty(),
                rollback_ts: Seq::empty(),
                ..d
            },
        ) == Some(d),
{
    let b = before + d.async_commit_bytes() + d.rollback_bytes();
    let at = before.len() as int;
    if d.use_async_commit {
        let n = d.secondaries.len() as u64;
        let head = before.push(ASYNC_COMMIT_PREFIX);
        let list = compact_list_bytes(d.secondaries);
        assert(b =~= head + var_bytes(n as nat) + (list + d.rollback_bytes()));
        assert(b[at] == ASYNC_COMMIT_PREFIX);
        crate::codec::lemma_var_bytes_len(n);
        crate::codec::lemma_var_u64_round_trip(head, n, list + d.rollback_bytes(), 0);
        let start = head + var_bytes(n as nat);
        assert(b =~= start + list + d.rollback_bytes());
        lemma_compact_list_round_trip(start, d.secondaries, d.rollback_bytes());
        let next = start + list;
        assert(b =~= next + d.rollback_bytes());
        lemma_parse_rollbacks(next, d);
    } else {
        assert(b =~= before + d.rollback_bytes());
        assert(d.secondaries =~= Seq::empty());
        lemma_parse_rollbacks(before, d);
        if d.rollback_ts.len() > 0 {
            assert(b[at] == ROLLBACK_TS_PREFIX);
        }
    }
}

/// The dagger with nothing set of what is stored behind the numbers.
pub open spec fn without_lists(d: DaggerView) -> DaggerView {
    DaggerView {
        use_async_commit: false,
        secondaries: Seq::empty(),
        rollback_ts: Seq::empty(),
        ..d
    }
}

#[verifier::rlimit(60)]
#[verifier::spinoff_prover]
proof fn lemma_parse_min_commit_ts(before: Seq<u8>, d: DaggerView)
    requires
        d.storable(),
    ensures
        parse_dagger_fields(
            before + d.min_commit_ts_bytes() + d.async_commit_bytes() + d.rollback_bytes(),
            before.len() as int,
            DaggerView { min_commit_ts: TimeStamp(0), ..without_lists(d) },
        ) == Some(d),
{
    let b = before + d.min_commit_ts_bytes() + d.async_commit_bytes() + d.rollback_bytes();
    let at = before.len() as int;
    if d.min_commit_ts@ != 0 {
        let next = before + d.min_commit_ts_bytes();
        assert(b =~= next + d.async_commit_bytes() + d.rollback_bytes());
        assert(b[at] == MIN_COMMIT_TS_PREFIX);
        crate::codec::lemma_be_round_trip(d.min_commit_ts@);
        assert(forall|i: int| 0 <= i < 8 ==> b[at + 1 + i] == be_bytes(d.min_commit_ts@)[i]);
        assert(be_value(b, at + 1) == be_value(be_bytes(d.min_commit_ts@), 0));
        lemma_parse_async_commit(next, d);
    } else {
        assert(b =~= before + d.async_commit_bytes() + d.rollback_bytes());
        lemma_parse_async_commit(before, d);
    }
}

#[verifier::rlimit(60)]
#[verifier::spinoff_prover]
proof fn lemma_parse_size(before: Seq<u8>, d: DaggerView)
    requires
        d.storable(),
    ensures
        parse_dagger_fields(
            before + d.size_bytes() + d.min_commit_ts_bytes() + d.async_commit_bytes()
                + d.rollback_bytes(),
            before.len() as int,
            DaggerView { solitontxn_size: 0, min_commit_ts: TimeStamp(0), ..without_lists(d) },
        ) == Some(d),
{
    let b = before + d.size_bytes() + d.min_commit_ts_bytes() + d.async_commit_bytes()
        + d.rollback_bytes();
    let at = before.len() as int;
    if d.solitontxn_size > 0 {
        let next = before + d.size_bytes();
        assert(b =~= next + d.min_commit_ts_bytes() + d.async_commit_bytes() + d.rollback_bytes());
        assert(b[at] == TXN_SIZE_PREFIX);
        crate::codec::lemma_be_round_trip(d.solitontxn_size);
        assert(forall|i: int| 0 <= i < 8 ==> b[at + 1 + i] == be_bytes(d.solitontxn_size)[i]);
        assert(be_value(b, at + 1) == be_value(be_bytes(d.solitontxn_size), 0));
        lemma_parse_min_commit_ts(next, d);
    } else {
        assert(b =~= before + d.min_commit_ts_bytes() + d.async_commit_bytes()
            + d.rollback_bytes());
        lemma_parse_min_commit_ts(before, d);
    }
}

#[verifier::rlimit(60)]
#[verifier::spinoff_prover]
proof fn lemma_parse_for_update_ts(before: Seq<u8>, d: DaggerView)
    requires
        d.storable(),
    ensures
        parse_dagger_fields(
            before + d.number_bytes() + d.async_commit_bytes() + d.rollback_bytes(),
            before.len() as int,
            DaggerView {
                for_update_ts: TimeStamp(0),
                solitontxn_size: 0,
                min_commit_ts: TimeStamp(0),
                ..without_lists(d)
            },
        ) == Some(d),
{
    let b = before + d.number_bytes() + d.async_commit_bytes() + d.rollback_bytes();
    let at = before.len() as int;
    if d.for_update_ts@ != 0 {
        let next = before + d.for_update_ts_bytes();
        assert(b =~= next + d.size_bytes() + d.min_commit_ts_bytes() + d.async_commit_bytes()
            + d.rollback_bytes());
        assert(b[at] == FOR_UPDATE_TS_PREFIX);
        crate::codec::lemma_be_round_trip(d.for_update_ts@);
        assert(forall|i: int| 0 <= i < 8 ==> b[at + 1 + i] == be_bytes(d.for_update_ts@)[i]);
        assert(be_value(b, at + 1) == be_value(be_bytes(d.for_update_ts@), 0));
        lemma_parse_size(next, d);
    } else {
        assert(b =~= before + d.size_bytes() + d.min_commit_ts_bytes() + d.async_commit_bytes()
            + d.rollback_bytes());
        lemma_parse_size(before, d);
    }
}

#[verifier::rlimit(60)]
#[verifier::spinoff_prover]
proof fn lemma_parse_short_value(before: Seq<u8>, d: DaggerView)
    requires
        d.storable(),
    ensures
        parse_dagger_fields(
            before + d.short_value_bytes() + d.number_bytes() + d.async_commit_bytes()
                + d.rollback_bytes(),
            before.len() as int,
            DaggerView::plain(
                d.dagger_type,
                d.primary,
                d.ts,
                d.ttl,
                None,
                TimeStamp(0),
                0,
                TimeStamp(0),
            ),
        ) == Some(d),
{
    let b = before + d.short_value_bytes() + d.number_bytes() + d.async_commit_bytes()
        + d.rollback_bytes();
    let at = before.len() as int;
    match d.short_value {
        Some(v) => {
            let next = before + d.short_value_bytes();
            assert(b =~= next + d.number_bytes() + d.async_commit_bytes() + d.rollback_bytes());
            assert(b[at] == SHORT_VALUE_PREFIX);
            assert(b[at + 1] == (v.len() % 256) as u8);
            assert(b.subrange(at + 2, at + 2 + v.len()) =~= v);
            assert(next.len() == at + 2 + v.len());
            lemma_parse_for_update_ts(next, d);
        },
        None => {
            assert(b =~= before + d.number_bytes() + d.async_commit_bytes() + d.rollback_bytes());
            lemma_parse_for_update_ts(before, d);
        },
    }
}

/// A dagger read from the bytes that it is stored as is the dagger, given
/// that it can be stored.
#[verifier::rlimit(60)]
#[verifier::spinoff_prover]
pub proof fn lemma_dagger_round_trip(d: DaggerView)
    requires
        d.storable(),
    ensures
        parse_dagger_spec(d.to_bytes()) == Some(d),
{
    let flag = seq![dagger_type_flag(d.dagger_type)];
    let primary = compact_bytes(d.primary);
    let ts = var_bytes(d.ts@ as nat);
    let ttl = var_bytes(d.ttl as nat);
    let tail = d.short_value_bytes() + d.number_bytes() + d.async_commit_bytes()
        + d.rollback_bytes();
    let b = d.to_bytes();
    let p1 = flag + primary;
    let p2 = p1 + ts;
    let p3 = p2 + ttl;
    assert(b =~= p3 + tail);
    assert(b[0] == dagger_type_flag(d.dagger_type));
    assert(compact_bytes_at(b, 1) == Ok::<(Seq<u8>, int), CodecError>(
        (d.primary, p1.len() as int),
    )) by {
        assert(b =~= flag + primary + (ts + ttl + tail));
        crate::codec::lemma_compact_bytes_round_trip(flag, d.primary, ts + ttl + tail);
    }
    assert(var_u64_at(b, p1.len() as int, 0) == Ok::<(u64, int), CodecError>(
        (d.ts@, p2.len() as int),
    )) by {
        assert(b =~= p1 + ts + (ttl + tail));
        crate::codec::lemma_var_bytes_len(d.ts@);
        crate::codec::lemma_var_u64_round_trip(p1, d.ts@, ttl + tail, 0);
    }
    assert(var_u64_at(b, p2.len() as int, 0) == Ok::<(u64, int), CodecError>(
        (d.ttl, p3.len() as int),
    ) && p2.len() < b.len()) by {
        assert(b =~= p2 + ttl + tail);
        crate::codec::lemma_var_bytes_len(d.ttl);
        crate::codec::lemma_var_u64_round_trip(p2, d.ttl, tail, 0);
    }
    let base = DaggerView::plain(
        d.dagger_type,
        d.primary,
        d.ts,
        d.ttl,
        None,
        TimeStamp(0),
        0,
        TimeStamp(0),
    );
    assert(parse_dagger_fields(b, p3.len() as int, base) == Some(d)) by {
        assert(b =~= p3 + d.short_value_bytes() + d.number_bytes() + d.async_commit_bytes()
            + d.rollback_bytes());
        lemma_parse_short_value(p3, d);
    }
    assert(dagger_type_of(b[0]) == Some(d.dagger_type));
    assert(TimeStamp(d.ts@) == d.ts);
}

fn decode_compact_list(b: &[u8], start: usize, n: u64) -> (r: Option<(Vec<Vec<u8>>, usize)>)
    requires
        start <= b.len(),
    ensures
        match r {
            Some((xs, end)) => compact_list_at(b@, start as int, n as nat) == Ok::<
                (Seq<Seq<u8>>, int),
                CodecError,
            >((byte_strings_view(xs), end as int)) && start <= end <= b.len() && (n > 0 ==> start
                < end),
            None => compact_list_at(b@, start as int, n as nat) is Err,
        },
{
    let mut out: Vec<Vec<u8>> = Vec::new();
    let mut at: usize = start;
    let mut i: u64 = 0;
    proof {
        assert forall|xs: Seq<Seq<u8>>| #[trigger] (byte_strings_view(out) + xs) == xs by {
            assert(byte_strings_view(out) + xs =~= xs);
        }
    }
    while i < n
        invariant
            i <= n,
            start <= at <= b.len(),
            i > 0 ==> start < at,
            compact_list_at(b@, start as int, n as nat) == (match compact_list_at(
                b@,
                at as int,
                (n - i) as nat,
            ) {
                Ok((xs, end)) => Ok::<(Seq<Seq<u8>>, int), CodecError>(
                    (byte_strings_view(out) + xs, end),
                ),
                Err(e) => Err(e),
            }),
        decreases n - i,
    {
        let ghost before = byte_strings_view(out);
        match decode_compact_bytes(b, at) {
            Ok((x, next)) => {
                let ghost xv = x@;
                out.push(x);
                proof {
                    assert(byte_strings_view(out) =~= before.push(xv));
                    assert forall|xs: Seq<Seq<u8>>| #[trigger] (byte_strings_view(out) + xs)
                        == before + (seq![xv] + xs) by {
                        assert(byte_strings_view(out) + xs =~= before + (seq![xv] + xs));
                    }
                }
                at = next;
            },
            Err(_) => {
                return None;
            },
        }
        i += 1;
    }
    proof {
        assert(byte_strings_view(out) + Seq::<Seq<u8>>::empty() =~= byte_strings_view(out));
    }
    Some((out, at))
}

impl Dagger {
    /// A dagger that is not of an async-commit transaction and has no
    /// rollback recorded on it.
    pub fn new(
        dagger_type: DaggerType,
        primary: Vec<u8>,
        ts: TimeStamp,
        ttl: u64,
        short_value: Option<Vec<u8>>,
        for_update_ts: TimeStamp,
        solitontxn_size: u64,
        min_commit_ts: TimeStamp,
    ) -> (r: Dagger)
        ensures
            r@ == DaggerView::plain(
                dagger_type,
                primary@,
                ts,
                ttl,
                opt_bytes_view(short_value),
                for_update_ts,
                solitontxn_size,
                min_commit_ts,
            ),
    {
        let r = Dagger {
            dagger_type,
            primary,
            ts,
            ttl,
            short_value,
            for_update_ts,
            solitontxn_size,
            min_commit_ts,
            use_async_commit: false,
            secondaries: Vec::new(),
            rollback_ts: Vec::new(),
        };
        assert(byte_strings_view(r.secondaries) =~= Seq::empty());
        assert(r.rollback_ts@ =~= Seq::empty());
        r
    }

    /// This dagger as that of an async-commit transaction with the given
    /// secondary keys.
    pub fn use_async_commit(self, secondaries: Vec<Vec<u8>>) -> (r: Dagger)
        ensures
            r@ == (DaggerView {
                use_async_commit: true,
                secondaries: byte_strings_view(secondaries),
                ..self@
            }),
    {
        let mut r = self;
        r.use_async_commit = true;
        r.secondaries = secondaries;
        r
    }

    /// This dagger with the given rollbacks recorded on it.
    pub fn with_rollback_ts(self, rollback_ts: Vec<TimeStamp>) -> (r: Dagger)
        ensures
            r@ == (DaggerView { rollback_ts: rollback_ts@, ..self@ }),
    {
        let mut r = self;
        r.rollback_ts = rollback_ts;
        r
    }

    /// Whether the dagger belongs to a pessimistic transaction.
    pub fn is_pessimistic_solitontxn(&self) -> (r: bool)
        ensures
            r == self@.is_pessimistic_solitontxn(),
    {
        !self.for_update_ts.is_zero()
    }

    fn encode_base(&self, out: &mut Vec<u8>)
        ensures
            final(out)@ == old(out)@ + self@.base_bytes(),
    {
        out.push(self.dagger_type.to_u8());
        encode_compact_bytes(out, self.primary.as_slice());
        encode_var_u64(out, self.ts.into_inner());
        encode_var_u64(out, self.ttl);
        match &self.short_value {
            Some(v) => {
                out.push(SHORT_VALUE_PREFIX);
                out.push((v.len() % 256) as u8);
                append_bytes(out, v.as_slice());
            },
            None => {},
        }
        assert(out@ =~= old(out)@ + self@.base_bytes());
    }

    fn encode_numbers(&self, out: &mut Vec<u8>)
        ensures
            final(out)@ == old(out)@ + self@.number_bytes(),
    {
        if !self.for_update_ts.is_zero() {
            out.push(FOR_UPDATE_TS_PREFIX);
            encode_u64(out, self.for_update_ts.into_inner());
        }
        if self.solitontxn_size > 0 {
            out.push(TXN_SIZE_PREFIX);
            encode_u64(out, self.solitontxn_size);
        }
        if !self.min_commit_ts.is_zero() {
            out.push(MIN_COMMIT_TS_PREFIX);
            encode_u64(out, self.min_commit_ts.into_inner());
        }
        assert(out@ =~= old(out)@ + self@.number_bytes());
    }

    fn encode_async_commit(&self, out: &mut Vec<u8>)
        ensures
            final(out)@ == old(out)@ + self@.async_commit_bytes(),
    {
        let ghost secondaries = byte_strings_view(self.secondaries);
        if self.use_async_commit {
            out.push(ASYNC_COMMIT_PREFIX);
            encode_var_u64(out, self.secondaries.len() as u64);
            let ghost start = out@;
            let mut i: usize = 0;
            while i < self.secondaries.len()
                invariant
                    i <= self.secondaries.len(),
                    secondaries == byte_strings_view(self.secondaries),
                    out@ == start + compact_list_bytes(secondaries.take(i as int)),
                decreases self.secondaries.len() - i,
            {
                encode_compact_bytes(out, self.secondaries[i].as_slice());
                proof {
                    assert(secondaries.take(i + 1).drop_last() =~= secondaries.take(i as int));
                    assert(secondaries.take(i + 1).last() == self.secondaries@[i as int]@);
                    assert(out@ =~= start + compact_list_bytes(secondaries.take(i + 1)));
                }
                i += 1;
            }
            assert(secondaries.take(secondaries.len() as int) =~= secondaries);
        }
        assert(out@ =~= old(out)@ + self@.async_commit_bytes());
    }

    fn encode_rollbacks(&self, out: &mut Vec<u8>)
        ensures
            final(out)@ == old(out)@ + self@.rollback_bytes(),
    {
        if self.rollback_ts.len() > 0 {
            out.push(ROLLBACK_TS_PREFIX);
            encode_var_u64(out, self.rollback_ts.len() as u64);
            let ghost start = out@;
            let mut i: usize = 0;
            while i < self.rollback_ts.len()
                invariant
                    i <= self.rollback_ts.len(),
                    out@ == start + ts_list_bytes(self.rollback_ts@.take(i as int)),
                decreases self.rollback_ts.len() - i,
            {
                encode_u64(out, self.rollback_ts[i].into_inner());
                proof {
                    let xs = self.rollback_ts@;
                    assert(xs.take(i + 1).drop_last() =~= xs.take(i as int));
                    assert(xs.take(i + 1).last() == xs[i as int]);
                    assert(out@ =~= start + ts_list_bytes(xs.take(i + 1)));
                }
                i += 1;
            }
            assert(self.rollback_ts@.take(self.rollback_ts@.len() as int) =~= self.rollback_ts@);
        }
        assert(out@ =~= old(out)@ + self@.rollback_bytes());
    }

    /// The bytes under which the dagger is stored.
    pub fn to_bytes(&self) -> (r: Vec<u8>)
        ensures
            r@ == self@.to_bytes(),
    {
        let mut out: Vec<u8> = Vec::new();
        self.encode_base(&mut out);
        self.encode_numbers(&mut out);
        self.encode_async_commit(&mut out);
        self.encode_rollbacks(&mut out);
        assert(out@ =~= self@.to_bytes());
        out
    }

    /// Reads a dagger from the bytes it is stored under.
    pub fn parse(b: &[u8]) -> (r: Result<Dagger, Error>)
        ensures
            match r {
                Ok(d) => parse_dagger_spec(b@) == Some(d@),
                Err(e) => parse_dagger_spec(b@) is None && e is BadFormatDagger,
            },
    {
        if b.len() == 0 {
            return Err(Error::BadFormatDagger);
        }
        let dagger_type = match DaggerType::from_u8(b[0]) {
            Some(t) => t,
            None => {
                return Err(Error::BadFormatDagger);
            },
        };
        let (primary, p1) = match decode_compact_bytes(b, 1) {
            Ok(pair) => pair,
            Err(_) => {
                return Err(Error::BadFormatDagger);
            },
        };
        let (ts, p2) = match decode_var_u64(b, p1) {
            Ok(pair) => pair,
            Err(_) => {
                return Err(Error::BadFormatDagger);
            },
        };
        let mut d = Dagger::new(
            dagger_type,
            primary,
            TimeStamp::new(ts),
            0,
            None,
            TimeStamp::zero(),
            0,
            TimeStamp::zero(),
        );
        if p2 >= b.len() {
            return Ok(d);
        }
        let (ttl, p3) = match decode_var_u64(b, p2) {
            Ok(pair) => pair,
            Err(_) => {
                return Err(Error::BadFormatDagger);
            },
        };
        d.ttl = ttl;
        let mut at: usize = p3;
        while at < b.len()
            invariant
                at <= b.len(),
                parse_dagger_spec(b@) == parse_dagger_fields(b@, at as int, d@),
            decreases b.len() - at,
        {
            let flag = b[at];
            if flag == SHORT_VALUE_PREFIX {
                if at + 1 >= b.len() {
                    return Err(Error::BadFormatDagger);
                }
                let n = b[at + 1] as usize;
                if n > b.len() - (at + 2) {
                    return Err(Error::BadFormatDagger);
                }
                let mut v: Vec<u8> = Vec::new();
                let mut i: usize = 0;
                while i < n
                    invariant
                        i <= n,
                        at + 2 + n <= b.len(),
                        v@ == b@.subrange(at + 2, at + 2 + i),
                    decreases n - i,
                {
                    v.push(b[at + 2 + i]);
                    assert(b@.subrange(at + 2, at + 2 + i).push(b@[at + 2 + i]) =~= b@.subrange(
                        at + 2,
                        at + 2 + i + 1,
                    ));
                    i += 1;
                }
                d.short_value = Some(v);
                at = at + 2 + n;
            } else if flag == FOR_UPDATE_TS_PREFIX {
                if b.len() - at < 9 {
                    return Err(Error::BadFormatDagger);
                }
                d.for_update_ts = TimeStamp::new(decode_u64(b, at + 1));
                at = at + 9;
            } else if flag == TXN_SIZE_PREFIX {
                if b.len() - at < 9 {
                    return Err(Error::BadFormatDagger);
                }
                d.solitontxn_size = decode_u64(b, at + 1);
                at = at + 9;
            } else if flag == MIN_COMMIT_TS_PREFIX {
                if b.len() - at < 9 {
                    return Err(Error::BadFormatDagger);
                }
                d.min_commit_ts = TimeStamp::new(decode_u64(b, at + 1));
                at = at + 9;
            } else if flag == ASYNC_COMMIT_PREFIX {
                let (n, start) = match decode_var_u64(b, at + 1) {
                    Ok(pair) => pair,
                    Err(_) => {
                        return Err(Error::BadFormatDagger);
                    },
                };
                match decode_compact_list(b, start, n) {
                    Some((secondaries, end)) => {
                        d.use_async_commit = true;
                        d.secondaries = secondaries;
                        at = end;
                    },
                    None => {
                        return Err(Error::BadFormatDagger);
                    },
                }
            } else if flag == ROLLBACK_TS_PREFIX {
                let (n, start) = match decode_var_u64(b, at + 1) {
                    Ok(pair) => pair,
                    Err(_) => {
                        return Err(Error::BadFormatDagger);
                    },
                };
                if n > ((b.len() - start) / 8) as u64 {
                    return Err(Error::BadFormatDagger);
                }
                let count = n as usize;
                let mut rollback_ts: Vec<TimeStamp> = Vec::new();
                let mut i: usize = 0;
                while i < count
                    invariant
                        i <= count,
                        start + 8 * count <= b.len(),
                        rollback_ts@.len() == i,
                        forall|j: int|
                            0 <= j < i ==> rollback_ts@[j] == TimeStamp(
                                be_value(b@, start + 8 * j),
                            ),
                    decreases count - i,
                {
                    rollback_ts.push(TimeStamp::new(decode_u64(b, start + 8 * i)));
                    i += 1;
                }
                assert(ts_list_at(b@, start as int, n as nat) == Some(rollback_ts@)) by {
                    assert(ts_list_at(b@, start as int, n as nat).unwrap() =~= rollback_ts@);
                }
                d.rollback_ts = rollback_ts;
                at = start + 8 * count;
            } else {
                return Err(Error::BadFormatDagger);
            }
        }
        Ok(d)
    }
}

/// A pessimistic dagger as it is kept in memory before it reaches the store.
#[derive(Debug, PartialEq, Eq)]
pub struct PessimisticDagger {
    /// The user key of the transaction's primary dagger.
    pub primary: Vec<u8>,
    pub start_ts: TimeStamp,
    pub ttl: u64,
    pub for_update_ts: TimeStamp,
    pub min_commit_ts: TimeStamp,
}

/// What a pessimistic dagger holds.
pub struct PessimisticDaggerView {
    pub primary: Seq<u8>,
    pub start_ts: TimeStamp,
    pub ttl: u64,
    pub for_update_ts: TimeStamp,
    pub min_commit_ts: TimeStamp,
}

impl PessimisticDaggerView {
    /// The dagger that is stored for this pessimistic dagger.
    pub open spec fn to_dagger(self) -> DaggerView {
        DaggerView::plain(
            DaggerType::Pessimistic,
            self.primary,
            self.start_ts,
            self.ttl,
            None,
            self.for_update_ts,
            0,
            self.min_commit_ts,
        )
    }
}

impl View for PessimisticDagger {
    type V = PessimisticDaggerView;

    open spec fn view(&self) -> PessimisticDaggerView {
        PessimisticDaggerView {
            primary: self.primary@,
            start_ts: self.start_ts,
            ttl: self.ttl,
            for_update_ts: self.for_update_ts,
            min_commit_ts: self.min_commit_ts,
        }
    }
}

impl Clone for PessimisticDagger {
    fn clone(&self) -> (r: Self)
        ensures
            r@ == self@,
    {
        PessimisticDagger {
            primary: copy_bytes(self.primary.as_slice()),
            start_ts: self.start_ts,
            ttl: self.ttl,
            for_update_ts: self.for_update_ts,
            min_commit_ts: self.min_commit_ts,
        }
    }
}

impl PessimisticDagger {
    /// The dagger that is stored for this pessimistic dagger.
    pub fn to_dagger(&self) -> (r: Dagger)
        ensures
            r@ == self@.to_dagger(),
    {
        Dagger::new(
            DaggerType::Pessimistic,
            copy_bytes(self.primary.as_slice()),
            self.start_ts,
            self.ttl,
            None,
            self.for_update_ts,
            0,
            self.min_commit_ts,
        )
    }

    /// As `to_dagger`, giving up the pessimistic dagger.
    pub fn into_dagger(self) -> (r: Dagger)
        ensures
            r@ == self@.to_dagger(),
    {
        Dagger::new(
            DaggerType::Pessimistic,
            self.primary,
            self.start_ts,
            self.ttl,
            None,
            self.for_update_ts,
            0,
            self.min_commit_ts,
        )
    }
}

} // verus!
