//! Reads of committed data and of daggers, as of a snapshot of the store.

use vstd::prelude::*;
use crate::codec::{bytes_lt, decode_bytes_spec, well_grouped, CodecError};
use crate::context::Context;
use crate::dagger::{parse_dagger_spec, Dagger, DaggerView};
use crate::error::{Error, ErrorView};
use crate::key::{
    append_ts_spec, decode_ts_spec, is_user_key_eq_spec, is_versioned_key,
    lemma_append_ts_order, lemma_ts_round_trip, lemma_versioned_key_parts,
    lemma_versions_of_other_key, truncate_ts_spec, Key,
};
use crate::kv::{
    get_spec, lemma_seek_finds, lemma_seek_sorted, put_spec, seek_spec, sorted, CfName, Cursor,
    Entries, IterOptions, SentinelSearchMode, Snapshot, SnapshotView,
};
use crate::mutation::{OldValue, OldValueView};
use crate::timestamp::TimeStamp;
use crate::write::{opt_bytes_view, parse_write_spec, Write, WriteType, WriteView};

verus! {

/// A record of another transaction that was committed at the start
/// timestamp of the transaction asked about.
#[derive(Debug, PartialEq, Eq)]
pub struct OverlappedWrite {
    pub write: Write,
    /// The commit timestamp of the next newer put or delete; zero where the
    /// record is the latest.
    pub gc_fence: TimeStamp,
}

/// What an overlapped write holds.
pub struct OverlappedWriteView {
    pub write: WriteView,
    pub gc_fence: TimeStamp,
}

impl View for OverlappedWrite {
    type V = OverlappedWriteView;

    open spec fn view(&self) -> OverlappedWriteView {
        OverlappedWriteView { write: self.write@, gc_fence: self.gc_fence }
    }
}

/// What the write records of a key tell of one transaction.
#[derive(Debug, PartialEq, Eq)]
pub enum TxnCommitRecord {
    /// No record of the transaction. Where another transaction was committed
    /// at the start timestamp asked about, its record comes along: a
    /// rollback would have to be marked on it.
    NoRecord { overlapped_write: Option<OverlappedWrite> },
    /// The record that the transaction left, a commit or a rollback.
    SingleRecord { commit_ts: TimeStamp, write: Write },
    /// The transaction was rolled back, which is marked on the record of
    /// another transaction, committed at that start timestamp.
    OverlappedRollback { commit_ts: TimeStamp },
}

/// What a commit record holds.
pub enum TxnCommitRecordView {
    NoRecord { overlapped_write: Option<OverlappedWriteView> },
    SingleRecord { commit_ts: TimeStamp, write: WriteView },
    OverlappedRollback { commit_ts: TimeStamp },
}

impl TxnCommitRecordView {
    /// Whether there is a record of the transaction.
    pub open spec fn exist(self) -> bool {
        !(self is NoRecord)
    }

    /// When the transaction was committed or rolled back, and which of the
    /// two; none where there is no record of it.
    pub open spec fn info(self) -> Option<(TimeStamp, WriteType)> {
        match self {
            TxnCommitRecordView::NoRecord { .. } => None,
            TxnCommitRecordView::SingleRecord { commit_ts, write } => Some(
                (commit_ts, write.write_type),
            ),
            TxnCommitRecordView::OverlappedRollback { commit_ts } => Some(
                (commit_ts, WriteType::Rollback),
            ),
        }
    }
}

impl View for TxnCommitRecord {
    type V = TxnCommitRecordView;

    open spec fn view(&self) -> TxnCommitRecordView {
        match *self {
            TxnCommitRecord::NoRecord { overlapped_write } => TxnCommitRecordView::NoRecord {
                overlapped_write: match overlapped_write {
                    Some(w) => Some(w@),
                    None => None,
                },
            },
            TxnCommitRecord::SingleRecord { commit_ts, write } => TxnCommitRecordView::SingleRecord {
                commit_ts,
                write: write@,
            },
            TxnCommitRecord::OverlappedRollback {
                commit_ts,
            } => TxnCommitRecordView::OverlappedRollback { commit_ts },
        }
    }
}

impl TxnCommitRecord {
    /// Whether there is a record of the transaction.
    pub fn exist(&self) -> (r: bool)
        ensures
            r == self@.exist(),
    {
        match self {
            TxnCommitRecord::NoRecord { .. } => false,
            _ => true,
        }
    }

    /// When the transaction was committed or rolled back, and which of the
    /// two; none where there is no record of it.
    pub fn info(&self) -> (r: Option<(TimeStamp, WriteType)>)
        ensures
            r == self@.info(),
    {
        match self {
            TxnCommitRecord::NoRecord { .. } => None,
            TxnCommitRecord::SingleRecord { commit_ts, write } => Some(
                (*commit_ts, write.write_type),
            ),
            TxnCommitRecord::OverlappedRollback { commit_ts } => Some(
                (*commit_ts, WriteType::Rollback),
            ),
        }
    }

    /// The commit timestamp and the type of the single record.
    pub fn unwrap_single_record(self) -> (r: (TimeStamp, WriteType))
        requires
            self is SingleRecord,
        ensures
            self@.info() == Some(r),
    {
        match self {
            TxnCommitRecord::SingleRecord { commit_ts, write } => (commit_ts, write.write_type),
            _ => vstd::pervasive::unreached(),
        }
    }

    /// The timestamp of the overlapped rollback.
    pub fn unwrap_overlapped_rollback(self) -> (r: TimeStamp)
        requires
            self is OverlappedRollback,
        ensures
            self@ == (TxnCommitRecordView::OverlappedRollback { commit_ts: r }),
    {
        match self {
            TxnCommitRecord::OverlappedRollback { commit_ts } => commit_ts,
            _ => vstd::pervasive::unreached(),
        }
    }

    /// The overlapped write that came along with the word that there is no
    /// record.
    pub fn unwrap_none(self) -> (r: Option<OverlappedWrite>)
        requires
            self is NoRecord,
        ensures
            self@ == (TxnCommitRecordView::NoRecord {
                overlapped_write: match r {
                    Some(w) => Some(w@),
                    None => None,
                },
            }),
    {
        match self {
            TxnCommitRecord::NoRecord { overlapped_write } => overlapped_write,
            _ => vstd::pervasive::unreached(),
        }
    }
}

/// The write record of `key` that a seek at `ts` finds, with its commit
/// timestamp: the record stored at the first key not less than the version
/// of `key` at `ts`, where that key is a version of `key`.
pub open spec fn seek_write_spec(writes: Entries, key: Seq<u8>, ts: TimeStamp) -> Result<
    Option<(TimeStamp, WriteView)>,
    ErrorView,
> {
    let i = seek_spec(writes, append_ts_spec(key, ts@));
    if i >= writes.len() {
        Ok(None)
    } else {
        match decode_ts_spec(writes[i].0) {
            None => Err(ErrorView::Codec(CodecError::KeyLength)),
            Some(commit_ts) => if !is_user_key_eq_spec(writes[i].0, key) {
                Ok(None)
            } else {
                match parse_write_spec(writes[i].1) {
                    Some(w) => Ok(Some((TimeStamp(commit_ts), w))),
                    None => Err(ErrorView::BadFormatWrite),
                }
            },
        }
    }
}

/// The put that a read of `key` at `ts` goes by, with its commit timestamp.
/// The newest record at or before `ts` decides: a put is the answer, a
/// delete means that there is none, and a dagger or rollback record hands
/// over to the records before it. Where a limit is given, a record whose
/// fence does not allow a read at the limit ends the search with no answer.
pub open spec fn get_write_spec(
    writes: Entries,
    key: Seq<u8>,
    ts: TimeStamp,
    gc_fence_limit: Option<TimeStamp>,
) -> Result<Option<(WriteView, TimeStamp)>, ErrorView>
    decreases ts@,
{
    match seek_write_spec(writes, key, ts) {
        Err(e) => Err(e),
        Ok(None) => Ok(None),
        Ok(Some((commit_ts, write))) => if gc_fence_limit is Some && !write.gc_fence_allows(
            gc_fence_limit.unwrap(),
        ) {
            Ok(None)
        } else {
            match write.write_type {
                WriteType::Put => Ok(Some((write, commit_ts))),
                WriteType::Delete => Ok(None),
                _ => if commit_ts@ == 0 || commit_ts@ > ts@ {
                    Ok(None)
                } else {
                    get_write_spec(writes, key, TimeStamp((commit_ts@ - 1) as u64), gc_fence_limit)
                },
            }
        },
    }
}

/// What the records of `key` at or before `seek_ts` tell of the transaction
/// that started at `start_ts`, given the commit timestamp `gc_fence` of the
/// oldest put or delete among the records after `seek_ts`. The records are
/// gone through from the newest down. One written by the transaction is its
/// record. One committed at `start_ts` by another transaction ends the
/// search: marked as a rollback it tells that the transaction was rolled
/// back, else it comes along as the overlapped write. So does the first
/// record committed before `start_ts`.
pub open spec fn commit_record_spec(
    writes: Entries,
    key: Seq<u8>,
    start_ts: TimeStamp,
    seek_ts: TimeStamp,
    gc_fence: TimeStamp,
) -> Result<TxnCommitRecordView, ErrorView>
    decreases seek_ts@,
{
    match seek_write_spec(writes, key, seek_ts) {
        Err(e) => Err(e),
        Ok(None) => Ok(TxnCommitRecordView::NoRecord { overlapped_write: None }),
        Ok(Some((commit_ts, write))) => if write.start_ts == start_ts {
            Ok(TxnCommitRecordView::SingleRecord { commit_ts, write })
        } else if commit_ts == start_ts {
            if write.has_overlapped_rollback {
                Ok(TxnCommitRecordView::OverlappedRollback { commit_ts })
            } else {
                Ok(
                    TxnCommitRecordView::NoRecord {
                        overlapped_write: Some(OverlappedWriteView { write, gc_fence }),
                    },
                )
            }
        } else if commit_ts@ < start_ts@ || commit_ts@ == 0 || commit_ts@ > seek_ts@ {
            Ok(TxnCommitRecordView::NoRecord { overlapped_write: None })
        } else {
            commit_record_spec(
                writes,
                key,
                start_ts,
                TimeStamp((commit_ts@ - 1) as u64),
                if write.write_type == WriteType::Put || write.write_type == WriteType::Delete {
                    commit_ts
                } else {
                    gc_fence
                },
            )
        },
    }
}

/// What the write records of `key` tell of the transaction that started at
/// `start_ts`.
pub open spec fn txn_commit_record_spec(writes: Entries, key: Seq<u8>, start_ts: TimeStamp) -> Result<
    TxnCommitRecordView,
    ErrorView,
> {
    commit_record_spec(writes, key, start_ts, TimeStamp(u64::MAX), TimeStamp(0))
}

/// The error for a put record whose value is not stored.
pub open spec fn not_found_error_spec(key: Seq<u8>) -> ErrorView {
    match decode_bytes_spec(key) {
        Some(raw) => ErrorView::DataNotFound { key: raw },
        None => ErrorView::Codec(CodecError::KeyPadding),
    }
}

/// The value of the put record `write` of `key`: its short value, or what is
/// stored under the version of `key` at the start timestamp of the record.
pub open spec fn load_data_spec(values: Entries, key: Seq<u8>, write: WriteView) -> Result<
    Seq<u8>,
    ErrorView,
> {
    match write.short_value {
        Some(v) => Ok(v),
        None => match get_spec(values, append_ts_spec(key, write.start_ts@)) {
            Some(v) => Ok(v),
            None => Err(not_found_error_spec(key)),
        },
    }
}

/// The value that a read of `key` at `ts` gives.
pub open spec fn get_value_spec(
    snapshot: SnapshotView,
    key: Seq<u8>,
    ts: TimeStamp,
    gc_fence_limit: Option<TimeStamp>,
) -> Result<Option<Seq<u8>>, ErrorView> {
    match get_write_spec(snapshot.store.write_cf, key, ts, gc_fence_limit) {
        Err(e) => Err(e),
        Ok(None) => Ok(None),
        Ok(Some((write, _))) => match load_data_spec(snapshot.store.default_cf, key, write) {
            Ok(v) => Ok(Some(v)),
            Err(e) => Err(e),
        },
    }
}

/// The pessimistic dagger on `key` in the region's table, read by a reader
/// of the given term and version. A reader that knows its term or version
/// and finds another on the table must not trust the table.
pub open spec fn in_memory_dagger_spec(
    snapshot: SnapshotView,
    term: u64,
    version: u64,
    key: Seq<u8>,
) -> Result<Option<DaggerView>, ErrorView> {
    match snapshot.pessimistic_daggers {
        None => Ok(None),
        Some(table) => if term != 0 && table.term != term {
            Err(ErrorView::StaleCommand)
        } else if version != 0 && table.version != version {
            Err(ErrorView::EpochNotMatch)
        } else {
            match table.get(key) {
                Some(d) => Ok(Some(d.to_dagger())),
                None => Ok(None),
            }
        },
    }
}

/// The dagger on `key`: the pessimistic dagger in the region's table, or
/// else the dagger in the store.
pub open spec fn load_dagger_spec(snapshot: SnapshotView, term: u64, version: u64, key: Seq<u8>) -> Result<
    Option<DaggerView>,
    ErrorView,
> {
    match in_memory_dagger_spec(snapshot, term, version, key) {
        Err(e) => Err(e),
        Ok(Some(d)) => Ok(Some(d)),
        Ok(None) => match get_spec(snapshot.store.dagger_cf, key) {
            None => Ok(None),
            Some(bytes) => match parse_dagger_spec(bytes) {
                Some(d) => Ok(Some(d)),
                None => Err(ErrorView::BadFormatDagger),
            },
        },
    }
}

/// What the key held before `start_ts`, given the record before, where the
/// caller has read it. A put or delete before tells it; otherwise the read
/// at `start_ts` does.
pub open spec fn old_value_spec(
    writes: Entries,
    key: Seq<u8>,
    start_ts: TimeStamp,
    prev_write_loaded: bool,
    prev_write: Option<WriteView>,
) -> Result<OldValueView, ErrorView> {
    if prev_write_loaded && prev_write is None {
        Ok(OldValueView::NoValue)
    } else if prev_write is Some && !prev_write.unwrap().gc_fence_allows(start_ts) {
        Ok(OldValueView::NoValue)
    } else if prev_write is Some && prev_write.unwrap().write_type == WriteType::Put {
        Ok(old_value_of_put(prev_write.unwrap()))
    } else if prev_write is Some && prev_write.unwrap().write_type == WriteType::Delete {
        Ok(OldValueView::NoValue)
    } else {
        match get_write_spec(writes, key, start_ts, Some(start_ts)) {
            Err(e) => Err(e),
            Ok(Some((write, _))) => Ok(old_value_of_put(write)),
            Ok(None) => Ok(OldValueView::NoValue),
        }
    }
}

/// The old value that a put record stands for.
pub open spec fn old_value_of_put(write: WriteView) -> OldValueView {
    match write.short_value {
        Some(value) => OldValueView::Value { value },
        None => OldValueView::ValueTimeStamp { start_ts: write.start_ts },
    }
}

/// Every key of `writes` is the version of an encoded user key.
pub open spec fn well_keyed(writes: Entries) -> bool {
    forall|i: int| 0 <= i < writes.len() ==> is_versioned_key(#[trigger] writes[i].0)
}

/// Whether a record of `key` is stored at the commit timestamp `commit_ts`.
pub open spec fn has_version(writes: Entries, key: Seq<u8>, commit_ts: u64) -> bool {
    get_spec(writes, append_ts_spec(key, commit_ts)) is Some
}

/// In sorted entries a stored key is found at its index.
proof fn lemma_stored_at(s: Entries, k: Seq<u8>) -> (j: int)
    requires
        get_spec(s, k) is Some,
    ensures
        0 <= j < s.len(),
        s[j].0 == k,
        j == seek_spec(s, k),
{
    crate::kv::lemma_first_from(s, k, 0);
    seek_spec(s, k)
}

/// No other key is stored among the versions of `key`: an entry that is not
/// before the newest version that `key` can have, and that is before a
/// stored version of `key`, is itself a version of `key`.
pub open spec fn versions_together(writes: Entries, key: Seq<u8>) -> bool {
    forall|i: int, j: int|
        0 <= i < j < writes.len() && !bytes_lt(
            #[trigger] writes[i].0,
            append_ts_spec(key, u64::MAX),
        ) && is_user_key_eq_spec(#[trigger] writes[j].0, key) ==> is_user_key_eq_spec(
            writes[i].0,
            key,
        )
}

/// The versions of an encoded user key lie together in a store whose keys
/// are all versions of encoded user keys.
pub proof fn lemma_encoded_versions_together(writes: Entries, key: Seq<u8>)
    requires
        sorted(writes),
        well_keyed(writes),
        well_grouped(key),
    ensures
        versions_together(writes, key),
{
    assert forall|i: int, j: int|
        0 <= i < j < writes.len() && !bytes_lt(
            #[trigger] writes[i].0,
            append_ts_spec(key, u64::MAX),
        ) && is_user_key_eq_spec(#[trigger] writes[j].0, key) implies is_user_key_eq_spec(
        writes[i].0,
        key,
    ) by {
        let e = writes[i].0;
        let f = writes[j].0;
        assert(is_versioned_key(e));
        let user = e.take(e.len() - 8);
        lemma_versioned_key_parts(e);
        lemma_versioned_key_parts(f);
        if user != key {
            let ce = decode_ts_spec(e).unwrap();
            let cf = decode_ts_spec(f).unwrap();
            lemma_versions_of_other_key(user, key, ce, u64::MAX);
            lemma_versions_of_other_key(user, key, ce, cf);
            assert(bytes_lt(e, f));
        }
    }
}

/// What a seek for a write record finds is the record of the key with the
/// greatest commit timestamp that is not after `ts`, in any store and for
/// any key: the record found is stored for `key` at a commit timestamp not
/// after `ts`, and no record of `key` is stored between that timestamp and
/// `ts`. Where the seek fails on the bytes of a record, that record is the
/// one of `key` with the greatest commit timestamp not after `ts`.
pub proof fn lemma_seek_write_found(writes: Entries, key: Seq<u8>, ts: TimeStamp)
    requires
        sorted(writes),
    ensures
        match seek_write_spec(writes, key, ts) {
            Ok(Some((commit_ts, write))) => {
                &&& commit_ts@ <= ts@
                &&& has_version(writes, key, commit_ts@)
                &&& parse_write_spec(get_spec(writes, append_ts_spec(key, commit_ts@)).unwrap())
                    == Some(write)
                &&& forall|c: u64| commit_ts@ < c <= ts@ ==> !has_version(writes, key, c)
            },
            Err(ErrorView::BadFormatWrite) => exists|c: u64|
                {
                    &&& c <= ts@
                    &&& #[trigger] has_version(writes, key, c)
                    &&& parse_write_spec(get_spec(writes, append_ts_spec(key, c)).unwrap()) is None
                    &&& forall|c2: u64| c < c2 <= ts@ ==> !has_version(writes, key, c2)
                },
            _ => true,
        },
{
    let target = append_ts_spec(key, ts@);
    let i = seek_spec(writes, target);
    lemma_seek_sorted(writes, target);
    if i < writes.len() && is_user_key_eq_spec(writes[i].0, key) {
        let found = writes[i].0;
        let commit_ts = decode_ts_spec(found).unwrap();
        lemma_versioned_key_parts(found);
        lemma_seek_finds(writes, i);
        lemma_append_ts_order(key, commit_ts, ts@);
        assert(has_version(writes, key, commit_ts));
        assert forall|c: u64| commit_ts < c <= ts@ implies !has_version(writes, key, c) by {
            if has_version(writes, key, c) {
                let j = lemma_stored_at(writes, append_ts_spec(key, c));
                lemma_append_ts_order(key, c, commit_ts);
                lemma_append_ts_order(key, c, ts@);
                crate::codec::lemma_bytes_order_total(writes[j].0, writes[i].0);
                if j > i {
                    assert(bytes_lt(writes[i].0, writes[j].0));
                }
                assert(j < i);
                assert(bytes_lt(writes[j].0, target));
            }
        }
    }
}

/// A seek for a write record misses no record: where the versions of `key`
/// lie together and a record of `key` is stored at or before `ts`, the seek
/// finds a record, or fails on the bytes of one.
pub proof fn lemma_seek_write_misses_none(writes: Entries, key: Seq<u8>, ts: TimeStamp, c: u64)
    requires
        sorted(writes),
        versions_together(writes, key),
        c <= ts@,
        has_version(writes, key, c),
    ensures
        seek_write_spec(writes, key, ts) matches Ok(Some(_)) || seek_write_spec(writes, key, ts)
            == Err::<Option<(TimeStamp, WriteView)>, ErrorView>(ErrorView::BadFormatWrite),
{
    let target = append_ts_spec(key, ts@);
    let first = append_ts_spec(key, u64::MAX);
    let i = seek_spec(writes, target);
    lemma_seek_sorted(writes, target);
    let j = lemma_stored_at(writes, append_ts_spec(key, c));
    lemma_append_ts_order(key, c, ts@);
    lemma_append_ts_order(key, ts@, u64::MAX);
    lemma_ts_round_trip(key, c);
    assert(i <= j);
    if i < j {
        crate::codec::lemma_bytes_order_total(first, target);
        if bytes_lt(writes[i].0, first) {
            if first != target {
                crate::codec::lemma_bytes_lt_trans(writes[i].0, first, target);
            }
        }
        assert(is_user_key_eq_spec(writes[i].0, key));
    }
    assert(is_user_key_eq_spec(writes[i].0, key));
}

/// A stored record is found by the timestamp it was stored under: where the
/// versions of `key` lie together, the record `write` is stored for `key`
/// at the commit timestamp `commit_ts`, and no record of `key` is stored
/// between that timestamp and `ts`, a seek at `ts` finds that record with
/// that timestamp.
pub proof fn lemma_seek_write_finds_stored(
    writes: Entries,
    key: Seq<u8>,
    commit_ts: TimeStamp,
    write: WriteView,
    ts: TimeStamp,
)
    requires
        sorted(writes),
        versions_together(writes, key),
        has_version(writes, key, commit_ts@),
        parse_write_spec(get_spec(writes, append_ts_spec(key, commit_ts@)).unwrap()) == Some(
            write,
        ),
        commit_ts@ <= ts@,
        forall|c: u64| commit_ts@ < c <= ts@ ==> !has_version(writes, key, c),
    ensures
        seek_write_spec(writes, key, ts) == Ok::<Option<(TimeStamp, WriteView)>, ErrorView>(
            Some((commit_ts, write)),
        ),
{
    lemma_seek_write_found(writes, key, ts);
    lemma_seek_write_misses_none(writes, key, ts, commit_ts@);
    match seek_write_spec(writes, key, ts) {
        Ok(Some((c, w))) => {
            if c@ < commit_ts@ {
                assert(has_version(writes, key, commit_ts@));
            }
            if c@ > commit_ts@ {
                assert(has_version(writes, key, c@));
            }
        },
        _ => {
            let bad = choose|bad: u64|
                {
                    &&& bad <= ts@
                    &&& #[trigger] has_version(writes, key, bad)
                    &&& parse_write_spec(get_spec(writes, append_ts_spec(key, bad)).unwrap())
                        is None
                    &&& forall|c2: u64| bad < c2 <= ts@ ==> !has_version(writes, key, c2)
                };
            if bad < commit_ts@ {
                assert(has_version(writes, key, commit_ts@));
            }
        },
    }
}

/// A seek for a write record finds the record of the key with the greatest
/// commit timestamp that is not after `ts`: in a store whose keys are
/// versions of encoded user keys, what it finds is stored for `key` at a
/// commit timestamp not after `ts`, and no record of `key` is stored
/// between that timestamp and `ts`; it finds nothing only where no record
/// of `key` is stored at or before `ts`; and it fails only where the bytes
/// of that record are malformed.
pub proof fn lemma_seek_write_greatest(writes: Entries, key: Seq<u8>, ts: TimeStamp)
    requires
        sorted(writes),
        well_keyed(writes),
        well_grouped(key),
    ensures
        match seek_write_spec(writes, key, ts) {
            Ok(Some((commit_ts, write))) => {
                &&& commit_ts@ <= ts@
                &&& get_spec(writes, append_ts_spec(key, commit_ts@)) is Some
                &&& parse_write_spec(get_spec(writes, append_ts_spec(key, commit_ts@)).unwrap())
                    == Some(write)
                &&& forall|c: u64| commit_ts@ < c <= ts@ ==> !has_version(writes, key, c)
            },
            Ok(None) => forall|c: u64| c <= ts@ ==> !has_version(writes, key, c),
            Err(e) => e == ErrorView::BadFormatWrite && exists|c: u64|
                {
                    &&& c <= ts@
                    &&& #[trigger] has_version(writes, key, c)
                    &&& parse_write_spec(get_spec(writes, append_ts_spec(key, c)).unwrap()) is None
                    &&& forall|c2: u64| c < c2 <= ts@ ==> !has_version(writes, key, c2)
                },
        },
{
    lemma_seek_write_found(writes, key, ts);
    lemma_encoded_versions_together(writes, key);
    let i = seek_spec(writes, append_ts_spec(key, ts@));
    lemma_seek_sorted(writes, append_ts_spec(key, ts@));
    if i < writes.len() {
        assert(is_versioned_key(writes[i].0));
    }
    assert forall|c: u64| c <= ts@ && has_version(writes, key, c) implies seek_write_spec(
        writes,
        key,
        ts,
    ) matches Ok(Some(_)) || seek_write_spec(writes, key, ts) == Err::<
        Option<(TimeStamp, WriteView)>,
        ErrorView,
    >(ErrorView::BadFormatWrite) by {
        lemma_seek_write_misses_none(writes, key, ts, c);
    }
}

/// A later seek does not find an earlier record, in any store and for any
/// key: where seeks at `ts1` and at a later `ts2` both find a record of
/// `key`, the commit timestamp of the first is not after that of the
/// second. Where the versions of `key` lie together and the first finds a
/// record, the second does not find nothing.
pub proof fn lemma_seek_write_monotonic(
    writes: Entries,
    key: Seq<u8>,
    ts1: TimeStamp,
    ts2: TimeStamp,
)
    requires
        sorted(writes),
        ts1@ <= ts2@,
    ensures
        match (seek_write_spec(writes, key, ts1), seek_write_spec(writes, key, ts2)) {
            (Ok(Some((c1, _))), Ok(Some((c2, _)))) => c1@ <= c2@,
            _ => true,
        },
        versions_together(writes, key) && (seek_write_spec(writes, key, ts1) matches Ok(Some(_)))
            ==> seek_write_spec(writes, key, ts2) != Ok::<
            Option<(TimeStamp, WriteView)>,
            ErrorView,
        >(None),
{
    lemma_seek_write_found(writes, key, ts1);
    lemma_seek_write_found(writes, key, ts2);
    match (seek_write_spec(writes, key, ts1), seek_write_spec(writes, key, ts2)) {
        (Ok(Some((c1, _))), Ok(Some((c2, _)))) => {
            if c1@ > c2@ {
                assert(has_version(writes, key, c1@));
            }
        },
        (Ok(Some((c1, _))), Ok(None)) => {
            if versions_together(writes, key) {
                lemma_seek_write_misses_none(writes, key, ts2, c1@);
            }
        },
        _ => {},
    }
}


/// Storing a record of an encoded user key keeps the keys of the write
/// records versions of encoded user keys.
pub proof fn lemma_put_well_keyed(writes: Entries, key: Seq<u8>, commit_ts: u64, bytes: Seq<u8>)
    requires
        well_keyed(writes),
        well_grouped(key),
    ensures
        well_keyed(put_spec(writes, append_ts_spec(key, commit_ts), bytes)),
{
    let k = append_ts_spec(key, commit_ts);
    let t = put_spec(writes, k, bytes);
    let i = seek_spec(writes, k);
    crate::kv::lemma_first_from(writes, k, 0);
    lemma_ts_round_trip(key, commit_ts);
    assert(k.take(k.len() - 8) == key);
    assert forall|j: int| 0 <= j < t.len() implies is_versioned_key(#[trigger] t[j].0) by {
        if j == i {
        } else if i < writes.len() && writes[i].0 == k {
            assert(t[j] == writes[j]);
        } else if j < i {
            assert(t[j] == writes[j]);
        } else {
            assert(t[j] == writes[j - 1]);
        }
    }
}

/// Every write record that the batch stores is stored under the version of
/// an encoded user key.
pub open spec fn stores_versions_only(ms: Seq<crate::kv::ModifyView>) -> bool {
    forall|i: int|
        0 <= i < ms.len() ==> ((#[trigger] ms[i]) matches crate::kv::ModifyView::Put(cf, k, _) ==> cf
            != CfName::Write || is_versioned_key(k))
}

/// A batch that stores write records under versions of encoded user keys
/// only keeps the keys of the write records such versions.
pub proof fn lemma_batch_keeps_well_keyed(store: crate::kv::StoreView, ms: Seq<crate::kv::ModifyView>)
    requires
        well_keyed(store.write_cf),
        stores_versions_only(ms),
    ensures
        well_keyed(store.apply_all(ms).write_cf),
    decreases ms.len(),
{
    if ms.len() > 0 {
        let front = ms.drop_last();
        assert forall|i: int| 0 <= i < front.len() implies ((#[trigger] front[i])
            matches crate::kv::ModifyView::Put(cf, k, _) ==> cf != CfName::Write || is_versioned_key(
            k,
        )) by {
            assert(front[i] == ms[i]);
        }
        lemma_batch_keeps_well_keyed(store, front);
        let before = store.apply_all(front);
        let s = before.write_cf;
        let t = before.apply(ms.last()).write_cf;
        assert(ms.last() == ms[ms.len() - 1]);
        match ms.last() {
            crate::kv::ModifyView::Put(cf, k, v) => {
                if cf == CfName::Write {
                    let i = seek_spec(s, k);
                    crate::kv::lemma_first_from(s, k, 0);
                    assert forall|j: int| 0 <= j < t.len() implies is_versioned_key(
                        #[trigger] t[j].0,
                    ) by {
                        if j == i {
                        } else if i < s.len() && s[i].0 == k {
                            assert(t[j] == s[j]);
                        } else if j < i {
                            assert(t[j] == s[j]);
                        } else {
                            assert(t[j] == s[j - 1]);
                        }
                    }
                }
            },
            crate::kv::ModifyView::Delete(cf, k) => {
                if cf == CfName::Write {
                    let i = seek_spec(s, k);
                    crate::kv::lemma_first_from(s, k, 0);
                    assert forall|j: int| 0 <= j < t.len() implies is_versioned_key(
                        #[trigger] t[j].0,
                    ) by {
                        if i < s.len() && s[i].0 == k && j >= i {
                            assert(t[j] == s[j + 1]);
                        } else {
                            assert(t[j] == s[j]);
                        }
                    }
                }
            },
            crate::kv::ModifyView::PessimisticDagger(_, _) => {},
            crate::kv::ModifyView::DeleteRange(cf, a, b, notify_only) => {
                if cf == CfName::Write && !notify_only {
                    let i = seek_spec(s, a);
                    let j = seek_spec(s, b);
                    crate::kv::lemma_first_from(s, a, 0);
                    crate::kv::lemma_first_from(s, b, 0);
                    assert forall|x: int| 0 <= x < t.len() implies is_versioned_key(
                        #[trigger] t[x].0,
                    ) by {
                        if i < j {
                            if x < i {
                                assert(t[x] == s[x]);
                            } else {
                                assert(t[x] == s[x - i + j]);
                            }
                        }
                    }
                }
            },
        }
    }
}

/// A record that is stored is the record that later seeks find: after the
/// record `write` of `key` was stored at the commit timestamp `commit_ts`,
/// a seek at a later timestamp finds it, as long as no record of the key
/// lies between the two timestamps.
pub proof fn lemma_stored_record_is_found(
    writes: Entries,
    key: Seq<u8>,
    commit_ts: TimeStamp,
    write: WriteView,
    ts: TimeStamp,
)
    requires
        sorted(writes),
        well_keyed(writes),
        well_grouped(key),
        write.short_value matches Some(v) ==> v.len() <= crate::write::SHORT_VALUE_MAX_LEN,
        commit_ts@ <= ts@,
        forall|c: u64| commit_ts@ < c <= ts@ ==> !has_version(writes, key, c),
    ensures
        seek_write_spec(
            put_spec(writes, append_ts_spec(key, commit_ts@), write.to_bytes()),
            key,
            ts,
        ) == Ok::<Option<(TimeStamp, WriteView)>, ErrorView>(Some((commit_ts, write))),
{
    let k = append_ts_spec(key, commit_ts@);
    let t = put_spec(writes, k, write.to_bytes());
    lemma_put_well_keyed(writes, key, commit_ts@, write.to_bytes());
    crate::kv::lemma_get_after_put(writes, k, write.to_bytes(), k);
    crate::write::lemma_write_round_trip(write);
    lemma_seek_write_greatest(t, key, ts);
    assert(has_version(t, key, commit_ts@));
    assert forall|c: u64| commit_ts@ < c <= ts@ implies !has_version(t, key, c) by {
        lemma_append_ts_order(key, c, commit_ts@);
        crate::kv::lemma_get_after_put(writes, k, write.to_bytes(), append_ts_spec(key, c));
        assert(!has_version(writes, key, c));
        assert(append_ts_spec(key, c) != k);
    }
    match seek_write_spec(t, key, ts) {
        Ok(Some((c, w))) => {
            assert(c@ >= commit_ts@);
            if c@ > commit_ts@ {
                assert(has_version(t, key, c@));
            }
        },
        Ok(None) => {},
        Err(e) => {
            let c = choose|c: u64|
                {
                    &&& c <= ts@
                    &&& #[trigger] has_version(t, key, c)
                    &&& parse_write_spec(get_spec(t, append_ts_spec(key, c)).unwrap()) is None
                    &&& forall|c2: u64| c < c2 <= ts@ ==> !has_version(t, key, c2)
                };
            assert(c >= commit_ts@);
        },
    }
}

/// A dagger that is stored is the dagger that later reads find: after the
/// dagger `dagger` was stored on `key`, a reader of the store finds it
/// there, where the region keeps no table of pessimistic daggers.
pub proof fn lemma_stored_dagger_is_found(
    snapshot: SnapshotView,
    term: u64,
    version: u64,
    key: Seq<u8>,
    dagger: DaggerView,
)
    requires
        sorted(snapshot.store.dagger_cf),
        snapshot.pessimistic_daggers is None,
        dagger.storable(),
    ensures
        load_dagger_spec(
            SnapshotView {
                store: snapshot.store.apply(
                    crate::kv::ModifyView::Put(CfName::Dagger, key, dagger.to_bytes()),
                ),
                ..snapshot
            },
            term,
            version,
            key,
        ) == Ok::<Option<DaggerView>, ErrorView>(Some(dagger)),
{
    crate::kv::lemma_get_after_put(snapshot.store.dagger_cf, key, dagger.to_bytes(), key);
    crate::dagger::lemma_dagger_round_trip(dagger);
}

/// The view of a looked-up record with its commit timestamp.
pub open spec fn seek_result_view(r: Option<(TimeStamp, Write)>) -> Option<(TimeStamp, WriteView)> {
    match r {
        Some((ts, w)) => Some((ts, w@)),
        None => None,
    }
}

/// The view of a record that is read by, with its commit timestamp.
pub open spec fn get_result_view(r: Option<(Write, TimeStamp)>) -> Option<(WriteView, TimeStamp)> {
    match r {
        Some((w, ts)) => Some((w@, ts)),
        None => None,
    }
}

/// The view of an optional record.
pub open spec fn opt_write_view(r: Option<Write>) -> Option<WriteView> {
    match r {
        Some(w) => Some(w@),
        None => None,
    }
}

/// The view of an optional dagger.
pub open spec fn opt_dagger_view(r: Option<Dagger>) -> Option<DaggerView> {
    match r {
        Some(d) => Some(d@),
        None => None,
    }
}

/// The first part of a pair.
pub open spec fn fst_of<A, B>(r: Option<(A, B)>) -> Option<A> {
    match r {
        Some((a, _)) => Some(a),
        None => None,
    }
}

/// The order in which a reader with the given mode moves its cursors: a
/// reader for scans keeps its order, but goes backward only where that is
/// allowed; any other moves both ways.
pub open spec fn mutant_search_mode_spec(
    mode: Option<SentinelSearchMode>,
    allow_backward: bool,
) -> SentinelSearchMode {
    match mode {
        Some(SentinelSearchMode::Forward) => SentinelSearchMode::Forward,
        Some(SentinelSearchMode::Backward) => if allow_backward {
            SentinelSearchMode::Backward
        } else {
            SentinelSearchMode::Mixed
        },
        _ => SentinelSearchMode::Mixed,
    }
}

/// The options of the cursor that a reader with the given mode makes for a
/// column family. Only the cursor over the write records of a reader for
/// one key at a time seeks by prefix.
pub open spec fn cursor_options_spec(
    cf: CfName,
    mode: Option<SentinelSearchMode>,
    fill_cache: bool,
) -> IterOptions {
    IterOptions {
        fill_cache,
        prefix_seek: cf == CfName::Write && mode is None,
        mutant_search_mode: mutant_search_mode_spec(mode, true),
        hint_min_ts: None,
        hint_max_ts: None,
    }
}

/// A reader of one snapshot of the store. It reads all versions of all
/// keys, and asks for the timestamp with each read.
pub struct EpaxosReader {
    blackbrane: Snapshot,
    data_cursor: Option<Cursor>,
    dagger_cursor: Option<Cursor>,
    write_cursor: Option<Cursor>,
    mutant_search_mode: Option<SentinelSearchMode>,
    current_key: Option<Key>,
    fill_cache: bool,
    term: u64,
    version: u64,
}

impl EpaxosReader {
    /// The snapshot that the reader reads.
    pub closed spec fn snapshot(&self) -> SnapshotView {
        self.blackbrane@
    }

    /// The mode of the reader: none for a reader that is asked about one
    /// key at a time, else the order of its scans.
    pub closed spec fn mode(&self) -> Option<SentinelSearchMode> {
        self.mutant_search_mode
    }

    /// Whether what the reader reads is worth caching.
    pub closed spec fn fills_cache(&self) -> bool {
        self.fill_cache
    }

    /// The term of the region when the request was sent; zero where it is
    /// not known.
    pub closed spec fn term(&self) -> u64 {
        self.term
    }

    /// The version of the region when the request was sent; zero where it
    /// is not known.
    pub closed spec fn version(&self) -> u64 {
        self.version
    }

    /// The cursor over the write records, once it is made.
    pub closed spec fn write_cursor(&self) -> Option<Cursor> {
        self.write_cursor
    }

    /// The cursor over the daggers, once it is made.
    pub closed spec fn dagger_cursor(&self) -> Option<Cursor> {
        self.dagger_cursor
    }

    /// The cursor over the long values, once it is made.
    pub closed spec fn data_cursor(&self) -> Option<Cursor> {
        self.data_cursor
    }

    /// The key that a reader for one key at a time was last asked about.
    pub closed spec fn current_key(&self) -> Option<Seq<u8>> {
        match self.current_key {
            Some(k) => Some(k@),
            None => None,
        }
    }

    /// Whether the two readers read the same snapshot in the same way.
    pub open spec fn same_source(&self, other: &EpaxosReader) -> bool {
        &&& self.snapshot() == other.snapshot()
        &&& self.mode() == other.mode()
        &&& self.fills_cache() == other.fills_cache()
        &&& self.term() == other.term()
        &&& self.version() == other.version()
    }

    /// A reader of `blackbrane` that knows neither term nor version of the
    /// region.
    pub fn new(
        blackbrane: Snapshot,
        mutant_search_mode: Option<SentinelSearchMode>,
        fill_cache: bool,
    ) -> (r: EpaxosReader)
        ensures
            r.snapshot() == blackbrane@,
            r.mode() == mutant_search_mode,
            r.fills_cache() == fill_cache,
            r.term() == 0,
            r.version() == 0,
            r.write_cursor() is None,
            r.dagger_cursor() is None,
            r.data_cursor() is None,
            r.current_key() is None,
    {
        EpaxosReader {
            blackbrane,
            data_cursor: None,
            dagger_cursor: None,
            write_cursor: None,
            mutant_search_mode,
            current_key: None,
            fill_cache,
            term: 0,
            version: 0,
        }
    }

    /// A reader of `blackbrane` for a request with the context `ctx`.
    pub fn new_with_ctx(
        blackbrane: Snapshot,
        mutant_search_mode: Option<SentinelSearchMode>,
        ctx: &Context,
    ) -> (r: EpaxosReader)
        ensures
            r.snapshot() == blackbrane@,
            r.mode() == mutant_search_mode,
            r.fills_cache() == !ctx.not_fill_cache,
            r.term() == ctx.term,
            r.version() == ctx.version,
            r.write_cursor() is None,
            r.dagger_cursor() is None,
            r.data_cursor() is None,
            r.current_key() is None,
    {
        EpaxosReader {
            blackbrane,
            data_cursor: None,
            dagger_cursor: None,
            write_cursor: None,
            mutant_search_mode,
            current_key: None,
            fill_cache: !ctx.get_not_fill_cache(),
            term: ctx.get_term(),
            version: ctx.get_version(),
        }
    }

    /// The snapshot that the reader reads.
    pub fn blackbrane(&self) -> (r: &Snapshot)
        ensures
            r@ == self.snapshot(),
    {
        &self.blackbrane
    }

    fn get_mutant_search_mode(&self, allow_backward: bool) -> (r: SentinelSearchMode)
        ensures
            r == mutant_search_mode_spec(self.mode(), allow_backward),
    {
        match self.mutant_search_mode {
            Some(SentinelSearchMode::Forward) => SentinelSearchMode::Forward,
            Some(SentinelSearchMode::Backward) => if allow_backward {
                SentinelSearchMode::Backward
            } else {
                SentinelSearchMode::Mixed
            },
            _ => SentinelSearchMode::Mixed,
        }
    }

    fn cursor_options(&self, cf: CfName) -> (r: IterOptions)
        ensures
            r == cursor_options_spec(cf, self.mode(), self.fills_cache()),
    {
        let prefix_seek = match cf {
            CfName::Write => self.mutant_search_mode.is_none(),
            _ => false,
        };
        IterOptions {
            fill_cache: self.fill_cache,
            prefix_seek,
            mutant_search_mode: self.get_mutant_search_mode(true),
            hint_min_ts: None,
            hint_max_ts: None,
        }
    }

    fn create_data_cursor(&mut self)
        ensures
            final(self).same_source(old(self)),
            final(self).write_cursor() == old(self).write_cursor(),
            final(self).dagger_cursor() == old(self).dagger_cursor(),
            final(self).current_key() == old(self).current_key(),
            final(self).data_cursor() == match old(self).data_cursor() {
                Some(c) => Some(c),
                None => Some(
                    Cursor {
                        position: 0,
                        options: cursor_options_spec(
                            CfName::Default,
                            old(self).mode(),
                            old(self).fills_cache(),
                        ),
                    },
                ),
            },
    {
        if self.data_cursor.is_none() {
            self.data_cursor = Some(Cursor::new(self.cursor_options(CfName::Default)));
        }
    }

    fn create_write_cursor(&mut self)
        ensures
            final(self).same_source(old(self)),
            final(self).data_cursor() == old(self).data_cursor(),
            final(self).dagger_cursor() == old(self).dagger_cursor(),
            final(self).current_key() == old(self).current_key(),
            final(self).write_cursor() == match old(self).write_cursor() {
                Some(c) => Some(c),
                None => Some(
                    Cursor {
                        position: 0,
                        options: cursor_options_spec(
                            CfName::Write,
                            old(self).mode(),
                            old(self).fills_cache(),
                        ),
                    },
                ),
            },
    {
        if self.write_cursor.is_none() {
            self.write_cursor = Some(Cursor::new(self.cursor_options(CfName::Write)));
        }
    }

    fn create_dagger_cursor(&mut self)
        ensures
            final(self).same_source(old(self)),
            final(self).data_cursor() == old(self).data_cursor(),
            final(self).write_cursor() == old(self).write_cursor(),
            final(self).current_key() == old(self).current_key(),
            final(self).dagger_cursor() == match old(self).dagger_cursor() {
                Some(c) => Some(c),
                None => Some(
                    Cursor {
                        position: 0,
                        options: cursor_options_spec(
                            CfName::Dagger,
                            old(self).mode(),
                            old(self).fills_cache(),
                        ),
                    },
                ),
            },
    {
        if self.dagger_cursor.is_none() {
            self.dagger_cursor = Some(Cursor::new(self.cursor_options(CfName::Dagger)));
        }
    }

    /// The value of the put record `write` of `key`: its short value, or
    /// what is stored for the record. That a put record has no value stored
    /// is an error.
    pub fn load_data(&mut self, key: &Key, write: Write) -> (r: Result<Vec<u8>, Error>)
        requires
            write.write_type == WriteType::Put,
        ensures
            final(self).same_source(old(self)),
            match r {
                Ok(v) => load_data_spec(old(self).snapshot().store.default_cf, key@, write@) == Ok::<
                    Seq<u8>,
                    ErrorView,
                >(v@),
                Err(e) => load_data_spec(old(self).snapshot().store.default_cf, key@, write@)
                    == Err::<Seq<u8>, ErrorView>(e@),
            },
    {
        if let Some(val) = write.short_value {
            return Ok(val);
        }
        if self.mutant_search_mode.is_some() {
            self.create_data_cursor();
        }
        let k = key.clone().append_ts(write.start_ts);
        match self.blackbrane.get(&k) {
            Some(val) => Ok(val),
            None => match key.to_cocauset() {
                Ok(raw) => Err(Error::DataNotFound { key: raw }),
                Err(e) => Err(Error::Codec(e)),
            },
        }
    }

    fn load_in_memory_pessimistic_dagger(&self, key: &Key) -> (r: Result<Option<Dagger>, Error>)
        ensures
            match r {
                Ok(d) => in_memory_dagger_spec(self.snapshot(), self.term(), self.version(), key@)
                    == Ok::<Option<DaggerView>, ErrorView>(opt_dagger_view(d)),
                Err(e) => in_memory_dagger_spec(self.snapshot(), self.term(), self.version(), key@)
                    == Err::<Option<DaggerView>, ErrorView>(e@),
            },
    {
        match &self.blackbrane.ext().pessimistic_daggers {
            None => Ok(None),
            Some(table) => {
                // A table of another term or version may have been cleared:
                // that it holds no dagger tells nothing.
                if self.term != 0 && table.term != self.term {
                    return Err(Error::StaleCommand);
                }
                if self.version != 0 && table.version != self.version {
                    return Err(Error::EpochNotMatch);
                }
                match table.get(key) {
                    Some(d) => Ok(Some(d.to_dagger())),
                    None => Ok(None),
                }
            },
        }
    }

    /// The dagger on `key`: the pessimistic dagger in the region's table,
    /// or else the dagger in the store. A table of another term or version
    /// than the reader's is an error.
    pub fn load_dagger(&mut self, key: &Key) -> (r: Result<Option<Dagger>, Error>)
        ensures
            final(self).same_source(old(self)),
            match r {
                Ok(d) => load_dagger_spec(
                    old(self).snapshot(),
                    old(self).term(),
                    old(self).version(),
                    key@,
                ) == Ok::<Option<DaggerView>, ErrorView>(opt_dagger_view(d)),
                Err(e) => load_dagger_spec(
                    old(self).snapshot(),
                    old(self).term(),
                    old(self).version(),
                    key@,
                ) == Err::<Option<DaggerView>, ErrorView>(e@),
            },
    {
        match self.load_in_memory_pessimistic_dagger(key) {
            Err(e) => {
                return Err(e);
            },
            Ok(Some(d)) => {
                return Ok(Some(d));
            },
            Ok(None) => {},
        }
        if self.mutant_search_mode.is_some() {
            self.create_dagger_cursor();
        }
        match self.blackbrane.cf(CfName::Dagger).get(key.as_encoded().as_slice()) {
            Some(v) => match Dagger::parse(v.as_slice()) {
                Ok(d) => Ok(Some(d)),
                Err(e) => Err(e),
            },
            None => Ok(None),
        }
    }

    /// The write record of `key` with the greatest commit timestamp that is
    /// not after `ts`, with that timestamp. The cursor over the write
    /// records is left where the seek landed; a reader for one key at a time
    /// that is asked about another key than the last makes a new cursor.
    pub fn seek_write(&mut self, key: &Key, ts: TimeStamp) -> (r: Result<
        Option<(TimeStamp, Write)>,
        Error,
    >)
        ensures
            final(self).same_source(old(self)),
            final(self).write_cursor() is Some,
            final(self).write_cursor().unwrap().position == seek_spec(
                old(self).snapshot().store.write_cf,
                append_ts_spec(key@, ts@),
            ),
            final(self).write_cursor().unwrap().options == if old(self).write_cursor() is Some && !(
            old(self).mode() is None && old(self).current_key() != Some(key@)) {
                old(self).write_cursor().unwrap().options
            } else {
                cursor_options_spec(CfName::Write, old(self).mode(), old(self).fills_cache())
            },
            final(self).current_key() == if old(self).mode() is None {
                Some(key@)
            } else {
                old(self).current_key()
            },
            match r {
                Ok(found) => {
                    &&& seek_write_spec(old(self).snapshot().store.write_cf, key@, ts) == Ok::<
                        Option<(TimeStamp, WriteView)>,
                        ErrorView,
                    >(seek_result_view(found))
                    &&& found matches Some((commit_ts, _)) ==> commit_ts@ <= ts@
                },
                Err(e) => seek_write_spec(old(self).snapshot().store.write_cf, key@, ts) == Err::<
                    Option<(TimeStamp, WriteView)>,
                    ErrorView,
                >(e@),
            },
            // The record found is the newest of the key at or before `ts`.
            r matches Ok(Some((commit_ts, _))) ==> has_version(
                old(self).snapshot().store.write_cf,
                key@,
                commit_ts@,
            ) && forall|c: u64|
                commit_ts@ < c <= ts@ ==> !has_version(
                    old(self).snapshot().store.write_cf,
                    key@,
                    c,
                ),
            // Where no other key is stored among the versions of the key,
            // none is found only where the key has no record at or before
            // `ts`.
            versions_together(old(self).snapshot().store.write_cf, key@) && (r matches Ok(None))
                ==> forall|c: u64|
                c <= ts@ ==> !has_version(old(self).snapshot().store.write_cf, key@, c),
    {
        let other_key = match &self.current_key {
            Some(k) => !k.same(key),
            None => true,
        };
        if self.mutant_search_mode.is_none() && other_key {
            self.current_key = Some(key.clone());
            self.write_cursor = None;
        }
        self.create_write_cursor();
        let mut cursor = self.write_cursor.unwrap();
        let cf = self.blackbrane.cf(CfName::Write);
        let target = key.clone().append_ts(ts);
        let found = cursor.near_seek(cf, target.as_encoded().as_slice());
        proof {
            lemma_seek_write_found(cf@, key@, ts);
            if versions_together(cf@, key@) {
                assert forall|c: u64| c <= ts@ && has_version(cf@, key@, c) implies !(
                seek_write_spec(cf@, key@, ts) matches Ok(None)) by {
                    lemma_seek_write_misses_none(cf@, key@, ts, c);
                }
            }
        }
        self.write_cursor = Some(cursor);
        if !found {
            return Ok(None);
        }
        let cf = self.blackbrane.cf(CfName::Write);
        let write_key = cursor.key(cf);
        let commit_ts = match Key::decode_ts_from(write_key.as_slice()) {
            Ok(t) => t,
            Err(e) => {
                return Err(Error::Codec(e));
            },
        };
        if !Key::is_user_key_eq(write_key.as_slice(), key.as_encoded().as_slice()) {
            return Ok(None);
        }
        proof {
            let writes = old(self).snapshot().store.write_cf;
            crate::kv::lemma_first_from(writes, target@, 0);
            lemma_versioned_key_parts(write_key@);
            lemma_append_ts_order(key@, commit_ts@, ts@);
        }
        match Write::parse(cursor.value(cf).as_slice()) {
            Ok(w) => Ok(Some((commit_ts, w))),
            Err(e) => Err(e),
        }
    }

    /// The put that a read of `key` at `ts` goes by, with its commit
    /// timestamp; see `get_write`.
    pub fn get_write_with_commit_ts(
        &mut self,
        key: &Key,
        ts: TimeStamp,
        gc_fence_limit: Option<TimeStamp>,
    ) -> (r: Result<Option<(Write, TimeStamp)>, Error>)
        ensures
            final(self).same_source(old(self)),
            match r {
                Ok(found) => get_write_spec(
                    old(self).snapshot().store.write_cf,
                    key@,
                    ts,
                    gc_fence_limit,
                ) == Ok::<Option<(WriteView, TimeStamp)>, ErrorView>(get_result_view(found)),
                Err(e) => get_write_spec(
                    old(self).snapshot().store.write_cf,
                    key@,
                    ts,
                    gc_fence_limit,
                ) == Err::<Option<(WriteView, TimeStamp)>, ErrorView>(e@),
            },
    {
        let ghost writes = self.snapshot().store.write_cf;
        let mut seek_ts = ts;
        loop
            invariant
                self.same_source(old(self)),
                writes == old(self).snapshot().store.write_cf,
                get_write_spec(writes, key@, seek_ts, gc_fence_limit) == get_write_spec(
                    writes,
                    key@,
                    ts,
                    gc_fence_limit,
                ),
            decreases seek_ts@,
        {
            match self.seek_write(key, seek_ts) {
                Err(e) => {
                    return Err(e);
                },
                Ok(None) => {
                    return Ok(None);
                },
                Ok(Some((commit_ts, write))) => {
                    if let Some(limit) = gc_fence_limit {
                        if !write.check_gc_fence_as_latest_version(limit) {
                            return Ok(None);
                        }
                    }
                    match write.write_type {
                        WriteType::Put => {
                            return Ok(Some((write, commit_ts)));
                        },
                        WriteType::Delete => {
                            return Ok(None);
                        },
                        _ => {
                            if commit_ts.is_zero() {
                                return Ok(None);
                            }
                            seek_ts = commit_ts.prev();
                        },
                    }
                },
            }
        }
    }

    /// The put that a read of `key` at `ts` goes by: the newest put or
    /// delete record at or before `ts` decides. Where a limit is given, a
    /// record whose fence does not allow a read at the limit gives no
    /// answer.
    pub fn get_write(&mut self, key: &Key, ts: TimeStamp, gc_fence_limit: Option<TimeStamp>) -> (r:
        Result<Option<Write>, Error>)
        ensures
            final(self).same_source(old(self)),
            match r {
                Ok(found) => match get_write_spec(
                    old(self).snapshot().store.write_cf,
                    key@,
                    ts,
                    gc_fence_limit,
                ) {
                    Ok(w) => fst_of(w) == opt_write_view(found),
                    Err(_) => false,
                },
                Err(e) => get_write_spec(
                    old(self).snapshot().store.write_cf,
                    key@,
                    ts,
                    gc_fence_limit,
                ) == Err::<Option<(WriteView, TimeStamp)>, ErrorView>(e@),
            },
    {
        match self.get_write_with_commit_ts(key, ts, gc_fence_limit) {
            Ok(Some((w, _))) => Ok(Some(w)),
            Ok(None) => Ok(None),
            Err(e) => Err(e),
        }
    }

    /// The value that a read of `key` at `ts` gives. Daggers on the key
    /// are not looked at.
    pub fn get(&mut self, key: &Key, ts: TimeStamp, gc_fence_limit: Option<TimeStamp>) -> (r:
        Result<Option<Vec<u8>>, Error>)
        ensures
            final(self).same_source(old(self)),
            match r {
                Ok(v) => get_value_spec(old(self).snapshot(), key@, ts, gc_fence_limit) == Ok::<
                    Option<Seq<u8>>,
                    ErrorView,
                >(opt_bytes_view(v)),
                Err(e) => get_value_spec(old(self).snapshot(), key@, ts, gc_fence_limit) == Err::<
                    Option<Seq<u8>>,
                    ErrorView,
                >(e@),
            },
    {
        match self.get_write(key, ts, gc_fence_limit) {
            Err(e) => Err(e),
            Ok(None) => Ok(None),
            Ok(Some(write)) => {
                proof {
                    lemma_get_write_is_put(
                        old(self).snapshot().store.write_cf,
                        key@,
                        ts,
                        gc_fence_limit,
                    );
                }
                match self.load_data(key, write) {
                    Ok(v) => Ok(Some(v)),
                    Err(e) => Err(e),
                }
            },
        }
    }

    /// What the write records of `key` tell of the transaction that started
    /// at `start_ts`.
    pub fn get_solitontxn_commit_record(&mut self, key: &Key, start_ts: TimeStamp) -> (r: Result<
        TxnCommitRecord,
        Error,
    >)
        ensures
            final(self).same_source(old(self)),
            match r {
                Ok(record) => txn_commit_record_spec(
                    old(self).snapshot().store.write_cf,
                    key@,
                    start_ts,
                ) == Ok::<TxnCommitRecordView, ErrorView>(record@),
                Err(e) => txn_commit_record_spec(
                    old(self).snapshot().store.write_cf,
                    key@,
                    start_ts,
                ) == Err::<TxnCommitRecordView, ErrorView>(e@),
            },
    {
        let ghost writes = self.snapshot().store.write_cf;
        // A transaction that started earlier may have committed later, so
        // every record from the newest down to the start timestamp counts.
        let mut seek_ts = TimeStamp::max();
        let mut gc_fence = TimeStamp::zero();
        loop
            invariant
                self.same_source(old(self)),
                writes == old(self).snapshot().store.write_cf,
                commit_record_spec(writes, key@, start_ts, seek_ts, gc_fence)
                    == txn_commit_record_spec(writes, key@, start_ts),
            decreases seek_ts@,
        {
            match self.seek_write(key, seek_ts) {
                Err(e) => {
                    return Err(e);
                },
                Ok(None) => {
                    return Ok(TxnCommitRecord::NoRecord { overlapped_write: None });
                },
                Ok(Some((commit_ts, write))) => {
                    if write.start_ts.into_inner() == start_ts.into_inner() {
                        return Ok(TxnCommitRecord::SingleRecord { commit_ts, write });
                    }
                    if commit_ts.into_inner() == start_ts.into_inner() {
                        if write.has_overlapped_rollback {
                            return Ok(TxnCommitRecord::OverlappedRollback { commit_ts });
                        }
                        return Ok(
                            TxnCommitRecord::NoRecord {
                                overlapped_write: Some(OverlappedWrite { write, gc_fence }),
                            },
                        );
                    }
                    match write.write_type {
                        WriteType::Put => {
                            gc_fence = commit_ts;
                        },
                        WriteType::Delete => {
                            gc_fence = commit_ts;
                        },
                        _ => {},
                    }
                    if commit_ts.into_inner() < start_ts.into_inner() || commit_ts.is_zero() {
                        return Ok(TxnCommitRecord::NoRecord { overlapped_write: None });
                    }
                    seek_ts = commit_ts.prev();
                },
            }
        }
    }
}

/// A delete hides the puts before it: where the newest record of a key at
/// or before `ts` is a delete, a read at `ts` finds no value, whatever was
/// put before.
pub proof fn lemma_delete_hides_older_puts(
    writes: Entries,
    key: Seq<u8>,
    ts: TimeStamp,
    gc_fence_limit: Option<TimeStamp>,
)
    requires
        seek_write_spec(writes, key, ts) matches Ok(Some((_, write))) && write.write_type
            == WriteType::Delete,
    ensures
        get_write_spec(writes, key, ts, gc_fence_limit) == Ok::<
            Option<(WriteView, TimeStamp)>,
            ErrorView,
        >(None),
{
}

/// A put is read until something newer is committed: where the newest
/// record of a key at or before `ts` is a put, a read at `ts` without a
/// limit goes by it.
pub proof fn lemma_newest_put_is_read(writes: Entries, key: Seq<u8>, ts: TimeStamp)
    requires
        seek_write_spec(writes, key, ts) matches Ok(Some((_, write))) && write.write_type
            == WriteType::Put,
    ensures
        get_write_spec(writes, key, ts, None) == (match seek_write_spec(writes, key, ts) {
            Ok(Some((commit_ts, write))) => Ok::<Option<(WriteView, TimeStamp)>, ErrorView>(
                Some((write, commit_ts)),
            ),
            _ => Ok(None),
        }),
{
}

/// A record that a read goes by is a put.
pub proof fn lemma_get_write_is_put(
    writes: Entries,
    key: Seq<u8>,
    ts: TimeStamp,
    gc_fence_limit: Option<TimeStamp>,
)
    ensures
        get_write_spec(writes, key, ts, gc_fence_limit) matches Ok(Some((write, _)))
            ==> write.write_type == WriteType::Put,
    decreases ts@,
{
    match seek_write_spec(writes, key, ts) {
        Ok(Some((commit_ts, write))) => {
            if !(gc_fence_limit is Some && !write.gc_fence_allows(gc_fence_limit.unwrap())) {
                if write.write_type != WriteType::Put && write.write_type != WriteType::Delete {
                    if !(commit_ts@ == 0 || commit_ts@ > ts@) {
                        lemma_get_write_is_put(
                            writes,
                            key,
                            TimeStamp((commit_ts@ - 1) as u64),
                            gc_fence_limit,
                        );
                    }
                }
            }
        },
        _ => {},
    }
}


/// The record of `key` that is stored at the commit timestamp `c`; none
/// where nothing is stored there, or bytes that are no record.
pub open spec fn record_at(writes: Entries, key: Seq<u8>, c: u64) -> Option<WriteView> {
    match get_spec(writes, append_ts_spec(key, c)) {
        Some(bytes) => parse_write_spec(bytes),
        None => None,
    }
}

/// Whether a put or a delete of `key` is stored at the commit timestamp `c`.
pub open spec fn is_change_at(writes: Entries, key: Seq<u8>, c: u64) -> bool {
    record_at(writes, key, c) matches Some(w) && (w.write_type == WriteType::Put || w.write_type
        == WriteType::Delete)
}

/// A read passes over what is stored for `key` at `c`: nothing, or a dagger
/// or rollback record whose fence allows a read at the limit.
pub open spec fn read_passes_over(
    writes: Entries,
    key: Seq<u8>,
    c: u64,
    gc_fence_limit: Option<TimeStamp>,
) -> bool {
    has_version(writes, key, c) ==> (match record_at(writes, key, c) {
        Some(w) => (w.write_type == WriteType::Dagger || w.write_type == WriteType::Rollback) && (
        gc_fence_limit is Some ==> w.gc_fence_allows(gc_fence_limit.unwrap())),
        None => false,
    })
}

/// The put or delete `w`, committed at `c`, is the newest put or delete of
/// `key` at or before `ts`, and a read passes over the records after it.
pub open spec fn newest_change(
    writes: Entries,
    key: Seq<u8>,
    ts: TimeStamp,
    gc_fence_limit: Option<TimeStamp>,
    c: u64,
    w: WriteView,
) -> bool {
    &&& c <= ts@
    &&& record_at(writes, key, c) == Some(w)
    &&& (w.write_type == WriteType::Put || w.write_type == WriteType::Delete)
    &&& forall|c2: u64| c < c2 <= ts@ ==> read_passes_over(writes, key, c2, gc_fence_limit)
}

/// A read goes by the newest put or delete at or before its timestamp:
/// where the versions of `key` lie together, a read at `ts` gives that
/// record if it is a put whose fence allows the read, and nothing if it is
/// a delete or its fence does not allow the read.
pub proof fn lemma_read_goes_by_newest_change(
    writes: Entries,
    key: Seq<u8>,
    ts: TimeStamp,
    gc_fence_limit: Option<TimeStamp>,
    c: u64,
    w: WriteView,
)
    requires
        sorted(writes),
        versions_together(writes, key),
        newest_change(writes, key, ts, gc_fence_limit, c, w),
    ensures
        get_write_spec(writes, key, ts, gc_fence_limit) == Ok::<
            Option<(WriteView, TimeStamp)>,
            ErrorView,
        >(
            if w.write_type == WriteType::Put && (gc_fence_limit is Some ==> w.gc_fence_allows(
                gc_fence_limit.unwrap(),
            )) {
                Some((w, TimeStamp(c)))
            } else {
                None
            },
        ),
    decreases ts@ - c,
{
    lemma_seek_write_found(writes, key, ts);
    lemma_seek_write_misses_none(writes, key, ts, c);
    match seek_write_spec(writes, key, ts) {
        Ok(Some((c1, w1))) => {
            assert(has_version(writes, key, c));
            assert(c <= c1@);
            if c1@ > c {
                assert(read_passes_over(writes, key, c1@, gc_fence_limit));
                let before = TimeStamp((c1@ - 1) as u64);
                assert(newest_change(writes, key, before, gc_fence_limit, c, w));
                lemma_read_goes_by_newest_change(writes, key, before, gc_fence_limit, c, w);
            }
        },
        _ => {
            let bad = choose|bad: u64|
                {
                    &&& bad <= ts@
                    &&& #[trigger] has_version(writes, key, bad)
                    &&& parse_write_spec(get_spec(writes, append_ts_spec(key, bad)).unwrap())
                        is None
                    &&& forall|c2: u64| bad < c2 <= ts@ ==> !has_version(writes, key, c2)
                };
            assert(has_version(writes, key, c));
            assert(c <= bad);
            if bad > c {
                assert(read_passes_over(writes, key, bad, gc_fence_limit));
            }
        },
    }
}

/// Whatever a read goes by is the newest put or delete at or before its
/// timestamp, in any store and for any key: it is a put whose fence allows
/// the read, and the read passes over every record of the key after it.
pub proof fn lemma_read_is_newest_change(
    writes: Entries,
    key: Seq<u8>,
    ts: TimeStamp,
    gc_fence_limit: Option<TimeStamp>,
)
    requires
        sorted(writes),
    ensures
        get_write_spec(writes, key, ts, gc_fence_limit) matches Ok(Some((w, c))) ==> {
            &&& newest_change(writes, key, ts, gc_fence_limit, c@, w)
            &&& w.write_type == WriteType::Put
            &&& gc_fence_limit is Some ==> w.gc_fence_allows(gc_fence_limit.unwrap())
        },
    decreases ts@,
{
    lemma_seek_write_found(writes, key, ts);
    match seek_write_spec(writes, key, ts) {
        Ok(Some((c1, w1))) => {
            if !(gc_fence_limit is Some && !w1.gc_fence_allows(gc_fence_limit.unwrap())) {
                if w1.write_type != WriteType::Put && w1.write_type != WriteType::Delete {
                    if !(c1@ == 0 || c1@ > ts@) {
                        let before = TimeStamp((c1@ - 1) as u64);
                        lemma_read_is_newest_change(writes, key, before, gc_fence_limit);
                        assert(read_passes_over(writes, key, c1@, gc_fence_limit));
                        match get_write_spec(writes, key, before, gc_fence_limit) {
                            Ok(Some((w, c))) => {
                                assert forall|c2: u64| c@ < c2 <= ts@ implies read_passes_over(
                                    writes,
                                    key,
                                    c2,
                                    gc_fence_limit,
                                ) by {
                                    if c2 > c1@ {
                                        assert(!has_version(writes, key, c2));
                                    }
                                }
                            },
                            _ => {},
                        }
                    }
                }
            }
        },
        _ => {},
    }
}

/// A read finds nothing where there is no put or delete to go by: in a
/// store whose keys are versions of encoded user keys, a read at `ts` that
/// passes over every record of `key` at or before `ts` gives nothing.
pub proof fn lemma_read_without_change(
    writes: Entries,
    key: Seq<u8>,
    ts: TimeStamp,
    gc_fence_limit: Option<TimeStamp>,
)
    requires
        sorted(writes),
        well_keyed(writes),
        forall|c: u64| c <= ts@ ==> read_passes_over(writes, key, c, gc_fence_limit),
    ensures
        get_write_spec(writes, key, ts, gc_fence_limit) == Ok::<
            Option<(WriteView, TimeStamp)>,
            ErrorView,
        >(None),
    decreases ts@,
{
    lemma_seek_write_found(writes, key, ts);
    let i = seek_spec(writes, append_ts_spec(key, ts@));
    lemma_seek_sorted(writes, append_ts_spec(key, ts@));
    if i < writes.len() {
        assert(is_versioned_key(writes[i].0));
    }
    match seek_write_spec(writes, key, ts) {
        Ok(Some((c1, w1))) => {
            assert(read_passes_over(writes, key, c1@, gc_fence_limit));
            if c1@ != 0 {
                lemma_read_without_change(
                    writes,
                    key,
                    TimeStamp((c1@ - 1) as u64),
                    gc_fence_limit,
                );
            }
        },
        Ok(None) => {},
        Err(e) => {
            let bad = choose|bad: u64|
                {
                    &&& bad <= ts@
                    &&& #[trigger] has_version(writes, key, bad)
                    &&& parse_write_spec(get_spec(writes, append_ts_spec(key, bad)).unwrap())
                        is None
                    &&& forall|c2: u64| bad < c2 <= ts@ ==> !has_version(writes, key, c2)
                };
            assert(read_passes_over(writes, key, bad, gc_fence_limit));
        },
    }
}


/// Whether the search for the transaction that started at `start_ts` ends
/// at the record `w` committed at `c`: the transaction wrote it, or it was
/// committed at or before `start_ts`.
pub open spec fn ends_search(start_ts: TimeStamp, c: u64, w: WriteView) -> bool {
    w.start_ts == start_ts || c <= start_ts@
}

/// The search for the transaction that started at `start_ts` passes over
/// what is stored for `key` at `c`: nothing, or a record that does not end
/// the search.
pub open spec fn search_passes_over(
    writes: Entries,
    key: Seq<u8>,
    start_ts: TimeStamp,
    c: u64,
) -> bool {
    has_version(writes, key, c) ==> (match record_at(writes, key, c) {
        Some(w) => !ends_search(start_ts, c, w),
        None => false,
    })
}

/// `fence` is the commit timestamp of the nearest put or delete of `key`
/// that is newer than `c`, or zero where there is none.
pub open spec fn is_fence_after(writes: Entries, key: Seq<u8>, c: u64, fence: u64) -> bool {
    if fence == 0 {
        forall|c2: u64| c < c2 ==> !is_change_at(writes, key, c2)
    } else {
        &&& c < fence
        &&& is_change_at(writes, key, fence)
        &&& forall|c2: u64| c < c2 < fence ==> !is_change_at(writes, key, c2)
    }
}

/// What the record `w`, committed at `c`, tells of the transaction that
/// started at `start_ts`, where the search ends at it. Written by the
/// transaction, it is its record. Committed at `start_ts` by another, it
/// tells of a rollback if it is marked so, and else comes along with the
/// fence. Committed before `start_ts`, it tells nothing.
pub open spec fn commit_record_at(
    start_ts: TimeStamp,
    c: u64,
    w: WriteView,
    fence: u64,
) -> TxnCommitRecordView {
    if w.start_ts == start_ts {
        TxnCommitRecordView::SingleRecord { commit_ts: TimeStamp(c), write: w }
    } else if c == start_ts@ {
        if w.has_overlapped_rollback {
            TxnCommitRecordView::OverlappedRollback { commit_ts: TimeStamp(c) }
        } else {
            TxnCommitRecordView::NoRecord {
                overlapped_write: Some(OverlappedWriteView { write: w, gc_fence: TimeStamp(fence) }),
            }
        }
    } else {
        TxnCommitRecordView::NoRecord { overlapped_write: None }
    }
}

/// The fence that the search carries when it has come down to `seek_ts`.
spec fn fence_carried(writes: Entries, key: Seq<u8>, seek_ts: u64, gc_fence: u64) -> bool {
    if gc_fence == 0 {
        forall|c2: u64| seek_ts < c2 ==> !is_change_at(writes, key, c2)
    } else {
        &&& seek_ts < gc_fence
        &&& is_change_at(writes, key, gc_fence)
        &&& forall|c2: u64| seek_ts < c2 < gc_fence ==> !is_change_at(writes, key, c2)
    }
}

/// The search from `seek_ts` down ends at the newest record that ends it.
proof fn lemma_commit_record_from(
    writes: Entries,
    key: Seq<u8>,
    start_ts: TimeStamp,
    seek_ts: u64,
    gc_fence: u64,
    c: u64,
    w: WriteView,
    fence: u64,
)
    requires
        sorted(writes),
        versions_together(writes, key),
        record_at(writes, key, c) == Some(w),
        ends_search(start_ts, c, w),
        c <= seek_ts,
        forall|c2: u64| c < c2 <= seek_ts ==> search_passes_over(writes, key, start_ts, c2),
        fence_carried(writes, key, seek_ts, gc_fence),
        is_fence_after(writes, key, c, fence),
    ensures
        commit_record_spec(writes, key, start_ts, TimeStamp(seek_ts), TimeStamp(gc_fence)) == Ok::<
            TxnCommitRecordView,
            ErrorView,
        >(commit_record_at(start_ts, c, w, fence)),
    decreases seek_ts - c,
{
    let at = TimeStamp(seek_ts);
    lemma_seek_write_found(writes, key, at);
    assert(has_version(writes, key, c));
    lemma_seek_write_misses_none(writes, key, at, c);
    match seek_write_spec(writes, key, at) {
        Ok(Some((c1, w1))) => {
            assert(c <= c1@);
            if c1@ == c {
                // No record lies between the two, so the fence carried is
                // the nearest newer put or delete.
                assert forall|c2: u64| c < c2 <= seek_ts implies !is_change_at(
                    writes,
                    key,
                    c2,
                ) by {
                    assert(!has_version(writes, key, c2));
                }
                if gc_fence != fence {
                    if gc_fence != 0 && fence != 0 {
                        assert(is_change_at(writes, key, gc_fence));
                        assert(is_change_at(writes, key, fence));
                    }
                }
                assert(gc_fence == fence);
            } else {
                assert(search_passes_over(writes, key, start_ts, c1@));
                let next_fence = if w1.write_type == WriteType::Put || w1.write_type
                    == WriteType::Delete {
                    c1@
                } else {
                    gc_fence
                };
                let below = (c1@ - 1) as u64;
                assert forall|c2: u64| below < c2 && (next_fence == 0 || c2
                    < next_fence) implies !is_change_at(writes, key, c2) by {
                    if c2 > c1@ && c2 <= seek_ts {
                        assert(!has_version(writes, key, c2));
                    }
                }
                assert(fence_carried(writes, key, below, next_fence));
                lemma_commit_record_from(writes, key, start_ts, below, next_fence, c, w, fence);
            }
        },
        _ => {
            let bad = choose|bad: u64|
                {
                    &&& bad <= seek_ts
                    &&& #[trigger] has_version(writes, key, bad)
                    &&& parse_write_spec(get_spec(writes, append_ts_spec(key, bad)).unwrap())
                        is None
                    &&& forall|c2: u64| bad < c2 <= seek_ts ==> !has_version(writes, key, c2)
                };
            assert(c <= bad);
            if bad > c {
                assert(search_passes_over(writes, key, start_ts, bad));
            }
        },
    }
}

/// What the records of a key tell of a transaction is told by the newest
/// record that ends the search for it: where the versions of `key` lie
/// together, `w` committed at `c` is such a record, and `fence` is the
/// commit timestamp of the nearest newer put or delete, or zero.
pub proof fn lemma_commit_record_is_newest_end(
    writes: Entries,
    key: Seq<u8>,
    start_ts: TimeStamp,
    c: u64,
    w: WriteView,
    fence: u64,
)
    requires
        sorted(writes),
        versions_together(writes, key),
        record_at(writes, key, c) == Some(w),
        ends_search(start_ts, c, w),
        forall|c2: u64| c < c2 ==> search_passes_over(writes, key, start_ts, c2),
        is_fence_after(writes, key, c, fence),
    ensures
        txn_commit_record_spec(writes, key, start_ts) == Ok::<TxnCommitRecordView, ErrorView>(
            commit_record_at(start_ts, c, w, fence),
        ),
{
    lemma_commit_record_from(writes, key, start_ts, u64::MAX, 0, c, w, fence);
}

/// What the search from `seek_ts` down tells is told by a record that ends
/// it, after records that it passes over.
proof fn lemma_commit_record_found_from(
    writes: Entries,
    key: Seq<u8>,
    start_ts: TimeStamp,
    seek_ts: u64,
    gc_fence: u64,
)
    requires
        sorted(writes),
        forall|c2: u64| seek_ts < c2 ==> search_passes_over(writes, key, start_ts, c2),
        fence_carried(writes, key, seek_ts, gc_fence),
    ensures
        match commit_record_spec(writes, key, start_ts, TimeStamp(seek_ts), TimeStamp(gc_fence)) {
            Ok(TxnCommitRecordView::NoRecord { overlapped_write: None }) => true,
            Ok(r) => exists|c: u64, w: WriteView, fence: u64|
                {
                    &&& #[trigger] commit_record_at(start_ts, c, w, fence) == r
                    &&& record_at(writes, key, c) == Some(w)
                    &&& ends_search(start_ts, c, w)
                    &&& is_fence_after(writes, key, c, fence)
                    &&& forall|c2: u64| c < c2 ==> search_passes_over(writes, key, start_ts, c2)
                },
            Err(_) => true,
        },
    decreases seek_ts,
{
    let at = TimeStamp(seek_ts);
    lemma_seek_write_found(writes, key, at);
    match seek_write_spec(writes, key, at) {
        Ok(Some((c1, w1))) => {
            assert forall|c2: u64| c1@ < c2 implies search_passes_over(
                writes,
                key,
                start_ts,
                c2,
            ) by {
                if c2 <= seek_ts {
                    assert(!has_version(writes, key, c2));
                }
            }
            assert forall|c2: u64| c1@ < c2 <= seek_ts implies !is_change_at(writes, key, c2) by {
                assert(!has_version(writes, key, c2));
            }
            if ends_search(start_ts, c1@, w1) {
                assert(is_fence_after(writes, key, c1@, gc_fence));
                assert(commit_record_spec(
                    writes,
                    key,
                    start_ts,
                    TimeStamp(seek_ts),
                    TimeStamp(gc_fence),
                ) == Ok::<TxnCommitRecordView, ErrorView>(
                    commit_record_at(start_ts, c1@, w1, gc_fence),
                ));
            } else {
                let next_fence = if w1.write_type == WriteType::Put || w1.write_type
                    == WriteType::Delete {
                    c1@
                } else {
                    gc_fence
                };
                let below = (c1@ - 1) as u64;
                assert(search_passes_over(writes, key, start_ts, c1@));
                assert forall|c2: u64| below < c2 && (next_fence == 0 || c2
                    < next_fence) implies !is_change_at(writes, key, c2) by {}
                assert(fence_carried(writes, key, below, next_fence));
                lemma_commit_record_found_from(writes, key, start_ts, below, next_fence);
            }
        },
        _ => {},
    }
}

/// Whatever the records of a key tell of a transaction, a record that ends
/// the search for it tells, in any store and for any key: an outcome
/// other than no record at all is what a stored record tells, the search
/// passes over every record of the key after that one, and the fence that
/// comes along is the commit timestamp of the nearest newer put or delete,
/// or zero.
pub proof fn lemma_commit_record_is_told(writes: Entries, key: Seq<u8>, start_ts: TimeStamp)
    requires
        sorted(writes),
    ensures
        match txn_commit_record_spec(writes, key, start_ts) {
            Ok(TxnCommitRecordView::NoRecord { overlapped_write: None }) => true,
            Ok(r) => exists|c: u64, w: WriteView, fence: u64|
                {
                    &&& #[trigger] commit_record_at(start_ts, c, w, fence) == r
                    &&& record_at(writes, key, c) == Some(w)
                    &&& ends_search(start_ts, c, w)
                    &&& is_fence_after(writes, key, c, fence)
                    &&& forall|c2: u64| c < c2 ==> search_passes_over(writes, key, start_ts, c2)
                },
            Err(_) => true,
        },
{
    lemma_commit_record_found_from(writes, key, start_ts, u64::MAX, 0);
}

/// The search from `seek_ts` down that passes over every record finds none.
proof fn lemma_no_commit_record_from(
    writes: Entries,
    key: Seq<u8>,
    start_ts: TimeStamp,
    seek_ts: u64,
    gc_fence: u64,
)
    requires
        sorted(writes),
        well_keyed(writes),
        forall|c: u64| c <= seek_ts ==> search_passes_over(writes, key, start_ts, c),
    ensures
        commit_record_spec(writes, key, start_ts, TimeStamp(seek_ts), TimeStamp(gc_fence)) == Ok::<
            TxnCommitRecordView,
            ErrorView,
        >(TxnCommitRecordView::NoRecord { overlapped_write: None }),
    decreases seek_ts,
{
    let at = TimeStamp(seek_ts);
    lemma_seek_write_found(writes, key, at);
    let i = seek_spec(writes, append_ts_spec(key, seek_ts));
    lemma_seek_sorted(writes, append_ts_spec(key, seek_ts));
    if i < writes.len() {
        assert(is_versioned_key(writes[i].0));
    }
    match seek_write_spec(writes, key, at) {
        Ok(Some((c1, w1))) => {
            assert(search_passes_over(writes, key, start_ts, c1@));
            let next_fence = if w1.write_type == WriteType::Put || w1.write_type
                == WriteType::Delete {
                c1@
            } else {
                gc_fence
            };
            lemma_no_commit_record_from(writes, key, start_ts, (c1@ - 1) as u64, next_fence);
        },
        Ok(None) => {},
        Err(e) => {
            let bad = choose|bad: u64|
                {
                    &&& bad <= seek_ts
                    &&& #[trigger] has_version(writes, key, bad)
                    &&& parse_write_spec(get_spec(writes, append_ts_spec(key, bad)).unwrap())
                        is None
                    &&& forall|c2: u64| bad < c2 <= seek_ts ==> !has_version(writes, key, c2)
                };
            assert(search_passes_over(writes, key, start_ts, bad));
        },
    }
}

/// Where no record ends the search, the records of the key tell nothing of
/// the transaction: in a store whose keys are versions of encoded user
/// keys, a search that passes over every record of `key` finds none.
pub proof fn lemma_no_commit_record(writes: Entries, key: Seq<u8>, start_ts: TimeStamp)
    requires
        sorted(writes),
        well_keyed(writes),
        forall|c: u64| search_passes_over(writes, key, start_ts, c),
    ensures
        txn_commit_record_spec(writes, key, start_ts) == Ok::<TxnCommitRecordView, ErrorView>(
            TxnCommitRecordView::NoRecord { overlapped_write: None },
        ),
{
    lemma_no_commit_record_from(writes, key, start_ts, u64::MAX, 0);
}


/// The user key of the first record from `i` on, in the order of the store,
/// that was written by the transaction that started at `ts`.
pub open spec fn seek_ts_from(writes: Entries, ts: TimeStamp, i: int) -> Result<
    Option<Seq<u8>>,
    ErrorView,
>
    decreases writes.len() - i,
{
    if i < 0 || i >= writes.len() {
        Ok(None)
    } else {
        match parse_write_spec(writes[i].1) {
            None => Err(ErrorView::BadFormatWrite),
            Some(w) => if w.start_ts == ts {
                match truncate_ts_spec(writes[i].0) {
                    Some(k) => Ok(Some(k)),
                    None => Err(ErrorView::Codec(CodecError::KeyLength)),
                }
            } else {
                seek_ts_from(writes, ts, i + 1)
            },
        }
    }
}

/// The daggers from `i` on that `keep` holds of, with their keys, added to
/// `acc`; and whether the scan ended because `limit` of them were found. The
/// scan ends at the end of the daggers, at the first key that is not before
/// `end`, or with the dagger that fills the limit; no limit is set by zero.
pub open spec fn scan_daggers_from(
    daggers: Entries,
    i: int,
    end: Option<Seq<u8>>,
    keep: spec_fn(DaggerView) -> bool,
    limit: nat,
    acc: Seq<(Seq<u8>, DaggerView)>,
) -> Result<(Seq<(Seq<u8>, DaggerView)>, bool), ErrorView>
    decreases daggers.len() - i,
{
    if i < 0 || i >= daggers.len() {
        Ok((acc, false))
    } else if end is Some && !bytes_lt(daggers[i].0, end.unwrap()) {
        Ok((acc, false))
    } else {
        match parse_dagger_spec(daggers[i].1) {
            None => Err(ErrorView::BadFormatDagger),
            Some(d) => if keep(d) {
                if limit > 0 && acc.len() + 1 == limit {
                    Ok((acc.push((daggers[i].0, d)), true))
                } else {
                    scan_daggers_from(daggers, i + 1, end, keep, limit, acc.push((daggers[i].0, d)))
                }
            } else {
                scan_daggers_from(daggers, i + 1, end, keep, limit, acc)
            },
        }
    }
}

/// The daggers from the key `start` on, or from the first, that `keep`
/// holds of.
pub open spec fn mutant_search_daggers_spec(
    daggers: Entries,
    start: Option<Seq<u8>>,
    end: Option<Seq<u8>>,
    keep: spec_fn(DaggerView) -> bool,
    limit: nat,
) -> Result<(Seq<(Seq<u8>, DaggerView)>, bool), ErrorView> {
    scan_daggers_from(
        daggers,
        match start {
            Some(k) => seek_spec(daggers, k),
            None => 0,
        },
        end,
        keep,
        limit,
        Seq::empty(),
    )
}

/// The user keys that have write records, from `start` on, added to `acc`,
/// and where to go on: each key is found by a seek, and the next seek is for
/// what comes after the oldest version that the key can have. The scan ends
/// at the end of the records, with nowhere to go on, or when `limit` keys
/// are found.
pub open spec fn mutant_search_keys_spec(
    writes: Entries,
    start: Option<Seq<u8>>,
    limit: nat,
    acc: Seq<Seq<u8>>,
) -> Result<(Seq<Seq<u8>>, Option<Seq<u8>>), ErrorView>
    decreases limit - acc.len(),
{
    let i = match start {
        Some(k) => seek_spec(writes, k),
        None => 0,
    };
    if i < 0 || i >= writes.len() {
        Ok((acc, None))
    } else if acc.len() >= limit {
        Ok((acc, start))
    } else {
        match truncate_ts_spec(writes[i].0) {
            None => Err(ErrorView::Codec(CodecError::KeyLength)),
            Some(k) => mutant_search_keys_spec(
                writes,
                Some(append_ts_spec(k, 0)),
                limit,
                acc.push(k),
            ),
        }
    }
}

/// The long values of `key` from the entry `i` on, each with the start
/// timestamp it is stored under, added to `acc`.
pub open spec fn scan_values_from(
    values: Entries,
    key: Seq<u8>,
    i: int,
    acc: Seq<(TimeStamp, Seq<u8>)>,
) -> Result<Seq<(TimeStamp, Seq<u8>)>, ErrorView>
    decreases values.len() - i,
{
    if i < 0 || i >= values.len() {
        Ok(acc)
    } else {
        match decode_ts_spec(values[i].0) {
            None => Err(ErrorView::Codec(CodecError::KeyLength)),
            Some(ts) => if is_user_key_eq_spec(values[i].0, key) {
                scan_values_from(values, key, i + 1, acc.push((TimeStamp(ts), values[i].1)))
            } else {
                Ok(acc)
            },
        }
    }
}

/// What a list of daggers with their keys holds.
pub open spec fn keyed_daggers_view(v: Seq<(Key, Dagger)>) -> Seq<(Seq<u8>, DaggerView)> {
    Seq::new(v.len(), |i: int| (v[i].0@, v[i].1@))
}

/// What a list of keys holds.
pub open spec fn keys_view(v: Seq<Key>) -> Seq<Seq<u8>> {
    Seq::new(v.len(), |i: int| v[i]@)
}

/// What a list of values with their timestamps holds.
pub open spec fn stamped_values_view(v: Seq<(TimeStamp, Vec<u8>)>) -> Seq<(TimeStamp, Seq<u8>)> {
    Seq::new(v.len(), |i: int| (v[i].0, v[i].1@))
}

/// The view of an optional key.
pub open spec fn opt_key_view(k: Option<Key>) -> Option<Seq<u8>> {
    match k {
        Some(k) => Some(k@),
        None => None,
    }
}

/// The daggers that `filter` may say yes to.
pub open spec fn kept_by<F: Fn(&Dagger) -> bool>(filter: F) -> spec_fn(DaggerView) -> bool {
    |v: DaggerView| exists|d: Dagger| d@ == v && filter.ensures((&d,), true)
}

/// The daggers stored at the indices from `i` up to `j`, each with its key,
/// in the order of the keys.
pub open spec fn daggers_between(daggers: Entries, i: int, j: int) -> Seq<(Seq<u8>, DaggerView)> {
    Seq::new(
        if i < j {
            (j - i) as nat
        } else {
            0
        },
        |x: int| (daggers[i + x].0, parse_dagger_spec(daggers[i + x].1).unwrap()),
    )
}

/// Whether `keep` holds of the dagger of an entry.
pub open spec fn keeps_dagger(keep: spec_fn(DaggerView) -> bool) -> spec_fn(
    (Seq<u8>, DaggerView),
) -> bool {
    |e: (Seq<u8>, DaggerView)| keep(e.1)
}

/// The daggers `found`, cut at `limit` where a limit is set and reached,
/// and whether it was reached.
pub open spec fn cut_at_limit(found: Seq<(Seq<u8>, DaggerView)>, limit: nat) -> (
    Seq<(Seq<u8>, DaggerView)>,
    bool,
) {
    if limit > 0 && found.len() >= limit {
        (found.take(limit as int), true)
    } else {
        (found, false)
    }
}

/// A scan from the entry `i` on, with `acc` found before, adds the kept
/// daggers up to the entry `j` at which the range ends.
proof fn lemma_scan_daggers_from(
    daggers: Entries,
    i: int,
    j: int,
    end: Option<Seq<u8>>,
    keep: spec_fn(DaggerView) -> bool,
    limit: nat,
    acc: Seq<(Seq<u8>, DaggerView)>,
)
    requires
        0 <= i <= j <= daggers.len(),
        forall|x: int| i <= x < j && end is Some ==> bytes_lt(#[trigger] daggers[x].0, end.unwrap()),
        forall|x: int| i <= x < j ==> parse_dagger_spec(#[trigger] daggers[x].1) is Some,
        j < daggers.len() ==> end is Some && !bytes_lt(daggers[j].0, end.unwrap()),
        limit == 0 || acc.len() < limit,
    ensures
        scan_daggers_from(daggers, i, end, keep, limit, acc) == Ok::<
            (Seq<(Seq<u8>, DaggerView)>, bool),
            ErrorView,
        >(cut_at_limit(acc + daggers_between(daggers, i, j).filter(keeps_dagger(keep)), limit)),
    decreases j - i,
{
    let range = daggers_between(daggers, i, j);
    let pred = keeps_dagger(keep);
    reveal_with_fuel(Seq::filter, 2);
    if i == j {
        assert(range =~= Seq::empty());
        assert(acc + range.filter(pred) =~= acc);
    } else {
        let d = parse_dagger_spec(daggers[i].1).unwrap();
        let e = (daggers[i].0, d);
        let rest = daggers_between(daggers, i + 1, j);
        assert(range =~= seq![e] + rest);
        Seq::filter_distributes_over_add(seq![e], rest, pred);
        assert(seq![e].drop_last() =~= Seq::empty());
        assert(seq![e].last() == e);
        if keep(d) {
            assert(seq![e].filter(pred) =~= seq![e]);
            let next = acc.push(e);
            assert(acc + range.filter(pred) =~= next + rest.filter(pred));
            if limit > 0 && next.len() == limit {
                assert((next + rest.filter(pred)).take(limit as int) =~= next);
            } else {
                lemma_scan_daggers_from(daggers, i + 1, j, end, keep, limit, next);
            }
        } else {
            assert(seq![e].filter(pred) =~= Seq::empty());
            assert(acc + range.filter(pred) =~= acc + rest.filter(pred));
            lemma_scan_daggers_from(daggers, i + 1, j, end, keep, limit, acc);
        }
    }
}

/// A scan for daggers gives the kept daggers of its range in the order of
/// their keys, cut at the limit: where the daggers with a key from `start`
/// on and before `end` are well-formed, what is found is those that `keep`
/// holds of, the first `limit` of them where so many are there, and the
/// scan tells whether the limit was reached.
pub proof fn lemma_scan_gives_kept_daggers(
    daggers: Entries,
    start: Option<Seq<u8>>,
    end: Option<Seq<u8>>,
    keep: spec_fn(DaggerView) -> bool,
    limit: nat,
    i: int,
    j: int,
)
    requires
        sorted(daggers),
        i == (match start {
            Some(k) => seek_spec(daggers, k),
            None => 0,
        }),
        j == (match end {
            Some(k) => seek_spec(daggers, k),
            None => daggers.len() as int,
        }),
        forall|x: int| i <= x < j ==> parse_dagger_spec(#[trigger] daggers[x].1) is Some,
    ensures
        0 <= i <= daggers.len(),
        0 <= j <= daggers.len(),
        forall|x: int|
            0 <= x < daggers.len() ==> (i <= x < j <==> (start is Some ==> !bytes_lt(
                (#[trigger] daggers[x]).0,
                start.unwrap(),
            )) && (end is Some ==> bytes_lt(daggers[x].0, end.unwrap()))),
        mutant_search_daggers_spec(daggers, start, end, keep, limit) == Ok::<
            (Seq<(Seq<u8>, DaggerView)>, bool),
            ErrorView,
        >(cut_at_limit(daggers_between(daggers, i, j).filter(keeps_dagger(keep)), limit)),
{
    if start is Some {
        lemma_seek_sorted(daggers, start.unwrap());
    }
    if end is Some {
        lemma_seek_sorted(daggers, end.unwrap());
    }
    let top = if i < j {
        j
    } else {
        i
    };
    assert(daggers_between(daggers, i, j) =~= daggers_between(daggers, i, top));
    let none = Seq::<(Seq<u8>, DaggerView)>::empty();
    assert(none + daggers_between(daggers, i, top).filter(keeps_dagger(keep))
        =~= daggers_between(daggers, i, top).filter(keeps_dagger(keep)));
    lemma_scan_daggers_from(daggers, i, top, end, keep, limit, none);
}

impl EpaxosReader {
    /// The user key of the first record, in the order of the store, that
    /// was written by the transaction that started at `ts`. Only a reader
    /// for scans is asked this.
    #[verifier::loop_isolation(false)]
    pub fn seek_ts(&mut self, ts: TimeStamp) -> (r: Result<Option<Key>, Error>)
        requires
            old(self).mode() is Some,
        ensures
            final(self).same_source(old(self)),
            match r {
                Ok(k) => seek_ts_from(old(self).snapshot().store.write_cf, ts, 0) == Ok::<
                    Option<Seq<u8>>,
                    ErrorView,
                >(opt_key_view(k)),
                Err(e) => seek_ts_from(old(self).snapshot().store.write_cf, ts, 0) == Err::<
                    Option<Seq<u8>>,
                    ErrorView,
                >(e@),
            },
    {
        self.create_write_cursor();
        let mut cursor = self.write_cursor.unwrap();
        let cf = self.blackbrane.cf(CfName::Write);
        let mut ok = cursor.seek_to_first(cf);
        while ok
            invariant
                cf@ == old(self).snapshot().store.write_cf,
                ok == (cursor.position < cf@.len()),
                seek_ts_from(cf@, ts, cursor.position as int) == seek_ts_from(cf@, ts, 0),
            decreases cf@.len() - cursor.position,
        {
            match Write::parse(cursor.value(cf).as_slice()) {
                Err(e) => {
                    return Err(e);
                },
                Ok(w) => {
                    if w.start_ts.into_inner() == ts.into_inner() {
                        let key = Key::from_encoded_slice(cursor.key(cf).as_slice());
                        return match key.truncate_ts() {
                            Ok(k) => Ok(Some(k)),
                            Err(e) => Err(Error::Codec(e)),
                        };
                    }
                },
            }
            ok = cursor.next(cf);
        }
        Ok(None)
    }

    /// The daggers that `filter` says yes to, with their keys, from the key
    /// `start` on and before the key `end`, in the order of the keys; at
    /// most `limit` of them, where `limit` is not zero. The second part of
    /// the result tells whether the scan ended at the limit, so that there
    /// may be more.
    #[verifier::loop_isolation(false)]
    pub fn mutant_search_daggers<F: Fn(&Dagger) -> bool>(
        &mut self,
        start: Option<&Key>,
        end: Option<&Key>,
        filter: F,
        limit: usize,
    ) -> (r: Result<(Vec<(Key, Dagger)>, bool), Error>)
        requires
            forall|d: Dagger| filter.requires((&d,)),
            forall|d1: Dagger, d2: Dagger, b1: bool, b2: bool|
                d1@ == d2@ && filter.ensures((&d1,), b1) && filter.ensures((&d2,), b2) ==> b1 == b2,
        ensures
            final(self).same_source(old(self)),
            match r {
                Ok((found, more)) => mutant_search_daggers_spec(
                    old(self).snapshot().store.dagger_cf,
                    match start {
                        Some(k) => Some(k@),
                        None => None,
                    },
                    match end {
                        Some(k) => Some(k@),
                        None => None,
                    },
                    kept_by(filter),
                    limit as nat,
                ) == Ok::<(Seq<(Seq<u8>, DaggerView)>, bool), ErrorView>(
                    (keyed_daggers_view(found@), more),
                ),
                Err(e) => mutant_search_daggers_spec(
                    old(self).snapshot().store.dagger_cf,
                    match start {
                        Some(k) => Some(k@),
                        None => None,
                    },
                    match end {
                        Some(k) => Some(k@),
                        None => None,
                    },
                    kept_by(filter),
                    limit as nat,
                ) == Err::<(Seq<(Seq<u8>, DaggerView)>, bool), ErrorView>(e@),
            },
    {
        self.create_dagger_cursor();
        let mut cursor = self.dagger_cursor.unwrap();
        let cf = self.blackbrane.cf(CfName::Dagger);
        match start {
            Some(x) => {
                cursor.seek(cf, x.as_encoded().as_slice());
            },
            None => {
                cursor.seek_to_first(cf);
            },
        }
        let ghost end_view: Option<Seq<u8>> = match end {
            Some(k) => Some(k@),
            None => None,
        };
        let ghost keep = kept_by(filter);
        let ghost target = scan_daggers_from(
            cf@,
            cursor.position as int,
            end_view,
            keep,
            limit as nat,
            Seq::empty(),
        );
        let mut daggers: Vec<(Key, Dagger)> = Vec::new();
        assert(keyed_daggers_view(daggers@) =~= Seq::empty());
        while cursor.valid(cf)
            invariant
                cf@ == old(self).snapshot().store.dagger_cf,
                end_view == match end {
                    Some(k) => Some(k@),
                    None => Option::<Seq<u8>>::None,
                },
                keep == kept_by(filter),
                forall|d: Dagger| filter.requires((&d,)),
                forall|d1: Dagger, d2: Dagger, b1: bool, b2: bool|
                    d1@ == d2@ && filter.ensures((&d1,), b1) && filter.ensures((&d2,), b2) ==> b1
                        == b2,
                limit == 0 || daggers@.len() < limit,
                scan_daggers_from(
                    cf@,
                    cursor.position as int,
                    end_view,
                    keep,
                    limit as nat,
                    keyed_daggers_view(daggers@),
                ) == target,
            decreases cf@.len() - cursor.position,
        {
            let key = Key::from_encoded_slice(cursor.key(cf).as_slice());
            if let Some(end) = end {
                match key.order(end) {
                    crate::codec::ByteOrder::Less => {},
                    _ => {
                        proof {
                            crate::codec::lemma_bytes_order_total(key@, end@);
                        }
                        return Ok((daggers, false));
                    },
                }
            }
            let dagger = match Dagger::parse(cursor.value(cf).as_slice()) {
                Ok(d) => d,
                Err(e) => {
                    return Err(e);
                },
            };
            let kept = filter(&dagger);
            proof {
                if kept {
                    assert(keep(dagger@));
                } else {
                    assert(!keep(dagger@));
                }
            }
            if kept {
                let ghost before = keyed_daggers_view(daggers@);
                let ghost item = (key@, dagger@);
                daggers.push((key, dagger));
                assert(keyed_daggers_view(daggers@) =~= before.push(item));
                if limit > 0 && daggers.len() == limit {
                    return Ok((daggers, true));
                }
            }
            cursor.next(cf);
        }
        Ok((daggers, false))
    }

    /// The user keys that have write records, from `start` on, or from the
    /// first; at most `limit` of them. The second part of the result is
    /// where to go on when the limit is reached, and none at the end of the
    /// records.
    #[verifier::loop_isolation(false)]
    pub fn mutant_search_keys(&mut self, start: Option<Key>, limit: usize) -> (r: Result<
        (Vec<Key>, Option<Key>),
        Error,
    >)
        ensures
            final(self).same_source(old(self)),
            match r {
                Ok((keys, next)) => mutant_search_keys_spec(
                    old(self).snapshot().store.write_cf,
                    opt_key_view(start),
                    limit as nat,
                    Seq::empty(),
                ) == Ok::<(Seq<Seq<u8>>, Option<Seq<u8>>), ErrorView>(
                    (keys_view(keys@), opt_key_view(next)),
                ),
                Err(e) => mutant_search_keys_spec(
                    old(self).snapshot().store.write_cf,
                    opt_key_view(start),
                    limit as nat,
                    Seq::empty(),
                ) == Err::<(Seq<Seq<u8>>, Option<Seq<u8>>), ErrorView>(e@),
            },
    {
        let mut cursor = Cursor::new(
            IterOptions {
                fill_cache: self.fill_cache,
                prefix_seek: false,
                mutant_search_mode: self.get_mutant_search_mode(false),
                hint_min_ts: None,
                hint_max_ts: None,
            },
        );
        let cf = self.blackbrane.cf(CfName::Write);
        let ghost target = mutant_search_keys_spec(
            cf@,
            opt_key_view(start),
            limit as nat,
            Seq::empty(),
        );
        let mut start = start;
        let mut keys: Vec<Key> = Vec::new();
        assert(keys_view(keys@) =~= Seq::empty());
        loop
            invariant
                cf@ == old(self).snapshot().store.write_cf,
                keys@.len() <= limit,
                mutant_search_keys_spec(cf@, opt_key_view(start), limit as nat, keys_view(keys@))
                    == target,
            decreases limit - keys@.len(),
        {
            let ok = match &start {
                Some(x) => cursor.near_seek(cf, x.as_encoded().as_slice()),
                None => cursor.seek_to_first(cf),
            };
            if !ok {
                return Ok((keys, None));
            }
            if keys.len() >= limit {
                return Ok((keys, start));
            }
            let key = match Key::from_encoded_slice(cursor.key(cf).as_slice()).truncate_ts() {
                Ok(k) => k,
                Err(e) => {
                    return Err(Error::Codec(e));
                },
            };
            start = Some(key.clone().append_ts(TimeStamp::zero()));
            let ghost before = keys_view(keys@);
            let ghost kv = key@;
            keys.push(key);
            assert(keys_view(keys@) =~= before.push(kv));
        }
    }

    /// All the long values that are stored for `key`, each with the start
    /// timestamp that it is stored under, the latest first.
    #[verifier::loop_isolation(false)]
    pub fn mutant_search_values_in_default(&mut self, key: &Key) -> (r: Result<
        Vec<(TimeStamp, Vec<u8>)>,
        Error,
    >)
        ensures
            final(self).same_source(old(self)),
            match r {
                Ok(values) => scan_values_from(
                    old(self).snapshot().store.default_cf,
                    key@,
                    seek_spec(old(self).snapshot().store.default_cf, key@),
                    Seq::empty(),
                ) == Ok::<Seq<(TimeStamp, Seq<u8>)>, ErrorView>(stamped_values_view(values@)),
                Err(e) => scan_values_from(
                    old(self).snapshot().store.default_cf,
                    key@,
                    seek_spec(old(self).snapshot().store.default_cf, key@),
                    Seq::empty(),
                ) == Err::<Seq<(TimeStamp, Seq<u8>)>, ErrorView>(e@),
            },
    {
        self.create_data_cursor();
        let mut cursor = self.data_cursor.unwrap();
        let cf = self.blackbrane.cf(CfName::Default);
        let mut ok = cursor.seek(cf, key.as_encoded().as_slice());
        let ghost target = scan_values_from(cf@, key@, cursor.position as int, Seq::empty());
        let mut v: Vec<(TimeStamp, Vec<u8>)> = Vec::new();
        assert(stamped_values_view(v@) =~= Seq::empty());
        while ok
            invariant
                cf@ == old(self).snapshot().store.default_cf,
                ok == (cursor.position < cf@.len()),
                scan_values_from(cf@, key@, cursor.position as int, stamped_values_view(v@))
                    == target,
            decreases cf@.len() - cursor.position,
        {
            let cur_key = cursor.key(cf);
            let ts = match Key::decode_ts_from(cur_key.as_slice()) {
                Ok(t) => t,
                Err(e) => {
                    return Err(Error::Codec(e));
                },
            };
            if Key::is_user_key_eq(cur_key.as_slice(), key.as_encoded().as_slice()) {
                let ghost before = stamped_values_view(v@);
                let value = crate::codec::copy_bytes(cursor.value(cf).as_slice());
                let ghost item = (ts, value@);
                v.push((ts, value));
                assert(stamped_values_view(v@) =~= before.push(item));
            } else {
                break ;
            }
            ok = cursor.next(cf);
        }
        Ok(v)
    }

    /// What the key held before `start_ts`. The caller hands over the
    /// record just before, where it has read it: with `prev_write_loaded`
    /// set and no record, the key held nothing.
    pub fn get_old_value(
        &mut self,
        key: &Key,
        start_ts: TimeStamp,
        prev_write_loaded: bool,
        prev_write: Option<Write>,
    ) -> (r: Result<OldValue, Error>)
        ensures
            final(self).same_source(old(self)),
            match r {
                Ok(v) => old_value_spec(
                    old(self).snapshot().store.write_cf,
                    key@,
                    start_ts,
                    prev_write_loaded,
                    opt_write_view(prev_write),
                ) == Ok::<OldValueView, ErrorView>(v@),
                Err(e) => old_value_spec(
                    old(self).snapshot().store.write_cf,
                    key@,
                    start_ts,
                    prev_write_loaded,
                    opt_write_view(prev_write),
                ) == Err::<OldValueView, ErrorView>(e@),
            },
    {
        if prev_write_loaded && prev_write.is_none() {
            return Ok(OldValue::NoValue);
        }
        if let Some(prev_write) = prev_write {
            if !prev_write.check_gc_fence_as_latest_version(start_ts) {
                return Ok(OldValue::NoValue);
            }
            match prev_write.write_type {
                WriteType::Put => {
                    // A put holds the old value, or tells where it is.
                    return Ok(
                        match prev_write.short_value {
                            Some(value) => OldValue::Value { value },
                            None => OldValue::ValueTimeStamp { start_ts: prev_write.start_ts },
                        },
                    );
                },
                WriteType::Delete => {
                    return Ok(OldValue::NoValue);
                },
                // After a rollback or a dagger record, only a read tells.
                _ => {},
            }
        }
        match self.get_write(key, start_ts, Some(start_ts)) {
            Err(e) => Err(e),
            Ok(Some(write)) => Ok(
                match write.short_value {
                    Some(value) => OldValue::Value { value },
                    None => OldValue::ValueTimeStamp { start_ts: write.start_ts },
                },
            ),
            Ok(None) => Ok(OldValue::NoValue),
        }
    }
}

/// A reader for one transaction: it reads a snapshot of the store as the
/// transaction that started at `start_ts` sees it.
#[allow(non_camel_case_types)]
pub struct blackbraneReader {
    pub reader: EpaxosReader,
    pub start_ts: TimeStamp,
}

impl blackbraneReader {
    /// A reader of `blackbrane` for the transaction that started at
    /// `start_ts`.
    pub fn new(start_ts: TimeStamp, blackbrane: Snapshot, fill_cache: bool) -> (r: blackbraneReader)
        ensures
            r.start_ts == start_ts,
            r.reader.snapshot() == blackbrane@,
            r.reader.mode() is None,
            r.reader.fills_cache() == fill_cache,
            r.reader.term() == 0,
            r.reader.version() == 0,
    {
        blackbraneReader { reader: EpaxosReader::new(blackbrane, None, fill_cache), start_ts }
    }

    /// A reader of `blackbrane` for the transaction that started at
    /// `start_ts`, for a request with the context `ctx`.
    pub fn new_with_ctx(start_ts: TimeStamp, blackbrane: Snapshot, ctx: &Context) -> (r:
        blackbraneReader)
        ensures
            r.start_ts == start_ts,
            r.reader.snapshot() == blackbrane@,
            r.reader.mode() is None,
            r.reader.fills_cache() == !ctx.not_fill_cache,
            r.reader.term() == ctx.term,
            r.reader.version() == ctx.version,
    {
        blackbraneReader { reader: EpaxosReader::new_with_ctx(blackbrane, None, ctx), start_ts }
    }

    /// Whether the two readers read the same snapshot in the same way for
    /// the same transaction.
    pub open spec fn same_source(&self, other: &blackbraneReader) -> bool {
        self.start_ts == other.start_ts && self.reader.same_source(&other.reader)
    }

    /// The write records that the reader reads.
    pub open spec fn writes(&self) -> Entries {
        self.reader.snapshot().store.write_cf
    }

    /// What the write records of `key` tell of the reader's transaction.
    pub fn get_solitontxn_commit_record(&mut self, key: &Key) -> (r: Result<TxnCommitRecord, Error>)
        ensures
            final(self).same_source(old(self)),
            match r {
                Ok(record) => txn_commit_record_spec(old(self).writes(), key@, old(self).start_ts)
                    == Ok::<TxnCommitRecordView, ErrorView>(record@),
                Err(e) => txn_commit_record_spec(old(self).writes(), key@, old(self).start_ts)
                    == Err::<TxnCommitRecordView, ErrorView>(e@),
            },
    {
        self.reader.get_solitontxn_commit_record(key, self.start_ts)
    }

    /// The dagger on `key`.
    pub fn load_dagger(&mut self, key: &Key) -> (r: Result<Option<Dagger>, Error>)
        ensures
            final(self).same_source(old(self)),
            match r {
                Ok(d) => load_dagger_spec(
                    old(self).reader.snapshot(),
                    old(self).reader.term(),
                    old(self).reader.version(),
                    key@,
                ) == Ok::<Option<DaggerView>, ErrorView>(opt_dagger_view(d)),
                Err(e) => load_dagger_spec(
                    old(self).reader.snapshot(),
                    old(self).reader.term(),
                    old(self).reader.version(),
                    key@,
                ) == Err::<Option<DaggerView>, ErrorView>(e@),
            },
    {
        self.reader.load_dagger(key)
    }

    /// Whether a read of `key` at `ts` by the reader's transaction finds a
    /// value.
    pub fn key_exist(&mut self, key: &Key, ts: TimeStamp) -> (r: Result<bool, Error>)
        ensures
            final(self).same_source(old(self)),
            match r {
                Ok(b) => match get_write_spec(
                    old(self).writes(),
                    key@,
                    ts,
                    Some(old(self).start_ts),
                ) {
                    Ok(w) => b == (w is Some),
                    Err(_) => false,
                },
                Err(e) => get_write_spec(old(self).writes(), key@, ts, Some(old(self).start_ts))
                    == Err::<Option<(WriteView, TimeStamp)>, ErrorView>(e@),
            },
    {
        match self.reader.get_write(key, ts, Some(self.start_ts)) {
            Ok(w) => Ok(w.is_some()),
            Err(e) => Err(e),
        }
    }

    /// The value that a read of `key` at `ts` by the reader's transaction
    /// gives.
    pub fn get(&mut self, key: &Key, ts: TimeStamp) -> (r: Result<Option<Vec<u8>>, Error>)
        ensures
            final(self).same_source(old(self)),
            match r {
                Ok(v) => get_value_spec(
                    old(self).reader.snapshot(),
                    key@,
                    ts,
                    Some(old(self).start_ts),
                ) == Ok::<Option<Seq<u8>>, ErrorView>(opt_bytes_view(v)),
                Err(e) => get_value_spec(
                    old(self).reader.snapshot(),
                    key@,
                    ts,
                    Some(old(self).start_ts),
                ) == Err::<Option<Seq<u8>>, ErrorView>(e@),
            },
    {
        self.reader.get(key, ts, Some(self.start_ts))
    }

    /// The put that a read of `key` at `ts` by the reader's transaction
    /// goes by.
    pub fn get_write(&mut self, key: &Key, ts: TimeStamp) -> (r: Result<Option<Write>, Error>)
        ensures
            final(self).same_source(old(self)),
            match r {
                Ok(found) => match get_write_spec(
                    old(self).writes(),
                    key@,
                    ts,
                    Some(old(self).start_ts),
                ) {
                    Ok(w) => fst_of(w) == opt_write_view(found),
                    Err(_) => false,
                },
                Err(e) => get_write_spec(old(self).writes(), key@, ts, Some(old(self).start_ts))
                    == Err::<Option<(WriteView, TimeStamp)>, ErrorView>(e@),
            },
    {
        self.reader.get_write(key, ts, Some(self.start_ts))
    }

    /// As `get_write`, with the commit timestamp of the put.
    pub fn get_write_with_commit_ts(&mut self, key: &Key, ts: TimeStamp) -> (r: Result<
        Option<(Write, TimeStamp)>,
        Error,
    >)
        ensures
            final(self).same_source(old(self)),
            match r {
                Ok(found) => get_write_spec(old(self).writes(), key@, ts, Some(old(self).start_ts))
                    == Ok::<Option<(WriteView, TimeStamp)>, ErrorView>(get_result_view(found)),
                Err(e) => get_write_spec(old(self).writes(), key@, ts, Some(old(self).start_ts))
                    == Err::<Option<(WriteView, TimeStamp)>, ErrorView>(e@),
            },
    {
        self.reader.get_write_with_commit_ts(key, ts, Some(self.start_ts))
    }

    /// The write record of `key` with the greatest commit timestamp that is
    /// not after `ts`, with that timestamp.
    pub fn seek_write(&mut self, key: &Key, ts: TimeStamp) -> (r: Result<
        Option<(TimeStamp, Write)>,
        Error,
    >)
        ensures
            final(self).same_source(old(self)),
            match r {
                Ok(found) => {
                    &&& seek_write_spec(old(self).writes(), key@, ts) == Ok::<
                        Option<(TimeStamp, WriteView)>,
                        ErrorView,
                    >(seek_result_view(found))
                    &&& found matches Some((commit_ts, _)) ==> commit_ts@ <= ts@
                },
                Err(e) => seek_write_spec(old(self).writes(), key@, ts) == Err::<
                    Option<(TimeStamp, WriteView)>,
                    ErrorView,
                >(e@),
            },
            r matches Ok(Some((commit_ts, _))) ==> has_version(old(self).writes(), key@, commit_ts@)
                && forall|c: u64|
                commit_ts@ < c <= ts@ ==> !has_version(old(self).writes(), key@, c),
            versions_together(old(self).writes(), key@) && (r matches Ok(None)) ==> forall|c: u64|
                c <= ts@ ==> !has_version(old(self).writes(), key@, c),
    {
        self.reader.seek_write(key, ts)
    }

    /// The value of the put record `write` of `key`.
    pub fn load_data(&mut self, key: &Key, write: Write) -> (r: Result<Vec<u8>, Error>)
        requires
            write.write_type == WriteType::Put,
        ensures
            final(self).same_source(old(self)),
            match r {
                Ok(v) => load_data_spec(old(self).reader.snapshot().store.default_cf, key@, write@)
                    == Ok::<Seq<u8>, ErrorView>(v@),
                Err(e) => load_data_spec(
                    old(self).reader.snapshot().store.default_cf,
                    key@,
                    write@,
                ) == Err::<Seq<u8>, ErrorView>(e@),
            },
    {
        self.reader.load_data(key, write)
    }

    /// What the key held before `ts`.
    pub fn get_old_value(
        &mut self,
        key: &Key,
        ts: TimeStamp,
        prev_write_loaded: bool,
        prev_write: Option<Write>,
    ) -> (r: Result<OldValue, Error>)
        ensures
            final(self).same_source(old(self)),
            match r {
                Ok(v) => old_value_spec(
                    old(self).writes(),
                    key@,
                    ts,
                    prev_write_loaded,
                    opt_write_view(prev_write),
                ) == Ok::<OldValueView, ErrorView>(v@),
                Err(e) => old_value_spec(
                    old(self).writes(),
                    key@,
                    ts,
                    prev_write_loaded,
                    opt_write_view(prev_write),
                ) == Err::<OldValueView, ErrorView>(e@),
            },
    {
        self.reader.get_old_value(key, ts, prev_write_loaded, prev_write)
    }
}

} // verus!
