//! What a transaction does to one key: commit, roll back, clean up. Each
//! action reads the store through a reader and stages its changes.

use vstd::prelude::*;
use crate::codec::{decode_bytes_spec, encode_bytes_spec, CodecError};
use crate::dagger::{Dagger, DaggerType, DaggerView};
use crate::error::{Error, ErrorView};
use crate::key::{append_ts_spec, Key};
use crate::kv::{CfName, Entries, ModifyView, SnapshotView};
use crate::reader::{
    blackbraneReader, load_dagger_spec, seek_write_spec, txn_commit_record_spec, OverlappedWrite,
    OverlappedWriteView, TxnCommitRecord, TxnCommitRecordView,
};
use crate::timestamp::TimeStamp;
use crate::txn::{EpaxosTxn, ReleasedDagger, ReleasedDaggerView, TxnView, opt_released_view};
use crate::write::{write_type_of_dagger, Write, WriteType, WriteView};

verus! {

/// An error that tells of the user key of `key`; where the key holds no
/// user key, the error of that.
pub open spec fn with_raw_key(key: Seq<u8>, make: spec_fn(Seq<u8>) -> ErrorView) -> ErrorView {
    match decode_bytes_spec(key) {
        Some(raw) => make(raw),
        None => ErrorView::Codec(CodecError::KeyPadding),
    }
}

/// How far a transaction got, as its write records tell.
#[derive(Clone, Copy, Debug, PartialEq, Eq, Structural)]
pub enum TxnStatus {
    /// The transaction was rolled back.
    RolledBack,
    /// The transaction was committed.
    Committed { commit_ts: TimeStamp },
    /// The transaction left neither dagger nor record; a rollback record
    /// was staged for it.
    DaggerNotExist,
}

/// What to do for a transaction that holds no dagger and left no record.
#[derive(Clone, Copy, Debug, PartialEq, Eq, Structural)]
pub enum MissingDaggerAction {
    /// Write a rollback record that may be collapsed, and collapse the
    /// one before.
    Rollback,
    /// Write a rollback record that is never collapsed.
    ProtectedRollback,
}

impl MissingDaggerAction {
    /// The action that goes with a rollback that is protected or not.
    pub fn rollback_protect(protect_rollback: bool) -> (r: MissingDaggerAction)
        ensures
            r == if protect_rollback {
                MissingDaggerAction::ProtectedRollback
            } else {
                MissingDaggerAction::Rollback
            },
    {
        if protect_rollback {
            MissingDaggerAction::ProtectedRollback
        } else {
            MissingDaggerAction::Rollback
        }
    }

    /// Whether the rollback record before is to be collapsed.
    pub fn collapse_rollback(&self) -> (r: bool)
        ensures
            r == (*self == MissingDaggerAction::Rollback),
    {
        match self {
            MissingDaggerAction::Rollback => true,
            MissingDaggerAction::ProtectedRollback => false,
        }
    }

    /// The record to write for the rollback; see `make_rollback`.
    pub fn construct_write(&self, ts: TimeStamp, overlapped_write: Option<OverlappedWrite>) -> (r:
        Option<Write>)
        ensures
            crate::reader::opt_write_view(r) == make_rollback_spec(
                ts,
                *self == MissingDaggerAction::ProtectedRollback,
                match overlapped_write {
                    Some(w) => Some(w@),
                    None => None,
                },
            ),
    {
        make_rollback(ts, !self.collapse_rollback(), overlapped_write)
    }
}

/// The record to write for the rollback of the transaction that started at
/// `start_ts`. Where another transaction was committed at that timestamp,
/// its record takes the place of the rollback record: a protected rollback
/// is marked on it, with the fence that came along, and a rollback that is
/// not protected leaves it as it is and writes nothing.
pub open spec fn make_rollback_spec(
    start_ts: TimeStamp,
    protected: bool,
    overlapped_write: Option<OverlappedWriteView>,
) -> Option<WriteView> {
    match overlapped_write {
        Some(ow) => if protected {
            Some(ow.write.with_overlapped_rollback(true, Some(ow.gc_fence)))
        } else {
            None
        },
        None => Some(WriteView::rollback(start_ts, protected)),
    }
}

/// The record to write for the rollback of the transaction that started at
/// `start_ts`; none where nothing is to be written.
pub fn make_rollback(
    start_ts: TimeStamp,
    protected: bool,
    overlapped_write: Option<OverlappedWrite>,
) -> (r: Option<Write>)
    ensures
        crate::reader::opt_write_view(r) == make_rollback_spec(
            start_ts,
            protected,
            match overlapped_write {
                Some(w) => Some(w@),
                None => None,
            },
        ),
{
    match overlapped_write {
        Some(ow) => {
            if protected {
                Some(ow.write.set_overlapped_rollback(true, Some(ow.gc_fence)))
            } else {
                None
            }
        },
        None => Some(Write::new_rollback(start_ts, protected)),
    }
}

/// The staging area after the rollback record just before `start_ts` was
/// collapsed: the record of `key` found by a seek at `start_ts` is removed
/// if it is a rollback record that is not protected.
pub open spec fn collapse_prev_rollback_spec(
    txn: TxnView,
    writes: Entries,
    key: Seq<u8>,
    start_ts: TimeStamp,
) -> Result<TxnView, ErrorView> {
    match seek_write_spec(writes, key, start_ts) {
        Err(e) => Err(e),
        Ok(Some((commit_ts, write))) => if write.write_type == WriteType::Rollback && !write.is_protected() {
            Ok(txn.with_modify(ModifyView::Delete(CfName::Write, append_ts_spec(key, commit_ts@))))
        } else {
            Ok(txn)
        },
        Ok(None) => Ok(txn),
    }
}

/// The write record that the commit of `dagger` at `commit_ts` leaves. A
/// pessimistic dagger that was never turned into a real one commits as a
/// dagger record. A rollback at `commit_ts` that is recorded on the dagger
/// is marked on the record.
pub open spec fn commit_write_spec(dagger: DaggerView, start_ts: TimeStamp, commit_ts: TimeStamp) -> WriteView {
    WriteView {
        write_type: match write_type_of_dagger(dagger.dagger_type) {
            Some(t) => t,
            None => WriteType::Dagger,
        },
        start_ts,
        short_value: dagger.short_value,
        has_overlapped_rollback: dagger.rollback_ts.contains(commit_ts),
        gc_fence: None,
    }
}

/// What the commit of `key` at `commit_ts` gives and stages, for the
/// transaction of `reader_start_ts`. Where the transaction holds the dagger
/// on the key, the dagger turns into a write record at `commit_ts`, unless
/// that is before the least commit timestamp of the dagger. Where it does
/// not, the commit has nothing to do if the key is committed already, and
/// fails if the transaction was rolled back or left no trace.
pub open spec fn commit_spec(
    txn: TxnView,
    snapshot: SnapshotView,
    term: u64,
    version: u64,
    start_ts: TimeStamp,
    key: Seq<u8>,
    commit_ts: TimeStamp,
) -> Result<(Option<ReleasedDaggerView>, TxnView), ErrorView> {
    match load_dagger_spec(snapshot, term, version, key) {
        Err(e) => Err(e),
        Ok(found) => if found is Some && found.unwrap().ts == start_ts {
            let dagger = found.unwrap();
            if commit_ts@ < dagger.min_commit_ts@ {
                Err(
                    with_raw_key(
                        key,
                        |raw: Seq<u8>|
                            ErrorView::CommitTsExpired {
                                start_ts,
                                commit_ts,
                                key: raw,
                                min_commit_ts: dagger.min_commit_ts,
                            },
                    ),
                )
            } else {
                Ok(
                    (
                        Some(
                            ReleasedDaggerView {
                                key,
                                pessimistic: dagger.is_pessimistic_solitontxn(),
                            },
                        ),
                        txn.with_modify(
                            ModifyView::Put(
                                CfName::Write,
                                append_ts_spec(key, commit_ts@),
                                commit_write_spec(dagger, start_ts, commit_ts).to_bytes(),
                            ),
                        ).with_modify(ModifyView::Delete(CfName::Dagger, key)),
                    ),
                )
            }
        } else {
            match txn_commit_record_spec(snapshot.store.write_cf, key, start_ts) {
                Err(e) => Err(e),
                Ok(record) => match record.info() {
                    Some((_, t)) => if t == WriteType::Rollback {
                        Err(
                            with_raw_key(
                                key,
                                |raw: Seq<u8>|
                                    ErrorView::TxnDaggerNotFound { start_ts, commit_ts, key: raw },
                            ),
                        )
                    } else {
                        Ok((None, txn))
                    },
                    None => Err(
                        with_raw_key(
                            key,
                            |raw: Seq<u8>|
                                ErrorView::TxnDaggerNotFound { start_ts, commit_ts, key: raw },
                        ),
                    ),
                },
            }
        },
    }
}

/// What a transaction commits becomes visible and its dagger goes: after
/// the changes that the commit of `key` stages are made to the store, a
/// seek at a timestamp from `commit_ts` on finds the record of the commit,
/// as long as no record of the key lies between, and the key carries no
/// dagger in the store.
pub proof fn lemma_commit_is_visible(
    snapshot: SnapshotView,
    term: u64,
    version: u64,
    start_ts: TimeStamp,
    key: Seq<u8>,
    commit_ts: TimeStamp,
    dagger: DaggerView,
    ts: TimeStamp,
)
    requires
        crate::kv::sorted(snapshot.store.write_cf),
        crate::kv::sorted(snapshot.store.dagger_cf),
        crate::reader::well_keyed(snapshot.store.write_cf),
        crate::codec::well_grouped(key),
        load_dagger_spec(snapshot, term, version, key) == Ok::<Option<DaggerView>, ErrorView>(
            Some(dagger),
        ),
        dagger.ts == start_ts,
        dagger.min_commit_ts@ <= commit_ts@ <= ts@,
        dagger.short_value matches Some(v) ==> v.len() <= crate::write::SHORT_VALUE_MAX_LEN,
        forall|c: u64|
            commit_ts@ < c <= ts@ ==> !crate::reader::has_version(snapshot.store.write_cf, key, c),
    ensures
        commit_spec(
            TxnView {
                start_ts,
                modifies: Seq::empty(),
                daggers_for_1pc: Seq::empty(),
                max_ts: start_ts,
                guards: Seq::empty(),
            },
            snapshot,
            term,
            version,
            start_ts,
            key,
            commit_ts,
        ) matches Ok((released, txn)) && {
            let store = snapshot.store.apply_all(txn.modifies);
            &&& released == Some(
                ReleasedDaggerView { key, pessimistic: dagger.is_pessimistic_solitontxn() },
            )
            &&& seek_write_spec(store.write_cf, key, ts) == Ok::<
                Option<(TimeStamp, WriteView)>,
                ErrorView,
            >(Some((commit_ts, commit_write_spec(dagger, start_ts, commit_ts))))
            &&& crate::kv::get_spec(store.dagger_cf, key) is None
            &&& store.default_cf == snapshot.store.default_cf
        },
{
    let begin = TxnView {
        start_ts,
        modifies: Seq::empty(),
        daggers_for_1pc: Seq::empty(),
        max_ts: start_ts,
        guards: Seq::empty(),
    };
    let write = commit_write_spec(dagger, start_ts, commit_ts);
    let put = ModifyView::Put(CfName::Write, append_ts_spec(key, commit_ts@), write.to_bytes());
    let delete = ModifyView::Delete(CfName::Dagger, key);
    let txn = begin.with_modify(put).with_modify(delete);
    let ms = txn.modifies;
    assert(ms =~= seq![put, delete]);
    assert(ms.drop_last() =~= seq![put]);
    assert(ms.drop_last().drop_last() =~= Seq::<ModifyView>::empty());
    reveal_with_fuel(crate::kv::StoreView::apply_all, 3);
    let store = snapshot.store.apply_all(ms);
    assert(store == snapshot.store.apply(put).apply(delete));
    crate::reader::lemma_stored_record_is_found(
        snapshot.store.write_cf,
        key,
        commit_ts,
        write,
        ts,
    );
    crate::kv::lemma_get_after_delete(snapshot.store.dagger_cf, key, key);
}

/// Whether `ts` is among the timestamps of `v`.
fn contains_ts(v: &Vec<TimeStamp>, ts: TimeStamp) -> (r: bool)
    ensures
        r == v@.contains(ts),
{
    let mut i: usize = 0;
    while i < v.len()
        invariant
            i <= v.len(),
            forall|j: int| 0 <= j < i ==> v@[j] != ts,
        decreases v.len() - i,
    {
        if v[i].into_inner() == ts.into_inner() {
            assert(v@[i as int] == ts);
            return true;
        }
        i += 1;
    }
    false
}

/// Commits `key` at `commit_ts` for the reader's transaction: the dagger
/// that the transaction holds on the key turns into a write record. The
/// changes are staged in `txn`; on an error nothing is staged.
pub fn commit(txn: &mut EpaxosTxn, reader: &mut blackbraneReader, key: Key, commit_ts: TimeStamp) -> (r:
    Result<Option<ReleasedDagger>, Error>)
    ensures
        final(reader).same_source(old(reader)),
        match r {
            Ok(released) => commit_spec(
                old(txn)@,
                old(reader).reader.snapshot(),
                old(reader).reader.term(),
                old(reader).reader.version(),
                old(reader).start_ts,
                key@,
                commit_ts,
            ) == Ok::<(Option<ReleasedDaggerView>, TxnView), ErrorView>(
                (opt_released_view(released), final(txn)@),
            ),
            Err(e) => commit_spec(
                old(txn)@,
                old(reader).reader.snapshot(),
                old(reader).reader.term(),
                old(reader).reader.version(),
                old(reader).start_ts,
                key@,
                commit_ts,
            ) == Err::<(Option<ReleasedDaggerView>, TxnView), ErrorView>(e@) && final(txn)@ == old(
                txn,
            )@,
        },
{
    let found = match reader.load_dagger(&key) {
        Ok(d) => d,
        Err(e) => {
            return Err(e);
        },
    };
    let mine = match &found {
        Some(d) => d.ts.into_inner() == reader.start_ts.into_inner(),
        None => false,
    };
    if mine {
        let dagger = found.unwrap();
        if commit_ts.into_inner() < dagger.min_commit_ts.into_inner() {
            // The dagger does not let the transaction commit this early.
            return match key.into_cocauset() {
                Ok(raw) => Err(
                    Error::CommitTsExpired {
                        start_ts: reader.start_ts,
                        commit_ts,
                        key: raw,
                        min_commit_ts: dagger.min_commit_ts,
                    },
                ),
                Err(e) => Err(Error::Codec(e)),
            };
        }
        // A pessimistic dagger is left behind when the transaction did not
        // need the key after all; with the transaction it commits too.
        let write_type = match WriteType::from_dagger_type(dagger.dagger_type) {
            Some(t) => t,
            None => WriteType::Dagger,
        };
        let pessimistic = dagger.is_pessimistic_solitontxn();
        let has_overlapped_rollback = contains_ts(&dagger.rollback_ts, commit_ts);
        let mut write = Write::new(write_type, reader.start_ts, dagger.short_value);
        if has_overlapped_rollback {
            write = write.set_overlapped_rollback(true, None);
        }
        txn.put_write(key.clone(), commit_ts, write.to_bytes());
        Ok(txn.undagger_key(key, pessimistic))
    } else {
        let record = match reader.get_solitontxn_commit_record(&key) {
            Ok(r) => r,
            Err(e) => {
                return Err(e);
            },
        };
        let committed = match record.info() {
            Some((_, t)) => match t {
                WriteType::Rollback => false,
                _ => true,
            },
            None => false,
        };
        if committed {
            // Another request has committed the key already.
            Ok(None)
        } else {
            // The transaction was rolled back, or its rollback record was
            // collapsed.
            match key.into_cocauset() {
                Ok(raw) => Err(
                    Error::TxnDaggerNotFound { start_ts: reader.start_ts, commit_ts, key: raw },
                ),
                Err(e) => Err(Error::Codec(e)),
            }
        }
    }
}

/// The changes that take `dagger` off `key` and leave a rollback record,
/// added to `txn`: the long value that the dagger's transaction stored is
/// removed; the rollback record is written, protected only for the primary
/// key of a pessimistic transaction; the rollback record before is
/// collapsed, where that is asked for; and the dagger is removed. A
/// transaction that is found rolled back already only loses the dagger; one
/// that is found committed is not rolled back.
pub open spec fn rollback_dagger_spec(
    txn: TxnView,
    writes: Entries,
    start_ts: TimeStamp,
    key: Seq<u8>,
    dagger: DaggerView,
    is_pessimistic_solitontxn: bool,
    collapse_rollback: bool,
) -> Result<(Option<ReleasedDaggerView>, TxnView), ErrorView> {
    let released = Some(ReleasedDaggerView { key, pessimistic: is_pessimistic_solitontxn });
    match txn_commit_record_spec(writes, key, start_ts) {
        Err(e) => Err(e),
        Ok(TxnCommitRecordView::NoRecord { overlapped_write }) => {
            let t1 = if dagger.short_value is None && dagger.dagger_type == DaggerType::Put {
                txn.with_modify(ModifyView::Delete(CfName::Default, append_ts_spec(key, dagger.ts@)))
            } else {
                txn
            };
            let protected = is_pessimistic_solitontxn && key == encode_bytes_spec(dagger.primary);
            let t2 = match make_rollback_spec(start_ts, protected, overlapped_write) {
                Some(w) => t1.with_modify(
                    ModifyView::Put(CfName::Write, append_ts_spec(key, start_ts@), w.to_bytes()),
                ),
                None => t1,
            };
            match (if collapse_rollback {
                collapse_prev_rollback_spec(t2, writes, key, start_ts)
            } else {
                Ok(t2)
            }) {
                Err(e) => Err(e),
                Ok(t3) => Ok((released, t3.with_modify(ModifyView::Delete(CfName::Dagger, key)))),
            }
        },
        Ok(TxnCommitRecordView::SingleRecord { commit_ts, write }) => if write.write_type
            != WriteType::Rollback {
            Err(
                with_raw_key(
                    key,
                    |raw: Seq<u8>| ErrorView::Committed { start_ts, commit_ts, key: raw },
                ),
            )
        } else {
            Ok((released, txn.with_modify(ModifyView::Delete(CfName::Dagger, key))))
        },
        Ok(TxnCommitRecordView::OverlappedRollback { .. }) => Ok(
            (released, txn.with_modify(ModifyView::Delete(CfName::Dagger, key))),
        ),
    }
}

/// How far the transaction that started at `start_ts` got at `key`, where
/// it holds no dagger on the key, and what is staged for it. A transaction
/// that left no record gets a rollback record, so that a prewrite which
/// arrives late finds it: the rollback record before is collapsed first,
/// where the action asks for it; the rollback is marked on the dagger of
/// another transaction, where one stands and no other transaction was
/// committed at `start_ts`; and the record is written.
pub open spec fn missing_dagger_spec(
    txn: TxnView,
    writes: Entries,
    start_ts: TimeStamp,
    key: Seq<u8>,
    mismatch_dagger: Option<DaggerView>,
    action: MissingDaggerAction,
) -> Result<(TxnStatus, TxnView), ErrorView> {
    match txn_commit_record_spec(writes, key, start_ts) {
        Err(e) => Err(e),
        Ok(TxnCommitRecordView::SingleRecord { commit_ts, write }) => if write.write_type
            == WriteType::Rollback {
            Ok((TxnStatus::RolledBack, txn))
        } else {
            Ok((TxnStatus::Committed { commit_ts }, txn))
        },
        Ok(TxnCommitRecordView::OverlappedRollback { .. }) => Ok((TxnStatus::RolledBack, txn)),
        Ok(TxnCommitRecordView::NoRecord { overlapped_write }) => match (if action
            == MissingDaggerAction::Rollback {
            collapse_prev_rollback_spec(txn, writes, key, start_ts)
        } else {
            Ok(txn)
        }) {
            Err(e) => Err(e),
            Ok(t1) => {
                let protected = action == MissingDaggerAction::ProtectedRollback;
                let t2 = if mismatch_dagger is Some && overlapped_write is None {
                    t1.mark_rollback(key, mismatch_dagger.unwrap(), protected)
                } else {
                    t1
                };
                let t3 = match make_rollback_spec(start_ts, protected, overlapped_write) {
                    Some(w) => t2.with_modify(
                        ModifyView::Put(
                            CfName::Write,
                            append_ts_spec(key, start_ts@),
                            w.to_bytes(),
                        ),
                    ),
                    None => t2,
                };
                Ok((TxnStatus::DaggerNotExist, t3))
            },
        },
    }
}

/// Whether a dagger has not outlived its time at `current_ts`. A current
/// timestamp of zero asks for no such check.
pub open spec fn dagger_alive_spec(dagger: DaggerView, current_ts: TimeStamp) -> bool {
    current_ts@ != 0 && dagger.ts.spec_physical() + dagger.ttl >= current_ts.spec_physical()
}

/// What cleaning up `key` for the transaction that started at `start_ts`
/// gives and stages. The transaction's dagger on the key is rolled back,
/// unless it has not outlived its time. A transaction that holds no dagger
/// on the key gets a rollback record, unless it has one or was committed;
/// that it was committed is an error.
pub open spec fn cleanup_spec(
    txn: TxnView,
    snapshot: SnapshotView,
    term: u64,
    version: u64,
    start_ts: TimeStamp,
    key: Seq<u8>,
    current_ts: TimeStamp,
    protect_rollback: bool,
) -> Result<(Option<ReleasedDaggerView>, TxnView), ErrorView> {
    match load_dagger_spec(snapshot, term, version, key) {
        Err(e) => Err(e),
        Ok(found) => if found is Some && found.unwrap().ts == start_ts {
            let dagger = found.unwrap();
            if dagger_alive_spec(dagger, current_ts) {
                Err(with_raw_key(key, |raw: Seq<u8>| ErrorView::KeyIsDaggered { key: raw, dagger }))
            } else {
                rollback_dagger_spec(
                    txn,
                    snapshot.store.write_cf,
                    start_ts,
                    key,
                    dagger,
                    dagger.is_pessimistic_solitontxn(),
                    !protect_rollback,
                )
            }
        } else {
            match missing_dagger_spec(
                txn,
                snapshot.store.write_cf,
                start_ts,
                key,
                found,
                if protect_rollback {
                    MissingDaggerAction::ProtectedRollback
                } else {
                    MissingDaggerAction::Rollback
                },
            ) {
                Err(e) => Err(e),
                Ok((TxnStatus::Committed { commit_ts }, _)) => Err(
                    with_raw_key(
                        key,
                        |raw: Seq<u8>| ErrorView::Committed { start_ts, commit_ts, key: raw },
                    ),
                ),
                Ok((_, t)) => Ok((None, t)),
            }
        },
    }
}

/// The commit timestamp of the rollback record of `key` just before the
/// reader's start timestamp that may be collapsed; none where the record
/// there is no rollback record or is protected.
pub open spec fn collapse_target_spec(writes: Entries, key: Seq<u8>, start_ts: TimeStamp) -> Result<
    Option<TimeStamp>,
    ErrorView,
> {
    match seek_write_spec(writes, key, start_ts) {
        Err(e) => Err(e),
        Ok(Some((commit_ts, write))) => if write.write_type == WriteType::Rollback && !write.is_protected() {
            Ok(Some(commit_ts))
        } else {
            Ok(None)
        },
        Ok(None) => Ok(None),
    }
}

fn collapse_target(reader: &mut blackbraneReader, key: &Key) -> (r: Result<Option<TimeStamp>, Error>)
    ensures
        final(reader).same_source(old(reader)),
        match r {
            Ok(t) => collapse_target_spec(old(reader).writes(), key@, old(reader).start_ts) == Ok::<
                Option<TimeStamp>,
                ErrorView,
            >(t),
            Err(e) => collapse_target_spec(old(reader).writes(), key@, old(reader).start_ts) == Err::<
                Option<TimeStamp>,
                ErrorView,
            >(e@),
        },
{
    let start_ts = reader.start_ts;
    match reader.seek_write(key, start_ts) {
        Err(e) => Err(e),
        Ok(Some((commit_ts, write))) => {
            let collapsible = match write.write_type {
                WriteType::Rollback => !write.is_protected(),
                _ => false,
            };
            if collapsible {
                Ok(Some(commit_ts))
            } else {
                Ok(None)
            }
        },
        Ok(None) => Ok(None),
    }
}

/// Collapses the rollback record of `key` just before the reader's start
/// timestamp: stages its removal, if it is a rollback record that is not
/// protected. On an error nothing is staged.
pub fn collapse_prev_rollback(txn: &mut EpaxosTxn, reader: &mut blackbraneReader, key: &Key) -> (r:
    Result<(), Error>)
    ensures
        final(reader).same_source(old(reader)),
        match r {
            Ok(()) => collapse_prev_rollback_spec(
                old(txn)@,
                old(reader).writes(),
                key@,
                old(reader).start_ts,
            ) == Ok::<TxnView, ErrorView>(final(txn)@),
            Err(e) => collapse_prev_rollback_spec(
                old(txn)@,
                old(reader).writes(),
                key@,
                old(reader).start_ts,
            ) == Err::<TxnView, ErrorView>(e@) && final(txn)@ == old(txn)@,
        },
{
    match collapse_target(reader, key) {
        Err(e) => Err(e),
        Ok(Some(commit_ts)) => {
            txn.delete_write(key.clone(), commit_ts);
            Ok(())
        },
        Ok(None) => Ok(()),
    }
}

/// Takes `dagger` off `key` and leaves a rollback record for the reader's
/// transaction. On an error nothing is staged.
pub fn rollback_dagger(
    txn: &mut EpaxosTxn,
    reader: &mut blackbraneReader,
    key: Key,
    dagger: &Dagger,
    is_pessimistic_solitontxn: bool,
    collapse_rollback: bool,
) -> (r: Result<Option<ReleasedDagger>, Error>)
    ensures
        final(reader).same_source(old(reader)),
        match r {
            Ok(released) => rollback_dagger_spec(
                old(txn)@,
                old(reader).writes(),
                old(reader).start_ts,
                key@,
                dagger@,
                is_pessimistic_solitontxn,
                collapse_rollback,
            ) == Ok::<(Option<ReleasedDaggerView>, TxnView), ErrorView>(
                (opt_released_view(released), final(txn)@),
            ),
            Err(e) => rollback_dagger_spec(
                old(txn)@,
                old(reader).writes(),
                old(reader).start_ts,
                key@,
                dagger@,
                is_pessimistic_solitontxn,
                collapse_rollback,
            ) == Err::<(Option<ReleasedDaggerView>, TxnView), ErrorView>(e@) && final(txn)@ == old(
                txn,
            )@,
        },
{
    let record = match reader.get_solitontxn_commit_record(&key) {
        Ok(r) => r,
        Err(e) => {
            return Err(e);
        },
    };
    let overlapped_write = match record {
        TxnCommitRecord::NoRecord { overlapped_write } => overlapped_write,
        TxnCommitRecord::SingleRecord { commit_ts, write } => {
            match write.write_type {
                WriteType::Rollback => {
                    return Ok(txn.undagger_key(key, is_pessimistic_solitontxn));
                },
                _ => {
                    // A dagger beside a commit record of its transaction:
                    // what is committed is not rolled back.
                    return match key.into_cocauset() {
                        Ok(raw) => Err(
                            Error::Committed { start_ts: reader.start_ts, commit_ts, key: raw },
                        ),
                        Err(e) => Err(Error::Codec(e)),
                    };
                },
            }
        },
        TxnCommitRecord::OverlappedRollback { .. } => {
            return Ok(txn.undagger_key(key, is_pessimistic_solitontxn));
        },
    };
    let target = if collapse_rollback {
        match collapse_target(reader, &key) {
            Ok(t) => t,
            Err(e) => {
                return Err(e);
            },
        }
    } else {
        None
    };
    // Only a put with a long value has stored anything beside the dagger.
    let long_put = match dagger.dagger_type {
        DaggerType::Put => dagger.short_value.is_none(),
        _ => false,
    };
    if long_put {
        txn.delete_value(key.clone(), dagger.ts);
    }
    // Only the primary key of a pessimistic transaction needs its rollback
    // record protected.
    let protected = is_pessimistic_solitontxn && key.is_encoded_from(dagger.primary.as_slice());
    if let Some(write) = make_rollback(reader.start_ts, protected, overlapped_write) {
        txn.put_write(key.clone(), reader.start_ts, write.to_bytes());
    }
    if let Some(commit_ts) = target {
        txn.delete_write(key.clone(), commit_ts);
    }
    Ok(txn.undagger_key(key, is_pessimistic_solitontxn))
}

/// Finds out how far the reader's transaction got at `key`, on which it
/// holds no dagger, and stages a rollback record where it left no record.
/// `mismatch_dagger` is the dagger that another transaction holds on the
/// key, where one does. On an error nothing is staged.
pub fn check_solitontxn_status_missing_dagger(
    txn: &mut EpaxosTxn,
    reader: &mut blackbraneReader,
    key: Key,
    mismatch_dagger: Option<Dagger>,
    action: MissingDaggerAction,
) -> (r: Result<TxnStatus, Error>)
    requires
        mismatch_dagger matches Some(d) ==> d.ts != old(txn).start_ts,
    ensures
        final(reader).same_source(old(reader)),
        match r {
            Ok(status) => missing_dagger_spec(
                old(txn)@,
                old(reader).writes(),
                old(reader).start_ts,
                key@,
                crate::reader::opt_dagger_view(mismatch_dagger),
                action,
            ) == Ok::<(TxnStatus, TxnView), ErrorView>((status, final(txn)@)),
            Err(e) => missing_dagger_spec(
                old(txn)@,
                old(reader).writes(),
                old(reader).start_ts,
                key@,
                crate::reader::opt_dagger_view(mismatch_dagger),
                action,
            ) == Err::<(TxnStatus, TxnView), ErrorView>(e@) && final(txn)@ == old(txn)@,
        },
{
    let record = match reader.get_solitontxn_commit_record(&key) {
        Ok(r) => r,
        Err(e) => {
            return Err(e);
        },
    };
    match record {
        TxnCommitRecord::SingleRecord { commit_ts, write } => match write.write_type {
            WriteType::Rollback => Ok(TxnStatus::RolledBack),
            _ => Ok(TxnStatus::Committed { commit_ts }),
        },
        TxnCommitRecord::OverlappedRollback { .. } => Ok(TxnStatus::RolledBack),
        TxnCommitRecord::NoRecord { overlapped_write } => {
            let ts = reader.start_ts;
            if action.collapse_rollback() {
                match collapse_prev_rollback(txn, reader, &key) {
                    Ok(()) => {},
                    Err(e) => {
                        return Err(e);
                    },
                }
            }
            match mismatch_dagger {
                Some(d) => {
                    if overlapped_write.is_none() {
                        txn.mark_rollback_on_mismatching_dagger(
                            &key,
                            d,
                            !action.collapse_rollback(),
                        );
                    }
                },
                None => {},
            }
            // A prewrite that arrives after this must find the rollback.
            if let Some(write) = action.construct_write(ts, overlapped_write) {
                txn.put_write(key, ts, write.to_bytes());
            }
            Ok(TxnStatus::DaggerNotExist)
        },
    }
}

/// Whether a dagger has not outlived its time at `current_ts`.
fn dagger_alive(dagger: &Dagger, current_ts: TimeStamp) -> (r: bool)
    ensures
        r == dagger_alive_spec(dagger@, current_ts),
{
    !current_ts.is_zero() && (dagger.ts.physical() as u128) + (dagger.ttl as u128)
        >= current_ts.physical() as u128
}

/// Cleans up `key` for the reader's transaction: rolls back the dagger that
/// the transaction holds on the key, or leaves a rollback record where it
/// holds none. With a current timestamp other than zero, a dagger that has
/// not outlived its time is left alone and reported. On an error nothing is
/// staged.
pub fn cleanup(
    txn: &mut EpaxosTxn,
    reader: &mut blackbraneReader,
    key: Key,
    current_ts: TimeStamp,
    protect_rollback: bool,
) -> (r: Result<Option<ReleasedDagger>, Error>)
    requires
        old(txn).start_ts == old(reader).start_ts,
    ensures
        final(reader).same_source(old(reader)),
        match r {
            Ok(released) => cleanup_spec(
                old(txn)@,
                old(reader).reader.snapshot(),
                old(reader).reader.term(),
                old(reader).reader.version(),
                old(reader).start_ts,
                key@,
                current_ts,
                protect_rollback,
            ) == Ok::<(Option<ReleasedDaggerView>, TxnView), ErrorView>(
                (opt_released_view(released), final(txn)@),
            ),
            Err(e) => cleanup_spec(
                old(txn)@,
                old(reader).reader.snapshot(),
                old(reader).reader.term(),
                old(reader).reader.version(),
                old(reader).start_ts,
                key@,
                current_ts,
                protect_rollback,
            ) == Err::<(Option<ReleasedDaggerView>, TxnView), ErrorView>(e@) && final(txn)@ == old(
                txn,
            )@,
        },
{
    let found = match reader.load_dagger(&key) {
        Ok(d) => d,
        Err(e) => {
            return Err(e);
        },
    };
    let mine = match &found {
        Some(d) => d.ts.into_inner() == reader.start_ts.into_inner(),
        None => false,
    };
    if mine {
        let dagger = found.unwrap();
        if dagger_alive(&dagger, current_ts) {
            return match key.into_cocauset() {
                Ok(raw) => Err(Error::KeyIsDaggered { key: raw, dagger }),
                Err(e) => Err(Error::Codec(e)),
            };
        }
        let pessimistic = dagger.is_pessimistic_solitontxn();
        rollback_dagger(txn, reader, key, &dagger, pessimistic, !protect_rollback)
    } else {
        let status = match check_solitontxn_status_missing_dagger(
            txn,
            reader,
            key.clone(),
            found,
            MissingDaggerAction::rollback_protect(protect_rollback),
        ) {
            Ok(s) => s,
            Err(e) => {
                return Err(e);
            },
        };
        match status {
            TxnStatus::Committed { commit_ts } => match key.into_cocauset() {
                Ok(raw) => Err(Error::Committed { start_ts: reader.start_ts, commit_ts, key: raw }),
                Err(e) => Err(Error::Codec(e)),
            },
            // There is a rollback record already, or one is staged.
            _ => Ok(None),
        }
    }
}

} // verus!
