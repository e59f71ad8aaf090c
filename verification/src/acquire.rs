//! The locking of one key by a pessimistic transaction, ahead of its
//! prewrite.

use vstd::prelude::*;
use crate::actions::with_raw_key;
use crate::codec::{copy_bytes, CodecError};
use crate::dagger::{DaggerType, PessimisticDagger, PessimisticDaggerView};
use crate::error::{Error, ErrorView};
use crate::key::Key;
use crate::kv::{ModifyView, SnapshotView};
use crate::prewrite::{check_data_constraint, data_constraint_spec};
use crate::reader::{blackbraneReader, load_dagger_spec, seek_write_spec};
use crate::timestamp::TimeStamp;
use crate::txn::{updated_max_ts, EpaxosTxn, TxnView};
use crate::write::{WriteType, WriteView};

verus! {

/// Whether the record tells, at the commit timestamp `commit_ts`, that the
/// transaction that started at `start_ts` was rolled back.
pub open spec fn tells_rollback(write: WriteView, commit_ts: TimeStamp, start_ts: TimeStamp) -> bool {
    commit_ts == start_ts && (write.write_type == WriteType::Rollback
        || write.has_overlapped_rollback)
}

/// Whether the pessimistic transaction may lock a key that carries no
/// dagger, given the write records of the key. It may not where a version
/// was committed after `for_update_ts`, where the transaction was rolled
/// back at the key, or where the key must not exist and does.
pub open spec fn acquire_check_spec(
    snapshot: SnapshotView,
    start_ts: TimeStamp,
    key: Seq<u8>,
    primary: Seq<u8>,
    should_not_exist: bool,
    for_update_ts: TimeStamp,
) -> Result<(), ErrorView> {
    let writes = snapshot.store.write_cf;
    match seek_write_spec(writes, key, TimeStamp(u64::MAX)) {
        Err(e) => Err(e),
        Ok(None) => Ok(()),
        Ok(Some((commit_ts, write))) => if commit_ts@ > for_update_ts@ {
            Err(
                with_raw_key(
                    key,
                    |raw: Seq<u8>|
                        ErrorView::WriteConflict {
                            start_ts,
                            conflict_start_ts: write.start_ts,
                            conflict_commit_ts: commit_ts,
                            key: raw,
                            primary,
                        },
                ),
            )
        } else if tells_rollback(write, commit_ts, start_ts) {
            Err(
                with_raw_key(
                    key,
                    |raw: Seq<u8>| ErrorView::PessimisticDaggerRolledBack { start_ts, key: raw },
                ),
            )
        } else {
            match (if commit_ts@ > start_ts@ {
                seek_write_spec(writes, key, start_ts)
            } else {
                Ok(None)
            }) {
                Err(e) => Err(e),
                Ok(older) => if older is Some && tells_rollback(
                    older.unwrap().1,
                    older.unwrap().0,
                    start_ts,
                ) {
                    Err(
                        with_raw_key(
                            key,
                            |raw: Seq<u8>|
                                ErrorView::PessimisticDaggerRolledBack { start_ts, key: raw },
                        ),
                    )
                } else {
                    data_constraint_spec(writes, start_ts, should_not_exist, write, commit_ts, key)
                },
            }
        },
    }
}

/// What locking `key` for the pessimistic transaction that started at
/// `start_ts` gives and stages. A mutation that asks that the key not exist
/// makes the node take in `for_update_ts`. The dagger of another
/// transaction blocks the lock; a dagger of the transaction itself that is
/// not pessimistic is an error. The pessimistic dagger of the transaction
/// is overwritten only by one of a later `for_update_ts`.
pub open spec fn acquire_pessimistic_dagger_spec(
    txn: TxnView,
    snapshot: SnapshotView,
    term: u64,
    version: u64,
    start_ts: TimeStamp,
    key: Seq<u8>,
    primary: Seq<u8>,
    should_not_exist: bool,
    dagger_ttl: u64,
    for_update_ts: TimeStamp,
    min_commit_ts: TimeStamp,
) -> (Result<(), ErrorView>, TxnView) {
    let t0 = if should_not_exist {
        TxnView { max_ts: updated_max_ts(txn.max_ts, for_update_ts), ..txn }
    } else {
        txn
    };
    let staged = t0.with_modify(
        ModifyView::PessimisticDagger(
            key,
            PessimisticDaggerView { primary, start_ts, ttl: dagger_ttl, for_update_ts, min_commit_ts },
        ),
    );
    match load_dagger_spec(snapshot, term, version, key) {
        Err(e) => (Err(e), t0),
        Ok(Some(dagger)) => if dagger.ts != start_ts {
            (Err(with_raw_key(key, |raw: Seq<u8>| ErrorView::KeyIsDaggered { key: raw, dagger })), t0)
        } else if dagger.dagger_type != DaggerType::Pessimistic {
            (
                Err(
                    with_raw_key(
                        key,
                        |raw: Seq<u8>|
                            ErrorView::DaggerTypeNotMatch { start_ts, key: raw, pessimistic: false },
                    ),
                ),
                t0,
            )
        } else if for_update_ts@ > dagger.for_update_ts@ {
            (Ok(()), staged)
        } else {
            (Ok(()), t0)
        },
        Ok(None) => match acquire_check_spec(
            snapshot,
            start_ts,
            key,
            primary,
            should_not_exist,
            for_update_ts,
        ) {
            Err(e) => (Err(e), t0),
            Ok(()) => (Ok(()), staged),
        },
    }
}

fn raw_key(key: &Key) -> (r: Result<Vec<u8>, Error>)
    ensures
        match r {
            Ok(raw) => crate::codec::decode_bytes_spec(key@) == Some(raw@),
            Err(e) => crate::codec::decode_bytes_spec(key@) is None && e@ == ErrorView::Codec(
                CodecError::KeyPadding,
            ),
        },
{
    match key.to_cocauset() {
        Ok(raw) => Ok(raw),
        Err(e) => Err(Error::Codec(e)),
    }
}

fn acquire_check(
    reader: &mut blackbraneReader,
    key: &Key,
    primary: &[u8],
    should_not_exist: bool,
    for_update_ts: TimeStamp,
) -> (r: Result<(), Error>)
    ensures
        final(reader).same_source(old(reader)),
        match r {
            Ok(()) => acquire_check_spec(
                old(reader).reader.snapshot(),
                old(reader).start_ts,
                key@,
                primary@,
                should_not_exist,
                for_update_ts,
            ) == Ok::<(), ErrorView>(()),
            Err(e) => acquire_check_spec(
                old(reader).reader.snapshot(),
                old(reader).start_ts,
                key@,
                primary@,
                should_not_exist,
                for_update_ts,
            ) == Err::<(), ErrorView>(e@),
        },
{
    let start_ts = reader.start_ts;
    let (commit_ts, write) = match reader.seek_write(key, TimeStamp::max()) {
        Err(e) => {
            return Err(e);
        },
        Ok(None) => {
            return Ok(());
        },
        Ok(Some(found)) => found,
    };
    // The transaction has read the key as of `for_update_ts`: a version
    // committed after that makes it read again.
    if commit_ts.into_inner() > for_update_ts.into_inner() {
        return match raw_key(key) {
            Ok(raw) => Err(
                Error::WriteConflict {
                    start_ts,
                    conflict_start_ts: write.start_ts,
                    conflict_commit_ts: commit_ts,
                    key: raw,
                    primary: copy_bytes(primary),
                },
            ),
            Err(e) => Err(e),
        };
    }
    let rolled_back = match write.write_type {
        WriteType::Rollback => true,
        _ => write.has_overlapped_rollback,
    };
    if commit_ts.into_inner() == start_ts.into_inner() && rolled_back {
        return match raw_key(key) {
            Ok(raw) => Err(Error::PessimisticDaggerRolledBack { start_ts, key: raw }),
            Err(e) => Err(e),
        };
    }
    // A rollback record can only lie at the start timestamp, which newer
    // records may hide.
    if commit_ts.into_inner() > start_ts.into_inner() {
        match reader.seek_write(key, start_ts) {
            Err(e) => {
                return Err(e);
            },
            Ok(Some((older_commit_ts, older_write))) => {
                let older_rolled_back = match older_write.write_type {
                    WriteType::Rollback => true,
                    _ => older_write.has_overlapped_rollback,
                };
                if older_commit_ts.into_inner() == start_ts.into_inner() && older_rolled_back {
                    return match raw_key(key) {
                        Ok(raw) => Err(Error::PessimisticDaggerRolledBack { start_ts, key: raw }),
                        Err(e) => Err(e),
                    };
                }
            },
            Ok(None) => {},
        }
    }
    check_data_constraint(reader, should_not_exist, &write, commit_ts, key)
}

/// Locks `key` for the reader's pessimistic transaction, as of
/// `for_update_ts`: stages a pessimistic dagger on the key.
pub fn acquire_pessimistic_dagger(
    txn: &mut EpaxosTxn,
    reader: &mut blackbraneReader,
    key: Key,
    primary: &[u8],
    should_not_exist: bool,
    dagger_ttl: u64,
    for_update_ts: TimeStamp,
    min_commit_ts: TimeStamp,
) -> (r: Result<(), Error>)
    ensures
        final(reader).same_source(old(reader)),
        match r {
            Ok(()) => acquire_pessimistic_dagger_spec(
                old(txn)@,
                old(reader).reader.snapshot(),
                old(reader).reader.term(),
                old(reader).reader.version(),
                old(reader).start_ts,
                key@,
                primary@,
                should_not_exist,
                dagger_ttl,
                for_update_ts,
                min_commit_ts,
            ) == (Ok::<(), ErrorView>(()), final(txn)@),
            Err(e) => acquire_pessimistic_dagger_spec(
                old(txn)@,
                old(reader).reader.snapshot(),
                old(reader).reader.term(),
                old(reader).reader.version(),
                old(reader).start_ts,
                key@,
                primary@,
                should_not_exist,
                dagger_ttl,
                for_update_ts,
                min_commit_ts,
            ) == (Err::<(), ErrorView>(e@), final(txn)@),
        },
{
    // An insert reads the key as of `for_update_ts`.
    if should_not_exist {
        txn.concurrency_manager.update_max_ts(for_update_ts);
    }
    let start_ts = reader.start_ts;
    let found = match reader.load_dagger(&key) {
        Ok(d) => d,
        Err(e) => {
            return Err(e);
        },
    };
    match found {
        Some(dagger) => {
            if dagger.ts.into_inner() != start_ts.into_inner() {
                return match raw_key(&key) {
                    Ok(raw) => Err(Error::KeyIsDaggered { key: raw, dagger }),
                    Err(e) => Err(e),
                };
            }
            match dagger.dagger_type {
                DaggerType::Pessimistic => {},
                _ => {
                    return match raw_key(&key) {
                        Ok(raw) => Err(
                            Error::DaggerTypeNotMatch { start_ts, key: raw, pessimistic: false },
                        ),
                        Err(e) => Err(e),
                    };
                },
            }
            // Only a later lock overwrites the dagger.
            if for_update_ts.into_inner() > dagger.for_update_ts.into_inner() {
                txn.put_pessimistic_dagger(
                    key,
                    PessimisticDagger {
                        primary: copy_bytes(primary),
                        start_ts,
                        ttl: dagger_ttl,
                        for_update_ts,
                        min_commit_ts,
                    },
                );
            }
            Ok(())
        },
        None => {
            match acquire_check(reader, &key, primary, should_not_exist, for_update_ts) {
                Ok(()) => {},
                Err(e) => {
                    return Err(e);
                },
            }
            txn.put_pessimistic_dagger(
                key,
                PessimisticDagger {
                    primary: copy_bytes(primary),
                    start_ts,
                    ttl: dagger_ttl,
                    for_update_ts,
                    min_commit_ts,
                },
            );
            Ok(())
        },
    }
}

} // verus!
